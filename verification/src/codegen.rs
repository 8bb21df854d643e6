//! The text rules that the bindings generator applies: how `slang.h` names
//! become Rust names, which generated types get the serde attributes, which
//! prebuilt platform a host maps to, and how the `#[repr]` of a few unscoped
//! enums is normalized.

use vstd::prelude::*;
use crate::text::{
    matches_at, string_of, chars_equal, ascii_lower, ascii_upper, char_is_alphabetic, char_is_uppercase, chars_of, is_alphabetic,
    is_uppercase, push_char, to_ascii_lower, to_ascii_upper,
};

verus! {

/// True when every alphabetic character of `s` is uppercase: such a name is
/// `SNAKE_CASE`, and the rest of each word is lowered.
pub open spec fn all_alphabetic_uppercase(s: Seq<char>) -> bool {
    forall|i: int| 0 <= i < s.len() && char_is_alphabetic(#[trigger] s[i]) ==> char_is_uppercase(s[i])
}

/// The character that stands for `s[i]` in the PascalCase name: the first
/// character of each `_`-separated word is uppercased, the others lowered
/// when `lower` holds and kept otherwise.
pub open spec fn pascal_char(s: Seq<char>, i: int, lower: bool) -> char {
    if i == 0 || s[i - 1] == '_' {
        ascii_upper(s[i])
    } else if lower {
        ascii_lower(s[i])
    } else {
        s[i]
    }
}

/// The PascalCase text made from the first `n` characters of `s`: each
/// character but `_` in turn, as `pascal_char` gives it.
pub open spec fn pascal_prefix(s: Seq<char>, n: nat, lower: bool) -> Seq<char>
    decreases n,
{
    if n == 0 {
        Seq::empty()
    } else if s[n - 1] == '_' {
        pascal_prefix(s, (n - 1) as nat, lower)
    } else {
        pascal_prefix(s, (n - 1) as nat, lower).push(pascal_char(s, n - 1, lower))
    }
}

/// `snake_case` or `SNAKE_CASE` converted to `PascalCase`.
pub open spec fn pascal_case_text(s: Seq<char>) -> Seq<char> {
    pascal_prefix(s, s.len(), all_alphabetic_uppercase(s))
}

/// Converts `snake_case` or `SNAKE_CASE` to `PascalCase`.
/// If the input is already in `PascalCase` it will be returned as is.
pub fn pascal_case_from_snake_case(snake_case: &str) -> (result: String)
    ensures
        result@ == pascal_case_text(snake_case@),
{
    let chars = chars_of(snake_case);
    let n = chars.len();

    let mut should_lower = true;
    let mut i: usize = 0;
    while i < n
        invariant
            n == chars@.len(),
            i <= n,
            should_lower == (forall|k: int|
                0 <= k < i && char_is_alphabetic(#[trigger] chars@[k]) ==> char_is_uppercase(
                    chars@[k],
                )),
        decreases n - i,
    {
        let c = chars[i];
        if is_alphabetic(c) && !is_uppercase(c) {
            should_lower = false;
        }
        i = i + 1;
    }
    pascal_case_lowering(snake_case, should_lower)
}

/// The PascalCase conversion once it is known whether the name is
/// `SNAKE_CASE`: each `_`-separated word starts uppercase, and its other
/// characters are lowered when `should_lower` holds and kept otherwise.
pub fn pascal_case_lowering(snake_case: &str, should_lower: bool) -> (result: String)
    ensures
        result@ == pascal_prefix(snake_case@, snake_case@.len(), should_lower),
{
    let chars = chars_of(snake_case);
    let n = chars.len();
    let mut result = String::new();
    let mut j: usize = 0;
    while j < n
        invariant
            n == chars@.len(),
            chars@ == snake_case@,
            j <= n,
            result@ == pascal_prefix(chars@, j as nat, should_lower),
        decreases n - j,
    {
        let c = chars[j];
        if c != '_' {
            let out = if j == 0 || chars[j - 1] == '_' {
                to_ascii_upper(c)
            } else if should_lower {
                to_ascii_lower(c)
            } else {
                c
            };
            push_char(&mut result, out);
        }
        j = j + 1;
    }
    result
}

/// A name that is already PascalCase comes back unchanged: no `_`, a first
/// character that is not an ASCII lowercase letter, and some alphabetic
/// character that is not uppercase (else the name reads as `SNAKE_CASE`).
pub proof fn law_pascal_case_keeps_pascal_names(s: Seq<char>)
    ensures
        ({
            &&& forall|i: int| 0 <= i < s.len() ==> s[i] != '_'
            &&& s.len() > 0 ==> !('a' <= s[0] <= 'z')
            &&& exists|i: int|
                0 <= i < s.len() && char_is_alphabetic(#[trigger] s[i]) && !char_is_uppercase(s[i])
        }) ==> pascal_case_text(s) == s,
{
    if (forall|i: int| 0 <= i < s.len() ==> s[i] != '_') && (s.len() > 0 ==> !('a' <= s[0] <= 'z'))
        && (exists|i: int|
        0 <= i < s.len() && char_is_alphabetic(#[trigger] s[i]) && !char_is_uppercase(s[i])) {
        assert(!all_alphabetic_uppercase(s));
        lemma_pascal_prefix_identity(s, s.len());
        assert(s.take(s.len() as int) =~= s);
    }
}

proof fn lemma_pascal_prefix_facts(s: Seq<char>, n: nat, lower: bool)
    requires
        n <= s.len(),
    ensures
        forall|k: int| 0 <= k < pascal_prefix(s, n, lower).len() ==> #[trigger] pascal_prefix(s, n, lower)[k] != '_',
        pascal_prefix(s, n, lower).len() <= n,
        n > 0 && s[0] != '_' ==> pascal_prefix(s, n, lower).len() > 0 && pascal_prefix(s, n, lower)[0]
            == ascii_upper(s[0]),
    decreases n,
{
    if n > 0 {
        lemma_pascal_prefix_facts(s, (n - 1) as nat, lower);
        let p = pascal_prefix(s, (n - 1) as nat, lower);
        if s[n - 1] != '_' {
            let c = pascal_char(s, n - 1, lower);
            assert(c != '_') by {
                if n - 1 == 0 || s[n - 2] == '_' {
                } else if lower {
                }
            }
            assert(pascal_prefix(s, n, lower) == p.push(c));
            if n == 1 {
                assert(p.len() == 0);
            }
        }
    }
}

/// The PascalCase name holds no `_`, is no longer than the input, and
/// starts with the input's first character in ASCII uppercase unless the
/// input starts with `_`.
pub proof fn law_pascal_case_shape(s: Seq<char>)
    ensures
        forall|k: int| 0 <= k < pascal_case_text(s).len() ==> #[trigger] pascal_case_text(s)[k] != '_',
        pascal_case_text(s).len() <= s.len(),
        s.len() > 0 && s[0] != '_' ==> pascal_case_text(s)[0] == ascii_upper(s[0]),
{
    lemma_pascal_prefix_facts(s, s.len(), all_alphabetic_uppercase(s));
}

proof fn lemma_pascal_prefix_identity(s: Seq<char>, n: nat)
    requires
        n <= s.len(),
        forall|i: int| 0 <= i < s.len() ==> s[i] != '_',
        s.len() > 0 ==> !('a' <= s[0] <= 'z'),
    ensures
        pascal_prefix(s, n, false) == s.take(n as int),
    decreases n,
{
    if n > 0 {
        lemma_pascal_prefix_identity(s, (n - 1) as nat);
        assert(s.take(n as int) =~= s.take(n - 1).push(s[n - 1]));
    }
}


/// The prefix that is trimmed off the variant names of the enum `enum_name`:
/// for most enums their own name, for two of them a shorter one.
pub open spec fn variant_prefix(enum_name: Seq<char>) -> Seq<char> {
    if enum_name == "SlangMatrixLayoutMode"@ {
        "SlangMatrixLayout"@
    } else if enum_name == "SlangCompileTarget"@ {
        "Slang"@
    } else {
        enum_name
    }
}

/// `s` with every leading repetition of `p` removed (`str::trim_start_matches`;
/// an empty `p` removes nothing).
pub open spec fn trim_start_text(s: Seq<char>, p: Seq<char>) -> Seq<char>
    decreases s.len(),
{
    if p.len() > 0 && p.len() <= s.len() && s.take(p.len() as int) == p {
        trim_start_text(s.skip(p.len() as int), p)
    } else {
        s
    }
}

/// The Rust name of the enumerator `original_variant_name` of the enum
/// `enum_name`: PascalCase, with the enum's prefix trimmed off. Names outside
/// an enum are left to the generator (`None`).
pub fn enum_variant_name(enum_name: Option<&str>, original_variant_name: &str) -> (r: Option<
    String,
>)
    ensures
        r is None <==> enum_name is None,
        enum_name matches Some(e) ==> (r matches Some(t) && t@ == trim_start_text(
            pascal_case_text(original_variant_name@),
            variant_prefix(e@),
        )),
{
    let enum_name = match enum_name {
        Some(e) => e,
        None => return None,
    };
    let name = chars_of(enum_name);
    let trim = if chars_equal(name.as_slice(), chars_of("SlangMatrixLayoutMode").as_slice()) {
        chars_of("SlangMatrixLayout")
    } else if chars_equal(name.as_slice(), chars_of("SlangCompileTarget").as_slice()) {
        chars_of("Slang")
    } else {
        name
    };
    let pascal = pascal_case_from_snake_case(original_variant_name);
    let new_name = chars_of(pascal.as_str());
    let n = new_name.len();
    let mut start: usize = 0;
    assert(new_name@.skip(0) =~= new_name@);
    while trim.len() > 0 && matches_at(new_name.as_slice(), start, trim.as_slice())
        invariant
            n == new_name@.len(),
            start <= n,
            trim_start_text(new_name@, trim@) == trim_start_text(new_name@.skip(start as int), trim@),
        decreases n - start,
    {
        proof {
            let rest = new_name@.skip(start as int);
            assert(rest.take(trim@.len() as int) =~= new_name@.subrange(
                start as int,
                start + trim@.len(),
            ));
            assert(rest.skip(trim@.len() as int) =~= new_name@.skip(start + trim@.len()));
        }
        start = start + trim.len();
    }
    proof {
        let rest = new_name@.skip(start as int);
        if trim@.len() > 0 && trim@.len() <= rest.len() {
            assert(rest.take(trim@.len() as int) =~= new_name@.subrange(
                start as int,
                start + trim@.len(),
            ));
        }
        assert(new_name@.subrange(start as int, n as int) =~= rest);
    }
    Some(string_of(new_name.as_slice(), start, n))
}


/// The attribute that puts the serde derives on a generated enum, behind the
/// `serde` feature.
pub open spec fn serde_attribute_text() -> Seq<char> {
    "#[cfg_attr(feature = \"serde\", derive(serde::Serialize, serde::Deserialize))]"@
}

/// True when `name` starts with `Slang`.
pub open spec fn is_slang_name(name: Seq<char>) -> bool {
    "Slang"@.len() <= name.len() && name.take("Slang"@.len() as int) == "Slang"@
}

/// The attributes added to the generated type `name`: the serde derives for
/// the enums whose name starts with `Slang`, nothing for any other type.
pub fn enum_attributes(name: &str, is_enum: bool) -> (r: Vec<String>)
    ensures
        r.len() == (if is_enum && is_slang_name(name@) { 1int } else { 0int }),
        r.len() == 1 ==> r[0]@ == serde_attribute_text(),
{
    let chars = chars_of(name);
    let prefix = chars_of("Slang");
    let mut r: Vec<String> = Vec::new();
    if is_enum && matches_at(chars.as_slice(), 0, prefix.as_slice()) {
        proof {
            assert(chars@.subrange(0, prefix@.len() as int) =~= chars@.take(prefix@.len() as int));
        }
        r.push(String::from_str(
            "#[cfg_attr(feature = \"serde\", derive(serde::Serialize, serde::Deserialize))]",
        ));
    } else {
        proof {
            if prefix@.len() <= chars@.len() {
                assert(chars@.subrange(0, prefix@.len() as int) =~= chars@.take(prefix@.len() as int));
            }
        }
    }
    r
}

/// The name that the prebuilt Slang releases give the platform of the
/// operating system `os` and architecture `arch`, where there is one.
pub open spec fn platform_name(os: Seq<char>, arch: Seq<char>) -> Option<Seq<char>> {
    if os == "linux"@ && arch == "x86_64"@ {
        Some("linux-x86_64"@)
    } else if os == "macos"@ && arch == "aarch64"@ {
        Some("macos-aarch64"@)
    } else if os == "windows"@ && arch == "x86_64"@ {
        Some("windows-x86_64"@)
    } else {
        None
    }
}

/// The prebuilt-release platform for a host, where a static library ships
/// for it; `None` for any other host.
pub fn prebuilt_platform(os: &str, arch: &str) -> (r: Option<&'static str>)
    ensures
        r is Some <==> platform_name(os@, arch@) is Some,
        r matches Some(p) ==> p@ == platform_name(os@, arch@)->0,
{
    let os_chars = chars_of(os);
    let arch_chars = chars_of(arch);
    let x86_64 = chars_of("x86_64");
    if chars_equal(os_chars.as_slice(), chars_of("linux").as_slice()) && chars_equal(
        arch_chars.as_slice(),
        x86_64.as_slice(),
    ) {
        Some("linux-x86_64")
    } else if chars_equal(os_chars.as_slice(), chars_of("macos").as_slice()) && chars_equal(
        arch_chars.as_slice(),
        chars_of("aarch64").as_slice(),
    ) {
        Some("macos-aarch64")
    } else if chars_equal(os_chars.as_slice(), chars_of("windows").as_slice()) && chars_equal(
        arch_chars.as_slice(),
        x86_64.as_slice(),
    ) {
        Some("windows-x86_64")
    } else {
        None
    }
}

/// The platform name that the prebuilt release archives use for a host;
/// only hosts that a static library ships for are accepted.
pub fn target_platform(os: &str, arch: &str) -> (r: &'static str)
    requires
        platform_name(os@, arch@) is Some,
    ensures
        r@ == platform_name(os@, arch@)->0,
{
    prebuilt_platform(os, arch).unwrap()
}

/// The pieces of `t` between newline characters, in order; there is one
/// more piece than there are newlines.
pub open spec fn newline_pieces(t: Seq<char>) -> Seq<Seq<char>>
    decreases t.len(),
{
    if t.len() == 0 {
        seq![Seq::empty()]
    } else {
        let p = newline_pieces(t.drop_last());
        if t.last() == '\n' {
            p.push(Seq::empty())
        } else {
            p.update(p.len() - 1, p.last().push(t.last()))
        }
    }
}

/// A line that ended in `\r\n`, without its `\r`.
pub open spec fn strip_cr(l: Seq<char>) -> Seq<char> {
    if l.len() > 0 && l.last() == '\r' {
        l.drop_last()
    } else {
        l
    }
}

/// The lines of `t` as `str::lines` gives them: split at `\n`, with a `\r`
/// before the `\n` removed, and no empty line after a final `\n`.
pub open spec fn text_lines(t: Seq<char>) -> Seq<Seq<char>> {
    let p = newline_pieces(t);
    let ended = Seq::new((p.len() - 1) as nat, |i: int| strip_cr(p[i]));
    if p.last().len() > 0 {
        ended.push(p.last())
    } else {
        ended
    }
}

/// `s` with every trailing repetition of `p` removed (`str::trim_end_matches`;
/// an empty `p` removes nothing).
pub open spec fn trim_end_text(s: Seq<char>, p: Seq<char>) -> Seq<char>
    decreases s.len(),
{
    if p.len() > 0 && p.len() <= s.len() && s.skip(s.len() - p.len()) == p {
        trim_end_text(s.take(s.len() - p.len()), p)
    } else {
        s
    }
}

/// The unscoped enums of `slang.h` without a fixed underlying type, whose
/// `#[repr]` differs between MSVC (`i32`) and the Itanium ABI (`u32`).
pub open spec fn is_itanium_u32_enum(name: Seq<char>) -> bool {
    ||| name == "_bindgen_ty_1"@
    ||| name == "_bindgen_ty_2"@
    ||| name == "_bindgen_ty_3"@
    ||| name == "slang__bindgen_ty_1"@
    ||| name == "SlangReflectionGenericArgType"@
}

/// True for a line `pub enum NAME {` that declares one of those enums.
pub open spec fn declares_itanium_enum(line: Seq<char>) -> bool {
    let head = "pub enum "@;
    &&& head.len() <= line.len()
    &&& line.take(head.len() as int) == head
    &&& is_itanium_u32_enum(trim_end_text(line.skip(head.len() as int), " {"@))
}

/// True when line `i` is an `#[repr(i32)]` that belongs to one of those
/// enums: the declaration follows within a few lines, after attributes.
pub open spec fn is_itanium_repr(lines: Seq<Seq<char>>, i: int) -> bool {
    &&& lines[i] == "#[repr(i32)]"@
    &&& exists|j: int| i <= j < lines.len() && j < i + 4 && declares_itanium_enum(#[trigger] lines[j])
}

/// The lines with each `#[repr(i32)]` of those enums turned into `#[repr(u32)]`.
pub open spec fn normalized_lines(lines: Seq<Seq<char>>) -> Seq<Seq<char>> {
    Seq::new(
        lines.len(),
        |i: int|
            if is_itanium_repr(lines, i) {
                "#[repr(u32)]"@
            } else {
                lines[i]
            },
    )
}

/// Each line followed by a newline.
pub open spec fn terminated_lines(lines: Seq<Seq<char>>) -> Seq<char>
    decreases lines.len(),
{
    if lines.len() == 0 {
        Seq::empty()
    } else {
        terminated_lines(lines.drop_last()) + lines.last() + seq!['\n']
    }
}

/// The bindings text with the `#[repr]` of those enums normalized to the
/// Itanium result: its lines, rewritten, joined by newlines, and a final
/// newline after them.
pub open spec fn normalized_text(t: Seq<char>) -> Seq<char> {
    let lines = normalized_lines(text_lines(t));
    if lines.len() == 0 {
        seq!['\n']
    } else {
        terminated_lines(lines)
    }
}

proof fn lemma_newline_pieces_nonempty(t: Seq<char>)
    ensures
        newline_pieces(t).len() >= 1,
    decreases t.len(),
{
    if t.len() > 0 {
        lemma_newline_pieces_nonempty(t.drop_last());
    }
}

/// The lines of `chars`, as `text_lines` gives them.
fn split_lines(chars: &[char]) -> (lines: Vec<Vec<char>>)
    ensures
        lines@.len() == text_lines(chars@).len(),
        forall|i: int| 0 <= i < lines@.len() ==> (#[trigger] lines@[i])@ == text_lines(chars@)[i],
{
    let mut lines: Vec<Vec<char>> = Vec::new();
    let mut cur: Vec<char> = Vec::new();
    let mut k: usize = 0;
    assert(chars@.take(0) =~= Seq::<char>::empty());
    while k < chars.len()
        invariant
            k <= chars@.len(),
            newline_pieces(chars@.take(k as int)).len() == lines@.len() + 1,
            newline_pieces(chars@.take(k as int)).last() == cur@,
            forall|i: int|
                0 <= i < lines@.len() ==> (#[trigger] lines@[i])@ == strip_cr(
                    newline_pieces(chars@.take(k as int))[i],
                ),
        decreases chars@.len() - k,
    {
        let c = chars[k];
        let ghost before = newline_pieces(chars@.take(k as int));
        assert(chars@.take(k as int + 1).drop_last() =~= chars@.take(k as int));
        if c == '\n' {
            if cur.len() > 0 && cur[cur.len() - 1] == '\r' {
                cur.pop();
            }
            lines.push(cur);
            cur = Vec::new();
        } else {
            cur.push(c);
        }
        k = k + 1;
        proof {
            let after = newline_pieces(chars@.take(k as int));
            assert forall|i: int| 0 <= i < lines@.len() implies (#[trigger] lines@[i])@ == strip_cr(
                after[i],
            ) by {
                if i < lines@.len() - 1 || c != '\n' {
                    assert(after[i] == before[i]);
                }
            }
        }
    }
    proof {
        assert(chars@.take(k as int) =~= chars@);
        lemma_newline_pieces_nonempty(chars@);
    }
    if cur.len() > 0 {
        lines.push(cur);
    }
    lines
}


/// True when `line` from `from` up to `to` holds the characters of `p`.
fn range_equals(line: &[char], from: usize, to: usize, p: &[char]) -> (r: bool)
    requires
        from <= to <= line@.len(),
    ensures
        r == (line@.subrange(from as int, to as int) == p@),
{
    if to - from != p.len() {
        return false;
    }
    matches_at(line, from, p)
}

fn declares_itanium_enum_exec(line: &[char]) -> (r: bool)
    ensures
        r == declares_itanium_enum(line@),
{
    let head = chars_of("pub enum ");
    let h = head.len();
    if !matches_at(line, 0, head.as_slice()) {
        proof {
            if h <= line@.len() {
                assert(line@.subrange(0, h as int) =~= line@.take(h as int));
            }
        }
        return false;
    }
    assert(line@.subrange(0, h as int) =~= line@.take(h as int));
    let brace = chars_of(" {");
    proof {
        reveal_strlit(" {");
    }
    let n = line.len();
    let mut end: usize = n;
    assert(line@.subrange(h as int, n as int) =~= line@.skip(h as int));
    while end - h >= 2 && matches_at(line, end - 2, brace.as_slice())
        invariant
            h <= end <= n == line@.len(),
            brace@ == " {"@,
            brace@.len() == 2,
            trim_end_text(line@.skip(h as int), brace@) == trim_end_text(
                line@.subrange(h as int, end as int),
                brace@,
            ),
        decreases end,
    {
        proof {
            let rest = line@.subrange(h as int, end as int);
            assert(rest.skip(rest.len() - 2) =~= line@.subrange(end - 2, end as int));
            assert(rest.take(rest.len() - 2) =~= line@.subrange(h as int, end - 2));
        }
        end = end - 2;
    }
    proof {
        let rest = line@.subrange(h as int, end as int);
        if rest.len() >= 2 {
            assert(rest.skip(rest.len() - 2) =~= line@.subrange(end - 2, end as int));
        }
    }
    range_equals(line, h, end, chars_of("_bindgen_ty_1").as_slice()) || range_equals(
        line,
        h,
        end,
        chars_of("_bindgen_ty_2").as_slice(),
    ) || range_equals(line, h, end, chars_of("_bindgen_ty_3").as_slice()) || range_equals(
        line,
        h,
        end,
        chars_of("slang__bindgen_ty_1").as_slice(),
    ) || range_equals(line, h, end, chars_of("SlangReflectionGenericArgType").as_slice())
}

/// Normalizes the `#[repr]` of the unscoped enums that `slang.h` declares
/// without a fixed underlying type. MSVC gives those `int`, while the Itanium
/// ABI picks `unsigned int` when no enumerator is negative, so the generated
/// `#[repr]` for them varies by target; this rewrites them to the Itanium
/// result so the bindings text is target-independent. Both are 32-bit, so the
/// ABI is unchanged.
pub fn normalize_enum_repr_lines(generated: &str) -> (r: String)
    ensures
        r@ == normalized_text(generated@),
{
    let chars = chars_of(generated);
    let lines = split_lines(chars.as_slice());
    let ghost all = text_lines(generated@);
    let ghost target = normalized_lines(all);
    let n = lines.len();
    let repr_i32 = chars_of("#[repr(i32)]");
    let repr_u32 = chars_of("#[repr(u32)]");
    let mut out = String::new();
    let mut i: usize = 0;
    while i < n
        invariant
            n == lines@.len() == all.len() == target.len(),
            all == text_lines(generated@),
            target == normalized_lines(all),
            forall|k: int| 0 <= k < n ==> (#[trigger] lines@[k])@ == all[k],
            repr_i32@ == "#[repr(i32)]"@,
            repr_u32@ == "#[repr(u32)]"@,
            i <= n,
            out@ == terminated_lines(target.take(i as int)),
        decreases n - i,
    {
        let mut renormalize = false;
        if chars_equal(lines[i].as_slice(), repr_i32.as_slice()) {
            let stop = if n - i < 4 {
                n
            } else {
                i + 4
            };
            let mut j: usize = i;
            while j < stop && !renormalize
                invariant
                    i <= j <= stop <= n,
                    stop == n || stop == i + 4,
                    stop <= i + 4,
                    n == lines@.len() == all.len(),
                    forall|k: int| 0 <= k < n ==> (#[trigger] lines@[k])@ == all[k],
                    renormalize ==> exists|m: int|
                        i <= m < all.len() && m < i + 4 && declares_itanium_enum(#[trigger] all[m]),
                    !renormalize ==> forall|m: int|
                        i <= m < j ==> !declares_itanium_enum(#[trigger] all[m]),
                decreases stop - j,
            {
                if declares_itanium_enum_exec(lines[j].as_slice()) {
                    renormalize = true;
                }
                j = j + 1;
            }
        }
        assert(renormalize == is_itanium_repr(all, i as int));
        let ghost before = out@;
        if renormalize {
            let mut k: usize = 0;
            while k < repr_u32.len()
                invariant
                    k <= repr_u32@.len(),
                    out@ == before + repr_u32@.take(k as int),
                decreases repr_u32@.len() - k,
            {
                push_char(&mut out, repr_u32[k]);
                assert(repr_u32@.take(k as int + 1) =~= repr_u32@.take(k as int).push(repr_u32@[k as int]));
                k = k + 1;
            }
            assert(repr_u32@.take(k as int) =~= repr_u32@);
        } else {
            let line = &lines[i];
            let mut k: usize = 0;
            while k < line.len()
                invariant
                    k <= line@.len(),
                    out@ == before + line@.take(k as int),
                decreases line@.len() - k,
            {
                push_char(&mut out, line[k]);
                assert(line@.take(k as int + 1) =~= line@.take(k as int).push(line@[k as int]));
                k = k + 1;
            }
            assert(line@.take(k as int) =~= line@);
        }
        push_char(&mut out, '\n');
        proof {
            assert(target.take(i as int + 1).drop_last() =~= target.take(i as int));
            assert(target[i as int] == (if renormalize { "#[repr(u32)]"@ } else { all[i as int] }));
        }
        i = i + 1;
    }
    if n == 0 {
        push_char(&mut out, '\n');
        assert(out@ =~= seq!['\n']);
    } else {
        assert(target.take(n as int) =~= target);
    }
    out
}


/// True when no line holds a newline or ends in a carriage return.
pub open spec fn plain_lines(lines: Seq<Seq<char>>) -> bool {
    forall|i: int|
        0 <= i < lines.len() ==> {
            &&& forall|k: int| 0 <= k < lines[i].len() ==> lines[i][k] != '\n'
            &&& !(lines[i].len() > 0 && lines[i].last() == '\r')
        }
}

proof fn lemma_pieces_have_no_newline(t: Seq<char>)
    ensures
        newline_pieces(t).len() >= 1,
        forall|i: int, k: int|
            0 <= i < newline_pieces(t).len() && 0 <= k < newline_pieces(t)[i].len()
                ==> newline_pieces(t)[i][k] != '\n',
    decreases t.len(),
{
    if t.len() > 0 {
        lemma_pieces_have_no_newline(t.drop_last());
        let p = newline_pieces(t.drop_last());
        if t.last() != '\n' {
            let q = newline_pieces(t);
            assert forall|i: int, k: int| 0 <= i < q.len() && 0 <= k < q[i].len() implies q[i][k]
                != '\n' by {
                if i == p.len() - 1 && k == p.last().len() {
                } else if i == p.len() - 1 {
                    assert(q[i][k] == p[i][k]);
                }
            }
        }
    }
}

proof fn lemma_pieces_append_plain(a: Seq<char>, b: Seq<char>)
    requires
        forall|k: int| 0 <= k < b.len() ==> b[k] != '\n',
    ensures
        newline_pieces(a + b) == newline_pieces(a).update(
            newline_pieces(a).len() - 1,
            newline_pieces(a).last() + b,
        ),
    decreases b.len(),
{
    lemma_newline_pieces_nonempty(a);
    if b.len() == 0 {
        assert(a + b =~= a);
        assert(newline_pieces(a).last() + b =~= newline_pieces(a).last());
        assert(newline_pieces(a).update(newline_pieces(a).len() - 1, newline_pieces(a).last())
            =~= newline_pieces(a));
    } else {
        let b0 = b.drop_last();
        lemma_pieces_append_plain(a, b0);
        assert((a + b).drop_last() =~= a + b0);
        assert((a + b).last() == b.last());
        assert(newline_pieces(a).last() + b0 + seq![b.last()] =~= newline_pieces(a).last() + b);
        let pa = newline_pieces(a);
        let prev = newline_pieces(a + b0);
        assert(b.last() != '\n') by {
            assert(b[b.len() - 1] != '\n');
        }
        assert(prev.len() == pa.len());
        assert(prev.last() == pa.last() + b0);
        assert(newline_pieces(a + b) == prev.update(prev.len() - 1, prev.last().push(b.last())));
        assert((pa.last() + b0).push(b.last()) =~= pa.last() + b);
        assert(newline_pieces(a + b) =~= newline_pieces(a).update(
            newline_pieces(a).len() - 1,
            newline_pieces(a).last() + b,
        ));
    }
}

proof fn lemma_pieces_of_terminated(lines: Seq<Seq<char>>)
    requires
        plain_lines(lines),
    ensures
        newline_pieces(terminated_lines(lines)) == lines.push(Seq::empty()),
    decreases lines.len(),
{
    if lines.len() == 0 {
        assert(newline_pieces(Seq::<char>::empty()) =~= seq![Seq::<char>::empty()]);
        assert(lines.push(Seq::empty()) =~= seq![Seq::<char>::empty()]);
    } else {
        let init = lines.drop_last();
        assert(plain_lines(init)) by {
            assert forall|i: int| 0 <= i < init.len() implies {
                &&& forall|k: int| 0 <= k < init[i].len() ==> init[i][k] != '\n'
                &&& !(init[i].len() > 0 && init[i].last() == '\r')
            } by {
                assert(init[i] == lines[i]);
            }
        }
        lemma_pieces_of_terminated(init);
        let a = terminated_lines(init);
        let l = lines.last();
        assert(forall|k: int| 0 <= k < l.len() ==> l[k] != '\n') by {
            assert(lines[lines.len() - 1] == l);
        }
        lemma_pieces_append_plain(a, l);
        let with_line = a + l;
        let t = terminated_lines(lines);
        assert(t == with_line + seq!['\n']);
        assert(t.drop_last() =~= with_line);
        assert(newline_pieces(with_line) =~= init.push(l));
        assert(init.push(l) =~= lines);
    }
}

proof fn lemma_lines_of_terminated(lines: Seq<Seq<char>>)
    requires
        plain_lines(lines),
    ensures
        text_lines(terminated_lines(lines)) == lines,
{
    lemma_pieces_of_terminated(lines);
    let p = newline_pieces(terminated_lines(lines));
    assert forall|i: int| 0 <= i < lines.len() implies strip_cr(p[i]) == lines[i] by {
        assert(p[i] == lines[i]);
    }
    assert(text_lines(terminated_lines(lines)) =~= lines);
}

proof fn lemma_text_lines_have_no_newline(t: Seq<char>)
    ensures
        forall|i: int, k: int|
            0 <= i < text_lines(t).len() && 0 <= k < text_lines(t)[i].len() ==> text_lines(t)[i][k]
                != '\n',
{
    lemma_pieces_have_no_newline(t);
    let p = newline_pieces(t);
    let l = text_lines(t);
    assert forall|i: int, k: int| 0 <= i < l.len() && 0 <= k < l[i].len() implies l[i][k] != '\n' by {
        if i < p.len() - 1 {
            assert(l[i] == strip_cr(p[i]));
            assert(l[i][k] == p[i][k]);
        } else {
            assert(l[i] == p[i]);
        }
    }
}

/// Normalizing keeps the number of lines and every line but the
/// `#[repr(i32)]` of the listed enums, each of which becomes `#[repr(u32)]`.
pub proof fn law_normalize_touches_only_reprs(lines: Seq<Seq<char>>)
    ensures
        normalized_lines(lines).len() == lines.len(),
        forall|i: int|
            0 <= i < lines.len() ==> #[trigger] normalized_lines(lines)[i] == lines[i] || (lines[i]
                == "#[repr(i32)]"@ && normalized_lines(lines)[i] == "#[repr(u32)]"@),
{
}

/// Normalizing is stable: normalizing its own output changes nothing, so
/// regenerated bindings compare equal. This holds for every text whose
/// lines do not end in a carriage return that `str::lines` keeps.
pub proof fn law_normalize_is_stable(t: Seq<char>)
    requires
        forall|i: int|
            0 <= i < text_lines(t).len() ==> !(#[trigger] text_lines(t)[i].len() > 0
                && text_lines(t)[i].last() == '\r'),
    ensures
        normalized_text(normalized_text(t)) == normalized_text(t),
{
    let l = text_lines(t);
    let n = normalized_lines(l);
    lemma_text_lines_have_no_newline(t);
    reveal_strlit("#[repr(u32)]");
    reveal_strlit("#[repr(i32)]");
    reveal_strlit("pub enum ");
    assert(plain_lines(n)) by {
        assert forall|i: int| 0 <= i < n.len() implies {
            &&& forall|k: int| 0 <= k < n[i].len() ==> n[i][k] != '\n'
            &&& !(n[i].len() > 0 && n[i].last() == '\r')
        } by {
            if is_itanium_repr(l, i) {
                assert(n[i] == "#[repr(u32)]"@);
            } else {
                assert(n[i] == l[i]);
                assert forall|k: int| 0 <= k < n[i].len() implies n[i][k] != '\n' by {
                    assert(l[i][k] != '\n');
                }
            }
        }
    }
    // The rewritten lines declare exactly the enums the input lines declare.
    assert forall|j: int| 0 <= j < n.len() implies declares_itanium_enum(#[trigger] n[j])
        == declares_itanium_enum(l[j]) by {
        if is_itanium_repr(l, j) {
            assert(l[j] == "#[repr(i32)]"@);
            assert(l[j].take(9)[0] == '#');
            assert(n[j].take(9)[0] == '#');
        }
    }
    assert(normalized_lines(n) =~= n) by {
        assert forall|i: int| 0 <= i < n.len() implies #[trigger] normalized_lines(n)[i] == n[i] by {
            if is_itanium_repr(n, i) {
                let j = choose|j: int| i <= j < n.len() && j < i + 4 && declares_itanium_enum(
                    #[trigger] n[j],
                );
                assert(declares_itanium_enum(l[j]));
                if !is_itanium_repr(l, i) {
                    assert(n[i] == l[i]);
                    assert(false);
                }
            }
        }
    }
    if n.len() == 0 {
        let once = normalized_text(t);
        assert(once == seq!['\n']);
        assert(once.drop_last() =~= Seq::<char>::empty());
        assert(once.last() == '\n');
        assert(newline_pieces(once.drop_last()) =~= seq![Seq::<char>::empty()]);
        assert(newline_pieces(once) =~= seq![Seq::<char>::empty(), Seq::<char>::empty()]);
        let l2 = text_lines(once);
        assert(l2 =~= seq![Seq::<char>::empty()]);
        let n2 = normalized_lines(l2);
        assert(!is_itanium_repr(l2, 0));
        assert(n2 =~= l2);
        assert(terminated_lines(n2) =~= seq!['\n']) by {
            assert(n2.drop_last() =~= Seq::<Seq<char>>::empty());
            assert(terminated_lines(n2.drop_last()) =~= Seq::<char>::empty());
            assert(n2.last() =~= Seq::<char>::empty());
        }
    } else {
        lemma_lines_of_terminated(n);
    }
}


/// True when `name` is one of the five unscoped enums of `slang.h` whose
/// `#[repr]` differs between MSVC and the Itanium ABI, each given by name.
pub open spec fn is_listed_enum_name(name: Seq<char>) -> bool {
    name == "SlangReflectionGenericArgType"@ || name == "slang__bindgen_ty_1"@ || name
        == "_bindgen_ty_3"@ || name == "_bindgen_ty_2"@ || name == "_bindgen_ty_1"@
}

/// Removing the repeated suffix `p` from `s + p` gives what removing it from
/// `s` gives, and a text that does not end in `p` is left as it is.
pub proof fn law_trim_end(s: Seq<char>, p: Seq<char>)
    ensures
        p.len() > 0 ==> trim_end_text(s + p, p) == trim_end_text(s, p),
        !(p.len() <= s.len() && s.skip(s.len() - p.len()) == p) ==> trim_end_text(s, p) == s,
{
    if p.len() > 0 {
        let t = s + p;
        assert(t.skip(t.len() - p.len()) =~= p);
        assert(t.take(t.len() - p.len()) =~= s);
    }
}

/// A line `pub enum NAME {` declares one of the enums whose `#[repr]` is
/// normalized exactly when `NAME` is one of the five listed by name.
pub proof fn law_declares_listed_enums(name: Seq<char>)
    requires
        !(2 <= name.len() && name.skip(name.len() - 2) == " {"@),
    ensures
        declares_itanium_enum("pub enum "@ + name + " {"@) <==> is_listed_enum_name(name),
{
    reveal_strlit("pub enum ");
    reveal_strlit(" {");
    let line = "pub enum "@ + name + " {"@;
    assert(line.take(9) =~= "pub enum "@);
    assert(line.skip(9) =~= name + " {"@);
    law_trim_end(name, " {"@);
}

/// A `#[repr(i32)]` line followed, within the next three lines, by the
/// declaration `pub enum NAME {` of a listed enum becomes `#[repr(u32)]`.
pub proof fn law_normalize_rewrites_listed_reprs(
    lines: Seq<Seq<char>>,
    i: int,
    j: int,
    name: Seq<char>,
)
    requires
        0 <= i <= j < lines.len(),
        j < i + 4,
        lines[i] == "#[repr(i32)]"@,
        is_listed_enum_name(name),
        lines[j] == "pub enum "@ + name + " {"@,
    ensures
        normalized_lines(lines)[i] == "#[repr(u32)]"@,
{
    reveal_strlit(" {");
    reveal_strlit("_bindgen_ty_1");
    reveal_strlit("_bindgen_ty_2");
    reveal_strlit("_bindgen_ty_3");
    reveal_strlit("slang__bindgen_ty_1");
    reveal_strlit("SlangReflectionGenericArgType");
    assert(!(2 <= name.len() && name.skip(name.len() - 2) == " {"@)) by {
        if 2 <= name.len() && name.skip(name.len() - 2) == " {"@ {
            assert(name.skip(name.len() - 2)[1] == '{');
            assert(name[name.len() - 1] == '{');
        }
    }
    law_declares_listed_enums(name);
    assert(declares_itanium_enum(lines[j]));
    assert(is_itanium_repr(lines, i));
}

/// A `#[repr(i32)]` line with no line starting `pub enum ` among it and the
/// next three lines is kept.
pub proof fn law_normalize_keeps_unrelated_reprs(lines: Seq<Seq<char>>, i: int)
    requires
        0 <= i < lines.len(),
        forall|j: int|
            i <= j < lines.len() && j < i + 4 ==> !(9 <= lines[j].len() && #[trigger] lines[j].take(9)
                == "pub enum "@),
    ensures
        normalized_lines(lines)[i] == lines[i],
{
    reveal_strlit("pub enum ");
}

/// The lines of newline-terminated lines are those lines, whenever no line
/// holds a newline or ends in a carriage return.
pub proof fn law_lines_of_terminated(lines: Seq<Seq<char>>)
    requires
        plain_lines(lines),
    ensures
        text_lines(terminated_lines(lines)) == lines,
{
    lemma_lines_of_terminated(lines);
}

/// The enums whose variants lose a prefix other than their own name are the
/// two named ones; every other enum has its own name trimmed.
pub proof fn law_variant_prefix(e: Seq<char>)
    ensures
        e == "SlangMatrixLayoutMode"@ ==> variant_prefix(e) == "SlangMatrixLayout"@,
        e == "SlangCompileTarget"@ ==> variant_prefix(e) == "Slang"@,
        e != "SlangMatrixLayoutMode"@ && e != "SlangCompileTarget"@ ==> variant_prefix(e) == e,
{
    reveal_strlit("SlangMatrixLayoutMode");
    reveal_strlit("SlangCompileTarget");
    assert("SlangCompileTarget"@.len() != "SlangMatrixLayoutMode"@.len());
}

/// Trimming the repeated prefix `p` from `p + s` gives what trimming it from
/// `s` gives, and a text that does not start with `p` is left as it is.
pub proof fn law_trim_start(s: Seq<char>, p: Seq<char>)
    ensures
        p.len() > 0 ==> trim_start_text(p + s, p) == trim_start_text(s, p),
        !(p.len() <= s.len() && s.take(p.len() as int) == p) ==> trim_start_text(s, p) == s,
{
    if p.len() > 0 {
        let t = p + s;
        assert(t.take(p.len() as int) =~= p);
        assert(t.skip(p.len() as int) =~= s);
    }
}

/// The platform of a prebuilt release is named by the operating system, a
/// hyphen and the architecture, and exists for exactly three hosts: 64-bit
/// x86 Linux and Windows, and ARM macOS.
pub proof fn law_platform_names(os: Seq<char>, arch: Seq<char>)
    ensures
        platform_name(os, arch) is Some <==> ((os == "linux"@ && arch == "x86_64"@) || (os
            == "macos"@ && arch == "aarch64"@) || (os == "windows"@ && arch == "x86_64"@)),
        platform_name(os, arch) matches Some(p) ==> p == os + "-"@ + arch,
{
    reveal_strlit("linux");
    reveal_strlit("macos");
    reveal_strlit("windows");
    reveal_strlit("x86_64");
    reveal_strlit("aarch64");
    reveal_strlit("-");
    reveal_strlit("linux-x86_64");
    reveal_strlit("macos-aarch64");
    reveal_strlit("windows-x86_64");
    if platform_name(os, arch) is Some {
        assert(platform_name(os, arch)->0 =~= os + "-"@ + arch);
    }
}

} // verus!
