//! Safe wrappers for the two bitfield-shaped reflection values.
//!
//! `slang.h` declares `SlangResourceShape` and `SlangBindingType` as bitfields:
//! a base shape/type in the low bits, plus independent flag bits, of which the
//! header names only a handful of products. The raw newtypes can hold any bit
//! pattern, which is correct but leaves the decoding to the caller. These
//! wrappers do the decoding: [`ResourceShape::base`] and [`BindingType::base`]
//! pull out the base value, and the predicates test the individual flags.
//!
//! The decode is total. A future Slang release that adds a base shape this
//! binding has no name for surfaces as [`BaseShape::Unrecognized`] rather than
//! anything worse, and the debug text shows any bit outside the masks the
//! header defines.

use vstd::prelude::*;
use crate::sys;
use crate::text::{
    decimal_text, hex_text, lemma_radix_digits_injective, lemma_radix_digits_shape, push_decimal,
    push_hex, radix_digits,
};

pub mod shape_bits;
pub mod binding_bits;

verus! {

/// The shape of a resource, with the flag bits stripped off.
///
/// [`BaseShape::Unknown`] is the header's own `SLANG_RESOURCE_UNKNOWN`, meaning
/// Slang could not classify the resource. [`BaseShape::Unrecognized`] means
/// this crate could not classify what Slang returned.
#[derive(Debug, Clone, Copy, PartialEq, Eq, Hash, Structural)]
pub enum BaseShape {
    /// The header's `SLANG_RESOURCE_NONE`; its debug text is `None`.
    NoShape,
    Texture1D,
    Texture2D,
    Texture3D,
    TextureCube,
    TextureBuffer,
    StructuredBuffer,
    ByteAddressBuffer,
    Unknown,
    AccelerationStructure,
    TextureSubpass,
    /// A base shape the pinned Slang produced and this crate has no name for,
    /// which means Slang gained a shape and [`BaseShape`] needs a variant.
    Unrecognized(u32),
}

impl BaseShape {
    /// The value that the base bits `bits` name; any other value is
    /// `Unrecognized(bits)`.
    pub open spec fn spec_from_bits(bits: u32) -> BaseShape {
        if bits == shape_bits::NONE {
            BaseShape::NoShape
        } else if bits == shape_bits::TEXTURE_1D {
            BaseShape::Texture1D
        } else if bits == shape_bits::TEXTURE_2D {
            BaseShape::Texture2D
        } else if bits == shape_bits::TEXTURE_3D {
            BaseShape::Texture3D
        } else if bits == shape_bits::TEXTURE_CUBE {
            BaseShape::TextureCube
        } else if bits == shape_bits::TEXTURE_BUFFER {
            BaseShape::TextureBuffer
        } else if bits == shape_bits::STRUCTURED_BUFFER {
            BaseShape::StructuredBuffer
        } else if bits == shape_bits::BYTE_ADDRESS_BUFFER {
            BaseShape::ByteAddressBuffer
        } else if bits == shape_bits::UNKNOWN {
            BaseShape::Unknown
        } else if bits == shape_bits::ACCELERATION_STRUCTURE {
            BaseShape::AccelerationStructure
        } else if bits == shape_bits::TEXTURE_SUBPASS {
            BaseShape::TextureSubpass
        } else {
            BaseShape::Unrecognized(bits)
        }
    }

    fn from_bits(bits: u32) -> (r: Self)
        ensures
            r == Self::spec_from_bits(bits),
    {
        if bits == shape_bits::NONE {
            Self::NoShape
        } else if bits == shape_bits::TEXTURE_1D {
            Self::Texture1D
        } else if bits == shape_bits::TEXTURE_2D {
            Self::Texture2D
        } else if bits == shape_bits::TEXTURE_3D {
            Self::Texture3D
        } else if bits == shape_bits::TEXTURE_CUBE {
            Self::TextureCube
        } else if bits == shape_bits::TEXTURE_BUFFER {
            Self::TextureBuffer
        } else if bits == shape_bits::STRUCTURED_BUFFER {
            Self::StructuredBuffer
        } else if bits == shape_bits::BYTE_ADDRESS_BUFFER {
            Self::ByteAddressBuffer
        } else if bits == shape_bits::UNKNOWN {
            Self::Unknown
        } else if bits == shape_bits::ACCELERATION_STRUCTURE {
            Self::AccelerationStructure
        } else if bits == shape_bits::TEXTURE_SUBPASS {
            Self::TextureSubpass
        } else {
            Self::Unrecognized(bits)
        }
    }

    /// The base bits that this value stands for.
    pub open spec fn spec_bits(self) -> u32 {
        match self {
            BaseShape::NoShape => shape_bits::NONE,
            BaseShape::Texture1D => shape_bits::TEXTURE_1D,
            BaseShape::Texture2D => shape_bits::TEXTURE_2D,
            BaseShape::Texture3D => shape_bits::TEXTURE_3D,
            BaseShape::TextureCube => shape_bits::TEXTURE_CUBE,
            BaseShape::TextureBuffer => shape_bits::TEXTURE_BUFFER,
            BaseShape::StructuredBuffer => shape_bits::STRUCTURED_BUFFER,
            BaseShape::ByteAddressBuffer => shape_bits::BYTE_ADDRESS_BUFFER,
            BaseShape::Unknown => shape_bits::UNKNOWN,
            BaseShape::AccelerationStructure => shape_bits::ACCELERATION_STRUCTURE,
            BaseShape::TextureSubpass => shape_bits::TEXTURE_SUBPASS,
            BaseShape::Unrecognized(bits) => bits,
        }
    }

    /// True for the values that the header names.
    pub open spec fn is_named(self) -> bool {
        !(self is Unrecognized)
    }

    /// The name this value goes by in debug text: its variant's name, with
    /// `None` for [`BaseShape::NoShape`] as the header names it, and the
    /// carried bits in decimal for `Unrecognized`.
    pub open spec fn debug_text(self) -> Seq<char> {
        match self {
            BaseShape::NoShape => "None"@,
            BaseShape::Texture1D => "Texture1D"@,
            BaseShape::Texture2D => "Texture2D"@,
            BaseShape::Texture3D => "Texture3D"@,
            BaseShape::TextureCube => "TextureCube"@,
            BaseShape::TextureBuffer => "TextureBuffer"@,
            BaseShape::StructuredBuffer => "StructuredBuffer"@,
            BaseShape::ByteAddressBuffer => "ByteAddressBuffer"@,
            BaseShape::Unknown => "Unknown"@,
            BaseShape::AccelerationStructure => "AccelerationStructure"@,
            BaseShape::TextureSubpass => "TextureSubpass"@,
            BaseShape::Unrecognized(bits) => "Unrecognized("@ + decimal_text(bits as nat) + ")"@,
        }
    }

    /// The name this value goes by in debug text, as a `String`.
    pub fn debug_string(&self) -> (s: String)
        ensures
            s@ == self.debug_text(),
    {
        let mut s = String::new();
        self.push_debug_text(&mut s);
        assert(s@ =~= self.debug_text());
        s
    }

    /// Appends the name this value goes by in debug text.
    fn push_debug_text(self, s: &mut String)
        ensures
            final(s)@ == old(s)@ + self.debug_text(),
    {
        match self {
            BaseShape::NoShape => s.append("None"),
            BaseShape::Texture1D => s.append("Texture1D"),
            BaseShape::Texture2D => s.append("Texture2D"),
            BaseShape::Texture3D => s.append("Texture3D"),
            BaseShape::TextureCube => s.append("TextureCube"),
            BaseShape::TextureBuffer => s.append("TextureBuffer"),
            BaseShape::StructuredBuffer => s.append("StructuredBuffer"),
            BaseShape::ByteAddressBuffer => s.append("ByteAddressBuffer"),
            BaseShape::Unknown => s.append("Unknown"),
            BaseShape::AccelerationStructure => s.append("AccelerationStructure"),
            BaseShape::TextureSubpass => s.append("TextureSubpass"),
            BaseShape::Unrecognized(bits) => {
                s.append("Unrecognized(");
                push_decimal(s, bits);
                s.append(")");
                assert(final(s)@ =~= old(s)@ + self.debug_text());
            },
        }
    }
}

/// The type of a binding, with the mutable flag stripped off.
///
/// [`BaseBindingType::Unknown`] is the header's own
/// `SLANG_BINDING_TYPE_UNKNOWN`; [`BaseBindingType::Unrecognized`] means this
/// crate could not classify what Slang returned.
#[derive(Debug, Clone, Copy, PartialEq, Eq, Hash, Structural)]
pub enum BaseBindingType {
    Unknown,
    Sampler,
    Texture,
    ConstantBuffer,
    ParameterBlock,
    TypedBuffer,
    RawBuffer,
    CombinedTextureSampler,
    InputRenderTarget,
    InlineUniformData,
    RayTracingAccelerationStructure,
    VaryingInput,
    VaryingOutput,
    ExistentialValue,
    PushConstant,
    /// A binding type the pinned Slang produced and this crate has no name for,
    /// which means Slang gained a type and [`BaseBindingType`] needs a variant.
    Unrecognized(u32),
}

impl BaseBindingType {
    /// The value that the base bits `bits` name; any other value is
    /// `Unrecognized(bits)`.
    pub open spec fn spec_from_bits(bits: u32) -> BaseBindingType {
        if bits == binding_bits::UNKNOWN {
            BaseBindingType::Unknown
        } else if bits == binding_bits::SAMPLER {
            BaseBindingType::Sampler
        } else if bits == binding_bits::TEXTURE {
            BaseBindingType::Texture
        } else if bits == binding_bits::CONSTANT_BUFFER {
            BaseBindingType::ConstantBuffer
        } else if bits == binding_bits::PARAMETER_BLOCK {
            BaseBindingType::ParameterBlock
        } else if bits == binding_bits::TYPED_BUFFER {
            BaseBindingType::TypedBuffer
        } else if bits == binding_bits::RAW_BUFFER {
            BaseBindingType::RawBuffer
        } else if bits == binding_bits::COMBINED_TEXTURE_SAMPLER {
            BaseBindingType::CombinedTextureSampler
        } else if bits == binding_bits::INPUT_RENDER_TARGET {
            BaseBindingType::InputRenderTarget
        } else if bits == binding_bits::INLINE_UNIFORM_DATA {
            BaseBindingType::InlineUniformData
        } else if bits == binding_bits::RAY_TRACING_ACCELERATION_STRUCTURE {
            BaseBindingType::RayTracingAccelerationStructure
        } else if bits == binding_bits::VARYING_INPUT {
            BaseBindingType::VaryingInput
        } else if bits == binding_bits::VARYING_OUTPUT {
            BaseBindingType::VaryingOutput
        } else if bits == binding_bits::EXISTENTIAL_VALUE {
            BaseBindingType::ExistentialValue
        } else if bits == binding_bits::PUSH_CONSTANT {
            BaseBindingType::PushConstant
        } else {
            BaseBindingType::Unrecognized(bits)
        }
    }

    fn from_bits(bits: u32) -> (r: Self)
        ensures
            r == Self::spec_from_bits(bits),
    {
        if bits == binding_bits::UNKNOWN {
            Self::Unknown
        } else if bits == binding_bits::SAMPLER {
            Self::Sampler
        } else if bits == binding_bits::TEXTURE {
            Self::Texture
        } else if bits == binding_bits::CONSTANT_BUFFER {
            Self::ConstantBuffer
        } else if bits == binding_bits::PARAMETER_BLOCK {
            Self::ParameterBlock
        } else if bits == binding_bits::TYPED_BUFFER {
            Self::TypedBuffer
        } else if bits == binding_bits::RAW_BUFFER {
            Self::RawBuffer
        } else if bits == binding_bits::COMBINED_TEXTURE_SAMPLER {
            Self::CombinedTextureSampler
        } else if bits == binding_bits::INPUT_RENDER_TARGET {
            Self::InputRenderTarget
        } else if bits == binding_bits::INLINE_UNIFORM_DATA {
            Self::InlineUniformData
        } else if bits == binding_bits::RAY_TRACING_ACCELERATION_STRUCTURE {
            Self::RayTracingAccelerationStructure
        } else if bits == binding_bits::VARYING_INPUT {
            Self::VaryingInput
        } else if bits == binding_bits::VARYING_OUTPUT {
            Self::VaryingOutput
        } else if bits == binding_bits::EXISTENTIAL_VALUE {
            Self::ExistentialValue
        } else if bits == binding_bits::PUSH_CONSTANT {
            Self::PushConstant
        } else {
            Self::Unrecognized(bits)
        }
    }

    /// The base bits that this value stands for.
    pub open spec fn spec_bits(self) -> u32 {
        match self {
            BaseBindingType::Unknown => binding_bits::UNKNOWN,
            BaseBindingType::Sampler => binding_bits::SAMPLER,
            BaseBindingType::Texture => binding_bits::TEXTURE,
            BaseBindingType::ConstantBuffer => binding_bits::CONSTANT_BUFFER,
            BaseBindingType::ParameterBlock => binding_bits::PARAMETER_BLOCK,
            BaseBindingType::TypedBuffer => binding_bits::TYPED_BUFFER,
            BaseBindingType::RawBuffer => binding_bits::RAW_BUFFER,
            BaseBindingType::CombinedTextureSampler => binding_bits::COMBINED_TEXTURE_SAMPLER,
            BaseBindingType::InputRenderTarget => binding_bits::INPUT_RENDER_TARGET,
            BaseBindingType::InlineUniformData => binding_bits::INLINE_UNIFORM_DATA,
            BaseBindingType::RayTracingAccelerationStructure => binding_bits::RAY_TRACING_ACCELERATION_STRUCTURE,
            BaseBindingType::VaryingInput => binding_bits::VARYING_INPUT,
            BaseBindingType::VaryingOutput => binding_bits::VARYING_OUTPUT,
            BaseBindingType::ExistentialValue => binding_bits::EXISTENTIAL_VALUE,
            BaseBindingType::PushConstant => binding_bits::PUSH_CONSTANT,
            BaseBindingType::Unrecognized(bits) => bits,
        }
    }

    /// True for the values that the header names.
    pub open spec fn is_named(self) -> bool {
        !(self is Unrecognized)
    }

    /// The name this value goes by in debug text: its variant's name, and
    /// the carried bits in decimal for `Unrecognized`.
    pub open spec fn debug_text(self) -> Seq<char> {
        match self {
            BaseBindingType::Unknown => "Unknown"@,
            BaseBindingType::Sampler => "Sampler"@,
            BaseBindingType::Texture => "Texture"@,
            BaseBindingType::ConstantBuffer => "ConstantBuffer"@,
            BaseBindingType::ParameterBlock => "ParameterBlock"@,
            BaseBindingType::TypedBuffer => "TypedBuffer"@,
            BaseBindingType::RawBuffer => "RawBuffer"@,
            BaseBindingType::CombinedTextureSampler => "CombinedTextureSampler"@,
            BaseBindingType::InputRenderTarget => "InputRenderTarget"@,
            BaseBindingType::InlineUniformData => "InlineUniformData"@,
            BaseBindingType::RayTracingAccelerationStructure => "RayTracingAccelerationStructure"@,
            BaseBindingType::VaryingInput => "VaryingInput"@,
            BaseBindingType::VaryingOutput => "VaryingOutput"@,
            BaseBindingType::ExistentialValue => "ExistentialValue"@,
            BaseBindingType::PushConstant => "PushConstant"@,
            BaseBindingType::Unrecognized(bits) => "Unrecognized("@ + decimal_text(bits as nat) + ")"@,
        }
    }

    /// The name this value goes by in debug text, as a `String`.
    pub fn debug_string(&self) -> (s: String)
        ensures
            s@ == self.debug_text(),
    {
        let mut s = String::new();
        self.push_debug_text(&mut s);
        assert(s@ =~= self.debug_text());
        s
    }

    /// Appends the name this value goes by in debug text.
    fn push_debug_text(self, s: &mut String)
        ensures
            final(s)@ == old(s)@ + self.debug_text(),
    {
        match self {
            BaseBindingType::Unknown => s.append("Unknown"),
            BaseBindingType::Sampler => s.append("Sampler"),
            BaseBindingType::Texture => s.append("Texture"),
            BaseBindingType::ConstantBuffer => s.append("ConstantBuffer"),
            BaseBindingType::ParameterBlock => s.append("ParameterBlock"),
            BaseBindingType::TypedBuffer => s.append("TypedBuffer"),
            BaseBindingType::RawBuffer => s.append("RawBuffer"),
            BaseBindingType::CombinedTextureSampler => s.append("CombinedTextureSampler"),
            BaseBindingType::InputRenderTarget => s.append("InputRenderTarget"),
            BaseBindingType::InlineUniformData => s.append("InlineUniformData"),
            BaseBindingType::RayTracingAccelerationStructure => s.append("RayTracingAccelerationStructure"),
            BaseBindingType::VaryingInput => s.append("VaryingInput"),
            BaseBindingType::VaryingOutput => s.append("VaryingOutput"),
            BaseBindingType::ExistentialValue => s.append("ExistentialValue"),
            BaseBindingType::PushConstant => s.append("PushConstant"),
            BaseBindingType::Unrecognized(bits) => {
                s.append("Unrecognized(");
                push_decimal(s, bits);
                s.append(")");
                assert(final(s)@ =~= old(s)@ + self.debug_text());
            },
        }
    }
}


/// True when `bits` has any bit of `flag` set.
pub open spec fn has_bits(bits: u32, flag: u32) -> bool {
    bits & flag != 0
}

/// `text` when `bits` has a bit of `flag` set, else nothing.
pub open spec fn flag_text(bits: u32, flag: u32, text: Seq<char>) -> Seq<char> {
    if has_bits(bits, flag) {
        text
    } else {
        Seq::empty()
    }
}

/// The debug suffix for the bits that no mask of the header names.
pub open spec fn unnamed_text(unnamed: u32) -> Seq<char> {
    if unnamed != 0 {
        "|UnnamedBits("@ + hex_text(unnamed as nat) + ")"@
    } else {
        Seq::empty()
    }
}

/// The base shape of the resource shape with bit pattern `bits`.
pub open spec fn shape_base(bits: u32) -> BaseShape {
    BaseShape::spec_from_bits(bits & shape_bits::BASE_MASK)
}

/// The debug text of the resource shape with bit pattern `bits`: its base,
/// then each flag that is set, then any bits the header does not name.
pub open spec fn shape_debug_text(bits: u32) -> Seq<char> {
    shape_base(bits).debug_text() + flag_text(bits, shape_bits::FEEDBACK, "|FEEDBACK"@) + flag_text(bits, shape_bits::SHADOW, "|SHADOW"@) + flag_text(bits, shape_bits::ARRAY, "|ARRAY"@) + flag_text(bits, shape_bits::MULTISAMPLE, "|MULTISAMPLE"@) + flag_text(bits, shape_bits::COMBINED, "|COMBINED"@) + unnamed_text(
        bits & !shape_bits::KNOWN_MASK,
    )
}

/// The base binding type of the binding type with bit pattern `bits`.
pub open spec fn binding_base(bits: u32) -> BaseBindingType {
    BaseBindingType::spec_from_bits(bits & binding_bits::BASE_MASK)
}

/// The debug text of the binding type with bit pattern `bits`.
pub open spec fn binding_debug_text(bits: u32) -> Seq<char> {
    binding_base(bits).debug_text() + flag_text(bits, binding_bits::MUTABLE, "|MUTABLE"@)
        + unnamed_text(bits & !binding_bits::KNOWN_MASK)
}

fn push_unnamed_text(s: &mut String, unnamed: u32)
    ensures
        final(s)@ == old(s)@ + unnamed_text(unnamed),
{
    if unnamed != 0 {
        s.append("|UnnamedBits(");
        push_hex(s, unnamed);
        s.append(")");
        assert(final(s)@ =~= old(s)@ + unnamed_text(unnamed));
    } else {
        assert(final(s)@ =~= old(s)@ + unnamed_text(unnamed));
    }
}

/// A resource shape: a [`BaseShape`] plus any of the texture flag bits.
///
/// Its view is the raw bit pattern.
#[derive(Clone, Copy, PartialEq, Eq, Hash, Structural)]
pub struct ResourceShape(sys::SlangResourceShape);

impl View for ResourceShape {
    type V = u32;

    closed spec fn view(&self) -> u32 {
        self.0.0
    }
}

impl ResourceShape {
    pub fn from_raw(raw: sys::SlangResourceShape) -> (s: Self)
        ensures
            s@ == raw.0,
    {
        Self(raw)
    }

    pub fn raw(self) -> (r: sys::SlangResourceShape)
        ensures
            r == sys::SlangResourceShape(self@),
    {
        self.0
    }

    pub fn base(self) -> (b: BaseShape)
        ensures
            b == shape_base(self@),
    {
        BaseShape::from_bits(self.0.0 & shape_bits::BASE_MASK)
    }

    pub fn is_feedback(self) -> (r: bool)
        ensures
            r == has_bits(self@, shape_bits::FEEDBACK),
    {
        self.has(shape_bits::FEEDBACK)
    }

    pub fn is_shadow(self) -> (r: bool)
        ensures
            r == has_bits(self@, shape_bits::SHADOW),
    {
        self.has(shape_bits::SHADOW)
    }

    pub fn is_array(self) -> (r: bool)
        ensures
            r == has_bits(self@, shape_bits::ARRAY),
    {
        self.has(shape_bits::ARRAY)
    }

    pub fn is_multisample(self) -> (r: bool)
        ensures
            r == has_bits(self@, shape_bits::MULTISAMPLE),
    {
        self.has(shape_bits::MULTISAMPLE)
    }

    /// True for a combined texture-sampler, such as GLSL's `sampler2D`.
    pub fn is_combined(self) -> (r: bool)
        ensures
            r == has_bits(self@, shape_bits::COMBINED),
    {
        self.has(shape_bits::COMBINED)
    }

    fn has(self, flag: u32) -> (r: bool)
        ensures
            r == has_bits(self@, flag),
    {
        self.0.0 & flag != 0
    }

    /// The text that identifies this shape in diagnostics, such as
    /// `Texture2D|ARRAY` or `Texture2D|UnnamedBits(0x200)`.
    pub fn debug_string(&self) -> (s: String)
        ensures
            s@ == shape_debug_text(self@),
    {
        let mut s = String::new();
        self.base().push_debug_text(&mut s);
        if self.has(shape_bits::FEEDBACK) {
            s.append("|FEEDBACK");
        }
        if self.has(shape_bits::SHADOW) {
            s.append("|SHADOW");
        }
        if self.has(shape_bits::ARRAY) {
            s.append("|ARRAY");
        }
        if self.has(shape_bits::MULTISAMPLE) {
            s.append("|MULTISAMPLE");
        }
        if self.has(shape_bits::COMBINED) {
            s.append("|COMBINED");
        }
        push_unnamed_text(&mut s, self.0.0 & !shape_bits::KNOWN_MASK);
        assert(s@ =~= shape_debug_text(self@));
        s
    }
}

/// A binding type: a [`BaseBindingType`] plus the mutable flag.
///
/// Its view is the raw bit pattern.
#[derive(Clone, Copy, PartialEq, Eq, Hash, Structural)]
pub struct BindingType(sys::SlangBindingType);

impl View for BindingType {
    type V = u32;

    closed spec fn view(&self) -> u32 {
        self.0.0
    }
}

impl BindingType {
    pub fn from_raw(raw: sys::SlangBindingType) -> (b: Self)
        ensures
            b@ == raw.0,
    {
        Self(raw)
    }

    pub fn raw(self) -> (r: sys::SlangBindingType)
        ensures
            r == sys::SlangBindingType(self@),
    {
        self.0
    }

    pub fn base(self) -> (b: BaseBindingType)
        ensures
            b == binding_base(self@),
    {
        BaseBindingType::from_bits(self.0.0 & binding_bits::BASE_MASK)
    }

    /// True for the writable form of a binding, such as `RWTexture2D`.
    pub fn is_mutable(self) -> (r: bool)
        ensures
            r == has_bits(self@, binding_bits::MUTABLE),
    {
        self.0.0 & binding_bits::MUTABLE != 0
    }

    /// The text that identifies this binding type in diagnostics, such as
    /// `TypedBuffer|MUTABLE`.
    pub fn debug_string(&self) -> (s: String)
        ensures
            s@ == binding_debug_text(self@),
    {
        let mut s = String::new();
        self.base().push_debug_text(&mut s);
        if self.is_mutable() {
            s.append("|MUTABLE");
        }
        push_unnamed_text(&mut s, self.0.0 & !binding_bits::KNOWN_MASK);
        assert(s@ =~= binding_debug_text(self@));
        s
    }
}


proof fn lemma_mask_values()
    ensures
        shape_bits::KNOWN_MASK == 0x1FF,
        binding_bits::KNOWN_MASK == 0x1FF,
{
    assert(0x0Fu32 | 0x10u32 | 0x20u32 | 0x40u32 | 0x80u32 | 0x100u32 == 0x1FFu32) by (bit_vector);
    assert(0xFFu32 | 0x100u32 == 0x1FFu32) by (bit_vector);
}

proof fn lemma_shape_bits_inverse(bits: u32)
    ensures
        BaseShape::spec_from_bits(bits).spec_bits() == bits,
{
}

proof fn lemma_binding_bits_inverse(bits: u32)
    ensures
        BaseBindingType::spec_from_bits(bits).spec_bits() == bits,
{
}

/// Two resource shapes with one bit pattern are one shape. Since `from_raw`
/// and `raw` carry the bit pattern unchanged, `from_raw(s.raw())` is `s`.
pub proof fn law_shape_raw_round_trip(a: ResourceShape, b: ResourceShape)
    ensures
        a@ == b@ <==> a == b,
{
}

/// The base shape depends on the base bits alone: setting bits outside the
/// base mask, flags named or not, never changes it.
pub proof fn law_shape_base_ignores_flags(bits: u32, extra: u32)
    requires
        extra & shape_bits::BASE_MASK == 0,
    ensures
        shape_base(bits | extra) == shape_base(bits),
{
    assert((bits | extra) & 0x0Fu32 == bits & 0x0Fu32) by (bit_vector)
        requires
            extra & 0x0Fu32 == 0,
    ;
}

/// Every named base shape combines with every set of the header's flag bits,
/// and the combination decodes back to that base, exactly those flags, and
/// no unnamed bits.
pub proof fn law_shape_compose_decompose(base: BaseShape, flags: u32)
    requires
        base.is_named(),
        flags & !shape_bits::EXT_MASK == 0,
    ensures
        shape_base(base.spec_bits() | flags) == base,
        has_bits(base.spec_bits() | flags, shape_bits::FEEDBACK) == has_bits(flags, shape_bits::FEEDBACK),
        has_bits(base.spec_bits() | flags, shape_bits::SHADOW) == has_bits(flags, shape_bits::SHADOW),
        has_bits(base.spec_bits() | flags, shape_bits::ARRAY) == has_bits(flags, shape_bits::ARRAY),
        has_bits(base.spec_bits() | flags, shape_bits::MULTISAMPLE) == has_bits(flags, shape_bits::MULTISAMPLE),
        has_bits(base.spec_bits() | flags, shape_bits::COMBINED) == has_bits(flags, shape_bits::COMBINED),
        (base.spec_bits() | flags) & !shape_bits::KNOWN_MASK == 0,
{
    let b = base.spec_bits();
    lemma_mask_values();
    assert(b <= 0x0F);
    assert((b | flags) & 0x0Fu32 == b
        && ((b | flags) & 0x10u32 != 0) == (flags & 0x10u32 != 0)
        && ((b | flags) & 0x20u32 != 0) == (flags & 0x20u32 != 0)
        && ((b | flags) & 0x40u32 != 0) == (flags & 0x40u32 != 0)
        && ((b | flags) & 0x80u32 != 0) == (flags & 0x80u32 != 0)
        && ((b | flags) & 0x100u32 != 0) == (flags & 0x100u32 != 0)
        && (b | flags) & !0x1FFu32 == 0) by (bit_vector)
        requires
            b <= 0x0F,
            flags & !0x1F0u32 == 0,
    ;
}

/// The decode loses nothing: the bits of the base, of each flag, and of
/// what no mask names together make up the whole bit pattern.
pub proof fn law_shape_decode_is_lossless(bits: u32)
    ensures
        bits == shape_base(bits).spec_bits()
            | (bits & shape_bits::FEEDBACK)
            | (bits & shape_bits::SHADOW)
            | (bits & shape_bits::ARRAY)
            | (bits & shape_bits::MULTISAMPLE)
            | (bits & shape_bits::COMBINED)
            | (bits & !shape_bits::KNOWN_MASK),
{
    lemma_mask_values();
    lemma_shape_bits_inverse(bits & shape_bits::BASE_MASK);
    assert(bits == (bits & 0x0Fu32) | (bits & 0x10u32) | (bits & 0x20u32) | (bits & 0x40u32)
        | (bits & 0x80u32) | (bits & 0x100u32) | (bits & !0x1FFu32)) by (bit_vector);
}

/// `Unrecognized` is given exactly for the base-bit values above the last
/// base shape the header names, and carries those base bits.
pub proof fn law_shape_unrecognized_exactly(bits: u32)
    ensures
        shape_base(bits) is Unrecognized <==> bits & shape_bits::BASE_MASK > shape_bits::TEXTURE_SUBPASS,
        shape_base(bits) matches BaseShape::Unrecognized(v) ==> v == bits & shape_bits::BASE_MASK,
{
    assert(bits & 0x0Fu32 <= 0x0F) by (bit_vector);
}

/// The debug text ends with the bits that no mask of the header names,
/// whenever there are any, and has no such suffix otherwise.
pub proof fn law_shape_debug_shows_unnamed_bits(bits: u32)
    ensures
        ({
            let text = shape_debug_text(bits);
            let tail = unnamed_text(bits & !shape_bits::KNOWN_MASK);
            &&& tail.len() <= text.len()
            &&& text.subrange(text.len() - tail.len(), text.len() as int) == tail
            &&& (tail.len() > 0 <==> bits & !shape_bits::KNOWN_MASK != 0)
        }),
{
    let tail = unnamed_text(bits & !shape_bits::KNOWN_MASK);
    let text = shape_debug_text(bits);
    assert(text.subrange(text.len() - tail.len(), text.len() as int) =~= tail);
}

/// Two binding types with one bit pattern are one binding type. Since
/// `from_raw` and `raw` carry the bit pattern unchanged, `from_raw(b.raw())`
/// is `b`.
pub proof fn law_binding_raw_round_trip(a: BindingType, b: BindingType)
    ensures
        a@ == b@ <==> a == b,
{
}

/// The base binding type depends on the base bits alone.
pub proof fn law_binding_base_ignores_flags(bits: u32, extra: u32)
    requires
        extra & binding_bits::BASE_MASK == 0,
    ensures
        binding_base(bits | extra) == binding_base(bits),
{
    assert((bits | extra) & 0xFFu32 == bits & 0xFFu32) by (bit_vector)
        requires
            extra & 0xFFu32 == 0,
    ;
}

/// Every named base binding type, with or without the mutable flag, decodes
/// back to that base and that flag, with no unnamed bits.
pub proof fn law_binding_compose_decompose(base: BaseBindingType, mutable: bool)
    requires
        base.is_named(),
    ensures
        ({
            let bits = base.spec_bits() | (if mutable { binding_bits::MUTABLE } else { 0 });
            &&& binding_base(bits) == base
            &&& has_bits(bits, binding_bits::MUTABLE) == mutable
            &&& bits & !binding_bits::KNOWN_MASK == 0
        }),
{
    let b = base.spec_bits();
    lemma_mask_values();
    assert(b <= 0x0E);
    assert((b | 0x100u32) & 0xFFu32 == b && (b | 0x100u32) & 0x100u32 != 0
        && (b | 0x100u32) & !0x1FFu32 == 0 && (b | 0u32) & 0xFFu32 == b
        && (b | 0u32) & 0x100u32 == 0 && (b | 0u32) & !0x1FFu32 == 0) by (bit_vector)
        requires
            b <= 0x0E,
    ;
}

/// The decode loses nothing: base bits, the mutable flag and the bits no
/// mask names together make up the whole bit pattern.
pub proof fn law_binding_decode_is_lossless(bits: u32)
    ensures
        bits == binding_base(bits).spec_bits() | (bits & binding_bits::MUTABLE) | (bits
            & !binding_bits::KNOWN_MASK),
{
    lemma_mask_values();
    lemma_binding_bits_inverse(bits & binding_bits::BASE_MASK);
    assert(bits == (bits & 0xFFu32) | (bits & 0x100u32) | (bits & !0x1FFu32)) by (bit_vector);
}

/// `Unrecognized` is given exactly for the base-bit values above the last
/// binding type the header names, and carries those base bits.
pub proof fn law_binding_unrecognized_exactly(bits: u32)
    ensures
        binding_base(bits) is Unrecognized <==> bits & binding_bits::BASE_MASK
            > binding_bits::PUSH_CONSTANT,
        binding_base(bits) matches BaseBindingType::Unrecognized(v) ==> v == bits
            & binding_bits::BASE_MASK,
{
    assert(bits & 0xFFu32 <= 0xFF) by (bit_vector);
}


/// The debug text of a binding type ends with the bits that no mask of the
/// header names, whenever there are any, and has no such suffix otherwise.
pub proof fn law_binding_debug_shows_unnamed_bits(bits: u32)
    ensures
        ({
            let text = binding_debug_text(bits);
            let tail = unnamed_text(bits & !binding_bits::KNOWN_MASK);
            &&& tail.len() <= text.len()
            &&& text.subrange(text.len() - tail.len(), text.len() as int) == tail
            &&& (tail.len() > 0 <==> bits & !binding_bits::KNOWN_MASK != 0)
        }),
{
    let tail = unnamed_text(bits & !binding_bits::KNOWN_MASK);
    let text = binding_debug_text(bits);
    assert(text.subrange(text.len() - tail.len(), text.len() as int) =~= tail);
}


/// The base shapes the header names, in the order of their values.
pub open spec fn named_shapes() -> Seq<BaseShape> {
    seq![
        BaseShape::NoShape,
        BaseShape::Texture1D,
        BaseShape::Texture2D,
        BaseShape::Texture3D,
        BaseShape::TextureCube,
        BaseShape::TextureBuffer,
        BaseShape::StructuredBuffer,
        BaseShape::ByteAddressBuffer,
        BaseShape::Unknown,
        BaseShape::AccelerationStructure,
        BaseShape::TextureSubpass,
    ]
}

/// The base binding types the header names, in the order of their values.
pub open spec fn named_binding_types() -> Seq<BaseBindingType> {
    seq![
        BaseBindingType::Unknown,
        BaseBindingType::Sampler,
        BaseBindingType::Texture,
        BaseBindingType::ConstantBuffer,
        BaseBindingType::ParameterBlock,
        BaseBindingType::TypedBuffer,
        BaseBindingType::RawBuffer,
        BaseBindingType::CombinedTextureSampler,
        BaseBindingType::InputRenderTarget,
        BaseBindingType::InlineUniformData,
        BaseBindingType::RayTracingAccelerationStructure,
        BaseBindingType::VaryingInput,
        BaseBindingType::VaryingOutput,
        BaseBindingType::ExistentialValue,
        BaseBindingType::PushConstant,
    ]
}

/// The base decode is the header's table: the values up to the last named
/// base shape decode to the shapes in order, every larger value to
/// `Unrecognized` of itself; so no two values decode alike.
pub proof fn law_shape_base_table(a: u32, b: u32)
    ensures
        a <= shape_bits::TEXTURE_SUBPASS ==> BaseShape::spec_from_bits(a) == named_shapes()[a as int],
        a > shape_bits::TEXTURE_SUBPASS ==> BaseShape::spec_from_bits(a) == BaseShape::Unrecognized(a),
        BaseShape::spec_from_bits(a) matches BaseShape::Unrecognized(x) ==> x == a && a
            > shape_bits::TEXTURE_SUBPASS,
        BaseShape::spec_from_bits(a) == BaseShape::spec_from_bits(b) ==> a == b,
{
    lemma_shape_bits_inverse(a);
    lemma_shape_bits_inverse(b);
}

/// The binding decode is the header's table: the values up to the last named
/// binding type decode to the types in order, every larger value to
/// `Unrecognized` of itself; so no two values decode alike.
pub proof fn law_binding_base_table(a: u32, b: u32)
    ensures
        a <= binding_bits::PUSH_CONSTANT ==> BaseBindingType::spec_from_bits(a)
            == named_binding_types()[a as int],
        a > binding_bits::PUSH_CONSTANT ==> BaseBindingType::spec_from_bits(a)
            == BaseBindingType::Unrecognized(a),
        BaseBindingType::spec_from_bits(a) matches BaseBindingType::Unrecognized(x) ==> x == a && a
            > binding_bits::PUSH_CONSTANT,
        BaseBindingType::spec_from_bits(a) == BaseBindingType::spec_from_bits(b) ==> a == b,
{
    lemma_binding_bits_inverse(a);
    lemma_binding_bits_inverse(b);
}

/// A flag test finds nothing in an empty mask, and finds a bit of a union
/// exactly when it finds a bit of one of its parts.
pub proof fn law_has_bits(bits: u32, a: u32, b: u32)
    ensures
        !has_bits(bits, 0),
        has_bits(bits, a | b) == (has_bits(bits, a) || has_bits(bits, b)),
{
    assert(bits & 0u32 == 0u32) by (bit_vector);
    assert((bits & (a | b) != 0u32) == (bits & a != 0u32 || bits & b != 0u32)) by (bit_vector);
}


/// True when `t` holds no `|`.
pub open spec fn bar_free(t: Seq<char>) -> bool {
    forall|i: int| 0 <= i < t.len() ==> #[trigger] t[i] != '|'
}

/// True when `t` is empty or starts with `|` followed by a character other
/// than `c`.
pub open spec fn empty_or_bar_not(t: Seq<char>, c: char) -> bool {
    t.len() == 0 || (t.len() >= 2 && t[0] == '|' && t[1] != c)
}

proof fn lemma_unrecognized_text(v: u32)
    ensures
        bar_free("Unrecognized("@ + decimal_text(v as nat) + ")"@),
        ("Unrecognized("@ + decimal_text(v as nat) + ")"@).len() >= 15,
        ("Unrecognized("@ + decimal_text(v as nat) + ")"@)[0] == 'U',
        ("Unrecognized("@ + decimal_text(v as nat) + ")"@)[2] == 'r',
        ("Unrecognized("@ + decimal_text(v as nat) + ")"@)[7] == 'n',
{
    reveal_strlit("Unrecognized(");
    reveal_strlit(")");
    lemma_radix_digits_shape(v as nat, 10);
    let d = decimal_text(v as nat);
    let t = "Unrecognized("@ + d + ")"@;
    assert forall|i: int| 0 <= i < t.len() implies #[trigger] t[i] != '|' by {
        if i < 13 {
        } else if i < 13 + d.len() {
            assert(t[i] == d[i - 13]);
        } else {
        }
    }
}

proof fn lemma_unrecognized_text_injective(v: u32, w: u32)
    requires
        "Unrecognized("@ + decimal_text(v as nat) + ")"@ == "Unrecognized("@ + decimal_text(
            w as nat,
        ) + ")"@,
    ensures
        v == w,
{
    reveal_strlit("Unrecognized(");
    reveal_strlit(")");
    let t = "Unrecognized("@ + decimal_text(v as nat) + ")"@;
    let dv = decimal_text(v as nat);
    let dw = decimal_text(w as nat);
    assert(t.subrange(13, t.len() - 1) =~= dv);
    assert(t.subrange(13, t.len() - 1) =~= dw);
    lemma_radix_digits_injective(v as nat, w as nat, 10);
}

proof fn lemma_shape_names(x: BaseShape, y: BaseShape)
    ensures
        bar_free(x.debug_text()),
        x.debug_text() == y.debug_text() ==> x == y,
{
    reveal_strlit("None");
    reveal_strlit("Texture1D");
    reveal_strlit("Texture2D");
    reveal_strlit("Texture3D");
    reveal_strlit("TextureCube");
    reveal_strlit("TextureBuffer");
    reveal_strlit("StructuredBuffer");
    reveal_strlit("ByteAddressBuffer");
    reveal_strlit("Unknown");
    reveal_strlit("AccelerationStructure");
    reveal_strlit("TextureSubpass");
    if let BaseShape::Unrecognized(v) = x {
        lemma_unrecognized_text(v);
    }
    if let BaseShape::Unrecognized(w) = y {
        lemma_unrecognized_text(w);
    }
    if x.debug_text() == y.debug_text() {
        let tx = x.debug_text();
        let ty = y.debug_text();
        assert(tx.len() == ty.len());
        assert(tx[0] == ty[0]);
        if tx.len() > 7 {
            assert(tx[7] == ty[7]);
        }
        if let BaseShape::Unrecognized(v) = x {
            if let BaseShape::Unrecognized(w) = y {
                lemma_unrecognized_text_injective(v, w);
            }
        }
    }
}

proof fn lemma_binding_names(x: BaseBindingType, y: BaseBindingType)
    ensures
        bar_free(x.debug_text()),
        x.debug_text() == y.debug_text() ==> x == y,
{
    reveal_strlit("Unknown");
    reveal_strlit("Sampler");
    reveal_strlit("Texture");
    reveal_strlit("ConstantBuffer");
    reveal_strlit("ParameterBlock");
    reveal_strlit("TypedBuffer");
    reveal_strlit("RawBuffer");
    reveal_strlit("CombinedTextureSampler");
    reveal_strlit("InputRenderTarget");
    reveal_strlit("InlineUniformData");
    reveal_strlit("RayTracingAccelerationStructure");
    reveal_strlit("VaryingInput");
    reveal_strlit("VaryingOutput");
    reveal_strlit("ExistentialValue");
    reveal_strlit("PushConstant");
    if let BaseBindingType::Unrecognized(v) = x {
        lemma_unrecognized_text(v);
    }
    if let BaseBindingType::Unrecognized(w) = y {
        lemma_unrecognized_text(w);
    }
    if x.debug_text() == y.debug_text() {
        let tx = x.debug_text();
        let ty = y.debug_text();
        assert(tx.len() == ty.len());
        assert(tx[0] == ty[0]);
        assert(tx[2] == ty[2]);
        if let BaseBindingType::Unrecognized(v) = x {
            if let BaseBindingType::Unrecognized(w) = y {
                lemma_unrecognized_text_injective(v, w);
            }
        }
    }
}

/// A text without `|` followed by a rest that is empty or starts with `|`
/// splits in one way only.
proof fn lemma_bar_split(x1: Seq<char>, y1: Seq<char>, x2: Seq<char>, y2: Seq<char>)
    requires
        x1 + y1 == x2 + y2,
        bar_free(x1),
        bar_free(x2),
        y1.len() == 0 || y1[0] == '|',
        y2.len() == 0 || y2[0] == '|',
    ensures
        x1 == x2,
        y1 == y2,
{
    let t = x1 + y1;
    if x1.len() < x2.len() {
        assert(t[x1.len() as int] == x2[x1.len() as int]);
        assert(y1.len() > 0);
        assert(t[x1.len() as int] == y1[0]);
    } else if x2.len() < x1.len() {
        assert(t[x2.len() as int] == x1[x2.len() as int]);
        assert(y2.len() > 0);
        assert(t[x2.len() as int] == y2[0]);
    }
    assert(x1 =~= t.take(x1.len() as int));
    assert(x2 =~= t.take(x2.len() as int));
    assert(y1 =~= t.skip(x1.len() as int));
    assert(y2 =~= t.skip(x2.len() as int));
}

/// An optional token `|X...` in front of a rest that does not start with
/// `|X` is present in one text exactly when it is present in the other.
proof fn lemma_peel_token(bits1: u32, bits2: u32, flag: u32, tok: Seq<char>, r1: Seq<char>, r2: Seq<char>)
    requires
        tok.len() >= 2,
        tok[0] == '|',
        flag_text(bits1, flag, tok) + r1 == flag_text(bits2, flag, tok) + r2,
        empty_or_bar_not(r1, tok[1]),
        empty_or_bar_not(r2, tok[1]),
    ensures
        has_bits(bits1, flag) == has_bits(bits2, flag),
        r1 == r2,
{
    let f1 = flag_text(bits1, flag, tok);
    let f2 = flag_text(bits2, flag, tok);
    let t = f1 + r1;
    if has_bits(bits1, flag) && !has_bits(bits2, flag) {
        assert(t[0] == tok[0] && t[1] == tok[1]);
        assert(r2 =~= t);
    } else if !has_bits(bits1, flag) && has_bits(bits2, flag) {
        assert((f2 + r2)[0] == tok[0] && (f2 + r2)[1] == tok[1]);
        assert(r1 =~= t);
    }
    assert(f1 == f2);
    assert(r1 =~= t.skip(f1.len() as int));
    assert(r2 =~= t.skip(f2.len() as int));
}

proof fn lemma_unnamed_text_injective(u1: u32, u2: u32)
    requires
        unnamed_text(u1) == unnamed_text(u2),
    ensures
        u1 == u2,
{
    reveal_strlit("|UnnamedBits(");
    reveal_strlit(")");
    if u1 != 0 && u2 != 0 {
        let t = unnamed_text(u1);
        let h1 = hex_text(u1 as nat);
        let h2 = hex_text(u2 as nat);
        assert(t.subrange(13, t.len() - 1) =~= h1);
        assert(t.subrange(13, t.len() - 1) =~= h2);
        assert(h1.skip(2) =~= radix_digits(u1 as nat, 16));
        assert(h2.skip(2) =~= radix_digits(u2 as nat, 16));
        lemma_radix_digits_injective(u1 as nat, u2 as nat, 16);
    } else if u1 != 0 || u2 != 0 {
        lemma_radix_digits_shape(u1 as nat, 16);
        lemma_radix_digits_shape(u2 as nat, 16);
        assert(unnamed_text(u1).len() != unnamed_text(u2).len());
    }
}

proof fn lemma_unnamed_text_start(u: u32)
    ensures
        unnamed_text(u).len() == 0 || (unnamed_text(u).len() >= 2 && unnamed_text(u)[0] == '|'
            && unnamed_text(u)[1] == 'U'),
{
    reveal_strlit("|UnnamedBits(");
}

proof fn lemma_flag_text_start(bits: u32, flag: u32, tok: Seq<char>, rest: Seq<char>, c: char)
    requires
        tok.len() >= 2,
        tok[0] == '|',
        tok[1] != c,
        empty_or_bar_not(rest, c),
    ensures
        empty_or_bar_not(flag_text(bits, flag, tok) + rest, c),
{
    let t = flag_text(bits, flag, tok) + rest;
    if has_bits(bits, flag) {
        assert(t[0] == tok[0] && t[1] == tok[1]);
    } else {
        assert(t =~= rest);
    }
}

spec fn shape_tail5(bits: u32) -> Seq<char> {
    unnamed_text(bits & !shape_bits::KNOWN_MASK)
}

spec fn shape_tail4(bits: u32) -> Seq<char> {
    flag_text(bits, shape_bits::COMBINED, "|COMBINED"@) + shape_tail5(bits)
}

spec fn shape_tail3(bits: u32) -> Seq<char> {
    flag_text(bits, shape_bits::MULTISAMPLE, "|MULTISAMPLE"@) + shape_tail4(bits)
}

spec fn shape_tail2(bits: u32) -> Seq<char> {
    flag_text(bits, shape_bits::ARRAY, "|ARRAY"@) + shape_tail3(bits)
}

spec fn shape_tail1(bits: u32) -> Seq<char> {
    flag_text(bits, shape_bits::SHADOW, "|SHADOW"@) + shape_tail2(bits)
}

spec fn shape_tail0(bits: u32) -> Seq<char> {
    flag_text(bits, shape_bits::FEEDBACK, "|FEEDBACK"@) + shape_tail1(bits)
}

/// Each rest of a shape's debug text after a flag token is empty or starts
/// with `|` and the letter of a later token.
#[verifier::spinoff_prover]
#[verifier::rlimit(50)]
proof fn lemma_shape_tails(bits: u32)
    ensures
        shape_debug_text(bits) == shape_base(bits).debug_text() + shape_tail0(bits),
        shape_tail0(bits).len() == 0 || shape_tail0(bits)[0] == '|',
        empty_or_bar_not(shape_tail1(bits), 'F'),
        empty_or_bar_not(shape_tail2(bits), 'S'),
        empty_or_bar_not(shape_tail3(bits), 'A'),
        empty_or_bar_not(shape_tail4(bits), 'M'),
        empty_or_bar_not(shape_tail5(bits), 'C'),
{
    reveal_strlit("|FEEDBACK");
    reveal_strlit("|SHADOW");
    reveal_strlit("|ARRAY");
    reveal_strlit("|MULTISAMPLE");
    reveal_strlit("|COMBINED");
    assert(shape_debug_text(bits) =~= shape_base(bits).debug_text() + shape_tail0(bits));
    lemma_unnamed_text_start(bits & !shape_bits::KNOWN_MASK);
    let t5 = shape_tail5(bits);
    lemma_flag_text_start(bits, shape_bits::COMBINED, "|COMBINED"@, t5, 'M');
    lemma_flag_text_start(bits, shape_bits::COMBINED, "|COMBINED"@, t5, 'A');
    lemma_flag_text_start(bits, shape_bits::COMBINED, "|COMBINED"@, t5, 'S');
    lemma_flag_text_start(bits, shape_bits::COMBINED, "|COMBINED"@, t5, 'F');
    lemma_flag_text_start(bits, shape_bits::COMBINED, "|COMBINED"@, t5, '|');
    let t4 = shape_tail4(bits);
    lemma_flag_text_start(bits, shape_bits::MULTISAMPLE, "|MULTISAMPLE"@, t4, 'A');
    lemma_flag_text_start(bits, shape_bits::MULTISAMPLE, "|MULTISAMPLE"@, t4, 'S');
    lemma_flag_text_start(bits, shape_bits::MULTISAMPLE, "|MULTISAMPLE"@, t4, 'F');
    lemma_flag_text_start(bits, shape_bits::MULTISAMPLE, "|MULTISAMPLE"@, t4, '|');
    let t3 = shape_tail3(bits);
    lemma_flag_text_start(bits, shape_bits::ARRAY, "|ARRAY"@, t3, 'S');
    lemma_flag_text_start(bits, shape_bits::ARRAY, "|ARRAY"@, t3, 'F');
    lemma_flag_text_start(bits, shape_bits::ARRAY, "|ARRAY"@, t3, '|');
    let t2 = shape_tail2(bits);
    lemma_flag_text_start(bits, shape_bits::SHADOW, "|SHADOW"@, t2, 'F');
    lemma_flag_text_start(bits, shape_bits::SHADOW, "|SHADOW"@, t2, '|');
    let t1 = shape_tail1(bits);
    lemma_flag_text_start(bits, shape_bits::FEEDBACK, "|FEEDBACK"@, t1, '|');
}

/// No two resource shapes share a debug text: every set bit shows in it, as
/// the base, a named flag or part of the unnamed bits.
#[verifier::spinoff_prover]
#[verifier::rlimit(50)]
pub proof fn law_shape_debug_text_injective(a: u32, b: u32)
    ensures
        shape_debug_text(a) == shape_debug_text(b) ==> a == b,
{
    if shape_debug_text(a) == shape_debug_text(b) {
        reveal_strlit("|FEEDBACK");
        reveal_strlit("|SHADOW");
        reveal_strlit("|ARRAY");
        reveal_strlit("|MULTISAMPLE");
        reveal_strlit("|COMBINED");
        lemma_shape_tails(a);
        lemma_shape_tails(b);
        // The base comes first and holds no `|`.
        lemma_shape_names(shape_base(a), shape_base(b));
        lemma_shape_names(shape_base(b), shape_base(a));
        lemma_bar_split(
            shape_base(a).debug_text(),
            shape_tail0(a),
            shape_base(b).debug_text(),
            shape_tail0(b),
        );
        // Then the flags, one token at a time, and the unnamed bits.
        lemma_peel_token(a, b, shape_bits::FEEDBACK, "|FEEDBACK"@, shape_tail1(a), shape_tail1(b));
        lemma_peel_token(a, b, shape_bits::SHADOW, "|SHADOW"@, shape_tail2(a), shape_tail2(b));
        lemma_peel_token(a, b, shape_bits::ARRAY, "|ARRAY"@, shape_tail3(a), shape_tail3(b));
        lemma_peel_token(
            a,
            b,
            shape_bits::MULTISAMPLE,
            "|MULTISAMPLE"@,
            shape_tail4(a),
            shape_tail4(b),
        );
        lemma_peel_token(a, b, shape_bits::COMBINED, "|COMBINED"@, shape_tail5(a), shape_tail5(b));
        lemma_unnamed_text_injective(a & !shape_bits::KNOWN_MASK, b & !shape_bits::KNOWN_MASK);
        lemma_shape_bits_inverse(a & shape_bits::BASE_MASK);
        lemma_shape_bits_inverse(b & shape_bits::BASE_MASK);
        lemma_mask_values();
        assert(a == b) by (bit_vector)
            requires
                a & 0x0Fu32 == b & 0x0Fu32,
                (a & 0x10u32 != 0) == (b & 0x10u32 != 0),
                (a & 0x20u32 != 0) == (b & 0x20u32 != 0),
                (a & 0x40u32 != 0) == (b & 0x40u32 != 0),
                (a & 0x80u32 != 0) == (b & 0x80u32 != 0),
                (a & 0x100u32 != 0) == (b & 0x100u32 != 0),
                a & !0x1FFu32 == b & !0x1FFu32,
        ;
    }
}

/// No two binding types share a debug text: every set bit shows in it, as
/// the base, the mutable flag or part of the unnamed bits.
pub proof fn law_binding_debug_text_injective(a: u32, b: u32)
    ensures
        binding_debug_text(a) == binding_debug_text(b) ==> a == b,
{
    if binding_debug_text(a) == binding_debug_text(b) {
        reveal_strlit("|MUTABLE");
        lemma_mask_values();
        let ua = a & !binding_bits::KNOWN_MASK;
        let ub = b & !binding_bits::KNOWN_MASK;
        let ca1 = unnamed_text(ua);
        let cb1 = unnamed_text(ub);
        let ca0 = flag_text(a, binding_bits::MUTABLE, "|MUTABLE"@) + ca1;
        let cb0 = flag_text(b, binding_bits::MUTABLE, "|MUTABLE"@) + cb1;
        assert(binding_debug_text(a) =~= binding_base(a).debug_text() + ca0);
        assert(binding_debug_text(b) =~= binding_base(b).debug_text() + cb0);
        lemma_unnamed_text_start(ua);
        lemma_unnamed_text_start(ub);
        lemma_flag_text_start(a, binding_bits::MUTABLE, "|MUTABLE"@, ca1, '|');
        lemma_flag_text_start(b, binding_bits::MUTABLE, "|MUTABLE"@, cb1, '|');
        lemma_binding_names(binding_base(a), binding_base(b));
        lemma_binding_names(binding_base(b), binding_base(a));
        lemma_bar_split(binding_base(a).debug_text(), ca0, binding_base(b).debug_text(), cb0);
        lemma_peel_token(a, b, binding_bits::MUTABLE, "|MUTABLE"@, ca1, cb1);
        lemma_unnamed_text_injective(ua, ub);
        lemma_binding_bits_inverse(a & binding_bits::BASE_MASK);
        lemma_binding_bits_inverse(b & binding_bits::BASE_MASK);
        assert(a == b) by (bit_vector)
            requires
                a & 0xFFu32 == b & 0xFFu32,
                (a & 0x100u32 != 0) == (b & 0x100u32 != 0),
                a & !0x1FFu32 == b & !0x1FFu32,
        ;
    }
}


/// Each base shape goes by its variant's name in debug text (`None` for
/// [`BaseShape::NoShape`], as the header names it), and an unrecognized one
/// by `Unrecognized(` and its bits in decimal.
pub proof fn law_shape_names(v: u32)
    ensures
        BaseShape::NoShape.debug_text() == "None"@,
        BaseShape::Texture1D.debug_text() == "Texture1D"@,
        BaseShape::Texture2D.debug_text() == "Texture2D"@,
        BaseShape::Texture3D.debug_text() == "Texture3D"@,
        BaseShape::TextureCube.debug_text() == "TextureCube"@,
        BaseShape::TextureBuffer.debug_text() == "TextureBuffer"@,
        BaseShape::StructuredBuffer.debug_text() == "StructuredBuffer"@,
        BaseShape::ByteAddressBuffer.debug_text() == "ByteAddressBuffer"@,
        BaseShape::Unknown.debug_text() == "Unknown"@,
        BaseShape::AccelerationStructure.debug_text() == "AccelerationStructure"@,
        BaseShape::TextureSubpass.debug_text() == "TextureSubpass"@,
        BaseShape::Unrecognized(v).debug_text() == "Unrecognized("@ + decimal_text(v as nat) + ")"@,
{
}

/// Each base binding type goes by its variant's name in debug text, and an
/// unrecognized one by `Unrecognized(` and its bits in decimal.
pub proof fn law_binding_names(v: u32)
    ensures
        BaseBindingType::Unknown.debug_text() == "Unknown"@,
        BaseBindingType::Sampler.debug_text() == "Sampler"@,
        BaseBindingType::Texture.debug_text() == "Texture"@,
        BaseBindingType::ConstantBuffer.debug_text() == "ConstantBuffer"@,
        BaseBindingType::ParameterBlock.debug_text() == "ParameterBlock"@,
        BaseBindingType::TypedBuffer.debug_text() == "TypedBuffer"@,
        BaseBindingType::RawBuffer.debug_text() == "RawBuffer"@,
        BaseBindingType::CombinedTextureSampler.debug_text() == "CombinedTextureSampler"@,
        BaseBindingType::InputRenderTarget.debug_text() == "InputRenderTarget"@,
        BaseBindingType::InlineUniformData.debug_text() == "InlineUniformData"@,
        BaseBindingType::RayTracingAccelerationStructure.debug_text() == "RayTracingAccelerationStructure"@,
        BaseBindingType::VaryingInput.debug_text() == "VaryingInput"@,
        BaseBindingType::VaryingOutput.debug_text() == "VaryingOutput"@,
        BaseBindingType::ExistentialValue.debug_text() == "ExistentialValue"@,
        BaseBindingType::PushConstant.debug_text() == "PushConstant"@,
        BaseBindingType::Unrecognized(v).debug_text() == "Unrecognized("@ + decimal_text(v as nat)
            + ")"@,
{
}

/// The debug text of a named base shape with flags: the base, then the
/// flag names in the order feedback, shadow, array, multisample, combined,
/// each after a `|`; bits no mask names follow as `|UnnamedBits(0x..)`.
pub proof fn law_shape_debug_text_layout(base: BaseShape, unnamed: u32)
    requires
        base.is_named(),
        unnamed & 0x1FF == 0,
    ensures
        shape_debug_text(base.spec_bits()) == base.debug_text(),
        shape_debug_text(base.spec_bits() | 0x10) == base.debug_text() + "|FEEDBACK"@,
        shape_debug_text(base.spec_bits() | 0x20) == base.debug_text() + "|SHADOW"@,
        shape_debug_text(base.spec_bits() | 0x40) == base.debug_text() + "|ARRAY"@,
        shape_debug_text(base.spec_bits() | 0x80) == base.debug_text() + "|MULTISAMPLE"@,
        shape_debug_text(base.spec_bits() | 0x100) == base.debug_text() + "|COMBINED"@,
        shape_debug_text(base.spec_bits() | 0x1F0) == base.debug_text()
            + "|FEEDBACK|SHADOW|ARRAY|MULTISAMPLE|COMBINED"@,
        unnamed != 0 ==> shape_debug_text(base.spec_bits() | unnamed) == base.debug_text()
            + "|UnnamedBits("@ + hex_text(unnamed as nat) + ")"@,
{
    let b = base.spec_bits();
    lemma_mask_values();
    lemma_shape_bits_inverse(b);
    assert(b <= 0x0A);
    assert(b & 0x0Fu32 == b && b & 0x10u32 == 0 && b & 0x20u32 == 0 && b & 0x40u32 == 0
        && b & 0x80u32 == 0 && b & 0x100u32 == 0 && b & !0x1FFu32 == 0) by (bit_vector)
        requires
            b <= 0x0A,
    ;
    assert((b | 0x10u32) & 0x0Fu32 == b && (b | 0x10u32) & 0x10u32 != 0 && (b | 0x10u32) & 0x20u32 == 0
        && (b | 0x10u32) & 0x40u32 == 0 && (b | 0x10u32) & 0x80u32 == 0 && (b | 0x10u32) & 0x100u32 == 0
        && (b | 0x10u32) & !0x1FFu32 == 0) by (bit_vector)
        requires
            b <= 0x0A,
    ;
    assert((b | 0x20u32) & 0x0Fu32 == b && (b | 0x20u32) & 0x10u32 == 0 && (b | 0x20u32) & 0x20u32 != 0
        && (b | 0x20u32) & 0x40u32 == 0 && (b | 0x20u32) & 0x80u32 == 0 && (b | 0x20u32) & 0x100u32 == 0
        && (b | 0x20u32) & !0x1FFu32 == 0) by (bit_vector)
        requires
            b <= 0x0A,
    ;
    assert((b | 0x40u32) & 0x0Fu32 == b && (b | 0x40u32) & 0x10u32 == 0 && (b | 0x40u32) & 0x20u32 == 0
        && (b | 0x40u32) & 0x40u32 != 0 && (b | 0x40u32) & 0x80u32 == 0 && (b | 0x40u32) & 0x100u32 == 0
        && (b | 0x40u32) & !0x1FFu32 == 0) by (bit_vector)
        requires
            b <= 0x0A,
    ;
    assert((b | 0x80u32) & 0x0Fu32 == b && (b | 0x80u32) & 0x10u32 == 0 && (b | 0x80u32) & 0x20u32 == 0
        && (b | 0x80u32) & 0x40u32 == 0 && (b | 0x80u32) & 0x80u32 != 0 && (b | 0x80u32) & 0x100u32 == 0
        && (b | 0x80u32) & !0x1FFu32 == 0) by (bit_vector)
        requires
            b <= 0x0A,
    ;
    assert((b | 0x100u32) & 0x0Fu32 == b && (b | 0x100u32) & 0x10u32 == 0 && (b | 0x100u32) & 0x20u32 == 0
        && (b | 0x100u32) & 0x40u32 == 0 && (b | 0x100u32) & 0x80u32 == 0 && (b | 0x100u32) & 0x100u32 != 0
        && (b | 0x100u32) & !0x1FFu32 == 0) by (bit_vector)
        requires
            b <= 0x0A,
    ;
    assert((b | 0x1F0u32) & 0x0Fu32 == b && (b | 0x1F0u32) & 0x10u32 != 0 && (b | 0x1F0u32) & 0x20u32 != 0
        && (b | 0x1F0u32) & 0x40u32 != 0 && (b | 0x1F0u32) & 0x80u32 != 0 && (b | 0x1F0u32) & 0x100u32 != 0
        && (b | 0x1F0u32) & !0x1FFu32 == 0) by (bit_vector)
        requires
            b <= 0x0A,
    ;
    assert((b | unnamed) & 0x0Fu32 == b && (b | unnamed) & 0x10u32 == 0 && (b | unnamed) & 0x20u32 == 0
        && (b | unnamed) & 0x40u32 == 0 && (b | unnamed) & 0x80u32 == 0 && (b | unnamed) & 0x100u32 == 0
        && (b | unnamed) & !0x1FFu32 == unnamed) by (bit_vector)
        requires
            b <= 0x0A,
            unnamed & 0x1FFu32 == 0,
    ;
    reveal_strlit("|FEEDBACK");
    reveal_strlit("|SHADOW");
    reveal_strlit("|ARRAY");
    reveal_strlit("|MULTISAMPLE");
    reveal_strlit("|COMBINED");
    reveal_strlit("|FEEDBACK|SHADOW|ARRAY|MULTISAMPLE|COMBINED");
    let t = base.debug_text();
    assert(shape_debug_text(b) =~= t);
    assert(shape_debug_text(b | 0x10) =~= t + "|FEEDBACK"@);
    assert(shape_debug_text(b | 0x20) =~= t + "|SHADOW"@);
    assert(shape_debug_text(b | 0x40) =~= t + "|ARRAY"@);
    assert(shape_debug_text(b | 0x80) =~= t + "|MULTISAMPLE"@);
    assert(shape_debug_text(b | 0x100) =~= t + "|COMBINED"@);
    assert(shape_debug_text(b | 0x1F0) =~= t + "|FEEDBACK|SHADOW|ARRAY|MULTISAMPLE|COMBINED"@);
    if unnamed != 0 {
        assert(shape_debug_text(b | unnamed) =~= t + "|UnnamedBits("@ + hex_text(unnamed as nat)
            + ")"@);
    }
}

/// The debug text of a named base binding type: the base, then `|MUTABLE`
/// when the mutable flag is set; bits no mask names follow as
/// `|UnnamedBits(0x..)`.
pub proof fn law_binding_debug_text_layout(base: BaseBindingType, unnamed: u32)
    requires
        base.is_named(),
        unnamed & 0x1FF == 0,
    ensures
        binding_debug_text(base.spec_bits()) == base.debug_text(),
        binding_debug_text(base.spec_bits() | 0x100) == base.debug_text() + "|MUTABLE"@,
        unnamed != 0 ==> binding_debug_text(base.spec_bits() | unnamed) == base.debug_text()
            + "|UnnamedBits("@ + hex_text(unnamed as nat) + ")"@,
{
    let b = base.spec_bits();
    lemma_mask_values();
    lemma_binding_bits_inverse(b);
    assert(b <= 0x0E);
    assert(b & 0xFFu32 == b && b & 0x100u32 == 0 && b & !0x1FFu32 == 0
        && (b | 0x100u32) & 0xFFu32 == b && (b | 0x100u32) & 0x100u32 != 0
        && (b | 0x100u32) & !0x1FFu32 == 0) by (bit_vector)
        requires
            b <= 0x0E,
    ;
    assert((b | unnamed) & 0xFFu32 == b && (b | unnamed) & 0x100u32 == 0
        && (b | unnamed) & !0x1FFu32 == unnamed) by (bit_vector)
        requires
            b <= 0x0E,
            unnamed & 0x1FFu32 == 0,
    ;
    let t = base.debug_text();
    assert(binding_debug_text(b) =~= t);
    assert(binding_debug_text(b | 0x100) =~= t + "|MUTABLE"@);
    if unnamed != 0 {
        assert(binding_debug_text(b | unnamed) =~= t + "|UnnamedBits("@ + hex_text(unnamed as nat)
            + ")"@);
    }
}

} // verus!
