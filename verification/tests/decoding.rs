use shader_slang::sys;
use shader_slang::{BaseBindingType, BaseShape, BindingType, ResourceShape};

fn shape(bits: u32) -> ResourceShape {
    ResourceShape::from_raw(sys::SlangResourceShape(bits))
}

fn binding(bits: u32) -> BindingType {
    BindingType::from_raw(sys::SlangBindingType(bits))
}

const NAMED_SHAPES: [(u32, BaseShape); 11] = [
    (0x00, BaseShape::NoShape),
    (0x01, BaseShape::Texture1D),
    (0x02, BaseShape::Texture2D),
    (0x03, BaseShape::Texture3D),
    (0x04, BaseShape::TextureCube),
    (0x05, BaseShape::TextureBuffer),
    (0x06, BaseShape::StructuredBuffer),
    (0x07, BaseShape::ByteAddressBuffer),
    (0x08, BaseShape::Unknown),
    (0x09, BaseShape::AccelerationStructure),
    (0x0A, BaseShape::TextureSubpass),
];

const NAMED_BINDINGS: [(u32, BaseBindingType); 15] = [
    (0, BaseBindingType::Unknown),
    (1, BaseBindingType::Sampler),
    (2, BaseBindingType::Texture),
    (3, BaseBindingType::ConstantBuffer),
    (4, BaseBindingType::ParameterBlock),
    (5, BaseBindingType::TypedBuffer),
    (6, BaseBindingType::RawBuffer),
    (7, BaseBindingType::CombinedTextureSampler),
    (8, BaseBindingType::InputRenderTarget),
    (9, BaseBindingType::InlineUniformData),
    (10, BaseBindingType::RayTracingAccelerationStructure),
    (11, BaseBindingType::VaryingInput),
    (12, BaseBindingType::VaryingOutput),
    (13, BaseBindingType::ExistentialValue),
    (14, BaseBindingType::PushConstant),
];

#[test]
fn raw_round_trips() {
    for bits in [0u32, 0x42, 0x102, 0xFFFF_FFFF] {
        assert_eq!(shape(bits).raw(), sys::SlangResourceShape(bits));
        assert!(ResourceShape::from_raw(shape(bits).raw()) == shape(bits));
        assert_eq!(binding(bits).raw(), sys::SlangBindingType(bits));
        assert!(BindingType::from_raw(binding(bits).raw()) == binding(bits));
    }
}

#[test]
fn every_base_combines_with_every_flag_set() {
    for (bits, base) in NAMED_SHAPES {
        for flags in (0u32..32).map(|k| k << 4) {
            let s = shape(bits | flags);
            assert_eq!(s.base(), base);
            assert_eq!(s.is_feedback(), flags & 0x10 != 0);
            assert_eq!(s.is_shadow(), flags & 0x20 != 0);
            assert_eq!(s.is_array(), flags & 0x40 != 0);
            assert_eq!(s.is_multisample(), flags & 0x80 != 0);
            assert_eq!(s.is_combined(), flags & 0x100 != 0);
            assert!(!s.debug_string().contains("UnnamedBits"));
        }
    }
    for (bits, base) in NAMED_BINDINGS {
        assert_eq!(binding(bits).base(), base);
        assert!(!binding(bits).is_mutable());
        assert_eq!(binding(bits | 0x100).base(), base);
        assert!(binding(bits | 0x100).is_mutable());
    }
}

#[test]
fn base_ignores_bits_outside_the_base_mask() {
    assert_eq!(shape(0x03 | 0xFFFF_FFF0).base(), BaseShape::Texture3D);
    assert_eq!(shape(0x0C | 0x8000_0000).base(), BaseShape::Unrecognized(0x0C));
    assert_eq!(binding(0x06 | 0xFFFF_FF00).base(), BaseBindingType::RawBuffer);
}

#[test]
fn unrecognized_exactly_above_the_named_values() {
    for bits in 0u32..16 {
        let unrecognized = matches!(shape(bits).base(), BaseShape::Unrecognized(_));
        assert_eq!(unrecognized, bits > 0x0A);
    }
    for bits in 0u32..256 {
        let unrecognized = matches!(binding(bits).base(), BaseBindingType::Unrecognized(_));
        assert_eq!(unrecognized, bits > 14);
    }
    assert_eq!(shape(0x1F).base(), BaseShape::Unrecognized(0x0F));
    assert_eq!(binding(0x10F).base(), BaseBindingType::Unrecognized(0x0F));
}

#[test]
fn shape_debug_text() {
    assert_eq!(shape(0).debug_string(), "None");
    assert_eq!(
        shape(0x1F4).debug_string(),
        "TextureCube|FEEDBACK|SHADOW|ARRAY|MULTISAMPLE|COMBINED"
    );
    assert_eq!(
        shape(0xFFFF_FFFF).debug_string(),
        "Unrecognized(15)|FEEDBACK|SHADOW|ARRAY|MULTISAMPLE|COMBINED|UnnamedBits(0xfffffe00)"
    );
    assert_eq!(shape(0x8A).debug_string(), "TextureSubpass|MULTISAMPLE");
    assert_eq!(shape(0x1000).debug_string(), "None|UnnamedBits(0x1000)");
}

#[test]
fn binding_debug_text() {
    assert_eq!(binding(7).debug_string(), "CombinedTextureSampler");
    assert_eq!(binding(0x102).debug_string(), "Texture|MUTABLE");
    assert_eq!(
        binding(0xFFFF).debug_string(),
        "Unrecognized(255)|MUTABLE|UnnamedBits(0xfe00)"
    );
    assert_eq!(binding(0x20E).debug_string(), "PushConstant|UnnamedBits(0x200)");
}

#[test]
fn lossless_decode() {
    for bits in [0u32, 0x42, 0x1F4, 0x1234_5678, 0xFFFF_FFFF] {
        let s = shape(bits);
        let base_bits = match s.base() {
            BaseShape::Unrecognized(v) => v,
            named => NAMED_SHAPES.iter().find(|(_, b)| *b == named).unwrap().0,
        };
        let flags = [
            (s.is_feedback(), 0x10),
            (s.is_shadow(), 0x20),
            (s.is_array(), 0x40),
            (s.is_multisample(), 0x80),
            (s.is_combined(), 0x100),
        ]
        .iter()
        .filter(|(set, _)| *set)
        .fold(0u32, |acc, (_, f)| acc | f);
        assert_eq!(base_bits | flags | (bits & !0x1FF), bits);
    }
}

#[test]
fn base_debug_text() {
    assert_eq!(BaseShape::NoShape.debug_string(), "None");
    assert_eq!(BaseShape::TextureCube.debug_string(), "TextureCube");
    assert_eq!(BaseShape::Unrecognized(12).debug_string(), "Unrecognized(12)");
    assert_eq!(BaseBindingType::PushConstant.debug_string(), "PushConstant");
    assert_eq!(BaseBindingType::Unrecognized(200).debug_string(), "Unrecognized(200)");
    for (bits, base) in NAMED_SHAPES {
        assert_eq!(shape(bits).debug_string(), base.debug_string());
    }
}

#[test]
fn base_table_is_injective() {
    for a in 0u32..16 {
        for b in 0u32..16 {
            if a != b {
                assert_ne!(shape(a).base(), shape(b).base());
            }
        }
    }
    for a in 0u32..256 {
        for b in 0u32..256 {
            if a != b {
                assert_ne!(binding(a).base(), binding(b).base());
            }
        }
    }
}

#[test]
fn distinct_shapes_have_distinct_debug_text() {
    let samples: Vec<u32> = (0u32..0x400).chain([0x1000, 0x8000_0000, 0xFFFF_FFFF]).collect();
    let mut shape_texts: Vec<String> = samples.iter().map(|b| shape(*b).debug_string()).collect();
    shape_texts.sort();
    shape_texts.dedup();
    assert_eq!(shape_texts.len(), samples.len());
    let mut binding_texts: Vec<String> =
        samples.iter().map(|b| binding(*b).debug_string()).collect();
    binding_texts.sort();
    binding_texts.dedup();
    assert_eq!(binding_texts.len(), samples.len());
}
