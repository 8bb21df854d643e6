use shader_slang::resource_shape::{BaseBindingType, BaseShape, BindingType, ResourceShape};
use shader_slang::sys;

fn shape(bits: u32) -> ResourceShape {
    ResourceShape::from_raw(sys::SlangResourceShape(bits))
}

fn binding(bits: u32) -> BindingType {
    BindingType::from_raw(sys::SlangBindingType(bits))
}

#[test]
fn decodes_named_products() {
    let array = shape(sys::SlangResourceShape::SlangTexture2dArray);
    assert_eq!(array.base(), BaseShape::Texture2D);
    assert!(array.is_array());
    assert!(!array.is_multisample());

    let ms_array = shape(sys::SlangResourceShape::SlangTexture2dMultisampleArray);
    assert_eq!(ms_array.base(), BaseShape::Texture2D);
    assert!(ms_array.is_array());
    assert!(ms_array.is_multisample());
}

/// The bit pattern from FloatyMonkey/slang-rs#28, which had no matching
/// enum discriminant before the bindings became bitfields.
#[test]
fn decodes_combined_texture_sampler() {
    let combined = shape(0x102);
    assert_eq!(combined.base(), BaseShape::Texture2D);
    assert!(combined.is_combined());
    assert!(!combined.is_shadow());
    assert_eq!(combined.debug_string(), "Texture2D|COMBINED");
}

#[test]
fn unrecognized_base_shapes_are_visible() {
    let future = shape(0x0B);
    assert_eq!(future.base(), BaseShape::Unrecognized(0x0B));
    assert_eq!(future.debug_string(), "Unrecognized(11)");

    let future_flag = shape(0x202 | 0x40);
    assert_eq!(future_flag.base(), BaseShape::Texture2D);
    assert_eq!(
        future_flag.debug_string(),
        "Texture2D|ARRAY|UnnamedBits(0x200)"
    );
}

#[test]
fn decodes_binding_types() {
    let mutable = binding(sys::SlangBindingType::MutableTypedBuffer);
    assert_eq!(mutable.base(), BaseBindingType::TypedBuffer);
    assert!(mutable.is_mutable());
    assert_eq!(mutable.debug_string(), "TypedBuffer|MUTABLE");

    let sampler = binding(sys::SlangBindingType::Sampler);
    assert_eq!(sampler.base(), BaseBindingType::Sampler);
    assert!(!sampler.is_mutable());

    let future = binding(0xFF);
    assert_eq!(future.base(), BaseBindingType::Unrecognized(0xFF));
}
