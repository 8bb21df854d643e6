//! The raw reflection values as `slang.h` declares them: newtypes that can
//! hold any bit pattern, with the header's enumerator values as associated
//! constants.

use vstd::prelude::*;

verus! {

/// `SlangResourceShape`: a base shape in the low bits plus texture flag bits.
#[derive(Debug, Clone, Copy, PartialEq, Eq, Hash, Structural)]
pub struct SlangResourceShape(pub u32);

#[allow(non_upper_case_globals)]
impl SlangResourceShape {
    pub const SlangResourceBaseShapeMask: u32 = 0x0F;
    pub const SlangResourceNone: u32 = 0x00;
    pub const SlangTexture1d: u32 = 0x01;
    pub const SlangTexture2d: u32 = 0x02;
    pub const SlangTexture3d: u32 = 0x03;
    pub const SlangTextureCube: u32 = 0x04;
    pub const SlangTextureBuffer: u32 = 0x05;
    pub const SlangStructuredBuffer: u32 = 0x06;
    pub const SlangByteAddressBuffer: u32 = 0x07;
    pub const SlangResourceUnknown: u32 = 0x08;
    pub const SlangAccelerationStructure: u32 = 0x09;
    pub const SlangTextureSubpass: u32 = 0x0A;
    pub const SlangResourceExtShapeMask: u32 = 0x1F0;
    pub const SlangTextureFeedbackFlag: u32 = 0x10;
    pub const SlangTextureShadowFlag: u32 = 0x20;
    pub const SlangTextureArrayFlag: u32 = 0x40;
    pub const SlangTextureMultisampleFlag: u32 = 0x80;
    pub const SlangTextureCombinedFlag: u32 = 0x100;
    pub const SlangTexture1dArray: u32 = 0x41;
    pub const SlangTexture2dArray: u32 = 0x42;
    pub const SlangTextureCubeArray: u32 = 0x44;
    pub const SlangTexture2dMultisample: u32 = 0x82;
    pub const SlangTexture2dMultisampleArray: u32 = 0xC2;
    pub const SlangTextureSubpassMultisample: u32 = 0x8A;
}

/// `SlangBindingType`: a base binding type in the low byte plus extension
/// bits, of which only the mutable flag has a meaning.
#[derive(Debug, Clone, Copy, PartialEq, Eq, Hash, Structural)]
pub struct SlangBindingType(pub u32);

#[allow(non_upper_case_globals)]
impl SlangBindingType {
    pub const Unknown: u32 = 0;
    pub const Sampler: u32 = 1;
    pub const Texture: u32 = 2;
    pub const ConstantBuffer: u32 = 3;
    pub const ParameterBlock: u32 = 4;
    pub const TypedBuffer: u32 = 5;
    pub const RawBuffer: u32 = 6;
    pub const CombinedTextureSampler: u32 = 7;
    pub const InputRenderTarget: u32 = 8;
    pub const InlineUniformData: u32 = 9;
    pub const RayTracingAccelerationStructure: u32 = 10;
    pub const VaryingInput: u32 = 11;
    pub const VaryingOutput: u32 = 12;
    pub const ExistentialValue: u32 = 13;
    pub const PushConstant: u32 = 14;
    pub const MutableFlag: u32 = 0x100;
    pub const MutableTeture: u32 = 0x102;
    pub const MutableTypedBuffer: u32 = 0x105;
    pub const MutableRawBuffer: u32 = 0x106;
    pub const BaseMask: u32 = 0x00FF;
    pub const ExtMask: u32 = 0xFF00;
}

} // verus!
