//! Bit masks and flags, mirrored from the `SlangBindingType` enumerators.

use vstd::prelude::*;
use crate::sys::SlangBindingType as B;

verus! {

pub const BASE_MASK: u32 = B::BaseMask;

pub const UNKNOWN: u32 = B::Unknown;
pub const SAMPLER: u32 = B::Sampler;
pub const TEXTURE: u32 = B::Texture;
pub const CONSTANT_BUFFER: u32 = B::ConstantBuffer;
pub const PARAMETER_BLOCK: u32 = B::ParameterBlock;
pub const TYPED_BUFFER: u32 = B::TypedBuffer;
pub const RAW_BUFFER: u32 = B::RawBuffer;
pub const COMBINED_TEXTURE_SAMPLER: u32 = B::CombinedTextureSampler;
pub const INPUT_RENDER_TARGET: u32 = B::InputRenderTarget;
pub const INLINE_UNIFORM_DATA: u32 = B::InlineUniformData;
pub const RAY_TRACING_ACCELERATION_STRUCTURE: u32 = B::RayTracingAccelerationStructure;
pub const VARYING_INPUT: u32 = B::VaryingInput;
pub const VARYING_OUTPUT: u32 = B::VaryingOutput;
pub const EXISTENTIAL_VALUE: u32 = B::ExistentialValue;
pub const PUSH_CONSTANT: u32 = B::PushConstant;

pub const MUTABLE: u32 = B::MutableFlag;

/// Every bit this crate can name. Narrower than the base and extension masks
/// together: `MUTABLE` is the only extension bit the header gives a meaning.
pub const KNOWN_MASK: u32 = BASE_MASK | MUTABLE;

} // verus!
