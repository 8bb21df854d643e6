//! Bit masks and flags, mirrored from the `SlangResourceShape` enumerators so
//! the decode stays tied to the header.

use vstd::prelude::*;
use crate::sys::SlangResourceShape as S;

verus! {

pub const BASE_MASK: u32 = S::SlangResourceBaseShapeMask;

pub const NONE: u32 = S::SlangResourceNone;
pub const TEXTURE_1D: u32 = S::SlangTexture1d;
pub const TEXTURE_2D: u32 = S::SlangTexture2d;
pub const TEXTURE_3D: u32 = S::SlangTexture3d;
pub const TEXTURE_CUBE: u32 = S::SlangTextureCube;
pub const TEXTURE_BUFFER: u32 = S::SlangTextureBuffer;
pub const STRUCTURED_BUFFER: u32 = S::SlangStructuredBuffer;
pub const BYTE_ADDRESS_BUFFER: u32 = S::SlangByteAddressBuffer;
pub const UNKNOWN: u32 = S::SlangResourceUnknown;
pub const ACCELERATION_STRUCTURE: u32 = S::SlangAccelerationStructure;
pub const TEXTURE_SUBPASS: u32 = S::SlangTextureSubpass;

pub const EXT_MASK: u32 = S::SlangResourceExtShapeMask;

pub const FEEDBACK: u32 = S::SlangTextureFeedbackFlag;
pub const SHADOW: u32 = S::SlangTextureShadowFlag;
pub const ARRAY: u32 = S::SlangTextureArrayFlag;
pub const MULTISAMPLE: u32 = S::SlangTextureMultisampleFlag;
pub const COMBINED: u32 = S::SlangTextureCombinedFlag;

/// Every bit this crate can name, base and flags together.
pub const KNOWN_MASK: u32 = BASE_MASK | FEEDBACK | SHADOW | ARRAY | MULTISAMPLE | COMBINED;

} // verus!
