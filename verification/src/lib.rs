//! Safe decoding of Slang's bitfield-shaped reflection values, and the text
//! processing that the bindings generator applies to `slang.h`.

pub mod sys;
pub mod text;
pub mod resource_shape;
pub mod codegen;

pub use resource_shape::{BaseBindingType, BaseShape, BindingType, ResourceShape};
