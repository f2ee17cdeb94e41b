pub mod x86_64;

pub use x86_64::{CodeBuffer, CodegenError, EmitEnd};
