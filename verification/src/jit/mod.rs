pub mod cache;
pub mod compiler;
pub mod hotness;
pub mod isel;
pub mod optimizer;

pub use cache::CodeCache;
pub use compiler::CompileRequest;
pub use hotness::Hotness;
pub use isel::{InstForm, InstructionSelector, Selection, FLAG_X86_IMM_FORM};
pub use optimizer::Optimizer;
