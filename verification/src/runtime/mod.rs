pub mod dispatch;
pub mod memory;
pub mod state;

pub use memory::{GuestMemory, MapError, HOST_BASE};
pub use state::{GuestState, GPR_BASE, NZCV_OFFSET, PC_OFFSET, SP_OFFSET};
pub use dispatch::{count_hit, translate_block, BlockTable, DispatchRun, Dispatcher, RunAction, RunError, TranslateError, Translation};
