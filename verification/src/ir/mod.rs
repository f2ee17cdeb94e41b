pub mod block;
pub mod inst;
pub mod operand;
pub mod value;

pub use block::Block;
pub use inst::{IRInst, Opcode, FLAG_WRITES_NZCV};
pub use operand::{GuestReg, MemOperand, Operand, RegKind, RegWidth, ShiftKind};
pub use value::Value;
