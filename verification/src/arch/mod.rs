pub mod aarch64;
pub mod yaxpeax;
