//! The objects that compiled code handles through the runtime.
pub mod channel;
pub mod interface;
pub mod map;
pub mod slice;
pub mod string;
