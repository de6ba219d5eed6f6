//! What the operations of the library do, stated of their arguments and results.
//!
//! Each law speaks of calls: `call_ensures(f, args, res)` says that `res` is a result
//! that `f` may give for `args`. Of a `&mut` argument, `old(..)` is the value before
//! the call and `final(..)` the value after it.

pub mod content;
pub mod history;
pub mod keys;
pub mod service;
pub mod settings;
pub mod text;
pub mod windows;
