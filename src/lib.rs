//! Safe access to an embedded, single-threaded, garbage-collected interpreter from many threads.
//!
//! Values are rooted in fixed-capacity frames (`frame`); tasks reach the one thread that owns
//! the interpreter through a bounded mailbox (`mailbox`); that thread's decisions, including the
//! scheduling of offloaded calls on a bounded pool of workers, are made by `runtime`. Errors
//! and their messages live in `error`.
use vstd::prelude::*;

pub mod error;
pub mod frame;
pub mod mailbox;
pub mod module;
pub mod runtime;
pub mod text;
pub mod value;
