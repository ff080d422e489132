//! Resolves the ordered list of active objects by merging a process-wide
//! stack with a stack private to each execution context.
//!
//! - `item`: what an immutable sequence holds, and the sequence hash.
//! - `frozen`: the immutable sequence, whose hash is computed once.
//! - `contextvar`: a context-local variable with set/reset tokens and forks.
//! - `merge`: the merge of both stacks, most recently pushed first.
//! - `manager`: the stack manager, its shared counter and its bounded cache.
//! - `laws`: properties that relate several operations.
//!
//! Objects are opaque handles (`u64`); whoever holds the objects maps them.

pub mod contextvar;
pub mod frozen;
pub mod item;
pub mod laws;
pub mod manager;
pub mod merge;

pub use contextvar::{ContextToken, ContextVar};
pub use frozen::FrozenSequence;
pub use item::{Entry, SeqItem};
pub use manager::{ContextStack, ContextStackManager, StackError, MAX_CONTEXT_OBJECT_CACHE};
