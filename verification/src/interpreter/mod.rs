//! The evaluator: values, the stack of bindings, the heap and its collector.

pub mod callable;
pub mod calls;
pub mod context;
pub mod display;
pub mod error;
pub mod expressions;
pub mod gc;
pub mod heap;
pub mod semantics;
pub mod stack;
pub mod statements;
pub mod stdlib;
pub mod value;

pub use callable::{Builtin, Callable, Host, InterpretedFn, NativeFn};
pub use context::{BlockExit, Context};
pub use error::Error;
pub use heap::{Heap, HeapItem};
pub use stack::{FoundIdent, PoppedStack, Stack};
pub use value::{Number, ObjectField, ShallowValue, Value};
