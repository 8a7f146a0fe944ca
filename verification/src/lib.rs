//! Error values that carry the error they started from together with a chain of
//! human-readable context lines, plus the planning logic behind the
//! `flog!`, `attach!` and `define!` front ends.

pub mod attach;
pub mod chain;
pub mod define;
pub mod expand;
pub mod invocation;
pub mod sync;
pub mod test_util;
pub mod text;

pub use attach::ResultChainAttach;
pub use chain::{Describe, ErrorChain, IntoContext};
pub use define::DefinePlan;
pub use expand::{attach_call, flog_call};
pub use invocation::{Bound, CallSyntax, Callee, FmtArg, IntLit, ParseError, Parsed, SelectorSyntax};
pub use sync::ResultChain;
