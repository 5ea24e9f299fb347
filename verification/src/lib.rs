//! A small, verified regular-expression engine in the style of the classic
//! DECUS grep: patterns compile to a compact bytecode, and a greedy
//! backtracking interpreter matches that bytecode against lines of bytes.
//!
//! Several historical quirks (empty classes, the `RANGE`/byte aliasing, the
//! unreachable empty-class error) are reproduced deliberately; the contracts
//! pin them down rather than correcting them.

pub mod buffer;
pub mod errors;
pub mod grep;
pub mod laws;
pub mod matcher;

pub use crate::buffer::OverrunBuffer;
pub use crate::errors::CliError;
pub use crate::errors::MatchError;
pub use crate::errors::PatternError;
pub use crate::errors::PatternErrorKind;
pub use crate::errors::UsageError;
pub use crate::grep::Flags;
pub use crate::grep::Pattern;
