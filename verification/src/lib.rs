//! Sans-I/O core of a pseudo-terminal automation library.
//!
//! The crate holds everything that decides: the retention buffer, the
//! needles, the expectation loop as a step function, the rules for toggling
//! the descriptor between blocking and non-blocking mode, line reading and
//! the control-code table. The owner of the descriptor performs the reads and
//! writes and hands their outcomes in as plain values.

pub mod control_code;
pub mod error;
pub mod found;
pub mod interval;
pub mod needle;
pub mod pattern;
pub mod session;
pub mod stream;

pub use control_code::{ControlCode, ToControl};
pub use error::Error;
pub use found::{Found, Match};
pub use needle::{Eof, NBytes, Needle, Regex};
pub use interval::Interval;
pub use session::{ExpectAction, ExpectEvent, Expectation, Session};
pub use stream::{
    AsyncStream, Polled, ReadOutcome, ReaderWithBuffer, Stream, TryReadAction, TryReadEvent,
};
