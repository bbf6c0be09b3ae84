//! A keyboard-driven picker for a calendar date, a time of day, or both.
//!
//! The crate holds the part of such a picker that can be reasoned about:
//! calendar-safe stepping of a date-time by one unit of a field, the range
//! clamp, the cursor and digit-entry state machine, and the text that is
//! shown and handed back. Reading keys and writing to a terminal is left to
//! the caller, which starts a [`Session`] from a [`DateTimeSelect`], shows
//! its [`Frame`], and feeds it one [`Key`] after the other.

pub mod adjust;
pub mod bridge;
pub mod calendar;
pub mod display;
pub mod range;
pub mod select;
pub mod session;
pub mod text;

pub use adjust::Field;
pub use calendar::CivilDateTime;
pub use select::{ConfigError, DateTimeSelect, DateType};
pub use session::{Command, Frame, Key, Session};
