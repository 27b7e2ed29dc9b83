//! Greeting by name: the texts that are shown, what counts as a line that was
//! read, and the storing of a name in a caller's buffer of fixed capacity as
//! a terminated string.
//!
//! The library reads nothing and prints nothing. Its caller shows the prompt,
//! reads a line, hands over what the read gave as a [`LineRead`], and shows
//! the text that comes back.

pub mod buffer;
pub mod console;
pub mod read;
pub mod text;

pub use buffer::{ask_name_rust, AskError, BUFFERED_PROMPT};
pub use console::{greet, CONSOLE_PROMPT};
pub use read::{LineRead, ReadError};
