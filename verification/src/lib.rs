//! An incremental decoder for terminal key input.
//!
//! Raw bytes from a terminal are pushed into a session buffer and polled
//! back out as structured key events: Unicode characters, function keys,
//! named symbolic keys, mouse reports, cursor-position reports and mode
//! reports.  The decoder never blocks and never performs I/O itself: when
//! the buffered bytes are an ambiguous prefix of a longer escape sequence
//! it reports `Again` and lets the caller decide how long to wait before
//! forcing a resolution.

pub mod chars;
pub mod decode;
pub mod event;
pub mod flags;
pub mod format;
pub mod keysym;
pub mod parse;
pub mod roundtrip;
pub mod session;
pub mod taplib;

pub use event::KeyDesc;
pub use event::TermKeyEvent;
pub use event::TermKeyMouseEvent;
pub use event::TermKeyResult;
pub use event::Utf8Char;
pub use flags::TermKeyFormat;
pub use flags::X_TermKey_Canon;
pub use flags::X_TermKey_Flag;
pub use flags::X_TermKey_KeyMod;
pub use keysym::TermKeySym;
pub use session::TermKey;
pub use taplib::breakpoint;
pub use taplib::Tap;
