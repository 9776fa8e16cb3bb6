//! A collaborative-notepad edit protocol: a fixed-width binary codec for
//! batches of text edit operations, and a document engine that applies a
//! decoded batch to a local text buffer.
//!
//! Transport of the encoded bytes between participants is an external
//! concern; this crate defines only the wire encoding and the deterministic
//! effect of applying a batch, in order, to one buffer.

pub mod diff;
pub mod notepad;

pub use diff::CodecError;
pub use diff::Diff;
pub use diff::MessageBuf;
pub use diff::Operation;
pub use notepad::ApplyError;
pub use notepad::Notepad;
