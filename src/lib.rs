//! A read-only NTFS inspector over a block-aligned buffered reader.
pub mod device;
pub mod error;
pub mod laws;
pub mod layout;
pub mod mem;
pub mod ntfs;
pub mod record;
pub mod source;
pub mod window;

