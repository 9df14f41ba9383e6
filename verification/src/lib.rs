//! A read-only parser for [Inno Setup](https://jrsoftware.org/isinfo.php) installers.
//!
//! The parser does no input or output of its own. [`Inno::new`] begins to open an installer; the
//! caller asks the [`Opening`](open::Opening) what to do next, does it with its reader, and hands
//! over what came of it, until there is an [`Inno`] to inspect or an
//! [`InnoError`](error::InnoError). The record types of the installer are the caller's, too: see
//! [`Format`](entry::Format).
//!
//! # Supported versions
//!
//! Installers up to Inno Setup 6.7.x are read. Newer ones are answered with
//! [`InnoError::UnsupportedVersion`](error::InnoError::UnsupportedVersion).
//!
//! # Notes on text decoding
//!
//! In Unicode installers, text is always UTF-16LE. In ANSI installers, the codepage is picked from
//! the language table: Windows-1252 where a language uses it or where there is no language, and
//! else the codepage of the first language.
use vstd::prelude::*;

pub mod codepage;
pub mod decoder;
pub mod entry;
pub mod error;
pub mod header;
pub mod inno;
pub mod loader;
pub mod lzma_stream_header;
pub mod open;
pub mod plan;
pub mod stream;
pub mod version;

pub use header::Header;
pub use inno::Inno;
pub use zerocopy;

verus! {

} // verus!
