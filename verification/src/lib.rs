//! Verified core of an RPG Maker translation toolkit.
//!
//! - `types`: kinds of data files and engines, the classification of file
//!   names, labels of data fields, event codes.
//! - `modes`: read, write and purge modes, duplicate handling, game types,
//!   and their byte encodings.
//! - `flags`: file flags and processing flags.
//! - `text`: line splitting, decimal numbers, prefixes.
//! - `scripts`: the text form of `Scripts` files, and reading it back.
//! - `hashes`: the hashes of processed files.
//! - `processors`: the settings of readers, writers and purgers, and the
//!   decisions a run takes apart from the file system.
pub mod flags;
pub mod hashes;
pub mod json;
pub mod modes;
pub mod processors;
pub mod scripts;
pub mod stream;
pub mod text;
pub mod types;

pub use flags::{BaseFlags, FieldNames, FileFlags};
pub use hashes::FileHashes;
pub use modes::{DuplicateMode, GameType, Mode, ReadMode};
pub use processors::{Purger, PurgerBuilder, Reader, ReaderBuilder, Writer, WriterBuilder};
pub use scripts::Scripts;
pub use types::{CommentPos, EngineType, ProcessedData, RPGMFileType, TranslationEntry};
