//! Unicode-aware string helpers built around a verified abbreviation engine.
//!
//! All operations are defined over Unicode scalar values (codepoints), never
//! bytes: lengths, indices and windows count codepoints, and no operation can
//! split a multi-byte encoding unit.
//!
//! The heart of the library is the abbreviation family in [`abbrev`]:
//! truncating a string to a maximum display width while inserting a marker
//! where content was elided, optionally centering the visible window around
//! an offset into the original string.  The catalogue of everyday string
//! operations lives on [`string_utils::StringUtilsExt`], implemented for
//! both `str` and `String`, with batch helpers on
//! [`string_utils::StringUtils`].

pub mod abbrev;
pub mod chars;
pub mod error;
pub mod model;
pub mod scan;
pub mod str_ops;
pub mod string_ops;
pub mod string_utils;
