//! Helpers that the parsers share: URL resolution and date parsing.

pub mod base_url;
pub mod charset;
pub mod date;

pub use base_url::{combine_bases, resolve_url, BaseUrlContext};
pub use charset::charset_of;
pub use date::{
    datetime_to_struct_time, optional_datetime_to_struct_time, parse_date, StructTime, Timestamp,
};
