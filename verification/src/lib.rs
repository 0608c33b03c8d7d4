//! Classification of download addresses, resolution of each kind of link into
//! a URL that can be fetched, and the checks made on what was fetched.

pub mod archive;
pub mod content;
pub mod entry;
pub mod link;
pub mod pattern;
pub mod resolve;
pub mod select;
pub mod table;
pub mod text;
