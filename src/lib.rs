//! Import of local files for a front end that parses them itself: the bytes
//! of a file are handed over as standard base64 text.
pub mod bridge;
pub mod encoding;
