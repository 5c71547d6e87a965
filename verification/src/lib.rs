//! Device enumeration, classification and wipe-evidence helpers.

pub mod cert;
pub mod device;
pub mod json;
pub mod listing;
pub mod media;
pub mod ossl;
pub mod sample;
pub mod select;
pub mod text;
