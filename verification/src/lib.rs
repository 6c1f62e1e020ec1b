//! Identity, token storage and WebDAV access rules for a self-hosted
//! application storage cloud.

pub mod hexcodec;
pub mod text;
pub mod crypto;
pub mod identity;
pub mod entries;
pub mod ordering;
pub mod records;
pub mod store;
pub mod store_laws;
pub mod dav;
pub mod api;
pub mod cli;
