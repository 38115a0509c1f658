pub mod asset_rewrite;
pub mod auth;
pub mod codec;
pub mod csrf;
pub mod dav_error;
pub mod headers;
pub mod public_link;
pub mod security_headers;
pub mod session;
pub mod text;
pub mod trashbin;
pub mod versions;
pub mod xml;
pub mod propfind;
pub mod proppatch;
pub mod ocs;
pub mod session_layer;
pub mod admin_users;
pub mod admin_groups;
pub mod login;
pub mod ocs_user;
pub mod preview;
pub mod router;
pub mod zip;
pub mod dav_methods;
pub mod dav_listings;
pub mod dav_lock;
pub mod dav_moves;
pub mod ocs_feeds;
