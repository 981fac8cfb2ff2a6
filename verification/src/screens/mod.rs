//! The screens and overlays.

pub mod call;
pub mod dm_search;
pub mod login;
pub mod room_list;
pub mod settings;
pub mod space_explorer;
pub mod timeline;
pub mod verification;
