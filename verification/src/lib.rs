//! The logic of a Matrix chat client's user interface: what the composer, the
//! timeline, the settings panel and the overlays decide, apart from how any of
//! it is drawn or which service carries it out.

pub mod color;
pub mod commands;
pub mod events;
pub mod floats;
pub mod links;
pub mod local_time;
pub mod media;
pub mod mime;
pub mod previews;
pub mod screens;
pub mod sizes;
pub mod slash;
pub mod sorting;
pub mod spellcheck;
pub mod spellcheck_config;
pub mod spellcheck_highlight;
pub mod state;
pub mod steam;
pub mod stickers;
pub mod string_map;
pub mod subscriptions;
pub mod synthetic_input;
pub mod text;
pub mod theme_config;
pub mod tweets;
pub mod twemoji;
pub mod update;
pub mod word_set;
