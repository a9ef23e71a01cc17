pub mod cache_map;
pub mod catalog;
pub mod data;
pub mod error;
pub mod events;
pub mod favorite;
pub mod guild_data;
pub mod join_sound;
pub mod manage;
pub mod pager;
pub mod play;
pub mod query;
pub mod search;
pub mod settings;
pub mod sound;
pub mod store;
pub mod text;
pub mod ui;
