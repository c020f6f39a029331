//! Chooses a wallpaper among local photos and a rotating batch of remote
//! photos, derives its caption, and lays that caption out on the image.

pub mod aspect;
pub mod caption;
pub mod catalog;
pub mod compositor;
pub mod config;
pub mod delivery;
pub mod filename_date;
pub mod paths;
pub mod remote_store;
pub mod schedule;
pub mod selector;
pub mod text;
pub mod timestamp;
