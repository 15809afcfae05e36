//! Verified core of the Ethervoid game: the rules that decide how doors pair up,
//! how key names map to inputs, how core files are named, how parries resolve,
//! how dialogue advances and how sprite frames are picked.

pub mod doors;
pub mod config;
pub mod text;
pub mod cores;
pub mod attackscript;
pub mod messages;
pub mod obj;
pub mod player;
pub mod sprite;
pub mod texturedobj;
pub mod ui;
pub mod map;
pub mod combat;
pub mod goal;
pub mod entity;
pub mod lang;
pub mod save;
pub mod process;
pub mod paused;
pub mod behavior;
