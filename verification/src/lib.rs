//! Verified core of the gear editor: the PlayerSave wire-format decoder, the
//! ctl control-protocol encoder, and the text and stat rules of the web panel.

pub mod save;
pub mod text;
pub mod ctl;
pub mod app_state;
pub mod zon;
pub mod templates;
pub mod discs;
pub mod assets;
pub mod auth;
pub mod challenges;
pub mod player_state;
pub mod equip;
pub mod order;
pub mod avatar;
pub mod weapon;
pub mod bangboo;
pub mod hakushin;
pub mod sdk;
pub mod utils;
pub mod config;
pub mod updates;
pub mod dashboard;
pub mod pages;
pub mod admin;
pub mod forms;
pub mod i18n;
