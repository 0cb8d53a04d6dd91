//! Daily playtime tracking for games: the ledger of seconds played per game,
//! the per-game limits and reminder interval, and the decisions the tracker
//! and the settings window make from them.

pub mod text;
pub mod clock;
pub mod ledger;
pub mod config;
pub mod state;
pub mod tracker;
pub mod paths;
pub mod settings;
pub mod laws;

pub use clock::format_time;
pub use config::{Config, GameConfig, load_config};
pub use paths::{config_file_path, save_file_path};
pub use state::{TrackerState, load_state};
