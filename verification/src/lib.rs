//! Reconstructs which story logs a player has read, from the game's session
//! log files and from the remote player-data service, and follows the live
//! session log for new reads and level changes.

pub mod text;
pub mod game_data;
pub mod file_name;
pub mod extract;
pub mod play_fab;
pub mod steam;
pub mod read_set;
pub mod watcher;
pub mod reconcile;
pub mod remote;
pub mod rows;
pub mod tracker;
