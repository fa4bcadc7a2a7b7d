//! Supervision core for a long-running game-server process: a shared status
//! store (console buffer, player roster, lifecycle states), an output-line
//! classifier that drives the status, a FIFO command queue feeding the child
//! process, and the request routing of the small web front end.
pub mod configuration;
pub mod minecraft_related;
pub mod server_interactions;
pub mod shared_data;
pub mod text;
pub mod web_server;
