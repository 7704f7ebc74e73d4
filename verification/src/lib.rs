use vstd::prelude::*;

pub mod text;
pub mod strmap;
pub mod state;
pub mod notifications;
pub mod events;
pub mod urlcode;
pub mod timefmt;
pub mod hook;
pub mod hook_state;
pub mod tmux;
pub mod api;
pub mod pipeline;
pub mod dashboard;
pub mod watcher;
