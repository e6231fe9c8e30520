//! Scoreboard synchronization engine: the verified core of a ranked-ladder
//! leaderboard service. It orders ranked entries, renders the fixed-width
//! leaderboard text, models the identity registry and the shared scoreboard
//! location, and decides what each inbound chat event should cause.
pub mod dispatch;
pub mod location;
pub mod rank;
pub mod refresh;
pub mod registry;
pub mod render;
