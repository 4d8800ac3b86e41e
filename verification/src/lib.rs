//! The decisions of a node's status server: routing, log search, fail point
//! control, profiling and the replies to each of them.

pub mod error;
pub mod fail_points;
pub mod http;
pub mod laws;
pub mod line;
pub mod number;
pub mod page;
pub mod path;
pub mod profile;
pub mod query;
pub mod range;
pub mod registry;
pub mod search;
pub mod server;
pub mod table;
pub mod text;
pub mod time;

