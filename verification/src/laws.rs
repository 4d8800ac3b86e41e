//! What the operations of the library promise, said of their calls: whatever a
//! call is given and gives back, these relations hold between the two.

pub mod errors;
pub mod fail_points;
pub mod lines;
pub mod numbers;
pub mod pages;
pub mod profiles;
pub mod ranges;
pub mod replies;
pub mod requests;
pub mod search;
pub mod tables;
pub mod texts;
