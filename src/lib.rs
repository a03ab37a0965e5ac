//! A hybrid logical clock: timestamps that combine wall-clock time, a
//! logical counter and a node identifier into one total order.
pub mod clock;
pub mod counter;
pub mod error;
pub mod laws;
pub mod store;
pub mod text;
pub mod timestamp;
pub mod wall;
