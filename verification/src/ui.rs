//! Logic behind the user interface.
pub mod poster_grid;
