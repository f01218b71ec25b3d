// A falling-block puzzle engine: piece catalog and rotation, the board with
// its collision queries and row clearing, the debounce of held keys, and the
// tick-by-tick simulation that ties them together.

pub mod board;
pub mod game;
pub mod input;
pub mod piece;
pub mod random;
