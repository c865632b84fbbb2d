//! A turn-based terminal snake game engine: the grid, the game state with
//! its movement, collision and food-placement rules, the pseudo-random
//! generator behind food placement, and the textual rendering of a frame.
//! Every transition carries a contract; the state invariant — a non-empty,
//! self-avoiding, in-bounds snake whose length tracks the score — is
//! established by `game::Game::new` and preserved by every operation.
pub mod board;
pub mod game;
pub mod render;
pub mod rng;
