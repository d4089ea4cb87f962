pub mod game_of_life;
pub mod multi_type;
pub mod one_dim;
pub mod still;
