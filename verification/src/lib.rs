pub mod battle;
pub mod character;
pub mod encounter;
pub mod math;
pub mod monster;
pub mod progression;
pub mod rng;
pub mod stage;
