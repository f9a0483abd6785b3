pub mod cargo;
pub mod crew;
pub mod encoding;
pub mod errors;
pub mod fixed;
pub mod galaxy;
pub mod game;
pub mod market;
pub mod module;
pub mod navigation;
pub mod planet;
pub mod player;
pub mod resources;
pub mod rng;
pub mod scan;
pub mod ship;
pub mod shipstats;
pub mod station;
pub mod syslog;
pub mod upgrade;
