pub mod action;
pub mod assoc;
pub mod constants;
pub mod engine;
pub mod entity;
pub mod events;
pub mod graveyard;
pub mod laws;
pub mod opaque;
pub mod resource;
pub mod rng;
pub mod state;
pub mod system;
pub mod tile;

pub use action::{Action, ActionEffects, Queues};
pub use engine::TickEngine;
pub use entity::{AntRole, DeathCause, Entity, EntityKind, EntityType, VisitorType};
pub use events::{Event, EventKind, TickEvents};
pub use graveyard::{Corpse, Graveyard};
pub use rng::{RngState, SeededRng};
pub use resource::Resources;
pub use state::{GameState, MaintenanceGoal, Meta};
pub use system::{CorpseBoost, System, SystemRates, SystemType};
pub use tile::{GameMap, Tile, TileType};
