//! Force-directed graph layout: a graph store whose indices survive removal,
//! forces with live-tunable settings, and the stepping that moves every free
//! node from a snapshot of the graph taken before the tick.

pub mod dims;
pub mod force;
pub mod graph;
pub mod node;
pub mod simulation;
pub mod step;

pub use dims::Dimensions;
pub use force::{Center, Dictionary, Force, ForceKind, Value};
pub use graph::{lemma_add_then_remove_node, Edge, ForceGraph};
pub use node::Node;
pub use simulation::{Simulation, SimulationParameters};
pub use step::{apply_step, apply_transform, lemma_locked_unmoved, lemma_step_deterministic};
