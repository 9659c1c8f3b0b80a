//! The cellular automaton for dynamic materials, and the functions that put
//! such materials into the world.

pub mod cpu_simulation;
pub mod element_spawner;
pub mod random;
pub mod step_laws;

pub use cpu_simulation::{simulate_chunk, simulate_fire_cpu, SimulationContext, VoxelChange};
pub use element_spawner::ElementSpawner;
pub use random::SimRng;
