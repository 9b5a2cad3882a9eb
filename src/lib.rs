pub mod fixed;
pub mod fixed_vector;
pub mod interaction;
pub mod particle_system;
pub mod sqrt;
