pub mod bits;
pub mod framework;
pub mod input;
pub mod instance;
pub mod mesh;
pub mod model;
pub mod resources;
pub mod store;
pub mod texture_array;
pub mod vertex;
