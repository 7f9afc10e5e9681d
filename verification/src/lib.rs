pub mod clock;
pub mod contracts;
pub mod desktop;
pub mod dump_runtime;
pub mod engine;
pub mod json;
pub mod mock;
pub mod model;
pub mod paths;
pub mod refresh;
pub mod signatures;
pub mod text;
