//! Singleton values that the systems read.

pub mod delta_time;
pub mod input_handler;
pub mod resource_container;

pub use delta_time::DeltaTime;
pub use input_handler::InputHandler;
pub use resource_container::ResourceContainer;
