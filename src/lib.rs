pub mod config;
pub mod data;
pub mod error;
pub mod home_assistant;
pub mod proxy;
pub mod radio;
pub mod util;
