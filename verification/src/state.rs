pub mod agreement;
pub mod demand_command;
pub mod departure;
pub mod service;
