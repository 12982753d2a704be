//! Shared CAN protocol logic for BrewTools density/temperature sensors, and the
//! decisions of the controller and the test bench built on it.
pub mod can_protocol;
pub mod can_tasks;
pub mod test_device;
pub mod network;
