//! Sensors record observations while the test function runs; pools rank the
//! recorded test cases and choose which one to mutate next.

pub mod stats;
pub mod maximize_pool;
pub mod and_sensor_and_pool;
pub mod maximise_observation_pool;
pub mod unit_pool;
