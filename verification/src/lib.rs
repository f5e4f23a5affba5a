//! Verified core of an ESP32 sensor node: rule evaluation over sensor
//! readings, the configuration web API's request handling, the persisted
//! Wi-Fi configuration format and the Wi-Fi bring-up sequence.

pub mod float_bits;
pub mod text;
pub mod shared;
pub mod rules;
pub mod config_store;
pub mod server;
pub mod wifi;
pub mod iot;
