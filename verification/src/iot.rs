//! Sending readings to a collecting server: the node posts each analog
//! reading as JSON and accepts any 2xx answer.

use vstd::prelude::*;

verus! {

/// Where the readings go and how often they are taken.
pub struct IoTConfig {
    /// URL that each reading is posted to.
    pub server_url: String,
    /// Milliseconds between two readings.
    pub sampling_interval: u64,
}

/// A reading as it is posted: the raw ADC value and the kind of sensor.
#[derive(Debug, Clone, Copy, PartialEq, Eq)]
pub struct AnalogSample {
    pub value: u16,
    pub sensor_type: &'static str,
}

/// Why posting a reading failed: the server answered with this status.
#[derive(Debug, Clone, Copy, PartialEq, Eq, Structural)]
pub enum SendError {
    HttpStatus(u16),
}

/// The sample posted for the raw ADC value `value`; its sensor type is
/// `analog`.
pub fn analog_sample(value: u16) -> (s: AnalogSample)
    ensures
        s.value == value,
        s.sensor_type@ == "analog"@,
{
    AnalogSample { value, sensor_type: "analog" }
}

/// Whether the server accepted a reading: `Ok` exactly for a status from
/// 200 to 299, and otherwise the error that carries the status.
pub fn check_response_status(status: u16) -> (res: Result<(), SendError>)
    ensures
        res is Ok <==> 200 <= status < 300,
        res is Err ==> res == Err::<(), SendError>(SendError::HttpStatus(status)),
{
    if 200 <= status && status < 300 {
        Ok(())
    } else {
        Err(SendError::HttpStatus(status))
    }
}

impl SendError {
    /// The status that the server answered with.
    pub fn status(&self) -> (s: u16)
        ensures
            *self == SendError::HttpStatus(s),
    {
        match self {
            SendError::HttpStatus(s) => *s,
        }
    }
}

} // verus!
