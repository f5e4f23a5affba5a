use esp_iot::iot::{analog_sample, check_response_status, IoTConfig, SendError};

#[test]
fn success_statuses() {
    assert_eq!(check_response_status(200), Ok(()));
    assert_eq!(check_response_status(204), Ok(()));
    assert_eq!(check_response_status(299), Ok(()));
}

#[test]
fn failure_statuses() {
    assert_eq!(check_response_status(199), Err(SendError::HttpStatus(199)));
    assert_eq!(check_response_status(300), Err(SendError::HttpStatus(300)));
    assert_eq!(check_response_status(404), Err(SendError::HttpStatus(404)));
    assert_eq!(check_response_status(500).unwrap_err().status(), 500);
}

#[test]
fn sample_is_analog() {
    let s = analog_sample(1234);
    assert_eq!(s.value, 1234);
    assert_eq!(s.sensor_type, "analog");
}

#[test]
fn config_holds_url_and_interval() {
    let c = IoTConfig { server_url: "http://example.com/api/data".to_string(), sampling_interval: 5000 };
    assert_eq!(c.sampling_interval, 5000);
    assert_eq!(c.server_url, "http://example.com/api/data");
}
