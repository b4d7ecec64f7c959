use iot_bridge::bridge::add_sensor_value;
use iot_bridge::bridge::resolve_bind_url;
use iot_bridge::errors::AppError;
use iot_bridge::store::MeasurementStore;

#[test]
fn test_resolve_bind_url_wildcard() {
    assert_eq!(resolve_bind_url(":6142"), "0.0.0.0:6142");
    assert_eq!(resolve_bind_url("192.168.0.5:6142"), "192.168.0.5:6142");
    assert_eq!(resolve_bind_url("localhost:6142"), "localhost:6142");
    assert_eq!(resolve_bind_url(""), "");
}

#[test]
fn test_add_sensor_value_records_with_receipt_time() {
    let mut store = MeasurementStore::new();
    let bits = (10.0f32 as f64).to_bits();
    let id = add_sensor_value(&mut store, bits).unwrap();
    assert_eq!(id, 1);
    assert_eq!(store.rows.len(), 1);
    let row = &store.rows[0];
    assert_eq!(row.id, 1);
    assert_eq!(row.value_bits, bits);
    assert_eq!(f64::from_bits(row.value_bits), 10.0);
    // The receipt time is whatever the clock said, but it is a
    // well-formed calendar instant.
    assert!((1..=12).contains(&row.timestamp.month));
    assert!((1..=31).contains(&row.timestamp.day));
    assert!(row.timestamp.hour < 24);
    assert!(row.timestamp.minute < 60);
    assert!(row.timestamp.second < 60);
}

#[test]
fn test_app_error_surface() {
    let err = AppError::new(String::from("pool exhausted"));
    assert_eq!(err.status_code(), 500);
    assert_eq!(err.response_body(), "Something went wrong: pool exhausted");
    assert_eq!(err.message, "pool exhausted");
}
