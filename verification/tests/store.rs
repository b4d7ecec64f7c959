use iot_bridge::store::add_sensor_data;
use iot_bridge::store::create_test_data;
use iot_bridge::store::follow_since;
use iot_bridge::store::list_last_values_descending_since;
use iot_bridge::store::list_sensordata;
use iot_bridge::store::list_sensordata_since;
use iot_bridge::store::MeasurementStore;
use iot_bridge::store::SinkError;
use iot_bridge::timestamp::to_naivedatetime;
use iot_bridge::timestamp::Timestamp;

fn ts(text: &str) -> Timestamp {
    to_naivedatetime(text).expect("test dates parse")
}

#[test]
fn test_add_and_list() {
    let mut pool = MeasurementStore::new();
    assert_eq!(list_sensordata(&pool).len(), 0);
    let id = add_sensor_data(&mut pool, ts("2024-01-01 09:00:00"), 10.00f64.to_bits());
    assert_eq!(id.unwrap(), 1);
    let entries = list_sensordata(&pool);
    assert_eq!(entries.len(), 1);
    let sensor_data = &entries[0];
    assert_eq!(sensor_data.id, 1);
    assert_eq!(sensor_data.timestamp, ts("2024-01-01 09:00:00"));
    assert_eq!(sensor_data.value_bits, 10.0f64.to_bits());
}

#[test]
fn test_list_sensordata_orders_by_timestamp() {
    let mut store = MeasurementStore::new();
    add_sensor_data(&mut store, ts("2024-01-02 00:00:00"), 2.0f64.to_bits()).unwrap();
    add_sensor_data(&mut store, ts("2024-01-01 00:00:00"), 1.0f64.to_bits()).unwrap();
    add_sensor_data(&mut store, ts("2024-01-03 00:00:00"), 3.0f64.to_bits()).unwrap();
    let listed = list_sensordata(&store);
    assert_eq!(listed.len(), 3);
    assert_eq!(listed[0].timestamp, ts("2024-01-01 00:00:00"));
    assert_eq!(listed[1].timestamp, ts("2024-01-02 00:00:00"));
    assert_eq!(listed[2].timestamp, ts("2024-01-03 00:00:00"));
    assert_eq!(listed[0].value_bits, 1.0f64.to_bits());
    assert_eq!(listed[2].value_bits, 3.0f64.to_bits());
}

#[test]
fn test_ids_increase_with_insertion_order() {
    let mut store = MeasurementStore::new();
    for day in ["2024-01-05 00:00:00", "2024-01-04 00:00:00", "2024-01-06 00:00:00"] {
        add_sensor_data(&mut store, ts(day), 0.0f64.to_bits()).unwrap();
    }
    assert_eq!(store.rows[0].id, 1);
    assert_eq!(store.rows[1].id, 2);
    assert_eq!(store.rows[2].id, 3);
}

#[test]
fn test_list_last_values_descending_since() {
    let mut store = MeasurementStore::new();
    add_sensor_data(&mut store, ts("2024-01-01 09:00:00"), 10.0f64.to_bits()).unwrap();
    add_sensor_data(&mut store, ts("2024-01-01 09:30:00"), 11.0f64.to_bits()).unwrap();
    add_sensor_data(&mut store, ts("2024-01-01 09:59:00"), 12.0f64.to_bits()).unwrap();
    add_sensor_data(&mut store, ts("2024-01-01 10:00:00"), 13.0f64.to_bits()).unwrap();

    // Strictly after 09:00, most recent first.
    let since = ts("2024-01-01 09:00:00");
    let recent = list_last_values_descending_since(&store, &since, 10);
    assert_eq!(recent.len(), 3);
    assert_eq!(recent[0].timestamp, ts("2024-01-01 10:00:00"));
    assert_eq!(recent[1].timestamp, ts("2024-01-01 09:59:00"));
    assert_eq!(recent[2].timestamp, ts("2024-01-01 09:30:00"));

    // The limit keeps only the most recent rows.
    let limited = list_last_values_descending_since(&store, &since, 2);
    assert_eq!(limited.len(), 2);
    assert_eq!(limited[0].timestamp, ts("2024-01-01 10:00:00"));
    assert_eq!(limited[1].timestamp, ts("2024-01-01 09:59:00"));

    // A window after everything is empty.
    let late = ts("2025-01-01 00:00:00");
    assert_eq!(list_last_values_descending_since(&store, &late, 10).len(), 0);
}

#[test]
fn test_list_sensordata_since_defaults() {
    let mut store = MeasurementStore::new();
    for hour in ["00", "01", "02", "03", "04", "05", "06", "07", "08", "09", "10", "11"] {
        let text = format!("2024-03-01 {}:00:00", hour);
        add_sensor_data(&mut store, ts(&text), 1.0f64.to_bits()).unwrap();
    }
    // No window and no limit: everything since the epoch, capped at ten.
    let defaulted = list_sensordata_since(&store, &None, &None);
    assert_eq!(defaulted.len(), 10);
    assert_eq!(defaulted[0].timestamp, ts("2024-03-01 11:00:00"));
    // An explicit window and limit behave as the descending query.
    let since = Some(ts("2024-03-01 09:00:00"));
    let windowed = list_sensordata_since(&store, &since, &Some(5));
    assert_eq!(windowed.len(), 2);
    assert_eq!(windowed[0].timestamp, ts("2024-03-01 11:00:00"));
    assert_eq!(windowed[1].timestamp, ts("2024-03-01 10:00:00"));
}

#[test]
fn test_follow_since_advances_to_newest_shown() {
    let mut store = MeasurementStore::new();
    add_sensor_data(&mut store, ts("2024-01-01 09:00:00"), 10.0f64.to_bits()).unwrap();
    add_sensor_data(&mut store, ts("2024-01-01 10:00:00"), 11.0f64.to_bits()).unwrap();
    let start = ts("1970-01-01 00:00:00");
    let batch = list_last_values_descending_since(&store, &start, 10);
    let advanced = follow_since(&start, &batch);
    assert_eq!(advanced, ts("2024-01-01 10:00:00"));
    let empty_batch = list_last_values_descending_since(&store, &advanced, 10);
    assert_eq!(empty_batch.len(), 0);
    assert_eq!(follow_since(&advanced, &empty_batch), advanced);
}

#[test]
fn test_add_fails_only_when_ids_exhausted() {
    let mut store = MeasurementStore {
        rows: Vec::new(),
        next_id: i64::MAX,
    };
    let out = add_sensor_data(&mut store, ts("2024-01-01 09:00:00"), 0.0f64.to_bits());
    assert_eq!(out, Err(SinkError::IdsExhausted));
    assert_eq!(store.rows.len(), 0);
    assert_eq!(store.next_id, i64::MAX);
}

#[test]
fn test_create_test_data_appends_five_rows() {
    let mut store = MeasurementStore::new();
    create_test_data(&mut store);
    assert_eq!(store.rows.len(), 5);
    assert_eq!(store.next_id, 6);
    assert_eq!(store.rows[0].timestamp, ts("2024-01-01 09:00:00"));
    assert_eq!(store.rows[0].value_bits, 10.0f64.to_bits());
    assert_eq!(store.rows[1].value_bits, 11.0f64.to_bits());
    assert_eq!(store.rows[2].value_bits, 12.0f64.to_bits());
    assert_eq!(store.rows[3].timestamp, ts("2024-01-01 10:00:00"));
    assert_eq!(store.rows[3].value_bits, 13.0f64.to_bits());
    assert_eq!(store.rows[4].value_bits, 10.0f64.to_bits());
    for (k, row) in store.rows.iter().enumerate() {
        assert_eq!(row.id, k as i64 + 1);
    }
}
