use iot_bridge::simulator::init_server_url;
use iot_bridge::simulator::UpAndDown;

#[test]
fn test_ascending_and_descending() {
    let mut iterator = UpAndDown::new(10, 12);
    assert_eq!(iterator.next(), Some(10));
    assert_eq!(iterator.next(), Some(11));
    assert_eq!(iterator.next(), Some(12));
    assert_eq!(iterator.next(), Some(11));
    assert_eq!(iterator.next(), Some(10));
    assert_eq!(iterator.next(), Some(11));
}

#[test]
fn test_wave_with_equal_bounds_ends_at_once() {
    let mut wave = UpAndDown::new(10, 10);
    assert_eq!(wave.next(), None);
}

#[test]
fn test_init_server_url() {
    assert_eq!(init_server_url(":6142"), "127.0.0.1:6142");
    assert_eq!(init_server_url("example.com:6142"), "example.com:6142");
    assert_eq!(init_server_url("10.0.0.7:1"), "10.0.0.7:1");
    assert_eq!(init_server_url(""), "");
}
