use helligkeit::shared::DeviceError;
use helligkeit::util::{brightness_request, number_from_bytes, number_from_text, percent};

#[test]
fn numbers_in_device_files() {
    assert_eq!(number_from_bytes(b"42\n"), Ok(42));
    assert_eq!(number_from_bytes(b" 7 "), Ok(7));
    assert_eq!(number_from_bytes(b"+3\n"), Ok(3));
    assert_eq!(number_from_bytes(b"\xff\n"), Err(DeviceError::InvalidUtf8));
    assert_eq!(number_from_bytes(b"abc"), Err(DeviceError::InvalidNumber));
    assert_eq!(number_from_bytes(b""), Err(DeviceError::InvalidNumber));
    assert_eq!(number_from_bytes(b"-1\n"), Err(DeviceError::InvalidNumber));
    assert_eq!(number_from_text("\u{a0}19\u{2003}"), Ok(19));
}

#[test]
fn error_messages() {
    assert_eq!(DeviceError::InvalidUtf8.message(), "Invalid utf8 data in file");
    assert_eq!(DeviceError::InvalidNumber.message(), "Invalid number in file");
    assert_eq!(
        DeviceError::ExceedsMax.message(),
        "brightness exceeds max_brightness for the given device"
    );
}

#[test]
fn percentages() {
    assert_eq!(percent(50, 200), 25);
    assert_eq!(percent(1, 3), 33);
    assert_eq!(percent(5, 0), 0);
    assert_eq!(percent(255, 255), 100);
}

#[test]
fn percent_within_max_is_at_most_hundred() {
    for max in [1usize, 3, 7, 100, 255, 1000] {
        for value in 0..=max {
            assert!(percent(value, max) <= 100);
        }
    }
}

#[test]
fn requests_above_max_are_refused() {
    assert_eq!(brightness_request(300, 255), Err(DeviceError::ExceedsMax));
    assert_eq!(brightness_request(10, 255), Ok("10\n".to_string()));
    assert_eq!(brightness_request(255, 255), Ok("255\n".to_string()));
    assert_eq!(brightness_request(0, 0), Ok("0\n".to_string()));
}

#[test]
fn written_brightness_reads_back() {
    for b in [0usize, 1, 9, 10, 255, 4096, usize::MAX] {
        let line = brightness_request(b, usize::MAX).unwrap();
        assert_eq!(number_from_bytes(line.as_bytes()), Ok(b));
    }
}

#[test]
fn percent_of_zero_max_needs_no_product() {
    assert_eq!(percent(usize::MAX, 0), 0);
}
