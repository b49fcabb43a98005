use popsicle::cache::{must_write, Validity};

#[test]
fn identical_bytes_need_no_write() {
    assert!(!must_write(Some(b"A"), b"A"));
    assert!(must_write(Some(b"A"), b"B"));
    assert!(must_write(Some(b"A"), b"AB"));
    assert!(must_write(None, b"A"));
    assert!(must_write(None, b""));
    assert!(!must_write(Some(b""), b""));
}

#[test]
fn change_detection_scenario() {
    let mut v = Validity::new();
    assert!(v.is_valid());
    assert!(!v.record_add(Some(b"A"), b"A"));
    assert!(!v.record_add(Some(b"A"), b"A"));
    assert!(v.is_valid());
    assert!(v.record_add(Some(b"A"), b"B"));
    assert!(!v.is_valid());
    assert!(!v.record_add(Some(b"B"), b"B"));
    assert!(!v.is_valid());
}

#[test]
fn new_key_invalidates() {
    let mut v = Validity::new();
    assert!(v.record_add(None, b"this key exists"));
    assert!(!v.is_valid());
}
