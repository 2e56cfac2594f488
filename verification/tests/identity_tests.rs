use lswinusb::identity::container_id_from_bytes;
use lswinusb::identity::correlate;
use lswinusb::identity::driver_key_from_bytes;

#[test]
fn container_id_renders_as_braced_lowercase_guid() {
    let data: Vec<u8> = vec![
        0x78, 0x56, 0x34, 0x12, 0xcd, 0xab, 0xf0, 0xde, 0x12, 0x34, 0x56, 0x78, 0x9a, 0xbc, 0xde,
        0xf0,
    ];
    let id = container_id_from_bytes(&data).unwrap();
    assert_eq!(id, "{12345678-abcd-def0-1234-56789abcdef0}");
}

#[test]
fn container_id_pads_small_fields_with_zeros() {
    let data: Vec<u8> = vec![1, 0, 0, 0, 2, 0, 3, 0, 0, 1, 0, 0, 0, 0, 0, 0xff];
    let id = container_id_from_bytes(&data).unwrap();
    assert_eq!(id, "{00000001-0002-0003-0001-0000000000ff}");
}

#[test]
fn short_guid_buffer_is_refused() {
    assert!(container_id_from_bytes(&vec![0u8; 15]).is_none());
}

#[test]
fn driver_key_decodes_wide_property_bytes() {
    let text = "{36fc9e60-c465-11cf-8056-444553540000}\\0020";
    let mut data: Vec<u8> = Vec::new();
    for unit in text.encode_utf16() {
        data.push((unit & 0xff) as u8);
        data.push((unit >> 8) as u8);
    }
    data.extend([0u8; 8]);
    assert_eq!(driver_key_from_bytes(&data), text);
}

#[test]
fn correlate_returns_first_exact_match() {
    let table = vec![
        ("key-a".to_string(), "{id-1}".to_string()),
        ("key-b".to_string(), "{id-2}".to_string()),
        ("key-a".to_string(), "{id-3}".to_string()),
    ];
    assert_eq!(correlate(&"key-a".to_string(), &table), Some("{id-1}".to_string()));
    assert_eq!(correlate(&"key-b".to_string(), &table), Some("{id-2}".to_string()));
}

#[test]
fn correlate_misses_when_no_key_matches() {
    let table = vec![("key-a".to_string(), "{id-1}".to_string())];
    assert_eq!(correlate(&"key-c".to_string(), &table), None);
    assert_eq!(correlate(&"key".to_string(), &table), None);
    assert_eq!(correlate(&"key-a".to_string(), &Vec::new()), None);
}
