use lswinusb::wire::build_string_request_value;
use lswinusb::wire::decode_first_language;
use lswinusb::wire::decode_name_reply;
use lswinusb::wire::decode_string_text;
use lswinusb::wire::parse_connection_info;
use lswinusb::wire::trim_zero_units;
use lswinusb::wire::ConnectionInfo;
use lswinusb::wire::NODE_NAME_OFFSET;
use lswinusb::wire::ROOT_HUB_NAME_OFFSET;
use lswinusb::wire::STRING_PAYLOAD_OFFSET;

fn wide(s: &str) -> Vec<u16> {
    s.encode_utf16().collect()
}

#[test]
fn root_hub_name_reply_decodes() {
    let mut buf: Vec<u16> = vec![0, 0];
    buf.extend(wide("USB#ROOT_HUB30#5&1bd9d1c3&0"));
    buf.extend([0u16; 6]);
    let name = decode_name_reply(&buf, ROOT_HUB_NAME_OFFSET).unwrap();
    assert_eq!(name, "USB#ROOT_HUB30#5&1bd9d1c3&0");
}

#[test]
fn node_name_reply_decodes() {
    let mut buf: Vec<u16> = vec![0, 0, 0, 0];
    buf.extend(wide("USB#VID_2109&PID_2817#6&2e2\u{e4}9&0&4"));
    buf.extend([0u16; 3]);
    let name = decode_name_reply(&buf, NODE_NAME_OFFSET).unwrap();
    assert_eq!(name, "USB#VID_2109&PID_2817#6&2e2\u{e4}9&0&4");
}

#[test]
fn short_name_reply_is_refused() {
    let buf: Vec<u16> = vec![0, 0, 0];
    assert!(decode_name_reply(&buf, 4).is_none());
}

#[test]
fn string_text_reply_decodes() {
    let mut buf: Vec<u16> = vec![0; STRING_PAYLOAD_OFFSET];
    buf.extend(wide("SanDisk 3.2 Gen1"));
    buf.extend([0u16; 4]);
    let text = decode_string_text(&buf).unwrap();
    assert_eq!(text, "SanDisk 3.2 Gen1");
}

#[test]
fn language_list_reply_gives_first_code() {
    let mut buf: Vec<u16> = vec![0; STRING_PAYLOAD_OFFSET];
    buf.push(0x0407);
    buf.push(0x0409);
    assert_eq!(decode_first_language(&buf), Some(0x0407));
    let short: Vec<u16> = vec![0; STRING_PAYLOAD_OFFSET];
    assert_eq!(decode_first_language(&short), None);
}

#[test]
fn string_request_value_packs_type_and_index() {
    assert_eq!(build_string_request_value(0x02), 0x0302);
    assert_eq!(build_string_request_value(0xff), 0x03ff);
}

#[test]
fn trim_removes_only_trailing_zeros() {
    assert_eq!(trim_zero_units(&vec![65, 0, 66, 0, 0]), vec![65, 0, 66]);
    assert_eq!(trim_zero_units(&vec![0u16, 0, 0]), Vec::<u16>::new());
    assert_eq!(trim_zero_units(&Vec::new()), Vec::<u16>::new());
}

fn connection_reply(status: u32, is_hub: bool) -> Vec<u8> {
    let mut buf = vec![0u8; 35];
    buf[0] = 2; // connection index
    buf[4] = 18; // bLength
    buf[5] = 1; // bDescriptorType
    buf[6] = 0x00; // bcdUSB 0x0200
    buf[7] = 0x02;
    buf[8] = 9; // bDeviceClass
    buf[9] = 0; // bDeviceSubClass
    buf[10] = 1; // bDeviceProtocol
    buf[11] = 64; // bMaxPacketSize0
    buf[12] = 0x6b; // idVendor 0x1d6b
    buf[13] = 0x1d;
    buf[14] = 0x02; // idProduct 0x0002
    buf[15] = 0x00;
    buf[16] = 0x15; // bcdDevice 0x0515
    buf[17] = 0x05;
    buf[18] = 1; // iManufacturer
    buf[19] = 2; // iProduct
    buf[20] = 3; // iSerialNumber
    buf[21] = 1; // bNumConfigurations
    buf[24] = if is_hub { 1 } else { 0 };
    buf[31] = (status & 0xff) as u8;
    buf[32] = ((status >> 8) & 0xff) as u8;
    buf[33] = ((status >> 16) & 0xff) as u8;
    buf[34] = ((status >> 24) & 0xff) as u8;
    buf
}

#[test]
fn connected_port_reply_parses_descriptor() {
    let buf = connection_reply(1, true);
    match parse_connection_info(&buf) {
        ConnectionInfo::Connected { descriptor, is_hub } => {
            assert!(is_hub);
            assert_eq!(descriptor.bLength, 18);
            assert_eq!(descriptor.bDescriptorType, 1);
            assert_eq!(descriptor.bcdUSB, 0x0200);
            assert_eq!(descriptor.bDeviceClass, 9);
            assert_eq!(descriptor.bDeviceSubClass, 0);
            assert_eq!(descriptor.bDeviceProtocol, 1);
            assert_eq!(descriptor.bMaxPacketSize0, 64);
            assert_eq!(descriptor.idVendor, 0x1d6b);
            assert_eq!(descriptor.idProduct, 0x0002);
            assert_eq!(descriptor.bcdDevice, 0x0515);
            assert_eq!(descriptor.iManufacturer, (1, None));
            assert_eq!(descriptor.iProduct, (2, None));
            assert_eq!(descriptor.iSerialNumber, (3, None));
            assert_eq!(descriptor.bNumConfigurations, 1);
        },
        _ => panic!("expected a connected port"),
    }
}

#[test]
fn port_states_parse() {
    assert!(matches!(parse_connection_info(&connection_reply(0, false)), ConnectionInfo::NotConnected));
    assert!(matches!(parse_connection_info(&connection_reply(5, false)), ConnectionInfo::Transitioning));
    assert!(matches!(parse_connection_info(&vec![0u8; 10]), ConnectionInfo::MalformedReply));
}
