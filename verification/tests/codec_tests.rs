use lswinusb::codec::decode_topology;
use lswinusb::codec::encode_topology;
use lswinusb::descriptor::Device;
use lswinusb::descriptor::Hub;
use lswinusb::descriptor::UsbDeviceDescriptor;

fn desc(man: u8, text: Option<&str>) -> UsbDeviceDescriptor {
    UsbDeviceDescriptor {
        bLength: 18,
        bDescriptorType: 1,
        bcdUSB: 0x0210,
        bDeviceClass: 9,
        bDeviceSubClass: 0,
        bDeviceProtocol: 1,
        bMaxPacketSize0: 64,
        idVendor: 0x2109,
        idProduct: 0x2817,
        bcdDevice: 0x0655,
        iManufacturer: (man, text.map(|t| t.to_string())),
        iProduct: (2, Some("USB2.0 Hub".to_string())),
        iSerialNumber: (0, None),
        bNumConfigurations: 1,
    }
}

fn sample_topology() -> Vec<Hub> {
    vec![
        Hub {
            hub_id: "USB#ROOT_HUB30#5&1bd9d1c3&0".to_string(),
            number_of_ports: 4,
            devices: vec![
                Device {
                    container_id: "{12345678-abcd-def0-1234-56789abcdef0}".to_string(),
                    driver_key_name: "{36fc9e60-c465-11cf-8056-444553540000}\\0020".to_string(),
                    port_number: 2,
                    descriptor: desc(1, Some("VIA Labs, Inc.")),
                },
            ],
            parent_hub: None,
            descriptor: None,
        },
        Hub {
            hub_id: "USB#VID_2109&PID_2817#6&2e2d9&0&4".to_string(),
            number_of_ports: 2,
            devices: Vec::new(),
            parent_hub: Some("USB#ROOT_HUB30#5&1bd9d1c3&0".to_string()),
            descriptor: Some(desc(0, None)),
        },
    ]
}

#[test]
fn topology_round_trip_is_lossless() {
    let topology = sample_topology();
    let encoded = encode_topology(&topology);
    let decoded = decode_topology(&encoded).unwrap();
    assert_eq!(decoded, topology);
}

#[test]
fn empty_topology_round_trips() {
    let empty: Vec<Hub> = Vec::new();
    let encoded = encode_topology(&empty);
    let decoded = decode_topology(&encoded).unwrap();
    assert!(decoded.is_empty());
}

#[test]
fn strings_with_spaces_and_marks_survive_the_round_trip() {
    let mut topology = sample_topology();
    topology[0].devices[0].container_id = "{} \\ \"quoted\" id:9".to_string();
    let encoded = encode_topology(&topology);
    let decoded = decode_topology(&encoded).unwrap();
    assert_eq!(decoded, topology);
}

#[test]
fn truncated_text_is_refused() {
    let topology = sample_topology();
    let mut encoded = encode_topology(&topology);
    encoded.pop();
    assert!(decode_topology(&encoded).is_none());
}

#[test]
fn trailing_garbage_is_refused() {
    let topology = sample_topology();
    let mut encoded = encode_topology(&topology);
    encoded.push(32);
    assert!(decode_topology(&encoded).is_none());
}

#[test]
fn the_empty_input_is_refused() {
    assert!(decode_topology(&Vec::new()).is_none());
}
