use lswinusb::descriptor::Device;
use lswinusb::descriptor::Hub;
use lswinusb::descriptor::UsbDeviceDescriptor;
use lswinusb::walker::Reply;
use lswinusb::walker::Request;
use lswinusb::walker::TopologyBuilder;
use lswinusb::wire::ConnectionInfo;

fn desc(man: u8, prod: u8, ser: u8) -> UsbDeviceDescriptor {
    UsbDeviceDescriptor {
        bLength: 18,
        bDescriptorType: 1,
        bcdUSB: 0x0200,
        bDeviceClass: 0,
        bDeviceSubClass: 0,
        bDeviceProtocol: 0,
        bMaxPacketSize0: 64,
        idVendor: 0x1d6b,
        idProduct: 0x0003,
        bcdDevice: 0x0100,
        iManufacturer: (man, None),
        iProduct: (prod, None),
        iSerialNumber: (ser, None),
        bNumConfigurations: 1,
    }
}

/// Feeds "no such slot" answers until the walk reports completion.
fn drain(mut b: TopologyBuilder, mut req: Request) -> TopologyBuilder {
    loop {
        match req {
            Request::OpenRootController { .. } => {
                let (nb, nr) = b.step(Reply::RootName(None));
                b = nb;
                req = nr;
            },
            Request::Complete => {
                assert!(b.is_complete());
                return b;
            },
            _ => panic!("unexpected request while draining"),
        }
    }
}

#[test]
fn nested_hub_scenario_builds_two_hubs() {
    // A root hub with 4 ports: ports 1 and 3 empty, port 2 a plain device
    // with string indices (1, 2, 0) resolvable at the preferred language,
    // port 4 a nested hub whose own 2 ports are both empty.
    let (b, req) = TopologyBuilder::start(0x0409, false);
    assert!(matches!(req, Request::OpenRootController { slot: 0 }));
    let (b, req) = b.step(Reply::RootName(Some("ROOT1".to_string())));
    assert!(matches!(req, Request::OpenHub { ref hub_id } if hub_id == "ROOT1"));
    let (b, req) = b.step(Reply::HubOpened(true));
    assert!(matches!(req, Request::QueryPortCount));
    let (b, req) = b.step(Reply::PortCount(Some(4)));
    assert!(matches!(req, Request::QueryPort { port: 1 }));
    let (b, req) = b.step(Reply::PortStatus(ConnectionInfo::NotConnected));
    assert!(matches!(req, Request::QueryPort { port: 2 }));
    let (b, req) = b.step(
        Reply::PortStatus(ConnectionInfo::Connected { descriptor: desc(1, 2, 0), is_hub: false }),
    );
    assert!(matches!(req, Request::QueryString { port: 2, string_index: 1, lang_id: 0x0409 }));
    let (b, req) = b.step(Reply::StringText(Some("ACME".to_string())));
    assert!(matches!(req, Request::QueryString { port: 2, string_index: 2, lang_id: 0x0409 }));
    let (b, req) = b.step(Reply::StringText(Some("Widget".to_string())));
    assert!(matches!(req, Request::QueryDriverKey { port: 2 }));
    let (b, req) = b.step(Reply::DriverKey(Some("KEY2".to_string())));
    assert!(matches!(req, Request::QueryRegistry));
    let table = vec![("KEY2".to_string(), "{c1}".to_string())];
    let (b, req) = b.step(Reply::Registry(Some(table)));
    assert!(matches!(req, Request::QueryPort { port: 3 }));
    let (b, req) = b.step(Reply::PortStatus(ConnectionInfo::NotConnected));
    assert!(matches!(req, Request::QueryPort { port: 4 }));
    let (b, req) = b.step(
        Reply::PortStatus(ConnectionInfo::Connected { descriptor: desc(0, 0, 0), is_hub: true }),
    );
    assert!(matches!(req, Request::QuerySubHubName { port: 4 }));
    let (b, req) = b.step(Reply::SubHubName(Some("HUB2".to_string())));
    // The root hub is finished; its sub-hub is walked next.
    assert!(matches!(req, Request::OpenHub { ref hub_id } if hub_id == "HUB2"));
    let (b, req) = b.step(Reply::HubOpened(true));
    assert!(matches!(req, Request::QueryPortCount));
    let (b, req) = b.step(Reply::PortCount(Some(2)));
    assert!(matches!(req, Request::QueryPort { port: 1 }));
    let (b, req) = b.step(Reply::PortStatus(ConnectionInfo::NotConnected));
    assert!(matches!(req, Request::QueryPort { port: 2 }));
    let (b, req) = b.step(Reply::PortStatus(ConnectionInfo::NotConnected));
    assert!(matches!(req, Request::OpenRootController { slot: 1 }));
    let hubs = drain(b, req).finish();

    let expected_device = Device {
        container_id: "{c1}".to_string(),
        driver_key_name: "KEY2".to_string(),
        port_number: 2,
        descriptor: UsbDeviceDescriptor {
            iManufacturer: (1, Some("ACME".to_string())),
            iProduct: (2, Some("Widget".to_string())),
            iSerialNumber: (0, None),
            ..desc(1, 2, 0)
        },
    };
    let expected = vec![
        Hub {
            hub_id: "ROOT1".to_string(),
            number_of_ports: 4,
            devices: vec![expected_device],
            parent_hub: None,
            descriptor: None,
        },
        Hub {
            hub_id: "HUB2".to_string(),
            number_of_ports: 2,
            devices: Vec::new(),
            parent_hub: Some("ROOT1".to_string()),
            descriptor: Some(desc(0, 0, 0)),
        },
    ];
    assert_eq!(hubs, expected);
}

#[test]
fn failed_slot_is_skipped_without_aborting_the_scan() {
    let (b, req) = TopologyBuilder::start(0x0409, false);
    assert!(matches!(req, Request::OpenRootController { slot: 0 }));
    let (b, req) = b.step(Reply::RootName(None));
    assert!(matches!(req, Request::OpenRootController { slot: 1 }));
    let (b, req) = b.step(Reply::RootName(Some("R1".to_string())));
    let (b, req) = b.step(Reply::HubOpened(true));
    assert!(matches!(req, Request::QueryPortCount));
    let (b, req) = b.step(Reply::PortCount(Some(0)));
    assert!(matches!(req, Request::OpenRootController { slot: 2 }));
    let hubs = drain(b, req).finish();
    assert_eq!(hubs.len(), 1);
    assert_eq!(hubs[0].hub_id, "R1");
    assert_eq!(hubs[0].number_of_ports, 0);
    assert!(hubs[0].devices.is_empty());
}

#[test]
fn driver_key_failure_aborts_the_hub_but_not_its_siblings() {
    let (b, _req) = TopologyBuilder::start(0x0409, false);
    let (b, _req) = b.step(Reply::RootName(Some("R1".to_string())));
    let (b, _req) = b.step(Reply::HubOpened(true));
    let (b, req) = b.step(Reply::PortCount(Some(1)));
    assert!(matches!(req, Request::QueryPort { port: 1 }));
    let (b, req) = b.step(
        Reply::PortStatus(ConnectionInfo::Connected { descriptor: desc(0, 0, 0), is_hub: false }),
    );
    assert!(matches!(req, Request::QueryDriverKey { port: 1 }));
    let (b, req) = b.step(Reply::DriverKey(None));
    // The whole hub is abandoned and the scan moves to the next slot.
    assert!(matches!(req, Request::OpenRootController { slot: 1 }));
    let (b, _req) = b.step(Reply::RootName(Some("R2".to_string())));
    let (b, _req) = b.step(Reply::HubOpened(true));
    let (b, req) = b.step(Reply::PortCount(Some(0)));
    let hubs = drain(b, req).finish();
    assert_eq!(hubs.len(), 1);
    assert_eq!(hubs[0].hub_id, "R2");
}

#[test]
fn registry_failure_aborts_the_hub() {
    let (b, _req) = TopologyBuilder::start(0x0409, false);
    let (b, _req) = b.step(Reply::RootName(Some("R1".to_string())));
    let (b, _req) = b.step(Reply::HubOpened(true));
    let (b, _req) = b.step(Reply::PortCount(Some(1)));
    let (b, _req) = b.step(
        Reply::PortStatus(ConnectionInfo::Connected { descriptor: desc(0, 0, 0), is_hub: false }),
    );
    let (b, _req) = b.step(Reply::DriverKey(Some("K1".to_string())));
    let (b, req) = b.step(Reply::Registry(None));
    assert!(matches!(req, Request::OpenRootController { slot: 1 }));
    let hubs = drain(b, req).finish();
    assert!(hubs.is_empty());
}

#[test]
fn unmatched_identity_drops_the_device_by_default() {
    let (b, _req) = TopologyBuilder::start(0x0409, false);
    let (b, _req) = b.step(Reply::RootName(Some("R1".to_string())));
    let (b, _req) = b.step(Reply::HubOpened(true));
    let (b, _req) = b.step(Reply::PortCount(Some(1)));
    let (b, _req) = b.step(
        Reply::PortStatus(ConnectionInfo::Connected { descriptor: desc(0, 0, 0), is_hub: false }),
    );
    let (b, _req) = b.step(Reply::DriverKey(Some("K1".to_string())));
    let table = vec![("other".to_string(), "{x}".to_string())];
    let (b, req) = b.step(Reply::Registry(Some(table)));
    let hubs = drain(b, req).finish();
    assert_eq!(hubs.len(), 1);
    assert!(hubs[0].devices.is_empty());
}

#[test]
fn unmatched_identity_keeps_the_device_when_asked_to() {
    let (b, _req) = TopologyBuilder::start(0x0409, true);
    let (b, _req) = b.step(Reply::RootName(Some("R1".to_string())));
    let (b, _req) = b.step(Reply::HubOpened(true));
    let (b, _req) = b.step(Reply::PortCount(Some(1)));
    let (b, _req) = b.step(
        Reply::PortStatus(ConnectionInfo::Connected { descriptor: desc(0, 0, 0), is_hub: false }),
    );
    let (b, _req) = b.step(Reply::DriverKey(Some("K1".to_string())));
    let table = vec![("other".to_string(), "{x}".to_string())];
    let (b, req) = b.step(Reply::Registry(Some(table)));
    let hubs = drain(b, req).finish();
    assert_eq!(hubs.len(), 1);
    assert_eq!(hubs[0].devices.len(), 1);
    assert_eq!(hubs[0].devices[0].container_id, "");
    assert_eq!(hubs[0].devices[0].driver_key_name, "K1");
    assert_eq!(hubs[0].devices[0].port_number, 1);
}

#[test]
fn a_sub_hub_with_a_used_name_is_skipped() {
    let (b, _req) = TopologyBuilder::start(0x0409, false);
    let (b, _req) = b.step(Reply::RootName(Some("R1".to_string())));
    let (b, _req) = b.step(Reply::HubOpened(true));
    let (b, _req) = b.step(Reply::PortCount(Some(1)));
    let (b, _req) = b.step(
        Reply::PortStatus(ConnectionInfo::Connected { descriptor: desc(0, 0, 0), is_hub: true }),
    );
    let (b, req) = b.step(Reply::SubHubName(Some("R1".to_string())));
    // The name is already in use, so nothing is queued for it.
    assert!(matches!(req, Request::OpenRootController { slot: 1 }));
    let hubs = drain(b, req).finish();
    assert_eq!(hubs.len(), 1);
    assert_eq!(hubs[0].hub_id, "R1");
    assert!(hubs[0].devices.is_empty());
}

#[test]
fn devices_come_out_in_ascending_port_order() {
    let (b, _req) = TopologyBuilder::start(0x0409, false);
    let (b, _req) = b.step(Reply::RootName(Some("R1".to_string())));
    let (b, _req) = b.step(Reply::HubOpened(true));
    let (mut b, mut req) = b.step(Reply::PortCount(Some(3)));
    for port in 1..=3u8 {
        assert!(matches!(req, Request::QueryPort { port: p } if p == port));
        let (nb, nr) = b.step(
            Reply::PortStatus(
                ConnectionInfo::Connected { descriptor: desc(0, 0, 0), is_hub: false },
            ),
        );
        let (nb, nr) = nb.step(Reply::DriverKey(Some(format!("K{}", port))));
        assert!(matches!(nr, Request::QueryRegistry));
        let table = vec![
            (format!("K{}", port), format!("{{id-{}}}", port)),
        ];
        let (nb, nr) = nb.step(Reply::Registry(Some(table)));
        b = nb;
        req = nr;
    }
    let hubs = drain(b, req).finish();
    assert_eq!(hubs.len(), 1);
    let ports: Vec<u8> = hubs[0].devices.iter().map(|d| d.port_number).collect();
    assert_eq!(ports, vec![1, 2, 3]);
    assert_eq!(hubs[0].devices[2].container_id, "{id-3}");
}

#[test]
fn get_hub_devices_assembles_a_parentless_hub() {
    let hub = lswinusb::walker::get_hub_devices("R1".to_string(), 4, Vec::new());
    assert_eq!(hub.hub_id, "R1");
    assert_eq!(hub.number_of_ports, 4);
    assert!(hub.devices.is_empty());
    assert!(hub.parent_hub.is_none());
    assert!(hub.descriptor.is_none());
}
