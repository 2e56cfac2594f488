//! The data model of a discovered topology: a device's standard descriptor
//! with its three localizable string slots, a leaf device bound to a hub
//! port, and a hub with its ordered device list.
//!
//! Each type carries a ghost model reached through `deep_view`, so that
//! contracts can speak of text as `Seq<char>` and of lists as `Seq`.

use vstd::prelude::*;

verus! {

/// A device's standard descriptor, with each of the three string slots held
/// as the raw string index paired with the resolved text, if any.
#[allow(non_snake_case)]
#[derive(Debug, PartialEq)]
pub struct UsbDeviceDescriptor {
    pub bLength: u8,
    pub bDescriptorType: u8,
    pub bcdUSB: u16,
    pub bDeviceClass: u8,
    pub bDeviceSubClass: u8,
    pub bDeviceProtocol: u8,
    pub bMaxPacketSize0: u8,
    pub idVendor: u16,
    pub idProduct: u16,
    pub bcdDevice: u16,
    pub iManufacturer: (u8, Option<String>),
    pub iProduct: (u8, Option<String>),
    pub iSerialNumber: (u8, Option<String>),
    pub bNumConfigurations: u8,
}

/// Ghost model of [`UsbDeviceDescriptor`].
#[allow(non_snake_case)]
pub ghost struct DescriptorModel {
    pub bLength: u8,
    pub bDescriptorType: u8,
    pub bcdUSB: u16,
    pub bDeviceClass: u8,
    pub bDeviceSubClass: u8,
    pub bDeviceProtocol: u8,
    pub bMaxPacketSize0: u8,
    pub idVendor: u16,
    pub idProduct: u16,
    pub bcdDevice: u16,
    pub iManufacturer: (u8, Option<Seq<char>>),
    pub iProduct: (u8, Option<Seq<char>>),
    pub iSerialNumber: (u8, Option<Seq<char>>),
    pub bNumConfigurations: u8,
}

impl DeepView for UsbDeviceDescriptor {
    type V = DescriptorModel;

    open spec fn deep_view(&self) -> DescriptorModel {
        DescriptorModel {
            bLength: self.bLength,
            bDescriptorType: self.bDescriptorType,
            bcdUSB: self.bcdUSB,
            bDeviceClass: self.bDeviceClass,
            bDeviceSubClass: self.bDeviceSubClass,
            bDeviceProtocol: self.bDeviceProtocol,
            bMaxPacketSize0: self.bMaxPacketSize0,
            idVendor: self.idVendor,
            idProduct: self.idProduct,
            bcdDevice: self.bcdDevice,
            iManufacturer: self.iManufacturer.deep_view(),
            iProduct: self.iProduct.deep_view(),
            iSerialNumber: self.iSerialNumber.deep_view(),
            bNumConfigurations: self.bNumConfigurations,
        }
    }
}

/// A leaf device: a connected, non-hub port with its decoded descriptor,
/// its driver-key identifier and its correlated container identity.
#[derive(Debug, PartialEq)]
pub struct Device {
    pub container_id: String,
    pub driver_key_name: String,
    pub port_number: u8,
    pub descriptor: UsbDeviceDescriptor,
}

/// Ghost model of [`Device`].
pub ghost struct DeviceModel {
    pub container_id: Seq<char>,
    pub driver_key_name: Seq<char>,
    pub port_number: u8,
    pub descriptor: DescriptorModel,
}

impl DeepView for Device {
    type V = DeviceModel;

    open spec fn deep_view(&self) -> DeviceModel {
        DeviceModel {
            container_id: self.container_id.deep_view(),
            driver_key_name: self.driver_key_name.deep_view(),
            port_number: self.port_number,
            descriptor: self.descriptor.deep_view(),
        }
    }
}

/// A hub: its addressable platform name, its port count, the leaf devices
/// found on its ports in ascending port order, a back-reference to the hub
/// it hangs off (`None` for a root hub), and, for non-root hubs only, the
/// descriptor decoded at the parent's port.
#[derive(Debug, PartialEq)]
pub struct Hub {
    pub hub_id: String,
    pub number_of_ports: u8,
    pub devices: Vec<Device>,
    pub parent_hub: Option<String>,
    pub descriptor: Option<UsbDeviceDescriptor>,
}

/// Ghost model of [`Hub`].
pub ghost struct HubModel {
    pub hub_id: Seq<char>,
    pub number_of_ports: u8,
    pub devices: Seq<DeviceModel>,
    pub parent_hub: Option<Seq<char>>,
    pub descriptor: Option<DescriptorModel>,
}

impl DeepView for Hub {
    type V = HubModel;

    open spec fn deep_view(&self) -> HubModel {
        HubModel {
            hub_id: self.hub_id.deep_view(),
            number_of_ports: self.number_of_ports,
            devices: self.devices.deep_view(),
            parent_hub: self.parent_hub.deep_view(),
            descriptor: match self.descriptor {
                Some(d) => Some(d.deep_view()),
                None => None,
            },
        }
    }
}

/// The devices of one hub stand in strictly ascending port order, so no
/// port number appears twice.
pub open spec fn devices_sorted(devs: Seq<Device>) -> bool {
    forall|i: int, j: int|
        0 <= i < j < devs.len() ==> devs[i].port_number < devs[j].port_number
}

/// Well-formedness of one hub node: ordered devices, and the back-reference
/// and the descriptor are present together — a hub carries both exactly
/// when it was reached through a parent hub's port, i.e. is not a root hub.
pub open spec fn hub_wf(h: Hub) -> bool {
    &&& devices_sorted(h.devices@)
    &&& (h.parent_hub is Some <==> h.descriptor is Some)
}

/// Well-formedness of the flat hub list: every hub is well formed, no hub
/// name appears twice, and every non-root hub's parent stands earlier in
/// the list.
pub open spec fn topology_wf(hubs: Seq<Hub>) -> bool {
    &&& forall|i: int| 0 <= i < hubs.len() ==> hub_wf(#[trigger] hubs[i])
    &&& forall|i: int, j: int|
        0 <= i < j < hubs.len() ==> hubs[i].hub_id@ != hubs[j].hub_id@
    &&& forall|i: int|
        0 <= i < hubs.len() && #[trigger] hubs[i].parent_hub is Some ==> exists|j: int|
            0 <= j < i && #[trigger] hubs[j].hub_id@ == hubs[i].parent_hub->0@
}

} // verus!
