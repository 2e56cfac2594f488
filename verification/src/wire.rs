//! Byte-exact interpretation of the fixed binary reply layouts returned by
//! the USB hub driver's control interface.
//!
//! Every reply reaches this module as a plain buffer (`Vec<u8>` or
//! `Vec<u16>`); the functions here assemble multi-byte fields (little-endian,
//! as on the wire), cut the fixed-size headers off the variable-length name
//! replies, and turn wide-character payloads into text.

use vstd::prelude::*;

use crate::descriptor::DescriptorModel;
use crate::descriptor::UsbDeviceDescriptor;

verus! {

/// Offset, in 16-bit units, of the name text inside a root-hub-name reply:
/// the reply starts with a 4-byte length field, so the text begins at unit 2.
pub const ROOT_HUB_NAME_OFFSET: usize = 2;

/// Offset, in 16-bit units, of the name text inside a node-connection-name
/// reply: a 4-byte connection index and a 4-byte length precede the text.
pub const NODE_NAME_OFFSET: usize = 4;

/// Offset, in 16-bit units, of the name text inside a driver-key-name reply:
/// the header matches the node-connection-name reply.
pub const DRIVER_KEY_OFFSET: usize = 4;

/// Offset, in 16-bit units, of the payload inside a string-descriptor reply:
/// the 12-byte echoed request header plus the descriptor's own 2-byte
/// length/type prefix put the payload at byte 14, i.e. unit 7.
pub const STRING_PAYLOAD_OFFSET: usize = 7;

/// The descriptor-type code for USB string descriptors.
pub const STRING_DESCRIPTOR_TYPE: u16 = 3;

/// A 16-bit field assembled from two bytes in little-endian order.
pub open spec fn le16(lo: u8, hi: u8) -> int {
    lo + 256 * hi
}

/// A 32-bit field assembled from four bytes in little-endian order.
pub open spec fn le32(b0: u8, b1: u8, b2: u8, b3: u8) -> int {
    b0 + 256 * b1 + 65536 * b2 + 16777216 * b3
}

/// The byte sequence `s` read as consecutive little-endian 16-bit units;
/// a trailing odd byte is not part of any unit.
pub open spec fn wide_units_of(s: Seq<u8>) -> Seq<u16> {
    Seq::new((s.len() / 2) as nat, |i: int| le16(s[2 * i], s[2 * i + 1]) as u16)
}

/// `s` with every trailing zero unit removed.
pub open spec fn trim_trailing_zeros(s: Seq<u16>) -> Seq<u16>
    decreases s.len(),
{
    if s.len() > 0 && s.last() == 0 {
        trim_trailing_zeros(s.drop_last())
    } else {
        s
    }
}

/// What `String::from_utf16_lossy` returns for a unit sequence; the text is
/// a function of the units alone.
pub uninterp spec fn utf16_lossy_of(units: Seq<u16>) -> Seq<char>;

/// The text carried by a wide-character name reply: everything after the
/// `skip`-unit header, with the trailing zero padding removed, decoded as
/// UTF-16.
pub open spec fn name_text_of(buf: Seq<u16>, skip: int) -> Seq<char> {
    utf16_lossy_of(trim_trailing_zeros(buf.skip(skip)))
}

/// Relies on `String::from_utf16_lossy`: the decoded text depends on the
/// code units alone, and no units decode to no text.
#[verifier::external_body]
pub(crate) fn utf16_lossy(units: &[u16]) -> (r: String)
    ensures
        r@ == utf16_lossy_of(units@),
        units@.len() == 0 ==> r@.len() == 0,
{
    String::from_utf16_lossy(units)
}

/// Relies on `String::from_utf8_lossy`: bytes below 128 are ASCII and decode
/// to the characters with the same code points.
#[verifier::external_body]
pub(crate) fn ascii_to_string(bytes: &Vec<u8>) -> (r: String)
    requires
        forall|i: int| 0 <= i < bytes@.len() ==> bytes@[i] < 128,
    ensures
        r@.len() == bytes@.len(),
        forall|i: int| 0 <= i < bytes@.len() ==> r@[i] == bytes@[i] as char,
{
    String::from_utf8_lossy(bytes).into_owned()
}

/// Helper: every unit of `s` from `n` on is zero, and unit `n - 1` (if any)
/// is not, exactly when the trimmed sequence is the prefix of length `n`.
proof fn lemma_trim_is_prefix(s: Seq<u16>, n: int)
    requires
        0 <= n <= s.len(),
        forall|j: int| n <= j < s.len() ==> s[j] == 0,
        n > 0 ==> s[n - 1] != 0,
    ensures
        trim_trailing_zeros(s) == s.subrange(0, n),
    decreases s.len(),
{
    if s.len() > n {
        assert(s.last() == 0);
        lemma_trim_is_prefix(s.drop_last(), n);
        assert(s.drop_last().subrange(0, n) =~= s.subrange(0, n));
    } else {
        assert(s.subrange(0, n) =~= s);
    }
}

/// Cuts the trailing zero units off `v`, returning the prefix up to the last
/// nonzero unit.
pub fn trim_zero_units(v: &Vec<u16>) -> (r: Vec<u16>)
    ensures
        r@ == trim_trailing_zeros(v@),
{
    let mut n: usize = v.len();
    while n > 0 && v[n - 1] == 0
        invariant
            n <= v@.len(),
            forall|j: int| n <= j < v@.len() ==> v@[j] == 0,
        decreases n,
    {
        n -= 1;
    }
    let mut r: Vec<u16> = Vec::new();
    let mut i: usize = 0;
    while i < n
        invariant
            i <= n <= v@.len(),
            r@ == v@.subrange(0, i as int),
        decreases n - i,
    {
        r.push(v[i]);
        assert(r@ =~= v@.subrange(0, i + 1 as int));
        i += 1;
    }
    proof {
        lemma_trim_is_prefix(v@, n as int);
    }
    r
}

/// Decodes a wide-character name reply whose text sits after a header of
/// `skip` units: the text is the rest of the buffer, zero padding removed.
/// `None` only when the buffer is shorter than the header it should carry.
pub fn decode_name_reply(buf: &Vec<u16>, skip: usize) -> (r: Option<String>)
    ensures
        match r {
            Some(s) => skip <= buf@.len() && s@ == name_text_of(buf@, skip as int),
            None => skip > buf@.len(),
        },
{
    if skip > buf.len() {
        return None;
    }
    let mut tail: Vec<u16> = Vec::new();
    let mut i: usize = skip;
    while i < buf.len()
        invariant
            skip <= i <= buf@.len(),
            tail@ == buf@.subrange(skip as int, i as int),
        decreases buf@.len() - i,
    {
        tail.push(buf[i]);
        assert(tail@ =~= buf@.subrange(skip as int, i + 1 as int));
        i += 1;
    }
    assert(tail@ =~= buf@.skip(skip as int));
    let trimmed = trim_zero_units(&tail);
    Some(utf16_lossy(trimmed.as_slice()))
}

/// The `wValue` field of a string-descriptor request for string index
/// `index`: descriptor type in the high byte, index in the low byte.
pub open spec fn string_request_value(index: u8) -> int {
    256 * STRING_DESCRIPTOR_TYPE + index
}

/// Builds the `wValue` of a string-descriptor request.
pub fn build_string_request_value(index: u8) -> (r: u16)
    ensures
        r == string_request_value(index),
{
    256 * STRING_DESCRIPTOR_TYPE + index as u16
}

/// Decodes the text of a successful string-descriptor reply.
pub fn decode_string_text(buf: &Vec<u16>) -> (r: Option<String>)
    ensures
        match r {
            Some(s) => STRING_PAYLOAD_OFFSET <= buf@.len() && s@ == name_text_of(
                buf@,
                STRING_PAYLOAD_OFFSET as int,
            ),
            None => STRING_PAYLOAD_OFFSET > buf@.len(),
        },
{
    decode_name_reply(buf, STRING_PAYLOAD_OFFSET)
}

/// Reads the first supported language code out of a supported-languages
/// reply (string index zero): the first 16-bit unit of the payload.
pub fn decode_first_language(buf: &Vec<u16>) -> (r: Option<u16>)
    ensures
        r == if buf@.len() > STRING_PAYLOAD_OFFSET {
            Some(buf@[STRING_PAYLOAD_OFFSET as int])
        } else {
            None::<u16>
        },
{
    if buf.len() > STRING_PAYLOAD_OFFSET {
        Some(buf[STRING_PAYLOAD_OFFSET])
    } else {
        None
    }
}

/// Byte length of the fixed part of a port-connection reply: a 4-byte
/// connection index, the 18-byte device descriptor, configuration value,
/// two flag bytes, a 2-byte address, a 4-byte pipe count and the 4-byte
/// connection status.
pub const CONNECTION_INFO_LEN: usize = 35;

/// Byte offset of the device descriptor inside a port-connection reply.
pub const DESCRIPTOR_OFFSET: usize = 4;

/// Byte offset of the is-a-hub flag inside a port-connection reply.
pub const IS_HUB_OFFSET: usize = 24;

/// Byte offset of the connection status inside a port-connection reply.
pub const STATUS_OFFSET: usize = 31;

/// Connection status code: a device is present on the port.
pub const STATUS_CONNECTED: u32 = 1;

/// Connection status code: nothing is attached to the port.
pub const STATUS_NOT_CONNECTED: u32 = 0;

/// The descriptor fields carried at bytes 4..22 of a port-connection reply
/// (the standard 18-byte device descriptor, multi-byte fields little-endian),
/// with all three string slots still unresolved.
pub open spec fn descriptor_of_bytes(s: Seq<u8>) -> DescriptorModel {
    DescriptorModel {
        bLength: s[4],
        bDescriptorType: s[5],
        bcdUSB: le16(s[6], s[7]) as u16,
        bDeviceClass: s[8],
        bDeviceSubClass: s[9],
        bDeviceProtocol: s[10],
        bMaxPacketSize0: s[11],
        idVendor: le16(s[12], s[13]) as u16,
        idProduct: le16(s[14], s[15]) as u16,
        bcdDevice: le16(s[16], s[17]) as u16,
        iManufacturer: (s[18], None),
        iProduct: (s[19], None),
        iSerialNumber: (s[20], None),
        bNumConfigurations: s[21],
    }
}

/// The connection status carried by a port-connection reply.
pub open spec fn status_of_bytes(s: Seq<u8>) -> int {
    le32(s[31], s[32], s[33], s[34])
}

/// What a port-connection query said about one port.
pub enum ConnectionInfo {
    /// The reply was shorter than its fixed layout; the port query counts
    /// as failed.
    MalformedReply,
    /// Nothing is attached to the port.
    NotConnected,
    /// The port is in a transitional or failed link state.
    Transitioning,
    /// A device is present: its decoded descriptor (string slots not yet
    /// resolved) and whether the device is itself a hub.
    Connected { descriptor: UsbDeviceDescriptor, is_hub: bool },
}

/// Decodes a port-connection reply: reads the connection status, and on a
/// connected port assembles the device descriptor and the is-a-hub flag.
pub fn parse_connection_info(buf: &Vec<u8>) -> (r: ConnectionInfo)
    ensures
        match r {
            ConnectionInfo::MalformedReply => buf@.len() < CONNECTION_INFO_LEN,
            ConnectionInfo::NotConnected => buf@.len() >= CONNECTION_INFO_LEN
                && status_of_bytes(buf@) == STATUS_NOT_CONNECTED,
            ConnectionInfo::Transitioning => buf@.len() >= CONNECTION_INFO_LEN
                && status_of_bytes(buf@) != STATUS_NOT_CONNECTED
                && status_of_bytes(buf@) != STATUS_CONNECTED,
            ConnectionInfo::Connected { descriptor, is_hub } => buf@.len()
                >= CONNECTION_INFO_LEN && status_of_bytes(buf@) == STATUS_CONNECTED
                && descriptor.deep_view() == descriptor_of_bytes(buf@)
                && is_hub == (buf@[IS_HUB_OFFSET as int] != 0),
        },
{
    if buf.len() < CONNECTION_INFO_LEN {
        return ConnectionInfo::MalformedReply;
    }
    let status: u64 = buf[31] as u64 + 256 * buf[32] as u64 + 65536 * buf[33] as u64 + 16777216
        * buf[34] as u64;
    if status == 0 {
        ConnectionInfo::NotConnected
    } else if status != 1 {
        ConnectionInfo::Transitioning
    } else {
        let descriptor = UsbDeviceDescriptor {
            bLength: buf[4],
            bDescriptorType: buf[5],
            bcdUSB: buf[6] as u16 + 256 * buf[7] as u16,
            bDeviceClass: buf[8],
            bDeviceSubClass: buf[9],
            bDeviceProtocol: buf[10],
            bMaxPacketSize0: buf[11],
            idVendor: buf[12] as u16 + 256 * buf[13] as u16,
            idProduct: buf[14] as u16 + 256 * buf[15] as u16,
            bcdDevice: buf[16] as u16 + 256 * buf[17] as u16,
            iManufacturer: (buf[18], None),
            iProduct: (buf[19], None),
            iSerialNumber: (buf[20], None),
            bNumConfigurations: buf[21],
        };
        ConnectionInfo::Connected { descriptor, is_hub: buf[24] != 0 }
    }
}

} // verus!
