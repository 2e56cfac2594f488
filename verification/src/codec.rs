//! A lossless text form of a topology, and its strict reader.
//!
//! Every record is a tagged run of fixed-width decimal numbers,
//! length-prefixed ASCII strings and one-byte option marks (`+` present,
//! `-` absent): a topology is `T`, the hub count, then each hub; a hub is
//! `H`, its name, port count, optional parent name, optional descriptor
//! and its devices behind their count; a device is `D`, its container id,
//! driver key, port number and descriptor; a descriptor is `G` followed by
//! its numeric fields and three string slots in declaration order. Numbers
//! are zero-padded to three digits for byte fields, five for 16-bit fields
//! and nine for lengths and counts.
//!
//! The reader accepts exactly what the writer emits and hands back the
//! same fields; the round-trip laws state that decoding an encoded
//! topology loses nothing, for every topology whose text is ASCII.

use vstd::prelude::*;

use crate::descriptor::DescriptorModel;
use crate::descriptor::DeviceModel;
use crate::descriptor::HubModel;
use crate::descriptor::Device;
use crate::descriptor::Hub;
use crate::descriptor::UsbDeviceDescriptor;
use crate::identity::ascii_chars;

verus! {

/// Ten to the `w`th power.
pub open spec fn pow10(w: nat) -> int
    decreases w,
{
    if w == 0 {
        1
    } else {
        10 * pow10((w - 1) as nat)
    }
}

/// The byte of a character; faithful only below 128.
pub open spec fn char_byte(c: char) -> u8 {
    (c as u32) as u8
}

/// The bytes of an ASCII text.
pub open spec fn ascii_bytes(s: Seq<char>) -> Seq<u8> {
    Seq::new(s.len(), |i: int| char_byte(s[i]))
}

/// Every character is ASCII.
pub open spec fn ascii_text(s: Seq<char>) -> bool {
    forall|i: int| 0 <= i < s.len() ==> (s[i] as u32) < 128
}

/// The decimal digit byte for a value below ten.
pub open spec fn digit_byte(d: int) -> u8 {
    (48 + d) as u8
}

/// `n` written as exactly `w` decimal digits, zero padded, most
/// significant first.
pub open spec fn enc_fixed(n: int, w: nat) -> Seq<u8>
    decreases w,
{
    if w == 0 {
        Seq::empty()
    } else {
        enc_fixed(n / 10, (w - 1) as nat).push(digit_byte(n % 10))
    }
}

/// A length-prefixed string: nine digits of length, then the bytes.
pub open spec fn enc_str(s: Seq<char>) -> Seq<u8> {
    enc_fixed(s.len() as int, 9) + ascii_bytes(s)
}

/// An optional string: `-` alone, or `+` and the string.
pub open spec fn enc_opt_str(o: Option<Seq<char>>) -> Seq<u8> {
    match o {
        None => seq![45u8],
        Some(s) => seq![43u8] + enc_str(s),
    }
}

/// A decimal digit.
pub open spec fn is_digit(b: u8) -> bool {
    48 <= b <= 57
}

/// Reads exactly `w` digits from `pos`, most significant first.
pub open spec fn dec_fixed(buf: Seq<u8>, pos: int, w: nat) -> Option<(int, int)>
    decreases w,
{
    if w == 0 {
        if 0 <= pos <= buf.len() {
            Some((0, pos))
        } else {
            None
        }
    } else {
        match dec_fixed(buf, pos, (w - 1) as nat) {
            None => None,
            Some((hi, p)) => if p < buf.len() && is_digit(buf[p]) {
                Some((10 * hi + (buf[p] - 48), p + 1))
            } else {
                None
            },
        }
    }
}

/// Every byte is ASCII.
pub open spec fn bytes_ascii(s: Seq<u8>) -> bool {
    forall|i: int| 0 <= i < s.len() ==> s[i] < 128
}

/// Reads a length-prefixed ASCII string.
pub open spec fn dec_str(buf: Seq<u8>, pos: int) -> Option<(Seq<char>, int)> {
    match dec_fixed(buf, pos, 9) {
        None => None,
        Some((len, p)) => if p + len <= buf.len() && bytes_ascii(buf.subrange(p, p + len)) {
            Some((ascii_chars(buf.subrange(p, p + len)), p + len))
        } else {
            None
        },
    }
}

/// Reads an optional string.
pub open spec fn dec_opt_str(buf: Seq<u8>, pos: int) -> Option<(Option<Seq<char>>, int)> {
    if 0 <= pos < buf.len() && buf[pos] == 45 {
        Some((None, pos + 1))
    } else if 0 <= pos < buf.len() && buf[pos] == 43 {
        match dec_str(buf, pos + 1) {
            None => None,
            Some((s, p)) => Some((Some(s), p)),
        }
    } else {
        None
    }
}

/// Digit strings decode to the number they were written from.
proof fn lemma_fixed_rt(buf: Seq<u8>, pos: int, n: int, w: nat)
    requires
        0 <= n < pow10(w),
        0 <= pos,
        pos + w <= buf.len(),
        buf.subrange(pos, pos + w) == enc_fixed(n, w),
    ensures
        dec_fixed(buf, pos, w) == Some((n, pos + w)),
    decreases w,
{
    if w > 0 {
        let prev = (w - 1) as nat;
        assert(enc_fixed(n, w) == enc_fixed(n / 10, prev).push(digit_byte(n % 10)));
        lemma_enc_fixed_len(n / 10, prev);
        assert(buf.subrange(pos, pos + prev) =~= enc_fixed(n / 10, prev)) by {
            assert(forall|i: int|
                0 <= i < prev ==> buf.subrange(pos, pos + w)[i] == #[trigger] buf.subrange(
                    pos,
                    pos + prev,
                )[i]);
        }
        assert(0 <= n / 10 < pow10(prev)) by (nonlinear_arith)
            requires
                0 <= n < pow10(w),
                pow10(w) == 10 * pow10(prev),
        ;
        lemma_fixed_rt(buf, pos, n / 10, prev);
        assert(buf[pos + w - 1] == buf.subrange(pos, pos + w)[w - 1]);
        assert(buf[pos + w - 1] == digit_byte(n % 10));
        assert(is_digit(digit_byte(n % 10)));
        assert(10 * (n / 10) + (digit_byte(n % 10) - 48) == n);
    } else {
        assert(dec_fixed(buf, pos, 0) == Some((0int, pos)));
    }
}

/// A fixed-width number takes exactly its width.
proof fn lemma_enc_fixed_len(n: int, w: nat)
    ensures
        enc_fixed(n, w).len() == w,
    decreases w,
{
    if w > 0 {
        lemma_enc_fixed_len(n / 10, (w - 1) as nat);
    }
}

/// An ASCII string's encoding decodes to the same text.
proof fn lemma_str_rt(buf: Seq<u8>, pos: int, s: Seq<char>)
    requires
        ascii_text(s),
        s.len() < pow10(9),
        0 <= pos,
        pos + enc_str(s).len() <= buf.len(),
        buf.subrange(pos, pos + enc_str(s).len() as int) == enc_str(s),
    ensures
        enc_str(s).len() == 9 + s.len(),
        dec_str(buf, pos) == Some((s, pos + enc_str(s).len() as int)),
{
    lemma_enc_fixed_len(s.len() as int, 9);
    let e = enc_str(s);
    assert(e.len() == 9 + s.len());
    assert(buf.subrange(pos, pos + 9) =~= enc_fixed(s.len() as int, 9)) by {
        assert(forall|i: int|
            0 <= i < 9 ==> buf.subrange(pos, pos + e.len() as int)[i] == #[trigger] buf.subrange(
                pos,
                pos + 9,
            )[i]);
    }
    lemma_fixed_rt(buf, pos, s.len() as int, 9);
    let p = pos + 9;
    let body = buf.subrange(p, p + s.len() as int);
    assert(body =~= ascii_bytes(s)) by {
        assert(forall|i: int|
            0 <= i < s.len() ==> buf.subrange(pos, pos + e.len() as int)[9 + i]
                == #[trigger] body[i]);
    }
    assert forall|i: int| 0 <= i < body.len() implies body[i] < 128 by {
        let cc = s[i];
        assert(body[i] == char_byte(cc));
        assert((cc as u32) < 128);
        assert(((cc as u32) as u8) < 128);
    }
    assert(ascii_chars(body) =~= s) by {
        assert forall|i: int| 0 <= i < s.len() implies ascii_chars(body)[i] == s[i] by {
            let cc = s[i];
            let t = cc as u32;
            let bb = char_byte(cc);
            assert(body[i] == bb);
            assert(t < 128);
            assert(bb == t as u8);
            assert((bb as u32) == t);
            assert((bb as char) == ((bb as u32) as char));
            vstd::utf8::char_u32_cast(cc, t);
            assert((bb as char) == cc);
        }
    }
}

/// An optional string's encoding decodes to the same option.
proof fn lemma_opt_str_rt(buf: Seq<u8>, pos: int, o: Option<Seq<char>>)
    requires
        match o {
            None => true,
            Some(s) => ascii_text(s) && s.len() < pow10(9),
        },
        0 <= pos,
        pos + enc_opt_str(o).len() <= buf.len(),
        buf.subrange(pos, pos + enc_opt_str(o).len() as int) == enc_opt_str(o),
    ensures
        dec_opt_str(buf, pos) == Some((o, pos + enc_opt_str(o).len() as int)),
{
    let e = enc_opt_str(o);
    match o {
        None => {
            assert(buf[pos] == e[0]);
        },
        Some(s) => {
            lemma_enc_fixed_len(s.len() as int, 9);
            assert(buf[pos] == e[0]);
            assert(buf.subrange(pos + 1, pos + 1 + enc_str(s).len() as int) =~= enc_str(s)) by {
                assert(forall|i: int|
                    0 <= i < enc_str(s).len() ==> buf.subrange(pos, pos + e.len() as int)[1 + i]
                        == #[trigger] buf.subrange(
                        pos + 1,
                        pos + 1 + enc_str(s).len() as int,
                    )[i]);
            }
            lemma_str_rt(buf, pos + 1, s);
        },
    }
}




/// A slot: three digits of string index, then the optional text.
pub open spec fn enc_slot(sl: (u8, Option<Seq<char>>)) -> Seq<u8> {
    enc_fixed(sl.0 as int, 3) + enc_opt_str(sl.1)
}

/// A descriptor record: `G`, the numeric fields, the three string slots.
pub open spec fn enc_desc(d: DescriptorModel) -> Seq<u8> {
    seq![71u8] + enc_fixed(d.bLength as int, 3) + enc_fixed(d.bDescriptorType as int, 3)
        + enc_fixed(d.bcdUSB as int, 5) + enc_fixed(d.bDeviceClass as int, 3) + enc_fixed(
        d.bDeviceSubClass as int,
        3,
    ) + enc_fixed(d.bDeviceProtocol as int, 3) + enc_fixed(d.bMaxPacketSize0 as int, 3)
        + enc_fixed(d.idVendor as int, 5) + enc_fixed(d.idProduct as int, 5) + enc_fixed(
        d.bcdDevice as int,
        5,
    ) + enc_slot(d.iManufacturer) + enc_slot(d.iProduct) + enc_slot(d.iSerialNumber) + enc_fixed(
        d.bNumConfigurations as int,
        3,
    )
}

/// An optional descriptor.
pub open spec fn enc_opt_desc(o: Option<DescriptorModel>) -> Seq<u8> {
    match o {
        None => seq![45u8],
        Some(d) => seq![43u8] + enc_desc(d),
    }
}

/// A device record: `D`, container id, driver key, port, descriptor.
pub open spec fn enc_device(d: DeviceModel) -> Seq<u8> {
    seq![68u8] + enc_str(d.container_id) + enc_str(d.driver_key_name) + enc_fixed(
        d.port_number as int,
        3,
    ) + enc_desc(d.descriptor)
}

/// A run of device records.
pub open spec fn enc_devices(ds: Seq<DeviceModel>) -> Seq<u8>
    decreases ds.len(),
{
    if ds.len() == 0 {
        Seq::empty()
    } else {
        enc_device(ds[0]) + enc_devices(ds.drop_first())
    }
}

/// A hub record: `H`, name, port count, optional parent, optional
/// descriptor, then the devices behind their count.
pub open spec fn enc_hub(h: HubModel) -> Seq<u8> {
    seq![72u8] + enc_str(h.hub_id) + enc_fixed(h.number_of_ports as int, 3) + enc_opt_str(
        h.parent_hub,
    ) + enc_opt_desc(h.descriptor) + enc_fixed(h.devices.len() as int, 9) + enc_devices(h.devices)
}

/// A run of hub records.
pub open spec fn enc_hubs(hs: Seq<HubModel>) -> Seq<u8>
    decreases hs.len(),
{
    if hs.len() == 0 {
        Seq::empty()
    } else {
        enc_hub(hs[0]) + enc_hubs(hs.drop_first())
    }
}

/// The whole topology: `T`, the hub count, then the hubs.
pub open spec fn enc_topology(hs: Seq<HubModel>) -> Seq<u8> {
    seq![84u8] + enc_fixed(hs.len() as int, 9) + enc_hubs(hs)
}

/// An encodable string: ASCII, and its length fits the nine-digit prefix.
pub open spec fn str_ok(s: Seq<char>) -> bool {
    ascii_text(s) && s.len() < pow10(9)
}

/// An encodable optional string.
pub open spec fn opt_str_ok(o: Option<Seq<char>>) -> bool {
    match o {
        None => true,
        Some(s) => str_ok(s),
    }
}

/// An encodable descriptor: its three slot texts are encodable.
pub open spec fn desc_ok(d: DescriptorModel) -> bool {
    opt_str_ok(d.iManufacturer.1) && opt_str_ok(d.iProduct.1) && opt_str_ok(d.iSerialNumber.1)
}

/// An encodable optional descriptor.
pub open spec fn opt_desc_ok(o: Option<DescriptorModel>) -> bool {
    match o {
        None => true,
        Some(d) => desc_ok(d),
    }
}

/// An encodable device.
pub open spec fn device_ok(d: DeviceModel) -> bool {
    str_ok(d.container_id) && str_ok(d.driver_key_name) && desc_ok(d.descriptor)
}

/// An encodable hub.
pub open spec fn hub_ok(h: HubModel) -> bool {
    &&& str_ok(h.hub_id)
    &&& opt_str_ok(h.parent_hub)
    &&& opt_desc_ok(h.descriptor)
    &&& h.devices.len() < pow10(9)
    &&& forall|i: int| 0 <= i < h.devices.len() ==> device_ok(#[trigger] h.devices[i])
}

/// An encodable topology: every text ASCII, every count in range.
pub open spec fn topology_encodable(hs: Seq<HubModel>) -> bool {
    &&& hs.len() < pow10(9)
    &&& forall|i: int| 0 <= i < hs.len() ==> hub_ok(#[trigger] hs[i])
}

/// Reads one expected tag byte.
pub open spec fn dec_tag(buf: Seq<u8>, pos: int, tag: u8) -> Option<int> {
    if 0 <= pos < buf.len() && buf[pos] == tag {
        Some(pos + 1)
    } else {
        None
    }
}

/// Reads a three-digit byte-sized number.
pub open spec fn dec_u8(buf: Seq<u8>, pos: int) -> Option<(u8, int)> {
    match dec_fixed(buf, pos, 3) {
        None => None,
        Some((n, p)) => if n <= 255 {
            Some((n as u8, p))
        } else {
            None
        },
    }
}

/// Reads a five-digit 16-bit number.
pub open spec fn dec_u16(buf: Seq<u8>, pos: int) -> Option<(u16, int)> {
    match dec_fixed(buf, pos, 5) {
        None => None,
        Some((n, p)) => if n <= 65535 {
            Some((n as u16, p))
        } else {
            None
        },
    }
}

/// Reads a slot.
pub open spec fn dec_slot(buf: Seq<u8>, pos: int) -> Option<((u8, Option<Seq<char>>), int)> {
    match dec_u8(buf, pos) {
        None => None,
        Some((n, p)) => match dec_opt_str(buf, p) {
            None => None,
            Some((o, p2)) => Some(((n, o), p2)),
        },
    }
}

/// Reads a descriptor record.
pub open spec fn dec_desc(buf: Seq<u8>, pos: int) -> Option<(DescriptorModel, int)> {
    match dec_tag(buf, pos, 71) {
        None => None,
        Some(p0) => match dec_u8(buf, p0) {
            None => None,
            Some((b_length, p1)) => match dec_u8(buf, p1) {
                None => None,
                Some((b_descriptor_type, p2)) => match dec_u16(buf, p2) {
                    None => None,
                    Some((bcd_usb, p3)) => match dec_u8(buf, p3) {
                        None => None,
                        Some((b_class, p4)) => match dec_u8(buf, p4) {
                            None => None,
                            Some((b_sub_class, p5)) => match dec_u8(buf, p5) {
                                None => None,
                                Some((b_protocol, p6)) => match dec_u8(buf, p6) {
                                    None => None,
                                    Some((b_max_packet, p7)) => match dec_u16(buf, p7) {
                                        None => None,
                                        Some((id_vendor, p8)) => match dec_u16(buf, p8) {
                                            None => None,
                                            Some((id_product, p9)) => match dec_u16(buf, p9) {
                                                None => None,
                                                Some((bcd_device, p10)) => match dec_slot(
                                                    buf,
                                                    p10,
                                                ) {
                                                    None => None,
                                                    Some((man, p11)) => match dec_slot(buf, p11) {
                                                        None => None,
                                                        Some((prod, p12)) => match dec_slot(
                                                            buf,
                                                            p12,
                                                        ) {
                                                            None => None,
                                                            Some((serial, p13)) => match dec_u8(
                                                                buf,
                                                                p13,
                                                            ) {
                                                                None => None,
                                                                Some((num_cfg, p14)) => Some(
                                                                    (
                                                                        DescriptorModel {
                                                                            bLength: b_length,
                                                                            bDescriptorType:
                                                                                b_descriptor_type,
                                                                            bcdUSB: bcd_usb,
                                                                            bDeviceClass: b_class,
                                                                            bDeviceSubClass:
                                                                                b_sub_class,
                                                                            bDeviceProtocol:
                                                                                b_protocol,
                                                                            bMaxPacketSize0:
                                                                                b_max_packet,
                                                                            idVendor: id_vendor,
                                                                            idProduct: id_product,
                                                                            bcdDevice: bcd_device,
                                                                            iManufacturer: man,
                                                                            iProduct: prod,
                                                                            iSerialNumber: serial,
                                                                            bNumConfigurations:
                                                                                num_cfg,
                                                                        },
                                                                        p14,
                                                                    ),
                                                                ),
                                                            },
                                                        },
                                                    },
                                                },
                                            },
                                        },
                                    },
                                },
                            },
                        },
                    },
                },
            },
        },
    }
}

/// Reads an optional descriptor.
pub open spec fn dec_opt_desc(buf: Seq<u8>, pos: int) -> Option<(Option<DescriptorModel>, int)> {
    if 0 <= pos < buf.len() && buf[pos] == 45 {
        Some((None, pos + 1))
    } else if 0 <= pos < buf.len() && buf[pos] == 43 {
        match dec_desc(buf, pos + 1) {
            None => None,
            Some((d, p)) => Some((Some(d), p)),
        }
    } else {
        None
    }
}

/// Reads a device record.
pub open spec fn dec_device(buf: Seq<u8>, pos: int) -> Option<(DeviceModel, int)> {
    match dec_tag(buf, pos, 68) {
        None => None,
        Some(p0) => match dec_str(buf, p0) {
            None => None,
            Some((cid, p1)) => match dec_str(buf, p1) {
                None => None,
                Some((key, p2)) => match dec_u8(buf, p2) {
                    None => None,
                    Some((port, p3)) => match dec_desc(buf, p3) {
                        None => None,
                        Some((desc, p4)) => Some(
                            (
                                DeviceModel {
                                    container_id: cid,
                                    driver_key_name: key,
                                    port_number: port,
                                    descriptor: desc,
                                },
                                p4,
                            ),
                        ),
                    },
                },
            },
        },
    }
}

/// Reads `k` device records, extending `acc`.
pub open spec fn dec_devices(buf: Seq<u8>, pos: int, k: nat, acc: Seq<DeviceModel>) -> Option<
    (Seq<DeviceModel>, int),
>
    decreases k,
{
    if k == 0 {
        Some((acc, pos))
    } else {
        match dec_device(buf, pos) {
            None => None,
            Some((d, p)) => dec_devices(buf, p, (k - 1) as nat, acc.push(d)),
        }
    }
}

/// Reads a hub record.
pub open spec fn dec_hub(buf: Seq<u8>, pos: int) -> Option<(HubModel, int)> {
    match dec_tag(buf, pos, 72) {
        None => None,
        Some(p0) => match dec_str(buf, p0) {
            None => None,
            Some((hub_id, p1)) => match dec_u8(buf, p1) {
                None => None,
                Some((ports, p2)) => match dec_opt_str(buf, p2) {
                    None => None,
                    Some((parent, p3)) => match dec_opt_desc(buf, p3) {
                        None => None,
                        Some((desc, p4)) => match dec_fixed(buf, p4, 9) {
                            None => None,
                            Some((k, p5)) => match dec_devices(buf, p5, k as nat, Seq::empty()) {
                                None => None,
                                Some((devs, p6)) => Some(
                                    (
                                        HubModel {
                                            hub_id,
                                            number_of_ports: ports,
                                            devices: devs,
                                            parent_hub: parent,
                                            descriptor: desc,
                                        },
                                        p6,
                                    ),
                                ),
                            },
                        },
                    },
                },
            },
        },
    }
}

/// Reads `k` hub records, extending `acc`.
pub open spec fn dec_hubs(buf: Seq<u8>, pos: int, k: nat, acc: Seq<HubModel>) -> Option<
    (Seq<HubModel>, int),
>
    decreases k,
{
    if k == 0 {
        Some((acc, pos))
    } else {
        match dec_hub(buf, pos) {
            None => None,
            Some((h, p)) => dec_hubs(buf, p, (k - 1) as nat, acc.push(h)),
        }
    }
}

/// Reads a whole topology.
pub open spec fn dec_topology(buf: Seq<u8>, pos: int) -> Option<(Seq<HubModel>, int)> {
    match dec_tag(buf, pos, 84) {
        None => None,
        Some(p0) => match dec_fixed(buf, p0, 9) {
            None => None,
            Some((k, p1)) => dec_hubs(buf, p1, k as nat, Seq::empty()),
        },
    }
}

/// A window into a matched stretch of the buffer matches the same
/// stretch of the encoding.
proof fn lemma_window(buf: Seq<u8>, pos: int, s: Seq<u8>, off: int, l: int)
    requires
        0 <= pos,
        pos + s.len() <= buf.len(),
        buf.subrange(pos, pos + s.len() as int) == s,
        0 <= off,
        0 <= l,
        off + l <= s.len(),
    ensures
        buf.subrange(pos + off, pos + off + l) == s.subrange(off, off + l),
{
    assert(buf.subrange(pos + off, pos + off + l) =~= s.subrange(off, off + l)) by {
        assert(forall|i: int|
            0 <= i < l ==> #[trigger] buf.subrange(pos + off, pos + off + l)[i] == buf.subrange(
                pos,
                pos + s.len() as int,
            )[off + i]);
    }
}

/// Reading the expected tag byte of a matched encoding succeeds.
proof fn lemma_tag_rt(buf: Seq<u8>, pos: int, s: Seq<u8>, tag: u8)
    requires
        0 <= pos,
        pos + s.len() <= buf.len(),
        buf.subrange(pos, pos + s.len() as int) == s,
        s.len() >= 1,
        s[0] == tag,
    ensures
        dec_tag(buf, pos, tag) == Some(pos + 1),
{
    assert(buf[pos] == buf.subrange(pos, pos + s.len() as int)[0]);
}


/// The small powers of ten the widths use.
proof fn lemma_pow10_vals()
    ensures
        pow10(3) == 1000,
        pow10(5) == 100000,
        pow10(9) == 1000000000,
{
    assert(pow10(0) == 1);
    assert(pow10(1) == 10);
    assert(pow10(2) == 100);
    assert(pow10(3) == 1000);
    assert(pow10(4) == 10000);
    assert(pow10(5) == 100000);
    assert(pow10(6) == 1000000);
    assert(pow10(7) == 10000000);
    assert(pow10(8) == 100000000);
    assert(pow10(9) == 1000000000);
}

/// A slot's encoding decodes to the same slot.
proof fn lemma_slot_rt(buf: Seq<u8>, pos: int, sl: (u8, Option<Seq<char>>))
    requires
        opt_str_ok(sl.1),
        0 <= pos,
        pos + enc_slot(sl).len() <= buf.len(),
        buf.subrange(pos, pos + enc_slot(sl).len() as int) == enc_slot(sl),
    ensures
        dec_slot(buf, pos) == Some((sl, pos + enc_slot(sl).len() as int)),
{
    let e = enc_slot(sl);
    let e1 = enc_fixed(sl.0 as int, 3);
    let e2 = enc_opt_str(sl.1);
    lemma_enc_fixed_len(sl.0 as int, 3);
    lemma_pow10_vals();
    assert(e.subrange(0, 3) =~= e1);
    assert(e.subrange(3, e.len() as int) =~= e2);
    lemma_window(buf, pos, e, 0, 3);
    lemma_window(buf, pos, e, 3, e2.len() as int);
    lemma_fixed_rt(buf, pos, sl.0 as int, 3);
    lemma_opt_str_rt(buf, pos + 3, sl.1);
}

/// A descriptor's encoding decodes to the same descriptor.
#[verifier::rlimit(100)]
#[verifier::spinoff_prover]
proof fn lemma_desc_rt(buf: Seq<u8>, pos: int, d: DescriptorModel)
    requires
        desc_ok(d),
        0 <= pos,
        pos + enc_desc(d).len() <= buf.len(),
        buf.subrange(pos, pos + enc_desc(d).len() as int) == enc_desc(d),
    ensures
        dec_desc(buf, pos) == Some((d, pos + enc_desc(d).len() as int)),
{
    let e = enc_desc(d);
    lemma_pow10_vals();
    let f1 = enc_fixed(d.bLength as int, 3);
    let f2 = enc_fixed(d.bDescriptorType as int, 3);
    let f3 = enc_fixed(d.bcdUSB as int, 5);
    let f4 = enc_fixed(d.bDeviceClass as int, 3);
    let f5 = enc_fixed(d.bDeviceSubClass as int, 3);
    let f6 = enc_fixed(d.bDeviceProtocol as int, 3);
    let f7 = enc_fixed(d.bMaxPacketSize0 as int, 3);
    let f8 = enc_fixed(d.idVendor as int, 5);
    let f9 = enc_fixed(d.idProduct as int, 5);
    let f10 = enc_fixed(d.bcdDevice as int, 5);
    let s1 = enc_slot(d.iManufacturer);
    let s2 = enc_slot(d.iProduct);
    let s3 = enc_slot(d.iSerialNumber);
    let f11 = enc_fixed(d.bNumConfigurations as int, 3);
    lemma_enc_fixed_len(d.bLength as int, 3);
    lemma_enc_fixed_len(d.bDescriptorType as int, 3);
    lemma_enc_fixed_len(d.bcdUSB as int, 5);
    lemma_enc_fixed_len(d.bDeviceClass as int, 3);
    lemma_enc_fixed_len(d.bDeviceSubClass as int, 3);
    lemma_enc_fixed_len(d.bDeviceProtocol as int, 3);
    lemma_enc_fixed_len(d.bMaxPacketSize0 as int, 3);
    lemma_enc_fixed_len(d.idVendor as int, 5);
    lemma_enc_fixed_len(d.idProduct as int, 5);
    lemma_enc_fixed_len(d.bcdDevice as int, 5);
    lemma_enc_fixed_len(d.bNumConfigurations as int, 3);
    let p1 = pos + 1;
    let p2 = p1 + 3;
    let p3 = p2 + 3;
    let p4 = p3 + 5;
    let p5 = p4 + 3;
    let p6 = p5 + 3;
    let p7 = p6 + 3;
    let p8 = p7 + 3;
    let p9 = p8 + 5;
    let p10 = p9 + 5;
    let p11 = p10 + 5;
    let p12 = p11 + s1.len() as int;
    let p13 = p12 + s2.len() as int;
    let p14 = p13 + s3.len() as int;
    lemma_tag_rt(buf, pos, e, 71);
    assert(e.subrange(1, 4) =~= f1);
    lemma_window(buf, pos, e, 1, 3);
    lemma_fixed_rt(buf, p1, d.bLength as int, 3);
    assert(e.subrange(4, 7) =~= f2);
    lemma_window(buf, pos, e, 4, 3);
    lemma_fixed_rt(buf, p2, d.bDescriptorType as int, 3);
    assert(e.subrange(7, 12) =~= f3);
    lemma_window(buf, pos, e, 7, 5);
    lemma_fixed_rt(buf, p3, d.bcdUSB as int, 5);
    assert(e.subrange(12, 15) =~= f4);
    lemma_window(buf, pos, e, 12, 3);
    lemma_fixed_rt(buf, p4, d.bDeviceClass as int, 3);
    assert(e.subrange(15, 18) =~= f5);
    lemma_window(buf, pos, e, 15, 3);
    lemma_fixed_rt(buf, p5, d.bDeviceSubClass as int, 3);
    assert(e.subrange(18, 21) =~= f6);
    lemma_window(buf, pos, e, 18, 3);
    lemma_fixed_rt(buf, p6, d.bDeviceProtocol as int, 3);
    assert(e.subrange(21, 24) =~= f7);
    lemma_window(buf, pos, e, 21, 3);
    lemma_fixed_rt(buf, p7, d.bMaxPacketSize0 as int, 3);
    assert(e.subrange(24, 29) =~= f8);
    lemma_window(buf, pos, e, 24, 5);
    lemma_fixed_rt(buf, p8, d.idVendor as int, 5);
    assert(e.subrange(29, 34) =~= f9);
    lemma_window(buf, pos, e, 29, 5);
    lemma_fixed_rt(buf, p9, d.idProduct as int, 5);
    assert(e.subrange(34, 39) =~= f10);
    lemma_window(buf, pos, e, 34, 5);
    lemma_fixed_rt(buf, p10, d.bcdDevice as int, 5);
    assert(e.subrange(39, 39 + s1.len() as int) =~= s1);
    lemma_window(buf, pos, e, 39, s1.len() as int);
    lemma_slot_rt(buf, p11, d.iManufacturer);
    assert(e.subrange(p12 - pos, p12 - pos + s2.len() as int) =~= s2);
    lemma_window(buf, pos, e, p12 - pos, s2.len() as int);
    lemma_slot_rt(buf, p12, d.iProduct);
    assert(e.subrange(p13 - pos, p13 - pos + s3.len() as int) =~= s3);
    lemma_window(buf, pos, e, p13 - pos, s3.len() as int);
    lemma_slot_rt(buf, p13, d.iSerialNumber);
    assert(e.subrange(p14 - pos, p14 - pos + 3) =~= f11);
    lemma_window(buf, pos, e, p14 - pos, 3);
    lemma_fixed_rt(buf, p14, d.bNumConfigurations as int, 3);
}

/// An optional descriptor's encoding decodes to the same option.
proof fn lemma_opt_desc_rt(buf: Seq<u8>, pos: int, o: Option<DescriptorModel>)
    requires
        opt_desc_ok(o),
        0 <= pos,
        pos + enc_opt_desc(o).len() <= buf.len(),
        buf.subrange(pos, pos + enc_opt_desc(o).len() as int) == enc_opt_desc(o),
    ensures
        dec_opt_desc(buf, pos) == Some((o, pos + enc_opt_desc(o).len() as int)),
{
    let e = enc_opt_desc(o);
    match o {
        None => {
            assert(buf[pos] == e[0]);
        },
        Some(d) => {
            assert(buf[pos] == e[0]);
            assert(e.subrange(1, 1 + enc_desc(d).len() as int) =~= enc_desc(d));
            lemma_window(buf, pos, e, 1, enc_desc(d).len() as int);
            lemma_desc_rt(buf, pos + 1, d);
        },
    }
}

/// A device's encoding decodes to the same device.
proof fn lemma_device_rt(buf: Seq<u8>, pos: int, d: DeviceModel)
    requires
        device_ok(d),
        0 <= pos,
        pos + enc_device(d).len() <= buf.len(),
        buf.subrange(pos, pos + enc_device(d).len() as int) == enc_device(d),
    ensures
        dec_device(buf, pos) == Some((d, pos + enc_device(d).len() as int)),
{
    let e = enc_device(d);
    lemma_pow10_vals();
    let e1 = enc_str(d.container_id);
    let e2 = enc_str(d.driver_key_name);
    let e3 = enc_fixed(d.port_number as int, 3);
    let e4 = enc_desc(d.descriptor);
    lemma_enc_fixed_len(d.container_id.len() as int, 9);
    lemma_enc_fixed_len(d.driver_key_name.len() as int, 9);
    lemma_enc_fixed_len(d.port_number as int, 3);
    let p1 = pos + 1;
    let p2 = p1 + e1.len() as int;
    let p3 = p2 + e2.len() as int;
    let p4 = p3 + 3;
    lemma_tag_rt(buf, pos, e, 68);
    assert(e.subrange(1, 1 + e1.len() as int) =~= e1);
    lemma_window(buf, pos, e, 1, e1.len() as int);
    lemma_str_rt(buf, p1, d.container_id);
    assert(e.subrange(p2 - pos, p2 - pos + e2.len() as int) =~= e2);
    lemma_window(buf, pos, e, p2 - pos, e2.len() as int);
    lemma_str_rt(buf, p2, d.driver_key_name);
    assert(e.subrange(p3 - pos, p3 - pos + 3) =~= e3);
    lemma_window(buf, pos, e, p3 - pos, 3);
    lemma_fixed_rt(buf, p3, d.port_number as int, 3);
    assert(e.subrange(p4 - pos, p4 - pos + e4.len() as int) =~= e4);
    lemma_window(buf, pos, e, p4 - pos, e4.len() as int);
    lemma_desc_rt(buf, p4, d.descriptor);
}

/// A run of device encodings decodes to the same devices, in order.
proof fn lemma_devices_rt(buf: Seq<u8>, pos: int, ds: Seq<DeviceModel>, acc: Seq<DeviceModel>)
    requires
        forall|i: int| 0 <= i < ds.len() ==> device_ok(#[trigger] ds[i]),
        0 <= pos,
        pos + enc_devices(ds).len() <= buf.len(),
        buf.subrange(pos, pos + enc_devices(ds).len() as int) == enc_devices(ds),
    ensures
        dec_devices(buf, pos, ds.len(), acc) == Some(
            (acc + ds, pos + enc_devices(ds).len() as int),
        ),
    decreases ds.len(),
{
    if ds.len() == 0 {
        assert(acc + ds =~= acc);
    } else {
        let e = enc_devices(ds);
        let e1 = enc_device(ds[0]);
        let e2 = enc_devices(ds.drop_first());
        assert(e.subrange(0, e1.len() as int) =~= e1);
        lemma_window(buf, pos, e, 0, e1.len() as int);
        lemma_device_rt(buf, pos, ds[0]);
        assert(e.subrange(e1.len() as int, e.len() as int) =~= e2);
        lemma_window(buf, pos, e, e1.len() as int, e2.len() as int);
        assert(forall|i: int|
            0 <= i < ds.drop_first().len() ==> device_ok(#[trigger] ds.drop_first()[i]));
        lemma_devices_rt(buf, pos + e1.len() as int, ds.drop_first(), acc.push(ds[0]));
        assert(acc.push(ds[0]) + ds.drop_first() =~= acc + ds);
    }
}

/// A hub's encoding decodes to the same hub.
#[verifier::rlimit(100)]
#[verifier::spinoff_prover]
proof fn lemma_hub_rt(buf: Seq<u8>, pos: int, h: HubModel)
    requires
        hub_ok(h),
        0 <= pos,
        pos + enc_hub(h).len() <= buf.len(),
        buf.subrange(pos, pos + enc_hub(h).len() as int) == enc_hub(h),
    ensures
        dec_hub(buf, pos) == Some((h, pos + enc_hub(h).len() as int)),
{
    let e = enc_hub(h);
    lemma_pow10_vals();
    let e1 = enc_str(h.hub_id);
    let e2 = enc_fixed(h.number_of_ports as int, 3);
    let e3 = enc_opt_str(h.parent_hub);
    let e4 = enc_opt_desc(h.descriptor);
    let e5 = enc_fixed(h.devices.len() as int, 9);
    let e6 = enc_devices(h.devices);
    lemma_enc_fixed_len(h.hub_id.len() as int, 9);
    lemma_enc_fixed_len(h.number_of_ports as int, 3);
    lemma_enc_fixed_len(h.devices.len() as int, 9);
    let p1 = pos + 1;
    let p2 = p1 + e1.len() as int;
    let p3 = p2 + 3;
    let p4 = p3 + e3.len() as int;
    let p5 = p4 + e4.len() as int;
    let p6 = p5 + 9;
    lemma_tag_rt(buf, pos, e, 72);
    assert(e.subrange(1, 1 + e1.len() as int) =~= e1);
    lemma_window(buf, pos, e, 1, e1.len() as int);
    lemma_str_rt(buf, p1, h.hub_id);
    assert(e.subrange(p2 - pos, p2 - pos + 3) =~= e2);
    lemma_window(buf, pos, e, p2 - pos, 3);
    lemma_fixed_rt(buf, p2, h.number_of_ports as int, 3);
    assert(e.subrange(p3 - pos, p3 - pos + e3.len() as int) =~= e3);
    lemma_window(buf, pos, e, p3 - pos, e3.len() as int);
    lemma_opt_str_rt(buf, p3, h.parent_hub);
    assert(e.subrange(p4 - pos, p4 - pos + e4.len() as int) =~= e4);
    lemma_window(buf, pos, e, p4 - pos, e4.len() as int);
    lemma_opt_desc_rt(buf, p4, h.descriptor);
    assert(e.subrange(p5 - pos, p5 - pos + 9) =~= e5);
    lemma_window(buf, pos, e, p5 - pos, 9);
    lemma_fixed_rt(buf, p5, h.devices.len() as int, 9);
    assert(e.subrange(p6 - pos, p6 - pos + e6.len() as int) =~= e6);
    lemma_window(buf, pos, e, p6 - pos, e6.len() as int);
    lemma_devices_rt(buf, p6, h.devices, Seq::empty());
    assert(Seq::<DeviceModel>::empty() + h.devices =~= h.devices);
}

/// A run of hub encodings decodes to the same hubs, in order.
proof fn lemma_hubs_rt(buf: Seq<u8>, pos: int, hs: Seq<HubModel>, acc: Seq<HubModel>)
    requires
        forall|i: int| 0 <= i < hs.len() ==> hub_ok(#[trigger] hs[i]),
        0 <= pos,
        pos + enc_hubs(hs).len() <= buf.len(),
        buf.subrange(pos, pos + enc_hubs(hs).len() as int) == enc_hubs(hs),
    ensures
        dec_hubs(buf, pos, hs.len(), acc) == Some((acc + hs, pos + enc_hubs(hs).len() as int)),
    decreases hs.len(),
{
    if hs.len() == 0 {
        assert(acc + hs =~= acc);
    } else {
        let e = enc_hubs(hs);
        let e1 = enc_hub(hs[0]);
        let e2 = enc_hubs(hs.drop_first());
        assert(e.subrange(0, e1.len() as int) =~= e1);
        lemma_window(buf, pos, e, 0, e1.len() as int);
        lemma_hub_rt(buf, pos, hs[0]);
        assert(e.subrange(e1.len() as int, e.len() as int) =~= e2);
        lemma_window(buf, pos, e, e1.len() as int, e2.len() as int);
        assert(forall|i: int|
            0 <= i < hs.drop_first().len() ==> hub_ok(#[trigger] hs.drop_first()[i]));
        lemma_hubs_rt(buf, pos + e1.len() as int, hs.drop_first(), acc.push(hs[0]));
        assert(acc.push(hs[0]) + hs.drop_first() =~= acc + hs);
    }
}

/// Round-trip law: decoding an encoded topology hands every hub, device
/// and descriptor field back unchanged, for every topology whose text is
/// ASCII and whose counts fit their digit widths.
pub proof fn lemma_topology_round_trip(hs: Seq<HubModel>)
    requires
        topology_encodable(hs),
    ensures
        dec_topology(enc_topology(hs), 0) == Some((hs, enc_topology(hs).len() as int)),
{
    let buf = enc_topology(hs);
    lemma_pow10_vals();
    lemma_enc_fixed_len(hs.len() as int, 9);
    let e2 = enc_fixed(hs.len() as int, 9);
    let e3 = enc_hubs(hs);
    assert(buf.subrange(0, buf.len() as int) =~= buf);
    lemma_tag_rt(buf, 0, buf, 84);
    assert(buf.subrange(1, 10) =~= e2);
    lemma_fixed_rt(buf, 1, hs.len() as int, 9);
    assert(buf.subrange(10, buf.len() as int) =~= e3);
    lemma_hubs_rt(buf, 10, hs, Seq::empty());
    assert(Seq::<HubModel>::empty() + hs =~= hs);
}


/// Powers of ten grow with the exponent.
proof fn lemma_pow10_mono(a: nat, b: nat)
    requires
        a <= b,
    ensures
        pow10(a) <= pow10(b),
        pow10(a) >= 1,
    decreases b,
{
    if b > 0 {
        if a == b {
            lemma_pow10_mono((a - 1) as nat, (b - 1) as nat);
        } else {
            lemma_pow10_mono(a, (b - 1) as nat);
        }
    }
}

/// Appends `n` as exactly `w` decimal digits.
fn push_fixed(out: &mut Vec<u8>, v: u64, w: usize)
    ensures
        final(out)@ == old(out)@ + enc_fixed(v as int, w as nat),
    decreases w,
{
    if w == 0 {
        assert(out@ =~= out@ + enc_fixed(v as int, 0));
        return ;
    }
    push_fixed(out, v / 10, w - 1);
    out.push(48 + (v % 10) as u8);
    assert(out@ =~= old(out)@ + enc_fixed(v as int, w as nat));
}

/// Appends a length-prefixed string; faithful for encodable strings.
fn push_str_field(out: &mut Vec<u8>, s: &String)
    ensures
        str_ok(s@) ==> final(out)@ == old(out)@ + enc_str(s@),
{
    let n = s.as_str().unicode_len();
    push_fixed(out, n as u64, 9);
    let ghost mid = out@;
    let mut i: usize = 0;
    while i < n
        invariant
            i <= n,
            n == s@.len(),
            mid == old(out)@ + enc_fixed(n as int, 9),
            str_ok(s@) ==> out@ == mid + ascii_bytes(s@.subrange(0, i as int)),
        decreases n - i,
    {
        let c = s.as_str().get_char(i);
        let u = c as u32;
        let b: u8 = if u < 128 {
            u as u8
        } else {
            63
        };
        out.push(b);
        proof {
            if str_ok(s@) {
                assert((s@[i as int] as u32) < 128);
                assert(b == char_byte(s@[i as int]));
                assert(out@ =~= mid + ascii_bytes(s@.subrange(0, i + 1 as int)));
            }
        }
        i += 1;
    }
    proof {
        if str_ok(s@) {
            assert(s@.subrange(0, n as int) =~= s@);
            assert(out@ =~= old(out)@ + enc_str(s@));
        }
    }
}

/// Appends an optional string.
fn push_opt_str(out: &mut Vec<u8>, o: &Option<String>)
    ensures
        opt_str_ok(o.deep_view()) ==> final(out)@ == old(out)@ + enc_opt_str(o.deep_view()),
{
    match o {
        None => {
            out.push(45);
            assert(out@ =~= old(out)@ + enc_opt_str(None));
        },
        Some(s) => {
            out.push(43);
            push_str_field(out, s);
            proof {
                if opt_str_ok(o.deep_view()) {
                    assert(out@ =~= old(out)@ + enc_opt_str(o.deep_view()));
                }
            }
        },
    }
}

/// Appends a slot.
fn push_slot(out: &mut Vec<u8>, index: u8, text: &Option<String>)
    ensures
        opt_str_ok(text.deep_view()) ==> final(out)@ == old(out)@ + enc_slot(
            (index, text.deep_view()),
        ),
{
    push_fixed(out, index as u64, 3);
    push_opt_str(out, text);
    proof {
        if opt_str_ok(text.deep_view()) {
            assert(out@ =~= old(out)@ + enc_slot((index, text.deep_view())));
        }
    }
}

/// Appends a descriptor record.
#[verifier::rlimit(100)]
fn push_desc(out: &mut Vec<u8>, d: &UsbDeviceDescriptor)
    ensures
        desc_ok(d.deep_view()) ==> final(out)@ == old(out)@ + enc_desc(d.deep_view()),
{
    out.push(71);
    push_fixed(out, d.bLength as u64, 3);
    push_fixed(out, d.bDescriptorType as u64, 3);
    push_fixed(out, d.bcdUSB as u64, 5);
    push_fixed(out, d.bDeviceClass as u64, 3);
    push_fixed(out, d.bDeviceSubClass as u64, 3);
    push_fixed(out, d.bDeviceProtocol as u64, 3);
    push_fixed(out, d.bMaxPacketSize0 as u64, 3);
    push_fixed(out, d.idVendor as u64, 5);
    push_fixed(out, d.idProduct as u64, 5);
    push_fixed(out, d.bcdDevice as u64, 5);
    push_slot(out, d.iManufacturer.0, &d.iManufacturer.1);
    push_slot(out, d.iProduct.0, &d.iProduct.1);
    push_slot(out, d.iSerialNumber.0, &d.iSerialNumber.1);
    push_fixed(out, d.bNumConfigurations as u64, 3);
    proof {
        if desc_ok(d.deep_view()) {
            assert(out@ =~= old(out)@ + enc_desc(d.deep_view()));
        }
    }
}

/// Appends an optional descriptor.
fn push_opt_desc(out: &mut Vec<u8>, o: &Option<UsbDeviceDescriptor>)
    ensures
        opt_desc_ok(opt_desc_view(o)) ==> final(out)@ == old(out)@ + enc_opt_desc(
            opt_desc_view(o),
        ),
{
    match o {
        None => {
            out.push(45);
            assert(out@ =~= old(out)@ + enc_opt_desc(None));
        },
        Some(d) => {
            out.push(43);
            push_desc(out, d);
            proof {
                if opt_desc_ok(opt_desc_view(o)) {
                    assert(out@ =~= old(out)@ + enc_opt_desc(opt_desc_view(o)));
                }
            }
        },
    }
}

/// The model of an optional descriptor.
pub open spec fn opt_desc_view(o: &Option<UsbDeviceDescriptor>) -> Option<DescriptorModel> {
    match o {
        None => None,
        Some(d) => Some(d.deep_view()),
    }
}

/// Appends a device record.
fn push_device(out: &mut Vec<u8>, d: &Device)
    ensures
        device_ok(d.deep_view()) ==> final(out)@ == old(out)@ + enc_device(d.deep_view()),
{
    out.push(68);
    push_str_field(out, &d.container_id);
    push_str_field(out, &d.driver_key_name);
    push_fixed(out, d.port_number as u64, 3);
    push_desc(out, &d.descriptor);
    proof {
        if device_ok(d.deep_view()) {
            assert(out@ =~= old(out)@ + enc_device(d.deep_view()));
        }
    }
}

/// A run of device records grows one record at a time.
#[verifier::rlimit(100)]
#[verifier::spinoff_prover]
proof fn lemma_enc_devices_snoc(ds: Seq<DeviceModel>, d: DeviceModel)
    ensures
        enc_devices(ds.push(d)) == enc_devices(ds) + enc_device(d),
    decreases ds.len(),
{
    if ds.len() == 0 {
        assert(ds.push(d)[0] == d);
        assert(ds.push(d).drop_first() =~= Seq::<DeviceModel>::empty());
        assert(enc_devices(Seq::<DeviceModel>::empty()) == Seq::<u8>::empty());
        assert(enc_devices(ds) == Seq::<u8>::empty());
        assert(enc_devices(ds.push(d)) == enc_device(d) + Seq::<u8>::empty());
        assert(enc_device(d) + Seq::<u8>::empty() =~= Seq::<u8>::empty() + enc_device(d));
    } else {
        let a = enc_device(ds[0]);
        let b = enc_devices(ds.drop_first());
        let c = enc_device(d);
        assert(ds.push(d)[0] == ds[0]);
        assert(ds.push(d).drop_first() =~= ds.drop_first().push(d));
        lemma_enc_devices_snoc(ds.drop_first(), d);
        assert(enc_devices(ds.push(d)) == a + (b + c));
        assert(a + (b + c) =~= (a + b) + c);
    }
}

/// A run of hub records grows one record at a time.
#[verifier::rlimit(100)]
#[verifier::spinoff_prover]
proof fn lemma_enc_hubs_snoc(hs: Seq<HubModel>, h: HubModel)
    ensures
        enc_hubs(hs.push(h)) == enc_hubs(hs) + enc_hub(h),
    decreases hs.len(),
{
    if hs.len() == 0 {
        assert(hs.push(h)[0] == h);
        assert(hs.push(h).drop_first() =~= Seq::<HubModel>::empty());
        assert(enc_hubs(Seq::<HubModel>::empty()) == Seq::<u8>::empty());
        assert(enc_hubs(hs) == Seq::<u8>::empty());
        assert(enc_hubs(hs.push(h)) == enc_hub(h) + Seq::<u8>::empty());
        assert(enc_hub(h) + Seq::<u8>::empty() =~= Seq::<u8>::empty() + enc_hub(h));
    } else {
        let a = enc_hub(hs[0]);
        let b = enc_hubs(hs.drop_first());
        let c = enc_hub(h);
        assert(hs.push(h)[0] == hs[0]);
        assert(hs.push(h).drop_first() =~= hs.drop_first().push(h));
        lemma_enc_hubs_snoc(hs.drop_first(), h);
        assert(enc_hubs(hs.push(h)) == a + (b + c));
        assert(a + (b + c) =~= (a + b) + c);
    }
}

/// Appends a hub record.
#[verifier::rlimit(100)]
#[verifier::spinoff_prover]
fn push_hub(out: &mut Vec<u8>, h: &Hub)
    ensures
        hub_ok(h.deep_view()) ==> final(out)@ == old(out)@ + enc_hub(h.deep_view()),
{
    out.push(72);
    push_str_field(out, &h.hub_id);
    push_fixed(out, h.number_of_ports as u64, 3);
    push_opt_str(out, &h.parent_hub);
    push_opt_desc(out, &h.descriptor);
    push_fixed(out, h.devices.len() as u64, 9);
    let ghost mid = out@;
    let ghost dsm = h.devices.deep_view();
    let mut i: usize = 0;
    while i < h.devices.len()
        invariant
            i <= h.devices@.len(),
            dsm == h.devices.deep_view(),
            hub_ok(h.deep_view()) ==> out@ == mid + enc_devices(dsm.subrange(0, i as int)),
        decreases h.devices@.len() - i,
    {
        proof {
            if hub_ok(h.deep_view()) {
                assert(h.deep_view().devices[i as int] == dsm[i as int]);
                assert(device_ok(dsm[i as int]));
            }
        }
        push_device(out, &h.devices[i]);
        proof {
            if hub_ok(h.deep_view()) {
                assert(h.devices[i as int].deep_view() == dsm[i as int]);
                lemma_enc_devices_snoc(dsm.subrange(0, i as int), dsm[i as int]);
                assert(dsm.subrange(0, i as int).push(dsm[i as int]) =~= dsm.subrange(
                    0,
                    i + 1 as int,
                ));
                assert(out@ =~= mid + enc_devices(dsm.subrange(0, i + 1 as int)));
            }
        }
        i += 1;
    }
    proof {
        if hub_ok(h.deep_view()) {
            assert(dsm.subrange(0, dsm.len() as int) =~= dsm);
            assert(h.deep_view().devices == dsm);
            assert(out@ =~= old(out)@ + enc_hub(h.deep_view()));
        }
    }
}

/// Writes a whole topology out as its text form. The result is the exact
/// encoding whenever every name and resolved text is ASCII and every count
/// fits its digit width.
#[verifier::rlimit(100)]
#[verifier::spinoff_prover]
pub fn encode_topology(hubs: &Vec<Hub>) -> (out: Vec<u8>)
    ensures
        topology_encodable(hubs.deep_view()) ==> out@ == enc_topology(hubs.deep_view()),
{
    let mut out: Vec<u8> = Vec::new();
    out.push(84);
    push_fixed(&mut out, hubs.len() as u64, 9);
    let ghost mid = out@;
    let ghost hsm = hubs.deep_view();
    let mut i: usize = 0;
    while i < hubs.len()
        invariant
            i <= hubs@.len(),
            hsm == hubs.deep_view(),
            topology_encodable(hubs.deep_view()) ==> out@ == mid + enc_hubs(
                hsm.subrange(0, i as int),
            ),
        decreases hubs@.len() - i,
    {
        proof {
            if topology_encodable(hubs.deep_view()) {
                assert(hub_ok(hsm[i as int]));
                assert(hubs@[i as int].deep_view() == hsm[i as int]);
            }
        }
        push_hub(&mut out, &hubs[i]);
        proof {
            if topology_encodable(hubs.deep_view()) {
                lemma_enc_hubs_snoc(hsm.subrange(0, i as int), hsm[i as int]);
                assert(hsm.subrange(0, i as int).push(hsm[i as int]) =~= hsm.subrange(
                    0,
                    i + 1 as int,
                ));
                assert(out@ =~= mid + enc_hubs(hsm.subrange(0, i + 1 as int)));
            }
        }
        i += 1;
    }
    proof {
        if topology_encodable(hubs.deep_view()) {
            assert(hsm.subrange(0, hsm.len() as int) =~= hsm);
            assert(out@ =~= Seq::<u8>::empty() + enc_topology(hubs.deep_view()));
            assert(Seq::<u8>::empty() + enc_topology(hubs.deep_view()) =~= enc_topology(
                hubs.deep_view(),
            ));
        }
    }
    out
}


/// Reads exactly `w` digits.
fn read_fixed(buf: &Vec<u8>, pos: usize, w: usize) -> (r: Option<(u64, usize)>)
    requires
        w <= 9,
    ensures
        match r {
            Some(v) => dec_fixed(buf@, pos as int, w as nat) == Some((v.0 as int, v.1 as int))
                && v.0 < pow10(w as nat) && v.1 <= buf@.len(),
            None => dec_fixed(buf@, pos as int, w as nat) is None,
        },
    decreases w,
{
    if w == 0 {
        if pos <= buf.len() {
            Some((0, pos))
        } else {
            None
        }
    } else {
        match read_fixed(buf, pos, w - 1) {
            None => None,
            Some((hi, p)) => {
                if p < buf.len() && 48 <= buf[p] && buf[p] <= 57 {
                    proof {
                        lemma_pow10_vals();
                        lemma_pow10_mono((w - 1) as nat, 8);
                    }
                    let d = (buf[p] - 48) as u64;
                    Some((10 * hi + d, p + 1))
                } else {
                    None
                }
            },
        }
    }
}

/// Reads a three-digit byte-sized number.
fn read_u8(buf: &Vec<u8>, pos: usize) -> (r: Option<(u8, usize)>)
    ensures
        match r {
            Some(v) => dec_u8(buf@, pos as int) == Some((v.0, v.1 as int)) && v.1 <= buf@.len(),
            None => dec_u8(buf@, pos as int) is None,
        },
{
    match read_fixed(buf, pos, 3) {
        None => None,
        Some((n, p)) => {
            if n <= 255 {
                Some((n as u8, p))
            } else {
                None
            }
        },
    }
}

/// Reads a five-digit 16-bit number.
fn read_u16(buf: &Vec<u8>, pos: usize) -> (r: Option<(u16, usize)>)
    ensures
        match r {
            Some(v) => dec_u16(buf@, pos as int) == Some((v.0, v.1 as int)) && v.1 <= buf@.len(),
            None => dec_u16(buf@, pos as int) is None,
        },
{
    match read_fixed(buf, pos, 5) {
        None => None,
        Some((n, p)) => {
            if n <= 65535 {
                Some((n as u16, p))
            } else {
                None
            }
        },
    }
}

/// Reads one expected tag byte.
fn read_tag(buf: &Vec<u8>, pos: usize, tag: u8) -> (r: Option<usize>)
    ensures
        match r {
            Some(p) => dec_tag(buf@, pos as int, tag) == Some(p as int) && p <= buf@.len(),
            None => dec_tag(buf@, pos as int, tag) is None,
        },
{
    if pos < buf.len() && buf[pos] == tag {
        Some(pos + 1)
    } else {
        None
    }
}

/// Reads a length-prefixed ASCII string.
#[verifier::loop_isolation(false)]
fn read_str(buf: &Vec<u8>, pos: usize) -> (r: Option<(String, usize)>)
    ensures
        match r {
            Some(v) => dec_str(buf@, pos as int) == Some((v.0@, v.1 as int)) && v.1 <= buf@.len(),
            None => dec_str(buf@, pos as int) is None,
        },
{
    match read_fixed(buf, pos, 9) {
        None => None,
        Some((len64, p)) => {
            proof {
                lemma_pow10_vals();
            }
            let len = len64 as usize;
            if len > buf.len() || p > buf.len() - len {
                return None;
            }
            let ghost body = buf@.subrange(p as int, (p + len) as int);
            let mut bytes: Vec<u8> = Vec::new();
            let mut i: usize = 0;
            while i < len
                invariant
                    i <= len,
                    p + len <= buf@.len(),
                    body == buf@.subrange(p as int, (p + len) as int),
                    bytes@ == body.subrange(0, i as int),
                    forall|j: int| 0 <= j < i ==> body[j] < 128,
                decreases len - i,
            {
                let b = buf[p + i];
                proof {
                    assert(body[i as int] == buf@[(p + i) as int]);
                }
                if b >= 128 {
                    proof {
                        assert(!bytes_ascii(body));
                    }
                    return None;
                }
                bytes.push(b);
                proof {
                    assert(bytes@ =~= body.subrange(0, i + 1 as int));
                }
                i += 1;
            }
            proof {
                assert(bytes@ =~= body);
                assert(bytes_ascii(body));
            }
            let s = crate::wire::ascii_to_string(&bytes);
            proof {
                assert(s@ =~= ascii_chars(body));
            }
            Some((s, p + len))
        },
    }
}

/// Reads an optional string.
fn read_opt_str(buf: &Vec<u8>, pos: usize) -> (r: Option<(Option<String>, usize)>)
    ensures
        match r {
            Some(v) => dec_opt_str(buf@, pos as int) == Some((v.0.deep_view(), v.1 as int))
                && v.1 <= buf@.len(),
            None => dec_opt_str(buf@, pos as int) is None,
        },
{
    if pos >= buf.len() {
        return None;
    }
    let b = buf[pos];
    if b == 45 {
        Some((None, pos + 1))
    } else if b == 43 {
        match read_str(buf, pos + 1) {
            None => None,
            Some((s, p)) => Some((Some(s), p)),
        }
    } else {
        None
    }
}

/// Reads a slot.
fn read_slot(buf: &Vec<u8>, pos: usize) -> (r: Option<((u8, Option<String>), usize)>)
    ensures
        match r {
            Some(v) => dec_slot(buf@, pos as int) == Some((v.0.deep_view(), v.1 as int)) && v.1
                <= buf@.len(),
            None => dec_slot(buf@, pos as int) is None,
        },
{
    match read_u8(buf, pos) {
        None => None,
        Some((n, p)) => match read_opt_str(buf, p) {
            None => None,
            Some((o, p2)) => Some(((n, o), p2)),
        },
    }
}

/// Reads a descriptor record.
#[verifier::rlimit(100)]
fn read_desc(buf: &Vec<u8>, pos: usize) -> (r: Option<(UsbDeviceDescriptor, usize)>)
    ensures
        match r {
            Some(v) => dec_desc(buf@, pos as int) == Some((v.0.deep_view(), v.1 as int)) && v.1
                <= buf@.len(),
            None => dec_desc(buf@, pos as int) is None,
        },
{
    let p0 = match read_tag(buf, pos, 71) {
        None => {
            return None;
        },
        Some(p) => p,
    };
    let (b_length, p1) = match read_u8(buf, p0) {
        None => {
            return None;
        },
        Some(v) => v,
    };
    let (b_descriptor_type, p2) = match read_u8(buf, p1) {
        None => {
            return None;
        },
        Some(v) => v,
    };
    let (bcd_usb, p3) = match read_u16(buf, p2) {
        None => {
            return None;
        },
        Some(v) => v,
    };
    let (b_class, p4) = match read_u8(buf, p3) {
        None => {
            return None;
        },
        Some(v) => v,
    };
    let (b_sub_class, p5) = match read_u8(buf, p4) {
        None => {
            return None;
        },
        Some(v) => v,
    };
    let (b_protocol, p6) = match read_u8(buf, p5) {
        None => {
            return None;
        },
        Some(v) => v,
    };
    let (b_max_packet, p7) = match read_u8(buf, p6) {
        None => {
            return None;
        },
        Some(v) => v,
    };
    let (id_vendor, p8) = match read_u16(buf, p7) {
        None => {
            return None;
        },
        Some(v) => v,
    };
    let (id_product, p9) = match read_u16(buf, p8) {
        None => {
            return None;
        },
        Some(v) => v,
    };
    let (bcd_device, p10) = match read_u16(buf, p9) {
        None => {
            return None;
        },
        Some(v) => v,
    };
    let (man, p11) = match read_slot(buf, p10) {
        None => {
            return None;
        },
        Some(v) => v,
    };
    let (prod, p12) = match read_slot(buf, p11) {
        None => {
            return None;
        },
        Some(v) => v,
    };
    let (serial, p13) = match read_slot(buf, p12) {
        None => {
            return None;
        },
        Some(v) => v,
    };
    let (num_cfg, p14) = match read_u8(buf, p13) {
        None => {
            return None;
        },
        Some(v) => v,
    };
    let d = UsbDeviceDescriptor {
        bLength: b_length,
        bDescriptorType: b_descriptor_type,
        bcdUSB: bcd_usb,
        bDeviceClass: b_class,
        bDeviceSubClass: b_sub_class,
        bDeviceProtocol: b_protocol,
        bMaxPacketSize0: b_max_packet,
        idVendor: id_vendor,
        idProduct: id_product,
        bcdDevice: bcd_device,
        iManufacturer: man,
        iProduct: prod,
        iSerialNumber: serial,
        bNumConfigurations: num_cfg,
    };
    Some((d, p14))
}

/// Reads an optional descriptor.
fn read_opt_desc(buf: &Vec<u8>, pos: usize) -> (r: Option<(Option<UsbDeviceDescriptor>, usize)>)
    ensures
        match r {
            Some(v) => dec_opt_desc(buf@, pos as int) == Some((opt_desc_view(&v.0), v.1 as int))
                && v.1 <= buf@.len(),
            None => dec_opt_desc(buf@, pos as int) is None,
        },
{
    if pos >= buf.len() {
        return None;
    }
    let b = buf[pos];
    if b == 45 {
        Some((None, pos + 1))
    } else if b == 43 {
        match read_desc(buf, pos + 1) {
            None => None,
            Some((d, p)) => Some((Some(d), p)),
        }
    } else {
        None
    }
}

/// Reads a device record.
fn read_device(buf: &Vec<u8>, pos: usize) -> (r: Option<(Device, usize)>)
    ensures
        match r {
            Some(v) => dec_device(buf@, pos as int) == Some((v.0.deep_view(), v.1 as int)) && v.1
                <= buf@.len(),
            None => dec_device(buf@, pos as int) is None,
        },
{
    let p0 = match read_tag(buf, pos, 68) {
        None => {
            return None;
        },
        Some(p) => p,
    };
    let (cid, p1) = match read_str(buf, p0) {
        None => {
            return None;
        },
        Some(v) => v,
    };
    let (key, p2) = match read_str(buf, p1) {
        None => {
            return None;
        },
        Some(v) => v,
    };
    let (port, p3) = match read_u8(buf, p2) {
        None => {
            return None;
        },
        Some(v) => v,
    };
    let (desc, p4) = match read_desc(buf, p3) {
        None => {
            return None;
        },
        Some(v) => v,
    };
    Some(
        (
            Device { container_id: cid, driver_key_name: key, port_number: port, descriptor: desc },
            p4,
        ),
    )
}

/// Reads `k` device records.
fn read_devices(buf: &Vec<u8>, pos: usize, k: u64) -> (r: Option<(Vec<Device>, usize)>)
    requires
        pos <= buf@.len(),
    ensures
        match r {
            Some(v) => dec_devices(buf@, pos as int, k as nat, Seq::empty()) == Some(
                (v.0.deep_view(), v.1 as int),
            ) && v.1 <= buf@.len(),
            None => dec_devices(buf@, pos as int, k as nat, Seq::empty()) is None,
        },
{
    let mut out: Vec<Device> = Vec::new();
    let mut cur = pos;
    let mut remaining = k;
    proof {
        assert(out.deep_view() =~= Seq::<DeviceModel>::empty());
    }
    while remaining > 0
        invariant
            cur <= buf@.len(),
            dec_devices(buf@, pos as int, k as nat, Seq::empty()) == dec_devices(
                buf@,
                cur as int,
                remaining as nat,
                out.deep_view(),
            ),
        decreases remaining,
    {
        match read_device(buf, cur) {
            None => {
                return None;
            },
            Some((d, p2)) => {
                let ghost acc0 = out.deep_view();
                let ghost dm = d.deep_view();
                out.push(d);
                proof {
                    assert(out.deep_view() =~= acc0.push(dm));
                }
                cur = p2;
                remaining = remaining - 1;
            },
        }
    }
    Some((out, cur))
}

/// Reads a hub record.
fn read_hub(buf: &Vec<u8>, pos: usize) -> (r: Option<(Hub, usize)>)
    ensures
        match r {
            Some(v) => dec_hub(buf@, pos as int) == Some((v.0.deep_view(), v.1 as int)) && v.1
                <= buf@.len(),
            None => dec_hub(buf@, pos as int) is None,
        },
{
    let p0 = match read_tag(buf, pos, 72) {
        None => {
            return None;
        },
        Some(p) => p,
    };
    let (hub_id, p1) = match read_str(buf, p0) {
        None => {
            return None;
        },
        Some(v) => v,
    };
    let (ports, p2) = match read_u8(buf, p1) {
        None => {
            return None;
        },
        Some(v) => v,
    };
    let (parent, p3) = match read_opt_str(buf, p2) {
        None => {
            return None;
        },
        Some(v) => v,
    };
    let (desc, p4) = match read_opt_desc(buf, p3) {
        None => {
            return None;
        },
        Some(v) => v,
    };
    let (k, p5) = match read_fixed(buf, p4, 9) {
        None => {
            return None;
        },
        Some(v) => v,
    };
    let (devs, p6) = match read_devices(buf, p5, k) {
        None => {
            return None;
        },
        Some(v) => v,
    };
    Some(
        (
            Hub {
                hub_id,
                number_of_ports: ports,
                devices: devs,
                parent_hub: parent,
                descriptor: desc,
            },
            p6,
        ),
    )
}

/// Reads `k` hub records.
fn read_hubs(buf: &Vec<u8>, pos: usize, k: u64) -> (r: Option<(Vec<Hub>, usize)>)
    requires
        pos <= buf@.len(),
    ensures
        match r {
            Some(v) => dec_hubs(buf@, pos as int, k as nat, Seq::empty()) == Some(
                (v.0.deep_view(), v.1 as int),
            ) && v.1 <= buf@.len(),
            None => dec_hubs(buf@, pos as int, k as nat, Seq::empty()) is None,
        },
{
    let mut out: Vec<Hub> = Vec::new();
    let mut cur = pos;
    let mut remaining = k;
    proof {
        assert(out.deep_view() =~= Seq::<HubModel>::empty());
    }
    while remaining > 0
        invariant
            cur <= buf@.len(),
            dec_hubs(buf@, pos as int, k as nat, Seq::empty()) == dec_hubs(
                buf@,
                cur as int,
                remaining as nat,
                out.deep_view(),
            ),
        decreases remaining,
    {
        match read_hub(buf, cur) {
            None => {
                return None;
            },
            Some((h, p2)) => {
                let ghost acc0 = out.deep_view();
                let ghost hm = h.deep_view();
                out.push(h);
                proof {
                    assert(out.deep_view() =~= acc0.push(hm));
                }
                cur = p2;
                remaining = remaining - 1;
            },
        }
    }
    Some((out, cur))
}

/// Reads a whole topology back from its text form, refusing any input
/// that is not exactly an encoded topology.
pub fn decode_topology(buf: &Vec<u8>) -> (r: Option<Vec<Hub>>)
    ensures
        match r {
            Some(hs) => dec_topology(buf@, 0) == Some((hs.deep_view(), buf@.len() as int)),
            None => match dec_topology(buf@, 0) {
                Some(p) => p.1 != buf@.len(),
                None => true,
            },
        },
{
    let p0 = match read_tag(buf, 0, 84) {
        None => {
            return None;
        },
        Some(p) => p,
    };
    let (k, p1) = match read_fixed(buf, p0, 9) {
        None => {
            return None;
        },
        Some(v) => v,
    };
    let (hubs, p2) = match read_hubs(buf, p1, k) {
        None => {
            return None;
        },
        Some(v) => v,
    };
    if p2 == buf.len() {
        Some(hubs)
    } else {
        None
    }
}

} // verus!
