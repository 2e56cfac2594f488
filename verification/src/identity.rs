//! Identity correlation: decoding the two properties read out of the
//! platform's device registry — the driver-key identifier and the container
//! identity — and the exact-match scan that joins a device's driver key to
//! its container id.
//!
//! The registry scan itself is I/O and happens outside the crate; each
//! entry's raw property buffers are decoded here, and the finished
//! `(driver key, container id)` table is what [`correlate`] searches.

use vstd::prelude::*;

use crate::wire::ascii_to_string;
use crate::wire::le16;
use crate::wire::le32;
use crate::wire::trim_trailing_zeros;
use crate::wire::utf16_lossy;
use crate::wire::utf16_lossy_of;
use crate::wire::wide_units_of;

verus! {

/// The ASCII hexadecimal digit (lower case) for a value below 16.
pub open spec fn hex_digit(n: int) -> u8 {
    if n < 10 {
        (48 + n) as u8
    } else {
        (87 + n) as u8
    }
}

/// The `width` lower-case hexadecimal digits of `v`, most significant first.
pub open spec fn hex_bytes(v: int, width: nat) -> Seq<u8>
    decreases width,
{
    if width == 0 {
        Seq::empty()
    } else {
        hex_bytes(v / 16, (width - 1) as nat).push(hex_digit(v % 16))
    }
}

/// The textual form of a GUID assembled from its four raw parts: braced,
/// lower case, grouped 8-4-4-4-12.
pub open spec fn guid_bytes(d1: int, d2: int, d3: int, d4: Seq<u8>) -> Seq<u8> {
    seq![123u8] + hex_bytes(d1, 8) + seq![45u8] + hex_bytes(d2, 4) + seq![45u8] + hex_bytes(
        d3,
        4,
    ) + seq![45u8] + hex_bytes(d4[0] as int, 2) + hex_bytes(d4[1] as int, 2) + seq![45u8]
        + hex_bytes(d4[2] as int, 2) + hex_bytes(d4[3] as int, 2) + hex_bytes(d4[4] as int, 2)
        + hex_bytes(d4[5] as int, 2) + hex_bytes(d4[6] as int, 2) + hex_bytes(d4[7] as int, 2)
        + seq![125u8]
}

/// The characters of a byte sequence that holds only ASCII.
pub open spec fn ascii_chars(s: Seq<u8>) -> Seq<char> {
    Seq::new(s.len(), |i: int| s[i] as char)
}

/// The container identity rendered from a raw GUID property buffer: the
/// first sixteen bytes read as the GUID's little-endian fields, written out
/// as braced lower-case hexadecimal.
pub open spec fn container_id_of(data: Seq<u8>) -> Seq<char> {
    ascii_chars(
        guid_bytes(
            le32(data[0], data[1], data[2], data[3]),
            le16(data[4], data[5]),
            le16(data[6], data[7]),
            data.subrange(8, 16),
        ),
    )
}

/// The driver-key identifier decoded from a raw wide-string property
/// buffer: consecutive little-endian 16-bit units, zero padding removed,
/// read as UTF-16.
pub open spec fn driver_key_of(data: Seq<u8>) -> Seq<char> {
    utf16_lossy_of(trim_trailing_zeros(wide_units_of(data)))
}

proof fn lemma_hex_bytes_ascii(v: int, width: nat)
    ensures
        forall|i: int| 0 <= i < hex_bytes(v, width).len() ==> hex_bytes(v, width)[i] < 128,
        hex_bytes(v, width).len() == width,
    decreases width,
{
    if width > 0 {
        lemma_hex_bytes_ascii(v / 16, (width - 1) as nat);
        let s = hex_bytes(v, width);
        let p = hex_bytes(v / 16, (width - 1) as nat);
        assert forall|i: int| 0 <= i < s.len() implies s[i] < 128 by {
            if i < p.len() {
                assert(s[i] == p[i]);
            }
        }
    }
}

/// Appends the `width` lower-case hexadecimal digits of `v`, most
/// significant first.
fn push_hex(out: &mut Vec<u8>, v: u64, width: usize)
    ensures
        final(out)@ == old(out)@ + hex_bytes(v as int, width as nat),
    decreases width,
{
    if width == 0 {
        assert(out@ =~= out@ + hex_bytes(v as int, 0));
        return ;
    }
    push_hex(out, v / 16, width - 1);
    let d: u8 = (v % 16) as u8;
    let c: u8 = if d < 10 {
        48 + d
    } else {
        87 + d
    };
    out.push(c);
    assert(out@ =~= old(out)@ + hex_bytes(v as int, width as nat));
}

/// Renders a container identity from a raw GUID property buffer. `None`
/// only when the buffer is shorter than a GUID.
pub fn container_id_from_bytes(data: &Vec<u8>) -> (r: Option<String>)
    ensures
        match r {
            Some(s) => data@.len() >= 16 && s@ == container_id_of(data@),
            None => data@.len() < 16,
        },
{
    if data.len() < 16 {
        return None;
    }
    let d1: u64 = data[0] as u64 + 256 * data[1] as u64 + 65536 * data[2] as u64 + 16777216
        * data[3] as u64;
    let d2: u64 = data[4] as u64 + 256 * data[5] as u64;
    let d3: u64 = data[6] as u64 + 256 * data[7] as u64;
    let mut out: Vec<u8> = Vec::new();
    out.push(123);
    push_hex(&mut out, d1, 8);
    out.push(45);
    push_hex(&mut out, d2, 4);
    out.push(45);
    push_hex(&mut out, d3, 4);
    out.push(45);
    push_hex(&mut out, data[8] as u64, 2);
    push_hex(&mut out, data[9] as u64, 2);
    out.push(45);
    push_hex(&mut out, data[10] as u64, 2);
    push_hex(&mut out, data[11] as u64, 2);
    push_hex(&mut out, data[12] as u64, 2);
    push_hex(&mut out, data[13] as u64, 2);
    push_hex(&mut out, data[14] as u64, 2);
    push_hex(&mut out, data[15] as u64, 2);
    out.push(125);
    proof {
        let d4 = data@.subrange(8, 16);
        assert(d4[0] == data@[8] && d4[1] == data@[9] && d4[2] == data@[10] && d4[3] == data@[11]
            && d4[4] == data@[12] && d4[5] == data@[13] && d4[6] == data@[14] && d4[7]
            == data@[15]);
        assert(out@ =~= guid_bytes(d1 as int, d2 as int, d3 as int, d4));
        lemma_hex_bytes_ascii(d1 as int, 8);
        lemma_hex_bytes_ascii(d2 as int, 4);
        lemma_hex_bytes_ascii(d3 as int, 4);
        lemma_hex_bytes_ascii(data@[8] as int, 2);
        lemma_hex_bytes_ascii(data@[9] as int, 2);
        lemma_hex_bytes_ascii(data@[10] as int, 2);
        lemma_hex_bytes_ascii(data@[11] as int, 2);
        lemma_hex_bytes_ascii(data@[12] as int, 2);
        lemma_hex_bytes_ascii(data@[13] as int, 2);
        lemma_hex_bytes_ascii(data@[14] as int, 2);
        lemma_hex_bytes_ascii(data@[15] as int, 2);
    }
    let s = ascii_to_string(&out);
    proof {
        assert(s@ =~= ascii_chars(out@));
    }
    Some(s)
}

/// Decodes a driver-key identifier from a raw wide-string property buffer.
pub fn driver_key_from_bytes(data: &Vec<u8>) -> (r: String)
    ensures
        r@ == driver_key_of(data@),
{
    let mut units: Vec<u16> = Vec::new();
    let mut i: usize = 0;
    while i + 1 < data.len()
        invariant
            i % 2 == 0,
            i <= data@.len(),
            units@ == wide_units_of(data@).subrange(0, (i / 2) as int),
        decreases data@.len() - i,
    {
        units.push(data[i] as u16 + 256 * data[i + 1] as u16);
        assert(units@ =~= wide_units_of(data@).subrange(0, (i / 2 + 1) as int));
        i += 2;
    }
    proof {
        assert(units@ =~= wide_units_of(data@));
    }
    let trimmed = crate::wire::trim_zero_units(&units);
    utf16_lossy(trimmed.as_slice())
}

/// The container id of the first table entry whose driver key matches, if
/// any.
pub open spec fn first_match(table: Seq<(String, String)>, key: Seq<char>) -> Option<String>
    decreases table.len(),
{
    if table.len() == 0 {
        None
    } else if table[0].0@ == key {
        Some(table[0].1)
    } else {
        first_match(table.drop_first(), key)
    }
}

proof fn lemma_first_match_skip(table: Seq<(String, String)>, key: Seq<char>, i: int)
    requires
        0 <= i <= table.len(),
        forall|j: int| 0 <= j < i ==> table[j].0@ != key,
    ensures
        first_match(table, key) == first_match(table.skip(i), key),
    decreases i,
{
    if i > 0 {
        lemma_first_match_skip(table, key, i - 1);
        assert(table.skip(i - 1).len() > 0);
        assert(table.skip(i - 1)[0] == table[i - 1]);
        assert(table.skip(i - 1).drop_first() =~= table.skip(i));
    } else {
        assert(table.skip(0) =~= table);
    }
}

/// Scans the identity table for the exact driver key and returns the
/// matching container id: the first entry whose driver key equals `key`,
/// or `None` when no entry matches.
pub fn correlate(key: &String, table: &Vec<(String, String)>) -> (r: Option<String>)
    ensures
        r == first_match(table@, key@),
{
    let mut i: usize = 0;
    while i < table.len()
        invariant
            i <= table@.len(),
            forall|j: int| 0 <= j < i ==> table@[j].0@ != key@,
        decreases table@.len() - i,
    {
        if table[i].0 == *key {
            let c = table[i].1.clone();
            proof {
                lemma_first_match_skip(table@, key@, i as int);
                assert(table@.skip(i as int)[0] == table@[i as int]);
            }
            return Some(c);
        }
        i += 1;
    }
    proof {
        lemma_first_match_skip(table@, key@, table@.len() as int);
        assert(table@.skip(table@.len() as int) =~= Seq::empty());
    }
    None
}

} // verus!
