//! The PCI identity of a device and the index of its card node.

use crate::text::{
    bounded_of, chars_of, find_char, hex_u16_of, parse_bounded, parse_hex_u16, position, starts_with,
    str_starts_with, string_of,
};
use vstd::prelude::*;
use vstd::string::*;

verus! {

/// The vendor and the device of a PCI device.
#[derive(Debug, Clone, Copy, PartialEq, Eq, Structural)]
pub struct PciId {
    pub vendor_id: u16,
    pub device_id: u16,
}

/// The character of the hexadecimal digit `d`, in upper case.
pub open spec fn hex_char(d: nat) -> char {
    if d < 10 {
        ((48 + d) as u8) as char
    } else {
        ((55 + d) as u8) as char
    }
}

/// The last `width` hexadecimal digits of `n`, in upper case, with leading
/// zeros.
pub open spec fn hex_text(n: nat, width: nat) -> Seq<char>
    decreases width,
{
    if width == 0 {
        Seq::<char>::empty()
    } else {
        hex_text(n / 16, (width - 1) as nat).push(hex_char(n % 16))
    }
}

fn write_hex(buf: &mut String, n: u32, width: u8)
    ensures
        final(buf)@ == old(buf)@ + hex_text(n as nat, width as nat),
    decreases width,
{
    if width == 0 {
        assert(buf@ =~= old(buf)@ + hex_text(n as nat, 0));
    } else {
        write_hex(buf, n / 16, width - 1);
        let d = (n % 16) as u8;
        let c = if d < 10 {
            (48u8 + d) as char
        } else {
            (55u8 + d) as char
        };
        buf.push(c);
        assert(buf@ =~= old(buf)@ + hex_text(n as nat, width as nat));
    }
}

impl PciId {
    /// What the property `PCI_ID` of a device means: the vendor and the
    /// device as hexadecimal numbers, with the first colon between them.
    pub open spec fn spec_from_property(s: Seq<char>) -> Option<PciId> {
        let i = position(s, ':');
        if i == s.len() {
            None
        } else {
            match (hex_u16_of(s.take(i)), hex_u16_of(s.skip(i + 1))) {
                (Some(vendor_id), Some(device_id)) => Some(PciId { vendor_id, device_id }),
                _ => None,
            }
        }
    }

    /// Reads the property `PCI_ID` of a device, which has the form
    /// `XXXX:XXXX`; none where it has not.
    pub fn from_property(pci_id: &str) -> (r: Option<PciId>)
        ensures
            r == Self::spec_from_property(pci_id@),
    {
        let v = chars_of(pci_id);
        let i = find_char(&v, 0, ':');
        assert(v@.skip(0) =~= v@);
        if i == v.len() {
            return None;
        }
        let vendor = string_of(&v, 0, i);
        let device = string_of(&v, i + 1, v.len());
        assert(vendor@ =~= pci_id@.take(i as int));
        assert(device@ =~= pci_id@.skip(i + 1));
        match (parse_hex_u16(vendor.as_str()), parse_hex_u16(device.as_str())) {
            (Some(vendor_id), Some(device_id)) => Some(PciId { vendor_id, device_id }),
            _ => None,
        }
    }

    /// The pattern under which the hardware database lists the model: the
    /// vendor and the device, each with eight hexadecimal digits.
    pub fn model_modalias(&self) -> (r: String)
        ensures
            r@ == "pci:v"@ + hex_text(self.vendor_id as nat, 8) + "d"@ + hex_text(
                self.device_id as nat,
                8,
            ) + "*"@,
    {
        let mut r = String::from_str("pci:v");
        write_hex(&mut r, self.vendor_id as u32, 8);
        r.append("d");
        write_hex(&mut r, self.device_id as u32, 8);
        r.append("*");
        r
    }

    /// The pattern under which the hardware database lists the vendor.
    pub fn vendor_modalias(&self) -> (r: String)
        ensures
            r@ == "pci:v"@ + hex_text(self.vendor_id as nat, 8) + "*"@,
    {
        let mut r = String::from_str("pci:v");
        write_hex(&mut r, self.vendor_id as u32, 8);
        r.append("*");
        r
    }
}

/// What the name of a node says of the card: nothing where it does not start
/// with `card`; else the number behind `card`, or none where no number up to
/// 255 stands there.
pub open spec fn spec_card_index(name: Seq<char>) -> Option<Option<u8>> {
    if starts_with(name, "card"@) {
        Some(
            match bounded_of(name.skip(4), 255) {
                Some(n) => Some(n as u8),
                None => None,
            },
        )
    } else {
        None
    }
}

/// The card index `N` of a node named `cardN`.
pub fn card_index(name: &str) -> (r: Option<Option<u8>>)
    ensures
        r == spec_card_index(name@),
{
    proof {
        reveal_strlit("card");
    }
    if !str_starts_with(name, "card") {
        return None;
    }
    let v = chars_of(name);
    let rest = string_of(&v, 4, v.len());
    assert(rest@ =~= name@.skip(4));
    match parse_bounded(rest.as_str(), 255) {
        Some(n) => Some(Some(n as u8)),
        None => Some(None),
    }
}

/// Of the names of the nodes of a device, what the first that starts with
/// `card` says of the card.
pub open spec fn spec_dri_card_index(names: Seq<String>) -> Option<Option<u8>>
    decreases names.len(),
{
    if names.len() == 0 {
        None
    } else {
        match spec_card_index(names[0]@) {
            Some(index) => Some(index),
            None => spec_dri_card_index(names.drop_first()),
        }
    }
}

/// Return the card index `N` if a child with sysname `cardN` is found: the
/// outer value says whether a child is named so, the inner one whether a
/// number stands behind `card`.
pub fn get_dri_card_index(names: &Vec<String>) -> (r: Option<Option<u8>>)
    ensures
        r == spec_dri_card_index(names@),
{
    let mut i: usize = 0;
    assert(names@.skip(0) =~= names@);
    while i < names.len()
        invariant
            i <= names.len(),
            spec_dri_card_index(names@) == spec_dri_card_index(names@.skip(i as int)),
        decreases names.len() - i,
    {
        let ghost rest = names@.skip(i as int);
        assert(rest[0] == names@[i as int]);
        assert(rest.drop_first() =~= names@.skip(i + 1));
        match card_index(names[i].as_str()) {
            Some(index) => {
                return Some(index);
            },
            None => {},
        }
        i += 1;
    }
    None
}

} // verus!
