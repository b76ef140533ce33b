//! The address of a device on the PCI bus, by which a device is known.

use libdrm_amdgpu_sys::PCI;
use vstd::prelude::*;
use vstd::string::*;

verus! {

/// Domain, bus, device and function of a PCI device.
#[derive(Clone, Copy, Debug, PartialEq, Eq, Structural)]
pub struct PciBus {
    pub domain: u16,
    pub bus: u8,
    pub dev: u8,
    pub func: u8,
}

/// What libdrm_amdgpu_sys reads a text as: the domain, bus, device and
/// function of an address, or nothing where the text is no address.
pub uninterp spec fn pci_from_text(s: Seq<char>) -> Option<(u16, u8, u8, u8)>;

/// The character that writes the hexadecimal digit `d` in lower case.
pub open spec fn hex_digit_char(d: int) -> char {
    if d == 0 {
        '0'
    } else if d == 1 {
        '1'
    } else if d == 2 {
        '2'
    } else if d == 3 {
        '3'
    } else if d == 4 {
        '4'
    } else if d == 5 {
        '5'
    } else if d == 6 {
        '6'
    } else if d == 7 {
        '7'
    } else if d == 8 {
        '8'
    } else if d == 9 {
        '9'
    } else if d == 10 {
        'a'
    } else if d == 11 {
        'b'
    } else if d == 12 {
        'c'
    } else if d == 13 {
        'd'
    } else if d == 14 {
        'e'
    } else {
        'f'
    }
}

/// `v` in hexadecimal, lower case, with zeros before it where it has fewer
/// than `width` digits.
pub open spec fn hex(v: nat, width: nat) -> Seq<char>
    decreases v, width,
{
    if v < 16 && width <= 1 {
        seq![hex_digit_char(v as int)]
    } else {
        hex(v / 16, if width > 0 { (width - 1) as nat } else { 0 }).push(hex_digit_char((v % 16) as int))
    }
}

impl PciBus {
    /// The address as text: four digits of domain, a colon, two of bus, a
    /// colon, two of device, a dot, and the function, all hexadecimal.
    pub open spec fn text(self) -> Seq<char> {
        hex(self.domain as nat, 4) + seq![':'] + hex(self.bus as nat, 2) + seq![':'] + hex(
            self.dev as nat,
            2,
        ) + seq!['.'] + hex(self.func as nat, 1)
    }

    /// The address with the given fields, where there are any.
    pub open spec fn of_fields(fields: Option<(u16, u8, u8, u8)>) -> Option<PciBus> {
        match fields {
            Some((domain, bus, dev, func)) => Some(PciBus { domain, bus, dev, func }),
            None => None,
        }
    }

    /// The address that a text holds, as `pci_from_text` has it.
    pub open spec fn spec_parse(s: Seq<char>) -> Option<PciBus> {
        PciBus::of_fields(pci_from_text(s))
    }

    /// Calls `from_str` of libdrm_amdgpu_sys's `PCI::BUS_INFO` and copies the
    /// four fields of its result. Trusted: the result is what that function
    /// makes of the text, under the name `pci_from_text`; nothing is said of
    /// which texts it takes.
    #[verifier::external_body]
    pub(crate) fn read(s: &str) -> (r: Option<PciBus>)
        ensures
            r == PciBus::of_fields(pci_from_text(s@)),
    {
        match s.parse::<PCI::BUS_INFO>() {
            Ok(b) => Some(PciBus { domain: b.domain, bus: b.bus, dev: b.dev, func: b.func }),
            Err(_) => None,
        }
    }

    /// Calls `to_string` on the `PCI::BUS_INFO` of libdrm_amdgpu_sys with
    /// these four fields. Trusted: the result is `text`, the format that the
    /// type's `Display` writes.
    #[verifier::external_body]
    pub(crate) fn write(&self) -> (r: String)
        ensures
            r@ == self.text(),
    {
        let b = PCI::BUS_INFO { domain: self.domain, bus: self.bus, dev: self.dev, func: self.func };
        b.to_string()
    }
}

/// Whether `list` holds the address `pci`.
pub open spec fn has_pci(list: Seq<PciBus>, pci: PciBus) -> bool {
    exists|i: int| 0 <= i < list.len() && list[i] == pci
}

/// Whether `list` holds the address `pci`.
pub fn contains_pci(list: &Vec<PciBus>, pci: &PciBus) -> (r: bool)
    ensures
        r == has_pci(list@, *pci),
{
    let mut i: usize = 0;
    while i < list.len()
        invariant
            i <= list.len(),
            forall|k: int| 0 <= k < i ==> list@[k] != *pci,
        decreases list.len() - i,
    {
        if list[i] == *pci {
            return true;
        }
        i += 1;
    }
    false
}

} // verus!
