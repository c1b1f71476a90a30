use vstd::prelude::*;
use crate::models::ip::Ipv4Inet;

verus! {

/// A network interface card of a router: its emulated model and address.
#[derive(Debug, Clone)]
pub struct Nic {
    pub nic_type: NicType,
    pub ip_address: Ipv4Inet,
}

/// The index of an interface, as written in topology files ("0", "1", ...).
#[derive(Debug, Clone, Hash)]
pub struct NicIndex(pub String);

impl PartialEq for NicIndex {
    fn eq(&self, other: &Self) -> (r: bool) {
        self.0 == other.0
    }
}

impl vstd::std_specs::cmp::PartialEqSpecImpl for NicIndex {
    open spec fn obeys_eq_spec() -> bool {
        true
    }

    open spec fn eq_spec(&self, other: &Self) -> bool {
        self.0@ == other.0@
    }
}

impl Eq for NicIndex {
}

/// Emulated network interface models.
#[derive(Debug, Clone, Copy, PartialEq, Eq, Structural)]
pub enum NicType {
    Rtl8139,
    E1000,
    VirtIO,
}

/// Why an interface index is not a number: the kinds that the standard
/// library's integer parser distinguishes.
#[derive(Debug, Clone, Copy, PartialEq, Eq, Structural)]
pub enum ParseIndexError {
    /// The index is the empty string.
    Empty,
    /// A character that is not a decimal digit (or a lone sign).
    InvalidDigit,
    /// The number does not fit in a `u16`.
    PosOverflow,
}

/// Value of a decimal digit character.
pub open spec fn digit_value(c: char) -> nat {
    ((c as int) - ('0' as int)) as nat
}

/// An ASCII decimal digit.
pub open spec fn is_decimal_digit(c: char) -> bool {
    '0' <= c && c <= '9'
}

/// Reads the digits `ds` left to right after `acc`, failing on the first
/// character that is not a digit, or as soon as the value exceeds `u16::MAX`.
pub open spec fn parse_u16_digits(acc: nat, ds: Seq<char>) -> Result<u16, ParseIndexError>
    decreases ds.len(),
{
    if ds.len() == 0 {
        Ok(acc as u16)
    } else if !is_decimal_digit(ds[0]) {
        Err(ParseIndexError::InvalidDigit)
    } else if acc * 10 + digit_value(ds[0]) > u16::MAX {
        Err(ParseIndexError::PosOverflow)
    } else {
        parse_u16_digits(acc * 10 + digit_value(ds[0]), ds.drop_first())
    }
}

/// Parsing of a `u16` in decimal: an optional leading `+`, then digits.
pub open spec fn parse_u16(s: Seq<char>) -> Result<u16, ParseIndexError> {
    if s.len() == 0 {
        Err(ParseIndexError::Empty)
    } else if s.len() == 1 && (s[0] == '+' || s[0] == '-') {
        Err(ParseIndexError::InvalidDigit)
    } else if s[0] == '+' {
        parse_u16_digits(0, s.drop_first())
    } else {
        parse_u16_digits(0, s)
    }
}

impl NicIndex {
    /// The index as a number.
    pub fn to_u16(&self) -> (r: Result<u16, ParseIndexError>)
        ensures
            r == parse_u16(self.0@),
    {
        let s = self.0.as_str();
        let n = s.unicode_len();
        if n == 0 {
            return Err(ParseIndexError::Empty);
        }
        let first = s.get_char(0);
        if n == 1 && (first == '+' || first == '-') {
            return Err(ParseIndexError::InvalidDigit);
        }
        let start: usize = if first == '+' { 1 } else { 0 };
        let ghost ds = s@.subrange(start as int, n as int);
        assert(ds == (if first == '+' { s@.drop_first() } else { s@ }));
        assert(parse_u16(self.0@) == parse_u16_digits(0, ds));
        let mut acc: u32 = 0;
        let mut i: usize = start;
        while i < n
            invariant
                start <= i <= n,
                n == s@.len(),
                s@ == self.0@,
                acc <= u16::MAX,
                parse_u16_digits(0, ds) == parse_u16_digits(acc as nat, s@.subrange(i as int, n as int)),
                ds == s@.subrange(start as int, n as int),
                parse_u16(self.0@) == parse_u16_digits(0, ds),
            decreases n - i,
        {
            let c = s.get_char(i);
            let ghost rest = s@.subrange(i as int, n as int);
            assert(rest[0] == c);
            assert(rest.drop_first() == s@.subrange(i + 1, n as int));
            if !('0' <= c && c <= '9') {
                return Err(ParseIndexError::InvalidDigit);
            }
            let d: u32 = (c as u32) - ('0' as u32);
            let next: u32 = acc * 10 + d;
            if next > 65535 {
                return Err(ParseIndexError::PosOverflow);
            }
            acc = next;
            i = i + 1;
        }
        assert(s@.subrange(n as int, n as int).len() == 0);
        Ok(acc as u16)
    }
}

/// Name of a NIC model as shown to users and used in experiment names.
pub open spec fn nic_type_name(t: NicType) -> Seq<char> {
    match t {
        NicType::Rtl8139 => "RTL8139"@,
        NicType::E1000 => "E1000"@,
        NicType::VirtIO => "VirtIO"@,
    }
}

/// Name of a NIC model as the QEMU emulator knows it.
pub open spec fn qemu_name(t: NicType) -> Seq<char> {
    match t {
        NicType::Rtl8139 => "rtl8139"@,
        NicType::E1000 => "e1000"@,
        NicType::VirtIO => "virtio-net-pci"@,
    }
}

impl NicType {
    /// The model's name for the QEMU emulator.
    pub fn to_qemu_name(&self) -> (r: String)
        ensures
            r@ == qemu_name(*self),
    {
        match self {
            NicType::Rtl8139 => String::from_str("rtl8139"),
            NicType::E1000 => String::from_str("e1000"),
            NicType::VirtIO => String::from_str("virtio-net-pci"),
        }
    }

    /// The name under which the model is displayed.
    pub fn to_display_string(&self) -> (r: String)
        ensures
            r@ == nic_type_name(*self),
    {
        match self {
            NicType::Rtl8139 => String::from_str("RTL8139"),
            NicType::E1000 => String::from_str("E1000"),
            NicType::VirtIO => String::from_str("VirtIO"),
        }
    }

    /// Every model, in declaration order.
    pub fn variants() -> (r: Vec<NicType>)
        ensures
            r@ == seq![NicType::Rtl8139, NicType::E1000, NicType::VirtIO],
    {
        vec![NicType::Rtl8139, NicType::E1000, NicType::VirtIO]
    }
}

} // verus!
