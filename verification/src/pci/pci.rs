//! Devices and their addresses.
use vstd::prelude::*;

use super::errors::{PciError, PciErrorView};
use crate::number::{
    digit_value, hex_padded, lemma_number_digits, lemma_number_round_trip, lemma_padded_value,
    number_text, parse_unsigned, unsigned_value, zero_padded,
};
use crate::split::{lemma_pieces_append, lemma_pieces_none, pieces, split_any, split_char};
use crate::text::copy;

verus! {

/// A device.
#[derive(Debug)]
pub struct PciDevice {
    /// Where it is.
    pub address: PciAddress,
    /// Who made it.
    pub vendor: u32,
    /// Which of the maker's devices it is.
    pub device: u32,
    /// What kind of device it is.
    pub class: u32,
    /// How fast its link is.
    pub current_link_speed: Option<String>,
    /// How wide its link is.
    pub current_link_width: Option<String>,
    /// How fast its link can be.
    pub max_link_speed: Option<String>,
    /// How wide its link can be.
    pub max_link_width: Option<String>,
}

impl PciDevice {
    /// A device of which nothing is known of its link.
    pub fn new(address: PciAddress, vendor: u32, device: u32, class: u32) -> (r: PciDevice)
        ensures
            r.address == address,
            r.vendor == vendor,
            r.device == device,
            r.class == class,
            r.current_link_speed is None,
            r.current_link_width is None,
            r.max_link_speed is None,
            r.max_link_width is None,
    {
        PciDevice {
            address,
            vendor,
            device,
            class,
            current_link_speed: None,
            current_link_width: None,
            max_link_speed: None,
            max_link_width: None,
        }
    }

    /// The device with that speed of its link.
    pub fn set_current_link_speed(self, speed: Option<String>) -> (r: PciDevice)
        ensures
            r == (PciDevice { current_link_speed: speed, ..self }),
    {
        PciDevice { current_link_speed: speed, ..self }
    }

    /// The device with that highest speed of its link.
    pub fn set_max_link_speed(self, speed: Option<String>) -> (r: PciDevice)
        ensures
            r == (PciDevice { max_link_speed: speed, ..self }),
    {
        PciDevice { max_link_speed: speed, ..self }
    }

    /// The device with that width of its link.
    pub fn set_current_link_width(self, width: Option<String>) -> (r: PciDevice)
        ensures
            r == (PciDevice { current_link_width: width, ..self }),
    {
        PciDevice { current_link_width: width, ..self }
    }

    /// The device with that highest width of its link.
    pub fn set_max_link_width(self, width: Option<String>) -> (r: PciDevice)
        ensures
            r == (PciDevice { max_link_width: width, ..self }),
    {
        PciDevice { max_link_width: width, ..self }
    }
}

/// Where a device is, such as `0000:5d:0e.0`.
#[derive(Clone, Copy, Debug, PartialEq, Eq, Structural)]
pub struct PciAddress {
    /// The domain.
    pub domain: u16,
    /// The bus in the domain.
    pub bus: u8,
    /// The device on the bus.
    pub device: u8,
    /// The function of the device.
    pub function: u8,
}

/// The number that a field of an address stands for.
pub open spec fn field_value(field: Seq<char>, max: nat) -> Result<nat, PciErrorView> {
    match unsigned_value(field, 16, max) {
        Ok(n) => Ok(n),
        Err(e) => Err(PciErrorView::ParseIntError(field, e)),
    }
}

/// The address with these fields, or what is wrong with the first of them that is
/// no number.
pub open spec fn address_of(
    domain: Result<nat, PciErrorView>,
    bus: Result<nat, PciErrorView>,
    device: Result<nat, PciErrorView>,
    function: Result<nat, PciErrorView>,
) -> Result<PciAddress, PciErrorView> {
    match domain {
        Err(e) => Err(e),
        Ok(m) => match bus {
            Err(e) => Err(e),
            Ok(b) => match device {
                Err(e) => Err(e),
                Ok(d) => match function {
                    Err(e) => Err(e),
                    Ok(f) => Ok(
                        PciAddress {
                            domain: m as u16,
                            bus: b as u8,
                            device: d as u8,
                            function: f as u8,
                        },
                    ),
                },
            },
        },
    }
}

/// The address that a text stands for: fields of hexadecimal digits, the last one
/// behind the only dot and the others behind colons. The domain may be left out,
/// and is 0 then.
pub open spec fn parsed_address(s: Seq<char>) -> Result<PciAddress, PciErrorView> {
    let f = pieces(s, seq![':', '.']);
    if pieces(s, seq!['.']).len() != 2 {
        Err(PciErrorView::IllegalPciAddress(s))
    } else if f.len() == 3 {
        address_of(Ok(0), field_value(f[0], 0xff), field_value(f[1], 0xff), field_value(f[2], 0xff))
    } else if f.len() == 4 {
        address_of(
            field_value(f[0], 0xffff),
            field_value(f[1], 0xff),
            field_value(f[2], 0xff),
            field_value(f[3], 0xff),
        )
    } else {
        Err(PciErrorView::IllegalPciAddress(s))
    }
}

/// A number in hexadecimal digits, with zeros before it up to `width`.
pub open spec fn hex_text(n: nat, width: nat) -> Seq<char> {
    zero_padded(number_text(n, 16), width)
}

/// The text of an address.
pub open spec fn address_text(a: PciAddress) -> Seq<char> {
    hex_text(a.domain as nat, 4) + ":"@ + hex_text(a.bus as nat, 2) + ":"@ + hex_text(
        a.device as nat,
        2,
    ) + "."@ + hex_text(a.function as nat, 1)
}

fn parse_field(field: &str, max: u32) -> (r: Result<u32, PciError>)
    ensures
        match (r, field_value(field@, max as nat)) {
            (Ok(n), Ok(w)) => n == w && n <= max,
            (Err(e), Err(m)) => e@ == m,
            _ => false,
        },
{
    match parse_unsigned(field, 16, max) {
        Ok(n) => Ok(n),
        Err(e) => Err(PciError::ParseIntError { field: copy(field), source: e }),
    }
}

impl PciAddress {
    /// The address that a text stands for.
    pub fn from_str(address: &str) -> (r: Result<PciAddress, PciError>)
        ensures
            match (r, parsed_address(address@)) {
                (Ok(a), Ok(w)) => a == w,
                (Err(e), Err(m)) => e@ == m,
                _ => false,
            },
    {
        let parts = split_char(address, '.');
        assert(parts@.len() == pieces(address@, seq!['.']).len());
        if parts.len() != 2 {
            return Err(PciError::IllegalPciAddress(copy(address)));
        }
        let mut seps: Vec<char> = Vec::new();
        seps.push(':');
        seps.push('.');
        assert(seps@ =~= seq![':', '.']);
        let fields = split_any(address, &seps);
        let ghost f = pieces(address@, seq![':', '.']);
        let n: usize = fields.len();
        assert(n == f.len());
        if n != 3 && n != 4 {
            return Err(PciError::IllegalPciAddress(copy(address)));
        }
        assert(forall|i: int| 0 <= i < n ==> f[i] == (#[trigger] fields@[i])@);
        let at: usize = n - 3;
        let domain: u32 = if n == 3 {
            0
        } else {
            match parse_field(fields[0].as_str(), 0xffff) {
                Ok(v) => v,
                Err(e) => {
                    return Err(e);
                },
            }
        };
        let bus: u32 = match parse_field(fields[at].as_str(), 0xff) {
            Ok(v) => v,
            Err(e) => {
                return Err(e);
            },
        };
        let device: u32 = match parse_field(fields[at + 1].as_str(), 0xff) {
            Ok(v) => v,
            Err(e) => {
                return Err(e);
            },
        };
        let function: u32 = match parse_field(fields[at + 2].as_str(), 0xff) {
            Ok(v) => v,
            Err(e) => {
                return Err(e);
            },
        };
        Ok(
            PciAddress {
                domain: domain as u16,
                bus: bus as u8,
                device: device as u8,
                function: function as u8,
            },
        )
    }

    /// The text of the address.
    pub fn to_string(&self) -> (r: String)
        ensures
            r@ == address_text(*self),
    {
        let mut s = hex_padded(self.domain as u64, 4);
        let bus = hex_padded(self.bus as u64, 2);
        let device = hex_padded(self.device as u64, 2);
        let function = hex_padded(self.function as u64, 1);
        s.append(":");
        s.append(bus.as_str());
        s.append(":");
        s.append(device.as_str());
        s.append(".");
        s.append(function.as_str());
        s
    }
}

/// A written field has no separator in it, and is read as the number that it was
/// written for.
proof fn lemma_field_round_trip(n: nat, width: nat, max: nat)
    requires
        n <= max,
    ensures
        field_value(hex_text(n, width), max) == Ok::<nat, PciErrorView>(n),
        forall|i: int|
            #![trigger hex_text(n, width)[i]]
            0 <= i < hex_text(n, width).len() ==> hex_text(n, width)[i] != ':' && hex_text(
                n,
                width,
            )[i] != '.',
{
    let digits = number_text(n, 16);
    let t = hex_text(n, width);
    lemma_number_digits(n, 16);
    lemma_number_round_trip(n, 16, max);
    lemma_padded_value(digits, width, 16, max);
    assert forall|i: int| #![trigger t[i]] 0 <= i < t.len() implies digit_value(t[i], 16) is Some by {
        if t.len() > digits.len() {
            let pad = t.len() - digits.len();
            if i >= pad {
                assert(t[i] == digits[i - pad]);
            }
        }
    }
    assert(digit_value(t[0], 16) is Some);
}

/// The address that an address's text stands for is that address.
pub proof fn law_address_round_trip(a: PciAddress)
    ensures
        parsed_address(address_text(a)) == Ok::<PciAddress, PciErrorView>(a),
{
    reveal_strlit(":");
    reveal_strlit(".");
    let m = hex_text(a.domain as nat, 4);
    let b = hex_text(a.bus as nat, 2);
    let d = hex_text(a.device as nat, 2);
    let f = hex_text(a.function as nat, 1);
    lemma_field_round_trip(a.domain as nat, 4, 0xffff);
    lemma_field_round_trip(a.bus as nat, 2, 0xff);
    lemma_field_round_trip(a.device as nat, 2, 0xff);
    lemma_field_round_trip(a.function as nat, 1, 0xff);
    let s = address_text(a);
    let both = seq![':', '.'];
    let dot = seq!['.'];
    assert(both[0] == ':' && both[1] == '.');
    assert(both.contains(':') && both.contains('.'));
    assert(forall|c: char| both.contains(c) ==> c == ':' || c == '.');
    assert(forall|c: char| dot.contains(c) ==> c == '.');
    assert(dot[0] == '.');
    lemma_pieces_none(m, both);
    let s1 = m + seq![':'] + b;
    lemma_pieces_append(m, ':', b, both);
    let s2 = s1 + seq![':'] + d;
    lemma_pieces_append(s1, ':', d, both);
    let s3 = s2 + seq!['.'] + f;
    lemma_pieces_append(s2, '.', f, both);
    assert(":"@ =~= seq![':']);
    assert("."@ =~= seq!['.']);
    assert(s =~= s3);
    assert(pieces(s, both) =~= seq![m, b, d, f]);
    assert forall|i: int| 0 <= i < s2.len() implies !dot.contains(#[trigger] s2[i]) by {
        if i < m.len() {
            assert(s2[i] == m[i]);
        } else if i == m.len() {
            assert(s2[i] == ':');
        } else if i < s1.len() {
            assert(s2[i] == b[i - m.len() - 1]);
        } else if i == s1.len() {
            assert(s2[i] == ':');
        } else {
            assert(s2[i] == d[i - s1.len() - 1]);
        }
    }
    lemma_pieces_none(s2, dot);
    lemma_pieces_append(s2, '.', f, dot);
    assert(pieces(s, dot).len() == 2);
}

proof fn lemma_hex_width(n: nat)
    ensures
        n < 0x10 ==> number_text(n, 16).len() == 1,
        n < 0x100 ==> number_text(n, 16).len() <= 2,
        n < 0x1_0000 ==> number_text(n, 16).len() <= 4,
{
    reveal_with_fuel(number_text, 5);
}

/// An address is written as four hexadecimal digits, a colon, two digits, a colon, two
/// digits, a dot and the function.
pub proof fn law_address_is_written_in_columns(a: PciAddress)
    ensures
        ({
            let s = address_text(a);
            &&& s.len() == if a.function < 16 {
                12int
            } else {
                13int
            }
            &&& s[4] == ':' && s[7] == ':' && s[10] == '.'
            &&& unsigned_value(s.take(4), 16, 0xffff) == Ok::<nat, crate::number::IntError>(
                a.domain as nat,
            )
            &&& unsigned_value(s.subrange(5, 7), 16, 0xff) == Ok::<nat, crate::number::IntError>(
                a.bus as nat,
            )
            &&& unsigned_value(s.subrange(8, 10), 16, 0xff) == Ok::<nat, crate::number::IntError>(
                a.device as nat,
            )
            &&& unsigned_value(s.skip(11), 16, 0xff) == Ok::<nat, crate::number::IntError>(
                a.function as nat,
            )
        }),
{
    reveal_strlit(":");
    reveal_strlit(".");
    let m = hex_text(a.domain as nat, 4);
    let b = hex_text(a.bus as nat, 2);
    let d = hex_text(a.device as nat, 2);
    let f = hex_text(a.function as nat, 1);
    lemma_hex_width(a.domain as nat);
    lemma_hex_width(a.bus as nat);
    lemma_hex_width(a.device as nat);
    lemma_hex_width(a.function as nat);
    reveal_with_fuel(number_text, 3);
    assert(m.len() == 4 && b.len() == 2 && d.len() == 2);
    lemma_field_round_trip(a.domain as nat, 4, 0xffff);
    lemma_field_round_trip(a.bus as nat, 2, 0xff);
    lemma_field_round_trip(a.device as nat, 2, 0xff);
    lemma_field_round_trip(a.function as nat, 1, 0xff);
    let s = address_text(a);
    assert(f.len() == if a.function < 16 {
        1int
    } else {
        2int
    });
    assert(s.take(4) =~= m);
    assert(s.subrange(5, 7) =~= b);
    assert(s.subrange(8, 10) =~= d);
    assert(s.skip(11) =~= f);
}

/// Where the domain is 0, the address is read as well from its text without the
/// domain.
pub proof fn law_domain_may_be_left_out(a: PciAddress)
    requires
        a.domain == 0,
    ensures
        parsed_address(address_text(a).skip(5)) == Ok::<PciAddress, PciErrorView>(a),
{
    law_address_is_written_in_columns(a);
    reveal_strlit(":");
    reveal_strlit(".");
    let m = hex_text(a.domain as nat, 4);
    let b = hex_text(a.bus as nat, 2);
    let d = hex_text(a.device as nat, 2);
    let f = hex_text(a.function as nat, 1);
    lemma_hex_width(a.domain as nat);
    lemma_field_round_trip(a.bus as nat, 2, 0xff);
    lemma_field_round_trip(a.device as nat, 2, 0xff);
    lemma_field_round_trip(a.function as nat, 1, 0xff);
    let s = address_text(a).skip(5);
    let both = seq![':', '.'];
    let dot = seq!['.'];
    assert(both[0] == ':' && both[1] == '.');
    assert(both.contains(':') && both.contains('.'));
    assert(forall|c: char| both.contains(c) ==> c == ':' || c == '.');
    assert(forall|c: char| dot.contains(c) ==> c == '.');
    assert(dot[0] == '.');
    lemma_pieces_none(b, both);
    let s1 = b + seq![':'] + d;
    lemma_pieces_append(b, ':', d, both);
    let s2 = s1 + seq!['.'] + f;
    lemma_pieces_append(s1, '.', f, both);
    assert(":"@ =~= seq![':']);
    assert("."@ =~= seq!['.']);
    assert(m.len() == 4);
    assert(s =~= s2);
    assert(pieces(s, both) =~= seq![b, d, f]);
    assert forall|i: int| 0 <= i < s1.len() implies !dot.contains(#[trigger] s1[i]) by {
        if i < b.len() {
            assert(s1[i] == b[i]);
        } else if i == b.len() {
            assert(s1[i] == ':');
        } else {
            assert(s1[i] == d[i - b.len() - 1]);
        }
    }
    lemma_pieces_none(s1, dot);
    lemma_pieces_append(s1, '.', f, dot);
}

/// A text without a dot, or with more than one, is no address.
pub proof fn law_address_has_one_dot(a: Seq<char>, b: Seq<char>, c: Seq<char>)
    requires
        forall|i: int| 0 <= i < a.len() ==> #[trigger] a[i] != '.',
        forall|i: int| 0 <= i < b.len() ==> #[trigger] b[i] != '.',
    ensures
        parsed_address(a) is Err,
        parsed_address(a + seq!['.'] + b + seq!['.'] + c) is Err,
{
    let dot = seq!['.'];
    assert(forall|x: char| dot.contains(x) ==> x == '.');
    lemma_pieces_none(a, dot);
    let s = a + dot + b + dot + c;
    crate::split::law_cutting_undoes_joining(a, '.', b + dot + c);
    crate::split::law_cutting_undoes_joining(b, '.', c);
    assert(s =~= a + dot + (b + dot + c));
    lemma_one_piece_at_least(c, dot);
}

proof fn lemma_one_piece_at_least(s: Seq<char>, seps: Seq<char>)
    ensures
        pieces(s, seps).len() > 0,
    decreases s.len(),
{
    if s.len() > 0 {
        lemma_one_piece_at_least(s.drop_last(), seps);
    }
}

} // verus!
