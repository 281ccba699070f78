//! RFID tag identifiers: four raw bytes, written as eight upper-case hex digits.
use vstd::prelude::*;

use crate::text::{chars_of, is_space, push_char, trim, trim_bounds, trim_end, trim_start};

verus! {

/// The upper-case hex digit of a value below sixteen.
pub open spec fn hex_digit(n: u8) -> char {
    seq!['0', '1', '2', '3', '4', '5', '6', '7', '8', '9', 'A', 'B', 'C', 'D', 'E', 'F'][n as int]
}

/// The value of a hex digit of either case, if `c` is one.
pub open spec fn hex_value(c: char) -> Option<u8> {
    let u = c as u32;
    if 0x30 <= u <= 0x39 {
        Some((u - 0x30) as u8)
    } else if 0x41 <= u <= 0x46 {
        Some((u - 0x37) as u8)
    } else if 0x61 <= u <= 0x66 {
        Some((u - 0x57) as u8)
    } else {
        None
    }
}

/// Two upper-case hex digits for a byte.
pub open spec fn byte_hex(b: u8) -> Seq<char> {
    seq![hex_digit(b / 16), hex_digit(b % 16)]
}

/// The eight-digit text of four bytes.
pub open spec fn bytes_hex(b: Seq<u8>) -> Seq<char> {
    byte_hex(b[0]) + byte_hex(b[1]) + byte_hex(b[2]) + byte_hex(b[3])
}

/// `s` is eight hex digits.
pub open spec fn is_hex_id(s: Seq<char>) -> bool {
    &&& s.len() == 8
    &&& forall|i: int| 0 <= i < 8 ==> (#[trigger] hex_value(s[i])) is Some
}

/// The byte that the digits at `2 * k` and `2 * k + 1` of `s` stand for.
pub open spec fn hex_byte_at(s: Seq<char>, k: int) -> u8 {
    (hex_value(s[2 * k])->0 * 16 + hex_value(s[2 * k + 1])->0) as u8
}

/// The four bytes that eight hex digits stand for.
pub open spec fn hex_bytes(s: Seq<char>) -> Seq<u8> {
    seq![hex_byte_at(s, 0), hex_byte_at(s, 1), hex_byte_at(s, 2), hex_byte_at(s, 3)]
}

/// A tag's identity: its four UID bytes.
#[derive(Clone, Copy, Debug, PartialEq, Eq, Hash)]
pub struct TagId {
    pub bytes: [u8; 4],
}

impl TagId {
    /// The canonical text of this tag.
    pub open spec fn hex(&self) -> Seq<char> {
        bytes_hex(self.bytes@)
    }

    pub fn from_uid(uid: [u8; 4]) -> (r: TagId)
        ensures
            r.bytes == uid,
    {
        TagId { bytes: uid }
    }

    /// Reads a tag from its hex text, ignoring white space around it; either case is accepted.
    pub fn from_hex_str(s: &str) -> (r: Result<TagId, String>)
        ensures
            r is Ok <==> is_hex_id(trim(s@)),
            r is Ok ==> r->Ok_0.bytes@ == hex_bytes(trim(s@)),
    {
        let v = chars_of(s);
        let (lo, hi) = trim_bounds(&v, 0, v.len());
        assert(v@.subrange(0, v.len() as int) =~= s@);
        let ghost t = trim(s@);
        if hi - lo != 8 {
            return Err("RFID tag IDs must be 8 hexadecimal characters".to_owned());
        }
        let mut out: [u8; 4] = [0u8; 4];
        let mut k: usize = 0;
        while k < 4
            invariant
                hi - lo == 8,
                lo <= hi <= v.len(),
                t == v@.subrange(lo as int, hi as int),
                t == trim(s@),
                k <= 4,
                forall|i: int| 0 <= i < 2 * k ==> (#[trigger] hex_value(t[i])) is Some,
                forall|j: int| 0 <= j < k ==> out@[j] == hex_byte_at(t, j),
            decreases 4 - k,
        {
            let hi_digit = digit_value(v[lo + 2 * k]);
            let lo_digit = digit_value(v[lo + 2 * k + 1]);
            assert(t[2 * k as int] == v@[lo + 2 * k]);
            assert(t[2 * k + 1] == v@[lo + 2 * k + 1]);
            match (hi_digit, lo_digit) {
                (Some(h), Some(l)) => {
                    out[k] = h * 16 + l;
                },
                _ => {
                    assert(hex_value(t[2 * k as int]) is None || hex_value(t[2 * k + 1]) is None);
                    return Err("invalid digit found in string".to_owned());
                },
            }
            k = k + 1;
        }
        assert(out@ =~= hex_bytes(t));
        Ok(TagId { bytes: out })
    }

    /// The eight upper-case hex digits of this tag.
    pub fn to_string(&self) -> (r: String)
        ensures
            r@ == self.hex(),
    {
        let mut r = String::new();
        let mut k: usize = 0;
        while k < 4
            invariant
                k <= 4,
                r@ == bytes_hex(self.bytes@).subrange(0, 2 * k),
            decreases 4 - k,
        {
            let b = self.bytes[k];
            push_char(&mut r, digit_char(b / 16));
            push_char(&mut r, digit_char(b % 16));
            assert(r@ =~= bytes_hex(self.bytes@).subrange(0, 2 * k + 2));
            k = k + 1;
        }
        assert(r@ =~= bytes_hex(self.bytes@));
        r
    }

    /// Same tag: the bytes agree.
    pub fn same(&self, other: &TagId) -> (r: bool)
        ensures
            r == (self.bytes@ == other.bytes@),
    {
        let r = self.bytes[0] == other.bytes[0] && self.bytes[1] == other.bytes[1]
            && self.bytes[2] == other.bytes[2] && self.bytes[3] == other.bytes[3];
        if r {
            assert(self.bytes@ =~= other.bytes@);
        }
        r
    }
}

/// The tag whose bytes are `b`.
pub open spec fn tag_of(b: Seq<u8>) -> TagId {
    choose|t: TagId| t.bytes@ == b
}

proof fn lemma_digit(n: u8)
    requires
        n < 16,
    ensures
        hex_value(hex_digit(n)) == Some(n),
        !is_space(hex_digit(n)),
{
}

/// A tag's hex text is eight hex digits without white space, and reads back as the
/// tag's bytes, and so as the tag.
pub proof fn lemma_hex_round_trip(t: TagId)
    ensures
        is_hex_id(t.hex()),
        trim(t.hex()) == t.hex(),
        hex_bytes(t.hex()) == t.bytes@,
        tag_of(hex_bytes(t.hex())) == t,
{
    let b = t.bytes@;
    let h = seq![
        hex_digit(b[0] / 16),
        hex_digit(b[0] % 16),
        hex_digit(b[1] / 16),
        hex_digit(b[1] % 16),
        hex_digit(b[2] / 16),
        hex_digit(b[2] % 16),
        hex_digit(b[3] / 16),
        hex_digit(b[3] % 16),
    ];
    assert(t.hex() =~= h);
    lemma_digit(b[0] / 16);
    lemma_digit(b[0] % 16);
    lemma_digit(b[1] / 16);
    lemma_digit(b[1] % 16);
    lemma_digit(b[2] / 16);
    lemma_digit(b[2] % 16);
    lemma_digit(b[3] / 16);
    lemma_digit(b[3] % 16);
    assert(trim_start(h) == h);
    assert(trim_end(h) == h);
    assert(hex_bytes(h) =~= b);
    let c = tag_of(b);
    assert(c.bytes@ == b);
    assert(c.bytes =~= t.bytes);
}

impl std::str::FromStr for TagId {
    type Err = String;

    fn from_str(s: &str) -> Result<TagId, String> {
        TagId::from_hex_str(s)
    }
}

/// The value of one hex digit of either case.
pub fn digit_value(c: char) -> (r: Option<u8>)
    ensures
        r == hex_value(c),
{
    let u = c as u32;
    if 0x30 <= u && u <= 0x39 {
        Some((u - 0x30) as u8)
    } else if 0x41 <= u && u <= 0x46 {
        Some((u - 0x37) as u8)
    } else if 0x61 <= u && u <= 0x66 {
        Some((u - 0x57) as u8)
    } else {
        None
    }
}

/// The upper-case hex digit of a value below sixteen.
pub fn digit_char(n: u8) -> (c: char)
    requires
        n < 16,
    ensures
        c == hex_digit(n),
{
    match n {
        0 => '0',
        1 => '1',
        2 => '2',
        3 => '3',
        4 => '4',
        5 => '5',
        6 => '6',
        7 => '7',
        8 => '8',
        9 => '9',
        10 => 'A',
        11 => 'B',
        12 => 'C',
        13 => 'D',
        14 => 'E',
        _ => 'F',
    }
}

} // verus!
