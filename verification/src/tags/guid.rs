//! The identifier of a note: 128 bits, written as 32 hexadecimal digits in
//! five groups with hyphens between them.

use crate::error::FormatError;
use crate::text::{chars_of, string_of};
use vstd::prelude::*;

verus! {

/// A 128-bit identifier, held as its sixteen bytes.
#[derive(Debug, PartialEq, Eq, Clone, Copy)]
pub struct Guid {
    bytes: [u8; 16],
}

impl View for Guid {
    type V = Seq<u8>;

    closed spec fn view(&self) -> Seq<u8> {
        self.bytes@
    }
}

/// The value of a hexadecimal digit of either case; 16 for any other
/// character.
pub open spec fn hex_value(c: char) -> nat {
    if c == '0' {
        0
    } else if c == '1' {
        1
    } else if c == '2' {
        2
    } else if c == '3' {
        3
    } else if c == '4' {
        4
    } else if c == '5' {
        5
    } else if c == '6' {
        6
    } else if c == '7' {
        7
    } else if c == '8' {
        8
    } else if c == '9' {
        9
    } else if c == 'a' || c == 'A' {
        10
    } else if c == 'b' || c == 'B' {
        11
    } else if c == 'c' || c == 'C' {
        12
    } else if c == 'd' || c == 'D' {
        13
    } else if c == 'e' || c == 'E' {
        14
    } else if c == 'f' || c == 'F' {
        15
    } else {
        16
    }
}

/// The lower-case hexadecimal digit that stands for `n`, for `n` below 16.
pub open spec fn hex_char(n: nat) -> char {
    if n == 0 {
        '0'
    } else if n == 1 {
        '1'
    } else if n == 2 {
        '2'
    } else if n == 3 {
        '3'
    } else if n == 4 {
        '4'
    } else if n == 5 {
        '5'
    } else if n == 6 {
        '6'
    } else if n == 7 {
        '7'
    } else if n == 8 {
        '8'
    } else if n == 9 {
        '9'
    } else if n == 10 {
        'a'
    } else if n == 11 {
        'b'
    } else if n == 12 {
        'c'
    } else if n == 13 {
        'd'
    } else if n == 14 {
        'e'
    } else {
        'f'
    }
}

/// A hexadecimal digit of either case.
pub open spec fn is_hex(c: char) -> bool {
    hex_value(c) < 16
}

/// A hexadecimal digit as it is written: a decimal digit or one of `a` to `f`.
pub open spec fn is_lower_hex(c: char) -> bool {
    is_hex(c) && hex_char(hex_value(c)) == c
}

/// Where a hyphen stands in the hyphenated form.
pub open spec fn is_hyphen_place(j: int) -> bool {
    j == 8 || j == 13 || j == 18 || j == 23
}

/// The place in the hyphenated form of the hexadecimal digit number `k`.
pub open spec fn hex_place(k: int) -> int {
    if k < 8 {
        k
    } else if k < 12 {
        k + 1
    } else if k < 16 {
        k + 2
    } else if k < 20 {
        k + 3
    } else {
        k + 4
    }
}

/// The number of the hexadecimal digit that stands at place `j`.
pub open spec fn hex_number(j: int) -> int {
    if j < 8 {
        j
    } else if j < 13 {
        j - 1
    } else if j < 18 {
        j - 2
    } else if j < 23 {
        j - 3
    } else {
        j - 4
    }
}

/// The hyphenated form: 36 characters, hyphens at places 8, 13, 18 and 23,
/// hexadecimal digits of either case everywhere else.
pub open spec fn is_hyphenated(s: Seq<char>) -> bool {
    &&& s.len() == 36
    &&& forall|j: int|
        0 <= j < 36 ==> if is_hyphen_place(j) {
            #[trigger] s[j] == '-'
        } else {
            is_hex(s[j])
        }
}

/// The hyphenated form with lower-case digits only: the form that is written.
pub open spec fn is_plain_hyphenated(s: Seq<char>) -> bool {
    &&& is_hyphenated(s)
    &&& forall|j: int| 0 <= j < 36 && !is_hyphen_place(j) ==> is_lower_hex(#[trigger] s[j])
}

/// The byte number `i` that a hyphenated text holds: two digits, the high
/// one first.
pub open spec fn hyphenated_byte(s: Seq<char>, i: int) -> u8 {
    (hex_value(s[hex_place(2 * i)]) * 16 + hex_value(s[hex_place(2 * i + 1)])) as u8
}

/// The sixteen bytes that a hyphenated text holds.
pub open spec fn hyphenated_bytes(s: Seq<char>) -> Seq<u8> {
    Seq::new(16, |i: int| hyphenated_byte(s, i))
}

/// The character at place `j` of the hyphenated form of `b`.
pub open spec fn hyphenated_char(b: Seq<u8>, j: int) -> char {
    if is_hyphen_place(j) {
        '-'
    } else {
        let k = hex_number(j);
        if k % 2 == 0 {
            hex_char((b[k / 2] / 16) as nat)
        } else {
            hex_char((b[k / 2] % 16) as nat)
        }
    }
}

/// The hyphenated form of sixteen bytes, in lower case.
pub open spec fn hyphenated_text(b: Seq<u8>) -> Seq<char> {
    Seq::new(36, |j: int| hyphenated_char(b, j))
}

/// The form of an identifier that was made at random: sixteen bytes, of
/// which the high half of byte 6 is 4, the mark of the fourth version, and
/// byte 8 begins with the bits 1 and 0. The other 122 bits are free.
pub open spec fn is_random_form(b: Seq<u8>) -> bool {
    b.len() == 16 && b[6] / 16 == 4 && b[8] / 64 == 2
}

/// The identifier that `s` denotes.
pub open spec fn parse_guid(s: Seq<char>) -> Option<Seq<u8>> {
    if is_hyphenated(s) {
        Some(hyphenated_bytes(s))
    } else {
        None
    }
}

/// The text of an identifier.
pub open spec fn format_guid(b: Seq<u8>) -> Seq<char> {
    hyphenated_text(b)
}

/// Writing an identifier that was read from a hyphenated text in lower case
/// gives that text.
pub proof fn lemma_guid_round_trip(s: Seq<char>)
    requires
        is_plain_hyphenated(s),
    ensures
        parse_guid(s) is Some,
        format_guid(parse_guid(s).unwrap()) == s,
{
    let b = hyphenated_bytes(s);
    let t = hyphenated_text(b);
    assert forall|j: int| 0 <= j < 36 implies t[j] == s[j] by {
        if is_hyphen_place(j) {
            assert(s[j] == '-');
        } else {
            let k = hex_number(j);
            let i = k / 2;
            assert(0 <= k < 32);
            assert(hex_place(k) == j);
            let hi = hex_place(2 * i);
            let lo = hex_place(2 * i + 1);
            assert(0 <= hi < 36 && !is_hyphen_place(hi));
            assert(0 <= lo < 36 && !is_hyphen_place(lo));
            assert(is_lower_hex(s[hi]) && is_lower_hex(s[lo]));
            let h = hex_value(s[hi]);
            let l = hex_value(s[lo]);
            assert(b[i] == (h * 16 + l) as u8);
            assert((h * 16 + l) / 16 == h && (h * 16 + l) % 16 == l);
            if k % 2 == 0 {
                assert(hi == j);
            } else {
                assert(lo == j);
            }
        }
    }
    assert(t =~= s);
}

/// `uuid::Uuid::parse_str`. A text in hyphenated form is accepted, and its
/// bytes are those that its digits give, two to the byte. Of other texts
/// nothing is said here.
#[verifier::external_body]
fn read_hyphenated(s: &str) -> (r: Option<[u8; 16]>)
    ensures
        is_hyphenated(s@) ==> r is Some,
        r matches Some(b) ==> (is_hyphenated(s@) ==> b@ == hyphenated_bytes(s@)),
{
    match uuid::Uuid::parse_str(s) {
        Ok(u) => Some(u.into_bytes()),
        Err(_) => None,
    }
}

/// `uuid::Uuid::from_bytes` and the `Display` of the result: the hyphenated
/// form in lower case.
#[verifier::external_body]
fn write_hyphenated(bytes: &[u8; 16]) -> (r: String)
    ensures
        r@ == hyphenated_text(bytes@),
{
    uuid::Uuid::from_bytes(*bytes).to_string()
}

/// `uuid::Uuid::new_v4`: sixteen bytes that are random but for six bits,
/// which say that the identifier was made at random: the high half of byte 6
/// is 4, and byte 8 begins with the bits 1 and 0.
#[verifier::external_body]
fn random_bytes() -> (r: [u8; 16])
    ensures
        is_random_form(r@),
{
    uuid::Uuid::new_v4().into_bytes()
}

/// Whether `c` is a hexadecimal digit of either case.
pub fn is_hex_digit(c: char) -> (b: bool)
    ensures
        b == is_hex(c),
{
    ('0' <= c && c <= '9') || ('a' <= c && c <= 'f') || ('A' <= c && c <= 'F')
}

/// Whether `s` is in hyphenated form.
pub fn check_hyphenated(s: &Vec<char>) -> (b: bool)
    ensures
        b == is_hyphenated(s@),
{
    if s.len() != 36 {
        return false;
    }
    let mut j: usize = 0;
    while j < 36
        invariant
            j <= 36,
            s.len() == 36,
            forall|i: int|
                0 <= i < j ==> if is_hyphen_place(i) {
                    #[trigger] s@[i] == '-'
                } else {
                    is_hex(s@[i])
                },
        decreases 36 - j,
    {
        let c = s[j];
        let ok = if j == 8 || j == 13 || j == 18 || j == 23 {
            c == '-'
        } else {
            is_hex_digit(c)
        };
        if !ok {
            assert(!is_hyphenated(s@)) by {
                if is_hyphenated(s@) {
                    assert(s@[j as int] == c);
                }
            }
            return false;
        }
        j += 1;
    }
    true
}

impl Guid {
    /// A fresh identifier, made at random and marked as such. Which one it
    /// is depends on chance.
    pub fn new() -> (r: Guid)
        ensures
            is_random_form(r@),
    {
        Guid { bytes: random_bytes() }
    }

    /// Reads an identifier from its characters.
    pub fn from_chars(s: &Vec<char>) -> (r: Option<Guid>)
        ensures
            match r {
                Some(g) => parse_guid(s@) == Some(g@),
                None => parse_guid(s@) is None,
            },
    {
        if !check_hyphenated(s) {
            return None;
        }
        match read_hyphenated(string_of(s).as_str()) {
            Some(bytes) => Some(Guid { bytes }),
            None => None,
        }
    }

    /// Reads an identifier in hyphenated form; any other text is an error.
    pub fn from_str(s: &str) -> (r: Result<Guid, FormatError>)
        ensures
            match r {
                Ok(g) => parse_guid(s@) == Some(g@),
                Err(e) => parse_guid(s@) is None && e == FormatError::BadGuid,
            },
    {
        match Guid::from_chars(&chars_of(s)) {
            Some(g) => Ok(g),
            None => Err(FormatError::BadGuid),
        }
    }

    /// The characters of the identifier.
    pub fn to_chars(&self) -> (r: Vec<char>)
        ensures
            r@ == format_guid(self@),
    {
        chars_of(write_hyphenated(&self.bytes).as_str())
    }

    /// The text of the identifier: hyphenated, in lower case.
    pub fn to_string(&self) -> (r: String)
        ensures
            r@ == format_guid(self@),
    {
        write_hyphenated(&self.bytes)
    }
}

} // verus!
