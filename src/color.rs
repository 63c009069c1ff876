//! Hex colour text: reading two-digit hex channels and `#rrggbb` colours,
//! and writing colours back in that form.
use vstd::prelude::*;
use vstd::string::{StringExecFns, StringSliceAdditionalSpecFns};
use vstd::utf8::is_char_boundary;

verus! {

/// The value of one ASCII hex digit, if `b` is one.
pub open spec fn hex_digit(b: u8) -> Option<nat> {
    if 0x30 <= b <= 0x39 {
        Some((b - 0x30) as nat)
    } else if 0x61 <= b <= 0x66 {
        Some((b - 0x61 + 10) as nat)
    } else if 0x41 <= b <= 0x46 {
        Some((b - 0x41 + 10) as nat)
    } else {
        None
    }
}

/// Two bytes read as an unsigned base-16 number, the way integer parsing in
/// base 16 reads them: two digits, or a `+` sign followed by one digit.
pub open spec fn hex_pair(a: u8, b: u8) -> Option<nat> {
    match (hex_digit(a), hex_digit(b)) {
        (Some(x), Some(y)) => Some(16 * x + y),
        (None, Some(y)) => if a == 0x2b { Some(y) } else { None },
        _ => None,
    }
}

fn digit_value(b: u8) -> (r: Option<u8>)
    ensures
        r matches Some(v) ==> hex_digit(b) == Some(v as nat),
        r is None ==> hex_digit(b) is None,
        r matches Some(v) ==> v < 16,
{
    if 0x30 <= b && b <= 0x39 {
        Some(b - 0x30)
    } else if 0x61 <= b && b <= 0x66 {
        Some(b - 0x61 + 10)
    } else if 0x41 <= b && b <= 0x46 {
        Some(b - 0x41 + 10)
    } else {
        None
    }
}

/// Reads the two bytes of `hex` at `start` as a hex number, giving 0 where
/// they are not one. The two bytes must form a whole slice of the text.
pub fn parse_hex(hex: &str, start: usize) -> (r: u8)
    requires
        start + 2 <= hex.spec_bytes().len(),
        is_char_boundary(hex.spec_bytes(), start as int),
        is_char_boundary(hex.spec_bytes(), start + 2),
    ensures
        r as nat == match hex_pair(hex.spec_bytes()[start as int], hex.spec_bytes()[start + 1]) {
            Some(v) => v,
            None => 0,
        },
{
    let b = hex.as_bytes();
    match pair_value(b[start], b[start + 1]) {
        Some(v) => v,
        None => 0,
    }
}

fn pair_value(hi: u8, lo: u8) -> (r: Option<u8>)
    ensures
        r matches Some(v) ==> hex_pair(hi, lo) == Some(v as nat),
        r is None ==> hex_pair(hi, lo) is None,
{
    match (digit_value(hi), digit_value(lo)) {
        (Some(x), Some(y)) => Some(16 * x + y),
        (None, Some(y)) => if hi == 0x2b { Some(y) } else { None },
        _ => None,
    }
}

/// `bs` without its leading `#` bytes.
pub open spec fn strip_hashes(bs: Seq<u8>) -> Seq<u8>
    decreases bs.len(),
{
    if bs.len() > 0 && bs[0] == 0x23 {
        strip_hashes(bs.drop_first())
    } else {
        bs
    }
}

/// The colour that the text with bytes `bs` names: after any leading `#`,
/// exactly six bytes read as three hex channels.
pub open spec fn color_of(bs: Seq<u8>) -> Option<(u8, u8, u8)> {
    let t = strip_hashes(bs);
    if t.len() != 6 {
        None
    } else {
        match (hex_pair(t[0], t[1]), hex_pair(t[2], t[3]), hex_pair(t[4], t[5])) {
            (Some(r), Some(g), Some(b)) => Some((r as u8, g as u8, b as u8)),
            _ => None,
        }
    }
}

/// Reads a colour written `#rrggbb` (any number of leading `#`, including
/// none), as red, green and blue channels.
pub fn parse_color(hex: &str) -> (r: Option<(u8, u8, u8)>)
    ensures
        r == color_of(hex.spec_bytes()),
{
    let b = hex.as_bytes();
    let n = b.len();
    let mut i: usize = 0;
    assert(b@.subrange(0, n as int) =~= b@);
    while i < n && b[i] == 0x23
        invariant
            i <= n,
            n == b@.len(),
            strip_hashes(b@) == strip_hashes(b@.subrange(i as int, n as int)),
        decreases n - i,
    {
        assert(b@.subrange(i as int, n as int).drop_first() =~= b@.subrange(i + 1, n as int));
        i = i + 1;
    }
    let ghost t = b@.subrange(i as int, n as int);
    assert(strip_hashes(t) == t);
    if n - i != 6 {
        return None;
    }
    let red = pair_value(b[i], b[i + 1]);
    let green = pair_value(b[i + 2], b[i + 3]);
    let blue = pair_value(b[i + 4], b[i + 5]);
    assert(t[0] == b@[i as int] && t[1] == b@[i + 1] && t[2] == b@[i + 2]);
    assert(t[3] == b@[i + 3] && t[4] == b@[i + 4] && t[5] == b@[i + 5]);
    match (red, green, blue) {
        (Some(x), Some(y), Some(z)) => Some((x, y, z)),
        _ => None,
    }
}

/// The lower-case hex digit for `n`, below 16.
pub open spec fn hex_char(n: nat) -> char {
    seq!['0', '1', '2', '3', '4', '5', '6', '7', '8', '9', 'a', 'b', 'c', 'd', 'e', 'f'][n as int]
}

/// The two lower-case hex digits of `x`.
pub open spec fn hex_byte(x: u8) -> Seq<char> {
    seq![hex_char((x / 16) as nat), hex_char((x % 16) as nat)]
}

/// A colour written `#rrggbb` in lower case.
pub open spec fn hex_color(r: u8, g: u8, b: u8) -> Seq<char> {
    seq!['#'] + hex_byte(r) + hex_byte(g) + hex_byte(b)
}

fn digit_text(n: u8) -> (r: &'static str)
    requires
        n < 16,
    ensures
        r@ == seq![hex_char(n as nat)],
{
    let digits = "0123456789abcdef";
    proof {
        reveal_strlit("0123456789abcdef");
    }
    let r = digits.substring_char(n as usize, n as usize + 1);
    assert(r@ =~= seq![hex_char(n as nat)]);
    r
}

fn push_byte(s: &mut String, x: u8)
    ensures
        final(s)@ == old(s)@ + hex_byte(x),
{
    s.append(digit_text(x / 16));
    s.append(digit_text(x % 16));
    assert(s@ =~= old(s)@ + hex_byte(x));
}

/// Writes a colour as `#rrggbb`, in lower case.
pub fn rgb_to_hex(r: u8, g: u8, b: u8) -> (s: String)
    ensures
        s@ == hex_color(r, g, b),
{
    let mut s = "#".to_owned();
    proof {
        reveal_strlit("#");
    }
    push_byte(&mut s, r);
    push_byte(&mut s, g);
    push_byte(&mut s, b);
    assert(s@ =~= hex_color(r, g, b));
    s
}

} // verus!
