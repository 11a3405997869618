//! IP addresses as plain integers, and the dotted-decimal text of an IPv4
//! address.

use vstd::prelude::*;
use vstd::arithmetic::div_mod::lemma_fundamental_div_mod_converse;
use vstd::string::{StrSliceExecFns, StringExecFns};

verus! {

/// An address bound to an interface. An IPv4 address is its four octets read
/// as one big-endian number, so `10.0.0.1` is `0x0A00_0001`.
#[derive(Clone, Copy, Debug, PartialEq, Eq, Structural)]
pub enum IpAddress {
    V4(u32),
    V6(u128),
}

/// The number that stands for the IPv4 address `a.b.c.d`.
pub open spec fn ipv4_of(a: u8, b: u8, c: u8, d: u8) -> u32 {
    (a as int * 16777216 + b as int * 65536 + c as int * 256 + d as int) as u32
}

/// The `k`-th octet of `addr`, counted from the left, `k` from 0 to 3.
pub open spec fn octet_of(addr: u32, k: int) -> u8 {
    if k == 0 {
        (addr / 16777216) as u8
    } else if k == 1 {
        (addr / 65536 % 256) as u8
    } else if k == 2 {
        (addr / 256 % 256) as u8
    } else {
        (addr % 256) as u8
    }
}

/// Builds the IPv4 address `a.b.c.d`.
pub fn ipv4(a: u8, b: u8, c: u8, d: u8) -> (addr: u32)
    ensures
        addr == ipv4_of(a, b, c, d),
{
    (a as u32) * 16777216 + (b as u32) * 65536 + (c as u32) * 256 + (d as u32)
}

/// The four octets of `addr`, leftmost first.
pub fn octets(addr: u32) -> (r: (u8, u8, u8, u8))
    ensures
        r.0 == octet_of(addr, 0),
        r.1 == octet_of(addr, 1),
        r.2 == octet_of(addr, 2),
        r.3 == octet_of(addr, 3),
        ipv4_of(r.0, r.1, r.2, r.3) == addr,
{
    (
        (addr / 16777216) as u8,
        (addr / 65536 % 256) as u8,
        (addr / 256 % 256) as u8,
        (addr % 256) as u8,
    )
}

/// The character that writes the decimal digit `n`, for `n` from 0 to 9.
pub open spec fn digit_char(n: int) -> char {
    (48 + n) as char
}

/// An octet in decimal, without leading zeros.
#[verifier::opaque]
pub open spec fn octet_text(n: u8) -> Seq<char> {
    if n < 10 {
        seq![digit_char(n as int)]
    } else if n < 100 {
        seq![digit_char(n as int / 10), digit_char(n as int % 10)]
    } else {
        seq![digit_char(n as int / 100), digit_char(n as int / 10 % 10), digit_char(n as int % 10)]
    }
}

/// The text `a.b.c.d`.
pub open spec fn dotted_quad(a: u8, b: u8, c: u8, d: u8) -> Seq<char> {
    octet_text(a) + seq!['.'] + octet_text(b) + seq!['.'] + octet_text(c) + seq!['.']
        + octet_text(d)
}

/// The one text that writes `addr`: four decimal octets, no leading zeros,
/// separated by dots.
pub open spec fn ipv4_text(addr: u32) -> Seq<char> {
    dotted_quad(octet_of(addr, 0), octet_of(addr, 1), octet_of(addr, 2), octet_of(addr, 3))
}

/// The address that `text` writes, if it writes one.
pub open spec fn parse_ipv4_model(text: Seq<char>) -> Option<u32> {
    if exists|addr: u32| ipv4_text(addr) == text {
        Some(choose|addr: u32| ipv4_text(addr) == text)
    } else {
        None
    }
}

/// The decimal digit at `pos`, if a digit stands there.
pub open spec fn digit_at(text: Seq<char>, pos: int) -> Option<int> {
    if 0 <= pos < text.len() && 48 <= text[pos] as int <= 57 {
        Some(text[pos] as int - 48)
    } else {
        None
    }
}

/// Reads at most three digits from `pos` on: the octet they write and how
/// many they are. A leading zero before another digit, or a value over 255,
/// reads as nothing.
#[verifier::opaque]
pub open spec fn scan_octet(text: Seq<char>, pos: int) -> Option<(u8, int)> {
    match digit_at(text, pos) {
        None => None,
        Some(d0) => match digit_at(text, pos + 1) {
            None => Some((d0 as u8, 1)),
            Some(d1) => if d0 == 0 {
                None
            } else {
                match digit_at(text, pos + 2) {
                    None => Some(((10 * d0 + d1) as u8, 2)),
                    Some(d2) => if 100 * d0 + 10 * d1 + d2 > 255 {
                        None
                    } else {
                        Some(((100 * d0 + 10 * d1 + d2) as u8, 3))
                    },
                }
            },
        },
    }
}

/// Whether a dot stands at `pos`.
pub open spec fn dot_at(text: Seq<char>, pos: int) -> bool {
    0 <= pos < text.len() && text[pos] == '.'
}

/// Reads `text` as four octets with a dot between each two and nothing
/// before, between or after.
pub open spec fn scan_quad(text: Seq<char>) -> Option<u32> {
    match scan_octet(text, 0) {
        None => None,
        Some((a, la)) => if !dot_at(text, la) {
            None
        } else {
            match scan_octet(text, la + 1) {
                None => None,
                Some((b, lb)) => if !dot_at(text, la + 1 + lb) {
                    None
                } else {
                    match scan_octet(text, la + lb + 2) {
                        None => None,
                        Some((c, lc)) => if !dot_at(text, la + lb + lc + 2) {
                            None
                        } else {
                            match scan_octet(text, la + lb + lc + 3) {
                                None => None,
                                Some((d, ld)) => if la + lb + lc + ld + 3 == text.len() {
                                    Some(ipv4_of(a, b, c, d))
                                } else {
                                    None
                                },
                            }
                        },
                    }
                },
            }
        },
    }
}

/// An octet that was read is written by the digits it was read from.
proof fn lemma_scan_octet_sound(text: Seq<char>, pos: int)
    requires
        0 <= pos,
        scan_octet(text, pos) is Some,
    ensures
        ({
            let (n, len) = scan_octet(text, pos)->Some_0;
            &&& 1 <= len <= 3
            &&& pos + len <= text.len()
            &&& text.subrange(pos, pos + len) =~= octet_text(n)
        }),
{
    reveal(scan_octet);
    reveal(octet_text);
}

/// The text of an octet, wherever it stands before a dot or the end, reads
/// as that octet.
proof fn lemma_scan_octet_complete(text: Seq<char>, pos: int, n: u8)
    requires
        0 <= pos,
        pos + octet_text(n).len() <= text.len(),
        text.subrange(pos, pos + octet_text(n).len()) == octet_text(n),
        digit_at(text, pos + octet_text(n).len()) is None,
    ensures
        scan_octet(text, pos) == Some((n, octet_text(n).len() as int)),
{
    reveal(scan_octet);
    reveal(octet_text);
    assert(text.subrange(pos, pos + octet_text(n).len())[0] == text[pos]);
}

/// Splitting an address into octets undoes joining them.
proof fn lemma_octets_of_ipv4(a: u8, b: u8, c: u8, d: u8)
    ensures
        octet_of(ipv4_of(a, b, c, d), 0) == a,
        octet_of(ipv4_of(a, b, c, d), 1) == b,
        octet_of(ipv4_of(a, b, c, d), 2) == c,
        octet_of(ipv4_of(a, b, c, d), 3) == d,
{
    let addr: int = a as int * 16777216 + b as int * 65536 + c as int * 256 + d as int;
    lemma_fundamental_div_mod_converse(
        addr,
        16777216,
        a as int,
        b as int * 65536 + c as int * 256 + d as int,
    );
    lemma_fundamental_div_mod_converse(
        addr,
        65536,
        a as int * 256 + b as int,
        c as int * 256 + d as int,
    );
    lemma_fundamental_div_mod_converse(
        addr,
        256,
        a as int * 65536 + b as int * 256 + c as int,
        d as int,
    );
    lemma_fundamental_div_mod_converse(
        a as int * 65536 + b as int * 256 + c as int,
        256,
        a as int * 256 + b as int,
        c as int,
    );
}

/// What reads as an address is the text of that address.
proof fn lemma_scan_quad_sound(text: Seq<char>)
    requires
        scan_quad(text) is Some,
    ensures
        ipv4_text(scan_quad(text)->Some_0) == text,
{
    let (a, la) = scan_octet(text, 0)->Some_0;
    lemma_scan_octet_sound(text, 0);
    let (b, lb) = scan_octet(text, la + 1)->Some_0;
    lemma_scan_octet_sound(text, la + 1);
    let (c, lc) = scan_octet(text, la + lb + 2)->Some_0;
    lemma_scan_octet_sound(text, la + lb + 2);
    let (d, ld) = scan_octet(text, la + lb + lc + 3)->Some_0;
    lemma_scan_octet_sound(text, la + lb + lc + 3);
    lemma_octets_of_ipv4(a, b, c, d);
}

/// The text of an address reads as that address.
proof fn lemma_scan_quad_complete(addr: u32)
    ensures
        scan_quad(ipv4_text(addr)) == Some(addr),
{
    let a = octet_of(addr, 0);
    let b = octet_of(addr, 1);
    let c = octet_of(addr, 2);
    let d = octet_of(addr, 3);
    let ta = octet_text(a);
    let tb = octet_text(b);
    let tc = octet_text(c);
    let td = octet_text(d);
    let la = ta.len() as int;
    let lb = tb.len() as int;
    let lc = tc.len() as int;
    let ld = td.len() as int;
    let text = ipv4_text(addr);
    assert(text.subrange(0, la) =~= ta);
    lemma_scan_octet_complete(text, 0, a);
    assert(text.subrange(la + 1, la + 1 + lb) =~= tb);
    lemma_scan_octet_complete(text, la + 1, b);
    assert(text.subrange(la + lb + 2, la + lb + 2 + lc) =~= tc);
    lemma_scan_octet_complete(text, la + lb + 2, c);
    assert(text.subrange(la + lb + lc + 3, la + lb + lc + 3 + ld) =~= td);
    lemma_scan_octet_complete(text, la + lb + lc + 3, d);
}

/// Reading is the inverse of writing: a text reads as an address exactly
/// when it is the text of that address.
pub proof fn lemma_scan_quad_is_parse(text: Seq<char>)
    ensures
        scan_quad(text) == parse_ipv4_model(text),
{
    if scan_quad(text) is Some {
        lemma_scan_quad_sound(text);
        let found = choose|addr: u32| ipv4_text(addr) == text;
        lemma_scan_quad_complete(found);
    } else if exists|addr: u32| ipv4_text(addr) == text {
        let found = choose|addr: u32| ipv4_text(addr) == text;
        lemma_scan_quad_complete(found);
    }
}

/// Two addresses with the same text are the same address.
pub proof fn lemma_ipv4_text_injective(x: u32, y: u32)
    requires
        ipv4_text(x) == ipv4_text(y),
    ensures
        x == y,
{
    lemma_scan_quad_complete(x);
    lemma_scan_quad_complete(y);
}

/// Every address is what its own text parses to.
pub proof fn lemma_parse_ipv4_text(addr: u32)
    ensures
        parse_ipv4_model(ipv4_text(addr)) == Some(addr),
{
    lemma_scan_quad_complete(addr);
    lemma_scan_quad_is_parse(ipv4_text(addr));
}

/// The text of one decimal digit.
fn digit_text(d: u8) -> (r: &'static str)
    requires
        d < 10,
    ensures
        r@ == seq![digit_char(d as int)],
{
    proof {
        reveal_strlit("0");
        reveal_strlit("1");
        reveal_strlit("2");
        reveal_strlit("3");
        reveal_strlit("4");
        reveal_strlit("5");
        reveal_strlit("6");
        reveal_strlit("7");
        reveal_strlit("8");
        reveal_strlit("9");
    }
    let r = if d == 0 {
        "0"
    } else if d == 1 {
        "1"
    } else if d == 2 {
        "2"
    } else if d == 3 {
        "3"
    } else if d == 4 {
        "4"
    } else if d == 5 {
        "5"
    } else if d == 6 {
        "6"
    } else if d == 7 {
        "7"
    } else if d == 8 {
        "8"
    } else {
        "9"
    };
    r
}

/// Writes `n` in decimal at the end of `text`.
pub fn push_octet(text: &mut String, n: u8)
    ensures
        final(text)@ == old(text)@ + octet_text(n),
{
    proof {
        reveal(octet_text);
    }
    if n >= 100 {
        text.append(digit_text(n / 100));
    }
    if n >= 10 {
        text.append(digit_text(n / 10 % 10));
    }
    text.append(digit_text(n % 10));
}

/// Writes an IPv4 address as four decimal octets separated by dots.
pub fn format_ipv4(addr: u32) -> (text: String)
    ensures
        text@ == ipv4_text(addr),
{
    let (a, b, c, d) = octets(addr);
    let mut text = String::new();
    proof {
        reveal_strlit(".");
    }
    push_octet(&mut text, a);
    text.append(".");
    push_octet(&mut text, b);
    text.append(".");
    push_octet(&mut text, c);
    text.append(".");
    push_octet(&mut text, d);
    text
}

fn read_digit(text: &str, len: usize, pos: usize) -> (r: Option<u8>)
    requires
        len == text@.len(),
    ensures
        match digit_at(text@, pos as int) {
            Some(d) => r == Some(d as u8),
            None => r is None,
        },
{
    if pos >= len {
        return None;
    }
    let code: u32 = text.get_char(pos) as u32;
    if 48 <= code && code <= 57 {
        Some((code - 48) as u8)
    } else {
        None
    }
}

fn read_octet(text: &str, len: usize, pos: usize) -> (r: Option<(u8, usize)>)
    requires
        len == text@.len(),
        pos <= usize::MAX - 3,
    ensures
        match scan_octet(text@, pos as int) {
            Some((n, l)) => 1 <= l <= 3 && r == Some((n, l as usize)),
            None => r is None,
        },
{
    reveal(scan_octet);
    let d0: u8 = match read_digit(text, len, pos) {
        Some(d) => d,
        None => { return None; },
    };
    let d1: u8 = match read_digit(text, len, pos + 1) {
        Some(d) => d,
        None => { return Some((d0, 1)); },
    };
    if d0 == 0 {
        return None;
    }
    let d2: u8 = match read_digit(text, len, pos + 2) {
        Some(d) => d,
        None => { return Some((10 * d0 + d1, 2)); },
    };
    let value: u16 = 100 * (d0 as u16) + 10 * (d1 as u16) + (d2 as u16);
    if value > 255 {
        None
    } else {
        Some((value as u8, 3))
    }
}

fn read_dot(text: &str, len: usize, pos: usize) -> (r: bool)
    requires
        len == text@.len(),
    ensures
        r == dot_at(text@, pos as int),
{
    pos < len && text.get_char(pos) == '.'
}

/// Parses an IPv4 address written as four decimal octets separated by dots.
///
/// Only the canonical text is accepted: no leading zeros, no spaces, nothing
/// before or after.
pub fn parse_ipv4(text: &str) -> (r: Option<u32>)
    ensures
        r == parse_ipv4_model(text@),
{
    proof {
        lemma_scan_quad_is_parse(text@);
    }
    let len: usize = text.unicode_len();
    let (a, la) = match read_octet(text, len, 0) {
        Some(found) => found,
        None => { return None; },
    };
    if !read_dot(text, len, la) {
        return None;
    }
    let (b, lb) = match read_octet(text, len, la + 1) {
        Some(found) => found,
        None => { return None; },
    };
    if !read_dot(text, len, la + 1 + lb) {
        return None;
    }
    let (c, lc) = match read_octet(text, len, la + lb + 2) {
        Some(found) => found,
        None => { return None; },
    };
    if !read_dot(text, len, la + lb + lc + 2) {
        return None;
    }
    let (d, ld) = match read_octet(text, len, la + lb + lc + 3) {
        Some(found) => found,
        None => { return None; },
    };
    if la + lb + lc + ld + 3 != len {
        return None;
    }
    Some(ipv4(a, b, c, d))
}

} // verus!
