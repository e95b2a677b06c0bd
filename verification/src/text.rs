//! Text: searching in it, and writing hardware addresses as text.

use vstd::prelude::*;
use crate::models::MacAddr;

verus! {

/// Whether `needle` stands in `hay` at position `at`.
pub open spec fn occurs_at(hay: Seq<char>, needle: Seq<char>, at: int) -> bool {
    &&& 0 <= at
    &&& at + needle.len() <= hay.len()
    &&& hay.subrange(at, at + needle.len()) == needle
}

/// Whether `needle` stands somewhere in `hay`.
pub open spec fn spec_contains_text(hay: Seq<char>, needle: Seq<char>) -> bool {
    exists|at: int| occurs_at(hay, needle, at)
}

fn chars_of(text: &str) -> (chars: Vec<char>)
    ensures
        chars@ == text@,
{
    let n = text.unicode_len();
    let mut chars: Vec<char> = Vec::with_capacity(n);
    let mut i: usize = 0;
    while i < n
        invariant
            n == text@.len(),
            0 <= i <= n,
            chars@ == text@.take(i as int),
        decreases n - i,
    {
        chars.push(text.get_char(i));
        assert(chars@ =~= text@.take(i + 1));
        i += 1;
    }
    assert(text@.take(n as int) =~= text@);
    chars
}

fn matches_at(hay: &Vec<char>, needle: &Vec<char>, at: usize) -> (r: bool)
    requires
        at + needle@.len() <= hay@.len(),
    ensures
        r == occurs_at(hay@, needle@, at as int),
{
    let hay_len = hay.len();
    let mut k: usize = 0;
    while k < needle.len()
        invariant
            at + needle@.len() <= hay@.len() == hay_len,
            0 <= k <= needle@.len(),
            forall|j: int| 0 <= j < k ==> hay@[at + j] == needle@[j],
        decreases needle@.len() - k,
    {
        if hay[at + k] != needle[k] {
            proof {
                let part = hay@.subrange(at as int, at + needle@.len());
                assert(part[k as int] == hay@[at + k]);
            }
            return false;
        }
        k += 1;
    }
    assert(hay@.subrange(at as int, at + needle@.len()) =~= needle@);
    true
}

/// Whether `needle` stands somewhere in `hay`. The empty text stands in
/// every text.
pub fn contains_text(hay: &str, needle: &str) -> (r: bool)
    ensures
        r == spec_contains_text(hay@, needle@),
{
    let hay_chars = chars_of(hay);
    let needle_chars = chars_of(needle);
    if needle_chars.len() > hay_chars.len() {
        return false;
    }
    let last: usize = hay_chars.len() - needle_chars.len();
    let mut at: usize = 0;
    while at < last
        invariant
            hay_chars@ == hay@,
            needle_chars@ == needle@,
            last == hay@.len() - needle@.len(),
            0 <= at <= last,
            forall|j: int| 0 <= j < at ==> !occurs_at(hay@, needle@, j),
        decreases last - at,
    {
        if matches_at(&hay_chars, &needle_chars, at) {
            return true;
        }
        at += 1;
    }
    matches_at(&hay_chars, &needle_chars, last)
}

/// The lower-case hexadecimal digit of a value below sixteen.
pub open spec fn hex_char(nibble: u8) -> char {
    if nibble < 10 {
        (0x30 + nibble) as char
    } else {
        (0x57 + nibble) as char
    }
}

/// A byte as two hexadecimal digits.
pub open spec fn hex_byte(byte: u8) -> Seq<char> {
    seq![hex_char(byte / 16), hex_char(byte % 16)]
}

/// A hardware address as text: its six octets as two lower-case hexadecimal
/// digits each, with colons between them.
pub open spec fn spec_mac_text(mac: MacAddr) -> Seq<char> {
    hex_byte(mac.0) + seq![':'] + hex_byte(mac.1) + seq![':'] + hex_byte(mac.2) + seq![':']
        + hex_byte(mac.3) + seq![':'] + hex_byte(mac.4) + seq![':'] + hex_byte(mac.5)
}

fn hex_digit(nibble: u8) -> (digit: &'static str)
    requires
        nibble < 16,
    ensures
        digit@ == seq![hex_char(nibble)],
{
    proof {
        reveal_strlit("0");
        reveal_strlit("1");
        reveal_strlit("2");
        reveal_strlit("3");
        reveal_strlit("4");
        reveal_strlit("5");
        reveal_strlit("6");
        reveal_strlit("7");
        reveal_strlit("8");
        reveal_strlit("9");
        reveal_strlit("a");
        reveal_strlit("b");
        reveal_strlit("c");
        reveal_strlit("d");
        reveal_strlit("e");
        reveal_strlit("f");
    }
    let digit = match nibble {
        0 => "0",
        1 => "1",
        2 => "2",
        3 => "3",
        4 => "4",
        5 => "5",
        6 => "6",
        7 => "7",
        8 => "8",
        9 => "9",
        10 => "a",
        11 => "b",
        12 => "c",
        13 => "d",
        14 => "e",
        _ => "f",
    };
    assert(digit@ =~= seq![hex_char(nibble)]);
    digit
}

fn push_hex_byte(text: &mut String, byte: u8)
    ensures
        final(text)@ == old(text)@ + hex_byte(byte),
{
    text.append(hex_digit(byte / 16));
    text.append(hex_digit(byte % 16));
    assert(text@ =~= old(text)@ + hex_byte(byte));
}

fn push_colon(text: &mut String)
    ensures
        final(text)@ == old(text)@ + seq![':'],
{
    proof {
        reveal_strlit(":");
    }
    text.append(":");
    assert(text@ =~= old(text)@ + seq![':']);
}

/// A hardware address as text, such as `00:1c:b3:00:00:00`.
pub fn mac_text(mac: MacAddr) -> (text: String)
    ensures
        text@ == spec_mac_text(mac),
{
    let mut text = String::new();
    push_hex_byte(&mut text, mac.0);
    assert(text@ =~= hex_byte(mac.0));
    push_colon(&mut text);
    push_hex_byte(&mut text, mac.1);
    push_colon(&mut text);
    push_hex_byte(&mut text, mac.2);
    push_colon(&mut text);
    push_hex_byte(&mut text, mac.3);
    push_colon(&mut text);
    push_hex_byte(&mut text, mac.4);
    push_colon(&mut text);
    push_hex_byte(&mut text, mac.5);
    text
}

} // verus!
