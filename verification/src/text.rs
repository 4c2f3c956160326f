//! Text: the decimal and hexadecimal numerals that identifiers and display
//! strings are made of, and the search for a word in a name.

use vstd::prelude::*;

verus! {

/// The text of an optional string.
pub open spec fn text_of(s: Option<String>) -> Option<Seq<char>> {
    match s {
        Some(s) => Some(s@),
        None => None,
    }
}

/// The texts of a list of strings.
pub open spec fn texts_of(v: Seq<String>) -> Seq<Seq<char>> {
    Seq::new(v.len(), |i: int| v[i]@)
}

/// The character that stands for one decimal digit.
pub open spec fn digit_char(d: int) -> char {
    if d == 0 {
        '0'
    } else if d == 1 {
        '1'
    } else if d == 2 {
        '2'
    } else if d == 3 {
        '3'
    } else if d == 4 {
        '4'
    } else if d == 5 {
        '5'
    } else if d == 6 {
        '6'
    } else if d == 7 {
        '7'
    } else if d == 8 {
        '8'
    } else {
        '9'
    }
}

/// The decimal numeral of `n`, most significant digit first, without
/// leading zeros.
pub open spec fn decimal(n: nat) -> Seq<char>
    decreases n,
{
    if n < 10 {
        seq![digit_char(n as int)]
    } else {
        decimal(n / 10).push(digit_char((n % 10) as int))
    }
}

fn digit_str(d: u64) -> (s: &'static str)
    requires
        d < 10,
    ensures
        s@ == seq![digit_char(d as int)],
{
    proof {
        reveal_strlit("0");
        reveal_strlit("1");
        reveal_strlit("2");
        reveal_strlit("3");
        reveal_strlit("4");
        reveal_strlit("5");
        reveal_strlit("6");
        reveal_strlit("7");
        reveal_strlit("8");
        reveal_strlit("9");
    }
    let s = if d == 0 {
        "0"
    } else if d == 1 {
        "1"
    } else if d == 2 {
        "2"
    } else if d == 3 {
        "3"
    } else if d == 4 {
        "4"
    } else if d == 5 {
        "5"
    } else if d == 6 {
        "6"
    } else if d == 7 {
        "7"
    } else if d == 8 {
        "8"
    } else {
        "9"
    };
    assert(s@ =~= seq![digit_char(d as int)]);
    s
}

/// Appends the decimal numeral of `n` to `out`.
pub fn push_decimal(out: &mut String, n: u64)
    ensures
        final(out)@ == old(out)@ + decimal(n as nat),
    decreases n,
{
    if n >= 10 {
        push_decimal(out, n / 10);
    }
    out.append(digit_str(n % 10));
    assert(final(out)@ =~= old(out)@ + decimal(n as nat));
}

/// The character that stands for one hexadecimal digit, in lower or in
/// upper case.
pub open spec fn hex_digit_char(d: int, upper: bool) -> char {
    if d < 10 {
        digit_char(d)
    } else if d == 10 {
        if upper { 'A' } else { 'a' }
    } else if d == 11 {
        if upper { 'B' } else { 'b' }
    } else if d == 12 {
        if upper { 'C' } else { 'c' }
    } else if d == 13 {
        if upper { 'D' } else { 'd' }
    } else if d == 14 {
        if upper { 'E' } else { 'e' }
    } else {
        if upper { 'F' } else { 'f' }
    }
}

/// The four hexadecimal digits of a 16-bit value, zeros included.
pub open spec fn hex4(v: u16, upper: bool) -> Seq<char> {
    seq![
        hex_digit_char(v as int / 4096, upper),
        hex_digit_char(v as int / 256 % 16, upper),
        hex_digit_char(v as int / 16 % 16, upper),
        hex_digit_char(v as int % 16, upper),
    ]
}

fn hex_digit_str(d: u16, upper: bool) -> (s: &'static str)
    requires
        d < 16,
    ensures
        s@ == seq![hex_digit_char(d as int, upper)],
{
    if d < 10 {
        digit_str(d as u64)
    } else {
        proof {
            reveal_strlit("a");
            reveal_strlit("b");
            reveal_strlit("c");
            reveal_strlit("d");
            reveal_strlit("e");
            reveal_strlit("f");
            reveal_strlit("A");
            reveal_strlit("B");
            reveal_strlit("C");
            reveal_strlit("D");
            reveal_strlit("E");
            reveal_strlit("F");
        }
        let s = if d == 10 {
            if upper { "A" } else { "a" }
        } else if d == 11 {
            if upper { "B" } else { "b" }
        } else if d == 12 {
            if upper { "C" } else { "c" }
        } else if d == 13 {
            if upper { "D" } else { "d" }
        } else if d == 14 {
            if upper { "E" } else { "e" }
        } else {
            if upper { "F" } else { "f" }
        };
        assert(s@ =~= seq![hex_digit_char(d as int, upper)]);
        s
    }
}

/// Appends the four hexadecimal digits of `v` to `out`.
pub fn push_hex4(out: &mut String, v: u16, upper: bool)
    ensures
        final(out)@ == old(out)@ + hex4(v, upper),
{
    out.append(hex_digit_str(v / 4096, upper));
    out.append(hex_digit_str(v / 256 % 16, upper));
    out.append(hex_digit_str(v / 16 % 16, upper));
    out.append(hex_digit_str(v % 16, upper));
    assert(final(out)@ =~= old(out)@ + hex4(v, upper));
}

/// The vendor:product key by which a HID device is identified: both
/// numbers as four lower-case hexadecimal digits, a colon between them.
pub open spec fn hardware_key(vendor_id: u16, product_id: u16) -> Seq<char> {
    hex4(vendor_id, false) + seq![':'] + hex4(product_id, false)
}

/// Builds the vendor:product key of a HID device.
pub fn format_hardware_key(vendor_id: u16, product_id: u16) -> (key: String)
    ensures
        key@ == hardware_key(vendor_id, product_id),
{
    let mut key = String::new();
    push_hex4(&mut key, vendor_id, false);
    proof {
        reveal_strlit(":");
    }
    key.append(":");
    push_hex4(&mut key, product_id, false);
    assert(key@ =~= hardware_key(vendor_id, product_id));
    key
}

/// Whether `needle` stands in `hay` from position `i` on.
pub open spec fn occurs_at(hay: Seq<char>, needle: Seq<char>, i: int) -> bool {
    0 <= i && i + needle.len() <= hay.len() && hay.subrange(i, i + needle.len()) == needle
}

/// Whether `needle` stands somewhere in `hay`.
pub open spec fn has_substring(hay: Seq<char>, needle: Seq<char>) -> bool {
    exists|i: int| occurs_at(hay, needle, i)
}

/// What std's `str::to_lowercase` makes of a string: its lower-case form
/// by the Unicode rules.
pub uninterp spec fn lowercase(s: Seq<char>) -> Seq<char>;

/// Calls std's `str::to_lowercase`. The contract only names the result: the
/// same text always has the same lower-case form.
#[verifier::external_body]
pub(crate) fn to_lowercase(s: &str) -> (r: String)
    ensures
        r@ == lowercase(s@),
{
    s.to_lowercase()
}

/// Calls std's `str::contains` with a string pattern: true exactly when the
/// pattern stands somewhere in the text, character for character.
#[verifier::external_body]
pub(crate) fn str_contains(hay: &str, needle: &str) -> (r: bool)
    ensures
        r == has_substring(hay@, needle@),
{
    hay.contains(needle)
}

} // verus!
