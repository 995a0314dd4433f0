use vstd::prelude::*;

verus! {

use vstd::string::StringExecFns;

/// The lowercase hexadecimal digit for `d`, as a one-character sequence.
/// For `d` below ten this is also the decimal digit.
pub open spec fn digit_chars(d: int) -> Seq<char> {
    if d == 0 {
        "0"@
    } else if d == 1 {
        "1"@
    } else if d == 2 {
        "2"@
    } else if d == 3 {
        "3"@
    } else if d == 4 {
        "4"@
    } else if d == 5 {
        "5"@
    } else if d == 6 {
        "6"@
    } else if d == 7 {
        "7"@
    } else if d == 8 {
        "8"@
    } else if d == 9 {
        "9"@
    } else if d == 10 {
        "a"@
    } else if d == 11 {
        "b"@
    } else if d == 12 {
        "c"@
    } else if d == 13 {
        "d"@
    } else if d == 14 {
        "e"@
    } else {
        "f"@
    }
}

/// The lowercase hexadecimal digit for `d`.
pub fn digit_str(d: u8) -> (r: &'static str)
    requires
        d < 16,
    ensures
        r@ == digit_chars(d as int),
{
    match d {
        0 => "0",
        1 => "1",
        2 => "2",
        3 => "3",
        4 => "4",
        5 => "5",
        6 => "6",
        7 => "7",
        8 => "8",
        9 => "9",
        10 => "a",
        11 => "b",
        12 => "c",
        13 => "d",
        14 => "e",
        _ => "f",
    }
}

/// `n` in decimal, zero-padded to exactly `width` digits; only the lowest
/// `width` digits appear.
pub open spec fn dec_pad_chars(n: int, width: nat) -> Seq<char>
    decreases width,
{
    if width == 0 {
        Seq::<char>::empty()
    } else {
        dec_pad_chars(n / 10, (width - 1) as nat) + digit_chars(n % 10)
    }
}

/// Renders `n` in decimal, zero-padded to exactly `width` digits.
pub fn dec_pad(n: u64, width: u8) -> (r: String)
    ensures
        r@ == dec_pad_chars(n as int, width as nat),
    decreases width,
{
    if width == 0 {
        String::new()
    } else {
        let mut s = dec_pad(n / 10, width - 1);
        s.append(digit_str((n % 10) as u8));
        s
    }
}

/// `n` in lowercase hexadecimal, zero-padded to exactly `width` digits.
pub open spec fn hex_pad_chars(n: int, width: nat) -> Seq<char>
    decreases width,
{
    if width == 0 {
        Seq::<char>::empty()
    } else {
        hex_pad_chars(n / 16, (width - 1) as nat) + digit_chars(n % 16)
    }
}

/// Renders `n` in lowercase hexadecimal, zero-padded to exactly `width`
/// digits.
pub fn hex_pad(n: u128, width: u8) -> (r: String)
    ensures
        r@ == hex_pad_chars(n as int, width as nat),
    decreases width,
{
    if width == 0 {
        String::new()
    } else {
        let mut s = hex_pad(n / 16, width - 1);
        s.append(digit_str((n % 16) as u8));
        s
    }
}

/// `n` in decimal with no leading zeros.
pub open spec fn dec_nat_chars(n: nat) -> Seq<char>
    decreases n,
{
    if n < 10 {
        digit_chars(n as int)
    } else {
        dec_nat_chars(n / 10) + digit_chars((n % 10) as int)
    }
}

/// `i` in decimal: a minus sign for negative values, then the digits with
/// no leading zeros.
pub open spec fn dec_int_chars(i: int) -> Seq<char> {
    if i < 0 {
        "-"@ + dec_nat_chars((-i) as nat)
    } else {
        dec_nat_chars(i as nat)
    }
}

/// How one character appears inside a JSON string: quote and backslash get
/// a backslash escape, control characters get their short escape or the
/// `\u00XX` form with lowercase hexadecimal, everything else is verbatim.
pub open spec fn escape_char(c: char) -> Seq<char> {
    if c == '"' {
        "\\\""@
    } else if c == '\\' {
        "\\\\"@
    } else if c == '\u{8}' {
        "\\b"@
    } else if c == '\t' {
        "\\t"@
    } else if c == '\n' {
        "\\n"@
    } else if c == '\u{c}' {
        "\\f"@
    } else if c == '\r' {
        "\\r"@
    } else if (c as int) < 32 {
        "\\u00"@ + digit_chars((c as int) / 16) + digit_chars((c as int) % 16)
    } else {
        seq![c]
    }
}

/// `s` with every character escaped as JSON string content.
pub open spec fn escape_chars(s: Seq<char>) -> Seq<char>
    decreases s.len(),
{
    if s.len() == 0 {
        Seq::<char>::empty()
    } else {
        escape_char(s[0]) + escape_chars(s.drop_first())
    }
}

/// `s` as a JSON string token: double quotes around the escaped content.
pub open spec fn json_quoted(s: Seq<char>) -> Seq<char> {
    "\""@ + escape_chars(s) + "\""@
}

/// The numeric value of a decimal digit character; ten for any other
/// character.
pub open spec fn digit_value(c: char) -> int {
    if c == '0' {
        0
    } else if c == '1' {
        1
    } else if c == '2' {
        2
    } else if c == '3' {
        3
    } else if c == '4' {
        4
    } else if c == '5' {
        5
    } else if c == '6' {
        6
    } else if c == '7' {
        7
    } else if c == '8' {
        8
    } else if c == '9' {
        9
    } else {
        10
    }
}

/// How a JSON reader takes an unsigned run of digits: each digit scales
/// what came before it by ten.
pub open spec fn parsed_nat(t: Seq<char>) -> int
    decreases t.len(),
{
    if t.len() == 0 {
        0
    } else {
        parsed_nat(t.drop_last()) * 10 + digit_value(t.last())
    }
}

/// How a JSON reader takes an integer token: an optional leading minus
/// sign, then the digits.
pub open spec fn parsed_int(t: Seq<char>) -> int {
    if t.len() > 0 && t[0] == '-' {
        -parsed_nat(t.drop_first())
    } else {
        parsed_nat(t)
    }
}

proof fn lemma_digit_heads(d: int)
    requires
        0 <= d <= 9,
    ensures
        digit_chars(d).len() == 1,
        digit_value(digit_chars(d)[0]) == d,
{
    reveal_strlit("0");
    reveal_strlit("1");
    reveal_strlit("2");
    reveal_strlit("3");
    reveal_strlit("4");
    reveal_strlit("5");
    reveal_strlit("6");
    reveal_strlit("7");
    reveal_strlit("8");
    reveal_strlit("9");
}

proof fn lemma_dec_nat_shape(n: nat)
    ensures
        dec_nat_chars(n).len() > 0,
        digit_value(dec_nat_chars(n)[0]) <= 9,
    decreases n,
{
    if n < 10 {
        lemma_digit_heads(n as int);
    } else {
        lemma_dec_nat_shape(n / 10);
        lemma_digit_heads((n % 10) as int);
    }
}

proof fn lemma_parsed_dec_nat(n: nat)
    ensures
        parsed_nat(dec_nat_chars(n)) == n,
    decreases n,
{
    if n < 10 {
        lemma_digit_heads(n as int);
        let t = dec_nat_chars(n);
        assert(t.len() == 1);
        assert(t.last() == t[0]);
        assert(t.drop_last() =~= Seq::<char>::empty());
        assert(parsed_nat(Seq::<char>::empty()) == 0);
        assert(parsed_nat(t) == digit_value(t[0]));
    } else {
        lemma_parsed_dec_nat(n / 10);
        lemma_digit_heads((n % 10) as int);
        let a = dec_nat_chars(n / 10);
        let b = digit_chars((n % 10) as int);
        let t = dec_nat_chars(n);
        assert(t == a + b);
        assert(t.last() == b[0]);
        assert(t.drop_last() =~= a);
        assert(parsed_nat(t) == parsed_nat(a) * 10 + digit_value(b[0]));
        vstd::arithmetic::div_mod::lemma_fundamental_div_mod(n as int, 10);
        assert(n == 10 * (n as int / 10) + n as int % 10);
    }
}

/// Round-trip for integer tokens: reading back the decimal text the
/// encoder emits for an integer yields that integer.
pub proof fn lemma_int_roundtrip(i: int)
    ensures
        parsed_int(dec_int_chars(i)) == i,
{
    reveal_strlit("-");
    if i < 0 {
        lemma_parsed_dec_nat((-i) as nat);
        assert(dec_int_chars(i).drop_first() =~= dec_nat_chars((-i) as nat));
    } else {
        lemma_parsed_dec_nat(i as nat);
        lemma_dec_nat_shape(i as nat);
    }
}

/// The numeric value of a lowercase hexadecimal digit character; sixteen
/// for any other character.
pub open spec fn hex_value(c: char) -> int {
    if c == 'a' {
        10
    } else if c == 'b' {
        11
    } else if c == 'c' {
        12
    } else if c == 'd' {
        13
    } else if c == 'e' {
        14
    } else if c == 'f' {
        15
    } else if digit_value(c) <= 9 {
        digit_value(c)
    } else {
        16
    }
}

/// How a JSON reader takes escaped string content back: the inverse
/// reading of `escape_chars`, over exactly the escape forms this encoder
/// emits. Nothing where the text is not an escape of anything.
pub open spec fn unescaped(t: Seq<char>) -> Option<Seq<char>>
    decreases t.len(),
{
    if t.len() == 0 {
        Some(Seq::<char>::empty())
    } else if t[0] == '\\' {
        if t.len() < 2 {
            None
        } else if t[1] == 'u' {
            if t.len() < 6 || t[2] != '0' || t[3] != '0' || hex_value(t[4]) > 1 || hex_value(t[5])
                > 15 {
                None
            } else {
                match unescaped(t.skip(6)) {
                    Option::None => None,
                    Option::Some(rest) => Some(
                        seq![(((16 * hex_value(t[4]) + hex_value(t[5])) as u32) as char)] + rest,
                    ),
                }
            }
        } else if t[1] == '"' || t[1] == '\\' || t[1] == 'b' || t[1] == 't' || t[1] == 'n' || t[1]
            == 'f' || t[1] == 'r' {
            let c = if t[1] == '"' {
                '"'
            } else if t[1] == '\\' {
                '\\'
            } else if t[1] == 'b' {
                '\u{8}'
            } else if t[1] == 't' {
                '\t'
            } else if t[1] == 'n' {
                '\n'
            } else if t[1] == 'f' {
                '\u{c}'
            } else {
                '\r'
            };
            match unescaped(t.skip(2)) {
                Option::None => None,
                Option::Some(rest) => Some(seq![c] + rest),
            }
        } else {
            None
        }
    } else {
        match unescaped(t.skip(1)) {
            Option::None => None,
            Option::Some(rest) => Some(seq![t[0]] + rest),
        }
    }
}

proof fn lemma_char_bound(c: char)
    ensures
        0 <= c as int <= 0x10FFFF,
{
}

proof fn lemma_hex_heads(d: int)
    requires
        0 <= d <= 15,
    ensures
        digit_chars(d).len() == 1,
        hex_value(digit_chars(d)[0]) == d,
{
    lemma_digit_heads(if d <= 9 {
        d
    } else {
        9
    });
    reveal_strlit("a");
    reveal_strlit("b");
    reveal_strlit("c");
    reveal_strlit("d");
    reveal_strlit("e");
    reveal_strlit("f");
    reveal_strlit("0");
    reveal_strlit("1");
    reveal_strlit("2");
    reveal_strlit("3");
    reveal_strlit("4");
    reveal_strlit("5");
    reveal_strlit("6");
    reveal_strlit("7");
    reveal_strlit("8");
    reveal_strlit("9");
}

/// Round-trip for string content: reading back the escaped text the
/// encoder emits for a string yields that string.
pub proof fn lemma_escape_roundtrip(s: Seq<char>)
    ensures
        unescaped(escape_chars(s)) == Some(s),
    decreases s.len(),
{
    reveal_strlit("\\\"");
    reveal_strlit("\\\\");
    reveal_strlit("\\b");
    reveal_strlit("\\t");
    reveal_strlit("\\n");
    reveal_strlit("\\f");
    reveal_strlit("\\r");
    reveal_strlit("\\u00");
    if s.len() == 0 {
    } else {
        let c = s[0];
        let tail = s.drop_first();
        let e = escape_char(c);
        let rest = escape_chars(tail);
        let t = escape_chars(s);
        lemma_escape_roundtrip(tail);
        assert(t == e + rest);
        assert(seq![c] + tail =~= s);
        if c == '"' || c == '\\' || c == '\u{8}' || c == '\t' || c == '\n' || c == '\u{c}' || c
            == '\r' {
            assert(e.len() == 2);
            assert(t.skip(2) =~= rest);
            assert(unescaped(t) == Some(seq![c] + tail));
        } else if (c as int) < 32 {
            let ci = c as int;
            lemma_char_bound(c);
            let high = digit_chars(ci / 16);
            let low = digit_chars(ci % 16);
            lemma_hex_heads(ci / 16);
            lemma_hex_heads(ci % 16);
            assert(e == "\\u00"@ + high + low);
            assert(e.len() == 6);
            assert(t[4] == high[0] && t[5] == low[0]);
            assert(t.skip(6) =~= rest);
            vstd::arithmetic::div_mod::lemma_fundamental_div_mod(ci, 16);
            assert(16 * hex_value(t[4]) + hex_value(t[5]) == ci);
            assert((ci as u32) as char == c) by {
                vstd::utf8::char_u32_cast(c, c as u32);
            }
            assert(unescaped(t) == Some(seq![c] + tail));
        } else {
            assert(e == seq![c]);
            assert(t[0] == c && t[0] != '\\');
            assert(t.skip(1) =~= rest);
            assert(unescaped(t) == Some(seq![c] + tail));
        }
    }
}

/// Relies on serde_json's string serialization: a double-quoted token in
/// which `"`, `\` and the control characters below 0x20 are escaped (the
/// five short escapes, otherwise `\u00XX` with lowercase hexadecimal) and
/// every other character appears verbatim. Writing a string to an in-memory
/// buffer cannot fail.
#[verifier::external_body]
pub fn quote_str(s: &str) -> (r: String)
    ensures
        r@ == json_quoted(s@),
{
    match serde_json::to_string(s) {
        Ok(out) => out,
        Err(_) => String::new(),
    }
}

/// Relies on serde_json's 64-bit integer serialization: the plain decimal
/// rendering, with a minus sign for negative values and no leading zeros.
/// Writing an integer to an in-memory buffer cannot fail.
#[verifier::external_body]
pub fn int_str(i: i64) -> (r: String)
    ensures
        r@ == dec_int_chars(i as int),
{
    match serde_json::to_string(&i) {
        Ok(out) => out,
        Err(_) => String::new(),
    }
}

} // verus!
