//! The wire text grammar of the protocol.
//!
//! A wire frame is the text form of a [`Value`]: the JSON-style grammar
//! the host and the client exchange. [`print_value`] is the mathematical
//! definition of the canonical text and [`write_value`] produces it; the
//! parser reads that text back and is lenient where the grammar allows a
//! peer latitude, accepting whitespace between tokens and the standard
//! string escapes. [`lemma_value_round_trip`] (further below) proves
//! that parsing a printed value recovers it exactly.

use crate::value::{deep_view_arr, deep_view_obj, lemma_deep_view_arr, lemma_deep_view_obj,
    SValue, Value};
use vstd::prelude::*;

verus! {

// ------------------------------------------------------------------
// Spec: printing
// ------------------------------------------------------------------

/// The decimal digit characters `0` through `9` for values 0 through 9.
pub open spec fn digit_char_spec(n: int) -> char {
    if n == 0 {
        '0'
    } else if n == 1 {
        '1'
    } else if n == 2 {
        '2'
    } else if n == 3 {
        '3'
    } else if n == 4 {
        '4'
    } else if n == 5 {
        '5'
    } else if n == 6 {
        '6'
    } else if n == 7 {
        '7'
    } else if n == 8 {
        '8'
    } else {
        '9'
    }
}

/// Decimal digit run of a non-negative integer, most significant first.
pub open spec fn print_digits(n: int) -> Seq<char>
    decreases n,
{
    if n < 10 {
        seq![digit_char_spec(n)]
    } else {
        print_digits(n / 10).push(digit_char_spec(n % 10))
    }
}

/// Text of a signed 64-bit number: an optional minus sign and digits.
pub open spec fn print_i64(n: i64) -> Seq<char> {
    if n < 0 {
        seq!['-'] + print_digits(-(n as int))
    } else {
        print_digits(n as int)
    }
}

/// True of the hexadecimal digit characters, either case.
pub open spec fn is_hex_digit(c: char) -> bool {
    (48 <= c as u32 <= 57) || (97 <= c as u32 <= 102) || (65 <= c as u32 <= 70)
}

/// Numeric value of a hexadecimal digit character.
pub open spec fn hex_val(c: char) -> int {
    if 48 <= c as u32 <= 57 {
        c as u32 - 48
    } else if 97 <= c as u32 <= 102 {
        c as u32 - 87
    } else {
        c as u32 - 55
    }
}

/// The lowercase hexadecimal digit character of a value below sixteen.
pub open spec fn hex_char_spec(n: int) -> char {
    if n < 10 {
        digit_char_spec(n)
    } else if n == 10 {
        'a'
    } else if n == 11 {
        'b'
    } else if n == 12 {
        'c'
    } else if n == 13 {
        'd'
    } else if n == 14 {
        'e'
    } else {
        'f'
    }
}

/// Escaped form of one string character, as the standard wire grammar
/// has it: the double quote, the backslash and the five named control
/// characters take their short escapes, any other control character its
/// four-digit hexadecimal escape, and every other character stands for
/// itself.
pub open spec fn escape_char(c: char) -> Seq<char> {
    if c == '"' {
        seq!['\\', '"']
    } else if c == '\\' {
        seq!['\\', '\\']
    } else if c == '\u{8}' {
        seq!['\\', 'b']
    } else if c == '\t' {
        seq!['\\', 't']
    } else if c == '\n' {
        seq!['\\', 'n']
    } else if c == '\u{c}' {
        seq!['\\', 'f']
    } else if c == '\r' {
        seq!['\\', 'r']
    } else if (c as u32) < 32 {
        seq!['\\', 'u', '0', '0', hex_char_spec(c as u32 as int / 16), hex_char_spec(c as u32 as int % 16)]
    } else {
        seq![c]
    }
}

/// Escaped body of a string, character by character.
pub open spec fn escape_str(s: Seq<char>) -> Seq<char>
    decreases s.len(),
{
    if s.len() == 0 {
        Seq::<char>::empty()
    } else {
        escape_char(s[0]) + escape_str(s.drop_first())
    }
}

/// Text of a string value: the escaped body between double quotes.
pub open spec fn print_string(s: Seq<char>) -> Seq<char> {
    seq!['"'] + escape_str(s) + seq!['"']
}

/// Text of the elements of a non-empty array, separated by commas.
pub open spec fn print_elems(vs: Seq<SValue>) -> Seq<char>
    decreases vs,
{
    if vs.len() == 0 {
        Seq::<char>::empty()
    } else if vs.len() == 1 {
        print_value(vs[0])
    } else {
        print_value(vs[0]) + seq![','] + print_elems(vs.drop_first())
    }
}

/// Text of the fields of a non-empty object, separated by commas.
pub open spec fn print_members(fs: Seq<(Seq<char>, SValue)>) -> Seq<char>
    decreases fs,
{
    if fs.len() == 0 {
        Seq::<char>::empty()
    } else if fs.len() == 1 {
        print_string(fs[0].0) + seq![':'] + print_value(fs[0].1)
    } else {
        print_string(fs[0].0) + seq![':'] + print_value(fs[0].1) + seq![','] + print_members(
            fs.drop_first(),
        )
    }
}

/// The canonical wire text of a value.
pub open spec fn print_value(v: SValue) -> Seq<char>
    decreases v, 0nat,
{
    match v {
        SValue::Null => seq!['n', 'u', 'l', 'l'],
        SValue::Bool(b) => if b {
            seq!['t', 'r', 'u', 'e']
        } else {
            seq!['f', 'a', 'l', 's', 'e']
        },
        SValue::Num(n) => print_i64(n),
        SValue::Str(s) => print_string(s),
        SValue::Arr(items) => seq!['['] + print_elems(items) + seq![']'],
        SValue::Obj(fields) => seq!['{'] + print_members(fields) + seq!['}'],
    }
}

// ------------------------------------------------------------------
// Exec: printing
// ------------------------------------------------------------------

/// Decimal digit character of a value below ten.
fn digit_char(n: u64) -> (c: char)
    requires
        n < 10,
    ensures
        c == digit_char_spec(n as int),
{
    match n {
        0 => '0',
        1 => '1',
        2 => '2',
        3 => '3',
        4 => '4',
        5 => '5',
        6 => '6',
        7 => '7',
        8 => '8',
        _ => '9',
    }
}

/// Lowercase hexadecimal digit character of a value below sixteen.
fn hex_char(n: u64) -> (c: char)
    requires
        n < 16,
    ensures
        c == hex_char_spec(n as int),
{
    match n {
        10 => 'a',
        11 => 'b',
        12 => 'c',
        13 => 'd',
        14 => 'e',
        15 => 'f',
        _ => digit_char(n),
    }
}

/// Appends the decimal digit run of `n` to `out`.
fn write_digits(n: u64, out: &mut Vec<char>)
    ensures
        final(out)@ == old(out)@ + print_digits(n as int),
    decreases n,
{
    if n < 10 {
        out.push(digit_char(n));
        assert(out@ =~= old(out)@ + print_digits(n as int));
    } else {
        write_digits(n / 10, out);
        out.push(digit_char(n % 10));
        assert(out@ =~= old(out)@ + print_digits(n as int));
    }
}

/// Appends the text of a signed 64-bit number to `out`.
fn write_i64(n: i64, out: &mut Vec<char>)
    ensures
        final(out)@ == old(out)@ + print_i64(n),
{
    if n < 0 {
        out.push('-');
        let mag: u64 = (-(n as i128)) as u64;
        assert(mag as int == -(n as int));
        write_digits(mag, out);
        assert(out@ =~= old(out)@ + print_i64(n));
    } else {
        write_digits(n as u64, out);
    }
}

/// Appends the escaped body of a string to `out`.
fn write_escaped(s: &Vec<char>, from: usize, out: &mut Vec<char>)
    requires
        from <= s@.len(),
    ensures
        final(out)@ == old(out)@ + escape_str(s@.skip(from as int)),
    decreases s@.len() - from,
{
    if from == s.len() {
        assert(out@ =~= old(out)@ + escape_str(s@.skip(from as int)));
    } else {
        let c = s[from];
        if c == '"' {
            out.push('\\');
            out.push('"');
        } else if c == '\\' {
            out.push('\\');
            out.push('\\');
        } else if c == '\u{8}' {
            out.push('\\');
            out.push('b');
        } else if c == '\t' {
            out.push('\\');
            out.push('t');
        } else if c == '\n' {
            out.push('\\');
            out.push('n');
        } else if c == '\u{c}' {
            out.push('\\');
            out.push('f');
        } else if c == '\r' {
            out.push('\\');
            out.push('r');
        } else if (c as u32) < 32 {
            out.push('\\');
            out.push('u');
            out.push('0');
            out.push('0');
            out.push(hex_char((c as u32 / 16) as u64));
            out.push(hex_char((c as u32 % 16) as u64));
        } else {
            out.push(c);
        }
        let ghost mid = out@;
        assert(mid == old(out)@ + escape_char(s@[from as int]));
        write_escaped(s, from + 1, out);
        assert(s@.skip(from as int).drop_first() =~= s@.skip(from as int + 1));
        assert(s@.skip(from as int)[0] == s@[from as int]);
        assert(out@ =~= old(out)@ + escape_str(s@.skip(from as int)));
    }
}

/// Appends the quoted, escaped text of a string to `out`.
fn write_string(s: &Vec<char>, out: &mut Vec<char>)
    ensures
        final(out)@ == old(out)@ + print_string(s@),
{
    out.push('"');
    write_escaped(s, 0, out);
    out.push('"');
    assert(s@.skip(0) =~= s@);
    assert(out@ =~= old(out)@ + print_string(s@));
}

/// Appends the wire text of `v` to `out`.
pub fn write_value(v: &Value, out: &mut Vec<char>)
    ensures
        final(out)@ == old(out)@ + print_value(v.deep_view()),
    decreases v, 0nat,
{
    match v {
        Value::Null => {
            out.push('n');
            out.push('u');
            out.push('l');
            out.push('l');
            assert(out@ =~= old(out)@ + print_value(SValue::Null));
        },
        Value::Bool(b) => {
            if *b {
                out.push('t');
                out.push('r');
                out.push('u');
                out.push('e');
            } else {
                out.push('f');
                out.push('a');
                out.push('l');
                out.push('s');
                out.push('e');
            }
            assert(out@ =~= old(out)@ + print_value(v.deep_view()));
        },
        Value::Num(n) => {
            write_i64(*n, out);
        },
        Value::Str(s) => {
            write_string(s, out);
        },
        Value::Arr(items) => {
            out.push('[');
            write_elems(items, 0, out);
            out.push(']');
            proof {
                lemma_deep_view_arr(items@);
                assert(deep_view_arr(items@).skip(0) =~= deep_view_arr(items@));
                assert(out@ =~= old(out)@ + print_value(v.deep_view()));
            }
        },
        Value::Obj(fields) => {
            out.push('{');
            write_members(fields, 0, out);
            out.push('}');
            proof {
                lemma_deep_view_obj(fields@);
                assert(deep_view_obj(fields@).skip(0) =~= deep_view_obj(fields@));
                assert(out@ =~= old(out)@ + print_value(v.deep_view()));
            }
        },
    }
}

/// Appends the comma-separated element texts of `items[from..]` to `out`.
fn write_elems(items: &Vec<Value>, from: usize, out: &mut Vec<char>)
    requires
        from <= items@.len(),
    ensures
        final(out)@ == old(out)@ + print_elems(deep_view_arr(items@).skip(from as int)),
    decreases items@, (items@.len() - from) as nat,
{
    proof {
        lemma_deep_view_arr(items@);
    }
    if from == items.len() {
        assert(out@ =~= old(out)@ + print_elems(deep_view_arr(items@).skip(from as int)));
    } else {
        write_value(&items[from], out);
        if from + 1 < items.len() {
            out.push(',');
        }
        write_elems(items, from + 1, out);
        proof {
            let dv = deep_view_arr(items@);
            assert(dv.skip(from as int)[0] == items@[from as int].deep_view());
            assert(dv.skip(from as int).drop_first() =~= dv.skip(from as int + 1));
            assert(out@ =~= old(out)@ + print_elems(dv.skip(from as int)));
        }
    }
}

/// Appends the comma-separated field texts of `fields[from..]` to `out`.
fn write_members(fields: &Vec<(Vec<char>, Value)>, from: usize, out: &mut Vec<char>)
    requires
        from <= fields@.len(),
    ensures
        final(out)@ == old(out)@ + print_members(deep_view_obj(fields@).skip(from as int)),
    decreases fields@, (fields@.len() - from) as nat,
{
    proof {
        lemma_deep_view_obj(fields@);
    }
    if from == fields.len() {
        assert(out@ =~= old(out)@ + print_members(deep_view_obj(fields@).skip(from as int)));
    } else {
        write_string(&fields[from].0, out);
        out.push(':');
        write_value(&fields[from].1, out);
        if from + 1 < fields.len() {
            out.push(',');
        }
        write_members(fields, from + 1, out);
        proof {
            let dv = deep_view_obj(fields@);
            assert(dv.skip(from as int)[0]
                == (fields@[from as int].0@, fields@[from as int].1.deep_view()));
            assert(dv.skip(from as int).drop_first() =~= dv.skip(from as int + 1));
            assert(out@ =~= old(out)@ + print_members(dv.skip(from as int)));
        }
    }
}

/// The wire text of a value, as a fresh character buffer.
pub fn value_text(v: &Value) -> (out: Vec<char>)
    ensures
        out@ == print_value(v.deep_view()),
{
    let mut out: Vec<char> = Vec::new();
    write_value(v, &mut out);
    assert(out@ =~= print_value(v.deep_view()));
    out
}

// ------------------------------------------------------------------
// Spec: parsing
// ------------------------------------------------------------------

/// True of the ten decimal digit characters.
pub open spec fn is_digit(c: char) -> bool {
    48 <= c as u32 <= 57
}

/// Numeric value of a decimal digit character.
pub open spec fn digit_val(c: char) -> int {
    c as u32 - 48
}

/// True of the four whitespace characters the wire grammar admits
/// between tokens.
pub open spec fn is_ws(c: char) -> bool {
    c == ' ' || c == '\t' || c == '\n' || c == '\r'
}

/// Position of the first non-whitespace character at or after `i`.
pub open spec fn skip_ws(s: Seq<char>, i: int) -> int
    decreases s.len() - i,
{
    if 0 <= i < s.len() && is_ws(s[i]) {
        skip_ws(s, i + 1)
    } else {
        i
    }
}

proof fn lemma_skip_ws_bounds(s: Seq<char>, i: int)
    requires
        0 <= i <= s.len(),
    ensures
        i <= skip_ws(s, i) <= s.len(),
    decreases s.len() - i,
{
    if i < s.len() && is_ws(s[i]) {
        lemma_skip_ws_bounds(s, i + 1);
    }
}

/// Reads the maximal digit run beginning at `i`, folding the digits onto
/// the accumulator `acc`; yields the accumulated value and the position
/// after the run.
pub open spec fn sp_digits(s: Seq<char>, i: int, acc: int) -> (int, int)
    decreases s.len() - i,
{
    if 0 <= i < s.len() && is_digit(s[i]) {
        sp_digits(s, i + 1, acc * 10 + digit_val(s[i]))
    } else {
        (acc, i)
    }
}

/// Parses a number at `i`: an optional minus sign and a digit run with no
/// leading zero, within the 64-bit signed range.
pub open spec fn sp_number(s: Seq<char>, i: int) -> Option<(SValue, int)> {
    let neg = 0 <= i < s.len() && s[i] == '-';
    let d0 = if neg { i + 1 } else { i };
    if !(0 <= d0 < s.len() && is_digit(s[d0])) {
        None
    } else if s[d0] == '0' && d0 + 1 < s.len() && is_digit(s[d0 + 1]) {
        None
    } else {
        let (val, end) = sp_digits(s, d0, 0);
        if neg {
            if val <= 0x8000_0000_0000_0000 {
                Some((SValue::Num((-val) as i64), end))
            } else {
                None
            }
        } else {
            if val <= 0x7fff_ffff_ffff_ffff {
                Some((SValue::Num(val as i64), end))
            } else {
                None
            }
        }
    }
}

/// Parses the body of a string after its opening quote: raw characters,
/// the named escapes, and four-digit hexadecimal escapes outside the
/// surrogate range, up to and including the closing quote.
pub open spec fn sp_strchars(s: Seq<char>, i: int) -> Option<(Seq<char>, int)>
    decreases s.len() - i,
{
    if !(0 <= i < s.len()) {
        None
    } else if s[i] == '"' {
        Some((Seq::<char>::empty(), i + 1))
    } else if s[i] == '\\' {
        if i + 1 < s.len() {
            let e = s[i + 1];
            if e == 'u' {
                if i + 5 < s.len() && is_hex_digit(s[i + 2]) && is_hex_digit(s[i + 3])
                    && is_hex_digit(s[i + 4]) && is_hex_digit(s[i + 5]) {
                    let code = ((hex_val(s[i + 2]) * 16 + hex_val(s[i + 3])) * 16 + hex_val(
                        s[i + 4],
                    )) * 16 + hex_val(s[i + 5]);
                    if 0xd800 <= code <= 0xdfff {
                        None
                    } else {
                        match sp_strchars(s, i + 6) {
                            Some((rest, j)) => Some((seq![(code as char)] + rest, j)),
                            None => None,
                        }
                    }
                } else {
                    None
                }
            } else {
                let dec = if e == '"' {
                    Some('"')
                } else if e == '\\' {
                    Some('\\')
                } else if e == '/' {
                    Some('/')
                } else if e == 'b' {
                    Some('\u{8}')
                } else if e == 'f' {
                    Some('\u{c}')
                } else if e == 'n' {
                    Some('\n')
                } else if e == 'r' {
                    Some('\r')
                } else if e == 't' {
                    Some('\t')
                } else {
                    None
                };
                match dec {
                    Some(c) => match sp_strchars(s, i + 2) {
                        Some((rest, j)) => Some((seq![c] + rest, j)),
                        None => None,
                    },
                    None => None,
                }
            }
        } else {
            None
        }
    } else {
        match sp_strchars(s, i + 1) {
            Some((rest, j)) => Some((seq![s[i]] + rest, j)),
            None => None,
        }
    }
}

/// Parses one value at `i`, past any leading whitespace.
pub open spec fn sp_value(s: Seq<char>, i: int) -> Option<(SValue, int)>
    decreases s.len() - i, 0int,
{
    let w = skip_ws(s, i);
    if !(0 <= i && i <= w && w < s.len()) {
        None
    } else {
        let c = s[w];
        if c == 'n' {
            if s.len() - w >= 4 && s[w + 1] == 'u' && s[w + 2] == 'l' && s[w + 3] == 'l' {
                Some((SValue::Null, w + 4))
            } else {
                None
            }
        } else if c == 't' {
            if s.len() - w >= 4 && s[w + 1] == 'r' && s[w + 2] == 'u' && s[w + 3] == 'e' {
                Some((SValue::Bool(true), w + 4))
            } else {
                None
            }
        } else if c == 'f' {
            if w + 5 <= s.len() && s[w + 1] == 'a' && s[w + 2] == 'l' && s[w + 3] == 's'
                && s[w + 4] == 'e' {
                Some((SValue::Bool(false), w + 5))
            } else {
                None
            }
        } else if c == '"' {
            match sp_strchars(s, w + 1) {
                Some((cs, j)) => Some((SValue::Str(cs), j)),
                None => None,
            }
        } else if c == '-' || is_digit(c) {
            sp_number(s, w)
        } else if c == '[' {
            let inner = skip_ws(s, w + 1);
            if w < inner && inner < s.len() && s[inner] == ']' {
                Some((SValue::Arr(Seq::<SValue>::empty()), inner + 1))
            } else {
                match sp_elems(s, w + 1) {
                    Some((vs, j)) => Some((SValue::Arr(vs), j)),
                    None => None,
                }
            }
        } else if c == '{' {
            let inner = skip_ws(s, w + 1);
            if w < inner && inner < s.len() && s[inner] == '}' {
                Some((SValue::Obj(Seq::<(Seq<char>, SValue)>::empty()), inner + 1))
            } else {
                match sp_members(s, w + 1) {
                    Some((fs, j)) => Some((SValue::Obj(fs), j)),
                    None => None,
                }
            }
        } else {
            None
        }
    }
}

/// Parses the elements of a non-empty array at `i`, up to and including
/// the closing bracket.
pub open spec fn sp_elems(s: Seq<char>, i: int) -> Option<(Seq<SValue>, int)>
    decreases s.len() - i, 1int,
{
    if !(0 <= i < s.len()) {
        None
    } else {
        match sp_value(s, i) {
            Some((v, j)) => {
                let w = skip_ws(s, j);
                if j <= w && w < s.len() && s[w] == ']' {
                    Some((seq![v], w + 1))
                } else if j <= w && w < s.len() && s[w] == ',' && w >= i {
                    match sp_elems(s, w + 1) {
                        Some((rest, k)) => Some((seq![v] + rest, k)),
                        None => None,
                    }
                } else {
                    None
                }
            },
            None => None,
        }
    }
}

/// Parses the fields of a non-empty object at `i`, up to and including
/// the closing brace.
pub open spec fn sp_members(s: Seq<char>, i: int) -> Option<(Seq<(Seq<char>, SValue)>, int)>
    decreases s.len() - i, 1int,
{
    let q = skip_ws(s, i);
    if !(0 <= i && i <= q && q < s.len() && s[q] == '"') {
        None
    } else {
        match sp_strchars(s, q + 1) {
            Some((key, j)) => {
                let w = skip_ws(s, j);
                if j <= w && w < s.len() && s[w] == ':' && w >= i {
                    match sp_value(s, w + 1) {
                        Some((v, k)) => {
                            let u = skip_ws(s, k);
                            if k <= u && u < s.len() && s[u] == '}' {
                                Some((seq![(key, v)], u + 1))
                            } else if k <= u && u < s.len() && s[u] == ',' && u >= i {
                                match sp_members(s, u + 1) {
                                    Some((rest, m)) => Some((seq![(key, v)] + rest, m)),
                                    None => None,
                                }
                            } else {
                                None
                            }
                        },
                        None => None,
                    }
                } else {
                    None
                }
            },
            None => None,
        }
    }
}

/// Result of decoding a whole frame: the parsed value, provided the text
/// is consumed completely.
pub open spec fn sp_document(s: Seq<char>) -> Option<SValue> {
    match sp_value(s, 0) {
        Some((v, j)) => if skip_ws(s, j) == s.len() {
            Some(v)
        } else {
            None
        },
        None => None,
    }
}


// ------------------------------------------------------------------
// Exec: parsing
// ------------------------------------------------------------------

proof fn lemma_sp_digits_end(s: Seq<char>, i: int, acc: int)
    ensures
        sp_digits(s, i, acc).1 >= i,
    decreases s.len() - i,
{
    if 0 <= i < s.len() && is_digit(s[i]) {
        lemma_sp_digits_end(s, i + 1, acc * 10 + digit_val(s[i]));
    }
}

proof fn lemma_sp_digits_lower(s: Seq<char>, i: int, acc: int)
    requires
        acc >= 0,
    ensures
        sp_digits(s, i, acc).0 >= acc,
    decreases s.len() - i,
{
    if 0 <= i < s.len() && is_digit(s[i]) {
        lemma_sp_digits_lower(s, i + 1, acc * 10 + digit_val(s[i]));
    }
}

/// True of the ten decimal digit characters.
fn is_digit_x(c: char) -> (r: bool)
    ensures
        r == is_digit(c),
{
    let u = c as u32;
    48 <= u && u <= 57
}

fn parse_digits(s: &Vec<char>, i: usize, acc: u128) -> (r: Option<(u128, usize)>)
    requires
        i <= s@.len(),
        acc <= 0x8000_0000_0000_0000,
    ensures
        match r {
            Some((v, j)) => sp_digits(s@, i as int, acc as int) == (v as int, j as int)
                && v <= 0x8000_0000_0000_0000 && i <= j <= s@.len(),
            None => sp_digits(s@, i as int, acc as int).0 > 0x8000_0000_0000_0000,
        },
    decreases s@.len() - i,
{
    if i < s.len() {
        let c = s[i];
        let u = c as u32;
        if 48 <= u && u <= 57 {
            let d: u128 = (u - 48) as u128;
            let acc2: u128 = acc * 10 + d;
            if acc2 > 0x8000_0000_0000_0000u128 {
                proof {
                    lemma_sp_digits_lower(s@, i as int + 1, acc2 as int);
                }
                None
            } else {
                parse_digits(s, i + 1, acc2)
            }
        } else {
            Some((acc, i))
        }
    } else {
        Some((acc, i))
    }
}

fn parse_number(s: &Vec<char>, i: usize) -> (r: Option<(Value, usize)>)
    requires
        i <= s@.len(),
    ensures
        match r {
            Some((v, j)) => sp_number(s@, i as int) == Some((v.deep_view(), j as int))
                && i < j <= s@.len(),
            None => sp_number(s@, i as int) is None,
        },
{
    let neg = i < s.len() && s[i] == '-';
    let d0 = if neg { i + 1 } else { i };
    if d0 >= s.len() {
        return None;
    }
    let c0 = s[d0];
    if !is_digit_x(c0) {
        return None;
    }
    if c0 == '0' && d0 + 1 < s.len() && is_digit_x(s[d0 + 1]) {
        return None;
    }
    match parse_digits(s, d0, 0) {
        None => None,
        Some((val, end)) => {
            proof {
                lemma_sp_digits_end(s@, d0 as int + 1, digit_val(s@[d0 as int]));
                assert(sp_digits(s@, d0 as int, 0) == sp_digits(
                    s@,
                    d0 as int + 1,
                    digit_val(s@[d0 as int]),
                ));
                assert(end as int >= d0 as int + 1);
            }
            if neg {
                let m: i128 = -(val as i128);
                let out: i64 = m as i64;
                proof {
                    assert(out as int == -(val as int));
                }
                Some((Value::Num(out), end))
            } else {
                if val <= 0x7fff_ffff_ffff_ffffu128 {
                    Some((Value::Num(val as i64), end))
                } else {
                    None
                }
            }
        },
    }
}

/// Relies on `char::from_u32`: the conversion yields the character of a
/// valid code point (anything outside the surrogate range and at most
/// the largest code point) and nothing otherwise.
pub assume_specification[ char::from_u32 ](i: u32) -> (r: Option<char>)
    ensures
        r == if i < 0xd800 || (0xe000 <= i && i <= 0x10ffff) {
            Some(i as char)
        } else {
            None::<char>
        },
;

/// True of the hexadecimal digit characters, either case.
fn is_hex_x(c: char) -> (r: bool)
    ensures
        r == is_hex_digit(c),
{
    let u = c as u32;
    (48 <= u && u <= 57) || (97 <= u && u <= 102) || (65 <= u && u <= 70)
}

/// Numeric value of a hexadecimal digit character.
fn hex_val_x(c: char) -> (r: u32)
    requires
        is_hex_digit(c),
    ensures
        r == hex_val(c),
        r < 16,
{
    let u = c as u32;
    if 48 <= u && u <= 57 {
        u - 48
    } else if 97 <= u && u <= 102 {
        u - 87
    } else {
        u - 55
    }
}

fn parse_strchars(s: &Vec<char>, i: usize) -> (r: Option<(Vec<char>, usize)>)
    requires
        i <= s@.len(),
    ensures
        match r {
            Some((cs, j)) => sp_strchars(s@, i as int) == Some((cs@, j as int))
                && i < j <= s@.len(),
            None => sp_strchars(s@, i as int) is None,
        },
    decreases s@.len() - i,
{
    if i >= s.len() {
        return None;
    }
    let c = s[i];
    if c == '"' {
        let cs: Vec<char> = Vec::new();
        assert(cs@ =~= Seq::<char>::empty());
        return Some((cs, i + 1));
    }
    if c == '\\' {
        if i + 1 < s.len() {
            let e = s[i + 1];
            if e == 'u' {
                if s.len() - i > 5 && is_hex_x(s[i + 2]) && is_hex_x(s[i + 3]) && is_hex_x(
                    s[i + 4],
                ) && is_hex_x(s[i + 5]) {
                    let code: u32 = ((hex_val_x(s[i + 2]) * 16 + hex_val_x(s[i + 3])) * 16
                        + hex_val_x(s[i + 4])) * 16 + hex_val_x(s[i + 5]);
                    if 0xd800 <= code && code <= 0xdfff {
                        None
                    } else {
                        let dc = match char::from_u32(code) {
                            Some(dc) => dc,
                            None => {
                                proof {
                                    assert(false);
                                }
                                return None;
                            },
                        };
                        match parse_strchars(s, i + 6) {
                            Some((rest, j)) => {
                                let mut cs = rest;
                                cs.insert(0, dc);
                                assert(cs@ =~= seq![dc] + sp_strchars(
                                    s@,
                                    i as int + 6,
                                ).unwrap().0);
                                Some((cs, j))
                            },
                            None => None,
                        }
                    }
                } else {
                    None
                }
            } else {
                let dec_opt: Option<char> = if e == '"' {
                    Some('"')
                } else if e == '\\' {
                    Some('\\')
                } else if e == '/' {
                    Some('/')
                } else if e == 'b' {
                    Some('\u{8}')
                } else if e == 'f' {
                    Some('\u{c}')
                } else if e == 'n' {
                    Some('\n')
                } else if e == 'r' {
                    Some('\r')
                } else if e == 't' {
                    Some('\t')
                } else {
                    None
                };
                match dec_opt {
                    Some(dc) => match parse_strchars(s, i + 2) {
                        Some((rest, j)) => {
                            let mut cs = rest;
                            cs.insert(0, dc);
                            assert(cs@ =~= seq![dc] + sp_strchars(s@, i as int + 2).unwrap().0);
                            Some((cs, j))
                        },
                        None => None,
                    },
                    None => None,
                }
            }
        } else {
            None
        }
    } else {
        match parse_strchars(s, i + 1) {
            Some((rest, j)) => {
                let mut cs = rest;
                cs.insert(0, c);
                assert(cs@ =~= seq![s@[i as int]] + sp_strchars(s@, i as int + 1).unwrap().0);
                Some((cs, j))
            },
            None => None,
        }
    }
}

/// Position of the first non-whitespace character at or after `i`.
fn skip_ws_x(s: &Vec<char>, i: usize) -> (r: usize)
    requires
        i <= s@.len(),
    ensures
        r == skip_ws(s@, i as int),
        i <= r <= s@.len(),
    decreases s@.len() - i,
{
    if i < s.len() {
        let c = s[i];
        if c == ' ' || c == '\t' || c == '\n' || c == '\r' {
            skip_ws_x(s, i + 1)
        } else {
            i
        }
    } else {
        i
    }
}

/// Parses one value at `i`, past any leading whitespace; the result
/// corresponds exactly to [`sp_value`] on the view of the buffer.
pub fn parse_value(s: &Vec<char>, i: usize) -> (r: Option<(Value, usize)>)
    requires
        i <= s@.len(),
    ensures
        match r {
            Some((v, j)) => sp_value(s@, i as int) == Some((v.deep_view(), j as int))
                && i < j <= s@.len(),
            None => sp_value(s@, i as int) is None,
        },
    decreases s@.len() - i, 0nat,
{
    let w = skip_ws_x(s, i);
    if w >= s.len() {
        return None;
    }
    let c = s[w];
    if c == 'n' {
        if s.len() - w >= 4 && s[w + 1] == 'u' && s[w + 2] == 'l' && s[w + 3] == 'l' {
            Some((Value::Null, w + 4))
        } else {
            None
        }
    } else if c == 't' {
        if s.len() - w >= 4 && s[w + 1] == 'r' && s[w + 2] == 'u' && s[w + 3] == 'e' {
            Some((Value::Bool(true), w + 4))
        } else {
            None
        }
    } else if c == 'f' {
        if s.len() - w >= 5 && s[w + 1] == 'a' && s[w + 2] == 'l' && s[w + 3] == 's'
            && s[w + 4] == 'e' {
            Some((Value::Bool(false), w + 5))
        } else {
            None
        }
    } else if c == '"' {
        match parse_strchars(s, w + 1) {
            Some((cs, j)) => Some((Value::Str(cs), j)),
            None => None,
        }
    } else if c == '-' || is_digit_x(c) {
        match parse_number(s, w) {
            Some((v, j)) => {
                proof {
                    assert(sp_value(s@, i as int) == sp_number(s@, w as int));
                }
                Some((v, j))
            },
            None => None,
        }
    } else if c == '[' {
        let inner = skip_ws_x(s, w + 1);
        if inner < s.len() && s[inner] == ']' {
            let v = Value::Arr(Vec::new());
            assert(v.deep_view() =~= SValue::Arr(Seq::<SValue>::empty()));
            Some((v, inner + 1))
        } else {
            match parse_elems(s, w + 1) {
                Some((vs, j)) => Some((Value::Arr(vs), j)),
                None => None,
            }
        }
    } else if c == '{' {
        let inner = skip_ws_x(s, w + 1);
        if inner < s.len() && s[inner] == '}' {
            let v = Value::Obj(Vec::new());
            assert(v.deep_view() =~= SValue::Obj(Seq::<(Seq<char>, SValue)>::empty()));
            Some((v, inner + 1))
        } else {
            match parse_members(s, w + 1) {
                Some((fs, j)) => Some((Value::Obj(fs), j)),
                None => None,
            }
        }
    } else {
        None
    }
}

fn parse_elems(s: &Vec<char>, i: usize) -> (r: Option<(Vec<Value>, usize)>)
    requires
        i <= s@.len(),
    ensures
        match r {
            Some((vs, j)) => sp_elems(s@, i as int) == Some((deep_view_arr(vs@), j as int))
                && i < j <= s@.len(),
            None => sp_elems(s@, i as int) is None,
        },
    decreases s@.len() - i, 1nat,
{
    if i >= s.len() {
        return None;
    }
    match parse_value(s, i) {
        None => None,
        Some((v, j)) => {
            let w = skip_ws_x(s, j);
            if w < s.len() && s[w] == ']' {
                let mut vs: Vec<Value> = Vec::new();
                vs.push(v);
                proof {
                    lemma_deep_view_arr(vs@);
                    assert(deep_view_arr(vs@) =~= seq![v.deep_view()]);
                }
                Some((vs, w + 1))
            } else if w < s.len() && s[w] == ',' {
                match parse_elems(s, w + 1) {
                    None => None,
                    Some((rest, k)) => {
                        let ghost rest_view = rest@;
                        let mut vs = rest;
                        vs.insert(0, v);
                        proof {
                            lemma_deep_view_arr(vs@);
                            lemma_deep_view_arr(rest_view);
                            assert(vs@ =~= seq![v] + rest_view);
                            assert(deep_view_arr(vs@) =~= seq![v.deep_view()]
                                + deep_view_arr(rest_view));
                        }
                        Some((vs, k))
                    },
                }
            } else {
                None
            }
        },
    }
}

fn parse_members(s: &Vec<char>, i: usize) -> (r: Option<(Vec<(Vec<char>, Value)>, usize)>)
    requires
        i <= s@.len(),
    ensures
        match r {
            Some((fs, j)) => sp_members(s@, i as int) == Some((deep_view_obj(fs@), j as int))
                && i < j <= s@.len(),
            None => sp_members(s@, i as int) is None,
        },
    decreases s@.len() - i, 1nat,
{
    let q = skip_ws_x(s, i);
    if q >= s.len() {
        return None;
    }
    if s[q] != '"' {
        return None;
    }
    match parse_strchars(s, q + 1) {
        None => None,
        Some((key, j)) => {
            let w = skip_ws_x(s, j);
            if w < s.len() && s[w] == ':' {
                match parse_value(s, w + 1) {
                    None => None,
                    Some((v, k)) => {
                        let u = skip_ws_x(s, k);
                        if u < s.len() && s[u] == '}' {
                            let mut fs: Vec<(Vec<char>, Value)> = Vec::new();
                            fs.push((key, v));
                            proof {
                                lemma_deep_view_obj(fs@);
                                assert(deep_view_obj(fs@) =~= seq![
                                    (fs@[0].0@, fs@[0].1.deep_view()),
                                ]);
                            }
                            Some((fs, u + 1))
                        } else if u < s.len() && s[u] == ',' {
                            match parse_members(s, u + 1) {
                                None => None,
                                Some((rest, m)) => {
                                    let ghost rest_view = rest@;
                                    let ghost key_view = key@;
                                    let ghost v_view = v.deep_view();
                                    let mut fs = rest;
                                    fs.insert(0, (key, v));
                                    proof {
                                        lemma_deep_view_obj(fs@);
                                        lemma_deep_view_obj(rest_view);
                                        assert(fs@ =~= seq![(fs@[0].0, fs@[0].1)] + rest_view);
                                        assert(deep_view_obj(fs@) =~= seq![(key_view, v_view)]
                                            + deep_view_obj(rest_view));
                                    }
                                    Some((fs, m))
                                },
                            }
                        } else {
                            None
                        }
                    },
                }
            } else {
                None
            }
        },
    }
}

/// Decodes one whole wire frame: the parsed value, provided the text is
/// consumed completely; corresponds exactly to [`sp_document`].
pub fn decode_value(s: &Vec<char>) -> (r: Option<Value>)
    ensures
        match r {
            Some(v) => sp_document(s@) == Some(v.deep_view()),
            None => sp_document(s@) is None,
        },
{
    match parse_value(s, 0) {
        Some((v, j)) => {
            let w = skip_ws_x(s, j);
            if w == s.len() {
                Some(v)
            } else {
                None
            }
        },
        None => None,
    }
}


// ------------------------------------------------------------------
// Round trip: parsing a printed value recovers it
// ------------------------------------------------------------------

/// Folds a run of digit characters onto an accumulator, left to right.
pub open spec fn fold_digits(ds: Seq<char>, acc: int) -> int
    decreases ds.len(),
{
    if ds.len() == 0 {
        acc
    } else {
        fold_digits(ds.drop_first(), acc * 10 + digit_val(ds[0]))
    }
}

proof fn lemma_sp_digits_run(s: Seq<char>, i: int, j: int, acc: int)
    requires
        0 <= i <= j <= s.len(),
        forall|k: int| i <= k < j ==> is_digit(s[k]),
        j == s.len() || !is_digit(s[j]),
    ensures
        sp_digits(s, i, acc) == (fold_digits(s.subrange(i, j), acc), j),
    decreases j - i,
{
    if i == j {
        assert(s.subrange(i, j) =~= Seq::<char>::empty());
    } else {
        assert(is_digit(s[i]));
        lemma_sp_digits_run(s, i + 1, j, acc * 10 + digit_val(s[i]));
        assert(s.subrange(i, j).drop_first() =~= s.subrange(i + 1, j));
        assert(s.subrange(i, j)[0] == s[i]);
        assert(fold_digits(s.subrange(i, j), acc)
            == fold_digits(s.subrange(i + 1, j), acc * 10 + digit_val(s[i])));
    }
}

proof fn lemma_fold_digits_push(ds: Seq<char>, d: char, acc: int)
    ensures
        fold_digits(ds.push(d), acc) == fold_digits(ds, acc) * 10 + digit_val(d),
    decreases ds.len(),
{
    if ds.len() == 0 {
        assert(ds.push(d).drop_first() =~= Seq::<char>::empty());
        assert(ds.push(d)[0] == d);
        assert(fold_digits(ds.push(d), acc) == fold_digits(
            Seq::<char>::empty(),
            acc * 10 + digit_val(d),
        ));
        assert(fold_digits(Seq::<char>::empty(), acc * 10 + digit_val(d))
            == acc * 10 + digit_val(d));
    } else {
        assert(ds.push(d)[0] == ds[0]);
        assert(ds.push(d).drop_first() =~= ds.drop_first().push(d));
        lemma_fold_digits_push(ds.drop_first(), d, acc * 10 + digit_val(ds[0]));
        assert(fold_digits(ds.push(d), acc) == fold_digits(
            ds.drop_first().push(d),
            acc * 10 + digit_val(ds[0]),
        ));
        assert(fold_digits(ds, acc) == fold_digits(ds.drop_first(), acc * 10 + digit_val(ds[0])));
    }
}

proof fn lemma_digit_char_val(n: int)
    requires
        0 <= n <= 9,
    ensures
        is_digit(digit_char_spec(n)),
        digit_val(digit_char_spec(n)) == n,
{
}

proof fn lemma_print_digits_shape(n: int)
    requires
        n >= 0,
    ensures
        print_digits(n).len() >= 1,
        forall|k: int| 0 <= k < print_digits(n).len() ==> is_digit(#[trigger] print_digits(n)[k]),
        (print_digits(n)[0] == '0') <==> (n == 0),
    decreases n,
{
    if n < 10 {
        lemma_digit_char_val(n);
        assert(print_digits(n) =~= seq![digit_char_spec(n)]);
        if n == 0 {
            assert(digit_char_spec(0) == '0');
        } else {
            assert(digit_char_spec(n) != '0');
        }
    } else {
        lemma_print_digits_shape(n / 10);
        lemma_digit_char_val(n % 10);
        let p = print_digits(n / 10);
        assert(print_digits(n) == p.push(digit_char_spec(n % 10)));
        assert(print_digits(n)[0] == p[0]);
        assert(n / 10 >= 1);
        assert forall|k: int| 0 <= k < print_digits(n).len() implies is_digit(
            #[trigger] print_digits(n)[k],
        ) by {
            if k < p.len() {
                assert(print_digits(n)[k] == p[k]);
            } else {
                assert(print_digits(n)[k] == digit_char_spec(n % 10));
            }
        }
    }
}

proof fn lemma_fold_print_digits(n: int)
    requires
        n >= 0,
    ensures
        fold_digits(print_digits(n), 0) == n,
    decreases n,
{
    if n < 10 {
        lemma_digit_char_val(n);
        assert(print_digits(n) =~= seq![digit_char_spec(n)]);
        assert(seq![digit_char_spec(n)].drop_first() =~= Seq::<char>::empty());
        assert(fold_digits(seq![digit_char_spec(n)], 0) == fold_digits(
            Seq::<char>::empty(),
            digit_val(digit_char_spec(n)),
        ));
        assert(fold_digits(Seq::<char>::empty(), digit_val(digit_char_spec(n)))
            == digit_val(digit_char_spec(n)));
        assert(fold_digits(print_digits(n), 0) == digit_val(digit_char_spec(n)));
    } else {
        lemma_fold_print_digits(n / 10);
        lemma_digit_char_val(n % 10);
        lemma_fold_digits_push(print_digits(n / 10), digit_char_spec(n % 10), 0);
    }
}

/// Positions at which a printed value may legally end inside a larger
/// frame: the end of the text or a separator or closer.
pub open spec fn follower_ok(s: Seq<char>, j: int) -> bool {
    j == s.len() || s[j] == ',' || s[j] == ']' || s[j] == '}'
}

proof fn lemma_parse_print_number(s: Seq<char>, i: int, n: i64)
    requires
        0 <= i,
        i + print_i64(n).len() <= s.len(),
        s.subrange(i, i + print_i64(n).len()) == print_i64(n),
        follower_ok(s, i + print_i64(n).len()),
    ensures
        sp_number(s, i) == Some((SValue::Num(n), i + print_i64(n).len())),
{
    let m = print_i64(n).len() as int;
    let end = i + m;
    assert(!is_digit(',') && !is_digit(']') && !is_digit('}'));
    if n >= 0 {
        lemma_print_digits_shape(n as int);
        assert(print_i64(n) == print_digits(n as int));
        assert forall|k: int| i <= k < end implies is_digit(s[k]) by {
            assert(s[k] == s.subrange(i, i + m)[k - i]);
            assert(print_digits(n as int)[k - i] == s.subrange(i, i + m)[k - i]);
        }
        assert(s[i] == s.subrange(i, i + m)[0]);
        assert(s[i] == print_digits(n as int)[0]);
        assert(is_digit(s[i]));
        assert(s[i] != '-');
        // no leading zero unless the number is exactly zero
        if s[i] == '0' {
            assert(n == 0);
            assert(m == 1);
        }
        lemma_sp_digits_run(s, i, end, 0);
        assert(s.subrange(i, end) == print_digits(n as int));
        lemma_fold_print_digits(n as int);
        assert(sp_digits(s, i, 0) == (n as int, end));
    } else {
        let mag = -(n as int);
        lemma_print_digits_shape(mag);
        assert(print_i64(n) == seq!['-'] + print_digits(mag));
        assert(s[i] == print_i64(n)[0]);
        assert(print_i64(n)[0] == '-');
        assert forall|k: int| i + 1 <= k < end implies is_digit(s[k]) by {
            assert(s[k] == s.subrange(i, i + m)[k - i]);
            assert(print_i64(n)[k - i] == print_digits(mag)[k - i - 1]);
        }
        assert(s[i + 1] == s.subrange(i, i + m)[1]);
        assert(print_i64(n)[1] == print_digits(mag)[0]);
        assert(is_digit(s[i + 1]));
        assert(mag >= 1);
        assert(s[i + 1] != '0');
        assert(s.subrange(i + 1, end) =~= print_digits(mag)) by {
            assert forall|k: int| 0 <= k < end - i - 1 implies s.subrange(i + 1, end)[k]
                == print_digits(mag)[k] by {
                assert(s.subrange(i + 1, end)[k] == s[i + 1 + k]);
                assert(s[i + 1 + k] == s.subrange(i, i + m)[k + 1]);
                assert(print_i64(n)[k + 1] == print_digits(mag)[k]);
            }
        }
        lemma_sp_digits_run(s, i + 1, end, 0);
        lemma_fold_print_digits(mag);
        assert(sp_digits(s, i + 1, 0) == (mag, end));
        assert(mag <= 0x8000_0000_0000_0000);
        assert((-mag) as i64 == n);
    }
}


proof fn lemma_skip_ws_here(s: Seq<char>, i: int)
    requires
        0 <= i <= s.len(),
        i == s.len() || !is_ws(s[i]),
    ensures
        skip_ws(s, i) == i,
{
}

proof fn lemma_print_value_head_not_ws(v: SValue)
    ensures
        print_value(v).len() >= 1,
        !is_ws(print_value(v)[0]),
{
    lemma_print_value_head(v);
    match v {
        SValue::Num(n) => {
            if n >= 0 {
                lemma_print_digits_shape(n as int);
                assert(is_digit(print_value(v)[0]));
            } else {
                assert(print_value(v)[0] == (seq!['-'] + print_digits(-(n as int)))[0]);
                assert(print_value(v)[0] == '-');
            }
        },
        SValue::Null => {
            assert(print_value(v)[0] == 'n');
        },
        SValue::Bool(b) => {
            assert(print_value(v)[0] == (if b { 't' } else { 'f' }));
        },
        SValue::Str(str0) => {
            assert(print_value(v)[0] == (seq!['"'] + escape_str(str0) + seq!['"'])[0]);
            assert(print_value(v)[0] == '"');
        },
        SValue::Arr(items) => {
            assert(print_value(v)[0] == (seq!['['] + print_elems(items) + seq![']'])[0]);
            assert(print_value(v)[0] == '[');
        },
        SValue::Obj(fields) => {
            assert(print_value(v)[0] == (seq!['{'] + print_members(fields) + seq!['}'])[0]);
            assert(print_value(v)[0] == '{');
        },
    }
}

proof fn lemma_char_code_round(c: char)
    ensures
        ((c as u32) as char) == c,
{
}

proof fn lemma_hex_char_val(n: int)
    requires
        0 <= n <= 15,
    ensures
        is_hex_digit(hex_char_spec(n)),
        hex_val(hex_char_spec(n)) == n,
{
}

proof fn lemma_parse_print_strchars(s: Seq<char>, i: int, body: Seq<char>)
    requires
        0 <= i,
        i + escape_str(body).len() + 1 <= s.len(),
        s.subrange(i, i + escape_str(body).len()) == escape_str(body),
        s[i + escape_str(body).len()] == '"',
    ensures
        sp_strchars(s, i) == Some((body, i + escape_str(body).len() + 1)),
    decreases body.len(),
{
    let m = escape_str(body).len() as int;
    if body.len() == 0 {
        assert(m == 0);
        assert(s[i] == '"');
    } else {
        let c = body[0];
        let rest = body.drop_first();
        let e = escape_char(c);
        assert(escape_str(body) == e + escape_str(rest));
        let el = e.len() as int;
        assert forall|k: int| 0 <= k < el implies s[i + k] == e[k] by {
            assert(s[i + k] == s.subrange(i, i + m)[k]);
            assert((e + escape_str(rest))[k] == e[k]);
        }
        assert(s.subrange(i + el, i + m) =~= escape_str(rest)) by {
            assert forall|k: int| 0 <= k < m - el implies s.subrange(i + el, i + m)[k]
                == escape_str(rest)[k] by {
                assert(s.subrange(i + el, i + m)[k] == s[i + el + k]);
                assert(s[i + el + k] == s.subrange(i, i + m)[el + k]);
                assert((e + escape_str(rest))[el + k] == escape_str(rest)[k]);
            }
        }
        lemma_parse_print_strchars(s, i + el, rest);
        if c == '"' || c == '\\' || c == '\u{8}' || c == '\t' || c == '\n' || c == '\u{c}'
            || c == '\r' {
            assert(el == 2);
            assert(s[i + 0] == e[0]);
            assert(s[i + 1] == e[1]);
            assert(s[i] == '\\');
            assert(s[i + 1] != 'u');
            assert(sp_strchars(s, i) == Some((seq![c] + rest, i + m + 1)));
        } else if (c as u32) < 32 {
            assert(el == 6);
            assert(s[i + 0] == e[0]);
            assert(s[i + 1] == e[1]);
            assert(s[i + 2] == e[2]);
            assert(s[i + 3] == e[3]);
            assert(s[i + 4] == e[4]);
            assert(s[i + 5] == e[5]);
            assert(s[i] == '\\' && s[i + 1] == 'u');
            assert(i + 5 < s.len());
            lemma_hex_char_val(c as u32 as int / 16);
            lemma_hex_char_val(c as u32 as int % 16);
            assert(hex_val('0') == 0);
            assert(is_hex_digit(s[i + 2]) && is_hex_digit(s[i + 3]) && is_hex_digit(s[i + 4])
                && is_hex_digit(s[i + 5]));
            assert(((hex_val(s[i + 2]) * 16 + hex_val(s[i + 3])) * 16 + hex_val(s[i + 4])) * 16
                + hex_val(s[i + 5]) == c as u32);
            assert(!(0xd800 <= c as u32 <= 0xdfff));
            lemma_char_code_round(c);
            assert(sp_strchars(s, i) == Some((seq![c] + rest, i + m + 1)));
        } else {
            assert(el == 1);
            assert(s[i + 0] == e[0]);
            assert(s[i] == c);
            assert(s[i] != '"' && s[i] != '\\');
            assert(sp_strchars(s, i) == Some((seq![c] + rest, i + m + 1)));
        }
        assert(seq![c] + rest =~= body);
    }
}

proof fn lemma_print_value_head(v: SValue)
    ensures
        print_value(v).len() >= 1,
        print_value(v)[0] != ']',
        print_value(v)[0] != '}',
{
    match v {
        SValue::Null => {},
        SValue::Bool(b) => {},
        SValue::Num(n) => {
            if n >= 0 {
                lemma_print_digits_shape(n as int);
                assert(print_value(v)[0] == print_digits(n as int)[0]);
                assert(is_digit(print_value(v)[0]));
                assert(!is_digit(']') && !is_digit('}'));
            } else {
                lemma_print_digits_shape(-(n as int));
                assert(print_value(v)[0] == (seq!['-'] + print_digits(-(n as int)))[0]);
                assert(print_value(v)[0] == '-');
            }
        },
        SValue::Str(str0) => {
            assert(print_value(v)[0] == (seq!['"'] + escape_str(str0) + seq!['"'])[0]);
            assert(print_value(v)[0] == '"');
        },
        SValue::Arr(items) => {
            assert(print_value(v)[0] == (seq!['['] + print_elems(items) + seq![']'])[0]);
            assert(print_value(v)[0] == '[');
        },
        SValue::Obj(fields) => {
            assert(print_value(v)[0] == (seq!['{'] + print_members(fields) + seq!['}'])[0]);
            assert(print_value(v)[0] == '{');
        },
    }
}


proof fn lemma_parse_print_value(s: Seq<char>, i: int, v: SValue)
    requires
        0 <= i,
        i + print_value(v).len() <= s.len(),
        s.subrange(i, i + print_value(v).len()) == print_value(v),
        follower_ok(s, i + print_value(v).len()),
    ensures
        sp_value(s, i) == Some((v, i + print_value(v).len())),
    decreases v, 0nat,
{
    let n = print_value(v).len() as int;
    assert forall|k: int| 0 <= k < n implies s[i + k] == print_value(v)[k] by {
        assert(s.subrange(i, i + n)[k] == s[i + k]);
    }
    lemma_print_value_head(v);
    assert(i < s.len());
    match v {
        SValue::Null => {
            assert(s[i] == 'n' && s[i + 1] == 'u' && s[i + 2] == 'l' && s[i + 3] == 'l');
            lemma_skip_ws_here(s, i);
        },
        SValue::Bool(b) => {
            if b {
                assert(s[i] == 't' && s[i + 1] == 'r' && s[i + 2] == 'u' && s[i + 3] == 'e');
            } else {
                assert(s[i] == 'f' && s[i + 1] == 'a' && s[i + 2] == 'l' && s[i + 3] == 's'
                    && s[i + 4] == 'e');
            }
            lemma_skip_ws_here(s, i);
        },
        SValue::Num(num) => {
            lemma_parse_print_number(s, i, num);
            assert(s[i] == print_i64(num)[0]);
            if num >= 0 {
                lemma_print_digits_shape(num as int);
                assert(is_digit(s[i]));
            } else {
                assert(s[i] == '-');
            }
            assert(s[i] != 'n' && s[i] != 't' && s[i] != 'f' && s[i] != '"');
            assert(!is_ws(s[i]));
            lemma_skip_ws_here(s, i);
            assert(sp_value(s, i) == sp_number(s, i));
        },
        SValue::Str(body) => {
            assert(print_value(v) == seq!['"'] + escape_str(body) + seq!['"']);
            let eb = escape_str(body).len() as int;
            assert(n == eb + 2);
            assert(s[i] == '"');
            assert(s.subrange(i + 1, i + 1 + eb) =~= escape_str(body)) by {
                assert forall|k: int| 0 <= k < eb implies s.subrange(i + 1, i + 1 + eb)[k]
                    == escape_str(body)[k] by {
                    assert(s.subrange(i + 1, i + 1 + eb)[k] == s[i + 1 + k]);
                    assert(print_value(v)[1 + k] == escape_str(body)[k]);
                }
            }
            assert(s[i + 1 + eb] == print_value(v)[n - 1]);
            assert(print_value(v)[n - 1] == '"');
            lemma_skip_ws_here(s, i);
            lemma_parse_print_strchars(s, i + 1, body);
            assert(sp_strchars(s, i + 1) == Some((body, i + n)));
        },
        SValue::Arr(items) => {
            assert(print_value(v) == seq!['['] + print_elems(items) + seq![']']);
            let pe = print_elems(items).len() as int;
            assert(n == pe + 2);
            assert(s[i] == '[');
            assert(s[i + 1 + pe] == print_value(v)[n - 1]);
            assert(print_value(v)[n - 1] == ']');
            lemma_skip_ws_here(s, i);
            if items.len() == 0 {
                assert(pe == 0);
                assert(s[i + 1] == ']');
                lemma_skip_ws_here(s, i + 1);
                assert(items =~= Seq::<SValue>::empty());
                assert(sp_value(s, i) == Some((SValue::Arr(Seq::<SValue>::empty()), i + 2)));
                assert(v == SValue::Arr(Seq::<SValue>::empty()));
            } else {
                lemma_print_value_head(items[0]);
                lemma_print_value_head_not_ws(items[0]);
                assert(print_elems(items)[0] == print_value(items[0])[0]);
                assert(s[i + 1] == print_value(v)[1]);
                assert(print_value(v)[1] == print_elems(items)[0]);
                assert(s[i + 1] != ']');
                assert(!is_ws(s[i + 1]));
                lemma_skip_ws_here(s, i + 1);
                assert(s.subrange(i + 1, i + 1 + pe) =~= print_elems(items)) by {
                    assert forall|k: int| 0 <= k < pe implies s.subrange(i + 1, i + 1 + pe)[k]
                        == print_elems(items)[k] by {
                        assert(s.subrange(i + 1, i + 1 + pe)[k] == s[i + 1 + k]);
                        assert(print_value(v)[1 + k] == print_elems(items)[k]);
                    }
                }
                assert(follower_ok(s, i + 1 + pe + 1));
                lemma_parse_print_elems(s, i + 1, items);
                assert(sp_elems(s, i + 1) == Some((items, i + n)));
            }
        },
        SValue::Obj(fields) => {
            assert(print_value(v) == seq!['{'] + print_members(fields) + seq!['}']);
            let pm = print_members(fields).len() as int;
            assert(n == pm + 2);
            assert(s[i] == '{');
            assert(s[i + 1 + pm] == print_value(v)[n - 1]);
            assert(print_value(v)[n - 1] == '}');
            lemma_skip_ws_here(s, i);
            if fields.len() == 0 {
                assert(pm == 0);
                assert(s[i + 1] == '}');
                lemma_skip_ws_here(s, i + 1);
                assert(fields =~= Seq::<(Seq<char>, SValue)>::empty());
                assert(sp_value(s, i) == Some((
                    SValue::Obj(Seq::<(Seq<char>, SValue)>::empty()),
                    i + 2,
                )));
                assert(v == SValue::Obj(Seq::<(Seq<char>, SValue)>::empty()));
            } else {
                assert(print_members(fields)[0] == print_string(fields[0].0)[0]);
                assert(print_string(fields[0].0)[0] == '"');
                assert(s[i + 1] == print_value(v)[1]);
                assert(print_value(v)[1] == print_members(fields)[0]);
                assert(s[i + 1] != '}');
                assert(s[i + 1] == '"');
                lemma_skip_ws_here(s, i + 1);
                assert(s.subrange(i + 1, i + 1 + pm) =~= print_members(fields)) by {
                    assert forall|k: int| 0 <= k < pm implies s.subrange(i + 1, i + 1 + pm)[k]
                        == print_members(fields)[k] by {
                        assert(s.subrange(i + 1, i + 1 + pm)[k] == s[i + 1 + k]);
                        assert(print_value(v)[1 + k] == print_members(fields)[k]);
                    }
                }
                assert(follower_ok(s, i + 1 + pm + 1));
                lemma_parse_print_members(s, i + 1, fields);
                assert(sp_members(s, i + 1) == Some((fields, i + n)));
            }
        },
    }
}

proof fn lemma_parse_print_elems(s: Seq<char>, i: int, vs: Seq<SValue>)
    requires
        0 <= i,
        vs.len() >= 1,
        i + print_elems(vs).len() + 1 <= s.len(),
        s.subrange(i, i + print_elems(vs).len()) == print_elems(vs),
        s[i + print_elems(vs).len()] == ']',
        follower_ok(s, i + print_elems(vs).len() + 1),
    ensures
        sp_elems(s, i) == Some((vs, i + print_elems(vs).len() + 1)),
    decreases vs, 1nat,
{
    let pe = print_elems(vs).len() as int;
    assert forall|k: int| 0 <= k < pe implies s[i + k] == print_elems(vs)[k] by {
        assert(s.subrange(i, i + pe)[k] == s[i + k]);
    }
    lemma_print_value_head(vs[0]);
    let n0 = print_value(vs[0]).len() as int;
    if vs.len() == 1 {
        assert(print_elems(vs) == print_value(vs[0]));
        assert(s.subrange(i, i + n0) == print_value(vs[0]));
        assert(s[i + n0] == ']');
        lemma_parse_print_value(s, i, vs[0]);
        assert(sp_value(s, i) == Some((vs[0], i + n0)));
        assert(seq![vs[0]] =~= vs);
        assert(sp_elems(s, i) == Some((vs, i + pe + 1)));
    } else {
        let rest = vs.drop_first();
        assert(print_elems(vs) == print_value(vs[0]) + seq![','] + print_elems(rest));
        let pr = print_elems(rest).len() as int;
        assert(pe == n0 + 1 + pr);
        assert(s.subrange(i, i + n0) =~= print_value(vs[0])) by {
            assert forall|k: int| 0 <= k < n0 implies s.subrange(i, i + n0)[k]
                == print_value(vs[0])[k] by {
                assert(s.subrange(i, i + n0)[k] == s[i + k]);
                assert(print_elems(vs)[k] == print_value(vs[0])[k]);
            }
        }
        assert(s[i + n0] == print_elems(vs)[n0]);
        assert(print_elems(vs)[n0] == ',');
        lemma_parse_print_value(s, i, vs[0]);
        assert(sp_value(s, i) == Some((vs[0], i + n0)));
        let j = i + n0;
        assert(s.subrange(j + 1, j + 1 + pr) =~= print_elems(rest)) by {
            assert forall|k: int| 0 <= k < pr implies s.subrange(j + 1, j + 1 + pr)[k]
                == print_elems(rest)[k] by {
                assert(s.subrange(j + 1, j + 1 + pr)[k] == s[j + 1 + k]);
                assert(print_elems(vs)[n0 + 1 + k] == print_elems(rest)[k]);
            }
        }
        assert(s[j + 1 + pr] == ']');
        assert(follower_ok(s, j + 1 + pr + 1));
        lemma_parse_print_elems(s, j + 1, rest);
        assert(sp_elems(s, j + 1) == Some((rest, j + 1 + pr + 1)));
        assert(seq![vs[0]] + rest =~= vs);
        assert(sp_elems(s, i) == Some((vs, i + pe + 1)));
    }
}

proof fn lemma_parse_print_members(s: Seq<char>, i: int, fs: Seq<(Seq<char>, SValue)>)
    requires
        0 <= i,
        fs.len() >= 1,
        i + print_members(fs).len() + 1 <= s.len(),
        s.subrange(i, i + print_members(fs).len()) == print_members(fs),
        s[i + print_members(fs).len()] == '}',
        follower_ok(s, i + print_members(fs).len() + 1),
    ensures
        sp_members(s, i) == Some((fs, i + print_members(fs).len() + 1)),
    decreases fs, 1nat,
{
    let pm = print_members(fs).len() as int;
    assert forall|k: int| 0 <= k < pm implies s[i + k] == print_members(fs)[k] by {
        assert(s.subrange(i, i + pm)[k] == s[i + k]);
    }
    let key = fs[0].0;
    let v0 = fs[0].1;
    let ps = print_string(key).len() as int;
    let eb = escape_str(key).len() as int;
    assert(ps == eb + 2);
    let n0 = print_value(v0).len() as int;
    lemma_print_value_head(v0);
    let head = print_string(key) + seq![':'] + print_value(v0);
    let hl = ps + 1 + n0;
    if fs.len() == 1 {
        assert(print_members(fs) == head);
        assert(pm == hl);
    } else {
        assert(print_members(fs) == head + seq![','] + print_members(fs.drop_first()));
    }
    assert forall|k: int| 0 <= k < hl implies s[i + k] == head[k] by {
        if fs.len() == 1 {
            assert(print_members(fs)[k] == head[k]);
        } else {
            assert(print_members(fs)[k] == (head + seq![','] + print_members(
                fs.drop_first(),
            ))[k]);
            assert((head + seq![','] + print_members(fs.drop_first()))[k] == head[k]);
        }
    }
    // the key string
    assert(s[i] == head[0]);
    assert(head[0] == print_string(key)[0]);
    assert(print_string(key)[0] == '"');
    assert(s.subrange(i + 1, i + 1 + eb) =~= escape_str(key)) by {
        assert forall|k: int| 0 <= k < eb implies s.subrange(i + 1, i + 1 + eb)[k]
            == escape_str(key)[k] by {
            assert(s.subrange(i + 1, i + 1 + eb)[k] == s[i + 1 + k]);
            assert(head[1 + k] == print_string(key)[1 + k]);
            assert(print_string(key)[1 + k] == escape_str(key)[k]);
        }
    }
    assert(s[i + 1 + eb] == head[ps - 1]);
    assert(head[ps - 1] == print_string(key)[ps - 1]);
    assert(print_string(key)[ps - 1] == '"');
    lemma_parse_print_strchars(s, i + 1, key);
    let j = i + ps;
    assert(sp_strchars(s, i + 1) == Some((key, j)));
    // the colon
    assert(s[j] == head[ps]);
    assert(head[ps] == ':');
    // the value
    assert(s.subrange(j + 1, j + 1 + n0) =~= print_value(v0)) by {
        assert forall|k: int| 0 <= k < n0 implies s.subrange(j + 1, j + 1 + n0)[k]
            == print_value(v0)[k] by {
            assert(s.subrange(j + 1, j + 1 + n0)[k] == s[j + 1 + k]);
            assert(head[ps + 1 + k] == print_value(v0)[k]);
        }
    }
    let kpos = j + 1 + n0;
    assert(kpos == i + hl);
    if fs.len() == 1 {
        assert(s[kpos] == '}');
        lemma_parse_print_value(s, j + 1, v0);
        assert(sp_value(s, j + 1) == Some((v0, kpos)));
        assert((key, v0) == fs[0]);
        assert(seq![(key, v0)] =~= fs);
        assert(sp_members(s, i) == Some((fs, i + pm + 1)));
    } else {
        let rest = fs.drop_first();
        let pr = print_members(rest).len() as int;
        assert(pm == hl + 1 + pr);
        assert(s[kpos] == print_members(fs)[hl]);
        assert(print_members(fs)[hl] == (head + seq![','] + print_members(rest))[hl]);
        assert((head + seq![','] + print_members(rest))[hl] == ',');
        lemma_parse_print_value(s, j + 1, v0);
        assert(sp_value(s, j + 1) == Some((v0, kpos)));
        assert(s.subrange(kpos + 1, kpos + 1 + pr) =~= print_members(rest)) by {
            assert forall|k: int| 0 <= k < pr implies s.subrange(kpos + 1, kpos + 1 + pr)[k]
                == print_members(rest)[k] by {
                assert(s.subrange(kpos + 1, kpos + 1 + pr)[k] == s[kpos + 1 + k]);
                assert(print_members(fs)[hl + 1 + k] == (head + seq![','] + print_members(
                    rest,
                ))[hl + 1 + k]);
                assert((head + seq![','] + print_members(rest))[hl + 1 + k]
                    == print_members(rest)[k]);
            }
        }
        assert(s[kpos + 1 + pr] == '}');
        assert(follower_ok(s, kpos + 1 + pr + 1));
        lemma_parse_print_members(s, kpos + 1, rest);
        assert(sp_members(s, kpos + 1) == Some((rest, kpos + 1 + pr + 1)));
        assert((key, v0) == fs[0]);
        assert(seq![(key, v0)] + rest =~= fs);
        assert(sp_members(s, i) == Some((fs, i + pm + 1)));
    }
}

/// Decoding inverts encoding: the wire text of any value decodes back to
/// exactly that value.
pub proof fn lemma_value_round_trip(v: SValue)
    ensures
        sp_document(print_value(v)) == Some(v),
{
    let s = print_value(v);
    lemma_print_value_head(v);
    assert(s.subrange(0, s.len() as int) =~= s);
    lemma_parse_print_value(s, 0, v);
}

} // verus!
