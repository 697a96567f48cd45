//! Verified JSON encoding of literal, default and description values.
//!
//! Strings are escaped the way the common Rust JSON serializers do: `"`,
//! `\`, and the named control escapes `\b`, `\t`, `\n`, `\f`, `\r` get a
//! two-character escape, every other control character below U+0020 becomes
//! `\u00XX` with lowercase hex digits, and all other characters pass
//! through.  Numbers are carried as decimal text and are checked against the
//! JSON number grammar before being spliced into the output.

use vstd::prelude::*;

verus! {

use crate::emit::{join_with, push_char, views_of};
use crate::schema::JsonValue;
use crate::{list_matches, text_matches};
use crate::Error;

/// Whether the character is a decimal digit.
pub open spec fn is_digit(c: char) -> bool {
    48 <= c as u32 && c as u32 <= 57
}

/// The lowercase hexadecimal digit character of a value below sixteen.
pub open spec fn hex_digit(n: nat) -> char {
    if n < 10 {
        crate::emit::dec_digit(n)
    } else if n == 10 {
        'a'
    } else if n == 11 {
        'b'
    } else if n == 12 {
        'c'
    } else if n == 13 {
        'd'
    } else if n == 14 {
        'e'
    } else {
        'f'
    }
}

/// The escape of one character inside a JSON string literal.
pub open spec fn esc_char(c: char) -> Seq<char> {
    if c == '"' {
        seq!['\\', '"']
    } else if c == '\\' {
        seq!['\\', '\\']
    } else if c == '\u{8}' {
        seq!['\\', 'b']
    } else if c == '\t' {
        seq!['\\', 't']
    } else if c == '\n' {
        seq!['\\', 'n']
    } else if c == '\u{c}' {
        seq!['\\', 'f']
    } else if c == '\r' {
        seq!['\\', 'r']
    } else if (c as u32) < 32 {
        seq!['\\', 'u', '0', '0', hex_digit((c as u32 / 16) as nat), hex_digit((c as u32 % 16) as nat)]
    } else {
        seq![c]
    }
}

/// The escaped body of a JSON string literal.
pub open spec fn json_str_body(s: Seq<char>) -> Seq<char>
    decreases s.len(),
{
    if s.len() == 0 {
        Seq::empty()
    } else {
        json_str_body(s.drop_last()) + esc_char(s.last())
    }
}

/// The JSON string literal encoding the given characters.
pub open spec fn json_string(s: Seq<char>) -> Seq<char> {
    seq!['"'] + json_str_body(s) + seq!['"']
}

/// The first position at or after `i` that does not hold a digit.
pub open spec fn digits_end(s: Seq<char>, i: int) -> int
    decreases s.len() - i,
{
    if i < s.len() && is_digit(s[i]) {
        digits_end(s, i + 1)
    } else {
        i
    }
}

/// The end of the optional fraction part starting at `i`, or a negative
/// value when a fraction starts but has no digits.
pub open spec fn frac_end_at(s: Seq<char>, i: int) -> int {
    if i < s.len() && s[i] == '.' {
        if digits_end(s, i + 1) > i + 1 {
            digits_end(s, i + 1)
        } else {
            -1
        }
    } else {
        i
    }
}

/// The end of the optional exponent part starting at `i`, or a negative
/// value when `i` is negative or an exponent starts but has no digits.
pub open spec fn exp_end_at(s: Seq<char>, i: int) -> int {
    if i < 0 {
        -1
    } else if i < s.len() && (s[i] == 'e' || s[i] == 'E') {
        if i + 1 < s.len() && (s[i + 1] == '+' || s[i + 1] == '-') {
            if digits_end(s, i + 2) > i + 2 {
                digits_end(s, i + 2)
            } else {
                -1
            }
        } else {
            if digits_end(s, i + 1) > i + 1 {
                digits_end(s, i + 1)
            } else {
                -1
            }
        }
    } else {
        i
    }
}

/// Whether the text is a number of the JSON grammar: an optional minus, an
/// integer part without superfluous leading zero, an optional fraction, and
/// an optional exponent.
pub open spec fn is_json_number(s: Seq<char>) -> bool {
    let start = if s.len() > 0 && s[0] == '-' {
        1int
    } else {
        0int
    };
    let int_end = digits_end(s, start);
    &&& int_end > start
    &&& (s[start] != '0' || int_end == start + 1)
    &&& exp_end_at(s, frac_end_at(s, int_end)) == s.len()
}

/// The JSON encoding of a value, or the kind of error when a number literal
/// is not in JSON decimal form.
pub open spec fn json_value(v: JsonValue) -> Result<Seq<char>, Error>
    decreases v, 0int,
{
    match v {
        JsonValue::Null => Ok("null"@),
        JsonValue::Bool(b) => Ok(if b {
            "true"@
        } else {
            "false"@
        }),
        JsonValue::Number(s) => if is_json_number(s@) {
            Ok(s@)
        } else {
            Err(Error::JsonError("a number literal is not in JSON decimal form"))
        },
        JsonValue::String(s) => Ok(json_string(s@)),
        JsonValue::Array(vs) => match json_items(vs@) {
            Ok(parts) => Ok(seq!['['] + join_with(parts, ","@) + seq![']']),
            Err(k) => Err(k),
        },
        JsonValue::Object(fs) => match json_fields(fs@) {
            Ok(parts) => Ok(seq!['{'] + join_with(parts, ","@) + seq!['}']),
            Err(k) => Err(k),
        },
    }
}

/// The encodings of the elements of a JSON array, or the first error.
pub open spec fn json_items(vs: Seq<JsonValue>) -> Result<Seq<Seq<char>>, Error>
    decreases vs, 1int,
{
    if vs.len() == 0 {
        Ok(Seq::empty())
    } else {
        match json_items(vs.drop_last()) {
            Ok(parts) => match json_value(vs.last()) {
                Ok(t) => Ok(parts.push(t)),
                Err(k) => Err(k),
            },
            Err(k) => Err(k),
        }
    }
}

/// The `"key":value` member encodings of a JSON object, or the first error.
pub open spec fn json_fields(fs: Seq<(String, JsonValue)>) -> Result<Seq<Seq<char>>, Error>
    decreases fs, 1int,
{
    if fs.len() == 0 {
        Ok(Seq::empty())
    } else {
        match json_fields(fs.drop_last()) {
            Ok(parts) => match json_value(fs.last().1) {
                Ok(t) => Ok(parts.push(json_string(fs.last().0@) + ":"@ + t)),
                Err(k) => Err(k),
            },
            Err(k) => Err(k),
        }
    }
}

/// Whether the character is a decimal digit.
fn is_digit_exec(c: char) -> (r: bool)
    ensures
        r == is_digit(c),
{
    let u = c as u32;
    48 <= u && u <= 57
}

/// The lowercase hexadecimal digit character of a value below sixteen.
fn hex_digit_exec(n: u32) -> (c: char)
    requires
        n < 16,
    ensures
        c == hex_digit(n as nat),
{
    match n {
        0 => '0',
        1 => '1',
        2 => '2',
        3 => '3',
        4 => '4',
        5 => '5',
        6 => '6',
        7 => '7',
        8 => '8',
        9 => '9',
        10 => 'a',
        11 => 'b',
        12 => 'c',
        13 => 'd',
        14 => 'e',
        _ => 'f',
    }
}

/// Append the escape of one character to the output.
fn append_escaped(out: &mut String, c: char)
    ensures
        final(out)@ == old(out)@ + esc_char(c),
{
    let ghost start = out@;
    if c == '"' {
        push_char(out, '\\');
        push_char(out, '"');
    } else if c == '\\' {
        push_char(out, '\\');
        push_char(out, '\\');
    } else if c == '\u{8}' {
        push_char(out, '\\');
        push_char(out, 'b');
    } else if c == '\t' {
        push_char(out, '\\');
        push_char(out, 't');
    } else if c == '\n' {
        push_char(out, '\\');
        push_char(out, 'n');
    } else if c == '\u{c}' {
        push_char(out, '\\');
        push_char(out, 'f');
    } else if c == '\r' {
        push_char(out, '\\');
        push_char(out, 'r');
    } else if (c as u32) < 32 {
        let u = c as u32;
        push_char(out, '\\');
        push_char(out, 'u');
        push_char(out, '0');
        push_char(out, '0');
        push_char(out, hex_digit_exec(u / 16));
        push_char(out, hex_digit_exec(u % 16));
    } else {
        push_char(out, c);
    }
    proof {
        assert(out@ =~= start + esc_char(c));
    }
}

/// The JSON string literal encoding the given text.
pub(crate) fn json_quote(s: &str) -> (r: String)
    ensures
        r@ == json_string(s@),
{
    let mut out = String::new();
    push_char(&mut out, '"');
    assert(out@ =~= seq!['"'] + json_str_body(s@.take(0)));
    let n = s.unicode_len();
    for i in 0..n
        invariant
            n == s@.len(),
            out@ == seq!['"'] + json_str_body(s@.take(i as int)),
    {
        append_escaped(&mut out, s.get_char(i));
        proof {
            assert(s@.take(i + 1).drop_last() =~= s@.take(i as int));
            assert(s@.take(i + 1).last() == s@[i as int]);
            assert(out@ =~= seq!['"'] + json_str_body(s@.take(i + 1)));
        }
    }
    push_char(&mut out, '"');
    proof {
        assert(s@.take(n as int) =~= s@);
        assert(out@ =~= json_string(s@));
    }
    out
}

/// The first position at or after `i` that does not hold a digit.
fn digits_end_exec(s: &str, i: usize) -> (r: usize)
    requires
        i <= s@.len(),
    ensures
        r == digits_end(s@, i as int),
        i <= r <= s@.len(),
    decreases s@.len() - i,
{
    if i < s.unicode_len() && is_digit_exec(s.get_char(i)) {
        digits_end_exec(s, i + 1)
    } else {
        i
    }
}

/// Whether the text is a number of the JSON grammar.
pub(crate) fn check_json_number(s: &str) -> (r: bool)
    ensures
        r == is_json_number(s@),
{
    let n = s.unicode_len();
    let start: usize = if n > 0 && s.get_char(0) == '-' {
        1
    } else {
        0
    };
    let int_end = digits_end_exec(s, start);
    if int_end == start {
        return false;
    }
    if s.get_char(start) == '0' && int_end != start + 1 {
        return false;
    }
    let frac_end: usize = if int_end < n && s.get_char(int_end) == '.' {
        let d = digits_end_exec(s, int_end + 1);
        if d == int_end + 1 {
            return false;
        }
        d
    } else {
        int_end
    };
    let exp_end: usize = if frac_end < n && (s.get_char(frac_end) == 'e' || s.get_char(frac_end)
        == 'E') {
        let j: usize = if frac_end + 1 < n && (s.get_char(frac_end + 1) == '+' || s.get_char(
            frac_end + 1,
        ) == '-') {
            frac_end + 2
        } else {
            frac_end + 1
        };
        let d = digits_end_exec(s, j);
        if d == j {
            return false;
        }
        d
    } else {
        frac_end
    };
    exp_end == n
}

/// If every value before position `i` encodes and the value at `i` fails,
/// the whole element list fails with that error.
proof fn lemma_json_items_err(vs: Seq<JsonValue>, i: int, err: Error)
    requires
        0 <= i < vs.len(),
        json_items(vs.take(i)) is Ok,
        json_value(vs[i]) == Err::<Seq<char>, Error>(err),
    ensures
        json_items(vs) == Err::<Seq<Seq<char>>, Error>(err),
    decreases vs.len(),
{
    if vs.len() == i + 1 {
        assert(vs.take(i) =~= vs.drop_last());
        assert(vs.last() == vs[i]);
    } else {
        assert(vs.drop_last().take(i) =~= vs.take(i));
        assert(vs.drop_last()[i] == vs[i]);
        lemma_json_items_err(vs.drop_last(), i, err);
    }
}

/// If every member before position `i` encodes and the member value at `i`
/// fails, the whole member list fails with that error.
proof fn lemma_json_fields_err(fs: Seq<(String, JsonValue)>, i: int, err: Error)
    requires
        0 <= i < fs.len(),
        json_fields(fs.take(i)) is Ok,
        json_value(fs[i].1) == Err::<Seq<char>, Error>(err),
    ensures
        json_fields(fs) == Err::<Seq<Seq<char>>, Error>(err),
    decreases fs.len(),
{
    if fs.len() == i + 1 {
        assert(fs.take(i) =~= fs.drop_last());
        assert(fs.last() == fs[i]);
    } else {
        assert(fs.drop_last().take(i) =~= fs.take(i));
        assert(fs.drop_last()[i] == fs[i]);
        lemma_json_fields_err(fs.drop_last(), i, err);
    }
}

/// The JSON encodings of a list of values; fails with `JsonError` when a
/// number literal is not in JSON decimal form.
pub(crate) fn encode_json_values(vs: &Vec<JsonValue>) -> (r: Result<Vec<String>, Error>)
    ensures
        list_matches(r, json_items(vs@)),
    decreases vs@, 1int,
{
    let mut parts: Vec<String> = Vec::new();
    let n = vs.len();
    assert(vs@.take(0) =~= Seq::<JsonValue>::empty());
    assert(views_of(parts@) =~= Seq::<Seq<char>>::empty());
    for i in 0..n
        invariant
            n == vs@.len(),
            json_items(vs@.take(i as int)) == Ok::<Seq<Seq<char>>, Error>(views_of(parts@)),
    {
        proof {
            assert(decreases_to!(vs@ => vs@[i as int]));
        }
        let ghost prev = views_of(parts@);
        match encode_json_value(&vs[i]) {
            Ok(t) => {
                let ghost tv = t@;
                parts.push(t);
                proof {
                    assert(views_of(parts@) =~~= prev.push(tv));
                    assert(vs@.take(i + 1).drop_last() =~= vs@.take(i as int));
                    assert(vs@.take(i + 1).last() == vs@[i as int]);
                    assert(json_items(vs@.take(i + 1)) == Ok::<Seq<Seq<char>>, Error>(
                        views_of(parts@),
                    ));
                }
            },
            Err(e) => {
                proof {
                    lemma_json_items_err(vs@, i as int, e);
                }
                return Err(e);
            },
        }
    }
    proof {
        assert(vs@.take(n as int) =~= vs@);
    }
    Ok(parts)
}

/// The JSON encoding of a value; fails with `JsonError` when a number
/// literal is not in JSON decimal form.
pub(crate) fn encode_json_value(v: &JsonValue) -> (r: Result<String, Error>)
    ensures
        text_matches(r, json_value(*v)),
    decreases *v, 0int,
{
    match v {
        JsonValue::Null => Ok("null".to_owned()),
        JsonValue::Bool(b) => Ok(
            if *b {
                "true".to_owned()
            } else {
                "false".to_owned()
            },
        ),
        JsonValue::Number(s) => {
            if check_json_number(s.as_str()) {
                Ok(s.clone())
            } else {
                Err(Error::JsonError("a number literal is not in JSON decimal form"))
            }
        },
        JsonValue::String(s) => Ok(json_quote(s.as_str())),
        JsonValue::Array(vs) => {
            proof {
                assert(decreases_to!(*v => v->Array_0));
                assert(decreases_to!(v->Array_0 => v->Array_0@));
            }
            match encode_json_values(vs) {
                Ok(parts) => {
                    let mut out = String::new();
                    push_char(&mut out, '[');
                    let joined = crate::emit::join_strings(&parts, ",");
                    out.append(joined.as_str());
                    push_char(&mut out, ']');
                    proof {
                        assert(out@ =~= seq!['['] + join_with(views_of(parts@), ","@) + seq![
                            ']',
                        ]);
                    }
                    Ok(out)
                },
                Err(e) => Err(e),
            }
        },
        JsonValue::Object(fs) => {
            let mut parts: Vec<String> = Vec::new();
            let n = fs.len();
            assert(fs@.take(0) =~= Seq::<(String, JsonValue)>::empty());
            assert(views_of(parts@) =~= Seq::<Seq<char>>::empty());
            for i in 0..n
                invariant
                    n == fs@.len(),
                    v is Object,
                    fs@ == v->Object_0@,
                    json_fields(fs@.take(i as int)) == Ok::<Seq<Seq<char>>, Error>(
                        views_of(parts@),
                    ),
            {
                proof {
                    assert(decreases_to!(*v => v->Object_0));
                    assert(decreases_to!(v->Object_0 => v->Object_0@));
                    assert(decreases_to!(fs@ => fs@[i as int]));
                    assert(decreases_to!(fs@[i as int] => fs@[i as int].1));
                }
                let ghost prev = views_of(parts@);
                match encode_json_value(&fs[i].1) {
                    Ok(t) => {
                        let mut entry = json_quote(fs[i].0.as_str());
                        entry.append(":");
                        entry.append(t.as_str());
                        let ghost ev = entry@;
                        parts.push(entry);
                        proof {
                            assert(ev =~= json_string(fs@[i as int].0@) + ":"@ + t@);
                            assert(views_of(parts@) =~~= prev.push(ev));
                            assert(fs@.take(i + 1).drop_last() =~= fs@.take(i as int));
                            assert(fs@.take(i + 1).last() == fs@[i as int]);
                            assert(json_fields(fs@.take(i + 1)) == Ok::<Seq<Seq<char>>, Error>(
                                views_of(parts@),
                            ));
                        }
                    },
                    Err(e) => {
                        proof {
                            lemma_json_fields_err(fs@, i as int, e);
                        }
                        return Err(e);
                    },
                }
            }
            proof {
                assert(fs@.take(n as int) =~= fs@);
            }
            let mut out = String::new();
            push_char(&mut out, '{');
            let joined = crate::emit::join_strings(&parts, ",");
            out.append(joined.as_str());
            push_char(&mut out, '}');
            proof {
                assert(out@ =~= seq!['{'] + join_with(views_of(parts@), ","@) + seq!['}']);
            }
            Ok(out)
        },
    }
}

} // verus!
