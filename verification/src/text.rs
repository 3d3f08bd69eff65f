//! The compact wire text of a JSON value, and a printer proved to emit
//! exactly that text.
//!
//! Strings are quoted with the usual escapes: quote, backslash, and the
//! named control characters; any other control character becomes a
//! `\u00``xx` escape with lowercase hex digits. Everything else, including
//! text outside ASCII, is written as itself.

use vstd::prelude::*;

use crate::json::{vals_view, pairs_view, JsonVal, JsonValue};

verus! {

broadcast use vstd::seq::group_seq_axioms;

/// The decimal digit character for a value below ten.
pub open spec fn digit_char(n: int) -> char {
    if n == 0 {
        '0'
    } else if n == 1 {
        '1'
    } else if n == 2 {
        '2'
    } else if n == 3 {
        '3'
    } else if n == 4 {
        '4'
    } else if n == 5 {
        '5'
    } else if n == 6 {
        '6'
    } else if n == 7 {
        '7'
    } else if n == 8 {
        '8'
    } else {
        '9'
    }
}

/// The lowercase hex digit character for a value below sixteen.
pub open spec fn hex_char(n: int) -> char {
    if n < 10 {
        digit_char(n)
    } else if n == 10 {
        'a'
    } else if n == 11 {
        'b'
    } else if n == 12 {
        'c'
    } else if n == 13 {
        'd'
    } else if n == 14 {
        'e'
    } else {
        'f'
    }
}

/// The decimal digits of a non-negative number, most significant first.
pub open spec fn dec_digits(n: int) -> Seq<char>
    decreases n,
{
    if n < 10 {
        seq![digit_char(n)]
    } else {
        dec_digits(n / 10) + seq![digit_char(n % 10)]
    }
}

/// The decimal text of an integer.
pub open spec fn int_text(i: int) -> Seq<char> {
    if i < 0 {
        seq!['-'] + dec_digits(-i)
    } else {
        dec_digits(i)
    }
}

/// What a character contributes to a quoted string.
pub open spec fn esc_char(c: char) -> Seq<char> {
    if c == '"' {
        seq!['\\', '"']
    } else if c == '\\' {
        seq!['\\', '\\']
    } else if c == '\u{8}' {
        seq!['\\', 'b']
    } else if c == '\t' {
        seq!['\\', 't']
    } else if c == '\n' {
        seq!['\\', 'n']
    } else if c == '\u{c}' {
        seq!['\\', 'f']
    } else if c == '\r' {
        seq!['\\', 'r']
    } else if (c as u32) < 0x20 {
        seq!['\\', 'u', '0', '0', hex_char((c as u32) as int / 16), hex_char((c as u32) as int % 16)]
    } else {
        seq![c]
    }
}

/// The escaped body of a quoted string.
pub open spec fn escape_chars(s: Seq<char>) -> Seq<char>
    decreases s,
{
    if s.len() == 0 {
        Seq::empty()
    } else {
        esc_char(s[0]) + escape_chars(s.drop_first())
    }
}

/// A quoted string.
pub open spec fn quoted(s: Seq<char>) -> Seq<char> {
    seq!['"'] + escape_chars(s) + seq!['"']
}

/// The compact wire text of a JSON value.
pub open spec fn text_of(v: JsonVal) -> Seq<char>
    decreases v,
{
    match v {
        JsonVal::Null => seq!['n', 'u', 'l', 'l'],
        JsonVal::Bool(b) => if b {
            seq!['t', 'r', 'u', 'e']
        } else {
            seq!['f', 'a', 'l', 's', 'e']
        },
        JsonVal::Int(i) => int_text(i),
        JsonVal::Str(s) => quoted(s),
        JsonVal::Arr(items) => seq!['['] + arr_text(items) + seq![']'],
        JsonVal::Obj(pairs) => seq!['{'] + obj_text(pairs) + seq!['}'],
    }
}

/// The comma-separated texts of an array's elements.
pub open spec fn arr_text(items: Seq<JsonVal>) -> Seq<char>
    decreases items,
{
    if items.len() == 0 {
        Seq::empty()
    } else if items.len() == 1 {
        text_of(items[0])
    } else {
        text_of(items[0]) + seq![','] + arr_text(items.drop_first())
    }
}

/// The comma-separated `key:value` texts of an object's fields.
pub open spec fn obj_text(pairs: Seq<(Seq<char>, JsonVal)>) -> Seq<char>
    decreases pairs,
{
    if pairs.len() == 0 {
        Seq::empty()
    } else if pairs.len() == 1 {
        quoted(pairs[0].0) + seq![':'] + text_of(pairs[0].1)
    } else {
        quoted(pairs[0].0) + seq![':'] + text_of(pairs[0].1) + seq![','] + obj_text(
            pairs.drop_first(),
        )
    }
}

proof fn lemma_escape_snoc(s: Seq<char>, c: char)
    ensures
        escape_chars(s.push(c)) == escape_chars(s) + esc_char(c),
    decreases s,
{
    if s.len() == 0 {
        assert(s.push(c)[0] == c);
        assert(s.push(c).drop_first() =~= Seq::<char>::empty());
        assert(escape_chars(s.push(c)) == esc_char(c) + escape_chars(Seq::<char>::empty()));
        assert(escape_chars(s.push(c)) =~= escape_chars(s) + esc_char(c));
    } else {
        assert(s.push(c)[0] == s[0]);
        assert(s.push(c).drop_first() =~= s.drop_first().push(c));
        lemma_escape_snoc(s.drop_first(), c);
        assert(escape_chars(s.push(c)) =~= escape_chars(s) + esc_char(c));
    }
}

/// The exec digit for a value below ten.
fn digit_char_x(n: u64) -> (r: char)
    requires
        n < 10,
    ensures
        r == digit_char(n as int),
{
    if n == 0 {
        '0'
    } else if n == 1 {
        '1'
    } else if n == 2 {
        '2'
    } else if n == 3 {
        '3'
    } else if n == 4 {
        '4'
    } else if n == 5 {
        '5'
    } else if n == 6 {
        '6'
    } else if n == 7 {
        '7'
    } else if n == 8 {
        '8'
    } else {
        '9'
    }
}

fn hex_char_x(n: u32) -> (r: char)
    requires
        n < 16,
    ensures
        r == hex_char(n as int),
{
    if n < 10 {
        digit_char_x(n as u64)
    } else if n == 10 {
        'a'
    } else if n == 11 {
        'b'
    } else if n == 12 {
        'c'
    } else if n == 13 {
        'd'
    } else if n == 14 {
        'e'
    } else {
        'f'
    }
}

/// Appends the decimal digits of a non-negative number.
fn print_u64(out: &mut Vec<char>, n: u64)
    ensures
        final(out)@ == old(out)@ + dec_digits(n as int),
{
    let mut digits: Vec<char> = Vec::new();
    let mut m: u64 = n;
    while m >= 10
        invariant
            dec_digits(n as int) == dec_digits(m as int) + digits@.reverse(),
        decreases m,
    {
        let d = m % 10;
        let ghost prevd = digits@;
        let ghost prevm = m as int;
        digits.push(digit_char_x(d));
        m = m / 10;
        proof {
            assert(dec_digits(prevm) == dec_digits(m as int) + seq![digit_char(prevm % 10)]);
            assert(prevd.push(digit_char(prevm % 10)).reverse() =~= seq![
                digit_char(prevm % 10),
            ] + prevd.reverse());
            assert(dec_digits(m as int) + digits@.reverse() =~= dec_digits(n as int));
        }
    }
    out.push(digit_char_x(m));
    proof {
        assert(dec_digits(m as int) =~= seq![digit_char(m as int)]);
    }
    let k = digits.len();
    let mut i: usize = 0;
    while i < k
        invariant
            k == digits.len(),
            0 <= i <= k,
            dec_digits(n as int) == dec_digits(m as int) + digits@.reverse(),
            out@ == old(out)@ + seq![digit_char(m as int)] + digits@.reverse().take(i as int),
        decreases k - i,
    {
        out.push(digits[k - 1 - i]);
        proof {
            assert(digits@.reverse()[i as int] == digits@[k - 1 - i]);
            assert(digits@.reverse().take(i as int + 1) =~= digits@.reverse().take(i as int).push(
                digits@[k - 1 - i],
            ));
            assert(out@ =~= old(out)@ + seq![digit_char(m as int)] + digits@.reverse().take(
                i as int + 1,
            ));
        }
        i = i + 1;
    }
    proof {
        assert(digits@.reverse().take(k as int) =~= digits@.reverse());
        assert(final(out)@ =~= old(out)@ + dec_digits(n as int));
    }
}

/// Appends the decimal text of an integer.
fn print_i64(out: &mut Vec<char>, n: i64)
    ensures
        final(out)@ == old(out)@ + int_text(n as int),
{
    if n < 0 {
        out.push('-');
        let ghost mid = out@;
        let m: u64 = if n == i64::MIN {
            9223372036854775808u64
        } else {
            (-n) as u64
        };
        proof {
            assert(m as int == -(n as int));
        }
        print_u64(out, m);
        proof {
            assert(final(out)@ =~= old(out)@ + int_text(n as int));
        }
    } else {
        print_u64(out, n as u64);
    }
}

/// Appends a quoted, escaped string.
fn print_string(out: &mut Vec<char>, s: &str)
    ensures
        final(out)@ == old(out)@ + quoted(s@),
{
    out.push('"');
    let n = s.unicode_len();
    let mut i: usize = 0;
    while i < n
        invariant
            n == s@.len(),
            0 <= i <= n,
            out@ == old(out)@ + seq!['"'] + escape_chars(s@.take(i as int)),
        decreases n - i,
    {
        let c = s.get_char(i);
        let u = c as u32;
        if c == '"' {
            out.push('\\');
            out.push('"');
        } else if c == '\\' {
            out.push('\\');
            out.push('\\');
        } else if u == 0x8 {
            out.push('\\');
            out.push('b');
        } else if u == 0x9 {
            out.push('\\');
            out.push('t');
        } else if u == 0xA {
            out.push('\\');
            out.push('n');
        } else if u == 0xC {
            out.push('\\');
            out.push('f');
        } else if u == 0xD {
            out.push('\\');
            out.push('r');
        } else if u < 0x20 {
            out.push('\\');
            out.push('u');
            out.push('0');
            out.push('0');
            out.push(hex_char_x(u / 16));
            out.push(hex_char_x(u % 16));
        } else {
            out.push(c);
        }
        proof {
            assert(s@.take(i as int + 1) =~= s@.take(i as int).push(s@[i as int]));
            lemma_escape_snoc(s@.take(i as int), s@[i as int]);
            assert(out@ =~= old(out)@ + seq!['"'] + escape_chars(s@.take(i as int + 1)));
        }
        i = i + 1;
    }
    out.push('"');
    proof {
        assert(s@.take(n as int) =~= s@);
        assert(final(out)@ =~= old(out)@ + quoted(s@));
    }
}

/// Appends the compact wire text of a value.
pub fn print_value(out: &mut Vec<char>, v: &JsonValue)
    ensures
        final(out)@ == old(out)@ + text_of(v@),
    decreases v,
{
    match v {
        JsonValue::Null => {
            out.push('n');
            out.push('u');
            out.push('l');
            out.push('l');
            proof {
                assert(final(out)@ =~= old(out)@ + text_of(v@));
            }
        },
        JsonValue::Bool(b) => {
            if *b {
                out.push('t');
                out.push('r');
                out.push('u');
                out.push('e');
            } else {
                out.push('f');
                out.push('a');
                out.push('l');
                out.push('s');
                out.push('e');
            }
            proof {
                assert(final(out)@ =~= old(out)@ + text_of(v@));
            }
        },
        JsonValue::Int(i) => {
            print_i64(out, *i);
        },
        JsonValue::Str(s) => {
            print_string(out, s.as_str());
        },
        JsonValue::Arr(items) => {
            out.push('[');
            let n = items.len();
            let ghost iv = vals_view(items@);
            proof {
                crate::json::lemma_vals_view_len(items@);
            }
            let mut i: usize = 0;
            while i < n
                invariant
                    *v == JsonValue::Arr(*items),
                    n == items.len(),
                    0 <= i <= n,
                    iv == vals_view(items@),
                    iv.len() == n,
                    out@ == old(out)@ + seq!['['] + arr_text(iv.take(i as int)) + (if 0 < i < n {
                        seq![',']
                    } else {
                        Seq::<char>::empty()
                    }),
                decreases n - i,
            {
                proof {
                    assert((*v)->Arr_0 == *items);
                    assert(decreases_to!(*v => (*v)->Arr_0));
                    assert(decreases_to!(*items => items@));
                    assert(decreases_to!(items@ => items@[i as int]));
                    assert(decreases_to!(*v => items@[i as int]));
                }
                print_value(out, &items[i]);
                proof {
                    crate::json::lemma_vals_view_index(items@, i as int);
                    lemma_arr_text_snoc(iv.take(i as int), iv[i as int]);
                    assert(iv.take(i as int + 1) =~= iv.take(i as int).push(iv[i as int]));
                }
                if i + 1 < n {
                    out.push(',');
                }
                proof {
                    assert(out@ =~= old(out)@ + seq!['['] + arr_text(iv.take(i as int + 1)) + (
                    if 0 < i + 1 < n {
                        seq![',']
                    } else {
                        Seq::<char>::empty()
                    }));
                }
                i = i + 1;
            }
            out.push(']');
            proof {
                assert(iv.take(n as int) =~= iv);
                assert(final(out)@ =~= old(out)@ + text_of(v@));
            }
        },
        JsonValue::Obj(pairs) => {
            out.push('{');
            let n = pairs.len();
            let ghost pv = pairs_view(pairs@);
            proof {
                crate::json::lemma_pairs_view_len(pairs@);
            }
            let mut i: usize = 0;
            while i < n
                invariant
                    *v == JsonValue::Obj(*pairs),
                    n == pairs.len(),
                    0 <= i <= n,
                    pv == pairs_view(pairs@),
                    pv.len() == n,
                    out@ == old(out)@ + seq!['{'] + obj_text(pv.take(i as int)) + (if 0 < i < n {
                        seq![',']
                    } else {
                        Seq::<char>::empty()
                    }),
                decreases n - i,
            {
                print_string(out, pairs[i].0.as_str());
                out.push(':');
                proof {
                    assert((*v)->Obj_0 == *pairs);
                    assert(decreases_to!(*v => (*v)->Obj_0));
                    assert(decreases_to!(*pairs => pairs@));
                    assert(decreases_to!(pairs@ => pairs@[i as int]));
                    assert(decreases_to!(pairs@[i as int] => pairs@[i as int].1));
                    assert(decreases_to!(*v => pairs@[i as int].1));
                }
                print_value(out, &pairs[i].1);
                proof {
                    crate::json::lemma_pairs_view_index(pairs@, i as int);
                    lemma_obj_text_snoc(pv.take(i as int), pv[i as int].0, pv[i as int].1);
                    assert(pv.take(i as int + 1) =~= pv.take(i as int).push(pv[i as int]));
                }
                if i + 1 < n {
                    out.push(',');
                }
                proof {
                    assert(out@ =~= old(out)@ + seq!['{'] + obj_text(pv.take(i as int + 1)) + (
                    if 0 < i + 1 < n {
                        seq![',']
                    } else {
                        Seq::<char>::empty()
                    }));
                }
                i = i + 1;
            }
            out.push('}');
            proof {
                assert(pv.take(n as int) =~= pv);
                assert(final(out)@ =~= old(out)@ + text_of(v@));
            }
        },
    }
}

proof fn lemma_arr_text_snoc(items: Seq<JsonVal>, x: JsonVal)
    ensures
        arr_text(items.push(x)) == (if items.len() == 0 {
            text_of(x)
        } else {
            arr_text(items) + seq![','] + text_of(x)
        }),
    decreases items,
{
    if items.len() == 0 {
        assert(items.push(x)[0] == x);
        assert(arr_text(items.push(x)) =~= text_of(x));
    } else {
        assert(items.push(x)[0] == items[0]);
        assert(items.push(x).drop_first() =~= items.drop_first().push(x));
        lemma_arr_text_snoc(items.drop_first(), x);
        if items.len() == 1 {
            assert(arr_text(items.push(x)) =~= arr_text(items) + seq![','] + text_of(x));
        } else {
            assert(arr_text(items.push(x)) =~= arr_text(items) + seq![','] + text_of(x));
        }
    }
}

proof fn lemma_obj_text_snoc(pairs: Seq<(Seq<char>, JsonVal)>, k: Seq<char>, x: JsonVal)
    ensures
        obj_text(pairs.push((k, x))) == (if pairs.len() == 0 {
            quoted(k) + seq![':'] + text_of(x)
        } else {
            obj_text(pairs) + seq![','] + quoted(k) + seq![':'] + text_of(x)
        }),
    decreases pairs,
{
    if pairs.len() == 0 {
        assert(pairs.push((k, x))[0] == (k, x));
        assert(obj_text(pairs.push((k, x))) =~= quoted(k) + seq![':'] + text_of(x));
    } else {
        assert(pairs.push((k, x))[0] == pairs[0]);
        assert(pairs.push((k, x)).drop_first() =~= pairs.drop_first().push((k, x)));
        lemma_obj_text_snoc(pairs.drop_first(), k, x);
        if pairs.len() == 1 {
            assert(obj_text(pairs.push((k, x))) =~= obj_text(pairs) + seq![','] + quoted(k) + seq![
                ':',
            ] + text_of(x));
        } else {
            assert(obj_text(pairs.push((k, x))) =~= obj_text(pairs) + seq![','] + quoted(k) + seq![
                ':',
            ] + text_of(x));
        }
    }
}

/// Relies on `String::from_iter` collecting an iterator of characters: the
/// result holds exactly those characters in order.
#[verifier::external_body]
pub fn chars_to_string(cs: &Vec<char>) -> (r: String)
    ensures
        r@ == cs@,
{
    cs.iter().collect()
}

/// Relies on `str::chars` yielding the characters of the string in order.
#[verifier::external_body]
pub fn str_to_chars(s: &str) -> (r: Vec<char>)
    ensures
        r@ == s@,
{
    s.chars().collect()
}

/// The compact wire text of a value, as a string.
pub fn value_to_string(v: &JsonValue) -> (r: String)
    ensures
        r@ == text_of(v@),
{
    let mut out: Vec<char> = Vec::new();
    print_value(&mut out, v);
    chars_to_string(&out)
}

} // verus!
