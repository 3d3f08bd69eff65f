//! A parser for the compact wire text, proved to match its specification
//! exactly.
//!
//! The grammar is the one the printer emits: no whitespace between tokens,
//! integer numbers only (up to eighteen digits), and string escapes
//! `\" \\ \/ \b \f \n \r \t` and `\u` with four hex digits outside the
//! surrogate range.

use vstd::prelude::*;

use crate::json::{has_big_int, has_big_int_seq, has_big_int_pairs, DecodeError, JsonVal, JsonValue};
use crate::text::{
    chars_to_string, digit_char, hex_char, dec_digits, int_text, esc_char, escape_chars, quoted,
    text_of, arr_text, obj_text,
};

verus! {

broadcast use vstd::seq::group_seq_axioms;

/// Whether a character is a decimal digit.
pub open spec fn is_dig(c: char) -> bool {
    0x30 <= (c as u32) <= 0x39
}

/// The value of a decimal digit character.
pub open spec fn dig_val(c: char) -> int {
    (c as u32) - 0x30
}

/// The value of a hex digit character, or a negative number if it is none.
pub open spec fn hex_val(c: char) -> int {
    if is_dig(c) {
        dig_val(c)
    } else if 0x61 <= (c as u32) <= 0x66 {
        (c as u32) - 0x61 + 10
    } else if 0x41 <= (c as u32) <= 0x46 {
        (c as u32) - 0x41 + 10
    } else {
        -1
    }
}

/// The first position at or after `i` holding no digit.
pub open spec fn digits_end(s: Seq<char>, i: int) -> int
    decreases s.len() - i,
{
    if 0 <= i < s.len() && is_dig(s[i]) {
        digits_end(s, i + 1)
    } else {
        i
    }
}

/// The value of the digits between `i` and `j`.
pub open spec fn digits_val(s: Seq<char>, i: int, j: int) -> int
    decreases j - i,
{
    if j <= i {
        0
    } else {
        digits_val(s, i, j - 1) * 10 + dig_val(s[j - 1])
    }
}

/// Ten to the `k`.
pub open spec fn pow10(k: int) -> int
    decreases k,
{
    if k <= 0 {
        1
    } else {
        10 * pow10(k - 1)
    }
}

/// Parsing of a number starting at `i`: an optional minus sign and at most
/// eighteen digits.
pub open spec fn spec_parse_num(s: Seq<char>, i: int) -> Option<(JsonVal, int)> {
    let neg = 0 <= i < s.len() && s[i] == '-';
    let p = if neg {
        i + 1
    } else {
        i
    };
    let j = digits_end(s, p);
    if j == p || j - p > 18 {
        None
    } else {
        let vl = digits_val(s, p, j);
        Some(
            (
                JsonVal::Int(
                    if neg {
                        -vl
                    } else {
                        vl
                    },
                ),
                j,
            ),
        )
    }
}

/// Parsing of a string body after the opening quote, up to and past the
/// closing quote.
pub open spec fn spec_parse_str_body(s: Seq<char>, i: int) -> Option<(Seq<char>, int)>
    decreases s.len() - i,
{
    if i < 0 || i >= s.len() {
        None
    } else if s[i] == '"' {
        Some((Seq::empty(), i + 1))
    } else if s[i] == '\\' {
        if i + 1 >= s.len() {
            None
        } else {
            let e = s[i + 1];
            if e == 'u' {
                if i + 5 >= s.len() {
                    None
                } else {
                    let h = hex_val(s[i + 2]) * 0x1000 + hex_val(s[i + 3]) * 0x100 + hex_val(
                        s[i + 4],
                    ) * 0x10 + hex_val(s[i + 5]);
                    if hex_val(s[i + 2]) < 0 || hex_val(s[i + 3]) < 0 || hex_val(s[i + 4]) < 0
                        || hex_val(s[i + 5]) < 0 || (0xD800 <= h < 0xE000) {
                        None
                    } else {
                        match spec_parse_str_body(s, i + 6) {
                            Some((rest, j)) => Some((seq![(h as u32) as char] + rest, j)),
                            None => None,
                        }
                    }
                }
            } else {
                let c = if e == '"' {
                    Some('"')
                } else if e == '\\' {
                    Some('\\')
                } else if e == '/' {
                    Some('/')
                } else if e == 'b' {
                    Some('\u{8}')
                } else if e == 'f' {
                    Some('\u{c}')
                } else if e == 'n' {
                    Some('\n')
                } else if e == 'r' {
                    Some('\r')
                } else if e == 't' {
                    Some('\t')
                } else {
                    None
                };
                match c {
                    Some(ch) => match spec_parse_str_body(s, i + 2) {
                        Some((rest, j)) => Some((seq![ch] + rest, j)),
                        None => None,
                    },
                    None => None,
                }
            }
        }
    } else if (s[i] as u32) < 0x20 {
        None
    } else {
        match spec_parse_str_body(s, i + 1) {
            Some((rest, j)) => Some((seq![s[i]] + rest, j)),
            None => None,
        }
    }
}

/// Parsing of one value starting at `i`.
pub open spec fn spec_parse_val(s: Seq<char>, i: int) -> Option<(JsonVal, int)>
    decreases s.len() - i, 0int,
{
    if i < 0 || i >= s.len() {
        None
    } else {
        let c = s[i];
        if c == 'n' {
            if i + 4 <= s.len() && s[i + 1] == 'u' && s[i + 2] == 'l' && s[i + 3] == 'l' {
                Some((JsonVal::Null, i + 4))
            } else {
                None
            }
        } else if c == 't' {
            if i + 4 <= s.len() && s[i + 1] == 'r' && s[i + 2] == 'u' && s[i + 3] == 'e' {
                Some((JsonVal::Bool(true), i + 4))
            } else {
                None
            }
        } else if c == 'f' {
            if i + 5 <= s.len() && s[i + 1] == 'a' && s[i + 2] == 'l' && s[i + 3] == 's' && s[i + 4]
                == 'e' {
                Some((JsonVal::Bool(false), i + 5))
            } else {
                None
            }
        } else if c == '"' {
            match spec_parse_str_body(s, i + 1) {
                Some((cs, j)) => Some((JsonVal::Str(cs), j)),
                None => None,
            }
        } else if c == '[' {
            if i + 1 < s.len() && s[i + 1] == ']' {
                Some((JsonVal::Arr(Seq::empty()), i + 2))
            } else {
                match spec_parse_elems(s, i + 1) {
                    Some((vs, j)) => Some((JsonVal::Arr(vs), j)),
                    None => None,
                }
            }
        } else if c == '{' {
            if i + 1 < s.len() && s[i + 1] == '}' {
                Some((JsonVal::Obj(Seq::empty()), i + 2))
            } else {
                match spec_parse_members(s, i + 1) {
                    Some((ps, j)) => Some((JsonVal::Obj(ps), j)),
                    None => None,
                }
            }
        } else if c == '-' || is_dig(c) {
            spec_parse_num(s, i)
        } else {
            None
        }
    }
}

/// Parsing of one or more comma-separated array elements, up to and past
/// the closing bracket.
pub open spec fn spec_parse_elems(s: Seq<char>, i: int) -> Option<(Seq<JsonVal>, int)>
    decreases s.len() - i, 1int,
{
    if i < 0 {
        None
    } else {
        match spec_parse_val(s, i) {
            None => None,
            Some((v, j)) => if j <= i || j >= s.len() {
                None
            } else if s[j] == ',' {
                match spec_parse_elems(s, j + 1) {
                    Some((rest, k)) => Some((seq![v] + rest, k)),
                    None => None,
                }
            } else if s[j] == ']' {
                Some((seq![v], j + 1))
            } else {
                None
            },
        }
    }
}

/// Parsing of one or more comma-separated object members, up to and past
/// the closing brace.
pub open spec fn spec_parse_members(s: Seq<char>, i: int) -> Option<
    (Seq<(Seq<char>, JsonVal)>, int),
>
    decreases s.len() - i, 1int,
{
    if i < 0 || i >= s.len() || s[i] != '"' {
        None
    } else {
        match spec_parse_str_body(s, i + 1) {
            None => None,
            Some((key, j)) => if j <= i + 1 || j >= s.len() || s[j] != ':' {
                None
            } else {
                match spec_parse_val(s, j + 1) {
                    None => None,
                    Some((v, k)) => if k <= j + 1 || k >= s.len() {
                        None
                    } else if s[k] == ',' {
                        match spec_parse_members(s, k + 1) {
                            Some((rest, m)) => Some((seq![(key, v)] + rest, m)),
                            None => None,
                        }
                    } else if s[k] == '}' {
                        Some((seq![(key, v)], k + 1))
                    } else {
                        None
                    },
                }
            },
        }
    }
}

/// Parsing of a whole text: one value covering every character.
pub open spec fn spec_parse(s: Seq<char>) -> Option<JsonVal> {
    match spec_parse_val(s, 0) {
        Some((v, j)) => if j == s.len() {
            Some(v)
        } else {
            None
        },
        None => None,
    }
}

proof fn lemma_digits_end_bounds(s: Seq<char>, i: int)
    requires
        0 <= i <= s.len(),
    ensures
        i <= digits_end(s, i) <= s.len(),
        forall|m: int| i <= m < digits_end(s, i) ==> is_dig(#[trigger] s[m]),
        digits_end(s, i) < s.len() ==> !is_dig(s[digits_end(s, i)]),
    decreases s.len() - i,
{
    if i < s.len() && is_dig(s[i]) {
        lemma_digits_end_bounds(s, i + 1);
    }
}

proof fn lemma_digits_val_bound(s: Seq<char>, i: int, j: int)
    requires
        0 <= i <= j <= s.len(),
        forall|m: int| i <= m < j ==> is_dig(#[trigger] s[m]),
    ensures
        0 <= digits_val(s, i, j) < pow10(j - i),
    decreases j - i,
{
    if j > i {
        lemma_digits_val_bound(s, i, j - 1);
    }
}

proof fn lemma_pow10_18()
    ensures
        pow10(18) == 1000000000000000000,
        forall|k: int| 0 <= k <= 17 ==> #[trigger] pow10(k) <= 100000000000000000,
{
    reveal_with_fuel(pow10, 20);
    assert(pow10(0) == 1);
    assert(pow10(1) == 10);
    assert(pow10(2) == 100);
    assert(pow10(3) == 1000);
    assert(pow10(4) == 10000);
    assert(pow10(5) == 100000);
    assert(pow10(6) == 1000000);
    assert(pow10(7) == 10000000);
    assert(pow10(8) == 100000000);
    assert(pow10(9) == 1000000000);
    assert(pow10(10) == 10000000000);
    assert(pow10(11) == 100000000000);
    assert(pow10(12) == 1000000000000);
    assert(pow10(13) == 10000000000000);
    assert(pow10(14) == 100000000000000);
    assert(pow10(15) == 1000000000000000);
    assert(pow10(16) == 10000000000000000);
    assert(pow10(17) == 100000000000000000);
    assert(pow10(18) == 1000000000000000000);
    assert forall|k: int| 0 <= k <= 17 implies #[trigger] pow10(k) <= 100000000000000000 by {
        if k == 0 {
        } else if k == 1 {
        } else if k == 2 {
        } else if k == 3 {
        } else if k == 4 {
        } else if k == 5 {
        } else if k == 6 {
        } else if k == 7 {
        } else if k == 8 {
        } else if k == 9 {
        } else if k == 10 {
        } else if k == 11 {
        } else if k == 12 {
        } else if k == 13 {
        } else if k == 14 {
        } else if k == 15 {
        } else if k == 16 {
        } else {
        }
    }
}

fn dig_check(c: char) -> (r: bool)
    ensures
        r == is_dig(c),
{
    let u = c as u32;
    0x30 <= u && u <= 0x39
}

fn hex_check(c: char) -> (r: Option<u32>)
    ensures
        match r {
            Some(v) => hex_val(c) == v as int && v < 16,
            None => hex_val(c) < 0,
        },
{
    let u = c as u32;
    if 0x30 <= u && u <= 0x39 {
        Some(u - 0x30)
    } else if 0x61 <= u && u <= 0x66 {
        Some(u - 0x61 + 10)
    } else if 0x41 <= u && u <= 0x46 {
        Some(u - 0x41 + 10)
    } else {
        None
    }
}

/// Relies on `char::from_u32`: it returns the character with the given
/// scalar value exactly when the value is a unicode scalar value, that is,
/// not a surrogate and at most `0x10FFFF`.
#[verifier::external_body]
fn char_from_u32(u: u32) -> (r: Option<char>)
    ensures
        (r is Some) == (u < 0xD800 || (0xE000 <= u && u <= 0x10FFFF)),
        r matches Some(c) ==> c == ((u as int) as char),
{
    char::from_u32(u)
}

/// Parses a number starting at `i`.
fn parse_num(s: &Vec<char>, i: usize) -> (r: Result<(JsonValue, usize), DecodeError>)
    requires
        i < s@.len(),
        s@[i as int] == '-' || is_dig(s@[i as int]),
    ensures
        match r {
            Ok((v, j)) => spec_parse_num(s@, i as int) == Some((v@, j as int)) && i < j <= s@.len(),
            Err(_) => spec_parse_num(s@, i as int) is None,
        },
{
    let n = s.len();
    let neg = s[i] == '-';
    let p: usize = if neg {
        i + 1
    } else {
        i
    };
    let mut j: usize = p;
    while j < n && dig_check(s[j])
        invariant
            p <= j <= n,
            n == s@.len(),
            digits_end(s@, p as int) == digits_end(s@, j as int),
        decreases n - j,
    {
        j = j + 1;
    }
    proof {
        assert(digits_end(s@, j as int) == j as int);
        lemma_digits_end_bounds(s@, p as int);
        lemma_pow10_18();
    }
    if j == p || j - p > 18 {
        return Err(DecodeError::Syntax);
    }
    proof {
        lemma_digits_val_bound(s@, p as int, j as int);
    }
    let mut acc: u64 = 0;
    let mut idx: usize = p;
    while idx < j
        invariant
            p <= idx <= j <= n,
            n == s@.len(),
            j - p <= 18,
            forall|m: int| p <= m < j ==> is_dig(#[trigger] s@[m]),
            acc as int == digits_val(s@, p as int, idx as int),
            (acc as int) < pow10(idx - p),
        decreases j - idx,
    {
        proof {
            lemma_pow10_18();
            lemma_digits_val_bound(s@, p as int, idx as int + 1);
        }
        let u = s[idx] as u32;
        acc = acc * 10 + ((u - 0x30) as u64);
        idx = idx + 1;
    }
    proof {
        lemma_pow10_18();
        lemma_digits_val_bound(s@, p as int, j as int);
    }
    if neg {
        let v: i64 = -(acc as i64);
        Ok((JsonValue::Int(v), j))
    } else {
        Ok((JsonValue::Int(acc as i64), j))
    }
}

/// Parses a string body after the opening quote.
fn parse_str_body(s: &Vec<char>, i: usize) -> (r: Result<(Vec<char>, usize), DecodeError>)
    requires
        i <= s@.len(),
    ensures
        match r {
            Ok((cs, j)) => spec_parse_str_body(s@, i as int) == Some((cs@, j as int)) && i < j
                <= s@.len(),
            Err(_) => spec_parse_str_body(s@, i as int) is None,
        },
    decreases s@.len() - i,
{
    let n = s.len();
    if i >= n {
        return Err(DecodeError::Syntax);
    }
    let c = s[i];
    if c == '"' {
        let out: Vec<char> = Vec::new();
        return Ok((out, i + 1));
    }
    if c == '\\' {
        if n - i < 2 {
            return Err(DecodeError::Syntax);
        }
        let e = s[i + 1];
        if e == 'u' {
            if n - i < 6 {
                return Err(DecodeError::Syntax);
            }
            let h3 = match hex_check(s[i + 2]) {
                Some(v) => v,
                None => { return Err(DecodeError::Syntax); },
            };
            let h2 = match hex_check(s[i + 3]) {
                Some(v) => v,
                None => { return Err(DecodeError::Syntax); },
            };
            let h1 = match hex_check(s[i + 4]) {
                Some(v) => v,
                None => { return Err(DecodeError::Syntax); },
            };
            let h0 = match hex_check(s[i + 5]) {
                Some(v) => v,
                None => { return Err(DecodeError::Syntax); },
            };
            let h: u32 = h3 * 0x1000 + h2 * 0x100 + h1 * 0x10 + h0;
            if 0xD800 <= h && h < 0xE000 {
                return Err(DecodeError::Syntax);
            }
            let ch = match char_from_u32(h) {
                Some(ch) => ch,
                None => { return Err(DecodeError::Syntax); },
            };
            match parse_str_body(s, i + 6) {
                Ok((rest, j)) => {
                    let mut rest = rest;
                    rest.insert(0, ch);
                    proof {
                        assert(rest@ =~= seq![((h as int) as char)] + rest@.drop_first());
                    }
                    Ok((rest, j))
                },
                Err(e2) => Err(e2),
            }
        } else {
            let ch: char = if e == '"' {
                '"'
            } else if e == '\\' {
                '\\'
            } else if e == '/' {
                '/'
            } else if e == 'b' {
                '\u{8}'
            } else if e == 'f' {
                '\u{c}'
            } else if e == 'n' {
                '\n'
            } else if e == 'r' {
                '\r'
            } else if e == 't' {
                '\t'
            } else {
                return Err(DecodeError::Syntax);
            };
            match parse_str_body(s, i + 2) {
                Ok((rest, j)) => {
                    let mut rest = rest;
                    rest.insert(0, ch);
                    proof {
                        assert(rest@ =~= seq![ch] + rest@.drop_first());
                    }
                    Ok((rest, j))
                },
                Err(e2) => Err(e2),
            }
        }
    } else {
        let u = c as u32;
        if u < 0x20 {
            return Err(DecodeError::Syntax);
        }
        match parse_str_body(s, i + 1) {
            Ok((rest, j)) => {
                let mut rest = rest;
                rest.insert(0, c);
                proof {
                    assert(rest@ =~= seq![s@[i as int]] + rest@.drop_first());
                }
                Ok((rest, j))
            },
            Err(e2) => Err(e2),
        }
    }
}

/// Parses one value starting at `i`.
fn parse_val(s: &Vec<char>, i: usize) -> (r: Result<(JsonValue, usize), DecodeError>)
    requires
        i <= s@.len(),
    ensures
        match r {
            Ok((v, j)) => spec_parse_val(s@, i as int) == Some((v@, j as int)) && i < j <= s@.len(),
            Err(_) => spec_parse_val(s@, i as int) is None,
        },
    decreases s@.len() - i, 0int,
{
    let n = s.len();
    if i >= n {
        return Err(DecodeError::Syntax);
    }
    let c = s[i];
    if c == 'n' {
        if n - i >= 4 && s[i + 1] == 'u' && s[i + 2] == 'l' && s[i + 3] == 'l' {
            Ok((JsonValue::Null, i + 4))
        } else {
            Err(DecodeError::Syntax)
        }
    } else if c == 't' {
        if n - i >= 4 && s[i + 1] == 'r' && s[i + 2] == 'u' && s[i + 3] == 'e' {
            Ok((JsonValue::Bool(true), i + 4))
        } else {
            Err(DecodeError::Syntax)
        }
    } else if c == 'f' {
        if n - i >= 5 && s[i + 1] == 'a' && s[i + 2] == 'l' && s[i + 3] == 's' && s[i + 4] == 'e' {
            Ok((JsonValue::Bool(false), i + 5))
        } else {
            Err(DecodeError::Syntax)
        }
    } else if c == '"' {
        match parse_str_body(s, i + 1) {
            Ok((cs, j)) => Ok((JsonValue::Str(chars_to_string(&cs)), j)),
            Err(e) => Err(e),
        }
    } else if c == '[' {
        if n - i >= 2 && s[i + 1] == ']' {
            let items: Vec<JsonValue> = Vec::new();
            let r = JsonValue::Arr(items);
            proof {
                assert(r@ == JsonVal::Arr(crate::json::vals_view(Seq::<JsonValue>::empty())));
                assert(crate::json::vals_view(Seq::<JsonValue>::empty())
                    =~= Seq::<JsonVal>::empty());
            }
            Ok((r, i + 2))
        } else {
            match parse_elems(s, i + 1) {
                Ok((vs, j)) => Ok((JsonValue::Arr(vs), j)),
                Err(e) => Err(e),
            }
        }
    } else if c == '{' {
        if n - i >= 2 && s[i + 1] == '}' {
            let pairs: Vec<(String, JsonValue)> = Vec::new();
            let r = JsonValue::Obj(pairs);
            proof {
                assert(r@ == JsonVal::Obj(
                    crate::json::pairs_view(Seq::<(String, JsonValue)>::empty()),
                ));
                assert(crate::json::pairs_view(Seq::<(String, JsonValue)>::empty())
                    =~= Seq::<(Seq<char>, JsonVal)>::empty());
            }
            Ok((r, i + 2))
        } else {
            match parse_members(s, i + 1) {
                Ok((ps, j)) => Ok((JsonValue::Obj(ps), j)),
                Err(e) => Err(e),
            }
        }
    } else {
        let u = c as u32;
        if c == '-' || (0x30 <= u && u <= 0x39) {
            parse_num(s, i)
        } else {
            Err(DecodeError::Syntax)
        }
    }
}

/// Parses array elements after the opening bracket.
fn parse_elems(s: &Vec<char>, i: usize) -> (r: Result<(Vec<JsonValue>, usize), DecodeError>)
    requires
        i <= s@.len(),
    ensures
        match r {
            Ok((vs, j)) => spec_parse_elems(s@, i as int) == Some(
                (crate::json::vals_view(vs@), j as int),
            ) && i < j <= s@.len(),
            Err(_) => spec_parse_elems(s@, i as int) is None,
        },
    decreases s@.len() - i, 1int,
{
    let n = s.len();
    let (v, j) = match parse_val(s, i) {
        Ok(p) => p,
        Err(e) => { return Err(e); },
    };
    if j >= n {
        return Err(DecodeError::Syntax);
    }
    if s[j] == ',' {
        match parse_elems(s, j + 1) {
            Ok((rest, k)) => {
                let mut rest = rest;
                let ghost gv = v;
                let ghost prev = rest@;
                rest.insert(0, v);
                proof {
                    assert(rest@ =~= seq![gv] + prev);
                    assert((seq![gv] + prev)[0] == gv);
                    assert((seq![gv] + prev).drop_first() =~= prev);
                    assert(crate::json::vals_view(rest@) =~= seq![gv@] + crate::json::vals_view(
                        prev,
                    ));
                }
                Ok((rest, k))
            },
            Err(e) => Err(e),
        }
    } else if s[j] == ']' {
        let mut vs: Vec<JsonValue> = Vec::new();
        let ghost gv = v;
        vs.push(v);
        proof {
            assert(vs@ =~= seq![gv]);
            assert(vs@[0] == gv);
            assert(vs@.drop_first() =~= Seq::<JsonValue>::empty());
            assert(crate::json::vals_view(Seq::<JsonValue>::empty()) =~= Seq::<JsonVal>::empty());
            assert(crate::json::vals_view(vs@) =~= seq![gv@]);
        }
        Ok((vs, j + 1))
    } else {
        Err(DecodeError::Syntax)
    }
}

/// Parses object members after the opening brace.
fn parse_members(s: &Vec<char>, i: usize) -> (r: Result<
    (Vec<(String, JsonValue)>, usize),
    DecodeError,
>)
    requires
        i <= s@.len(),
    ensures
        match r {
            Ok((ps, j)) => spec_parse_members(s@, i as int) == Some(
                (crate::json::pairs_view(ps@), j as int),
            ) && i < j <= s@.len(),
            Err(_) => spec_parse_members(s@, i as int) is None,
        },
    decreases s@.len() - i, 1int,
{
    let n = s.len();
    if i >= n {
        return Err(DecodeError::Syntax);
    }
    if s[i] != '"' {
        return Err(DecodeError::Syntax);
    }
    let (key, j) = match parse_str_body(s, i + 1) {
        Ok(p) => p,
        Err(e) => { return Err(e); },
    };
    if j >= n {
        return Err(DecodeError::Syntax);
    }
    if s[j] != ':' {
        return Err(DecodeError::Syntax);
    }
    let (v, k) = match parse_val(s, j + 1) {
        Ok(p) => p,
        Err(e) => { return Err(e); },
    };
    if k >= n {
        return Err(DecodeError::Syntax);
    }
    let key_s = chars_to_string(&key);
    if s[k] == ',' {
        match parse_members(s, k + 1) {
            Ok((rest, m)) => {
                let mut rest = rest;
                let ghost gk = key_s;
                let ghost gv = v;
                let ghost prev = rest@;
                rest.insert(0, (key_s, v));
                proof {
                    assert(rest@ =~= seq![(gk, gv)] + prev);
                    assert((seq![(gk, gv)] + prev)[0] == (gk, gv));
                    assert((seq![(gk, gv)] + prev).drop_first() =~= prev);
                    assert(crate::json::pairs_view(rest@) =~= seq![(gk@, gv@)]
                        + crate::json::pairs_view(prev));
                }
                Ok((rest, m))
            },
            Err(e) => Err(e),
        }
    } else if s[k] == '}' {
        let mut ps: Vec<(String, JsonValue)> = Vec::new();
        let ghost gk = key_s;
        let ghost gv = v;
        ps.push((key_s, v));
        proof {
            assert(ps@ =~= seq![(gk, gv)]);
            assert(ps@[0] == (gk, gv));
            assert(ps@.drop_first() =~= Seq::<(String, JsonValue)>::empty());
            assert(crate::json::pairs_view(Seq::<(String, JsonValue)>::empty())
                =~= Seq::<(Seq<char>, JsonVal)>::empty());
            assert(crate::json::pairs_view(ps@) =~= seq![(gk@, gv@)]);
        }
        Ok((ps, k + 1))
    } else {
        Err(DecodeError::Syntax)
    }
}

/// Parses a whole text as one JSON value.
pub fn parse_json(s: &str) -> (r: Result<JsonValue, DecodeError>)
    ensures
        match r {
            Ok(v) => spec_parse(s@) == Some(v@),
            Err(_) => spec_parse(s@) is None,
        },
{
    let cs = crate::text::str_to_chars(s);
    match parse_val(&cs, 0) {
        Ok((v, j)) => {
            if j == cs.len() {
                Ok(v)
            } else {
                Err(DecodeError::Syntax)
            }
        },
        Err(e) => Err(e),
    }
}

proof fn lemma_digit_char_inverse(d: int)
    requires
        0 <= d < 10,
    ensures
        is_dig(digit_char(d)),
        dig_val(digit_char(d)) == d,
{
}

proof fn lemma_hex_char_inverse(k: int)
    requires
        0 <= k < 16,
    ensures
        hex_val(hex_char(k)) == k,
{
}

proof fn lemma_dec_digits_are_digits(n: int)
    requires
        n >= 0,
    ensures
        dec_digits(n).len() >= 1,
        forall|m: int| 0 <= m < dec_digits(n).len() ==> is_dig(#[trigger] dec_digits(n)[m]),
    decreases n,
{
    if n < 10 {
        lemma_digit_char_inverse(n);
    } else {
        lemma_dec_digits_are_digits(n / 10);
        lemma_digit_char_inverse(n % 10);
        assert(forall|m: int|
            0 <= m < dec_digits(n / 10).len() ==> #[trigger] dec_digits(n)[m] == dec_digits(
                n / 10,
            )[m]);
        assert(dec_digits(n).last() == digit_char(n % 10));
    }
}

proof fn lemma_dec_digits_len(n: int, k: int)
    requires
        0 <= n,
        1 <= k,
        n < pow10(k),
    ensures
        dec_digits(n).len() <= k,
    decreases k,
{
    if n < 10 {
    } else {
        assert(pow10(k) == 10 * pow10(k - 1));
        assert(n / 10 < pow10(k - 1)) by (nonlinear_arith)
            requires
                n < 10 * pow10(k - 1),
                n >= 10,
        ;
        assert(k >= 2) by {
            if k == 1 {
                assert(pow10(1) == 10);
            }
        }
        lemma_dec_digits_len(n / 10, k - 1);
    }
}

proof fn lemma_digits_val_of_dec_digits(t: Seq<char>, p: int, n: int)
    requires
        n >= 0,
        0 <= p,
        p + dec_digits(n).len() <= t.len(),
        forall|m: int| 0 <= m < dec_digits(n).len() ==> t[p + m] == dec_digits(n)[m],
    ensures
        digits_val(t, p, p + dec_digits(n).len()) == n,
    decreases n,
{
    let w = dec_digits(n).len() as int;
    if n < 10 {
        assert(t[p + 0] == dec_digits(n)[0]);
        assert(dec_digits(n)[0] == digit_char(n));
        lemma_digit_char_inverse(n);
        assert(digits_val(t, p, p + 1) == digits_val(t, p, p) * 10 + dig_val(t[p]));
    } else {
        let w0 = dec_digits(n / 10).len() as int;
        assert(w == w0 + 1);
        assert forall|m: int| 0 <= m < w0 implies #[trigger] dec_digits(n / 10)[m] == t[p
            + m] by {
            assert(t[p + m] == dec_digits(n)[m]);
            assert(dec_digits(n)[m] == dec_digits(n / 10)[m]);
        }
        lemma_digits_val_of_dec_digits(t, p, n / 10);
        assert(t[p + (w - 1)] == dec_digits(n)[w - 1]);
        assert(dec_digits(n)[w - 1] == digit_char(n % 10));
        lemma_digit_char_inverse(n % 10);
        assert(digits_val(t, p, p + w) == digits_val(t, p, p + w0) * 10 + dig_val(t[p + w - 1]));
    }
}

proof fn lemma_digits_end_stops(t: Seq<char>, p: int, e: int)
    requires
        0 <= p <= e <= t.len(),
        forall|m: int| p <= m < e ==> is_dig(#[trigger] t[m]),
        e == t.len() || !is_dig(t[e]),
    ensures
        digits_end(t, p) == e,
    decreases e - p,
{
    if p < e {
        assert(is_dig(t[p]));
        lemma_digits_end_stops(t, p + 1, e);
    }
}

proof fn lemma_num_complete(t: Seq<char>, i: int, n: int)
    requires
        0 <= i,
        -1000000000000000000 < n < 1000000000000000000,
        i + int_text(n).len() <= t.len(),
        forall|m: int| 0 <= m < int_text(n).len() ==> #[trigger] int_text(n)[m] == t[i + m],
        i + int_text(n).len() == t.len() || !is_dig(t[i + int_text(n).len()]),
    ensures
        spec_parse_num(t, i) == Some((JsonVal::Int(n), i + int_text(n).len())),
{
    lemma_pow10_18();
    if n < 0 {
        let a = -n;
        lemma_dec_digits_are_digits(a);
        lemma_dec_digits_len(a, 18);
        let w = dec_digits(a).len() as int;
        assert(int_text(n).len() == w + 1);
        assert(int_text(n)[0] == t[i + 0]);
        assert(int_text(n)[0] == '-');
        assert(t[i] == '-');
        assert forall|m: int| 0 <= m < w implies #[trigger] dec_digits(a)[m] == t[i + 1 + m] by {
            assert(int_text(n)[m + 1] == t[i + (m + 1)]);
            assert(int_text(n)[m + 1] == dec_digits(a)[m]);
        }
        assert forall|m: int| i + 1 <= m < i + 1 + w implies is_dig(#[trigger] t[m]) by {
            assert(dec_digits(a)[m - (i + 1)] == t[i + 1 + (m - (i + 1))]);
            assert(is_dig(dec_digits(a)[m - (i + 1)]));
        }
        lemma_digits_end_stops(t, i + 1, i + 1 + w);
        assert forall|m: int| 0 <= m < dec_digits(a).len() implies t[i + 1 + m] == dec_digits(
            a,
        )[m] by {
            assert(dec_digits(a)[m] == t[i + 1 + m]);
        }
        lemma_digits_val_of_dec_digits(t, i + 1, a);
    } else {
        lemma_dec_digits_are_digits(n);
        lemma_dec_digits_len(n, 18);
        let w = dec_digits(n).len() as int;
        assert(int_text(n) == dec_digits(n));
        assert forall|m: int| 0 <= m < w implies #[trigger] dec_digits(n)[m] == t[i + m] by {
            assert(int_text(n)[m] == t[i + m]);
        }
        assert(dec_digits(n)[0] == t[i + 0]);
        assert(is_dig(t[i]));
        assert(t[i] != '-');
        assert forall|m: int| i <= m < i + w implies is_dig(#[trigger] t[m]) by {
            assert(dec_digits(n)[m - i] == t[i + (m - i)]);
            assert(is_dig(dec_digits(n)[m - i]));
        }
        lemma_digits_end_stops(t, i, i + w);
        assert forall|m: int| 0 <= m < dec_digits(n).len() implies t[i + m] == dec_digits(
            n,
        )[m] by {
            assert(dec_digits(n)[m] == t[i + m]);
        }
        lemma_digits_val_of_dec_digits(t, i, n);
    }
}

proof fn lemma_str_body_complete(t: Seq<char>, i: int, s: Seq<char>)
    requires
        0 <= i,
        i + escape_chars(s).len() + 1 <= t.len(),
        forall|m: int|
            0 <= m < escape_chars(s).len() ==> #[trigger] escape_chars(s)[m] == t[i + m],
        t[i + escape_chars(s).len()] == '"',
    ensures
        spec_parse_str_body(t, i) == Some((s, i + escape_chars(s).len() + 1)),
    decreases s.len(),
{
    if s.len() == 0 {
        assert(t[i] == '"');
    } else {
        let c = s[0];
        let e = esc_char(c);
        let s2 = s.drop_first();
        let w = e.len() as int;
        assert(escape_chars(s) == e + escape_chars(s2));
        assert forall|m: int| 0 <= m < w implies #[trigger] e[m] == t[i + m] by {
            assert(escape_chars(s)[m] == t[i + m]);
            assert(escape_chars(s)[m] == e[m]);
        }
        assert forall|m: int|
            0 <= m < escape_chars(s2).len() implies #[trigger] escape_chars(s2)[m] == t[i + w
            + m] by {
            assert(escape_chars(s)[w + m] == t[i + (w + m)]);
            assert(escape_chars(s)[w + m] == escape_chars(s2)[m]);
        }
        assert(t[i + w + escape_chars(s2).len()] == '"') by {
            assert(i + w + escape_chars(s2).len() == i + escape_chars(s).len());
        }
        lemma_str_body_complete(t, i + w, s2);
        if c == '"' {
            assert(t[i] == '\\' && t[i + 1] == '"');
            assert(seq![c] + s2 =~= s);
        } else if c == '\\' {
            assert(t[i] == '\\' && t[i + 1] == '\\');
            assert(seq![c] + s2 =~= s);
        } else if c == '\u{8}' {
            assert(t[i] == '\\' && t[i + 1] == 'b');
            assert(seq![c] + s2 =~= s);
        } else if c == '\t' {
            assert(t[i] == '\\' && t[i + 1] == 't');
            assert(seq![c] + s2 =~= s);
        } else if c == '\n' {
            assert(t[i] == '\\' && t[i + 1] == 'n');
            assert(seq![c] + s2 =~= s);
        } else if c == '\u{c}' {
            assert(t[i] == '\\' && t[i + 1] == 'f');
            assert(seq![c] + s2 =~= s);
        } else if c == '\r' {
            assert(t[i] == '\\' && t[i + 1] == 'r');
            assert(seq![c] + s2 =~= s);
        } else if (c as u32) < 0x20 {
            assert(t[i] == '\\' && t[i + 1] == 'u' && t[i + 2] == '0' && t[i + 3] == '0');
            assert(t[i + 4] == hex_char((c as u32) as int / 16));
            assert(t[i + 5] == hex_char((c as u32) as int % 16));
            lemma_hex_char_inverse((c as u32) as int / 16);
            lemma_hex_char_inverse((c as u32) as int % 16);
            assert(hex_val(t[i + 2]) == 0 && hex_val(t[i + 3]) == 0);
            let h = hex_val(t[i + 2]) * 0x1000 + hex_val(t[i + 3]) * 0x100 + hex_val(t[i + 4])
                * 0x10 + hex_val(t[i + 5]);
            assert(h == c as u32);
            vstd::utf8::char_u32_cast(c, h as u32);
            assert(((h as u32) as char) == c);
            assert(seq![c] + s2 =~= s);
        } else {
            assert(e[0] == t[i + 0]);
            assert(t[i] == c);
            assert(c != '"' && c != '\\' && (c as u32) >= 0x20);
            assert(seq![c] + s2 =~= s);
        }
    }
}

proof fn lemma_text_first(v: JsonVal)
    ensures
        text_of(v).len() >= 1,
        text_of(v)[0] == 'n' || text_of(v)[0] == 't' || text_of(v)[0] == 'f' || text_of(v)[0]
            == '"' || text_of(v)[0] == '[' || text_of(v)[0] == '{' || text_of(v)[0] == '-'
            || is_dig(text_of(v)[0]),
{
    match v {
        JsonVal::Int(i) => {
            if i < 0 {
                assert(text_of(v)[0] == '-');
            } else {
                lemma_dec_digits_are_digits(i);
                assert(text_of(v)[0] == dec_digits(i)[0]);
            }
        },
        _ => {},
    }
}

proof fn lemma_val_complete(t: Seq<char>, i: int, v: JsonVal)
    requires
        0 <= i,
        !has_big_int(v),
        i + text_of(v).len() <= t.len(),
        forall|m: int| 0 <= m < text_of(v).len() ==> #[trigger] text_of(v)[m] == t[i + m],
        i + text_of(v).len() == t.len() || !is_dig(t[i + text_of(v).len()]),
    ensures
        spec_parse_val(t, i) == Some((v, i + text_of(v).len())),
    decreases v,
{
    let w = text_of(v).len() as int;
    lemma_text_first(v);
    assert(text_of(v)[0] == t[i + 0]);
    match v {
        JsonVal::Null => {
            assert(text_of(v)[1] == t[i + 1]);
            assert(text_of(v)[2] == t[i + 2]);
            assert(text_of(v)[3] == t[i + 3]);
            assert(t[i] == 'n' && t[i + 1] == 'u' && t[i + 2] == 'l' && t[i + 3] == 'l');
            assert(spec_parse_val(t, i) == Some((v, i + w)));
        },
        JsonVal::Bool(b) => {
            if b {
                assert(text_of(v)[1] == t[i + 1]);
                assert(text_of(v)[2] == t[i + 2]);
                assert(text_of(v)[3] == t[i + 3]);
                assert(t[i] == 't' && t[i + 1] == 'r' && t[i + 2] == 'u' && t[i + 3] == 'e');
                assert(spec_parse_val(t, i) == Some((v, i + w)));
            } else {
                assert(text_of(v)[1] == t[i + 1]);
                assert(text_of(v)[2] == t[i + 2]);
                assert(text_of(v)[3] == t[i + 3]);
                assert(text_of(v)[4] == t[i + 4]);
                assert(t[i] == 'f' && t[i + 1] == 'a' && t[i + 2] == 'l' && t[i + 3] == 's' && t[i
                    + 4] == 'e');
                assert(spec_parse_val(t, i) == Some((v, i + w)));
            }
        },
        JsonVal::Int(n) => {
            if n < 0 {
                assert(text_of(v)[0] == '-');
                assert(t[i] == '-');
            } else {
                lemma_dec_digits_are_digits(n);
                assert(text_of(v)[0] == dec_digits(n)[0]);
                assert(is_dig(t[i]));
            }
            assert(t[i] != 'n' && t[i] != 't' && t[i] != 'f' && t[i] != '"' && t[i] != '[' && t[i]
                != '{');
            lemma_num_complete(t, i, n);
            assert(spec_parse_val(t, i) == Some((v, i + w)));
        },
        JsonVal::Str(s) => {
            assert(t[i] == '"');
            let el = escape_chars(s).len() as int;
            assert forall|m: int|
                0 <= m < el implies #[trigger] escape_chars(s)[m] == t[i + 1 + m] by {
                assert(text_of(v)[m + 1] == t[i + (m + 1)]);
                assert(text_of(v)[m + 1] == escape_chars(s)[m]);
            }
            assert(text_of(v)[el + 1] == t[i + (el + 1)]);
            assert(text_of(v)[el + 1] == '"');
            lemma_str_body_complete(t, i + 1, s);
            assert(spec_parse_val(t, i) == Some((v, i + w)));
        },
        JsonVal::Arr(items) => {
            assert(t[i] == '[');
            let al = arr_text(items).len() as int;
            assert(text_of(v)[al + 1] == t[i + (al + 1)]);
            assert(text_of(v)[al + 1] == ']');
            if items.len() == 0 {
                assert(al == 0);
                assert(t[i + 1] == ']');
                assert(items =~= Seq::<JsonVal>::empty());
            } else {
                assert forall|m: int|
                    0 <= m < al implies #[trigger] arr_text(items)[m] == t[i + 1 + m] by {
                    assert(text_of(v)[m + 1] == t[i + (m + 1)]);
                    assert(text_of(v)[m + 1] == arr_text(items)[m]);
                }
                lemma_text_first(items[0]);
                assert(arr_text(items)[0] == text_of(items[0])[0]);
                assert(t[i + 1] != ']');
                lemma_elems_complete(t, i + 1, items);
            }
            assert(spec_parse_val(t, i) == Some((v, i + w)));
        },
        JsonVal::Obj(pairs) => {
            assert(t[i] == '{');
            let ol = obj_text(pairs).len() as int;
            assert(text_of(v)[ol + 1] == t[i + (ol + 1)]);
            assert(text_of(v)[ol + 1] == '}');
            if pairs.len() == 0 {
                assert(ol == 0);
                assert(t[i + 1] == '}');
                assert(pairs =~= Seq::<(Seq<char>, JsonVal)>::empty());
            } else {
                assert forall|m: int|
                    0 <= m < ol implies #[trigger] obj_text(pairs)[m] == t[i + 1 + m] by {
                    assert(text_of(v)[m + 1] == t[i + (m + 1)]);
                    assert(text_of(v)[m + 1] == obj_text(pairs)[m]);
                }
                assert(obj_text(pairs)[0] == '"') by {
                    assert(obj_text(pairs)[0] == quoted(pairs[0].0)[0]);
                }
                assert(t[i + 1] != '}');
                lemma_members_complete(t, i + 1, pairs);
            }
            assert(spec_parse_val(t, i) == Some((v, i + w)));
        },
    }
}

proof fn lemma_elems_complete(t: Seq<char>, i: int, items: Seq<JsonVal>)
    requires
        0 <= i,
        items.len() >= 1,
        !has_big_int_seq(items),
        i + arr_text(items).len() + 1 <= t.len(),
        forall|m: int|
            0 <= m < arr_text(items).len() ==> #[trigger] arr_text(items)[m] == t[i + m],
        t[i + arr_text(items).len()] == ']',
    ensures
        spec_parse_elems(t, i) == Some((items, i + arr_text(items).len() + 1)),
    decreases items,
{
    let v0 = items[0];
    let w0 = text_of(v0).len() as int;
    let al = arr_text(items).len() as int;
    assert(!has_big_int(v0));
    if items.len() == 1 {
        assert(arr_text(items) == text_of(v0));
        assert forall|m: int| 0 <= m < w0 implies #[trigger] text_of(v0)[m] == t[i + m] by {
            assert(arr_text(items)[m] == t[i + m]);
        }
        assert(t[i + w0] == ']');
        lemma_val_complete(t, i, v0);
        assert(seq![v0] =~= items);
    } else {
        let rest = items.drop_first();
        assert(!has_big_int_seq(rest));
        assert(arr_text(items) == text_of(v0) + seq![','] + arr_text(rest));
        assert forall|m: int| 0 <= m < w0 implies #[trigger] text_of(v0)[m] == t[i + m] by {
            assert(arr_text(items)[m] == t[i + m]);
            assert(arr_text(items)[m] == text_of(v0)[m]);
        }
        assert(arr_text(items)[w0] == t[i + w0]);
        assert(arr_text(items)[w0] == ',');
        assert(!is_dig(t[i + w0]));
        lemma_val_complete(t, i, v0);
        let rl = arr_text(rest).len() as int;
        assert forall|m: int|
            0 <= m < rl implies #[trigger] arr_text(rest)[m] == t[i + w0 + 1 + m] by {
            assert(arr_text(items)[w0 + 1 + m] == t[i + (w0 + 1 + m)]);
            assert(arr_text(items)[w0 + 1 + m] == arr_text(rest)[m]);
        }
        assert(t[i + w0 + 1 + rl] == ']') by {
            assert(al == w0 + 1 + rl);
        }
        lemma_elems_complete(t, i + w0 + 1, rest);
        assert(seq![v0] + rest =~= items);
    }
}

proof fn lemma_members_complete(t: Seq<char>, i: int, pairs: Seq<(Seq<char>, JsonVal)>)
    requires
        0 <= i,
        pairs.len() >= 1,
        !has_big_int_pairs(pairs),
        i + obj_text(pairs).len() + 1 <= t.len(),
        forall|m: int|
            0 <= m < obj_text(pairs).len() ==> #[trigger] obj_text(pairs)[m] == t[i + m],
        t[i + obj_text(pairs).len()] == '}',
    ensures
        spec_parse_members(t, i) == Some((pairs, i + obj_text(pairs).len() + 1)),
    decreases pairs,
{
    let k0 = pairs[0].0;
    let v0 = pairs[0].1;
    let ol = obj_text(pairs).len() as int;
    let head = quoted(k0) + seq![':'] + text_of(v0);
    let hl = head.len() as int;
    let el = escape_chars(k0).len() as int;
    let w0 = text_of(v0).len() as int;
    assert(!has_big_int(v0)) by {
        assert(pairs[0] == (pairs[0].0, pairs[0].1));
    }
    assert(hl == el + 3 + w0);
    if pairs.len() == 1 {
        assert(obj_text(pairs) == head);
    } else {
        assert(obj_text(pairs) == head + seq![','] + obj_text(pairs.drop_first()));
    }
    assert forall|m: int| 0 <= m < hl implies #[trigger] head[m] == t[i + m] by {
        assert(obj_text(pairs)[m] == t[i + m]);
        assert(obj_text(pairs)[m] == head[m]);
    }
    assert(head[0] == '"');
    assert(t[i + 0] == '"');
    assert forall|m: int|
        0 <= m < el implies #[trigger] escape_chars(k0)[m] == t[i + 1 + m] by {
        assert(head[m + 1] == t[i + (m + 1)]);
        assert(head[m + 1] == quoted(k0)[m + 1]);
        assert(quoted(k0)[m + 1] == escape_chars(k0)[m]);
    }
    assert(head[el + 1] == t[i + (el + 1)]);
    assert(head[el + 1] == quoted(k0)[el + 1]);
    assert(quoted(k0)[el + 1] == '"');
    lemma_str_body_complete(t, i + 1, k0);
    let j = i + 1 + el + 1;
    assert(head[el + 2] == t[i + (el + 2)]);
    assert(head[el + 2] == ':');
    assert(t[j] == ':');
    assert forall|m: int| 0 <= m < w0 implies #[trigger] text_of(v0)[m] == t[j + 1 + m] by {
        assert(head[el + 3 + m] == t[i + (el + 3 + m)]);
        assert(head[el + 3 + m] == text_of(v0)[m]);
    }
    if pairs.len() == 1 {
        assert(t[j + 1 + w0] == '}');
        assert(!is_dig(t[j + 1 + w0]));
        lemma_val_complete(t, j + 1, v0);
        assert(seq![(k0, v0)] =~= pairs);
    } else {
        let rest = pairs.drop_first();
        assert(!has_big_int_pairs(rest));
        assert(obj_text(pairs)[hl] == t[i + hl]);
        assert(obj_text(pairs)[hl] == ',');
        assert(t[j + 1 + w0] == ',');
        assert(!is_dig(t[j + 1 + w0]));
        lemma_val_complete(t, j + 1, v0);
        let rl = obj_text(rest).len() as int;
        assert forall|m: int|
            0 <= m < rl implies #[trigger] obj_text(rest)[m] == t[i + hl + 1 + m] by {
            assert(obj_text(pairs)[hl + 1 + m] == t[i + (hl + 1 + m)]);
            assert(obj_text(pairs)[hl + 1 + m] == obj_text(rest)[m]);
        }
        assert(t[i + hl + 1 + rl] == '}') by {
            assert(ol == hl + 1 + rl);
        }
        lemma_members_complete(t, i + hl + 1, rest);
        assert(seq![(k0, v0)] + rest =~= pairs);
    }
}

/// Parsing inverts printing: the compact text of any value free of
/// over-wide integers parses back to exactly that value.
pub proof fn lemma_parse_of_text(v: JsonVal)
    requires
        !has_big_int(v),
    ensures
        spec_parse(text_of(v)) == Some(v),
{
    let t = text_of(v);
    assert forall|m: int| 0 <= m < text_of(v).len() implies #[trigger] text_of(v)[m] == t[0
        + m] by {
    }
    lemma_val_complete(t, 0, v);
}

} // verus!
