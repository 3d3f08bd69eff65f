//! The JSON value tree that the codec layer produces and consumes.
//!
//! `JsonValue` is the executable tree; its mathematical model is `JsonVal`,
//! where strings are character sequences and objects are ordered key/value
//! sequences. Objects keep their keys in insertion order, which the wire
//! format requires.

use vstd::prelude::*;
use vstd::string::StringExecFns;

verus! {

broadcast use vstd::seq::group_seq_axioms;

/// Mathematical model of a JSON value. Object fields are ordered; keys are
/// character sequences.
#[verifier::ext_equal]
pub enum JsonVal {
    Null,
    Bool(bool),
    Int(int),
    Str(Seq<char>),
    Arr(Seq<JsonVal>),
    Obj(Seq<(Seq<char>, JsonVal)>),
}

/// A JSON value. Only what the wire schema needs is represented: numbers are
/// integers.
pub enum JsonValue {
    Null,
    Bool(bool),
    Int(i64),
    Str(String),
    Arr(Vec<JsonValue>),
    Obj(Vec<(String, JsonValue)>),
}

impl View for JsonValue {
    type V = JsonVal;

    open spec fn view(&self) -> JsonVal
        decreases self,
    {
        match self {
            JsonValue::Null => JsonVal::Null,
            JsonValue::Bool(b) => JsonVal::Bool(*b),
            JsonValue::Int(i) => JsonVal::Int(*i as int),
            JsonValue::Str(s) => JsonVal::Str(s@),
            JsonValue::Arr(items) => JsonVal::Arr(vals_view(items@)),
            JsonValue::Obj(pairs) => JsonVal::Obj(pairs_view(pairs@)),
        }
    }
}

/// Model of a sequence of JSON values, element by element.
pub open spec fn vals_view(s: Seq<JsonValue>) -> Seq<JsonVal>
    decreases s,
{
    if s.len() == 0 {
        Seq::empty()
    } else {
        seq![s[0]@] + vals_view(s.drop_first())
    }
}

/// Model of an ordered key/value pair sequence, element by element.
pub open spec fn pairs_view(s: Seq<(String, JsonValue)>) -> Seq<(Seq<char>, JsonVal)>
    decreases s,
{
    if s.len() == 0 {
        Seq::empty()
    } else {
        seq![(s[0].0@, s[0].1@)] + pairs_view(s.drop_first())
    }
}

pub broadcast proof fn lemma_vals_view_len(s: Seq<JsonValue>)
    ensures
        (#[trigger] vals_view(s)).len() == s.len(),
    decreases s,
{
    if s.len() > 0 {
        lemma_vals_view_len(s.drop_first());
        assert(vals_view(s) == seq![s[0]@] + vals_view(s.drop_first()));
        assert(vals_view(s).len() == 1 + vals_view(s.drop_first()).len());
        assert(vals_view(s.drop_first()).len() == s.drop_first().len());
        assert(s.drop_first().len() == s.len() - 1);
    } else {
        assert(vals_view(s) == Seq::<JsonVal>::empty());
    }
}

pub broadcast proof fn lemma_vals_view_index(s: Seq<JsonValue>, i: int)
    requires
        0 <= i < s.len(),
    ensures
        #[trigger] vals_view(s)[i] == s[i]@,
    decreases s,
{
    lemma_vals_view_len(s.drop_first());
    assert(vals_view(s) == seq![s[0]@] + vals_view(s.drop_first()));
    if i > 0 {
        lemma_vals_view_index(s.drop_first(), i - 1);
        assert(vals_view(s)[i] == vals_view(s.drop_first())[i - 1]);
        assert(s.drop_first()[i - 1] == s[i]);
    }
}

pub broadcast proof fn lemma_vals_view_push(s: Seq<JsonValue>, x: JsonValue)
    ensures
        #[trigger] vals_view(s.push(x)) == vals_view(s).push(x@),
    decreases s,
{
    if s.len() == 0 {
        assert(s.push(x)[0] == x);
        assert(s.push(x).drop_first() =~= Seq::<JsonValue>::empty());
        assert(vals_view(s.push(x)) == seq![x@] + vals_view(s.push(x).drop_first()));
        assert(vals_view(s.push(x)) =~= vals_view(s).push(x@));
    } else {
        assert(s.push(x)[0] == s[0]);
        assert(s.push(x).drop_first() =~= s.drop_first().push(x));
        lemma_vals_view_push(s.drop_first(), x);
        assert(vals_view(s.push(x)) == seq![s[0]@] + vals_view(s.drop_first().push(x)));
        assert(vals_view(s.push(x)) =~= vals_view(s).push(x@));
    }
}

pub broadcast proof fn lemma_pairs_view_len(s: Seq<(String, JsonValue)>)
    ensures
        (#[trigger] pairs_view(s)).len() == s.len(),
    decreases s,
{
    if s.len() > 0 {
        lemma_pairs_view_len(s.drop_first());
        assert(pairs_view(s) == seq![(s[0].0@, s[0].1@)] + pairs_view(s.drop_first()));
        assert(pairs_view(s).len() == 1 + pairs_view(s.drop_first()).len());
    } else {
        assert(pairs_view(s) == Seq::<(Seq<char>, JsonVal)>::empty());
    }
}

pub broadcast proof fn lemma_pairs_view_index(s: Seq<(String, JsonValue)>, i: int)
    requires
        0 <= i < s.len(),
    ensures
        #[trigger] pairs_view(s)[i] == (s[i].0@, s[i].1@),
    decreases s,
{
    lemma_pairs_view_len(s.drop_first());
    assert(pairs_view(s) == seq![(s[0].0@, s[0].1@)] + pairs_view(s.drop_first()));
    if i > 0 {
        lemma_pairs_view_index(s.drop_first(), i - 1);
        assert(pairs_view(s)[i] == pairs_view(s.drop_first())[i - 1]);
        assert(s.drop_first()[i - 1] == s[i]);
    }
}

pub broadcast proof fn lemma_pairs_view_push(s: Seq<(String, JsonValue)>, k: String, v: JsonValue)
    ensures
        #[trigger] pairs_view(s.push((k, v))) == pairs_view(s).push((k@, v@)),
    decreases s,
{
    if s.len() == 0 {
        assert(s.push((k, v))[0] == (k, v));
        assert(s.push((k, v)).drop_first() =~= Seq::<(String, JsonValue)>::empty());
        assert(pairs_view(s.push((k, v))) == seq![(k@, v@)] + pairs_view(
            s.push((k, v)).drop_first(),
        ));
        assert(pairs_view(s.push((k, v))) =~= pairs_view(s).push((k@, v@)));
    } else {
        assert(s.push((k, v))[0] == s[0]);
        assert(s.push((k, v)).drop_first() =~= s.drop_first().push((k, v)));
        lemma_pairs_view_push(s.drop_first(), k, v);
        assert(pairs_view(s.push((k, v))) == seq![(s[0].0@, s[0].1@)] + pairs_view(
            s.drop_first().push((k, v)),
        ));
        assert(pairs_view(s.push((k, v))) =~= pairs_view(s).push((k@, v@)));
    }
}

/// Why a decode was refused.
#[derive(Debug, Clone, Copy, PartialEq, Eq, Structural)]
pub enum DecodeError {
    /// The text is not well-formed JSON in the compact wire form.
    Syntax,
    /// A field holds a value of the wrong JSON type.
    WrongType,
    /// A required field is absent.
    MissingField,
    /// An object holds a key outside its schema, or a key twice.
    UnknownField,
    /// An object matches none of the known shapes.
    UnknownShape,
}

/// First value bound to `key`, scanning pairs in order.
pub open spec fn obj_lookup(pairs: Seq<(Seq<char>, JsonVal)>, key: Seq<char>) -> Option<JsonVal>
    decreases pairs,
{
    if pairs.len() == 0 {
        None
    } else if pairs[0].0 == key {
        Some(pairs[0].1)
    } else {
        obj_lookup(pairs.drop_first(), key)
    }
}

/// No key occurs twice.
pub open spec fn keys_unique(pairs: Seq<(Seq<char>, JsonVal)>) -> bool {
    forall|i: int, j: int| 0 <= i < j < pairs.len() ==> pairs[i].0 != pairs[j].0
}

/// Every key is drawn from `allowed`.
pub open spec fn keys_within(pairs: Seq<(Seq<char>, JsonVal)>, allowed: Seq<Seq<char>>) -> bool {
    forall|i: int| 0 <= i < pairs.len() ==> allowed.contains(#[trigger] pairs[i].0)
}

/// Views of a slice of string slices.
pub open spec fn strs_view(a: Seq<&str>) -> Seq<Seq<char>> {
    Seq::new(a.len(), |i: int| a[i]@)
}

proof fn lemma_obj_lookup_skip(pairs: Seq<(Seq<char>, JsonVal)>, key: Seq<char>, i: int)
    requires
        0 <= i <= pairs.len(),
        forall|j: int| 0 <= j < i ==> pairs[j].0 != key,
    ensures
        obj_lookup(pairs, key) == obj_lookup(pairs.skip(i), key),
    decreases i,
{
    if i == 0 {
        assert(pairs.skip(0) =~= pairs);
    } else {
        lemma_obj_lookup_skip(pairs.drop_first(), key, i - 1);
        assert(pairs.drop_first().skip(i - 1) =~= pairs.skip(i));
    }
}

/// String content comparison against a literal.
pub fn str_eq(a: &String, b: &str) -> (r: bool)
    ensures
        r == (a@ == b@),
{
    let bs = String::from_str(b);
    *a == bs
}

/// Ordered lookup of `key` among an object's pairs.
pub fn obj_get<'a>(pairs: &'a Vec<(String, JsonValue)>, key: &str) -> (r: Option<&'a JsonValue>)
    ensures
        match r {
            Some(v) => obj_lookup(pairs_view(pairs@), key@) == Some(v@),
            None => obj_lookup(pairs_view(pairs@), key@) is None,
        },
{
    broadcast use lemma_pairs_view_len, lemma_pairs_view_index;

    let n = pairs.len();
    let mut i: usize = 0;
    while i < n
        invariant
            n == pairs.len(),
            0 <= i <= n,
            forall|j: int| 0 <= j < i ==> #[trigger] pairs_view(pairs@)[j].0 != key@,
        decreases n - i,
    {
        let hit = str_eq(&pairs[i].0, key);
        proof {
            lemma_pairs_view_len(pairs@);
            lemma_pairs_view_index(pairs@, i as int);
        }
        if hit {
            proof {
                lemma_obj_lookup_skip(pairs_view(pairs@), key@, i as int);
                assert(pairs_view(pairs@).skip(i as int).len() == pairs@.len() - i);
                assert(pairs_view(pairs@).skip(i as int)[0] == pairs_view(pairs@)[i as int]);
            }
            return Some(&pairs[i].1);
        }
        i = i + 1;
    }
    proof {
        lemma_pairs_view_len(pairs@);
        lemma_obj_lookup_skip(pairs_view(pairs@), key@, n as int);
        assert(pairs_view(pairs@).skip(n as int) =~= Seq::<(Seq<char>, JsonVal)>::empty());
    }
    None
}

/// Checks that every key is drawn from `allowed` and that no key repeats.
pub fn keys_ok(pairs: &Vec<(String, JsonValue)>, allowed: &Vec<&str>) -> (r: bool)
    ensures
        r == (keys_unique(pairs_view(pairs@)) && keys_within(
            pairs_view(pairs@),
            strs_view(allowed@),
        )),
{
    broadcast use lemma_pairs_view_len, lemma_pairs_view_index;

    let n = pairs.len();
    let mut i: usize = 0;
    while i < n
        invariant
            n == pairs.len(),
            0 <= i <= n,
            forall|a: int, b: int|
                0 <= a < i && a < b < n ==> #[trigger] pairs_view(pairs@)[a].0
                    != #[trigger] pairs_view(pairs@)[b].0,
            forall|a: int|
                0 <= a < i ==> #[trigger] strs_view(allowed@).contains(pairs_view(pairs@)[a].0),
        decreases n - i,
    {
        proof {
            lemma_pairs_view_len(pairs@);
        }
        let m = allowed.len();
        let mut k: usize = 0;
        let mut found = false;
        while k < m
            invariant
                m == allowed.len(),
                0 <= k <= m,
                n == pairs.len(),
                i < n,
                !found ==> forall|c: int|
                    0 <= c < k ==> pairs_view(pairs@)[i as int].0 != #[trigger] strs_view(
                        allowed@,
                    )[c],
                found ==> strs_view(allowed@).contains(pairs_view(pairs@)[i as int].0),
            decreases m - k,
        {
            let hit = str_eq(&pairs[i].0, allowed[k]);
            proof {
                lemma_pairs_view_len(pairs@);
                lemma_pairs_view_index(pairs@, i as int);
                assert(strs_view(allowed@)[k as int] == allowed@[k as int]@);
            }
            if hit {
                found = true;
            }
            k = k + 1;
        }
        if !found {
            proof {
                lemma_pairs_view_len(pairs@);
                assert(strs_view(allowed@).len() == allowed@.len());
                assert(!strs_view(allowed@).contains(pairs_view(pairs@)[i as int].0));
                assert(!keys_within(pairs_view(pairs@), strs_view(allowed@)));
            }
            return false;
        }
        let mut j: usize = i + 1;
        while j < n
            invariant
                n == pairs.len(),
                i < n,
                i + 1 <= j <= n,
                forall|c: int|
                    i < c < j ==> pairs_view(pairs@)[i as int].0 != #[trigger] pairs_view(
                        pairs@,
                    )[c].0,
                strs_view(allowed@).contains(pairs_view(pairs@)[i as int].0),
            decreases n - j,
        {
            let hit = str_eq(&pairs[j].0, &pairs[i].0);
            proof {
                lemma_pairs_view_len(pairs@);
                lemma_pairs_view_index(pairs@, i as int);
                lemma_pairs_view_index(pairs@, j as int);
            }
            if hit {
                proof {
                    assert(pairs_view(pairs@)[i as int].0 == pairs_view(pairs@)[j as int].0);
                    assert(!keys_unique(pairs_view(pairs@)));
                }
                return false;
            }
            j = j + 1;
        }
        i = i + 1;
    }
    proof {
        lemma_pairs_view_len(pairs@);
        assert(keys_unique(pairs_view(pairs@)));
        assert(keys_within(pairs_view(pairs@), strs_view(allowed@)));
    }
    true
}

/// A required string field: the key must be present and bound to a string.
pub open spec fn req_str_field(p: Seq<(Seq<char>, JsonVal)>, key: Seq<char>) -> Option<Seq<char>> {
    match obj_lookup(p, key) {
        Some(JsonVal::Str(s)) => Some(s),
        _ => None,
    }
}

/// An optional string field: an absent key is `Some(None)`; a non-string
/// value is an error (`None`).
pub open spec fn opt_str_field(p: Seq<(Seq<char>, JsonVal)>, key: Seq<char>) -> Option<
    Option<Seq<char>>,
> {
    match obj_lookup(p, key) {
        None => Some(None),
        Some(JsonVal::Str(s)) => Some(Some(s)),
        Some(_) => None,
    }
}

/// A required integer field that must fit in `i32`.
pub open spec fn req_i32_field(p: Seq<(Seq<char>, JsonVal)>, key: Seq<char>) -> Option<i32> {
    match obj_lookup(p, key) {
        Some(JsonVal::Int(n)) => if i32::MIN <= n <= i32::MAX {
            Some(n as i32)
        } else {
            None
        },
        _ => None,
    }
}

/// An optional integer field that must fit in `i32` when present.
pub open spec fn opt_i32_field(p: Seq<(Seq<char>, JsonVal)>, key: Seq<char>) -> Option<
    Option<i32>,
> {
    match obj_lookup(p, key) {
        None => Some(None),
        Some(JsonVal::Int(n)) => if i32::MIN <= n <= i32::MAX {
            Some(Some(n as i32))
        } else {
            None
        },
        Some(_) => None,
    }
}

/// An optional boolean field.
pub open spec fn opt_bool_field(p: Seq<(Seq<char>, JsonVal)>, key: Seq<char>) -> Option<
    Option<bool>,
> {
    match obj_lookup(p, key) {
        None => Some(None),
        Some(JsonVal::Bool(b)) => Some(Some(b)),
        Some(_) => None,
    }
}

pub fn get_req_str(pairs: &Vec<(String, JsonValue)>, key: &str) -> (r: Result<String, DecodeError>)
    ensures
        match r {
            Ok(s) => req_str_field(pairs_view(pairs@), key@) == Some(s@),
            Err(_) => req_str_field(pairs_view(pairs@), key@) is None,
        },
{
    match obj_get(pairs, key) {
        Some(v) => match v {
            JsonValue::Str(s) => Ok(s.clone()),
            _ => Err(DecodeError::WrongType),
        },
        None => Err(DecodeError::MissingField),
    }
}

pub fn get_opt_str(pairs: &Vec<(String, JsonValue)>, key: &str) -> (r: Result<
    Option<String>,
    DecodeError,
>)
    ensures
        match r {
            Ok(Some(s)) => opt_str_field(pairs_view(pairs@), key@) == Some(Some(s@)),
            Ok(None) => opt_str_field(pairs_view(pairs@), key@) == Some(None::<Seq<char>>),
            Err(_) => opt_str_field(pairs_view(pairs@), key@) is None,
        },
{
    match obj_get(pairs, key) {
        Some(v) => match v {
            JsonValue::Str(s) => Ok(Some(s.clone())),
            _ => Err(DecodeError::WrongType),
        },
        None => Ok(None),
    }
}

pub fn get_req_i32(pairs: &Vec<(String, JsonValue)>, key: &str) -> (r: Result<i32, DecodeError>)
    ensures
        match r {
            Ok(n) => req_i32_field(pairs_view(pairs@), key@) == Some(n),
            Err(_) => req_i32_field(pairs_view(pairs@), key@) is None,
        },
{
    match obj_get(pairs, key) {
        Some(v) => match v {
            JsonValue::Int(n) => {
                if i32::MIN as i64 <= *n && *n <= i32::MAX as i64 {
                    Ok(*n as i32)
                } else {
                    Err(DecodeError::WrongType)
                }
            },
            _ => Err(DecodeError::WrongType),
        },
        None => Err(DecodeError::MissingField),
    }
}

pub fn get_opt_i32(pairs: &Vec<(String, JsonValue)>, key: &str) -> (r: Result<
    Option<i32>,
    DecodeError,
>)
    ensures
        match r {
            Ok(Some(n)) => opt_i32_field(pairs_view(pairs@), key@) == Some(Some(n)),
            Ok(None) => opt_i32_field(pairs_view(pairs@), key@) == Some(None::<i32>),
            Err(_) => opt_i32_field(pairs_view(pairs@), key@) is None,
        },
{
    match obj_get(pairs, key) {
        Some(v) => match v {
            JsonValue::Int(n) => {
                if i32::MIN as i64 <= *n && *n <= i32::MAX as i64 {
                    Ok(Some(*n as i32))
                } else {
                    Err(DecodeError::WrongType)
                }
            },
            _ => Err(DecodeError::WrongType),
        },
        None => Ok(None),
    }
}

pub fn get_opt_bool(pairs: &Vec<(String, JsonValue)>, key: &str) -> (r: Result<
    Option<bool>,
    DecodeError,
>)
    ensures
        match r {
            Ok(Some(b)) => opt_bool_field(pairs_view(pairs@), key@) == Some(Some(b)),
            Ok(None) => opt_bool_field(pairs_view(pairs@), key@) == Some(None::<bool>),
            Err(_) => opt_bool_field(pairs_view(pairs@), key@) is None,
        },
{
    match obj_get(pairs, key) {
        Some(v) => match v {
            JsonValue::Bool(b) => Ok(Some(*b)),
            _ => Err(DecodeError::WrongType),
        },
        None => Ok(None),
    }
}

/// Appends one field to an object under construction.
pub fn obj_push(pairs: &mut Vec<(String, JsonValue)>, key: &str, v: JsonValue)
    ensures
        pairs_view(final(pairs)@) == pairs_view(old(pairs)@).push((key@, v@)),
{
    let ks = String::from_str(key);
    let ghost gk = ks;
    let ghost gv = v;
    pairs.push((ks, v));
    proof {
        lemma_pairs_view_push(old(pairs)@, gk, gv);
    }
}

/// Appends one element to an array under construction.
pub fn arr_push(items: &mut Vec<JsonValue>, v: JsonValue)
    ensures
        vals_view(final(items)@) == vals_view(old(items)@).push(v@),
{
    let ghost gv = v;
    items.push(v);
    proof {
        lemma_vals_view_push(old(items)@, gv);
    }
}

/// Model of an optional string.
pub open spec fn opt_view(o: Option<String>) -> Option<Seq<char>> {
    match o {
        Some(s) => Some(s@),
        None => None,
    }
}

/// The object entry for an optional string field: present values are emitted,
/// absent ones leave no trace.
pub open spec fn opt_str_entry(key: Seq<char>, o: Option<Seq<char>>) -> Seq<(Seq<char>, JsonVal)> {
    match o {
        Some(s) => seq![(key, JsonVal::Str(s))],
        None => Seq::empty(),
    }
}

/// The object entry for an optional integer field.
pub open spec fn opt_i32_entry(key: Seq<char>, o: Option<i32>) -> Seq<(Seq<char>, JsonVal)> {
    match o {
        Some(n) => seq![(key, JsonVal::Int(n as int))],
        None => Seq::empty(),
    }
}

/// The object entry for a flag emitted only when set.
pub open spec fn flag_entry(key: Seq<char>, b: bool) -> Seq<(Seq<char>, JsonVal)> {
    if b {
        seq![(key, JsonVal::Bool(true))]
    } else {
        Seq::empty()
    }
}

/// The object entry for an optional nested value, already encoded.
pub open spec fn opt_val_entry(key: Seq<char>, o: Option<JsonVal>) -> Seq<(Seq<char>, JsonVal)> {
    match o {
        Some(v) => seq![(key, v)],
        None => Seq::empty(),
    }
}

/// The object entry for a sequence emitted only when non-empty.
pub open spec fn nonempty_arr_entry(key: Seq<char>, s: Seq<JsonVal>) -> Seq<(Seq<char>, JsonVal)> {
    if s.len() == 0 {
        Seq::empty()
    } else {
        seq![(key, JsonVal::Arr(s))]
    }
}

proof fn lemma_lookup_concat_one(p1: Seq<(Seq<char>, JsonVal)>, p2: Seq<(Seq<char>, JsonVal)>, key: Seq<char>)
    ensures
        obj_lookup(p1 + p2, key) == (match obj_lookup(p1, key) {
            Some(v) => Some(v),
            None => obj_lookup(p2, key),
        }),
    decreases p1,
{
    if p1.len() == 0 {
        assert(p1 + p2 =~= p2);
    } else {
        assert((p1 + p2)[0] == p1[0]);
        assert((p1 + p2).len() > 0);
        if p1[0].0 == key {
        } else {
            assert((p1 + p2).drop_first() =~= p1.drop_first() + p2);
            lemma_lookup_concat_one(p1.drop_first(), p2, key);
        }
    }
}

/// Lookup in a concatenation: the left part is consulted first.
pub proof fn lemma_lookup_concat(p1: Seq<(Seq<char>, JsonVal)>, p2: Seq<(Seq<char>, JsonVal)>)
    ensures
        forall|key: Seq<char>|
            #[trigger] obj_lookup(p1 + p2, key) == (match obj_lookup(p1, key) {
                Some(v) => Some(v),
                None => obj_lookup(p2, key),
            }),
{
    assert forall|key: Seq<char>|
        #[trigger] obj_lookup(p1 + p2, key) == (match obj_lookup(p1, key) {
            Some(v) => Some(v),
            None => obj_lookup(p2, key),
        }) by {
        lemma_lookup_concat_one(p1, p2, key);
    }
}

proof fn lemma_lookup_none_iff_one(p: Seq<(Seq<char>, JsonVal)>, key: Seq<char>)
    ensures
        (obj_lookup(p, key) is None) <==> (forall|i: int|
            0 <= i < p.len() ==> (#[trigger] p[i]).0 != key),
    decreases p,
{
    if p.len() > 0 && p[0].0 != key {
        lemma_lookup_none_iff_one(p.drop_first(), key);
        assert(forall|i: int|
            1 <= i < p.len() ==> #[trigger] p[i] == p.drop_first()[i - 1]);
    }
}

/// A lookup misses exactly when no pair holds the key.
pub proof fn lemma_lookup_none_iff(p: Seq<(Seq<char>, JsonVal)>)
    ensures
        forall|key: Seq<char>|
            ((#[trigger] obj_lookup(p, key)) is None) <==> (forall|i: int|
                0 <= i < p.len() ==> (#[trigger] p[i]).0 != key),
{
    assert forall|key: Seq<char>|
        ((#[trigger] obj_lookup(p, key)) is None) <==> (forall|i: int|
            0 <= i < p.len() ==> (#[trigger] p[i]).0 != key) by {
        lemma_lookup_none_iff_one(p, key);
    }
}

/// Key uniqueness is preserved by concatenation when the right part's keys
/// miss the left part.
pub proof fn lemma_keys_unique_concat(p1: Seq<(Seq<char>, JsonVal)>, p2: Seq<(Seq<char>, JsonVal)>)
    requires
        keys_unique(p1),
        keys_unique(p2),
        forall|i: int| 0 <= i < p2.len() ==> obj_lookup(p1, (#[trigger] p2[i]).0) is None,
    ensures
        keys_unique(p1 + p2),
{
    lemma_lookup_none_iff(p1);
    assert forall|i: int, j: int| 0 <= i < j < (p1 + p2).len() implies (p1 + p2)[i].0 != (p1
        + p2)[j].0 by {
        if i < p1.len() && j >= p1.len() {
            assert((p1 + p2)[j] == p2[j - p1.len()]);
            assert(obj_lookup(p1, p2[j - p1.len()].0) is None);
        }
    }
}

/// Membership in `allowed` is preserved by concatenation.
pub proof fn lemma_keys_within_concat(
    p1: Seq<(Seq<char>, JsonVal)>,
    p2: Seq<(Seq<char>, JsonVal)>,
    allowed: Seq<Seq<char>>,
)
    requires
        keys_within(p1, allowed),
        keys_within(p2, allowed),
    ensures
        keys_within(p1 + p2, allowed),
{
    assert forall|i: int| 0 <= i < (p1 + p2).len() implies allowed.contains(
        #[trigger] (p1 + p2)[i].0,
    ) by {
        if i >= p1.len() {
            assert((p1 + p2)[i] == p2[i - p1.len()]);
        }
    }
}

/// Lookup in a one-field object.
pub proof fn lemma_lookup_single(k: Seq<char>, v: JsonVal)
    ensures
        forall|key: Seq<char>|
            #[trigger] obj_lookup(seq![(k, v)], key) == (if key == k {
                Some(v)
            } else {
                None::<JsonVal>
            }),
{
    assert forall|key: Seq<char>|
        #[trigger] obj_lookup(seq![(k, v)], key) == (if key == k {
            Some(v)
        } else {
            None::<JsonVal>
        }) by {
        reveal_with_fuel(obj_lookup, 3);
        assert(seq![(k, v)].drop_first() =~= Seq::<(Seq<char>, JsonVal)>::empty());
    }
}

/// Lookup in the empty object.
pub proof fn lemma_lookup_empty()
    ensures
        forall|key: Seq<char>|
            #[trigger] obj_lookup(Seq::<(Seq<char>, JsonVal)>::empty(), key) is None,
{
}

/// What each entry form holds: at most one pair, under its own key, and what
/// a lookup in it gives.
pub proof fn lemma_opt_str_entry(k: Seq<char>, o: Option<Seq<char>>)
    ensures
        opt_str_entry(k, o).len() <= 1,
        forall|i: int|
            0 <= i < opt_str_entry(k, o).len() ==> (#[trigger] opt_str_entry(k, o)[i]).0 == k,
        forall|key: Seq<char>|
            #[trigger] obj_lookup(opt_str_entry(k, o), key) == (if key == k {
                match o {
                    Some(s) => Some(JsonVal::Str(s)),
                    None => None::<JsonVal>,
                }
            } else {
                None::<JsonVal>
            }),
{
    match o {
        Some(s) => lemma_lookup_single(k, JsonVal::Str(s)),
        None => lemma_lookup_empty(),
    }
}

pub proof fn lemma_opt_i32_entry(k: Seq<char>, o: Option<i32>)
    ensures
        opt_i32_entry(k, o).len() <= 1,
        forall|i: int|
            0 <= i < opt_i32_entry(k, o).len() ==> (#[trigger] opt_i32_entry(k, o)[i]).0 == k,
        forall|key: Seq<char>|
            #[trigger] obj_lookup(opt_i32_entry(k, o), key) == (if key == k {
                match o {
                    Some(n) => Some(JsonVal::Int(n as int)),
                    None => None::<JsonVal>,
                }
            } else {
                None::<JsonVal>
            }),
{
    match o {
        Some(n) => lemma_lookup_single(k, JsonVal::Int(n as int)),
        None => lemma_lookup_empty(),
    }
}

pub proof fn lemma_flag_entry(k: Seq<char>, b: bool)
    ensures
        flag_entry(k, b).len() <= 1,
        forall|i: int| 0 <= i < flag_entry(k, b).len() ==> (#[trigger] flag_entry(k, b)[i]).0 == k,
        forall|key: Seq<char>|
            #[trigger] obj_lookup(flag_entry(k, b), key) == (if key == k && b {
                Some(JsonVal::Bool(true))
            } else {
                None::<JsonVal>
            }),
{
    if b {
        lemma_lookup_single(k, JsonVal::Bool(true));
    } else {
        lemma_lookup_empty();
    }
}

pub proof fn lemma_opt_val_entry(k: Seq<char>, o: Option<JsonVal>)
    ensures
        opt_val_entry(k, o).len() <= 1,
        forall|i: int|
            0 <= i < opt_val_entry(k, o).len() ==> (#[trigger] opt_val_entry(k, o)[i]).0 == k,
        forall|key: Seq<char>|
            #[trigger] obj_lookup(opt_val_entry(k, o), key) == (if key == k {
                o
            } else {
                None::<JsonVal>
            }),
{
    match o {
        Some(v) => lemma_lookup_single(k, v),
        None => lemma_lookup_empty(),
    }
}

pub proof fn lemma_nonempty_arr_entry(k: Seq<char>, s: Seq<JsonVal>)
    ensures
        nonempty_arr_entry(k, s).len() <= 1,
        forall|i: int|
            0 <= i < nonempty_arr_entry(k, s).len() ==> (#[trigger] nonempty_arr_entry(k, s)[i]).0
                == k,
        forall|key: Seq<char>|
            #[trigger] obj_lookup(nonempty_arr_entry(k, s), key) == (if key == k && s.len() > 0 {
                Some(JsonVal::Arr(s))
            } else {
                None::<JsonVal>
            }),
{
    if s.len() > 0 {
        lemma_lookup_single(k, JsonVal::Arr(s));
    } else {
        lemma_lookup_empty();
    }
}

/// Appends an optional string field: present values are emitted, absent
/// ones leave no trace.
pub fn opt_str_push(pairs: &mut Vec<(String, JsonValue)>, key: &str, v: &Option<String>)
    ensures
        pairs_view(final(pairs)@) == pairs_view(old(pairs)@) + opt_str_entry(key@, opt_view(*v)),
{
    match v {
        Some(s) => {
            obj_push(pairs, key, JsonValue::Str(s.clone()));
            proof {
                assert(pairs_view(pairs@) =~= pairs_view(old(pairs)@) + opt_str_entry(
                    key@,
                    opt_view(*v),
                ));
            }
        },
        None => {
            proof {
                assert(pairs_view(pairs@) =~= pairs_view(old(pairs)@) + opt_str_entry(
                    key@,
                    opt_view(*v),
                ));
            }
        },
    }
}

/// Appends an array field only when it is non-empty.
pub fn nonempty_arr_push(pairs: &mut Vec<(String, JsonValue)>, key: &str, items: Vec<JsonValue>)
    ensures
        pairs_view(final(pairs)@) == pairs_view(old(pairs)@) + nonempty_arr_entry(
            key@,
            vals_view(items@),
        ),
{
    proof {
        lemma_vals_view_len(items@);
    }
    let ghost gi = items@;
    if items.len() > 0 {
        obj_push(pairs, key, JsonValue::Arr(items));
        proof {
            assert(pairs_view(pairs@) =~= pairs_view(old(pairs)@) + nonempty_arr_entry(
                key@,
                vals_view(gi),
            ));
        }
    } else {
        proof {
            assert(vals_view(items@) =~= Seq::<JsonVal>::empty());
            assert(pairs_view(pairs@) =~= pairs_view(old(pairs)@) + nonempty_arr_entry(
                key@,
                vals_view(items@),
            ));
        }
    }
}

/// Whether `null` occurs anywhere in a value.
pub open spec fn has_null(v: JsonVal) -> bool
    decreases v,
{
    match v {
        JsonVal::Null => true,
        JsonVal::Bool(_) => false,
        JsonVal::Int(_) => false,
        JsonVal::Str(_) => false,
        JsonVal::Arr(items) => has_null_seq(items),
        JsonVal::Obj(pairs) => has_null_pairs(pairs),
    }
}

/// Whether `null` occurs in any element.
pub open spec fn has_null_seq(s: Seq<JsonVal>) -> bool
    decreases s,
{
    if s.len() == 0 {
        false
    } else {
        has_null(s[0]) || has_null_seq(s.drop_first())
    }
}

/// Whether `null` occurs in any field value.
pub open spec fn has_null_pairs(p: Seq<(Seq<char>, JsonVal)>) -> bool
    decreases p,
{
    if p.len() == 0 {
        false
    } else {
        has_null(p[0].1) || has_null_pairs(p.drop_first())
    }
}

pub proof fn lemma_has_null_seq_iff(s: Seq<JsonVal>)
    ensures
        has_null_seq(s) <==> exists|i: int| 0 <= i < s.len() && has_null(#[trigger] s[i]),
    decreases s,
{
    if s.len() > 0 {
        lemma_has_null_seq_iff(s.drop_first());
        if has_null_seq(s.drop_first()) {
            let i = choose|i: int|
                0 <= i < s.drop_first().len() && has_null(#[trigger] s.drop_first()[i]);
            assert(s[i + 1] == s.drop_first()[i]);
        }
        if exists|i: int| 0 <= i < s.len() && has_null(#[trigger] s[i]) {
            let i = choose|i: int| 0 <= i < s.len() && has_null(#[trigger] s[i]);
            if i > 0 {
                assert(s.drop_first()[i - 1] == s[i]);
            }
        }
    }
}

pub proof fn lemma_has_null_pairs_concat(p1: Seq<(Seq<char>, JsonVal)>, p2: Seq<(Seq<char>, JsonVal)>)
    ensures
        has_null_pairs(p1 + p2) == (has_null_pairs(p1) || has_null_pairs(p2)),
    decreases p1,
{
    if p1.len() == 0 {
        assert(p1 + p2 =~= p2);
    } else {
        assert((p1 + p2)[0] == p1[0]);
        assert((p1 + p2).drop_first() =~= p1.drop_first() + p2);
        lemma_has_null_pairs_concat(p1.drop_first(), p2);
    }
}

pub proof fn lemma_has_null_pairs_single(k: Seq<char>, v: JsonVal)
    ensures
        has_null_pairs(seq![(k, v)]) == has_null(v),
{
    assert(seq![(k, v)].drop_first() =~= Seq::<(Seq<char>, JsonVal)>::empty());
    assert(!has_null_pairs(Seq::<(Seq<char>, JsonVal)>::empty()));
}

pub proof fn lemma_opt_str_entry_no_null(k: Seq<char>, o: Option<Seq<char>>)
    ensures
        !has_null_pairs(opt_str_entry(k, o)),
{
    match o {
        Some(s) => lemma_has_null_pairs_single(k, JsonVal::Str(s)),
        None => {},
    }
}

pub proof fn lemma_opt_i32_entry_no_null(k: Seq<char>, o: Option<i32>)
    ensures
        !has_null_pairs(opt_i32_entry(k, o)),
{
    match o {
        Some(n) => lemma_has_null_pairs_single(k, JsonVal::Int(n as int)),
        None => {},
    }
}

pub proof fn lemma_flag_entry_no_null(k: Seq<char>, b: bool)
    ensures
        !has_null_pairs(flag_entry(k, b)),
{
    if b {
        lemma_has_null_pairs_single(k, JsonVal::Bool(true));
    }
}

pub proof fn lemma_opt_val_entry_null(k: Seq<char>, o: Option<JsonVal>)
    ensures
        has_null_pairs(opt_val_entry(k, o)) == (o matches Some(v) && has_null(v)),
{
    match o {
        Some(v) => lemma_has_null_pairs_single(k, v),
        None => {},
    }
}

pub proof fn lemma_nonempty_arr_entry_null(k: Seq<char>, s: Seq<JsonVal>)
    ensures
        has_null_pairs(nonempty_arr_entry(k, s)) == (s.len() > 0 && has_null_seq(s)),
{
    if s.len() > 0 {
        lemma_has_null_pairs_single(k, JsonVal::Arr(s));
    }
}

/// Whether a value holds an integer too wide for the eighteen-digit wire
/// form.
pub open spec fn has_big_int(v: JsonVal) -> bool
    decreases v,
{
    match v {
        JsonVal::Null => false,
        JsonVal::Bool(_) => false,
        JsonVal::Int(i) => i <= -1000000000000000000 || i >= 1000000000000000000,
        JsonVal::Str(_) => false,
        JsonVal::Arr(items) => has_big_int_seq(items),
        JsonVal::Obj(pairs) => has_big_int_pairs(pairs),
    }
}

/// Whether any element holds a too-wide integer.
pub open spec fn has_big_int_seq(s: Seq<JsonVal>) -> bool
    decreases s,
{
    if s.len() == 0 {
        false
    } else {
        has_big_int(s[0]) || has_big_int_seq(s.drop_first())
    }
}

/// Whether any field value holds a too-wide integer.
pub open spec fn has_big_int_pairs(p: Seq<(Seq<char>, JsonVal)>) -> bool
    decreases p,
{
    if p.len() == 0 {
        false
    } else {
        has_big_int(p[0].1) || has_big_int_pairs(p.drop_first())
    }
}

pub proof fn lemma_has_big_int_seq_iff(s: Seq<JsonVal>)
    ensures
        has_big_int_seq(s) <==> exists|i: int| 0 <= i < s.len() && has_big_int(#[trigger] s[i]),
    decreases s,
{
    if s.len() > 0 {
        lemma_has_big_int_seq_iff(s.drop_first());
        if has_big_int_seq(s.drop_first()) {
            let i = choose|i: int|
                0 <= i < s.drop_first().len() && has_big_int(#[trigger] s.drop_first()[i]);
            assert(s[i + 1] == s.drop_first()[i]);
        }
        if exists|i: int| 0 <= i < s.len() && has_big_int(#[trigger] s[i]) {
            let i = choose|i: int| 0 <= i < s.len() && has_big_int(#[trigger] s[i]);
            if i > 0 {
                assert(s.drop_first()[i - 1] == s[i]);
            }
        }
    }
}

pub proof fn lemma_has_big_int_pairs_concat(p1: Seq<(Seq<char>, JsonVal)>, p2: Seq<(Seq<char>, JsonVal)>)
    ensures
        has_big_int_pairs(p1 + p2) == (has_big_int_pairs(p1) || has_big_int_pairs(p2)),
    decreases p1,
{
    if p1.len() == 0 {
        assert(p1 + p2 =~= p2);
    } else {
        assert((p1 + p2)[0] == p1[0]);
        assert((p1 + p2).drop_first() =~= p1.drop_first() + p2);
        lemma_has_big_int_pairs_concat(p1.drop_first(), p2);
    }
}

pub proof fn lemma_has_big_int_pairs_single(k: Seq<char>, v: JsonVal)
    ensures
        has_big_int_pairs(seq![(k, v)]) == has_big_int(v),
{
    assert(seq![(k, v)].drop_first() =~= Seq::<(Seq<char>, JsonVal)>::empty());
    assert(!has_big_int_pairs(Seq::<(Seq<char>, JsonVal)>::empty()));
}

pub proof fn lemma_opt_str_entry_no_big_int(k: Seq<char>, o: Option<Seq<char>>)
    ensures
        !has_big_int_pairs(opt_str_entry(k, o)),
{
    match o {
        Some(s) => lemma_has_big_int_pairs_single(k, JsonVal::Str(s)),
        None => {},
    }
}

pub proof fn lemma_opt_i32_entry_no_big_int(k: Seq<char>, o: Option<i32>)
    ensures
        !has_big_int_pairs(opt_i32_entry(k, o)),
{
    match o {
        Some(n) => lemma_has_big_int_pairs_single(k, JsonVal::Int(n as int)),
        None => {},
    }
}

pub proof fn lemma_flag_entry_no_big_int(k: Seq<char>, b: bool)
    ensures
        !has_big_int_pairs(flag_entry(k, b)),
{
    if b {
        lemma_has_big_int_pairs_single(k, JsonVal::Bool(true));
    }
}

pub proof fn lemma_opt_val_entry_big_int(k: Seq<char>, o: Option<JsonVal>)
    ensures
        has_big_int_pairs(opt_val_entry(k, o)) == (o matches Some(v) && has_big_int(v)),
{
    match o {
        Some(v) => lemma_has_big_int_pairs_single(k, v),
        None => {},
    }
}

pub proof fn lemma_nonempty_arr_entry_big_int(k: Seq<char>, s: Seq<JsonVal>)
    ensures
        has_big_int_pairs(nonempty_arr_entry(k, s)) == (s.len() > 0 && has_big_int_seq(s)),
{
    if s.len() > 0 {
        lemma_has_big_int_pairs_single(k, JsonVal::Arr(s));
    }
}

} // verus!
