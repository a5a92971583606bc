//! A plain model of free-form document values (the contents of enum lists,
//! examples, defaults and unknown-field bags).  Numbers keep the three wire
//! shapes — non-negative integer, negative integer, and a binary64 float
//! carried by its bit pattern.  The two integer shapes compare by value, and
//! the two float zeroes are equal; a float never equals an integer, matching
//! the decoding layer, which keeps integral and floating literals apart.
use vstd::prelude::*;

verus! {

broadcast use vstd::std_specs::vec::group_vec_axioms;

/// A number as decoded from a document.
#[derive(Clone, Copy, Debug)]
pub enum JsonNum {
    PosInt(u64),
    NegInt(i64),
    FloatBits(u64),
}

/// A free-form document value.
#[derive(Debug)]
pub enum JsonValue {
    Null,
    Bool(bool),
    Num(JsonNum),
    Text(String),
    Arr(Vec<JsonValue>),
    Obj(Vec<(String, JsonValue)>),
}

/// The bit patterns of the two binary64 zeroes.
pub open spec fn f64_zero_bits(bits: u64) -> bool {
    bits == 0u64 || bits == 0x8000_0000_0000_0000u64
}

pub open spec fn json_num_eq(a: JsonNum, b: JsonNum) -> bool {
    match (a, b) {
        (JsonNum::PosInt(x), JsonNum::PosInt(y)) => x == y,
        (JsonNum::NegInt(x), JsonNum::NegInt(y)) => x == y,
        (JsonNum::FloatBits(x), JsonNum::FloatBits(y)) => x == y || (f64_zero_bits(x)
            && f64_zero_bits(y)),
        (JsonNum::PosInt(x), JsonNum::NegInt(y)) => y >= 0 && x as int == y as int,
        (JsonNum::NegInt(x), JsonNum::PosInt(y)) => x >= 0 && x as int == y as int,
        _ => false,
    }
}

/// Structural value equality of two document values; object bags are ordered,
/// so entries are compared pairwise in order.
pub open spec fn json_eq(a: JsonValue, b: JsonValue) -> bool
    decreases a,
{
    match (a, b) {
        (JsonValue::Null, JsonValue::Null) => true,
        (JsonValue::Bool(x), JsonValue::Bool(y)) => x == y,
        (JsonValue::Num(x), JsonValue::Num(y)) => json_num_eq(x, y),
        (JsonValue::Text(x), JsonValue::Text(y)) => x@ == y@,
        (JsonValue::Arr(xs), JsonValue::Arr(ys)) => {
            &&& xs@.len() == ys@.len()
            &&& forall|i: int| 0 <= i < xs@.len() ==> json_eq(#[trigger] xs@[i], ys@[i])
        },
        (JsonValue::Obj(xs), JsonValue::Obj(ys)) => json_entries_eq(xs@, ys@),
        _ => false,
    }
}

/// Pairwise equality of two ordered key-value bags.
pub open spec fn json_entries_eq(xs: Seq<(String, JsonValue)>, ys: Seq<(String, JsonValue)>) -> bool
    decreases xs,
{
    &&& xs.len() == ys.len()
    &&& forall|i: int|
        0 <= i < xs.len() ==> (#[trigger] xs[i]).0@ == ys[i].0@ && json_eq(xs[i].1, ys[i].1)
}

pub fn json_num_equal(a: &JsonNum, b: &JsonNum) -> (r: bool)
    ensures
        r == json_num_eq(*a, *b),
{
    match (a, b) {
        (JsonNum::PosInt(x), JsonNum::PosInt(y)) => *x == *y,
        (JsonNum::NegInt(x), JsonNum::NegInt(y)) => *x == *y,
        (JsonNum::FloatBits(x), JsonNum::FloatBits(y)) => *x == *y || ((*x == 0u64 || *x
            == 0x8000_0000_0000_0000u64) && (*y == 0u64 || *y == 0x8000_0000_0000_0000u64)),
        (JsonNum::PosInt(x), JsonNum::NegInt(y)) => *y >= 0 && *x == (*y as u64),
        (JsonNum::NegInt(x), JsonNum::PosInt(y)) => *x >= 0 && (*x as u64) == *y,
        _ => false,
    }
}

pub fn json_equal(a: &JsonValue, b: &JsonValue) -> (r: bool)
    ensures
        r == json_eq(*a, *b),
    decreases *a,
{
    match (a, b) {
        (JsonValue::Null, JsonValue::Null) => true,
        (JsonValue::Bool(x), JsonValue::Bool(y)) => *x == *y,
        (JsonValue::Num(x), JsonValue::Num(y)) => json_num_equal(x, y),
        (JsonValue::Text(x), JsonValue::Text(y)) => *x == *y,
        (JsonValue::Arr(xs), JsonValue::Arr(ys)) => {
            if xs.len() != ys.len() {
                return false;
            }
            let mut i: usize = 0;
            while i < xs.len()
                invariant
                    xs@.len() == ys@.len(),
                    0 <= i <= xs@.len(),
                    a == JsonValue::Arr(*xs),
                    b == JsonValue::Arr(*ys),
                    forall|j: int| 0 <= j < i ==> json_eq(#[trigger] xs@[j], ys@[j]),
                decreases xs@.len() - i,
            {
                proof {
                    assert(a->Arr_0 == *xs);
                    assert(decreases_to!(*a => a->Arr_0));
                    assert(decreases_to!(*xs => xs@[i as int]));
                }
                if !json_equal(&xs[i], &ys[i]) {
                    return false;
                }
                i = i + 1;
            }
            true
        },
        (JsonValue::Obj(xs), JsonValue::Obj(ys)) => {
            proof {
                assert(a->Obj_0 == *xs);
                assert(b->Obj_0 == *ys);
                assert(json_eq(*a, *b) == json_entries_eq(xs@, ys@));
            }
            if xs.len() != ys.len() {
                return false;
            }
            let mut i: usize = 0;
            while i < xs.len()
                invariant
                    xs@.len() == ys@.len(),
                    0 <= i <= xs@.len(),
                    a == JsonValue::Obj(*xs),
                    b == JsonValue::Obj(*ys),
                    json_eq(*a, *b) == json_entries_eq(xs@, ys@),
                    forall|j: int|
                        0 <= j < i ==> (#[trigger] xs@[j]).0@ == ys@[j].0@ && json_eq(
                            xs@[j].1,
                            ys@[j].1,
                        ),
                decreases xs@.len() - i,
            {
                let keys_eq = xs[i].0 == ys[i].0;
                proof {
                    assert(a->Obj_0 == *xs);
                    assert(decreases_to!(*a => a->Obj_0));
                    assert(decreases_to!(*xs => xs@[i as int]));
                    assert(decreases_to!(xs@[i as int] => xs@[i as int].1));
                }
                let vals_eq = json_equal(&xs[i].1, &ys[i].1);
                if !(keys_eq && vals_eq) {
                    return false;
                }
                i = i + 1;
            }
            true
        },
        _ => false,
    }
}

/// A structurally equal copy of a document value.
pub fn json_dup(v: &JsonValue) -> (r: JsonValue)
    ensures
        json_eq(r, *v),
    decreases *v,
{
    match v {
        JsonValue::Null => JsonValue::Null,
        JsonValue::Bool(x) => JsonValue::Bool(*x),
        JsonValue::Num(x) => JsonValue::Num(*x),
        JsonValue::Text(x) => JsonValue::Text(x.clone()),
        JsonValue::Arr(xs) => {
            let mut out: Vec<JsonValue> = Vec::new();
            let mut i: usize = 0;
            while i < xs.len()
                invariant
                    0 <= i <= xs@.len(),
                    v == JsonValue::Arr(*xs),
                    out@.len() == i,
                    forall|j: int| 0 <= j < i ==> json_eq(#[trigger] out@[j], xs@[j]),
                decreases xs@.len() - i,
            {
                proof {
                    assert(v->Arr_0 == *xs);
                    assert(decreases_to!(*v => v->Arr_0));
                    assert(decreases_to!(*xs => xs@[i as int]));
                }
                let c = json_dup(&xs[i]);
                out.push(c);
                i = i + 1;
            }
            proof {
                assert(v->Arr_0 == *xs);
                assert(json_eq(JsonValue::Arr(out), *v));
            }
            JsonValue::Arr(out)
        },
        JsonValue::Obj(xs) => {
            proof {
                assert(v->Obj_0 == *xs);
            }
            let mut out: Vec<(String, JsonValue)> = Vec::new();
            let mut i: usize = 0;
            while i < xs.len()
                invariant
                    0 <= i <= xs@.len(),
                    v == JsonValue::Obj(*xs),
                    out@.len() == i,
                    forall|j: int|
                        0 <= j < i ==> (#[trigger] out@[j]).0@ == xs@[j].0@ && json_eq(
                            out@[j].1,
                            xs@[j].1,
                        ),
                decreases xs@.len() - i,
            {
                proof {
                    assert(v->Obj_0 == *xs);
                    assert(decreases_to!(*v => v->Obj_0));
                    assert(decreases_to!(*xs => xs@[i as int]));
                    assert(decreases_to!(xs@[i as int] => xs@[i as int].1));
                }
                let c = json_dup(&xs[i].1);
                let k = xs[i].0.clone();
                out.push((k, c));
                i = i + 1;
            }
            proof {
                assert(v->Obj_0 == *xs);
                assert(json_entries_eq(out@, xs@));
                assert(json_eq(JsonValue::Obj(out), *v));
            }
            JsonValue::Obj(out)
        },
    }
}

/// A structurally equal copy of an ordered key-value bag.
pub fn json_entries_dup(xs: &Vec<(String, JsonValue)>) -> (r: Vec<(String, JsonValue)>)
    ensures
        json_entries_eq(r@, xs@),
{
    let mut out: Vec<(String, JsonValue)> = Vec::new();
    let mut i: usize = 0;
    while i < xs.len()
        invariant
            0 <= i <= xs@.len(),
            out@.len() == i,
            forall|j: int|
                0 <= j < i ==> (#[trigger] out@[j]).0@ == xs@[j].0@ && json_eq(out@[j].1, xs@[j].1),
        decreases xs@.len() - i,
    {
        let c = json_dup(&xs[i].1);
        let k = xs[i].0.clone();
        out.push((k, c));
        i = i + 1;
    }
    out
}

/// Pairwise equality of two ordered key-value bags, as runnable code.
pub fn json_entries_equal(xs: &Vec<(String, JsonValue)>, ys: &Vec<(String, JsonValue)>) -> (r: bool)
    ensures
        r == json_entries_eq(xs@, ys@),
{
    if xs.len() != ys.len() {
        return false;
    }
    let mut i: usize = 0;
    while i < xs.len()
        invariant
            xs@.len() == ys@.len(),
            0 <= i <= xs@.len(),
            forall|j: int|
                0 <= j < i ==> (#[trigger] xs@[j]).0@ == ys@[j].0@ && json_eq(xs@[j].1, ys@[j].1),
        decreases xs@.len() - i,
    {
        let keys_eq = xs[i].0 == ys[i].0;
        let vals_eq = json_equal(&xs[i].1, &ys[i].1);
        if !(keys_eq && vals_eq) {
            return false;
        }
        i = i + 1;
    }
    true
}

/// `json_eq` relates every value to itself.
pub proof fn lemma_json_eq_refl(v: JsonValue)
    ensures
        json_eq(v, v),
    decreases v,
{
    if v is Arr {
        let xs = v->Arr_0;
        assert forall|i: int| 0 <= i < xs@.len() implies json_eq(#[trigger] xs@[i], xs@[i]) by {
            assert(decreases_to!(v => xs));
            assert(decreases_to!(xs => xs@[i]));
            lemma_json_eq_refl(xs@[i]);
        }
    } else if v is Obj {
        let xs = v->Obj_0;
        assert forall|i: int| 0 <= i < xs@.len() implies (#[trigger] xs@[i]).0@ == xs@[i].0@
            && json_eq(xs@[i].1, xs@[i].1) by {
            assert(decreases_to!(v => xs));
            assert(decreases_to!(xs => xs@[i]));
            assert(decreases_to!(xs@[i] => xs@[i].1));
            lemma_json_eq_refl(xs@[i].1);
        }
        assert(json_entries_eq(xs@, xs@));
    }
}

/// `json_entries_eq` relates every bag to itself.
pub proof fn lemma_json_entries_eq_refl(s: Seq<(String, JsonValue)>)
    ensures
        json_entries_eq(s, s),
{
    assert forall|i: int| 0 <= i < s.len() implies (#[trigger] s[i]).0@ == s[i].0@ && json_eq(
        s[i].1,
        s[i].1,
    ) by {
        lemma_json_eq_refl(s[i].1);
    }
}

/// `json_eq` is symmetric.
pub proof fn lemma_json_eq_sym(a: JsonValue, b: JsonValue)
    requires
        json_eq(a, b),
    ensures
        json_eq(b, a),
    decreases a,
{
    if a is Arr && b is Arr {
        let xs = a->Arr_0;
        let ys = b->Arr_0;
        assert forall|i: int| 0 <= i < ys@.len() implies json_eq(#[trigger] ys@[i], xs@[i]) by {
            assert(json_eq(xs@[i], ys@[i]));
            assert(decreases_to!(a => xs));
            assert(decreases_to!(xs => xs@[i]));
            lemma_json_eq_sym(xs@[i], ys@[i]);
        }
    } else if a is Obj && b is Obj {
        let xs = a->Obj_0;
        let ys = b->Obj_0;
        assert(json_entries_eq(xs@, ys@));
        assert forall|i: int| 0 <= i < ys@.len() implies (#[trigger] ys@[i]).0@ == xs@[i].0@
            && json_eq(ys@[i].1, xs@[i].1) by {
            assert(xs@[i].0@ == ys@[i].0@ && json_eq(xs@[i].1, ys@[i].1));
            assert(decreases_to!(a => xs));
            assert(decreases_to!(xs => xs@[i]));
            assert(decreases_to!(xs@[i] => xs@[i].1));
            lemma_json_eq_sym(xs@[i].1, ys@[i].1);
        }
        assert(json_entries_eq(ys@, xs@));
    }
}

/// `json_eq` is transitive.
pub proof fn lemma_json_eq_trans(a: JsonValue, b: JsonValue, c: JsonValue)
    requires
        json_eq(a, b),
        json_eq(b, c),
    ensures
        json_eq(a, c),
    decreases a,
{
    if a is Arr && b is Arr && c is Arr {
        let xs = a->Arr_0;
        let ys = b->Arr_0;
        let zs = c->Arr_0;
        assert forall|i: int| 0 <= i < xs@.len() implies json_eq(#[trigger] xs@[i], zs@[i]) by {
            assert(json_eq(xs@[i], ys@[i]));
            assert(json_eq(ys@[i], zs@[i]));
            assert(decreases_to!(a => xs));
            assert(decreases_to!(xs => xs@[i]));
            lemma_json_eq_trans(xs@[i], ys@[i], zs@[i]);
        }
    } else if a is Obj && b is Obj && c is Obj {
        let xs = a->Obj_0;
        let ys = b->Obj_0;
        let zs = c->Obj_0;
        assert(json_entries_eq(xs@, ys@));
        assert(json_entries_eq(ys@, zs@));
        assert forall|i: int| 0 <= i < xs@.len() implies (#[trigger] xs@[i]).0@ == zs@[i].0@
            && json_eq(xs@[i].1, zs@[i].1) by {
            assert(xs@[i].0@ == ys@[i].0@ && json_eq(xs@[i].1, ys@[i].1));
            assert(ys@[i].0@ == zs@[i].0@ && json_eq(ys@[i].1, zs@[i].1));
            assert(decreases_to!(a => xs));
            assert(decreases_to!(xs => xs@[i]));
            assert(decreases_to!(xs@[i] => xs@[i].1));
            lemma_json_eq_trans(xs@[i].1, ys@[i].1, zs@[i].1);
        }
        assert(json_entries_eq(xs@, zs@));
    }
}

} // verus!
