//! JSON values as plain data, and the model that contracts speak of them with.
//!
//! An object is a list of fields. Fields are put in the order of their names,
//! which is also the order in which they are read out.

use crate::text::{before, is_before, opt_text, same, texts};
use vstd::prelude::*;

verus! {

pub enum Json {
    Null,
    Bool(bool),
    /// A whole number in the range of `i64`.
    Int(i64),
    /// Any other number, by its decimal text.
    Decimal(String),
    Str(String),
    Arr(Vec<Json>),
    Obj(Vec<(String, Json)>),
}

/// The model of a value.
#[verifier::ext_equal]
pub enum JsonV {
    Null,
    Bool(bool),
    Int(i64),
    Decimal(Seq<char>),
    Str(Seq<char>),
    Arr(Seq<JsonV>),
    Obj(Seq<(Seq<char>, JsonV)>),
}

pub type Fields = Seq<(Seq<char>, JsonV)>;

pub open spec fn json_view(j: Json) -> JsonV
    decreases j,
{
    match j {
        Json::Null => JsonV::Null,
        Json::Bool(b) => JsonV::Bool(b),
        Json::Int(n) => JsonV::Int(n),
        Json::Decimal(s) => JsonV::Decimal(s@),
        Json::Str(s) => JsonV::Str(s@),
        Json::Arr(v) => JsonV::Arr(
            Seq::new(
                v@.len(),
                |i: int|
                    if 0 <= i < v@.len() {
                        json_view(v@[i])
                    } else {
                        JsonV::Null
                    },
            ),
        ),
        Json::Obj(v) => JsonV::Obj(
            Seq::new(
                v@.len(),
                |i: int|
                    if 0 <= i < v@.len() {
                        (v@[i].0@, json_view(v@[i].1))
                    } else {
                        (Seq::empty(), JsonV::Null)
                    },
            ),
        ),
    }
}

impl View for Json {
    type V = JsonV;

    open spec fn view(&self) -> JsonV {
        json_view(*self)
    }
}

/// The models of the items of a list.
pub open spec fn items(v: Seq<Json>) -> Seq<JsonV> {
    v.map_values(|j: Json| j@)
}

/// The models of the fields of an object.
pub open spec fn fields(v: Seq<(String, Json)>) -> Fields {
    v.map_values(|p: (String, Json)| (p.0@, p.1@))
}

pub broadcast proof fn lemma_arr_view(v: Vec<Json>)
    ensures
        #[trigger] Json::Arr(v)@ == JsonV::Arr(items(v@)),
{
    let a = Json::Arr(v)@->Arr_0;
    assert(a =~= items(v@));
}

pub broadcast proof fn lemma_obj_view(v: Vec<(String, Json)>)
    ensures
        #[trigger] Json::Obj(v)@ == JsonV::Obj(fields(v@)),
{
    let a = Json::Obj(v)@->Obj_0;
    assert(a =~= fields(v@));
}

pub broadcast group group_json_views {
    lemma_arr_view,
    lemma_obj_view,
}

/// The value of the first field named `k`.
pub open spec fn lookup(o: Fields, k: Seq<char>) -> Option<JsonV>
    decreases o.len(),
{
    if o.len() == 0 {
        None
    } else if o[0].0 == k {
        Some(o[0].1)
    } else {
        lookup(o.drop_first(), k)
    }
}

/// The field `k` set to `v`: in place when it is there, else put before the
/// first field with a later name.
pub open spec fn put(o: Fields, k: Seq<char>, v: JsonV) -> Fields
    decreases o.len(),
{
    if o.len() == 0 {
        seq![(k, v)]
    } else if o[0].0 == k {
        seq![(k, v)] + o.drop_first()
    } else if before(k, o[0].0) {
        seq![(k, v)] + o
    } else {
        seq![o[0]] + put(o.drop_first(), k, v)
    }
}

/// No fields.
pub open spec fn no_fields() -> Fields {
    Seq::empty()
}

/// The field `k` of an object; `None` for any other value.
pub open spec fn field(j: JsonV, k: Seq<char>) -> Option<JsonV> {
    match j {
        JsonV::Obj(o) => lookup(o, k),
        _ => None,
    }
}

pub open spec fn str_of(j: JsonV) -> Option<Seq<char>> {
    match j {
        JsonV::Str(s) => Some(s),
        _ => None,
    }
}

/// The text of field `k`, when it is a string.
pub open spec fn str_field(j: JsonV, k: Seq<char>) -> Option<Seq<char>> {
    match field(j, k) {
        Some(v) => str_of(v),
        None => None,
    }
}

/// The text of field `k`; empty when it is no string.
pub open spec fn str_field_or_empty(j: JsonV, k: Seq<char>) -> Seq<char> {
    match str_field(j, k) {
        Some(s) => s,
        None => Seq::empty(),
    }
}

/// Field `k`, when it is `true` or `false`.
pub open spec fn bool_field(j: JsonV, k: Seq<char>) -> Option<bool> {
    match field(j, k) {
        Some(JsonV::Bool(b)) => Some(b),
        _ => None,
    }
}

/// A string, or null for none.
pub open spec fn opt_str(o: Option<Seq<char>>) -> JsonV {
    match o {
        Some(s) => JsonV::Str(s),
        None => JsonV::Null,
    }
}

pub open spec fn strs(v: Seq<Seq<char>>) -> JsonV {
    JsonV::Arr(v.map_values(|s: Seq<char>| JsonV::Str(s)))
}

/// Setting a field is seen by reading it, and by no other field.
pub proof fn lemma_lookup_put(o: Fields, k: Seq<char>, v: JsonV, q: Seq<char>)
    ensures
        lookup(put(o, k, v), q) == if q == k {
            Some(v)
        } else {
            lookup(o, q)
        },
    decreases o.len(),
{
    reveal_with_fuel(lookup, 2);
    let r = put(o, k, v);
    if o.len() == 0 {
        assert(r.drop_first() =~= Seq::empty());
    } else if o[0].0 == k {
        assert(r.drop_first() =~= o.drop_first());
    } else if before(k, o[0].0) {
        assert(r.drop_first() =~= o);
    } else {
        lemma_lookup_put(o.drop_first(), k, v, q);
        assert(r.drop_first() =~= put(o.drop_first(), k, v));
    }
}

/// A field that was set is found under its name, and no other field is changed
/// by it.
pub broadcast proof fn lemma_found_after_put(o: Fields, k: Seq<char>, v: JsonV, q: Seq<char>)
    ensures
        #[trigger] lookup(put(o, k, v), q) == if q == k {
            Some(v)
        } else {
            lookup(o, q)
        },
{
    lemma_lookup_put(o, k, v, q);
}

/// A copy of the fields of an object.
pub fn dup_fields(v: &Vec<(String, Json)>) -> (r: Vec<(String, Json)>)
    ensures
        fields(r@) == fields(v@),
    decreases v,
{
    let mut out: Vec<(String, Json)> = Vec::new();
    let mut i: usize = 0;
    while i < v.len()
        invariant
            i <= v@.len(),
            fields(out@) == fields(v@).take(i as int),
        decreases v@.len() - i,
    {
        let pair = (v[i].0.clone(), v[i].1.dup());
        let ghost before = fields(out@);
        out.push(pair);
        assert(fields(out@) == before.push((pair.0@, pair.1@)));
        assert(fields(v@).take(i + 1) == fields(v@).take(i as int).push(fields(v@)[i as int]));
        i += 1;
    }
    assert(fields(v@).take(i as int) == fields(v@));
    out
}

pub fn dup_items(v: &Vec<Json>) -> (r: Vec<Json>)
    ensures
        items(r@) == items(v@),
    decreases v,
{
    let mut out: Vec<Json> = Vec::new();
    let mut i: usize = 0;
    while i < v.len()
        invariant
            i <= v@.len(),
            items(out@) == items(v@).take(i as int),
        decreases v@.len() - i,
    {
        let item = v[i].dup();
        let ghost before = items(out@);
        out.push(item);
        assert(items(out@) == before.push(item@));
        assert(items(v@).take(i + 1) == items(v@).take(i as int).push(items(v@)[i as int]));
        i += 1;
    }
    assert(items(v@).take(i as int) == items(v@));
    out
}

/// Equality of two lists of fields.
pub fn same_fields(a: &Vec<(String, Json)>, b: &Vec<(String, Json)>) -> (r: bool)
    ensures
        r == (fields(a@) == fields(b@)),
    decreases a,
{
    if a.len() != b.len() {
        assert(fields(a@).len() != fields(b@).len());
        return false;
    }
    let mut i: usize = 0;
    while i < a.len()
        invariant
            i <= a@.len(),
            a@.len() == b@.len(),
            forall|j: int| 0 <= j < i ==> #[trigger] fields(a@)[j] == fields(b@)[j],
        decreases a@.len() - i,
    {
        let ghost x = fields(a@)[i as int];
        let ghost y = fields(b@)[i as int];
        if !same(&a[i].0, &b[i].0) {
            assert(x != y);
            return false;
        }
        if !a[i].1.equals(&b[i].1) {
            assert(x != y);
            return false;
        }
        i += 1;
    }
    assert(fields(a@) =~= fields(b@));
    true
}

pub fn same_items(a: &Vec<Json>, b: &Vec<Json>) -> (r: bool)
    ensures
        r == (items(a@) == items(b@)),
    decreases a,
{
    if a.len() != b.len() {
        assert(items(a@).len() != items(b@).len());
        return false;
    }
    let mut i: usize = 0;
    while i < a.len()
        invariant
            i <= a@.len(),
            a@.len() == b@.len(),
            forall|j: int| 0 <= j < i ==> #[trigger] items(a@)[j] == items(b@)[j],
        decreases a@.len() - i,
    {
        let ghost x = items(a@)[i as int];
        let ghost y = items(b@)[i as int];
        if !a[i].equals(&b[i]) {
            assert(x != y);
            return false;
        }
        i += 1;
    }
    assert(items(a@) =~= items(b@));
    true
}

/// The value of the first field named `k`.
pub fn find_field<'a>(v: &'a Vec<(String, Json)>, k: &str) -> (r: Option<&'a Json>)
    ensures
        match r {
            Some(j) => lookup(fields(v@), k@) == Some(j@),
            None => lookup(fields(v@), k@) is None,
        },
{
    let mut i: usize = 0;
    assert(fields(v@).skip(0) == fields(v@));
    while i < v.len()
        invariant
            i <= v@.len(),
            lookup(fields(v@), k@) == lookup(fields(v@).skip(i as int), k@),
        decreases v@.len() - i,
    {
        assert(fields(v@).skip(i as int)[0] == fields(v@)[i as int]);
        if same(&v[i].0, k) {
            return Some(&v[i].1);
        }
        assert(fields(v@).skip(i as int).drop_first() == fields(v@).skip(i + 1));
        i += 1;
    }
    None
}

/// Sets the field `k`.
pub fn set_field(o: &mut Vec<(String, Json)>, k: &str, v: Json)
    ensures
        fields(final(o)@) == put(fields(old(o)@), k@, v@),
{
    let ghost f = fields(o@);
    let ghost start = o@;
    let mut i: usize = 0;
    assert(f.skip(0) == f);
    assert(f.take(0) + put(f.skip(0), k@, v@) =~= put(f, k@, v@));
    while i < o.len()
        invariant
            i <= o@.len(),
            o@ == start,
            start == old(o)@,
            f == fields(start),
            put(f, k@, v@) == f.take(i as int) + put(f.skip(i as int), k@, v@),
        decreases o@.len() - i,
    {
        let ghost rest = f.skip(i as int);
        assert(rest[0] == f[i as int]);
        assert(rest.drop_first() == f.skip(i + 1));
        if same(&o[i].0, k) {
            let ghost val = v@;
            o[i] = (k.to_string(), v);
            assert(fields(o@) =~= f.take(i as int) + (seq![(k@, val)] + rest.drop_first()));
            return;
        }
        if is_before(k, &o[i].0) {
            let ghost val = v@;
            o.insert(i, (k.to_string(), v));
            assert(fields(o@) =~= f.take(i as int) + (seq![(k@, val)] + rest));
            return;
        }
        assert(f.take(i as int) + (seq![rest[0]] + put(f.skip(i + 1), k@, v@)) =~= f.take(i + 1)
            + put(f.skip(i + 1), k@, v@));
        i += 1;
    }
    let ghost val = v@;
    o.push((k.to_string(), v));
    assert(f.skip(i as int) =~= Seq::empty());
    assert(fields(o@) =~= f.take(i as int) + seq![(k@, val)]);
}

impl Json {
    /// A copy.
    pub fn dup(&self) -> (r: Json)
        ensures
            r@ == self@,
        decreases self,
    {
        broadcast use group_json_views;

        match self {
            Json::Null => Json::Null,
            Json::Bool(b) => Json::Bool(*b),
            Json::Int(n) => Json::Int(*n),
            Json::Decimal(s) => Json::Decimal(s.clone()),
            Json::Str(s) => Json::Str(s.clone()),
            Json::Arr(v) => Json::Arr(dup_items(v)),
            Json::Obj(v) => Json::Obj(dup_fields(v)),
        }
    }

    /// Equality of two values.
    pub fn equals(&self, other: &Json) -> (r: bool)
        ensures
            r == (self@ == other@),
        decreases self,
    {
        broadcast use group_json_views;

        match (self, other) {
            (Json::Null, Json::Null) => true,
            (Json::Bool(a), Json::Bool(b)) => *a == *b,
            (Json::Int(a), Json::Int(b)) => *a == *b,
            (Json::Decimal(a), Json::Decimal(b)) => same(a, b),
            (Json::Str(a), Json::Str(b)) => same(a, b),
            (Json::Arr(a), Json::Arr(b)) => same_items(a, b),
            (Json::Obj(a), Json::Obj(b)) => same_fields(a, b),
            _ => false,
        }
    }

    /// The field `k` of an object.
    pub fn get(&self, k: &str) -> (r: Option<&Json>)
        ensures
            match r {
                Some(j) => field(self@, k@) == Some(j@),
                None => field(self@, k@) is None,
            },
    {
        broadcast use group_json_views;

        match self {
            Json::Obj(v) => find_field(v, k),
            _ => None,
        }
    }

    pub fn as_str(&self) -> (r: Option<&String>)
        ensures
            match r {
                Some(s) => str_of(self@) == Some(s@),
                None => str_of(self@) is None,
            },
    {
        match self {
            Json::Str(s) => Some(s),
            _ => None,
        }
    }

    /// The text of field `k`, when it is a string.
    pub fn get_str(&self, k: &str) -> (r: Option<String>)
        ensures
            opt_text(r) == str_field(self@, k@),
    {
        match self.get(k) {
            Some(j) => match j.as_str() {
                Some(s) => Some(s.clone()),
                None => None,
            },
            None => None,
        }
    }

    /// The text of field `k`; empty when it is no string.
    pub fn get_str_or_empty(&self, k: &str) -> (r: String)
        ensures
            r@ == str_field_or_empty(self@, k@),
    {
        match self.get_str(k) {
            Some(s) => s,
            None => String::new(),
        }
    }

    /// Field `k`, when it is `true` or `false`.
    pub fn get_bool(&self, k: &str) -> (r: Option<bool>)
        ensures
            r == bool_field(self@, k@),
    {
        broadcast use group_json_views;

        match self.get(k) {
            Some(Json::Bool(b)) => Some(*b),
            _ => None,
        }
    }

    pub fn is_object(&self) -> (r: bool)
        ensures
            r == (self@ is Obj),
    {
        broadcast use group_json_views;

        match self {
            Json::Obj(_) => true,
            _ => false,
        }
    }

    /// A string, or null for none.
    pub fn from_opt(o: &Option<String>) -> (r: Json)
        ensures
            r@ == opt_str(opt_text(*o)),
    {
        match o {
            Some(s) => Json::Str(s.clone()),
            None => Json::Null,
        }
    }

    pub fn text(s: &str) -> (r: Json)
        ensures
            r@ == JsonV::Str(s@),
    {
        Json::Str(s.to_string())
    }

    /// A list of strings.
    pub fn from_texts(v: &Vec<String>) -> (r: Json)
        ensures
            r@ == strs(texts(v@)),
    {
        broadcast use group_json_views;

        let mut out: Vec<Json> = Vec::new();
        let ghost all = texts(v@).map_values(|s: Seq<char>| JsonV::Str(s));
        let mut i: usize = 0;
        while i < v.len()
            invariant
                i <= v@.len(),
                all == texts(v@).map_values(|s: Seq<char>| JsonV::Str(s)),
                items(out@) == all.take(i as int),
            decreases v@.len() - i,
        {
            let ghost before = items(out@);
            let j = Json::Str(v[i].clone());
            out.push(j);
            assert(items(out@) == before.push(j@));
            assert(all[i as int] == j@);
            assert(all.take(i + 1) == all.take(i as int).push(all[i as int]));
            i += 1;
        }
        assert(all.take(i as int) == all);
        Json::Arr(out)
    }
}

} // verus!
