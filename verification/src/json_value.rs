//! An untyped JSON value, the document that schemas are written in.

use vstd::prelude::*;

use crate::text::str_eq;

verus! {

/// The mathematical value of a JSON document. Object members form a map,
/// so neither their order nor a repeated key has meaning.
pub enum JsonModel {
    Null,
    Bool(bool),
    /// A number, held as its JSON text.
    Number(Seq<char>),
    Str(Seq<char>),
    Array(Seq<JsonModel>),
    Object(Map<Seq<char>, JsonModel>),
}

/// A JSON value. Numbers keep their JSON text, so that every number that a
/// JSON document may hold is represented without rounding.
#[derive(Debug)]
pub enum JsonValue {
    Null,
    Bool(bool),
    Number(String),
    String(String),
    Array(Vec<JsonValue>),
    Object(JsonObject),
}

/// The members of a JSON object, each key at most once. Their order has no
/// meaning: the object denotes a map.
#[derive(Debug)]
pub struct JsonObject {
    entries: Vec<(String, JsonValue)>,
}

/// The model of a sequence of values, element by element.
pub open spec fn models(items: Seq<JsonValue>) -> Seq<JsonModel>
    decreases items,
{
    if items.len() == 0 {
        Seq::empty()
    } else {
        models(items.drop_last()).push(items.last().model())
    }
}

/// The map that a sequence of members denotes: a later member of a key
/// replaces an earlier one.
pub open spec fn entries_model(entries: Seq<(String, JsonValue)>) -> Map<Seq<char>, JsonModel>
    decreases entries,
{
    if entries.len() == 0 {
        Map::empty()
    } else {
        entries_model(entries.drop_last()).insert(entries.last().0@, entries.last().1.model())
    }
}

impl JsonValue {
    pub open spec fn model(self) -> JsonModel
        decreases self,
    {
        match self {
            JsonValue::Null => JsonModel::Null,
            JsonValue::Bool(b) => JsonModel::Bool(b),
            JsonValue::Number(n) => JsonModel::Number(n@),
            JsonValue::String(s) => JsonModel::Str(s@),
            JsonValue::Array(items) => JsonModel::Array(models(items@)),
            JsonValue::Object(o) => JsonModel::Object(entries_model(o.entries_spec())),
        }
    }
}

/// No key occurs twice among `entries`.
pub open spec fn keys_unique(entries: Seq<(String, JsonValue)>) -> bool {
    forall|i: int, j: int|
        0 <= i < entries.len() && 0 <= j < entries.len() && i != j ==> entries[i].0@
            != entries[j].0@
}

proof fn lemma_entries_model_keys(entries: Seq<(String, JsonValue)>, k: Seq<char>)
    ensures
        entries_model(entries).contains_key(k) <==> exists|i: int|
            0 <= i < entries.len() && #[trigger] entries[i].0@ == k,
    decreases entries.len(),
{
    if entries.len() > 0 {
        let init = entries.drop_last();
        lemma_entries_model_keys(init, k);
        if entries_model(entries).contains_key(k) && k != entries.last().0@ {
            let i = choose|i: int| 0 <= i < init.len() && #[trigger] init[i].0@ == k;
            assert(entries[i].0@ == k);
        }
        if exists|i: int| 0 <= i < entries.len() && #[trigger] entries[i].0@ == k {
            let i = choose|i: int| 0 <= i < entries.len() && #[trigger] entries[i].0@ == k;
            if i < entries.len() - 1 {
                assert(init[i].0@ == k);
            }
        }
    }
}

proof fn lemma_entries_model_at(entries: Seq<(String, JsonValue)>, i: int)
    requires
        keys_unique(entries),
        0 <= i < entries.len(),
    ensures
        entries_model(entries).contains_key(entries[i].0@),
        entries_model(entries)[entries[i].0@] == entries[i].1.model(),
    decreases entries.len(),
{
    lemma_entries_model_keys(entries, entries[i].0@);
    let init = entries.drop_last();
    if i < entries.len() - 1 {
        lemma_entries_model_at(init, i);
        assert(entries[i].0@ != entries[entries.len() - 1].0@);
    }
}

proof fn lemma_entries_model_update(entries: Seq<(String, JsonValue)>, i: int, e: (String, JsonValue))
    requires
        keys_unique(entries),
        0 <= i < entries.len(),
        entries[i].0@ == e.0@,
    ensures
        entries_model(entries.update(i, e)) == entries_model(entries).insert(e.0@, e.1.model()),
        keys_unique(entries.update(i, e)),
    decreases entries.len(),
{
    let n = entries.len();
    let upd = entries.update(i, e);
    if i == n - 1 {
        assert(upd.drop_last() =~= entries.drop_last());
    } else {
        lemma_entries_model_update(entries.drop_last(), i, e);
        assert(upd.drop_last() =~= entries.drop_last().update(i, e));
        assert(entries[n - 1].0@ != e.0@);
    }
    assert(entries_model(upd) =~= entries_model(entries).insert(e.0@, e.1.model()));
}

proof fn lemma_entries_model_remove(entries: Seq<(String, JsonValue)>, i: int)
    requires
        keys_unique(entries),
        0 <= i < entries.len(),
    ensures
        entries_model(entries.remove(i)) == entries_model(entries).remove(entries[i].0@),
        keys_unique(entries.remove(i)),
    decreases entries.len(),
{
    let n = entries.len();
    let k = entries[i].0@;
    let rem = entries.remove(i);
    if i == n - 1 {
        assert(rem =~= entries.drop_last());
        lemma_entries_model_keys(entries.drop_last(), k);
        if entries_model(entries.drop_last()).contains_key(k) {
            let j = choose|j: int| 0 <= j < n - 1 && #[trigger] entries.drop_last()[j].0@ == k;
            assert(entries[j].0@ == k);
        }
    } else {
        lemma_entries_model_remove(entries.drop_last(), i);
        assert(rem.drop_last() =~= entries.drop_last().remove(i));
        assert(rem.last() == entries.last());
        assert(entries[n - 1].0@ != k);
    }
    assert(entries_model(rem) =~= entries_model(entries).remove(k));
}

impl JsonObject {
    #[verifier::type_invariant]
    spec fn inv(self) -> bool {
        keys_unique(self.entries@)
    }

    /// The members, in storage order.
    pub closed spec fn entries_spec(self) -> Seq<(String, JsonValue)> {
        self.entries@
    }

    pub open spec fn view(self) -> Map<Seq<char>, JsonModel> {
        entries_model(self.entries_spec())
    }

    /// An object with no members.
    pub fn new() -> (r: JsonObject)
        ensures
            r@ == Map::<Seq<char>, JsonModel>::empty(),
    {
        JsonObject { entries: Vec::new() }
    }

    /// The position of `key` among the members.
    fn find(&self, key: &str) -> (r: Option<usize>)
        ensures
            match r {
                Some(i) => i < self.entries@.len() && self.entries@[i as int].0@ == key@,
                None => !self@.contains_key(key@),
            },
    {
        let mut i: usize = 0;
        while i < self.entries.len()
            invariant
                i <= self.entries@.len(),
                forall|j: int| 0 <= j < i ==> self.entries@[j].0@ != key@,
            decreases self.entries@.len() - i,
        {
            if str_eq(self.entries[i].0.as_str(), key) {
                return Some(i);
            }
            i += 1;
        }
        proof {
            lemma_entries_model_keys(self.entries@, key@);
        }
        None
    }

    /// The value of `key`, if the object has that member.
    pub fn get(&self, key: &str) -> (r: Option<&JsonValue>)
        ensures
            match r {
                Some(v) => self@.contains_key(key@) && self@[key@] == v.model(),
                None => !self@.contains_key(key@),
            },
    {
        proof {
            use_type_invariant(self);
        }
        match self.find(key) {
            Some(i) => {
                proof {
                    lemma_entries_model_at(self.entries@, i as int);
                }
                Some(&self.entries[i].1)
            },
            None => None,
        }
    }

    /// Sets the member `key` to `value`; a member of that key keeps its place.
    pub fn insert(&mut self, key: String, value: JsonValue)
        ensures
            final(self)@ == old(self)@.insert(key@, value.model()),
    {
        proof {
            use_type_invariant(&*self);
        }
        let ghost k = key@;
        let found = self.find(key.as_str());
        let mut entries = Vec::new();
        std::mem::swap(&mut entries, &mut self.entries);
        match found {
            Some(i) => {
                proof {
                    lemma_entries_model_update(entries@, i as int, (key, value));
                }
                entries.set(i, (key, value));
            },
            None => {
                proof {
                    lemma_entries_model_keys(entries@, k);
                    assert(entries@.push((key, value)).drop_last() =~= entries@);
                }
                entries.push((key, value));
            },
        }
        self.entries = entries;
    }

    /// Takes out the member `key`, if there is one.
    pub fn remove(&mut self, key: &str) -> (r: Option<JsonValue>)
        ensures
            final(self)@ == old(self)@.remove(key@),
            match r {
                Some(v) => old(self)@.contains_key(key@) && old(self)@[key@] == v.model(),
                None => !old(self)@.contains_key(key@),
            },
    {
        proof {
            use_type_invariant(&*self);
        }
        match self.find(key) {
            Some(i) => {
                let mut entries = Vec::new();
                std::mem::swap(&mut entries, &mut self.entries);
                proof {
                    lemma_entries_model_at(entries@, i as int);
                    lemma_entries_model_remove(entries@, i as int);
                }
                let (_, v) = entries.remove(i);
                self.entries = entries;
                Some(v)
            },
            None => {
                assert(old(self)@.remove(key@) =~= old(self)@);
                None
            },
        }
    }

    /// The members, in storage order.
    pub fn entries(&self) -> (r: &Vec<(String, JsonValue)>)
        ensures
            r@ == self.entries_spec(),
            keys_unique(r@),
    {
        proof {
            use_type_invariant(self);
        }
        &self.entries
    }

    fn into_entries(self) -> (r: Vec<(String, JsonValue)>)
        ensures
            r@ == self.entries_spec(),
            keys_unique(r@),
    {
        proof {
            use_type_invariant(&self);
        }
        self.entries
    }

    /// Sets every member of `other` in this object, replacing members of the same key.
    pub fn extend(&mut self, other: JsonObject)
        ensures
            final(self)@ == old(self)@.union_prefer_right(other@),
    {
        let ghost target = old(self)@.union_prefer_right(other@);
        let mut rest = other.into_entries();
        while rest.len() > 0
            invariant
                keys_unique(rest@),
                self@.union_prefer_right(entries_model(rest@)) == target,
            decreases rest@.len(),
        {
            let ghost before = rest@;
            let (k, v) = rest.pop().unwrap();
            proof {
                assert(rest@ =~= before.drop_last());
                assert(keys_unique(rest@));
                lemma_entries_model_keys(rest@, k@);
                if entries_model(rest@).contains_key(k@) {
                    let j = choose|j: int| 0 <= j < rest@.len() && #[trigger] rest@[j].0@ == k@;
                    assert(before[j].0@ == k@);
                }
                assert(self@.insert(k@, v.model()).union_prefer_right(entries_model(rest@))
                    =~= self@.union_prefer_right(entries_model(before)));
            }
            self.insert(k, v);
        }
        assert(self@.union_prefer_right(entries_model(rest@)) =~= self@);
    }
}

} // verus!

verus! {

proof fn lemma_entries_model_dom(entries: Seq<(String, JsonValue)>)
    requires
        keys_unique(entries),
    ensures
        entries_model(entries).dom().finite(),
        entries_model(entries).dom().len() == entries.len(),
    decreases entries.len(),
{
    if entries.len() > 0 {
        let init = entries.drop_last();
        lemma_entries_model_dom(init);
        lemma_entries_model_keys(init, entries.last().0@);
        if entries_model(init).contains_key(entries.last().0@) {
            let j = choose|j: int| 0 <= j < init.len() && #[trigger] init[j].0@ == entries.last().0@;
            assert(entries[j].0@ == entries[entries.len() - 1].0@);
        }
    }
}

proof fn lemma_entries_model_same(a: Seq<(String, JsonValue)>, b: Seq<(String, JsonValue)>)
    requires
        a.len() == b.len(),
        forall|i: int| 0 <= i < a.len() ==> #[trigger] a[i].0@ == b[i].0@ && a[i].1.model() == b[i].1.model(),
    ensures
        entries_model(a) == entries_model(b),
    decreases a.len(),
{
    if a.len() > 0 {
        lemma_entries_model_same(a.drop_last(), b.drop_last());
        assert(a[a.len() - 1].0@ == b[b.len() - 1].0@);
    }
}

impl JsonValue {
    /// A copy of the value.
    #[verifier::loop_isolation(false)]
    pub fn deep_clone(&self) -> (r: JsonValue)
        ensures
            r.model() == self.model(),
        decreases self,
    {
        match self {
            JsonValue::Null => JsonValue::Null,
            JsonValue::Bool(b) => JsonValue::Bool(*b),
            JsonValue::Number(n) => JsonValue::Number(n.clone()),
            JsonValue::String(s) => JsonValue::String(s.clone()),
            JsonValue::Array(items) => {
                let mut copy: Vec<JsonValue> = Vec::new();
                let mut i: usize = 0;
                while i < items.len()
                    invariant
                        i <= items@.len(),
                        models(copy@) == models(items@.take(i as int)),
                    decreases items@.len() - i,
                {
                    assert(decreases_to!(self => *items));
                    assert(decreases_to!(*items => items@));
                    assert(decreases_to!(items@ => items@[i as int]));
                    let item = items[i].deep_clone();
                    assert(items@.take(i + 1).drop_last() =~= items@.take(i as int));
                    assert(copy@.push(item).drop_last() =~= copy@);
                    copy.push(item);
                    i += 1;
                }
                assert(items@.take(items@.len() as int) =~= items@);
                JsonValue::Array(copy)
            },
            JsonValue::Object(o) => {
                assert(decreases_to!(self => *o));
                JsonValue::Object(o.deep_clone())
            },
        }
    }
}

impl JsonObject {
    /// A copy of the object.
    pub fn deep_clone(&self) -> (r: JsonObject)
        ensures
            r@ == self@,
        decreases self,
    {
        proof {
            use_type_invariant(self);
        }
        let mut copy: Vec<(String, JsonValue)> = Vec::new();
        let mut i: usize = 0;
        while i < self.entries.len()
            invariant
                keys_unique(self.entries@),
                i <= self.entries@.len(),
                copy@.len() == i,
                forall|j: int|
                    0 <= j < i ==> #[trigger] copy@[j].0@ == self.entries@[j].0@ && copy@[j].1.model()
                        == self.entries@[j].1.model(),
            decreases self.entries@.len() - i,
        {
            assert(decreases_to!(self => self.entries@[i as int].1));
            let value = self.entries[i].1.deep_clone();
            copy.push((self.entries[i].0.clone(), value));
            i += 1;
        }
        proof {
            lemma_entries_model_same(copy@, self.entries@);
        }
        JsonObject { entries: copy }
    }
}

impl PartialEq for JsonValue {
    fn eq(&self, other: &JsonValue) -> (r: bool) {
        self.json_eq(other)
    }
}

impl vstd::std_specs::cmp::PartialEqSpecImpl for JsonValue {
    open spec fn obeys_eq_spec() -> bool {
        true
    }

    open spec fn eq_spec(&self, other: &JsonValue) -> bool {
        json_equiv(*self, *other)
    }
}

impl Clone for JsonValue {
    fn clone(&self) -> (r: JsonValue)
        ensures
            r.model() == self.model(),
    {
        self.deep_clone()
    }
}

} // verus!

verus! {

/// Whether two JSON number texts denote equal numbers, as `serde_json`
/// parses and compares them.
pub uninterp spec fn same_json_number(a: Seq<char>, b: Seq<char>) -> bool;

/// Compares two number texts as `serde_json::Number`s: its `FromStr` parses
/// each (integers exactly, other numbers as finite `f64`s) and its `PartialEq`
/// compares the results, so that `0.0` equals `-0.0` and `1` does not equal
/// `1.0`. A text that does not parse as a number equals no number. What the
/// parse gives is not stated here.
#[verifier::external_body]
fn numbers_equal(a: &str, b: &str) -> (r: bool)
    ensures
        r == same_json_number(a@, b@),
{
    match (a.parse::<serde_json::Number>(), b.parse::<serde_json::Number>()) {
        (Ok(x), Ok(y)) => x == y,
        _ => false,
    }
}

/// The value of the member `key` among `entries`; a later member of a key wins.
pub open spec fn entry_value(entries: Seq<(String, JsonValue)>, key: Seq<char>) -> Option<JsonValue>
    decreases entries.len(),
{
    if entries.len() == 0 {
        None
    } else if entries.last().0@ == key {
        Some(entries.last().1)
    } else {
        entry_value(entries.drop_last(), key)
    }
}

/// Whether two values are equal as JSON values: numbers by the number they
/// denote, arrays item by item, objects as maps from keys to values.
pub open spec fn json_equiv(a: JsonValue, b: JsonValue) -> bool
    decreases a,
{
    match a {
        JsonValue::Null => b is Null,
        JsonValue::Bool(x) => match b {
            JsonValue::Bool(y) => x == y,
            _ => false,
        },
        JsonValue::Number(x) => match b {
            JsonValue::Number(y) => same_json_number(x@, y@),
            _ => false,
        },
        JsonValue::String(x) => match b {
            JsonValue::String(y) => x@ == y@,
            _ => false,
        },
        JsonValue::Array(xs) => match b {
            JsonValue::Array(ys) => xs@.len() == ys@.len() && forall|i: int|
                0 <= i < xs@.len() ==> json_equiv(#[trigger] xs@[i], ys@[i]),
            _ => false,
        },
        JsonValue::Object(xo) => match b {
            JsonValue::Object(yo) => xo@.dom() == yo@.dom() && forall|i: int|
                0 <= i < xo.entries_spec().len() ==> json_equiv(
                    #[trigger] xo.entries_spec()[i].1,
                    entry_value(yo.entries_spec(), xo.entries_spec()[i].0@).unwrap(),
                ),
            _ => false,
        },
    }
}

proof fn lemma_entry_value_at(entries: Seq<(String, JsonValue)>, i: int)
    requires
        keys_unique(entries),
        0 <= i < entries.len(),
    ensures
        entry_value(entries, entries[i].0@) == Some(entries[i].1),
    decreases entries.len(),
{
    if i < entries.len() - 1 {
        assert(entries[entries.len() - 1].0@ != entries[i].0@);
        lemma_entry_value_at(entries.drop_last(), i);
    }
}

impl JsonValue {
    /// Whether two values are equal as JSON values: numbers by the number
    /// they denote, arrays item by item, objects as maps.
    #[verifier::loop_isolation(false)]
    pub fn json_eq(&self, other: &JsonValue) -> (r: bool)
        ensures
            r == json_equiv(*self, *other),
        decreases self,
    {
        match self {
            JsonValue::Null => match other {
                JsonValue::Null => true,
                _ => false,
            },
            JsonValue::Bool(a) => match other {
                JsonValue::Bool(b) => *a == *b,
                _ => false,
            },
            JsonValue::Number(a) => match other {
                JsonValue::Number(b) => numbers_equal(a.as_str(), b.as_str()),
                _ => false,
            },
            JsonValue::String(a) => match other {
                JsonValue::String(b) => crate::text::str_eq(a.as_str(), b.as_str()),
                _ => false,
            },
            JsonValue::Array(a) => match other {
                JsonValue::Array(b) => {
                    if a.len() != b.len() {
                        return false;
                    }
                    let mut i: usize = 0;
                    while i < a.len()
                        invariant
                            a@.len() == b@.len(),
                            i <= a@.len(),
                            forall|j: int| 0 <= j < i ==> json_equiv(#[trigger] a@[j], b@[j]),
                        decreases a@.len() - i,
                    {
                        assert(decreases_to!(self => *a));
                        assert(decreases_to!(*a => a@));
                        assert(decreases_to!(a@ => a@[i as int]));
                        if !a[i].json_eq(&b[i]) {
                            return false;
                        }
                        i += 1;
                    }
                    true
                },
                _ => false,
            },
            JsonValue::Object(a) => match other {
                JsonValue::Object(b) => {
                    assert(decreases_to!(self => *a));
                    a.object_eq(b)
                },
                _ => false,
            },
        }
    }
}

impl JsonObject {
    /// Whether two objects have the same keys, each with equal values.
    pub fn object_eq(&self, other: &JsonObject) -> (r: bool)
        ensures
            r == (self@.dom() == other@.dom() && forall|i: int|
                0 <= i < self.entries_spec().len() ==> json_equiv(
                    #[trigger] self.entries_spec()[i].1,
                    entry_value(other.entries_spec(), self.entries_spec()[i].0@).unwrap(),
                )),
        decreases self,
    {
        proof {
            use_type_invariant(self);
            use_type_invariant(other);
            lemma_entries_model_dom(self.entries@);
            lemma_entries_model_dom(other.entries@);
        }
        if self.entries.len() != other.entries.len() {
            return false;
        }
        let mut i: usize = 0;
        while i < self.entries.len()
            invariant
                keys_unique(self.entries@),
                keys_unique(other.entries@),
                self.entries@.len() == other.entries@.len(),
                i <= self.entries@.len(),
                forall|j: int|
                    0 <= j < i ==> other@.contains_key(#[trigger] self.entries@[j].0@),
                forall|j: int|
                    0 <= j < i ==> json_equiv(
                        #[trigger] self.entries@[j].1,
                        entry_value(other.entries@, self.entries@[j].0@).unwrap(),
                    ),
            decreases self.entries@.len() - i,
        {
            let ghost k = self.entries@[i as int].0@;
            match other.find(self.entries[i].0.as_str()) {
                None => {
                    proof {
                        lemma_entries_model_at(self.entries@, i as int);
                    }
                    assert(self@.dom().contains(k));
                    return false;
                },
                Some(j) => {
                    proof {
                        lemma_entries_model_at(other.entries@, j as int);
                        lemma_entry_value_at(other.entries@, j as int);
                    }
                    assert(decreases_to!(self => self.entries@[i as int].1));
                    if !self.entries[i].1.json_eq(&other.entries[j].1) {
                        return false;
                    }
                },
            }
            i += 1;
        }
        proof {
            assert forall|k: Seq<char>| #[trigger] self@.dom().contains(k) implies other@.dom().contains(
                k,
            ) by {
                lemma_entries_model_keys(self.entries@, k);
                let j = choose|j: int| 0 <= j < self.entries@.len() && #[trigger] self.entries@[j].0@ == k;
                assert(other@.contains_key(self.entries@[j].0@));
            }
            assert(self@.dom().subset_of(other@.dom()));
            vstd::set_lib::lemma_subset_equality(self@.dom(), other@.dom());
        }
        true
    }
}

} // verus!

verus! {

/// Whether a value holds no number anywhere in it.
pub open spec fn has_no_numbers(v: JsonValue) -> bool
    decreases v,
{
    match v {
        JsonValue::Number(_) => false,
        JsonValue::Array(xs) => forall|i: int|
            0 <= i < xs@.len() ==> has_no_numbers(#[trigger] xs@[i]),
        JsonValue::Object(o) => forall|i: int|
            0 <= i < o.entries_spec().len() ==> has_no_numbers(#[trigger] o.entries_spec()[i].1),
        _ => true,
    }
}

proof fn lemma_models_index(items: Seq<JsonValue>)
    ensures
        models(items).len() == items.len(),
        forall|i: int| 0 <= i < items.len() ==> #[trigger] models(items)[i] == items[i].model(),
    decreases items.len(),
{
    if items.len() > 0 {
        lemma_models_index(items.drop_last());
    }
}

proof fn lemma_entry_value_model(entries: Seq<(String, JsonValue)>, k: Seq<char>)
    ensures
        entries_model(entries).contains_key(k) <==> entry_value(entries, k) is Some,
        entries_model(entries).contains_key(k) ==> entries_model(entries)[k] == entry_value(
            entries,
            k,
        ).unwrap().model(),
        entry_value(entries, k) matches Some(v) ==> exists|i: int|
            0 <= i < entries.len() && #[trigger] entries[i].0@ == k && entries[i].1 == v,
    decreases entries.len(),
{
    if entries.len() > 0 {
        lemma_entry_value_model(entries.drop_last(), k);
        let n = entries.len() - 1;
        if entries.last().0@ != k {
            if let Some(v) = entry_value(entries, k) {
                let i = choose|i: int|
                    0 <= i < entries.drop_last().len() && #[trigger] entries.drop_last()[i].0@ == k
                        && entries.drop_last()[i].1 == v;
                assert(entries[i].0@ == k);
            }
        } else {
            assert(entries[n].0@ == k);
        }
    }
}

/// JSON values that are equal, and hold no number, denote the same JSON
/// document: equality never identifies different booleans, strings, arrays
/// or objects.
pub proof fn law_equal_values_have_equal_models(a: JsonValue, b: JsonValue)
    requires
        has_no_numbers(a),
        json_equiv(a, b),
    ensures
        a.model() == b.model(),
    decreases a,
{
    match a {
        JsonValue::Array(xs) => {
            let ys = b->Array_0;
            lemma_models_index(xs@);
            lemma_models_index(ys@);
            assert forall|i: int| 0 <= i < xs@.len() implies #[trigger] models(xs@)[i] == models(ys@)[i] by {
                assert(decreases_to!(a => xs));
                assert(decreases_to!(xs => xs@));
                assert(decreases_to!(xs@ => xs@[i]));
                law_equal_values_have_equal_models(xs@[i], ys@[i]);
            }
            assert(models(xs@) =~= models(ys@));
        },
        JsonValue::Object(xo) => {
            let yo = b->Object_0;
            let xe = xo.entries_spec();
            let ye = yo.entries_spec();
            assert forall|k: Seq<char>| #[trigger] xo@.contains_key(k) implies xo@[k] == yo@[k] by {
                lemma_entry_value_model(xe, k);
                lemma_entry_value_model(ye, k);
                let v = entry_value(xe, k).unwrap();
                let i = choose|i: int| 0 <= i < xe.len() && #[trigger] xe[i].0@ == k && xe[i].1 == v;
                assert(json_equiv(xe[i].1, entry_value(ye, xe[i].0@).unwrap()));
                assert(has_no_numbers(xe[i].1));
                assert(decreases_to!(a => xo));
                assert(decreases_to!(xo => xe[i].1));
                law_equal_values_have_equal_models(xe[i].1, entry_value(ye, k).unwrap());
            }
            assert(xo@ =~= yo@);
        },
        _ => {},
    }
}

/// Null, booleans and strings are equal exactly when they are the same
/// value; a value of one kind is never equal to one of another kind.
pub proof fn law_scalars_equal_by_value(a: JsonValue, b: JsonValue)
    requires
        a is Null || a is Bool || a is String,
    ensures
        json_equiv(a, b) <==> a.model() == b.model(),
{
}

} // verus!
