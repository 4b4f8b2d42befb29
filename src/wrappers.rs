use vstd::prelude::*;

use crate::error::Error;
use crate::error::ErrorKind;
use crate::schema::load;
use crate::schema::Schema;
use crate::value::Value;

verus! {

/// The names held by a list of child names.
pub open spec fn name_set(names: Seq<String>) -> Set<Seq<char>> {
    names.map_values(|s: String| s@).to_set()
}

proof fn lemma_name_set(names: Seq<String>, t: Seq<char>)
    ensures
        name_set(names).contains(t) <==> exists|i: int| 0 <= i < names.len() && #[trigger] names[i]@ == t,
{
    let m = names.map_values(|s: String| s@);
    if name_set(names).contains(t) {
        let i = choose|i: int| 0 <= i < m.len() && #[trigger] m[i] == t;
        assert(names[i]@ == t);
    }
    if exists|i: int| 0 <= i < names.len() && #[trigger] names[i]@ == t {
        let i = choose|i: int| 0 <= i < names.len() && #[trigger] names[i]@ == t;
        assert(m[i] == t);
    }
}


/// `a` comes strictly before `b` in the order of their characters' code
/// points, a proper prefix first.
pub open spec fn lex_lt(a: Seq<char>, b: Seq<char>) -> bool
    decreases a.len(),
{
    if b.len() == 0 {
        false
    } else if a.len() == 0 {
        true
    } else if a[0] != b[0] {
        a[0] < b[0]
    } else {
        lex_lt(a.drop_first(), b.drop_first())
    }
}

proof fn lemma_lex_total(a: Seq<char>, b: Seq<char>)
    ensures
        a == b || lex_lt(a, b) || lex_lt(b, a),
    decreases a.len(),
{
    if a.len() > 0 && b.len() > 0 && a[0] == b[0] {
        lemma_lex_total(a.drop_first(), b.drop_first());
        if a.drop_first() == b.drop_first() {
            assert(a =~= seq![a[0]] + a.drop_first());
            assert(b =~= seq![b[0]] + b.drop_first());
        }
    } else if a.len() == 0 && b.len() == 0 {
        assert(a =~= b);
    }
}

proof fn lemma_lex_trans(a: Seq<char>, b: Seq<char>, c: Seq<char>)
    requires
        lex_lt(a, b),
        lex_lt(b, c),
    ensures
        lex_lt(a, c),
    decreases a.len(),
{
    if a.len() > 0 && a[0] == b[0] && b[0] == c[0] {
        lemma_lex_trans(a.drop_first(), b.drop_first(), c.drop_first());
    }
}

proof fn lemma_lex_irreflexive(a: Seq<char>)
    ensures
        !lex_lt(a, a),
    decreases a.len(),
{
    if a.len() > 0 {
        lemma_lex_irreflexive(a.drop_first());
    }
}

/// Whether `a` comes strictly before `b` (see `lex_lt`).
pub fn str_lt(a: &str, b: &str) -> (r: bool)
    ensures
        r == lex_lt(a@, b@),
{
    let n = a.unicode_len();
    let m = b.unicode_len();
    let mut i: usize = 0;
    assert(a@.skip(0) =~= a@);
    assert(b@.skip(0) =~= b@);
    while i < n && i < m
        invariant
            n == a@.len(),
            m == b@.len(),
            i <= n,
            i <= m,
            lex_lt(a@, b@) == lex_lt(a@.skip(i as int), b@.skip(i as int)),
        decreases n - i,
    {
        let x = a.get_char(i);
        let y = b.get_char(i);
        if x != y {
            return x < y;
        }
        assert(a@.skip(i as int).drop_first() =~= a@.skip(i + 1));
        assert(b@.skip(i as int).drop_first() =~= b@.skip(i + 1));
        i = i + 1;
    }
    i < m
}

/// The names are in strictly increasing order.
pub open spec fn names_sorted(names: Seq<String>) -> bool {
    forall|i: int| 0 <= i < names.len() - 1 ==> lex_lt(#[trigger] names[i]@, names[i + 1]@)
}


proof fn lemma_name_set_take(names: Seq<String>, k: int)
    requires
        0 <= k < names.len(),
    ensures
        name_set(names.take(k + 1)) == name_set(names.take(k)).insert(names[k]@),
{
    let a = names.take(k + 1);
    let b = names.take(k);
    assert forall|t: Seq<char>| #[trigger] name_set(a).contains(t) == name_set(b).insert(
        names[k]@,
    ).contains(t) by {
        lemma_name_set(a, t);
        lemma_name_set(b, t);
        if name_set(b).contains(t) {
            let i = choose|i: int| 0 <= i < b.len() && #[trigger] b[i]@ == t;
            assert(a[i] == b[i]);
        }
        if name_set(a).contains(t) && t != names[k]@ {
            let i = choose|i: int| 0 <= i < a.len() && #[trigger] a[i]@ == t;
            assert(i != k);
            assert(a[i] == b[i]);
        }
        if t == names[k]@ {
            assert(a[k] == names[k]);
        }
    }
    assert(name_set(a) =~= name_set(b).insert(names[k]@));
}

proof fn lemma_name_array_set(items: Seq<Value>, names: Seq<String>)
    requires
        items.len() == names.len(),
        forall|j: int|
            0 <= j < names.len() ==> (match #[trigger] items[j] {
                Value::String(s) => s@ == names[j]@,
                _ => false,
            }),
    ensures
        string_set(items) == name_set(names),
        all_strings(items),
{
    assert forall|t: Seq<char>| #[trigger] string_set(items).contains(t) == name_set(names).contains(
        t,
    ) by {
        lemma_name_set(names, t);
        if string_set(items).contains(t) {
            let i = choose|i: int| 0 <= i < items.len() && (match #[trigger] items[i] {
                Value::String(s) => s@ == t,
                _ => false,
            });
            assert(names[i]@ == t);
        }
        if name_set(names).contains(t) {
            let i = choose|i: int| 0 <= i < names.len() && #[trigger] names[i]@ == t;
            assert(match items[i] {
                Value::String(s) => s@ == t,
                _ => false,
            });
        }
    }
    assert(string_set(items) =~= name_set(names));
    assert forall|i: int| 0 <= i < items.len() implies (#[trigger] items[i]) is String by {
        assert(match items[i] {
            Value::String(s) => s@ == names[i]@,
            _ => false,
        });
    }
}

/// No name occurs twice.
pub open spec fn names_unique(names: Seq<String>) -> bool {
    forall|i: int, j: int| 0 <= i < j < names.len() ==> names[i]@ != names[j]@
}

/// `v` is an array of strings whose texts are `names`, in order.
pub open spec fn is_name_array(v: Value, names: Seq<String>) -> bool {
    match v {
        Value::Array(items) => items@.len() == names.len() && forall|i: int|
            0 <= i < names.len() ==> (match #[trigger] items@[i] {
                Value::String(s) => s@ == names[i]@,
                _ => false,
            }),
        _ => false,
    }
}

/// `v` is an array whose items are all strings.
pub open spec fn all_strings(items: Seq<Value>) -> bool {
    forall|i: int| 0 <= i < items.len() ==> (#[trigger] items[i]) is String
}

/// The set of texts of an array of strings.
pub open spec fn string_set(items: Seq<Value>) -> Set<Seq<char>> {
    Set::new(|t: Seq<char>| exists|i: int| 0 <= i < items.len() && (match #[trigger] items[i] {
        Value::String(s) => s@ == t,
        _ => false,
    }))
}

/// The shape `[children, version, payload]` that a stored record must have.
pub open spec fn is_record_shape(v: Value) -> bool {
    match v {
        Value::Array(a) => a@.len() == 3 && (match a@[0] {
            Value::Array(cs) => all_strings(cs@),
            _ => false,
        }) && (match a@[1] {
            Value::Integer(n) => 0 <= n <= u64::MAX,
            _ => false,
        }),
        _ => false,
    }
}

/// The record that a value of record shape holds.
pub open spec fn record_children(v: Value) -> Set<Seq<char>> {
    match v {
        Value::Array(a) => match a@[0] {
            Value::Array(cs) => string_set(cs@),
            _ => Set::empty(),
        },
        _ => Set::empty(),
    }
}

pub open spec fn record_version(v: Value) -> u64 {
    match v {
        Value::Array(a) => match a@[1] {
            Value::Integer(n) => n as u64,
            _ => 0,
        },
        _ => 0,
    }
}

pub open spec fn record_payload(v: Value) -> Value {
    match v {
        Value::Array(a) => a@[2],
        _ => Value::Nil,
    }
}

/// The record stored under each path: its children's names, the schema
/// version of its payload, and the payload.
#[derive(Debug)]
pub struct DataWrapperV1 {
    pub children: Vec<String>,
    pub version: u64,
    pub data: Value,
}

/// Record frames that can be stored inside a `VersionWrapper`.
pub trait DataWrapper: Schema {

}

impl DataWrapperV1 {
    pub open spec fn names(&self) -> Set<Seq<char>> {
        name_set(self.children@)
    }

    /// The children hold no name twice.
    pub open spec fn wf(&self) -> bool {
        names_unique(self.children@)
    }

    /// The children are in increasing order, as records are written.
    pub open spec fn sorted(&self) -> bool {
        names_sorted(self.children@)
    }

    /// Whether `name` is one of the children.
    pub fn has_child(&self, name: &str) -> (r: bool)
        ensures
            r == self.names().contains(name@),
    {
        let target = String::from_str(name);
        let mut i: usize = 0;
        while i < self.children.len()
            invariant
                i <= self.children@.len(),
                target@ == name@,
                forall|j: int| 0 <= j < i ==> self.children@[j]@ != name@,
            decreases self.children@.len() - i,
        {
            if self.children[i] == target {
                proof {
                    lemma_name_set(self.children@, name@);
                }
                return true;
            }
            i = i + 1;
        }
        proof {
            lemma_name_set(self.children@, name@);
        }
        false
    }

    /// Adds `name` to the children unless it is there already, before the
    /// first child that comes after it.
    pub fn add_child(&mut self, name: String)
        requires
            old(self).wf(),
        ensures
            final(self).wf(),
            old(self).sorted() ==> final(self).sorted(),
            final(self).names() == old(self).names().insert(name@),
            final(self).version == old(self).version,
            final(self).data == old(self).data,
    {
        if self.has_child(name.as_str()) {
            assert(self.names().insert(name@) =~= self.names());
            return;
        }
        let mut j: usize = 0;
        while j < self.children.len() && !str_lt(name.as_str(), self.children[j].as_str())
            invariant
                j <= self.children@.len(),
                *self == *old(self),
                forall|k: int| 0 <= k < j ==> !lex_lt(name@, #[trigger] self.children@[k]@),
            decreases self.children@.len() - j,
        {
            j = j + 1;
        }
        let ghost before = self.children@;
        let ghost nm = name@;
        proof {
            lemma_name_set(before, nm);
        }
        self.children.insert(j, name);
        proof {
            let after = self.children@;
            assert(after =~= before.insert(j as int, after[j as int]));
            assert(after[j as int]@ == nm);
            assert forall|a: int, b: int| 0 <= a < b < after.len() implies after[a]@ != after[b]@ by {
                let a0 = if a < j { a } else { a - 1 };
                let b0 = if b < j { b } else { b - 1 };
                if a != j && b != j {
                    assert(after[a] == before[a0]);
                    assert(after[b] == before[b0]);
                } else if a == j {
                    assert(after[b] == before[b0]);
                } else {
                    assert(after[a] == before[a0]);
                }
            }
            if names_sorted(before) {
                assert forall|i: int| 0 <= i < after.len() - 1 implies lex_lt(
                    #[trigger] after[i]@,
                    after[i + 1]@,
                ) by {
                    if i + 1 < j {
                        assert(after[i] == before[i] && after[i + 1] == before[i + 1]);
                    } else if i + 1 == j {
                        assert(after[i] == before[i]);
                        lemma_lex_total(before[i]@, nm);
                    } else if i == j {
                        assert(after[i + 1] == before[i]);
                    } else {
                        assert(after[i] == before[i - 1] && after[i + 1] == before[i]);
                    }
                }
            }
            assert forall|t: Seq<char>| #[trigger] name_set(after).contains(t) == name_set(
                before,
            ).insert(nm).contains(t) by {
                lemma_name_set(after, t);
                lemma_name_set(before, t);
                if name_set(before).contains(t) {
                    let k = choose|k: int| 0 <= k < before.len() && #[trigger] before[k]@ == t;
                    if k < j {
                        assert(after[k] == before[k]);
                    } else {
                        assert(after[k + 1] == before[k]);
                    }
                }
                if name_set(after).contains(t) && t != nm {
                    let k = choose|k: int| 0 <= k < after.len() && #[trigger] after[k]@ == t;
                    if k < j {
                        assert(after[k] == before[k]);
                    } else {
                        assert(k != j);
                        assert(after[k] == before[k - 1]);
                    }
                }
            }
            assert(name_set(after) =~= name_set(before).insert(nm));
        }
    }

    /// Removes `name` from the children; returns whether it was there.
    pub fn remove_child(&mut self, name: &str) -> (r: bool)
        requires
            old(self).wf(),
        ensures
            final(self).wf(),
            final(self).names() == old(self).names().remove(name@),
            old(self).sorted() ==> final(self).sorted(),
            r == old(self).names().contains(name@),
            final(self).version == old(self).version,
            final(self).data == old(self).data,
    {
        let target = String::from_str(name);
        let mut i: usize = 0;
        while i < self.children.len()
            invariant
                i <= self.children@.len(),
                target@ == name@,
                *self == *old(self),
                old(self).wf(),
                forall|j: int| 0 <= j < i ==> self.children@[j]@ != name@,
            decreases self.children@.len() - i,
        {
            if self.children[i] == target {
                let ghost before = self.children@;
                let _ = self.children.remove(i);
                proof {
                    assert(before[i as int]@ == name@);
                    assert(names_unique(before));
                    assert(self.children@ =~= before.remove(i as int));
                    assert forall|a: int, b: int| 0 <= a < b < self.children@.len() implies
                        self.children@[a]@ != self.children@[b]@ by {
                        let a0 = if a < i { a } else { a + 1 };
                        let b0 = if b < i { b } else { b + 1 };
                        assert(self.children@[a] == before[a0]);
                        assert(self.children@[b] == before[b0]);
                        assert(before[a0]@ != before[b0]@);
                    }
                    assert forall|t: Seq<char>| #[trigger]
                        name_set(self.children@).contains(t) == name_set(before).remove(
                            name@,
                        ).contains(t) by {
                        lemma_name_set(self.children@, t);
                        lemma_name_set(before, t);
                        if name_set(before).contains(t) && t != name@ {
                            let k = choose|k: int| 0 <= k < before.len() && #[trigger] before[k]@ == t;
                            assert(k != i);
                            if k < i {
                                assert(self.children@[k] == before[k]);
                            } else {
                                assert(self.children@[k - 1] == before[k]);
                            }
                        }
                        if name_set(self.children@).contains(t) {
                            let k = choose|k: int|
                                0 <= k < self.children@.len() && #[trigger] self.children@[k]@ == t;
                            if k < i {
                                assert(before[k] == self.children@[k]);
                            } else {
                                assert(before[k + 1] == self.children@[k]);
                            }
                        }
                    }
                    assert(name_set(self.children@) =~= name_set(before).remove(name@));
                    lemma_name_set(before, name@);
                    if names_sorted(before) {
                        let after = self.children@;
                        assert forall|k: int| 0 <= k < after.len() - 1 implies lex_lt(
                            #[trigger] after[k]@,
                            after[k + 1]@,
                        ) by {
                            if k + 1 < i {
                                assert(after[k] == before[k] && after[k + 1] == before[k + 1]);
                            } else if k + 1 == i {
                                assert(after[k] == before[k] && after[k + 1] == before[k + 2]);
                                lemma_lex_trans(before[k]@, before[k + 1]@, before[k + 2]@);
                            } else {
                                assert(after[k] == before[k + 1] && after[k + 1] == before[k + 2]);
                            }
                        }
                    }
                }
                return true;
            }
            i = i + 1;
        }
        proof {
            lemma_name_set(self.children@, name@);
            assert(self.names().remove(name@) =~= self.names());
        }
        false
    }

    /// Writes the record as `[children, version, payload]`, with the
    /// children's names once each and in increasing order.
    pub fn to_value(self) -> (r: Value)
        ensures
            is_record_shape(r),
            record_children(r) == self.names(),
            record_version(r) == self.version,
            record_payload(r) == self.data,
            match r {
                Value::Array(a) => exists|cs: Seq<String>|
                    #[trigger] is_name_array(a@[0], cs) && names_sorted(cs) && names_unique(cs),
                _ => false,
            },
    {
        let DataWrapperV1 { children, version, data } = self;
        let mut order = DataWrapperV1 { children: Vec::new(), version: 0, data: Value::Nil };
        assert(order.names() =~= name_set(children@.take(0)));
        let mut k: usize = 0;
        while k < children.len()
            invariant
                k <= children@.len(),
                order.wf(),
                order.sorted(),
                order.names() == name_set(children@.take(k as int)),
            decreases children@.len() - k,
        {
            order.add_child(children[k].clone());
            proof {
                lemma_name_set_take(children@, k as int);
            }
            k = k + 1;
        }
        assert(children@.take(k as int) =~= children@);
        let sorted = order.children;
        let mut names: Vec<Value> = Vec::new();
        let mut i: usize = 0;
        while i < sorted.len()
            invariant
                i <= sorted@.len(),
                names@.len() == i,
                forall|j: int|
                    0 <= j < i ==> (match #[trigger] names@[j] {
                        Value::String(s) => s@ == sorted@[j]@,
                        _ => false,
                    }),
            decreases sorted@.len() - i,
        {
            names.push(Value::String(sorted[i].clone()));
            i = i + 1;
        }
        let mut arr: Vec<Value> = Vec::new();
        let first = Value::Array(names);
        assert(is_name_array(first, sorted@));
        proof {
            lemma_name_array_set(names@, sorted@);
        }
        arr.push(first);
        arr.push(Value::Integer(version as i128));
        arr.push(data);
        let r = Value::Array(arr);
        assert(arr@[0] == first);
        r
    }

    /// Reads a record written by `to_value`. Duplicate child names collapse.
    pub fn from_value(val: Value) -> (r: Result<Self, Error>)
        ensures
            is_record_shape(val) ==> r is Ok && r->Ok_0.wf() && r->Ok_0.sorted() && r->Ok_0.names() == record_children(
                val,
            ) && r->Ok_0.version == record_version(val) && r->Ok_0.data == record_payload(val),
            !is_record_shape(val) ==> r is Err && r->Err_0.kind == ErrorKind::InvalidFormat,
    {
        let mut arr = match val {
            Value::Array(a) => a,
            _ => return Err(Error::new(ErrorKind::InvalidFormat, "record is not an array")),
        };
        let ghost items = arr@;
        assert(val is Array && val->Array_0@ == items);
        if arr.len() != 3 {
            return Err(Error::new(ErrorKind::InvalidFormat, "record is not of three items"));
        }
        let data = arr.pop().unwrap();
        let version = match arr.pop().unwrap().as_u64() {
            Some(v) => v,
            None => return Err(Error::new(ErrorKind::InvalidFormat, "record version is not an unsigned integer")),
        };
        let names = match arr.pop().unwrap() {
            Value::Array(cs) => cs,
            _ => return Err(Error::new(ErrorKind::InvalidFormat, "record children are not an array")),
        };
        assert(items[0] == Value::Array(names));
        assert(items[2] == data);
        let mut out = DataWrapperV1 { children: Vec::new(), version, data };
        assert(out.names() =~= Set::<Seq<char>>::empty());
        assert(string_set(names@.take(0)) =~= Set::<Seq<char>>::empty());
        let mut i: usize = 0;
        while i < names.len()
            invariant
                i <= names@.len(),
                val is Array && val->Array_0@ == items && items.len() == 3,
                items[0] == Value::Array(names),
                items[1] is Integer && 0 <= items[1]->Integer_0 <= u64::MAX,
                version == items[1]->Integer_0 as u64,
                items[2] == data,
                all_strings(names@.take(i as int)),
                out.wf(),
                out.sorted(),
                out.version == version,
                out.data == data,
                out.names() == string_set(names@.take(i as int)),
            decreases names@.len() - i,
        {
            match &names[i] {
                Value::String(s) => {
                    out.add_child(s.clone());
                },
                _ => {
                    proof {
                        assert(!(names@[i as int] is String));
                        assert(!all_strings(names@));
                        assert(val->Array_0@[0] == Value::Array(names));
                        assert(!is_record_shape(val));
                    }
                    return Err(Error::new(ErrorKind::InvalidFormat, "a child name is not a string"));
                },
            }
            proof {
                let t = names@.take(i + 1);
                assert(names@.take(i as int) =~= t.take(i as int));
                assert forall|x: Seq<char>| #[trigger] string_set(t).contains(x) == string_set(
                    names@.take(i as int),
                ).insert(names@[i as int]->String_0@).contains(x) by {
                    if string_set(t).contains(x) {
                        let k = choose|k: int| 0 <= k < t.len() && (match #[trigger] t[k] {
                            Value::String(s) => s@ == x,
                            _ => false,
                        });
                        if k < i {
                            assert(names@.take(i as int)[k] == t[k]);
                        }
                    }
                    if string_set(names@.take(i as int)).contains(x) {
                        let k = choose|k: int| 0 <= k < i && (match #[trigger] names@.take(i as int)[k] {
                            Value::String(s) => s@ == x,
                            _ => false,
                        });
                        assert(t[k] == names@.take(i as int)[k]);
                    }
                    if x == names@[i as int]->String_0@ {
                        assert(t[i as int] == names@[i as int]);
                    }
                }
                assert(string_set(t) =~= string_set(names@.take(i as int)).insert(
                    names@[i as int]->String_0@,
                ));
                assert forall|j: int| 0 <= j < t.len() implies (#[trigger] t[j]) is String by {
                    if j < i {
                        assert(t[j] == names@.take(i as int)[j]);
                    }
                }
            }
            i = i + 1;
        }
        assert(names@.take(i as int) =~= names@);
        assert(is_record_shape(val));
        Ok(out)
    }
}

impl Schema for DataWrapperV1 {
    const VERSION: u64 = 1;

    const PREV_VERSION: u64 = 0;

    const NEXT_VERSION: u64 = 0;

    fn version() -> (r: u64) {
        1
    }

    fn load(val: Value) -> (r: Result<Self, Error>)
        ensures
            is_record_shape(val) ==> r is Ok && r->Ok_0.wf() && r->Ok_0.sorted() && r->Ok_0.names()
                == record_children(val) && r->Ok_0.version == record_version(val) && r->Ok_0.data
                == record_payload(val),
            !is_record_shape(val) ==> r is Err && r->Err_0.kind == ErrorKind::InvalidFormat,
    {
        DataWrapperV1::from_value(val)
    }

    fn save(self) -> (r: Result<Value, Error>)
        ensures
            r is Ok,
            is_record_shape(r->Ok_0),
            record_children(r->Ok_0) == self.names(),
            record_version(r->Ok_0) == self.version,
            record_payload(r->Ok_0) == self.data,
            match r->Ok_0 {
                Value::Array(a) => exists|cs: Seq<String>|
                    #[trigger] is_name_array(a@[0], cs) && names_sorted(cs) && names_unique(cs),
                _ => false,
            },
    {
        Ok(self.to_value())
    }

    fn from_prev(version: u64, val: Value) -> (r: Result<Self, Error>)
        ensures
            r is Err && r->Err_0.kind == ErrorKind::InvalidSchema,
    {
        Err(Error::new(ErrorKind::InvalidSchema, "this is the first record version"))
    }

    fn from_next(version: u64, val: Value) -> (r: Result<Self, Error>)
        ensures
            r is Err && r->Err_0.kind == ErrorKind::InvalidSchema,
    {
        Err(Error::new(ErrorKind::InvalidSchema, "this is the last record version"))
    }
}

impl DataWrapper for DataWrapperV1 {

}

/// A record frame together with the version it was written in:
/// `[version, frame]`, readable as any adjacent frame version.
#[derive(Debug)]
pub struct VersionWrapper<T: DataWrapper> {
    pub data: T,
}

impl<T: DataWrapper> VersionWrapper<T> {
    /// Reads `[version, frame]`, converting the frame to `T`.
    pub fn from_value(val: Value) -> (r: Result<Self, Error>)
        ensures
            match val {
                Value::Array(a) => if a@.len() == 2 && a@[0] is Integer && 0 <= a@[0]->Integer_0
                    <= u64::MAX {
                    exists|lr: Result<T, Error>|
                        #[trigger] load::<T>.ensures((a@[0]->Integer_0 as u64, a@[1]), lr) && match lr {
                            Ok(x) => r is Ok && r->Ok_0.data == x,
                            Err(e) => r == Err::<Self, Error>(e),
                        }
                } else {
                    r is Err && r->Err_0.kind == ErrorKind::InvalidFormat
                },
                _ => r is Err && r->Err_0.kind == ErrorKind::InvalidFormat,
            },
    {
        let mut arr = match val {
            Value::Array(a) => a,
            _ => return Err(Error::new(ErrorKind::InvalidFormat, "frame is not an array")),
        };
        if arr.len() != 2 {
            return Err(Error::new(ErrorKind::InvalidFormat, "frame is not of two items"));
        }
        let inner = arr.pop().unwrap();
        let version = match arr.pop().unwrap().as_u64() {
            Some(v) => v,
            None => return Err(Error::new(ErrorKind::InvalidFormat, "frame version is not an unsigned integer")),
        };
        match load::<T>(version, inner) {
            Ok(data) => Ok(VersionWrapper { data }),
            Err(e) => Err(e),
        }
    }

    /// Writes `[T::version(), frame]`.
    pub fn to_value(self) -> (r: Result<Value, Error>)
        ensures
            exists|sr: Result<Value, Error>|
                #[trigger] T::save.ensures((self.data,), sr) && match sr {
                    Ok(inner) => r is Ok && r->Ok_0 is Array && r->Ok_0->Array_0@ =~= seq![
                        Value::Integer(T::VERSION as i128),
                        inner,
                    ],
                    Err(e) => r == Err::<Value, Error>(e),
                },
    {
        let v = T::version();
        match self.data.save() {
            Ok(inner) => {
                let mut arr: Vec<Value> = Vec::new();
                arr.push(Value::Integer(v as i128));
                arr.push(inner);
                Ok(Value::Array(arr))
            },
            Err(e) => Err(e),
        }
    }
}

} // verus!
