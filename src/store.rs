use vstd::prelude::*;

use crate::error::Error;
use crate::error::ErrorKind;
use crate::path::display;
use crate::path::root_name;
use crate::path::root_path;
use crate::path::Path;
use crate::schema::load;
use crate::schema::resolve_step;
use crate::schema::Step;
use crate::schema::Schema;
use crate::schema::SchemaDowngrade;
use crate::schema::SchemaUpgrade;
use crate::schema::upgrade_from;
use crate::schema::downgrade_from;
use crate::value::Value;
use crate::wrappers::DataWrapperV1;

verus! {

/// What a stored record means: its children's names, its version and payload.
pub struct Record {
    pub children: Set<Seq<char>>,
    pub version: u64,
    pub payload: Value,
}

impl DataWrapperV1 {
    pub open spec fn model(&self) -> Record {
        Record { children: self.names(), version: self.version, payload: self.data }
    }
}

pub open spec fn model_of(r: Option<DataWrapperV1>) -> Option<Record> {
    match r {
        Some(d) => Some(d.model()),
        None => None,
    }
}

pub open spec fn wf_opt(r: Option<DataWrapperV1>) -> bool {
    match r {
        Some(d) => d.wf(),
        None => true,
    }
}

/// The whole store: the record held under each path.
pub type Tree = Map<Seq<Seq<char>>, Record>;

/// One change to the store: put `record` under `path`, or remove `path` when it is `None`.
pub struct Write {
    pub path: Path,
    pub record: Option<DataWrapperV1>,
}

impl Write {
    pub open spec fn model(&self) -> (Seq<Seq<char>>, Option<Record>) {
        (self.path@, model_of(self.record))
    }
}

pub open spec fn writes_model(ws: Seq<Write>) -> Seq<(Seq<Seq<char>>, Option<Record>)> {
    ws.map_values(|w: Write| w.model())
}

/// The changes of a `put`, in the order they are applied.
pub struct PutPlan {
    pub writes: Vec<Write>,
    /// The record being replaced had a newer version than the one written.
    pub overwrites_newer: bool,
}

pub open spec fn lookup(t: Tree, p: Seq<Seq<char>>) -> Option<Record> {
    if t.contains_key(p) {
        Some(t[p])
    } else {
        None
    }
}

/// The record of a fresh node.
pub open spec fn fresh(version: u64, payload: Value) -> Record {
    Record { children: Set::empty(), version, payload }
}

/// The writes of `put` at `p`, given the records found at `p` and at its parent.
pub open spec fn put_writes(
    p: Seq<Seq<char>>,
    existing: Option<Record>,
    parent: Option<Record>,
    version: u64,
    payload: Value,
) -> Result<Seq<(Seq<Seq<char>>, Option<Record>)>, ErrorKind> {
    if version == 0 {
        Err(ErrorKind::ReservedVersion)
    } else {
        match existing {
            Some(ex) => Ok(
                seq![(p, Some(Record { children: ex.children, version, payload }))],
            ),
            None => if p.len() == 0 {
                Err(ErrorKind::InvalidPath)
            } else {
                match parent {
                    None => Err(ErrorKind::NoParent),
                    Some(par) => Ok(
                        seq![
                            (p.drop_last(), Some(Record { children: par.children.insert(p.last()), ..par })),
                            (p, Some(fresh(version, payload))),
                        ],
                    ),
                }
            },
        }
    }
}

/// The writes of `delete` at `p`, given the records found at `p` and at its parent.
pub open spec fn del_writes(
    p: Seq<Seq<char>>,
    existing: Option<Record>,
    parent: Option<Record>,
) -> Result<Seq<(Seq<Seq<char>>, Option<Record>)>, ErrorKind> {
    match existing {
        None => Err(ErrorKind::NotFound),
        Some(ex) => if !ex.children.is_empty() {
            Err(ErrorKind::HasChildren)
        } else if p.len() == 0 {
            Err(ErrorKind::InvalidPath)
        } else {
            match parent {
                None => Err(ErrorKind::Corruption),
                Some(par) => Ok(
                    seq![
                        (p.drop_last(), Some(Record { children: par.children.remove(p.last()), ..par })),
                        (p, None),
                    ],
                ),
            }
        },
    }
}

pub open spec fn apply_write(t: Tree, w: (Seq<Seq<char>>, Option<Record>)) -> Tree {
    match w.1 {
        Some(r) => t.insert(w.0, r),
        None => t.remove(w.0),
    }
}

pub open spec fn apply_writes(t: Tree, ws: Seq<(Seq<Seq<char>>, Option<Record>)>) -> Tree
    decreases ws.len(),
{
    if ws.len() == 0 {
        t
    } else {
        apply_write(apply_writes(t, ws.drop_last()), ws.last())
    }
}

/// The path a parent record is read from.
pub open spec fn parent_key(p: Seq<Seq<char>>) -> Seq<Seq<char>> {
    if p.len() == 0 {
        p
    } else {
        p.drop_last()
    }
}

/// The store after `put`, or the error it fails with.
pub open spec fn tree_put(t: Tree, p: Seq<Seq<char>>, version: u64, payload: Value) -> Result<Tree, ErrorKind> {
    match put_writes(p, lookup(t, p), lookup(t, parent_key(p)), version, payload) {
        Ok(ws) => Ok(apply_writes(t, ws)),
        Err(k) => Err(k),
    }
}

/// The store after `delete`, or the error it fails with.
pub open spec fn tree_del(t: Tree, p: Seq<Seq<char>>) -> Result<Tree, ErrorKind> {
    match del_writes(p, lookup(t, p), lookup(t, parent_key(p))) {
        Ok(ws) => Ok(apply_writes(t, ws)),
        Err(k) => Err(k),
    }
}

/// What a reader sees after `delete`: a failed delete changes nothing.
pub open spec fn after_del(t: Tree, p: Seq<Seq<char>>) -> Tree {
    match tree_del(t, p) {
        Ok(t2) => t2,
        Err(_) => t,
    }
}

/// The record written at bootstrap under `@root`.
pub open spec fn root_record() -> Record {
    fresh(1, Value::Nil)
}

/// The invariants of a consistent store.
pub open spec fn tree_inv(t: Tree) -> bool {
    // every key starts at the root
    &&& forall|k: Seq<Seq<char>>| #[trigger] t.contains_key(k) ==> k.len() >= 1 && k[0] == root_name()
    // a non-root node's parent exists and lists it
    &&& forall|k: Seq<Seq<char>>|
        #[trigger] t.contains_key(k) && k.len() > 1 ==> t.contains_key(k.drop_last())
            && t[k.drop_last()].children.contains(k.last())
    // every listed child exists
    &&& forall|k: Seq<Seq<char>>, n: Seq<char>|
        #[trigger] t.contains_key(k) && #[trigger] t[k].children.contains(n) ==> t.contains_key(
            k.push(n),
        )
    // stored versions are never zero
    &&& forall|k: Seq<Seq<char>>| #[trigger] t.contains_key(k) ==> t[k].version > 0
}

/// The message of a `NoParent` error for `put` at `p`: it names the parent.
pub open spec fn no_parent_text(p: Seq<Seq<char>>) -> Seq<char> {
    "No parent '"@ + display(p.drop_last()) + "' found for '"@ + display(p) + "'"@
}

/// Builds the writes of `put`: the value `payload` of schema `version` goes to
/// `path`, given what was read at `path` (`existing`) and at its parent.
pub fn plan_put(
    path: &Path,
    existing: Option<DataWrapperV1>,
    parent: Option<DataWrapperV1>,
    version: u64,
    payload: Value,
) -> (r: Result<PutPlan, Error>)
    requires
        wf_opt(existing),
        wf_opt(parent),
    ensures
        match r {
            Ok(plan) => put_writes(path@, model_of(existing), model_of(parent), version, payload)
                == Ok::<_, ErrorKind>(writes_model(plan.writes@)) && plan.overwrites_newer == (
            existing is Some && version < existing->Some_0.version),
            Err(e) => put_writes(path@, model_of(existing), model_of(parent), version, payload)
                == Err::<Seq<(Seq<Seq<char>>, Option<Record>)>, _>(e.kind) && (e.kind
                == ErrorKind::NoParent ==> e.message_view() == Some(no_parent_text(path@))),
        },
{
    if version == 0 {
        return Err(Error::new(ErrorKind::ReservedVersion, "version zero is reserved"));
    }
    match existing {
        Some(ex) => {
            let overwrites_newer = version < ex.version;
            let record = DataWrapperV1 { children: ex.children, version, data: payload };
            let mut writes: Vec<Write> = Vec::new();
            writes.push(Write { path: path.clone(), record: Some(record) });
            assert(writes_model(writes@) =~= seq![(path@, Some(Record { children: ex.model().children, version, payload }))]);
            Ok(PutPlan { writes, overwrites_newer })
        },
        None => {
            let (parent_path, name) = path.pop();
            let name = match name {
                Some(n) => n,
                None => return Err(Error::new(ErrorKind::InvalidPath, "the root slot cannot be created")),
            };
            let mut par = match parent {
                Some(p) => p,
                None => {
                    let mut m = String::from_str("No parent '");
                    let parent_text = parent_path.to_string();
                    m.append(parent_text.as_str());
                    m.append("' found for '");
                    let path_text = path.to_string();
                    m.append(path_text.as_str());
                    m.append("'");
                    return Err(Error::new(ErrorKind::NoParent, m.as_str()));
                },
            };
            let ghost old_par = par.model();
            par.add_child(name);
            let record = DataWrapperV1 { children: Vec::new(), version, data: payload };
            assert(record.names() =~= Set::<Seq<char>>::empty());
            let mut writes: Vec<Write> = Vec::new();
            writes.push(Write { path: parent_path, record: Some(par) });
            writes.push(Write { path: path.clone(), record: Some(record) });
            assert(writes_model(writes@) =~= seq![
                (path@.drop_last(), Some(Record { children: old_par.children.insert(path@.last()), ..old_par })),
                (path@, Some(fresh(version, payload))),
            ]);
            Ok(PutPlan { writes, overwrites_newer: false })
        },
    }
}

/// Builds the writes of `delete` at `path`, given what was read at `path`
/// (`existing`) and at its parent.
pub fn plan_del(path: &Path, existing: Option<DataWrapperV1>, parent: Option<DataWrapperV1>) -> (r:
    Result<Vec<Write>, Error>)
    requires
        wf_opt(existing),
        wf_opt(parent),
    ensures
        match r {
            Ok(ws) => del_writes(path@, model_of(existing), model_of(parent)) == Ok::<_, ErrorKind>(
                writes_model(ws@),
            ),
            Err(e) => del_writes(path@, model_of(existing), model_of(parent)) == Err::<
                Seq<(Seq<Seq<char>>, Option<Record>)>,
                _,
            >(e.kind),
        },
{
    let ex = match existing {
        Some(e) => e,
        None => return Err(Error::new(ErrorKind::NotFound, "no such path")),
    };
    if ex.children.len() != 0 {
        proof {
            let ghost n = ex.children@[0]@;
            assert(ex.children@.map_values(|s: String| s@)[0] == n);
            assert(ex.names().contains(n));
        }
        return Err(Error::new(ErrorKind::HasChildren, "cannot delete a node with children"));
    }
    assert(ex.names() =~= Set::<Seq<char>>::empty());
    let (parent_path, name) = path.pop();
    let name = match name {
        Some(n) => n,
        None => return Err(Error::new(ErrorKind::InvalidPath, "the empty path cannot be deleted")),
    };
    let mut par = match parent {
        Some(p) => p,
        None => return Err(Error::new(ErrorKind::Corruption, "the parent of an existing node is missing")),
    };
    let ghost old_par = par.model();
    // a name missing from the parent is tolerated: the node goes all the same
    let _ = par.remove_child(name.as_str());
    let mut writes: Vec<Write> = Vec::new();
    writes.push(Write { path: parent_path, record: Some(par) });
    writes.push(Write { path: path.clone(), record: None });
    assert(writes_model(writes@) =~= seq![
        (path@.drop_last(), Some(Record { children: old_par.children.remove(path@.last()), ..old_par })),
        (path@, None),
    ]);
    Ok(writes)
}

/// The write that creates the root record, unless one was found.
pub fn plan_init_root(existing: &Option<DataWrapperV1>) -> (r: Option<Write>)
    ensures
        existing is Some ==> r is None,
        existing is None ==> r is Some && r->Some_0.model() == (root_path(), Some(root_record())),
{
    match existing {
        Some(_) => None,
        None => {
            let record = DataWrapperV1 { children: Vec::new(), version: 1, data: Value::Nil };
            assert(record.names() =~= Set::<Seq<char>>::empty());
            Some(Write { path: Path::root(), record: Some(record) })
        },
    }
}

/// Reads the value of schema `T` from the record found at a path, converting
/// from the stored version as required; `None` when nothing was found.
pub fn read_record<T: Schema>(found: Option<DataWrapperV1>) -> (r: Result<Option<T>, Error>)
    ensures
        found is None ==> r is Ok && r->Ok_0 is None,
        found is Some ==> exists|lr: Result<T, Error>|
            #[trigger] load::<T>.ensures((found->Some_0.version, found->Some_0.data), lr) && match lr {
                Ok(x) => r == Ok::<Option<T>, Error>(Some(x)),
                Err(e) => r == Err::<Option<T>, Error>(e),
            },
{
    match found {
        None => Ok(None),
        Some(env) => match load::<T>(env.version, env.data) {
            Ok(x) => Ok(Some(x)),
            Err(e) => Err(e),
        },
    }
}

proof fn lemma_apply_one(t: Tree, w: (Seq<Seq<char>>, Option<Record>))
    ensures
        apply_writes(t, seq![w]) == apply_write(t, w),
{
    assert(seq![w].drop_last() =~= Seq::<(Seq<Seq<char>>, Option<Record>)>::empty());
    assert(apply_writes(t, Seq::<(Seq<Seq<char>>, Option<Record>)>::empty()) == t);
    assert(seq![w].last() == w);
}

proof fn lemma_apply_two(t: Tree, w1: (Seq<Seq<char>>, Option<Record>), w2: (Seq<Seq<char>>, Option<Record>))
    ensures
        apply_writes(t, seq![w1, w2]) == apply_write(apply_write(t, w1), w2),
{
    assert(seq![w1, w2].drop_last() =~= seq![w1]);
    lemma_apply_one(t, w1);
}

proof fn lemma_child_key(k: Seq<Seq<char>>)
    requires
        k.len() > 0,
    ensures
        k == k.drop_last().push(k.last()),
{
    assert(k =~= k.drop_last().push(k.last()));
}

/// The store made at bootstrap, holding only the root record, is consistent.
pub proof fn lemma_bootstrap_consistent()
    ensures
        tree_inv(Map::<Seq<Seq<char>>, Record>::empty().insert(root_path(), root_record())),
{
    let t = Map::<Seq<Seq<char>>, Record>::empty().insert(root_path(), root_record());
    assert forall|k: Seq<Seq<char>>, n: Seq<char>|
        #[trigger] t.contains_key(k) && #[trigger] t[k].children.contains(n) implies t.contains_key(
            k.push(n),
        ) by {
        assert(!Set::<Seq<char>>::empty().contains(n));
    }
}

/// A successful `put` keeps a consistent store consistent.
pub proof fn lemma_put_consistent(t: Tree, p: Seq<Seq<char>>, version: u64, payload: Value)
    requires
        tree_inv(t),
    ensures
        tree_put(t, p, version, payload) is Ok ==> tree_inv(tree_put(t, p, version, payload)->Ok_0),
{
    if tree_put(t, p, version, payload) is Ok {
        let t2 = tree_put(t, p, version, payload)->Ok_0;
        if t.contains_key(p) {
            let w = (p, Some(Record { children: t[p].children, version, payload }));
            lemma_apply_one(t, w);
            assert(t2 == t.insert(p, Record { children: t[p].children, version, payload }));
            assert forall|k: Seq<Seq<char>>| #[trigger] t2.contains_key(k) && k.len() > 1 implies
                t2.contains_key(k.drop_last()) && t2[k.drop_last()].children.contains(k.last()) by {
                assert(t.contains_key(k));
            }
            assert forall|k: Seq<Seq<char>>, n: Seq<char>|
                #[trigger] t2.contains_key(k) && #[trigger] t2[k].children.contains(n) implies t2.contains_key(
                    k.push(n),
                ) by {
                assert(t.contains_key(k) && t[k].children.contains(n));
            }
        } else {
            let q = p.drop_last();
            let par = t[q];
            let parq = Record { children: par.children.insert(p.last()), ..par };
            let w1 = (q, Some(parq));
            let w2 = (p, Some(fresh(version, payload)));
            lemma_apply_two(t, w1, w2);
            let t1 = t.insert(q, parq);
            assert(t2 == t1.insert(p, fresh(version, payload)));
            lemma_child_key(p);
            assert(p.len() >= 2);
            assert forall|k: Seq<Seq<char>>| #[trigger] t2.contains_key(k) implies k.len() >= 1
                && k[0] == root_name() && t2[k].version > 0 by {
                if k == p {
                    assert(p[0] == q[0]);
                }
            }
            assert forall|k: Seq<Seq<char>>| #[trigger] t2.contains_key(k) && k.len() > 1 implies
                t2.contains_key(k.drop_last()) && t2[k.drop_last()].children.contains(k.last()) by {
                if k != p {
                    assert(t.contains_key(k));
                    assert(t.contains_key(k.drop_last()));
                    if k.drop_last() == p {
                        assert(false);
                    }
                }
            }
            assert forall|k: Seq<Seq<char>>, n: Seq<char>|
                #[trigger] t2.contains_key(k) && #[trigger] t2[k].children.contains(n) implies t2.contains_key(
                    k.push(n),
                ) by {
                if k == p {
                    assert(!Set::<Seq<char>>::empty().contains(n));
                } else if k == q {
                    if n != p.last() {
                        assert(t[q].children.contains(n));
                    }
                } else {
                    assert(t.contains_key(k) && t[k].children.contains(n));
                }
            }
        }
    }
}

/// A successful `delete` keeps a consistent store consistent.
pub proof fn lemma_del_consistent(t: Tree, p: Seq<Seq<char>>)
    requires
        tree_inv(t),
    ensures
        tree_del(t, p) is Ok ==> tree_inv(tree_del(t, p)->Ok_0),
{
    if tree_del(t, p) is Ok {
        let t2 = tree_del(t, p)->Ok_0;
        let q = p.drop_last();
        let par = t[q];
        let parq = Record { children: par.children.remove(p.last()), ..par };
        let w1 = (q, Some(parq));
        let w2 = (p, None::<Record>);
        lemma_apply_two(t, w1, w2);
        assert(t2 == t.insert(q, parq).remove(p));
        lemma_child_key(p);
        assert(t.contains_key(p) && t[p].children.is_empty());
        assert forall|k: Seq<Seq<char>>| #[trigger] t2.contains_key(k) && k.len() > 1 implies
            t2.contains_key(k.drop_last()) && t2[k.drop_last()].children.contains(k.last()) by {
            assert(t.contains_key(k));
            assert(t.contains_key(k.drop_last()) && t[k.drop_last()].children.contains(k.last()));
            if k.drop_last() == p {
                assert(t[p].children.contains(k.last()));
                assert(false);
            }
            if k.drop_last() == q {
                lemma_child_key(k);
                assert(k.last() != p.last());
            }
        }
        assert forall|k: Seq<Seq<char>>, n: Seq<char>|
            #[trigger] t2.contains_key(k) && #[trigger] t2[k].children.contains(n) implies t2.contains_key(
                k.push(n),
            ) by {
            assert(t.contains_key(k) && t[k].children.contains(n));
            assert(t.contains_key(k.push(n)));
            if k.push(n) == p {
                assert(k.push(n).drop_last() =~= k);
                assert(k == q);
                assert(n == p.last());
            }
        }
    }
}

/// A change to the store, as its callers ask for it.
pub enum Op {
    Put(Seq<Seq<char>>, u64, Value),
    Delete(Seq<Seq<char>>),
}

/// The store after `op`; a failed operation changes nothing.
pub open spec fn step(t: Tree, op: Op) -> Tree {
    match op {
        Op::Put(p, version, payload) => match tree_put(t, p, version, payload) {
            Ok(t2) => t2,
            Err(_) => t,
        },
        Op::Delete(p) => after_del(t, p),
    }
}

/// The store after each of `ops` in turn.
pub open spec fn run(t: Tree, ops: Seq<Op>) -> Tree
    decreases ops.len(),
{
    if ops.len() == 0 {
        t
    } else {
        step(run(t, ops.drop_last()), ops.last())
    }
}

/// After bootstrap and any sequence of puts and deletes, every path in the
/// store starts at the root, has its parent present and listing it, has all
/// of its listed children present, and has a version above zero.
pub proof fn lemma_ops_consistent(ops: Seq<Op>)
    ensures
        tree_inv(run(Map::<Seq<Seq<char>>, Record>::empty().insert(root_path(), root_record()), ops)),
    decreases ops.len(),
{
    let t0 = Map::<Seq<Seq<char>>, Record>::empty().insert(root_path(), root_record());
    if ops.len() == 0 {
        lemma_bootstrap_consistent();
    } else {
        lemma_ops_consistent(ops.drop_last());
        let t = run(t0, ops.drop_last());
        match ops.last() {
            Op::Put(p, version, payload) => lemma_put_consistent(t, p, version, payload),
            Op::Delete(p) => lemma_del_consistent(t, p),
        }
    }
}

/// Overwriting the value at an existing path leaves its parent's record,
/// children included, as it was, and keeps the path's own children.
pub proof fn lemma_overwrite_keeps_parent(t: Tree, p: Seq<Seq<char>>, version: u64, payload: Value)
    requires
        t.contains_key(p),
        p.len() > 1,
        version > 0,
    ensures
        tree_put(t, p, version, payload) is Ok,
        tree_put(t, p, version, payload)->Ok_0.contains_key(p.drop_last()) == t.contains_key(p.drop_last()),
        t.contains_key(p.drop_last()) ==> tree_put(t, p, version, payload)->Ok_0[p.drop_last()] == t[p.drop_last()],
        tree_put(t, p, version, payload)->Ok_0[p].children == t[p].children,
{
    let w = (p, Some(Record { children: t[p].children, version, payload }));
    lemma_apply_one(t, w);
    assert(p.drop_last() != p);
}

/// Deleting a node that has children fails and the store stays as it was.
pub proof fn lemma_delete_nonempty_fails(t: Tree, p: Seq<Seq<char>>)
    requires
        t.contains_key(p),
        !t[p].children.is_empty(),
    ensures
        tree_del(t, p) == Err::<Tree, ErrorKind>(ErrorKind::HasChildren),
        after_del(t, p) == t,
{
}

/// After a successful `put` of a value saved by a schema of version `version`,
/// the path holds that version and payload, and a reader of the same schema
/// (whatever its neighbours) deserializes that payload directly.
pub proof fn lemma_put_then_read_same(t: Tree, p: Seq<Seq<char>>, version: u64, payload: Value, prev: u64, next: u64)
    requires
        tree_put(t, p, version, payload) is Ok,
    ensures
        tree_put(t, p, version, payload)->Ok_0.contains_key(p),
        tree_put(t, p, version, payload)->Ok_0[p].version == version,
        tree_put(t, p, version, payload)->Ok_0[p].payload == payload,
        resolve_step(version, version, prev, next) == Step::Load,
{
    if t.contains_key(p) {
        lemma_apply_one(t, (p, Some(Record { children: t[p].children, version, payload })));
    } else {
        let q = p.drop_last();
        let par = t[q];
        let parq = Record { children: par.children.insert(p.last()), ..par };
        lemma_apply_two(t, (q, Some(parq)), (p, Some(fresh(version, payload))));
    }
}

/// Reading a path just written, with the schema that wrote it, gives back
/// the value: the stored version is the schema's own, so the payload is
/// deserialized directly, and a schema that reads back what it saves returns
/// the value that was put.
pub proof fn lemma_get_after_put<T: Schema>(
    t: Tree,
    p: Seq<Seq<char>>,
    payload: Value,
    v: T,
    r: Result<T, Error>,
)
    requires
        tree_put(t, p, T::VERSION, payload) is Ok,
        forall|r2: Result<T, Error>| #[trigger] T::load.ensures((payload,), r2) ==> r2 == Ok::<T, Error>(v),
        load::<T>.ensures(
            (
                tree_put(t, p, T::VERSION, payload)->Ok_0[p].version,
                tree_put(t, p, T::VERSION, payload)->Ok_0[p].payload,
            ),
            r,
        ),
    ensures
        r == Ok::<T, Error>(v),
{
    lemma_put_then_read_same(t, p, T::VERSION, payload, T::PREV_VERSION, T::NEXT_VERSION);
}

/// A value put by the previous version of `T` is read by `T` as that value
/// upgraded, when `T` reaches its previous version through `upgrade_from`.
pub proof fn lemma_get_upgraded<T: SchemaUpgrade>(
    t: Tree,
    p: Seq<Seq<char>>,
    payload: Value,
    v: T::PrevVersion,
    r: Result<T, Error>,
)
    requires
        0 < T::PrevVersion::VERSION,
        T::PrevVersion::VERSION + 1 == T::VERSION,
        T::PREV_VERSION == T::PrevVersion::VERSION,
        forall|ver: u64, val: Value, r2: Result<T, Error>|
            #[trigger] T::from_prev.ensures((ver, val), r2) ==> upgrade_from::<T>.ensures((ver, val), r2),
        tree_put(t, p, T::PrevVersion::VERSION, payload) is Ok,
        forall|r2: Result<T::PrevVersion, Error>|
            #[trigger] T::PrevVersion::load.ensures((payload,), r2) ==> r2 == Ok::<T::PrevVersion, Error>(v),
        load::<T>.ensures(
            (
                tree_put(t, p, T::PrevVersion::VERSION, payload)->Ok_0[p].version,
                tree_put(t, p, T::PrevVersion::VERSION, payload)->Ok_0[p].payload,
            ),
            r,
        ),
    ensures
        T::upgrade.ensures((v,), r),
{
    let k = T::PrevVersion::VERSION;
    lemma_put_then_read_same(t, p, k, payload, T::PREV_VERSION, T::NEXT_VERSION);
    assert(T::from_prev.ensures((k, payload), r));
    assert(upgrade_from::<T>.ensures((k, payload), r));
    let lr = choose|lr: Result<T::PrevVersion, Error>|
        #[trigger] load::<T::PrevVersion>.ensures((k, payload), lr) && match lr {
            Ok(x) => T::upgrade.ensures((x,), r),
            Err(e) => r == Err::<T, Error>(e),
        };
    assert(T::PrevVersion::load.ensures((payload,), lr));
}

/// A value put by the next version of `T` is read by `T` as that value
/// downgraded, when `T` reaches its next version through `downgrade_from`.
pub proof fn lemma_get_downgraded<T: SchemaDowngrade>(
    t: Tree,
    p: Seq<Seq<char>>,
    payload: Value,
    w: T::NextVersion,
    r: Result<T, Error>,
)
    requires
        T::VERSION + 1 == T::NextVersion::VERSION,
        T::NextVersion::VERSION < u64::MAX,
        T::NEXT_VERSION == T::NextVersion::VERSION,
        forall|ver: u64, val: Value, r2: Result<T, Error>|
            #[trigger] T::from_next.ensures((ver, val), r2) ==> downgrade_from::<T>.ensures((ver, val), r2),
        tree_put(t, p, T::NextVersion::VERSION, payload) is Ok,
        forall|r2: Result<T::NextVersion, Error>|
            #[trigger] T::NextVersion::load.ensures((payload,), r2) ==> r2 == Ok::<T::NextVersion, Error>(w),
        load::<T>.ensures(
            (
                tree_put(t, p, T::NextVersion::VERSION, payload)->Ok_0[p].version,
                tree_put(t, p, T::NextVersion::VERSION, payload)->Ok_0[p].payload,
            ),
            r,
        ),
    ensures
        T::downgrade.ensures((w,), r),
{
    let k = T::NextVersion::VERSION;
    lemma_put_then_read_same(t, p, k, payload, T::PREV_VERSION, T::NEXT_VERSION);
    assert(T::from_next.ensures((k, payload), r));
    assert(downgrade_from::<T>.ensures((k, payload), r));
    let lr = choose|lr: Result<T::NextVersion, Error>|
        #[trigger] load::<T::NextVersion>.ensures((k, payload), lr) && match lr {
            Ok(x) => T::downgrade.ensures((x,), r),
            Err(e) => r == Err::<T, Error>(e),
        };
    assert(T::NextVersion::load.ensures((payload,), lr));
}

} // verus!
