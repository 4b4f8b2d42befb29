use std::collections::HashMap;

use lmtreedb::error::Error;
use lmtreedb::error::ErrorKind;
use lmtreedb::error::ErrorPosition;
use lmtreedb::error::IntoErr;
use lmtreedb::path::Path;
use lmtreedb::path::PathPart;
use lmtreedb::path::Root;
use lmtreedb::schema::downgrade_from;
use lmtreedb::schema::upgrade_from;
use lmtreedb::schema::SchemaDowngrade;
use lmtreedb::schema::SchemaUpgrade;
use lmtreedb::schema::Schema;
use lmtreedb::store::plan_del;
use lmtreedb::store::plan_init_root;
use lmtreedb::store::plan_put;
use lmtreedb::store::read_record;
use lmtreedb::store::Write;
use lmtreedb::value::Value;
use lmtreedb::wrappers::DataWrapperV1;

fn copy_value(v: &Value) -> Value {
    match v {
        Value::Nil => Value::Nil,
        Value::Boolean(b) => Value::Boolean(*b),
        Value::Integer(n) => Value::Integer(*n),
        Value::F32(b) => Value::F32(*b),
        Value::F64(b) => Value::F64(*b),
        Value::String(s) => Value::String(s.clone()),
        Value::Binary(b) => Value::Binary(b.clone()),
        Value::Array(items) => Value::Array(items.iter().map(copy_value).collect()),
        Value::Pairs(pairs) => Value::Pairs(
            pairs.iter().map(|(k, v)| (copy_value(k), copy_value(v))).collect(),
        ),
        Value::Ext(t, b) => Value::Ext(*t, b.clone()),
    }
}

fn copy_record(r: &DataWrapperV1) -> DataWrapperV1 {
    DataWrapperV1 {
        children: r.children.clone(),
        version: r.version,
        data: copy_value(&r.data),
    }
}

/// Records kept in memory under their display keys, as an engine keeps them.
#[derive(Default)]
struct Engine {
    map: HashMap<String, DataWrapperV1>,
}

struct Db<'a> {
    engine: &'a mut Engine,
}

impl<'a> Db<'a> {
    fn connect(engine: &'a mut Engine) -> Result<Self, Error> {
        let existing = engine.map.get(&Path::root().to_string()).map(copy_record);
        if let Some(w) = plan_init_root(&existing) {
            apply(engine, vec![w]);
        }
        Ok(Db { engine })
    }

    fn read(&self, p: &Path) -> Option<DataWrapperV1> {
        self.engine.map.get(&p.to_string()).map(copy_record)
    }

    fn children(&self, p: Path) -> Result<Option<DataWrapperV1>, Error> {
        Ok(self.read(&p))
    }

    fn get<T: Schema>(&self, p: Path) -> Result<Option<T>, Error> {
        read_record::<T>(self.read(&p))
    }

    fn put<T: Schema>(&mut self, p: Path, v: T) -> Result<bool, Error> {
        let existing = self.read(&p);
        let parent = self.read(&p.pop().0);
        let payload = v.save()?;
        let plan = plan_put(&p, existing, parent, T::version(), payload)?;
        apply(self.engine, plan.writes);
        Ok(plan.overwrites_newer)
    }

    fn del(&mut self, p: Path) -> Result<(), Error> {
        let existing = self.read(&p);
        let parent = self.read(&p.pop().0);
        let writes = plan_del(&p, existing, parent)?;
        apply(self.engine, writes);
        Ok(())
    }
}

fn apply(engine: &mut Engine, writes: Vec<Write>) {
    for w in writes {
        match w.record {
            Some(r) => {
                engine.map.insert(w.path.to_string(), r);
            }
            None => {
                engine.map.remove(&w.path.to_string());
            }
        }
    }
}

#[derive(Debug)]
struct Test1 {
    data: i64,
}

#[derive(Debug)]
struct Test2 {
    data: f64,
}

impl SchemaDowngrade for Test1 {
    type NextVersion = Test2;

    fn downgrade(val: Test2) -> Result<Self, Error> {
        Ok(Self { data: val.data as i64 })
    }
}

impl SchemaUpgrade for Test2 {
    type PrevVersion = Test1;

    fn upgrade(val: Test1) -> Result<Self, Error> {
        Ok(Self { data: val.data as f64 })
    }
}

impl Schema for Test1 {
    const VERSION: u64 = 1;
    const PREV_VERSION: u64 = 0;
    const NEXT_VERSION: u64 = 2;
    fn version() -> u64 {
        Self::VERSION
    }
    fn load(val: Value) -> Result<Self, Error> {
        let data = val.as_i64().err_msg(ErrorPosition::unknown, || "Unable to load".to_string())?;
        Ok(Self { data })
    }
    fn save(self) -> Result<Value, Error> {
        Ok(Value::Integer(self.data as i128))
    }
    fn from_prev(_version: u64, _val: Value) -> Result<Self, Error> {
        Err(Error::new(ErrorKind::InvalidSchema, "first version"))
    }
    fn from_next(version: u64, val: Value) -> Result<Self, Error> {
        downgrade_from::<Self>(version, val)
    }
}

impl Schema for Test2 {
    const VERSION: u64 = 2;
    const PREV_VERSION: u64 = 1;
    const NEXT_VERSION: u64 = 0;
    fn version() -> u64 {
        Self::VERSION
    }
    fn load(val: Value) -> Result<Self, Error> {
        let bits = val.as_f64_bits().err_msg(ErrorPosition::unknown, || "Unable to load".to_string())?;
        Ok(Self { data: f64::from_bits(bits) })
    }
    fn save(self) -> Result<Value, Error> {
        Ok(Value::F64(self.data.to_bits()))
    }
    fn from_prev(version: u64, val: Value) -> Result<Self, Error> {
        upgrade_from::<Self>(version, val)
    }
    fn from_next(_version: u64, _val: Value) -> Result<Self, Error> {
        Err(Error::new(ErrorKind::InvalidSchema, "last version"))
    }
}

fn get_path() -> Path {
    Root::default().path().join("test")
}

fn kind<T>(r: Result<T, Error>) -> ErrorKind {
    match r {
        Ok(_) => panic!("expected an error"),
        Err(e) => e.kind(),
    }
}

#[test]
fn create_db() {
    let mut engine = Engine::default();
    let db = Db::connect(&mut engine).unwrap();
    let root = db.children(Root::default().path()).unwrap().unwrap();
    assert!(root.children.is_empty());
    assert_eq!(root.version, 1);
    assert!(root.data.is_nil());
}

#[test]
fn create_twice() {
    let mut engine = Engine::default();
    {
        let mut db = Db::connect(&mut engine).unwrap();
        db.put(get_path(), Test1 { data: 1 }).unwrap();
    }
    {
        let db = Db::connect(&mut engine).unwrap();
        let root = db.children(Root::default().path()).unwrap().unwrap();
        assert_eq!(root.children, vec!["test".to_string()]);
        assert_eq!(root.version, 1);
    }
}

#[test]
fn create_twice_nodrop() {
    let mut engine = Engine::default();
    Db::connect(&mut engine).unwrap();
    Db::connect(&mut engine).unwrap();
    assert_eq!(engine.map.len(), 1);
}

#[test]
fn put_get() {
    let mut engine = Engine::default();
    let mut db = Db::connect(&mut engine).unwrap();
    db.put(get_path(), Test1 { data: 5 }).unwrap();
    let data: Test1 = db.get(get_path()).unwrap().unwrap();
    assert_eq!(data.data, 5);
}

#[test]
fn upgrade() {
    let mut engine = Engine::default();
    let mut db = Db::connect(&mut engine).unwrap();
    db.put(get_path(), Test1 { data: 5 }).unwrap();
    let data: Test2 = db.get(get_path()).unwrap().unwrap();
    assert_eq!(data.data, 5.0);
}

#[test]
fn downgrade() {
    let mut engine = Engine::default();
    let mut db = Db::connect(&mut engine).unwrap();
    db.put(get_path(), Test2 { data: 5.3 }).unwrap();
    let data: Test1 = db.get(get_path()).unwrap().unwrap();
    assert_eq!(data.data, 5);
}

#[test]
fn overwrite() {
    let mut engine = Engine::default();
    let mut db = Db::connect(&mut engine).unwrap();
    db.put(get_path(), Test1 { data: 2 }).unwrap();
    db.put(get_path(), Test2 { data: 5.3 }).unwrap();
    let data: Test2 = db.get(get_path()).unwrap().unwrap();
    assert_eq!(data.data, 5.3);
}

#[test]
fn overwrite_downgrade() {
    let mut engine = Engine::default();
    let mut db = Db::connect(&mut engine).unwrap();
    db.put(get_path(), Test2 { data: 5.3 }).unwrap();
    let warned = db.put(get_path(), Test1 { data: 2 }).unwrap();
    assert!(warned);
    let data: Test2 = db.get(get_path()).unwrap().unwrap();
    assert_eq!(data.data, 2.0);
}

#[test]
fn del() {
    let mut engine = Engine::default();
    let mut db = Db::connect(&mut engine).unwrap();
    db.put(get_path(), Test2 { data: 5.3 }).unwrap();
    let data: Option<Test2> = db.get(get_path()).unwrap();
    assert!(data.is_some());
    db.del(get_path()).unwrap();
    let res: Option<Test1> = db.get(get_path()).unwrap();
    assert!(res.is_none());
}

#[test]
fn create_child() {
    let mut engine = Engine::default();
    let mut db = Db::connect(&mut engine).unwrap();
    db.put(get_path(), Test1 { data: 1 }).unwrap();
    db.put(get_path().join("hello"), Test1 { data: 1 }).unwrap();
    let info = db.children(get_path()).unwrap().unwrap();
    assert!(info.children.contains(&"hello".to_string()));
}

#[test]
fn remove_child() {
    let mut engine = Engine::default();
    let mut db = Db::connect(&mut engine).unwrap();
    db.put(get_path(), Test1 { data: 1 }).unwrap();
    db.put(get_path().join("hello"), Test1 { data: 1 }).unwrap();
    db.del(get_path().join("hello")).unwrap();
    let info = db.children(get_path()).unwrap().unwrap();
    assert!(info.children.is_empty());
}

#[test]
fn version_info() {
    let mut engine = Engine::default();
    let mut db = Db::connect(&mut engine).unwrap();
    db.put(get_path(), Test2 { data: 1.0 }).unwrap();
    let info = db.children(get_path()).unwrap().unwrap();
    assert_eq!(info.version, Test2::version());
}

#[test]
fn remove_parent_with_child() {
    let mut engine = Engine::default();
    let mut db = Db::connect(&mut engine).unwrap();
    db.put(get_path(), Test1 { data: 1 }).unwrap();
    db.put(get_path().join("a"), Test1 { data: 1 }).unwrap();
    let res = db.del(get_path());
    assert!(res.is_err());
    assert_eq!(kind(res), ErrorKind::HasChildren);
    let info = db.children(get_path()).unwrap().unwrap();
    assert_eq!(info.children, vec!["a".to_string()]);
    let kept: Test1 = db.get(get_path()).unwrap().unwrap();
    assert_eq!(kept.data, 1);
}

#[test]
fn create_child_no_parent() {
    let mut engine = Engine::default();
    let mut db = Db::connect(&mut engine).unwrap();
    let res = db.put(get_path().join("a"), Test1 { data: 1 });
    assert!(res.is_err());
    assert_eq!(kind(res), ErrorKind::NoParent);
    assert!(db.children(get_path().join("a")).unwrap().is_none());
}

#[test]
fn overwrite_keeps_children_and_parent() {
    let mut engine = Engine::default();
    let mut db = Db::connect(&mut engine).unwrap();
    db.put(get_path(), Test1 { data: 1 }).unwrap();
    db.put(get_path().join("c"), Test1 { data: 1 }).unwrap();
    let warned = db.put(get_path(), Test2 { data: 9.5 }).unwrap();
    assert!(!warned);
    let root = db.children(Root::default().path()).unwrap().unwrap();
    assert_eq!(root.children, vec!["test".to_string()]);
    let node = db.children(get_path()).unwrap().unwrap();
    assert_eq!(node.children, vec!["c".to_string()]);
    assert_eq!(node.version, 2);
}

#[test]
fn delete_missing_is_not_found() {
    let mut engine = Engine::default();
    let mut db = Db::connect(&mut engine).unwrap();
    assert_eq!(kind(db.del(get_path())), ErrorKind::NotFound);
}

#[test]
fn root_cannot_be_deleted() {
    let mut engine = Engine::default();
    let mut db = Db::connect(&mut engine).unwrap();
    assert_eq!(kind(db.del(Root::default().path())), ErrorKind::Corruption);
    assert!(db.children(Root::default().path()).unwrap().is_some());
}

#[test]
fn put_on_empty_path_is_invalid() {
    let p = Path::empty();
    let r = plan_put(&p, None, None, 1, Value::Nil);
    assert_eq!(kind(r), ErrorKind::InvalidPath);
}

#[test]
fn put_with_version_zero_is_reserved() {
    let r = plan_put(&get_path(), None, None, 0, Value::Nil);
    assert_eq!(kind(r), ErrorKind::ReservedVersion);
}

#[test]
fn delete_with_missing_parent_is_corruption() {
    let node = DataWrapperV1 { children: vec![], version: 1, data: Value::Nil };
    let r = plan_del(&get_path(), Some(node), None);
    assert_eq!(kind(r), ErrorKind::Corruption);
}

#[test]
fn delete_tolerates_missing_name_in_parent() {
    let node = DataWrapperV1 { children: vec![], version: 1, data: Value::Nil };
    let parent = DataWrapperV1 { children: vec!["other".to_string()], version: 1, data: Value::Nil };
    let writes = plan_del(&get_path(), Some(node), Some(parent)).unwrap();
    assert_eq!(writes.len(), 2);
    assert_eq!(writes[0].path.to_string(), "@root");
    assert_eq!(writes[0].record.as_ref().unwrap().children, vec!["other".to_string()]);
    assert_eq!(writes[1].path.to_string(), "@root/test");
    assert!(writes[1].record.is_none());
}

#[test]
fn put_plan_writes_parent_first() {
    let parent = DataWrapperV1 { children: vec![], version: 1, data: Value::Nil };
    let plan = plan_put(&get_path(), None, Some(parent), 3, Value::Integer(8)).unwrap();
    assert!(!plan.overwrites_newer);
    assert_eq!(plan.writes.len(), 2);
    assert_eq!(plan.writes[0].path.to_string(), "@root");
    assert_eq!(plan.writes[0].record.as_ref().unwrap().children, vec!["test".to_string()]);
    let rec = plan.writes[1].record.as_ref().unwrap();
    assert_eq!(plan.writes[1].path.to_string(), "@root/test");
    assert!(rec.children.is_empty());
    assert_eq!(rec.version, 3);
    assert_eq!(rec.data.as_i64(), Some(8));
}

#[test]
fn no_parent_message_names_parent() {
    let mut engine = Engine::default();
    let mut db = Db::connect(&mut engine).unwrap();
    match db.put(get_path().join("a"), Test1 { data: 1 }) {
        Err(e) => {
            assert_eq!(e.kind(), ErrorKind::NoParent);
            assert_eq!(e.message, Some("No parent '@root/test' found for '@root/test/a'".to_string()));
        }
        Ok(_) => panic!("expected an error"),
    }
}
