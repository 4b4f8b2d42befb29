use lmtreedb::path::ChildTrait;
use lmtreedb::path::CdPath;
use lmtreedb::path::DynPath;
use lmtreedb::path::ExtendableDef;
use lmtreedb::path::NextChildDef;
use lmtreedb::path::NextChildVal;
use lmtreedb::path::Path;
use lmtreedb::path::PathPart;
use lmtreedb::path::Pathify;
use lmtreedb::path::ExtendableVal;
use lmtreedb::path::Root;

struct A(Path);

impl ExtendableDef for A {
    fn extend(parent: Path) -> Self {
        Self(parent.join("a"))
    }
}

impl PathPart for A {
    fn path(self) -> Path {
        self.0
    }
}

struct B(Path);

impl ExtendableDef for B {
    fn extend(parent: Path) -> Self {
        Self(parent.join("b"))
    }
}

impl PathPart for B {
    fn path(self) -> Path {
        self.0
    }
}

struct C(Path);

impl ExtendableDef for C {
    fn extend(parent: Path) -> Self {
        Self(parent.join("C"))
    }
}

impl PathPart for C {
    fn path(self) -> Path {
        self.0
    }
}

// Root -> A -> B
impl ChildTrait<Root> for A {}
impl ChildTrait<A> for B {}
// * -> C -> DynPath -> A
impl<T: PathPart> ChildTrait<T> for C {}
impl ChildTrait<C> for DynPath {}
impl ChildTrait<DynPath> for A {}

fn names(p: &Path) -> Vec<&str> {
    p.0.iter().map(|s| s.as_str()).collect()
}

#[test]
fn test_root() {
    let root = Root::default();
    assert_eq!(root.path().to_string(), "@root");
}

#[test]
fn test_b() {
    let root = Root::default();
    let a: A = root.child();
    let b: B = a.child();
    assert_eq!(b.into_string(), "@root/a/b");
}

#[test]
fn test_c() {
    let root = Root::default();
    let a: A = root.child();
    let c: C = a.child();
    assert_eq!(c.into_string(), "@root/a/C");
}

#[test]
fn test_num() {
    let root = Root::default();
    let a: A = root.child();
    let c: C = a.child();
    let n: DynPath = c.child_val(123);
    assert_eq!(n.into_string(), "@root/a/C/123");
}

#[test]
fn test_combine() {
    let root = Root::default();
    let n = root.child::<A>().child::<C>().child_val::<DynPath, _>(123);
    assert_eq!(n.into_string(), "@root/a/C/123");
}

#[test]
fn test_combine_more() {
    let root = Root::default();
    let n = root
        .child::<A>()
        .child::<C>()
        .child_val::<DynPath, _>(123)
        .child::<A>()
        .child::<C>()
        .child_val::<DynPath, _>(345);
    assert_eq!(n.into_string(), "@root/a/C/123/a/C/345");
}

#[test]
fn test_optional_root() {
    let n = Root::default().child::<A>();
    assert_eq!(n.into_string(), "@root/a");
}

#[test]
fn empty_path_displays_as_slash() {
    assert_eq!(Path::empty().to_string(), "/");
    assert_eq!(Path(vec![]).to_string(), "/");
}

#[test]
fn join_splits_on_slash() {
    let p = Path::root().join("x/y");
    assert_eq!(names(&p), vec!["@root", "x", "y"]);
    assert_eq!(p.to_string(), "@root/x/y");
}

#[test]
fn join_keeps_empty_pieces() {
    let p = Path::root().join("/x/");
    assert_eq!(names(&p), vec!["@root", "", "x", ""]);
    let q = Path::root().join("");
    assert_eq!(names(&q), vec!["@root", ""]);
}

#[test]
fn join_integers_in_decimal() {
    let p = Path::empty().join(0u64).join(-45i64).join(1234567890u64).join(u64::MAX);
    assert_eq!(names(&p), vec!["0", "-45", "1234567890", "18446744073709551615"]);
    let q = Path::empty().join(i64::MIN);
    assert_eq!(names(&q), vec!["-9223372036854775808"]);
}

#[test]
fn add_assign_appends() {
    let mut p = Path::root();
    p += "a/b";
    p += 7u32;
    p += String::from("z");
    assert_eq!(p.to_string(), "@root/a/b/7/z");
}

#[test]
fn pop_splits_last_name() {
    let p = Path::root().join("a").join("b");
    let (parent, name) = p.pop();
    assert_eq!(parent.to_string(), "@root/a");
    assert_eq!(name, Some("b".to_string()));
    let (same, none) = Path::empty().pop();
    assert_eq!(same.0.len(), 0);
    assert_eq!(none, None);
}

#[test]
fn pathify_appends_value() {
    let p: Pathify<u64> = ExtendableVal::extend(Path::root(), 42u64);
    assert_eq!(p.value, 42);
    assert_eq!(p.into_string(), "@root/42");
}

#[test]
fn classify_current_and_up() {
    assert!(matches!(CdPath::Auto(".".to_string()).non_auto(), CdPath::Current));
    assert!(matches!(CdPath::Auto("..".to_string()).non_auto(), CdPath::Up));
    assert!(matches!(CdPath::Selected.non_auto(), CdPath::Selected));
}

#[test]
fn classify_absolute() {
    match CdPath::Auto("@root/a".to_string()).non_auto() {
        CdPath::Absolute(p) => assert_eq!(names(&p), vec!["@root", "a"]),
        other => panic!("unexpected {:?}", other),
    }
    match CdPath::Auto("/x".to_string()).non_auto() {
        CdPath::Absolute(p) => assert_eq!(names(&p), vec!["", "x"]),
        other => panic!("unexpected {:?}", other),
    }
}

#[test]
fn classify_relative() {
    match CdPath::Auto("a/b".to_string()).non_auto() {
        CdPath::Relative(p) => assert_eq!(names(&p), vec!["a", "b"]),
        other => panic!("unexpected {:?}", other),
    }
    match CdPath::Auto("./x".to_string()).non_auto() {
        CdPath::Relative(p) => assert_eq!(names(&p), vec![".", "x"]),
        other => panic!("unexpected {:?}", other),
    }
    match CdPath::Auto("@ro".to_string()).non_auto() {
        CdPath::Relative(p) => assert_eq!(names(&p), vec!["@ro"]),
        other => panic!("unexpected {:?}", other),
    }
}

#[test]
fn plus_composes_paths() {
    let p = Path::root() + "a/b" + 5u64;
    assert_eq!(p.to_string(), "@root/a/b/5");
    assert_eq!(Root::default().path().0, vec!["@root".to_string()]);
}
