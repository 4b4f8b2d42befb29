use vstd::prelude::*;

verus! {

/// The characters of a digit `d < 10`.
pub open spec fn digit_char(d: nat) -> char {
    if d == 0 { '0' }
    else if d == 1 { '1' }
    else if d == 2 { '2' }
    else if d == 3 { '3' }
    else if d == 4 { '4' }
    else if d == 5 { '5' }
    else if d == 6 { '6' }
    else if d == 7 { '7' }
    else if d == 8 { '8' }
    else { '9' }
}

/// The decimal text of a natural number, without leading zeros.
pub open spec fn decimal(n: nat) -> Seq<char>
    decreases n,
{
    if n < 10 {
        seq![digit_char(n)]
    } else {
        decimal(n / 10).push(digit_char(n % 10))
    }
}

/// The decimal text of an integer, with a leading `-` when negative.
pub open spec fn signed_decimal(n: int) -> Seq<char> {
    if n < 0 {
        seq!['-'] + decimal((-n) as nat)
    } else {
        decimal(n as nat)
    }
}

fn digit_str(d: u64) -> (r: &'static str)
    requires
        d < 10,
    ensures
        r@ == seq![digit_char(d as nat)],
{
    proof {
        reveal_strlit("0");
        reveal_strlit("1");
        reveal_strlit("2");
        reveal_strlit("3");
        reveal_strlit("4");
        reveal_strlit("5");
        reveal_strlit("6");
        reveal_strlit("7");
        reveal_strlit("8");
        reveal_strlit("9");
    }
    if d == 0 { "0" }
    else if d == 1 { "1" }
    else if d == 2 { "2" }
    else if d == 3 { "3" }
    else if d == 4 { "4" }
    else if d == 5 { "5" }
    else if d == 6 { "6" }
    else if d == 7 { "7" }
    else if d == 8 { "8" }
    else { "9" }
}

/// Writes `n` in decimal.
pub fn decimal_string(n: u64) -> (r: String)
    ensures
        r@ == decimal(n as nat),
{
    let mut rest: u64 = n;
    let mut out = String::new();
    while rest >= 10
        invariant
            decimal(n as nat) == decimal(rest as nat) + out@,
        decreases rest,
    {
        let d = digit_str(rest % 10);
        let next = String::from_str(d);
        let ghost old_out = out@;
        out = next.concat(out.as_str());
        assert(decimal(rest as nat) == decimal((rest / 10) as nat).push(digit_char((rest % 10) as nat)));
        assert(decimal(rest as nat) + old_out =~= decimal((rest / 10) as nat) + out@);
        rest = rest / 10;
    }
    let d = digit_str(rest);
    let r = String::from_str(d).concat(out.as_str());
    r
}

/// Writes `n` in decimal, with a leading `-` when negative.
pub fn signed_decimal_string(n: i64) -> (r: String)
    ensures
        r@ == signed_decimal(n as int),
{
    if n < 0 {
        let m: u64 = (-(n as i128)) as u64;
        let digits = decimal_string(m);
        proof {
            reveal_strlit("-");
        }
        String::from_str("-").concat(digits.as_str())
    } else {
        decimal_string(n as u64)
    }
}

/// A value that can stand as one or more path components: its text is split on `/`.
pub trait Segment {
    spec fn text(&self) -> Seq<char>;

    fn segment(&self) -> (r: String)
        ensures
            r@ == self.text(),
    ;
}

impl<'a> Segment for &'a str {
    open spec fn text(&self) -> Seq<char> {
        (**self)@
    }

    fn segment(&self) -> (r: String) {
        String::from_str(*self)
    }
}

impl Segment for String {
    open spec fn text(&self) -> Seq<char> {
        self@
    }

    fn segment(&self) -> (r: String) {
        self.clone()
    }
}

impl Segment for u64 {
    open spec fn text(&self) -> Seq<char> {
        decimal(*self as nat)
    }

    fn segment(&self) -> (r: String) {
        decimal_string(*self)
    }
}

impl Segment for u32 {
    open spec fn text(&self) -> Seq<char> {
        decimal(*self as nat)
    }

    fn segment(&self) -> (r: String) {
        decimal_string(*self as u64)
    }
}

impl Segment for usize {
    open spec fn text(&self) -> Seq<char> {
        decimal(*self as nat)
    }

    fn segment(&self) -> (r: String) {
        decimal_string(*self as u64)
    }
}

impl Segment for i64 {
    open spec fn text(&self) -> Seq<char> {
        signed_decimal(*self as int)
    }

    fn segment(&self) -> (r: String) {
        signed_decimal_string(*self)
    }
}

impl Segment for i32 {
    open spec fn text(&self) -> Seq<char> {
        signed_decimal(*self as int)
    }

    fn segment(&self) -> (r: String) {
        signed_decimal_string(*self as i64)
    }
}

/// The pieces of `s` between its `sep` characters, empty pieces included;
/// text without `sep` is one piece.
pub open spec fn split_by(s: Seq<char>, sep: char) -> Seq<Seq<char>>
    decreases s.len(),
{
    if s.len() == 0 {
        seq![Seq::<char>::empty()]
    } else {
        let r = split_by(s.drop_last(), sep);
        if s.last() == sep {
            r.push(Seq::<char>::empty())
        } else {
            r.update(r.len() - 1, r.last().push(s.last()))
        }
    }
}

/// The pieces of `s` between its `/` characters.
pub open spec fn split_slash(s: Seq<char>) -> Seq<Seq<char>> {
    split_by(s, '/')
}

pub proof fn lemma_split_nonempty(s: Seq<char>, sep: char)
    ensures
        split_by(s, sep).len() >= 1,
    decreases s.len(),
{
    if s.len() > 0 {
        lemma_split_nonempty(s.drop_last(), sep);
    }
}

/// The components joined by `/`.
pub open spec fn join_slash(parts: Seq<Seq<char>>) -> Seq<char>
    decreases parts.len(),
{
    if parts.len() == 0 {
        Seq::<char>::empty()
    } else if parts.len() == 1 {
        parts[0]
    } else {
        join_slash(parts.drop_last()) + seq!['/'] + parts.last()
    }
}

/// The display form of a path: its components joined by `/`, or `/` when it has none.
pub open spec fn display(parts: Seq<Seq<char>>) -> Seq<char> {
    if parts.len() == 0 {
        seq!['/']
    } else {
        join_slash(parts)
    }
}

/// Splits `s` on `/` into owned pieces.
pub fn split_on_slash(s: &str) -> (r: Vec<String>)
    ensures
        r@.map_values(|p: String| p@) == split_slash(s@),
{
    split_on(s, '/')
}

/// Splits `s` on `sep` into owned pieces.
pub fn split_on(s: &str, sep: char) -> (r: Vec<String>)
    ensures
        r@.map_values(|p: String| p@) == split_by(s@, sep),
{
    let n = s.unicode_len();
    let mut pieces: Vec<String> = Vec::new();
    let mut start: usize = 0;
    let mut i: usize = 0;
    assert(s@.take(0) =~= Seq::<char>::empty());
    assert(split_by(s@.take(0), sep) =~= pieces@.map_values(|p: String| p@).push(
        s@.subrange(0, 0),
    ));
    while i < n
        invariant
            n == s@.len(),
            start <= i <= n,
            split_by(s@.take(i as int), sep) == pieces@.map_values(|p: String| p@).push(
                s@.subrange(start as int, i as int),
            ),
        decreases n - i,
    {
        let c = s.get_char(i);
        let ghost prev = s@.take(i as int);
        assert(s@.take(i + 1).drop_last() =~= prev);
        if c == sep {
            let piece = String::from_str(s.substring_char(start, i));
            pieces.push(piece);
            start = i + 1;
            assert(s@.subrange(start as int, (i + 1) as int) =~= Seq::<char>::empty());
        } else {
            assert(s@.subrange(start as int, (i + 1) as int) =~= s@.subrange(
                start as int,
                i as int,
            ).push(c));
        }
        i = i + 1;
        assert(split_by(s@.take(i as int), sep) =~= pieces@.map_values(|p: String| p@).push(
            s@.subrange(start as int, i as int),
        ));
    }
    let last = String::from_str(s.substring_char(start, n));
    pieces.push(last);
    assert(s@.take(n as int) =~= s@);
    assert(pieces@.map_values(|p: String| p@) =~= split_by(s@, sep));
    pieces
}

/// All paths in the database use this type: a sequence of component names.
#[derive(Debug)]
pub struct Path(pub Vec<String>);

impl View for Path {
    type V = Seq<Seq<char>>;

    open spec fn view(&self) -> Seq<Seq<char>> {
        self.0@.map_values(|s: String| s@)
    }
}

/// The name of the root component.
pub open spec fn root_name() -> Seq<char> {
    seq!['@', 'r', 'o', 'o', 't']
}

/// The path `@root`.
pub open spec fn root_path() -> Seq<Seq<char>> {
    seq![root_name()]
}

impl Clone for Path {
    fn clone(&self) -> (r: Path)
        ensures
            r@ == self@,
    {
        let mut out: Vec<String> = Vec::new();
        let mut i: usize = 0;
        while i < self.0.len()
            invariant
                i <= self.0@.len(),
                out@.map_values(|s: String| s@) == self@.take(i as int),
            decreases self.0@.len() - i,
        {
            assert(self@[i as int] == self.0@[i as int]@);
            let ghost before = out@.map_values(|s: String| s@);
            let piece = self.0[i].clone();
            out.push(piece);
            assert(out@.map_values(|s: String| s@) =~= before.push(piece@));
            i = i + 1;
            assert(out@.map_values(|s: String| s@) =~= self@.take(i as int));
        }
        assert(self@.take(i as int) =~= self@);
        Path(out)
    }
}

impl Path {
    /// The path with no components.
    pub fn empty() -> (r: Path)
        ensures
            r@ == Seq::<Seq<char>>::empty(),
    {
        let r = Path(Vec::new());
        assert(r@ =~= Seq::<Seq<char>>::empty());
        r
    }

    /// The path `@root`.
    pub fn root() -> (r: Path)
        ensures
            r@ == root_path(),
    {
        proof {
            reveal_strlit("@root");
        }
        let mut v: Vec<String> = Vec::new();
        let name = String::from_str("@root");
        assert(name@ =~= root_name());
        v.push(name);
        let r = Path(v);
        assert(r@ =~= root_path());
        r
    }

    /// Splits this path into the parent path and the last name.
    /// A path without components gives no name.
    pub fn pop(&self) -> (r: (Path, Option<String>))
        ensures
            self@.len() == 0 ==> r.0@ == self@ && r.1 is None,
            self@.len() > 0 ==> r.0@ == self@.drop_last() && r.1 is Some && r.1->Some_0@
                == self@.last(),
    {
        let mut res = self.clone();
        let x = res.0.pop();
        assert(res@ =~= self@.drop_last() || self@.len() == 0);
        (res, x)
    }

    /// Appends the pieces of `s` between its `/` characters, in order.
    pub fn push_text(&mut self, s: &str)
        ensures
            final(self)@ == old(self)@ + split_slash(s@),
    {
        let pieces = split_on_slash(s);
        let mut i: usize = 0;
        let ghost start = self@;
        while i < pieces.len()
            invariant
                i <= pieces@.len(),
                pieces@.map_values(|p: String| p@) == split_slash(s@),
                self@ == start + split_slash(s@).take(i as int),
            decreases pieces@.len() - i,
        {
            assert(split_slash(s@)[i as int] == pieces@[i as int]@);
            let ghost before = self@;
            let piece = pieces[i].clone();
            self.0.push(piece);
            assert(self@ =~= before.push(piece@));
            i = i + 1;
            assert(self@ =~= start + split_slash(s@).take(i as int));
        }
        assert(split_slash(s@).take(i as int) =~= split_slash(s@));
    }

    /// Appends any segment; its text is split on `/`.
    pub fn push_segment<T: Segment>(&mut self, rhs: T)
        ensures
            final(self)@ == old(self)@ + split_slash(rhs.text()),
    {
        let s = rhs.segment();
        self.push_text(s.as_str());
    }

    /// This path followed by the pieces of `rhs` between its `/` characters.
    pub fn join<T: Segment>(self, rhs: T) -> (r: Path)
        ensures
            r@ == self@ + split_slash(rhs.text()),
    {
        let mut p = self;
        p.push_segment(rhs);
        p
    }

    /// The display form: components joined by `/`, or `/` for the empty path.
    pub fn to_string(&self) -> (r: String)
        ensures
            r@ == display(self@),
    {
        let n = self.0.len();
        if n == 0 {
            proof {
                reveal_strlit("/");
            }
            return String::from_str("/");
        }
        let mut out = self.0[0].clone();
        let mut i: usize = 1;
        while i < n
            invariant
                n == self@.len(),
                1 <= i <= n,
                out@ == join_slash(self@.take(i as int)),
            decreases n - i,
        {
            proof {
                reveal_strlit("/");
            }
            out.append("/");
            out.append(self.0[i].as_str());
            assert(self@.take(i + 1).drop_last() =~= self@.take(i as int));
            i = i + 1;
            assert(out@ =~= join_slash(self@.take(i as int)));
        }
        assert(self@.take(n as int) =~= self@);
        assert(join_slash(self@.take(1)) == self@[0]);
        out
    }
}

/// `+` makes no claim through the operator's generic specification; the
/// contract of `add` below states its result.
impl<T: Segment> vstd::std_specs::ops::AddSpecImpl<T> for Path {
    open spec fn obeys_add_spec() -> bool {
        false
    }

    open spec fn add_req(self, rhs: T) -> bool {
        true
    }

    open spec fn add_spec(self, rhs: T) -> Path {
        arbitrary()
    }
}

/// This path followed by the pieces of the segment between its `/` characters.
impl<T: Segment> std::ops::Add<T> for Path {
    type Output = Path;

    fn add(self, rhs: T) -> (r: Path)
        ensures
            r@ == self@ + split_slash(rhs.text()),
    {
        self.join(rhs)
    }
}

/// Appends any segment in place; its text is split on `/`.
impl<T: Segment> std::ops::AddAssign<T> for Path {
    fn add_assign(&mut self, rhs: T)
        ensures
            final(self)@ == old(self)@ + split_slash(rhs.text()),
    {
        self.push_segment(rhs);
    }
}

/// Marks which part types may follow a parent part type.
pub trait ChildTrait<Parent: PathPart> {

}

/// Part types that extend a parent path without an argument.
pub trait ExtendableDef: PathPart {
    fn extend(parent: Path) -> Self;
}

/// Creates a child part from a parent part, without an argument.
pub trait NextChildDef: PathPart {
    fn child<C>(self) -> (r: C) where C: ChildTrait<Self> + ExtendableDef
        ensures
            exists|p: Path| Self::path.ensures((self,), p) && #[trigger] C::extend.ensures((p,), r),
    ;
}

impl<T: PathPart> NextChildDef for T {
    fn child<C>(self) -> (r: C) where C: ChildTrait<Self> + ExtendableDef {
        let p = self.path();
        C::extend(p)
    }
}

/// Part types that extend a parent path with an argument.
pub trait ExtendableVal<T>: PathPart {
    fn extend(parent: Path, val: T) -> Self;
}

/// Creates a child part from a parent part, with an argument.
pub trait NextChildVal: PathPart {
    fn child_val<C, V>(self, val: V) -> (r: C) where C: ChildTrait<Self> + ExtendableVal<V>
        ensures
            exists|p: Path| Self::path.ensures((self,), p) && #[trigger] C::extend.ensures((p, val), r),
    ;
}

impl<T: PathPart> NextChildVal for T {
    fn child_val<C, V>(self, val: V) -> (r: C) where C: ChildTrait<Self> + ExtendableVal<V> {
        let p = self.path();
        C::extend(p, val)
    }
}

/// A typed part of a path.
pub trait PathPart: Sized {
    fn path(self) -> Path;

    /// The display form of the part's path.
    fn into_string(self) -> (r: String)
        ensures
            exists|p: Path| Self::path.ensures((self,), p) && r@ == display(p@),
    {
        let p = self.path();
        p.to_string()
    }
}

/// The root node of the database.
pub struct Root(Path);

impl View for Root {
    type V = Seq<Seq<char>>;

    closed spec fn view(&self) -> Seq<Seq<char>> {
        self.0@
    }
}

impl Default for Root {
    fn default() -> (r: Self)
        ensures
            r@ == root_path(),
    {
        Self(Path::root())
    }
}

impl PathPart for Root {
    fn path(self) -> (r: Path)
        ensures
            r@ == self@,
    {
        self.0
    }
}

/// A part that extends its parent with any segment.
pub struct DynPath(Path);

impl View for DynPath {
    type V = Seq<Seq<char>>;

    closed spec fn view(&self) -> Seq<Seq<char>> {
        self.0@
    }
}

impl<T: Segment> ExtendableVal<T> for DynPath {
    fn extend(parent: Path, val: T) -> (r: Self)
        ensures
            r@ == parent@ + split_slash(val.text()),
    {
        Self(parent.join(val))
    }
}

impl PathPart for DynPath {
    fn path(self) -> (r: Path)
        ensures
            r@ == self@,
    {
        self.0
    }
}

/// A part that keeps its value and appends it to the parent on demand.
pub struct Pathify<T: Segment> {
    parent: Path,
    pub value: T,
}

impl<T: Segment> View for Pathify<T> {
    type V = Seq<Seq<char>>;

    closed spec fn view(&self) -> Seq<Seq<char>> {
        self.parent@ + split_slash(self.value.text())
    }
}

impl<T: Segment> ExtendableVal<T> for Pathify<T> {
    fn extend(parent: Path, value: T) -> (r: Self)
        ensures
            r@ == parent@ + split_slash(value.text()),
    {
        Self { parent, value }
    }
}

impl<T: Segment> PathPart for Pathify<T> {
    fn path(self) -> (r: Path)
        ensures
            r@ == self@,
    {
        self.parent.join(self.value)
    }
}

/// A path as a user gives it to navigate the tree.
#[derive(Debug)]
pub enum CdPath {
    /// Relative to the current path.
    Relative(Path),
    /// From the root.
    Absolute(Path),
    /// Not yet classified text.
    Auto(String),
    /// Whatever entry is selected.
    Selected,
    /// The parent of the current path.
    Up,
    /// The current path itself.
    Current,
}

/// The text starts with `/` or with the root's name.
pub open spec fn is_absolute_text(a: Seq<char>) -> bool {
    (a.len() > 0 && a[0] == '/') || root_name().is_prefix_of(a)
}

impl CdPath {
    /// Classifies text into `.` (current), `..` (up), absolute (starting with
    /// `/` or with the root's name) or relative; other variants stay as they are.
    pub fn non_auto(self) -> (r: CdPath)
        ensures
            !(self is Auto) ==> r == self,
            self is Auto ==> ({
                let parts = split_slash(self->Auto_0@);
                if parts == seq![seq!['.']] {
                    r is Current
                } else if parts == seq![seq!['.', '.']] {
                    r is Up
                } else if is_absolute_text(self->Auto_0@) {
                    r is Absolute && r->Absolute_0@ == parts
                } else {
                    r is Relative && r->Relative_0@ == parts
                }
            }),
    {
        match self {
            CdPath::Auto(auto) => {
                let pieces = split_on_slash(auto.as_str());
                proof {
                    reveal_strlit(".");
                    reveal_strlit("..");
                    reveal_strlit("@root");
                    lemma_split_nonempty(auto@, '/');
                }
                let one = String::from_str(".");
                let two = String::from_str("..");
                assert(one@ =~= seq!['.']);
                assert(two@ =~= seq!['.', '.']);
                if pieces.len() == 1 && pieces[0] == one {
                    assert(pieces@.map_values(|p: String| p@)[0] == pieces@[0]@);
                    assert(pieces@.map_values(|p: String| p@) =~= seq![seq!['.']]);
                    return CdPath::Current;
                }
                if pieces.len() == 1 && pieces[0] == two {
                    assert(pieces@.map_values(|p: String| p@)[0] == pieces@[0]@);
                    assert(pieces@.map_values(|p: String| p@) =~= seq![seq!['.', '.']]);
                    return CdPath::Up;
                }
                proof {
                    if pieces@.len() == 1 {
                        assert(pieces@.map_values(|p: String| p@)[0] == pieces@[0]@);
                        assert(seq![seq!['.']][0] == seq!['.']);
                        assert(seq![seq!['.', '.']][0] == seq!['.', '.']);
                    }
                }
                let text = auto.as_str();
                let n = text.unicode_len();
                let slash = n > 0 && text.get_char(0) == '/';
                let rooted = if n >= 5 {
                    let head = String::from_str(text.substring_char(0, 5));
                    head == String::from_str("@root")
                } else {
                    false
                };
                assert(rooted == root_name().is_prefix_of(auto@)) by {
                    if n >= 5 {
                        assert("@root"@ =~= root_name());
                    }
                }
                let p = Path(pieces);
                if slash || rooted {
                    CdPath::Absolute(p)
                } else {
                    CdPath::Relative(p)
                }
            },
            other => other,
        }
    }
}

} // verus!
