use vstd::prelude::*;

use crate::path::display;
use crate::path::lemma_split_nonempty;
use crate::path::split_by;
use crate::path::split_on;
use crate::path::split_slash;
use crate::path::CdPath;
use crate::path::Path;

verus! {

/// The shell's command names, in the order completion offers them.
pub open spec fn command_names() -> Seq<Seq<char>> {
    seq![
        seq!['c', 'd'],
        seq!['l', 's'],
        seq!['r', 'm'],
        seq!['r', 'e', 'a', 'd'],
        seq!['h', 'e', 'l', 'p'],
        seq!['q', 'u', 'i', 't'],
        seq!['e', 'x', 'i', 't'],
        seq!['d', 'b', 'g'],
        seq!['w', 'r', 'i', 't', 'e'],
    ]
}

/// The candidates that start with `input`, in their order.
pub open spec fn matching(cands: Seq<Seq<char>>, input: Seq<char>) -> Seq<Seq<char>>
    decreases cands.len(),
{
    if cands.len() == 0 {
        Seq::<Seq<char>>::empty()
    } else {
        let r = matching(cands.drop_last(), input);
        if input.is_prefix_of(cands.last()) {
            r.push(cands.last())
        } else {
            r
        }
    }
}

/// The completions of a command line: the matching command names while the
/// line is a single word, none once it has a space.
pub open spec fn completions(input: Seq<char>) -> Seq<Seq<char>> {
    if split_by(input, ' ').len() == 1 {
        matching(command_names(), input)
    } else {
        Seq::<Seq<char>>::empty()
    }
}

pub open spec fn views(v: Seq<String>) -> Seq<Seq<char>> {
    v.map_values(|s: String| s@)
}

/// Whether `s` starts with `prefix`.
pub fn starts_with(s: &str, prefix: &str) -> (r: bool)
    ensures
        r == prefix@.is_prefix_of(s@),
{
    let n = prefix.unicode_len();
    let m = s.unicode_len();
    if n > m {
        return false;
    }
    let mut i: usize = 0;
    while i < n
        invariant
            n == prefix@.len(),
            m == s@.len(),
            n <= m,
            i <= n,
            prefix@.take(i as int) =~= s@.take(i as int),
        decreases n - i,
    {
        if s.get_char(i) != prefix.get_char(i) {
            assert(s@.subrange(0, n as int)[i as int] != prefix@[i as int]);
            return false;
        }
        i = i + 1;
        assert(prefix@.take(i as int) =~= s@.take(i as int));
    }
    assert(prefix@ =~= s@.subrange(0, n as int));
    true
}

/// The command names that start with `input`.
pub fn commands(input: &str) -> (r: Vec<String>)
    ensures
        views(r@) == matching(command_names(), input@),
{
    proof {
        reveal_strlit("cd");
        reveal_strlit("ls");
        reveal_strlit("rm");
        reveal_strlit("read");
        reveal_strlit("help");
        reveal_strlit("quit");
        reveal_strlit("exit");
        reveal_strlit("dbg");
        reveal_strlit("write");
    }
    let cmds: Vec<&str> = vec!["cd", "ls", "rm", "read", "help", "quit", "exit", "dbg", "write"];
    let ghost names = command_names();
    assert("cd"@ =~= seq!['c', 'd']);
    assert("ls"@ =~= seq!['l', 's']);
    assert("rm"@ =~= seq!['r', 'm']);
    assert("read"@ =~= seq!['r', 'e', 'a', 'd']);
    assert("help"@ =~= seq!['h', 'e', 'l', 'p']);
    assert("quit"@ =~= seq!['q', 'u', 'i', 't']);
    assert("exit"@ =~= seq!['e', 'x', 'i', 't']);
    assert("dbg"@ =~= seq!['d', 'b', 'g']);
    assert("write"@ =~= seq!['w', 'r', 'i', 't', 'e']);
    assert(cmds@.map_values(|c: &str| c@) =~= names);
    let mut res: Vec<String> = Vec::new();
    let mut i: usize = 0;
    while i < cmds.len()
        invariant
            i <= cmds@.len(),
            cmds@.map_values(|c: &str| c@) == names,
            views(res@) == matching(names.take(i as int), input@),
        decreases cmds@.len() - i,
    {
        let c = cmds[i];
        assert(c@ == names[i as int]);
        assert(names.take(i + 1).drop_last() =~= names.take(i as int));
        if starts_with(c, input) {
            let ghost before = views(res@);
            res.push(String::from_str(c));
            assert(views(res@) =~= before.push(c@));
        }
        i = i + 1;
    }
    assert(names.take(i as int) =~= names);
    res
}

/// The completions of `input` (see `completions`).
pub fn find_possible(input: &str) -> (r: Vec<String>)
    ensures
        views(r@) == completions(input@),
{
    let pieces = split_on(input, ' ');
    if pieces.len() == 1 {
        commands(input)
    } else {
        let r: Vec<String> = Vec::new();
        assert(views(r@) =~= Seq::<Seq<char>>::empty());
        r
    }
}

/// Cycling completion of a command line: position 0 is the text as typed,
/// position `i > 0` the `i`-th candidate.
#[derive(Debug)]
pub struct Autocomplete {
    position: usize,
    possible: Vec<String>,
    typed: String,
    correct: bool,
}

impl Autocomplete {
    pub closed spec fn position_view(&self) -> nat {
        self.position as nat
    }

    pub closed spec fn possible_view(&self) -> Seq<Seq<char>> {
        views(self.possible@)
    }

    pub closed spec fn typed_view(&self) -> Seq<char> {
        self.typed@
    }

    /// The typed text was already exactly one complete command.
    pub closed spec fn correct_view(&self) -> bool {
        self.correct
    }

    pub closed spec fn wf(&self) -> bool {
        self.position <= self.possible@.len() && self.possible@.len() <= 9
    }

    /// Starts completing `input`, positioned on the first candidate.
    pub fn new(input: &str) -> (r: Self)
        ensures
            r.wf(),
            r.typed_view() == input@,
            r.correct_view() == (completions(input@).len() == 1 && completions(input@)[0]
                == input@),
            r.possible_view() == if r.correct_view() {
                Seq::<Seq<char>>::empty()
            } else {
                completions(input@)
            },
            r.position_view() == 1nat % (r.possible_view().len() + 1),
    {
        let mut possible = find_possible(input);
        proof {
            lemma_matching_len(command_names(), input@);
            assert(possible@.len() == views(possible@).len());
        }
        let typed = String::from_str(input);
        let correct = possible.len() == 1 && possible[0] == typed;
        if correct {
            possible.clear();
            assert(views(possible@) =~= Seq::<Seq<char>>::empty());
        }
        let mut res = Self { possible, correct, position: 0, typed };
        res.next();
        res
    }

    /// Moves to the next candidate, wrapping round to the typed text.
    pub fn next(&mut self)
        requires
            old(self).wf(),
        ensures
            final(self).wf(),
            final(self).position_view() == (old(self).position_view() + 1) % (
            old(self).possible_view().len() + 1),
            final(self).possible_view() == old(self).possible_view(),
            final(self).typed_view() == old(self).typed_view(),
            final(self).correct_view() == old(self).correct_view(),
    {
        self.position = (self.position + 1) % (self.possible.len() + 1);
    }

    /// The text at the current position.
    pub fn current(&self) -> (r: &str)
        requires
            self.wf(),
        ensures
            self.position_view() == 0 ==> r@ == self.typed_view(),
            self.position_view() > 0 ==> r@ == self.possible_view()[self.position_view() - 1],
    {
        if self.position == 0 {
            self.typed.as_str()
        } else {
            self.possible[self.position - 1].as_str()
        }
    }

    /// Gives back the text as typed.
    pub fn reset(self) -> (r: String)
        ensures
            r@ == self.typed_view(),
    {
        self.typed
    }

    /// Whether the line shows a complete or chosen command.
    pub fn highlight(&self) -> (r: bool)
        ensures
            r == (self.correct_view() || self.position_view() != 0),
    {
        self.correct || self.position != 0
    }
}

proof fn lemma_matching_len(cands: Seq<Seq<char>>, input: Seq<char>)
    ensures
        matching(cands, input).len() <= cands.len(),
    decreases cands.len(),
{
    if cands.len() > 0 {
        lemma_matching_len(cands.drop_last(), input);
    }
}

/// A command line, read.
#[derive(Debug)]
pub enum Command {
    /// An empty line: open the selected entry.
    Open,
    Cd(String),
    Ls,
    Rm,
    Write(String),
    Read,
    /// `read <schema>`.
    ReadAs(String),
    Dbg,
    Help,
    Exit,
    Unknown,
}

/// Reads a command line: its words are the pieces between spaces.
pub fn parse_command(input: &str) -> (r: Command)
    ensures
        input@.len() == 0 ==> r is Open,
        input@.len() > 0 ==> ({
            let p = split_by(input@, ' ');
            if p[0] == seq!['c', 'd'] && p.len() == 2 {
                r is Cd && r->Cd_0@ == p[1]
            } else if p[0] == seq!['l', 's'] && p.len() == 1 {
                r is Ls
            } else if p[0] == seq!['r', 'm'] && p.len() == 1 {
                r is Rm
            } else if p[0] == seq!['w', 'r', 'i', 't', 'e'] && p.len() == 2 {
                r is Write && r->Write_0@ == p[1]
            } else if p[0] == seq!['r', 'e', 'a', 'd'] && p.len() == 1 {
                r is Read
            } else if p[0] == seq!['d', 'b', 'g'] && p.len() == 1 {
                r is Dbg
            } else if p[0] == seq!['r', 'e', 'a', 'd'] && p.len() == 2 {
                r is ReadAs && r->ReadAs_0@ == p[1]
            } else if p[0] == seq!['h', 'e', 'l', 'p'] && p.len() == 1 {
                r is Help
            } else if (p[0] == seq!['e', 'x', 'i', 't'] || p[0] == seq!['q', 'u', 'i', 't'])
                && p.len() == 1 {
                r is Exit
            } else {
                r is Unknown
            }
        }),
{
    if input.unicode_len() == 0 {
        return Command::Open;
    }
    let mut words = split_on(input, ' ');
    proof {
        lemma_split_nonempty(input@, ' ');
        reveal_strlit("cd");
        reveal_strlit("ls");
        reveal_strlit("rm");
        reveal_strlit("write");
        reveal_strlit("read");
        reveal_strlit("dbg");
        reveal_strlit("help");
        reveal_strlit("exit");
        reveal_strlit("quit");
    }
    let ghost p = split_by(input@, ' ');
    assert(views(words@) == p);
    assert(words@[0]@ == p[0]);
    let n = words.len();
    let cmd = words[0].clone();
    let is = |name: &str| -> (b: bool)
        ensures
            b == (cmd@ == name@),
        { cmd == String::from_str(name) };
    if n == 2 {
        assert(words@[1]@ == p[1]);
        let arg = words.pop().unwrap();
        if is("cd") {
            assert("cd"@ =~= seq!['c', 'd']);
            return Command::Cd(arg);
        }
        if is("write") {
            assert("write"@ =~= seq!['w', 'r', 'i', 't', 'e']);
            return Command::Write(arg);
        }
        if is("read") {
            assert("read"@ =~= seq!['r', 'e', 'a', 'd']);
            return Command::ReadAs(arg);
        }
        assert("cd"@ =~= seq!['c', 'd']);
        assert("write"@ =~= seq!['w', 'r', 'i', 't', 'e']);
        assert("read"@ =~= seq!['r', 'e', 'a', 'd']);
        return Command::Unknown;
    }
    assert("cd"@ =~= seq!['c', 'd']);
    assert("ls"@ =~= seq!['l', 's']);
    assert("rm"@ =~= seq!['r', 'm']);
    assert("write"@ =~= seq!['w', 'r', 'i', 't', 'e']);
    assert("read"@ =~= seq!['r', 'e', 'a', 'd']);
    assert("dbg"@ =~= seq!['d', 'b', 'g']);
    assert("help"@ =~= seq!['h', 'e', 'l', 'p']);
    assert("exit"@ =~= seq!['e', 'x', 'i', 't']);
    assert("quit"@ =~= seq!['q', 'u', 'i', 't']);
    if n != 1 {
        return Command::Unknown;
    }
    if is("ls") {
        Command::Ls
    } else if is("rm") {
        Command::Rm
    } else if is("read") {
        Command::Read
    } else if is("dbg") {
        Command::Dbg
    } else if is("help") {
        Command::Help
    } else if is("exit") || is("quit") {
        Command::Exit
    } else {
        Command::Unknown
    }
}

/// The navigation target of a listed entry: `.` is the current path, `..`
/// its parent, any other name a child; no entry at `selected` means the
/// current path.
pub fn selected_entry(files: &Vec<String>, selected: usize) -> (r: CdPath)
    ensures
        selected >= files@.len() ==> r is Current,
        selected < files@.len() ==> ({
            let name = files@[selected as int]@;
            if name == seq!['.'] {
                r is Current
            } else if name == seq!['.', '.'] {
                r is Up
            } else {
                r is Relative && r->Relative_0@ == seq![name]
            }
        }),
{
    if selected >= files.len() {
        return CdPath::Current;
    }
    proof {
        reveal_strlit(".");
        reveal_strlit("..");
    }
    let name = files[selected].clone();
    let dot = String::from_str(".");
    let dotdot = String::from_str("..");
    assert(dot@ =~= seq!['.']);
    assert(dotdot@ =~= seq!['.', '.']);
    if name == dot {
        CdPath::Current
    } else if name == dotdot {
        CdPath::Up
    } else {
        let mut v: Vec<String> = Vec::new();
        v.push(name);
        let p = Path(v);
        assert(p@ =~= seq![files@[selected as int]@]);
        CdPath::Relative(p)
    }
}

/// The path a classified target designates from `current`. A relative path
/// is appended through its display form; `..` drops the last name, except at
/// a single-name path when `stop_at_root` is set. Text not yet classified and
/// the selection designate nothing.
pub fn target_path(current: &Path, target: CdPath, stop_at_root: bool) -> (r: Option<Path>)
    ensures
        match target {
            CdPath::Relative(rel) => r is Some && r->Some_0@ == current@ + split_slash(display(rel@)),
            CdPath::Absolute(abs) => r is Some && r->Some_0@ == abs@,
            CdPath::Up => r is Some && r->Some_0@ == if current@.len() == 0 || (stop_at_root
                && current@.len() == 1) {
                current@
            } else {
                current@.drop_last()
            },
            CdPath::Current => r is Some && r->Some_0@ == current@,
            _ => r is None,
        },
{
    match target {
        CdPath::Relative(rel) => {
            let text = rel.to_string();
            Some(current.clone().join(text))
        },
        CdPath::Absolute(abs) => Some(abs),
        CdPath::Up => {
            if stop_at_root && current.0.len() == 1 {
                Some(current.clone())
            } else {
                Some(current.pop().0)
            }
        },
        CdPath::Current => Some(current.clone()),
        _ => None,
    }
}

} // verus!
