use vstd::prelude::*;

use crate::path::decimal_string;
use crate::path::decimal;

verus! {

/// What went wrong, independent of where it was noticed.
#[derive(Clone, Copy, Debug, PartialEq, Eq, Structural)]
pub enum ErrorKind {
    /// A path that had to exist is absent.
    NotFound,
    /// A new node was put under a parent that does not exist.
    NoParent,
    /// A node with children was asked to be deleted.
    HasChildren,
    /// The operation cannot apply to this path (the root slot, an empty path).
    InvalidPath,
    /// A stored value does not have the expected shape.
    InvalidFormat,
    /// No chain of adjacent schema versions bridges the stored version.
    InvalidSchema,
    /// Version zero was used for data.
    ReservedVersion,
    /// The tree invariants were found broken.
    Corruption,
    /// The storage engine reported a failure.
    EngineError,
    /// Any other failure, described by its message.
    Other,
}

/// Where an error was noticed, with optional free-form context.
#[derive(Debug)]
pub struct ErrorPosition {
    pub file: &'static str,
    pub line: u32,
    pub column: u32,
    pub context: Option<String>,
}

/// An error with its kind, position, message and the error that caused it.
#[derive(Debug)]
pub struct Error {
    pub kind: ErrorKind,
    pub message: Option<String>,
    pub position: ErrorPosition,
    /// The error which caused this error to happen.
    pub previous: Option<Box<Error>>,
}

/// An error made usable where a boxed standard error is expected.
#[derive(Debug)]
pub struct ErrWrapper(pub Error);

pub open spec fn position_text(file: Seq<char>, line: u32, context: Option<Seq<char>>) -> Seq<char> {
    let head = file + seq![':'] + decimal(line as nat);
    match context {
        None => head,
        Some(ctx) => head + seq![' ', '('] + ctx + seq![')'],
    }
}

impl ErrorPosition {
    pub open spec fn text(&self) -> Seq<char> {
        position_text(
            self.file@,
            self.line,
            match self.context {
                None => None,
                Some(c) => Some(c@),
            },
        )
    }

    /// A position for errors whose origin is not known.
    pub fn unknown() -> (r: Self)
        ensures
            r.file@ == "<unknown>"@,
            r.line == 0,
            r.column == 0,
            r.context is None,
    {
        Self { file: "<unknown>", line: 0, column: 0, context: None }
    }

    /// `file:line`, followed by ` (context)` when there is a context.
    pub fn to_string(&self) -> (r: String)
        ensures
            r@ == self.text(),
    {
        let mut s = String::from_str(self.file);
        s.append(":");
        let n = decimal_string(self.line as u64);
        s.append(n.as_str());
        match &self.context {
            None => {},
            Some(ctx) => {
                s.append(" (");
                s.append(ctx.as_str());
                s.append(")");
            },
        }
        proof {
            reveal_strlit(":");
            reveal_strlit(" (");
            reveal_strlit(")");
        }
        assert(s@ =~= self.text());
        s
    }
}

pub open spec fn frame_text(position: Seq<char>, message: Option<Seq<char>>) -> Seq<char> {
    match message {
        None => seq!['[', '<'] + position + seq!['>', ']'],
        Some(m) => seq!['[', '<'] + position + seq!['>', ' '] + m + seq![']'],
    }
}

impl Error {
    pub open spec fn message_view(&self) -> Option<Seq<char>> {
        match self.message {
            None => None,
            Some(m) => Some(m@),
        }
    }

    /// The text of the whole chain, oldest cause first, one frame per line.
    pub open spec fn text(&self) -> Seq<char>
        decreases self,
    {
        let this = frame_text(self.position.text(), self.message_view());
        match self.previous {
            None => seq!['\n'] + this,
            Some(prev) => (*prev).text() + seq!['\n', ' ', ' ', ' ', '-', '>', ' '] + this,
        }
    }

    /// An error of the given kind with a message and an unknown position.
    pub fn new(kind: ErrorKind, msg: &str) -> (r: Self)
        ensures
            r.kind == kind,
            r.message_view() == Some(msg@),
            r.position.file@ == "<unknown>"@,
            r.position.line == 0,
            r.position.column == 0,
            r.position.context is None,
            r.previous is None,
    {
        Self {
            kind,
            message: Some(String::from_str(msg)),
            position: ErrorPosition::unknown(),
            previous: None,
        }
    }

    /// Creates a new error carrying only a position.
    pub fn pos(pos: ErrorPosition) -> (r: Self)
        ensures
            r.kind == ErrorKind::Other,
            r.message is None,
            r.position == pos,
            r.previous is None,
    {
        Self { kind: ErrorKind::Other, message: None, position: pos, previous: None }
    }

    /// Creates a new error with both message and position.
    pub fn msg(pos: ErrorPosition, msg: String) -> (r: Self)
        ensures
            r.kind == ErrorKind::Other,
            r.message == Some(msg),
            r.position == pos,
            r.previous is None,
    {
        Self { kind: ErrorKind::Other, message: Some(msg), position: pos, previous: None }
    }

    /// Makes this error the cause of `next` and returns `next`.
    ///
    /// The kind of a chain is the kind of its first cause, so context added
    /// on the way up never hides what went wrong.
    pub fn chain(self, next: Error) -> (r: Error)
        ensures
            r.kind == self.kind,
            r.message == next.message,
            r.position == next.position,
            r.previous == Some(Box::new(self)),
    {
        let mut next = next;
        next.kind = self.kind;
        next.previous = Some(Box::new(self));
        next
    }

    pub fn kind(&self) -> (r: ErrorKind)
        ensures
            r == self.kind,
    {
        self.kind
    }

    /// Wraps the error for use as a standard error.
    pub fn wrap(self) -> (r: ErrWrapper)
        ensures
            r.0 == self,
    {
        ErrWrapper(self)
    }

    /// The readable text of the whole chain of causes.
    pub fn to_string(&self) -> (r: String)
        ensures
            r@ == self.text(),
        decreases self,
    {
        let mut this = String::from_str("[<");
        let p = self.position.to_string();
        this.append(p.as_str());
        match &self.message {
            None => {
                this.append(">]");
            },
            Some(m) => {
                this.append("> ");
                this.append(m.as_str());
                this.append("]");
            },
        }
        proof {
            reveal_strlit("[<");
            reveal_strlit(">]");
            reveal_strlit("> ");
            reveal_strlit("]");
        }
        assert(this@ =~= frame_text(self.position.text(), self.message_view()));
        match &self.previous {
            None => {
                let mut s = String::from_str("\n");
                s.append(this.as_str());
                proof {
                    reveal_strlit("\n");
                }
                assert(s@ =~= self.text());
                s
            },
            Some(prev) => {
                let mut s = prev.to_string();
                s.append("\n   -> ");
                s.append(this.as_str());
                proof {
                    reveal_strlit("\n   -> ");
                }
                assert(s@ =~= self.text());
                s
            },
        }
    }
}

impl ErrWrapper {
    /// The wrapped error.
    pub fn error(&self) -> (r: &Error)
        ensures
            *r == self.0,
    {
        &self.0
    }
}

/// Adds context to the error of a `Result`.
pub trait ChainableResult: Sized {
    type Result;

    /// The value held, or the error.
    spec fn outcome(&self) -> Result<Self::Result, Error>;

    /// Sets an error message and position if this is an error.
    fn emsg<F, G>(self, pos: F, msg: G) -> (r: Result<Self::Result, Error>)
        where
            F: FnOnce() -> ErrorPosition,
            G: FnOnce() -> String,
        requires
            pos.requires(()),
            msg.requires(()),
        ensures
            self.outcome() is Ok ==> r == self.outcome(),
            self.outcome() is Err ==> r is Err && r->Err_0.previous == Some(
                Box::new(self.outcome()->Err_0),
            ) && r->Err_0.kind == self.outcome()->Err_0.kind && (exists|m: String|
                msg.ensures((), m) && r->Err_0.message == Some(m)),
    ;

    /// Sets only a position if this is an error.
    fn epos<F>(self, pos: F) -> (r: Result<Self::Result, Error>)
        where
            F: FnOnce() -> ErrorPosition,
        requires
            pos.requires(()),
        ensures
            self.outcome() is Ok ==> r == self.outcome(),
            self.outcome() is Err ==> r is Err && r->Err_0.previous == Some(
                Box::new(self.outcome()->Err_0),
            ) && r->Err_0.kind == self.outcome()->Err_0.kind && r->Err_0.message is None,
    ;
}

impl<R> ChainableResult for Result<R, Error> {
    type Result = R;

    open spec fn outcome(&self) -> Result<R, Error> {
        *self
    }

    fn emsg<F, G>(self, pos: F, msg: G) -> (r: Result<R, Error>)
        where
            F: FnOnce() -> ErrorPosition,
            G: FnOnce() -> String,
    {
        match self {
            Ok(val) => Ok(val),
            Err(err) => {
                let p = pos();
                let m = msg();
                Err(err.chain(Error::msg(p, m)))
            },
        }
    }

    fn epos<F>(self, pos: F) -> (r: Result<R, Error>)
        where
            F: FnOnce() -> ErrorPosition,
    {
        match self {
            Ok(val) => Ok(val),
            Err(err) => {
                let p = pos();
                Err(err.chain(Error::pos(p)))
            },
        }
    }
}

/// Turns a `Result` whose error is a message into one with an `Error`.
pub trait CastableResult: Sized {
    type Result;

    /// The value held, or the message.
    spec fn outcome(&self) -> Result<Self::Result, String>;

    fn cast<F>(self, pos: F) -> (r: Result<Self::Result, Error>)
        where
            F: FnOnce() -> ErrorPosition,
        requires
            pos.requires(()),
        ensures
            self.outcome() is Ok ==> r == Ok::<Self::Result, Error>(self.outcome()->Ok_0),
            self.outcome() is Err ==> r is Err && r->Err_0.message == Some(self.outcome()->Err_0)
                && r->Err_0.kind == ErrorKind::Other && r->Err_0.previous is None,
    ;
}

impl<R> CastableResult for Result<R, String> {
    type Result = R;

    open spec fn outcome(&self) -> Result<R, String> {
        *self
    }

    fn cast<F>(self, pos: F) -> (r: Result<R, Error>)
        where
            F: FnOnce() -> ErrorPosition,
    {
        match self {
            Ok(val) => Ok(val),
            Err(err) => {
                let p = pos();
                Err(Error::msg(p, err))
            },
        }
    }
}

/// Turns an absent value into an error.
pub trait IntoErr: Sized {
    type Result;

    /// The value held, if any.
    spec fn present(&self) -> Option<Self::Result>;

    fn err<F>(self, pos: F) -> (r: Result<Self::Result, Error>)
        where
            F: FnOnce() -> ErrorPosition,
        requires
            pos.requires(()),
        ensures
            self.present() is Some ==> r == Ok::<Self::Result, Error>(self.present()->Some_0),
            self.present() is None ==> r is Err && r->Err_0.kind == ErrorKind::Other
                && r->Err_0.message_view() == Some("Unwrap of None"@),
    ;

    fn err_msg<F, G>(self, pos: F, msg: G) -> (r: Result<Self::Result, Error>)
        where
            F: FnOnce() -> ErrorPosition,
            G: FnOnce() -> String,
        requires
            pos.requires(()),
            msg.requires(()),
        ensures
            self.present() is Some ==> r == Ok::<Self::Result, Error>(self.present()->Some_0),
            self.present() is None ==> r is Err && r->Err_0.kind == ErrorKind::Other && (exists|
                m: String,
            | msg.ensures((), m) && r->Err_0.message_view() == Some("Unwrap of None: "@ + m@)),
    ;
}

impl<T> IntoErr for Option<T> {
    type Result = T;

    open spec fn present(&self) -> Option<T> {
        *self
    }

    fn err<F>(self, pos: F) -> (r: Result<T, Error>)
        where
            F: FnOnce() -> ErrorPosition,
    {
        match self {
            Some(val) => Ok(val),
            None => {
                let p = pos();
                Err(Error::msg(p, String::from_str("Unwrap of None")))
            },
        }
    }

    fn err_msg<F, G>(self, pos: F, msg: G) -> (r: Result<T, Error>)
        where
            F: FnOnce() -> ErrorPosition,
            G: FnOnce() -> String,
    {
        match self {
            Some(val) => Ok(val),
            None => {
                let p = pos();
                let m = msg();
                let mut s = String::from_str("Unwrap of None: ");
                s.append(m.as_str());
                Err(Error::msg(p, s))
            },
        }
    }
}

} // verus!
