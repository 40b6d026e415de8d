//! The single error that a load can end in: what went wrong, and where.

use vstd::prelude::*;

verus! {

/// What was wrong with the document.
#[derive(Clone, Copy, PartialEq, Eq, Debug, Structural)]
pub enum ErrorKind {
    /// The text is not a well-formed document; `detail` holds the reader's message.
    Syntax,
    /// A string was expected at `path`.
    NotAString,
    /// An integer was expected at `path`.
    NotAnInteger,
    /// A boolean was expected at `path`.
    NotABoolean,
    /// An array was expected at `path`.
    NotAnArray,
    /// A table was expected at `path`.
    NotATable,
    /// The integer at `path` does not fit the field it is meant for.
    OutOfRange,
    /// The value at `path` names nothing that the field knows.
    InvalidValue,
    /// The last key of `path` is no absolute axis.
    InvalidAxisName,
    /// The last key of `path` is not part of the schema.
    UnrecognizedKey,
    /// The mandatory key that ends `path` is absent.
    Missing,
    /// A script refers to the device filter `detail`, which does not exist.
    UnknownScriptDevice,
    /// `detail` names both a device filter and a virtual device.
    NameCollision,
    /// A virtual device redirects force feedback to the device filter
    /// `detail`, which does not exist.
    UnknownRedirectTarget,
}

/// One step of the path that leads from the document's root to a node.
#[derive(Debug)]
pub enum Segment {
    Key(String),
    Index(usize),
}

/// A `Segment` as a mathematical value.
pub enum Step {
    Key(Seq<char>),
    Index(int),
}

impl View for Segment {
    type V = Step;

    open spec fn view(&self) -> Step {
        match self {
            Segment::Key(name) => Step::Key(name@),
            Segment::Index(nth) => Step::Index(*nth as int),
        }
    }
}

/// The steps that a path of segments stands for.
pub open spec fn steps(path: Seq<Segment>) -> Seq<Step> {
    Seq::new(path.len(), |i: int| path[i]@)
}

/// The error of a failed load.
#[derive(Debug)]
pub struct ConfigError {
    pub kind: ErrorKind,
    /// Where the fault lies, from the document's root; empty where the fault
    /// belongs to no single node.
    pub path: Vec<Segment>,
    /// The reader's message for `Syntax`, the offending name for the faults
    /// between sections, empty otherwise.
    pub detail: String,
}

/// A `ConfigError` as a mathematical value.
pub struct Failure {
    pub kind: ErrorKind,
    pub path: Seq<Step>,
    pub detail: Seq<char>,
}

impl Failure {
    /// A fault of the given kind at the node itself.
    pub open spec fn here(kind: ErrorKind) -> Failure {
        Failure { kind, path: Seq::empty(), detail: Seq::empty() }
    }

    /// A fault of the given kind at the entry `key` of the node.
    pub open spec fn at_key(kind: ErrorKind, key: Seq<char>) -> Failure {
        Failure { kind, path: seq![Step::Key(key)], detail: Seq::empty() }
    }

    /// A fault of the given kind at the item `nth` of the node.
    pub open spec fn at_index(kind: ErrorKind, nth: int) -> Failure {
        Failure { kind, path: seq![Step::Index(nth)], detail: Seq::empty() }
    }

    /// A fault between sections, about the name `detail`.
    pub open spec fn about(kind: ErrorKind, detail: Seq<char>) -> Failure {
        Failure { kind, path: Seq::empty(), detail }
    }

    /// The same fault seen from the parent node, which holds the faulty node
    /// under `step`.
    pub open spec fn within(self, step: Step) -> Failure {
        Failure { kind: self.kind, path: seq![step] + self.path, detail: self.detail }
    }

    /// The same fault seen from the parent table, which holds the faulty node
    /// under `key`.
    pub open spec fn under(self, key: Seq<char>) -> Failure {
        self.within(Step::Key(key))
    }

    /// The same fault seen from the parent array, which holds the faulty node
    /// as item `nth`.
    pub open spec fn item(self, nth: int) -> Failure {
        self.within(Step::Index(nth))
    }
}

impl View for ConfigError {
    type V = Failure;

    open spec fn view(&self) -> Failure {
        Failure { kind: self.kind, path: steps(self.path@), detail: self.detail@ }
    }
}

impl ConfigError {
    /// A fault of the given kind at the node itself.
    pub fn here(kind: ErrorKind) -> (error: ConfigError)
        ensures
            error@ == Failure::here(kind),
    {
        let error = ConfigError { kind, path: Vec::new(), detail: String::new() };
        assert(steps(error.path@) =~= Seq::empty());
        error
    }

    /// A fault of the given kind at the entry `key` of the node.
    pub fn at_key(kind: ErrorKind, key: &str) -> (error: ConfigError)
        ensures
            error@ == Failure::at_key(kind, key@),
    {
        let mut path: Vec<Segment> = Vec::new();
        path.push(Segment::Key(key.to_owned()));
        let error = ConfigError { kind, path, detail: String::new() };
        assert(steps(error.path@) =~= seq![Step::Key(key@)]);
        error
    }

    /// A fault of the given kind at the item `nth` of the node.
    pub fn at_index(kind: ErrorKind, nth: usize) -> (error: ConfigError)
        ensures
            error@ == Failure::at_index(kind, nth as int),
    {
        let mut path: Vec<Segment> = Vec::new();
        path.push(Segment::Index(nth));
        let error = ConfigError { kind, path, detail: String::new() };
        assert(steps(error.path@) =~= seq![Step::Index(nth as int)]);
        error
    }

    /// A fault between sections, about the name `detail`.
    pub fn about(kind: ErrorKind, detail: &str) -> (error: ConfigError)
        ensures
            error@ == Failure::about(kind, detail@),
    {
        let error = ConfigError { kind, path: Vec::new(), detail: detail.to_owned() };
        assert(steps(error.path@) =~= Seq::empty());
        error
    }

    /// The same fault seen from the parent table, which holds the faulty node
    /// under `key`.
    pub fn under(self, key: &str) -> (error: ConfigError)
        ensures
            error@ == self@.under(key@),
    {
        self.within(Segment::Key(key.to_owned()))
    }

    /// The same fault seen from the parent array, which holds the faulty node
    /// as item `nth`.
    pub fn item(self, nth: usize) -> (error: ConfigError)
        ensures
            error@ == self@.item(nth as int),
    {
        self.within(Segment::Index(nth))
    }

    /// The same fault seen from the parent node, which holds the faulty node
    /// under `step`.
    pub fn within(self, step: Segment) -> (error: ConfigError)
        ensures
            error@ == self@.within(step@),
    {
        let ghost before = self.path@;
        let mut path = self.path;
        path.insert(0, step);
        let error = ConfigError { kind: self.kind, path, detail: self.detail };
        assert(steps(error.path@) =~= seq![step@] + steps(before));
        error
    }
}

} // verus!
