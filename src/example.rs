//! What one documentation snippet describes, and the identifier that ties
//! commands and events for it together.
use vstd::prelude::*;
use crate::text::{bytes_of, decimal, push_all, push_decimal};

verus! {

/// A snippet's place: the file it stands in and the line it starts on.
pub struct ExampleId {
    pub path: String,
    pub line: usize,
}

impl View for ExampleId {
    type V = (Seq<char>, usize);

    open spec fn view(&self) -> (Seq<char>, usize) {
        (self.path@, self.line)
    }
}

/// `path:line`, the identifier as people read it.
pub open spec fn id_text(id: (Seq<char>, usize)) -> Seq<u8> {
    bytes_of(id.0) + seq![58u8] + decimal(id.1 as nat)
}

impl ExampleId {
    pub fn new(path: String, line: usize) -> (r: Self)
        ensures
            r.path == path,
            r.line == line,
    {
        ExampleId { path, line }
    }

    /// An identical copy.
    pub fn duplicate(&self) -> (r: Self)
        ensures
            r == *self,
    {
        ExampleId { path: self.path.clone(), line: self.line }
    }

    /// Whether both name the same place.
    pub fn same(&self, other: &Self) -> (r: bool)
        ensures
            r == (self@ == other@),
    {
        self.line == other.line && self.path == other.path
    }

    /// The identifier written out as `path:line`.
    pub fn to_text(&self) -> (r: Vec<u8>)
        ensures
            r@ == id_text(self@),
    {
        let mut out: Vec<u8> = Vec::new();
        push_all(&mut out, self.path.as_str().as_bytes());
        out.push(58u8);
        push_decimal(&mut out, self.line);
        assert(out@ =~= id_text(self@));
        out
    }
}

/// One step of an interactive script: the query to send and, where the
/// documentation shows one, the result it must produce.
pub struct ReplEntry {
    pub query: String,
    pub expected_result: Option<String>,
}

/// A documented interactive session.
pub struct ReplExample {
    pub id: ExampleId,
    pub entries: Vec<ReplEntry>,
}

/// A documented expression that must evaluate successfully.
pub struct ExpressionExample {
    pub id: ExampleId,
    pub expression: String,
}

pub enum Example {
    Repl(ReplExample),
    Expression(ExpressionExample),
}

impl Example {
    pub open spec fn spec_id(&self) -> ExampleId {
        match self {
            Example::Repl(e) => e.id,
            Example::Expression(e) => e.id,
        }
    }

    /// The snippet's identifier.
    pub fn id(&self) -> (r: &ExampleId)
        ensures
            *r == self.spec_id(),
    {
        match self {
            Example::Repl(e) => &e.id,
            Example::Expression(e) => &e.id,
        }
    }
}

} // verus!
