//! Statements as a syntax parser reports them: IRIs, blank node labels and
//! literals as they are written in the document, before blank node labels are
//! given document-independent identities.
use vstd::prelude::*;

verus! {

/// A literal as written in a document.
#[derive(Clone, Debug, PartialEq, Eq)]
pub enum RawLiteral {
    Simple { value: String },
    LanguageTagged { value: String, language: String },
    Typed { value: String, datatype: String },
}

/// The subject of a statement: an IRI, a blank node label or a quoted triple.
#[derive(Debug, PartialEq, Eq)]
pub enum RawSubject {
    NamedNode(String),
    BlankNode(String),
    Triple(Box<RawTriple>),
}

/// The object of a statement.
#[derive(Debug, PartialEq, Eq)]
pub enum RawTerm {
    NamedNode(String),
    BlankNode(String),
    Literal(RawLiteral),
    Triple(Box<RawTriple>),
}

/// A triple as written in a document; the predicate is an IRI.
#[derive(Debug, PartialEq, Eq)]
pub struct RawTriple {
    pub subject: RawSubject,
    pub predicate: String,
    pub object: RawTerm,
}

/// The graph name of a statement, when it has one.
#[derive(Clone, Debug, PartialEq, Eq)]
pub enum RawGraphName {
    NamedNode(String),
    BlankNode(String),
}

/// A quad as written in a document; `None` stands for the default graph.
#[derive(Debug, PartialEq, Eq)]
pub struct RawQuad {
    pub subject: RawSubject,
    pub predicate: String,
    pub object: RawTerm,
    pub graph_name: Option<RawGraphName>,
}

/// The blank node labels that occur in a subject.
pub open spec fn subject_labels(s: RawSubject) -> Set<Seq<char>>
    decreases s,
{
    match s {
        RawSubject::NamedNode(_) => Set::empty(),
        RawSubject::BlankNode(id) => set![id@],
        RawSubject::Triple(t) => triple_labels(*t),
    }
}

/// The blank node labels that occur in an object.
pub open spec fn term_labels(o: RawTerm) -> Set<Seq<char>>
    decreases o,
{
    match o {
        RawTerm::NamedNode(_) => Set::empty(),
        RawTerm::BlankNode(id) => set![id@],
        RawTerm::Literal(_) => Set::empty(),
        RawTerm::Triple(t) => triple_labels(*t),
    }
}

/// The blank node labels that occur in a triple.
pub open spec fn triple_labels(t: RawTriple) -> Set<Seq<char>>
    decreases t,
{
    subject_labels(t.subject).union(term_labels(t.object))
}

/// The blank node labels that occur in a graph name.
pub open spec fn graph_name_labels(g: Option<RawGraphName>) -> Set<Seq<char>> {
    match g {
        Some(RawGraphName::BlankNode(id)) => set![id@],
        _ => Set::empty(),
    }
}

/// The blank node labels that occur in a quad.
pub open spec fn quad_labels(q: RawQuad) -> Set<Seq<char>> {
    subject_labels(q.subject).union(term_labels(q.object)).union(graph_name_labels(q.graph_name))
}

/// The blank node labels that occur in a sequence of triples.
pub open spec fn triples_labels(ts: Seq<RawTriple>) -> Set<Seq<char>>
    decreases ts.len(),
{
    if ts.len() == 0 {
        Set::empty()
    } else {
        triples_labels(ts.drop_last()).union(triple_labels(ts.last()))
    }
}

/// The blank node labels that occur in a sequence of quads.
pub open spec fn quads_labels(qs: Seq<RawQuad>) -> Set<Seq<char>>
    decreases qs.len(),
{
    if qs.len() == 0 {
        Set::empty()
    } else {
        quads_labels(qs.drop_last()).union(quad_labels(qs.last()))
    }
}

} // verus!
