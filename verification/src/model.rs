//! The RDF data model that parsed documents are turned into.
use vstd::prelude::*;

verus! {

/// The IRI of the `xsd:string` datatype.
pub open spec fn xsd_string() -> Seq<char> {
    "http://www.w3.org/2001/XMLSchema#string"@
}

/// Tells whether `s` is the IRI of the `xsd:string` datatype.
pub fn is_xsd_string(s: &str) -> (r: bool)
    ensures
        r == (s@ == xsd_string()),
{
    let iri = "http://www.w3.org/2001/XMLSchema#string".to_owned();
    s.to_owned() == iri
}

/// An IRI node.
#[derive(Clone, Debug, PartialEq, Eq, Hash)]
pub struct NamedNode {
    pub iri: String,
}

impl NamedNode {
    /// Builds a named node from an IRI without validating it.
    pub fn new_unchecked(iri: &str) -> (n: NamedNode)
        ensures
            n.iri@ == iri@,
    {
        NamedNode { iri: iri.to_owned() }
    }

    /// The IRI of the node.
    pub fn as_str(&self) -> (s: &str)
        ensures
            s@ == self.iri@,
    {
        self.iri.as_str()
    }
}

/// A blank node, identified by a 128 bits number.
#[derive(Clone, Copy, Debug, PartialEq, Eq, Hash)]
pub struct BlankNode {
    pub id: u128,
}

/// Draws the identifier of a new blank node.
///
/// Calls `rand::random::<u128>()`: the number is random, so nothing is stated of it.
#[verifier::external_body]
fn random_blank_node_id() -> u128 {
    rand::random::<u128>()
}

impl BlankNode {
    /// Builds a blank node with a fresh random identifier.
    pub fn new_random() -> BlankNode {
        BlankNode { id: random_blank_node_id() }
    }

    /// The identifier of the node.
    pub fn id(&self) -> (r: u128)
        ensures
            r == self.id,
    {
        self.id
    }
}

/// An RDF literal.
#[derive(Clone, Debug, PartialEq, Eq, Hash)]
pub enum Literal {
    /// A literal of type `xsd:string`, without language tag.
    Simple { value: String },
    /// A literal with a language tag.
    LanguageTagged { value: String, language: String },
    /// A literal with a datatype other than `xsd:string`.
    Typed { value: String, datatype: NamedNode },
}

impl Literal {
    /// Builds a literal of type `xsd:string`.
    pub fn new_simple_literal(value: &str) -> (l: Literal)
        ensures
            l matches Literal::Simple { value: v } && v@ == value@,
    {
        Literal::Simple { value: value.to_owned() }
    }

    /// Builds a language tagged literal without validating the tag.
    pub fn new_language_tagged_literal_unchecked(value: &str, language: &str) -> (l: Literal)
        ensures
            l matches Literal::LanguageTagged { value: v, language: g } && v@ == value@ && g@
                == language@,
    {
        Literal::LanguageTagged { value: value.to_owned(), language: language.to_owned() }
    }

    /// Builds a literal with a datatype; a literal of type `xsd:string` is stored as a simple one.
    pub fn new_typed_literal(value: &str, datatype: NamedNode) -> (l: Literal)
        ensures
            datatype.iri@ == xsd_string() ==> (l matches Literal::Simple { value: v } && v@
                == value@),
            datatype.iri@ != xsd_string() ==> (l matches Literal::Typed { value: v, datatype: d }
                && v@ == value@ && d == datatype),
    {
        if is_xsd_string(datatype.as_str()) {
            Literal::Simple { value: value.to_owned() }
        } else {
            Literal::Typed { value: value.to_owned(), datatype }
        }
    }
}

/// The subject of a triple.
#[derive(Debug, PartialEq, Eq, Hash)]
pub enum Subject {
    NamedNode(NamedNode),
    BlankNode(BlankNode),
    Triple(Box<Triple>),
}

/// The object of a triple.
#[derive(Debug, PartialEq, Eq, Hash)]
pub enum Term {
    NamedNode(NamedNode),
    BlankNode(BlankNode),
    Literal(Literal),
    Triple(Box<Triple>),
}

/// An RDF triple.
#[derive(Debug, PartialEq, Eq, Hash)]
pub struct Triple {
    pub subject: Subject,
    pub predicate: NamedNode,
    pub object: Term,
}

/// The graph a quad belongs to.
#[derive(Clone, Debug, PartialEq, Eq, Hash)]
pub enum GraphName {
    NamedNode(NamedNode),
    BlankNode(BlankNode),
    DefaultGraph,
}

/// An RDF quad: a triple and the graph it belongs to.
#[derive(Debug, PartialEq, Eq, Hash)]
pub struct Quad {
    pub subject: Subject,
    pub predicate: NamedNode,
    pub object: Term,
    pub graph_name: GraphName,
}

/// An error raised while parsing an RDF term from its textual form.
#[derive(Clone, Debug, PartialEq, Eq)]
pub struct TermParseError {
    /// What is wrong with the text.
    pub message: String,
}

/// The serialization formats of RDF graphs.
#[derive(Clone, Copy, Debug, PartialEq, Eq, Hash)]
pub enum GraphFormat {
    NTriples,
    Turtle,
    RdfXml,
}

/// The serialization formats of RDF datasets.
#[derive(Clone, Copy, Debug, PartialEq, Eq, Hash)]
pub enum DatasetFormat {
    NQuads,
    TriG,
}

} // verus!
