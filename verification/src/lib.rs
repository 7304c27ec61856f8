//! Reading RDF graphs and datasets: the decisions that turn the statements a
//! syntax parser reports into RDF triples and quads, with blank node labels
//! scoped to their document, and the errors raised on the way.
pub mod error;
pub mod iri;
pub mod laws;
pub mod mapper;
pub mod model;
pub mod raw;
pub mod read;

pub use error::{ParserError, SyntaxError, SyntaxErrorKind};
pub use mapper::RioMapper;
pub use model::{
    BlankNode, DatasetFormat, GraphFormat, GraphName, Literal, NamedNode, Quad, Subject, Term,
    Triple,
};
pub use raw::{RawGraphName, RawLiteral, RawQuad, RawSubject, RawTerm, RawTriple};
pub use read::{
    DatasetParser, GraphParser, QuadReader, QuadReaderKind, ReaderAction, StepOutcome,
    TripleReader, TripleReaderKind,
};
