//! Parsers for RDF graph and dataset serialization formats.
//!
//! A [`GraphParser`] or [`DatasetParser`] holds the format and the base IRI of a
//! document. Reading gives a [`TripleReader`] or [`QuadReader`]: the state of one
//! document being read. The syntax parser that pulls the bytes runs outside of it;
//! the reader decides, on each call of `next`, what the iteration yields, from what
//! the syntax parser reported last.
use vstd::prelude::*;
use crate::error::ParserError;
use crate::iri::{iri_is_valid, iri_parse_error, parse_iri};
use crate::mapper::{
    extends_with, fresh_extension, law_fresh_extension_chains, lemma_fresh_extension_same,
    lemma_quad_mapped_grow, lemma_triple_mapped_grow, quad_mapped, triple_mapped,
    LabelMap, RioMapper,
};
use crate::model::{DatasetFormat, GraphFormat, Quad, Triple};
use crate::raw::{quads_labels, triples_labels, RawQuad, RawTriple};

verus! {

/// The text of an optional string.
pub open spec fn opt_view(o: Option<String>) -> Option<Seq<char>> {
    match o {
        Some(s) => Some(s@),
        None => None,
    }
}

/// What the syntax parser reported for one step of its work.
pub enum StepOutcome<S> {
    /// The document is read to its end: there is nothing more to parse.
    End,
    /// The statements the step produced, in order, and the error that stopped it, if any.
    Parsed { statements: Vec<S>, error: Option<ParserError> },
}

/// What a reader decides on a call of `next`.
pub enum ReaderAction<T> {
    /// The iteration yields this statement.
    Emit(T),
    /// The iteration yields this error.
    Fail(ParserError),
    /// The iteration is over.
    Done,
    /// The syntax parser has to run one step, and its outcome be handed to `next`.
    NeedStep,
}

/// Taking the next statement out of `buffer`: the last one added, if any.
pub open spec fn polled<T>(buffer: Seq<T>, next_buffer: Seq<T>, action: ReaderAction<T>) -> bool {
    if buffer.len() > 0 {
        action == ReaderAction::<T>::Emit(buffer.last()) && next_buffer == buffer.drop_last()
    } else {
        action is NeedStep && next_buffer == buffer
    }
}

/// Each triple of `ts` is the model triple of the statement of `raws` at the same place.
pub open spec fn triples_mapped(raws: Seq<RawTriple>, m: LabelMap, ts: Seq<Triple>) -> bool {
    &&& raws.len() == ts.len()
    &&& forall|i: int| 0 <= i < raws.len() ==> #[trigger] triple_mapped(raws[i], m, ts[i])
}

/// Each quad of `qs` is the model quad of the statement of `raws` at the same place.
pub open spec fn quads_mapped(raws: Seq<RawQuad>, m: LabelMap, qs: Seq<Quad>) -> bool {
    &&& raws.len() == qs.len()
    &&& forall|i: int| 0 <= i < raws.len() ==> #[trigger] quad_mapped(raws[i], m, qs[i])
}

// ---------------------------------------------------------------------------------------
// Graphs
// ---------------------------------------------------------------------------------------
/// A parser for RDF graph serialization formats: N-Triples, Turtle and RDF/XML.
pub struct GraphParser {
    format: GraphFormat,
    base_iri: Option<String>,
}

/// The format and the base IRI of a graph parser.
pub struct GraphParserView {
    pub format: GraphFormat,
    pub base_iri: Option<Seq<char>>,
}

impl View for GraphParser {
    type V = GraphParserView;

    closed spec fn view(&self) -> GraphParserView {
        GraphParserView { format: self.format, base_iri: opt_view(self.base_iri) }
    }
}

/// The syntax parser that reads a graph, with the base IRI it is given.
pub enum TripleReaderKind {
    NTriples,
    Turtle { base_iri: Option<String> },
    RdfXml { base_iri: Option<String> },
}

/// `kind` is the syntax parser of `format` with the base IRI `base`; N-Triples takes none.
pub open spec fn triple_kind_for(
    format: GraphFormat,
    base: Option<Seq<char>>,
    kind: TripleReaderKind,
) -> bool {
    match format {
        GraphFormat::NTriples => kind is NTriples,
        GraphFormat::Turtle => kind matches TripleReaderKind::Turtle { base_iri: b } && opt_view(b)
            == base,
        GraphFormat::RdfXml => kind matches TripleReaderKind::RdfXml { base_iri: b } && opt_view(b)
            == base,
    }
}

/// The base IRI of `kind`, if any, is a valid IRI.
pub open spec fn triple_kind_base_is_valid(kind: TripleReaderKind) -> bool {
    match kind {
        TripleReaderKind::Turtle { base_iri: Some(b) } => iri_is_valid(b@),
        TripleReaderKind::RdfXml { base_iri: Some(b) } => iri_is_valid(b@),
        _ => true,
    }
}

fn clone_base_iri(base_iri: &Option<String>) -> (r: Option<String>)
    ensures
        r == *base_iri,
{
    match base_iri {
        Some(b) => Some(b.clone()),
        None => None,
    }
}

impl GraphParser {
    #[verifier::type_invariant]
    spec fn base_iri_is_valid(self) -> bool {
        self.base_iri matches Some(b) ==> iri_is_valid(b@)
    }

    /// Builds a parser for the given format.
    pub fn from_format(format: GraphFormat) -> (p: GraphParser)
        ensures
            p@ == (GraphParserView { format, base_iri: None }),
    {
        GraphParser { format, base_iri: None }
    }

    /// Provides an IRI that could be used to resolve the file relative IRIs.
    pub fn with_base_iri(self, base_iri: &str) -> (r: Result<GraphParser, oxiri::IriParseError>)
        ensures
            r is Ok <==> iri_is_valid(base_iri@),
            r matches Err(e) ==> iri_parse_error(base_iri@) == Some(e),
            r matches Ok(p) ==> p@ == (GraphParserView {
                format: self@.format,
                base_iri: Some(base_iri@),
            }),
    {
        match parse_iri(base_iri.to_owned()) {
            Ok(iri) => Ok(GraphParser { format: self.format, base_iri: Some(iri) }),
            Err(error) => Err(error),
        }
    }

    /// The format of the parser.
    pub fn format(&self) -> (f: GraphFormat)
        ensures
            f == self@.format,
    {
        self.format
    }

    /// The base IRI of the parser; it is a valid IRI.
    pub fn base_iri(&self) -> (r: Option<&str>)
        ensures
            r matches Some(b) ==> self@.base_iri == Some(b@) && iri_is_valid(b@),
            r is None ==> self@.base_iri is None,
    {
        proof {
            use_type_invariant(self);
        }
        match &self.base_iri {
            Some(b) => Some(b.as_str()),
            None => None,
        }
    }

    /// Starts reading a document: the reader of the parser's format and base IRI,
    /// with no blank node label met and no triple waiting.
    pub fn read_triples(&self) -> (r: Result<TripleReader, ParserError>)
        ensures
            r matches Ok(reader) && {
                &&& triple_kind_for(self@.format, self@.base_iri, reader@.kind)
                &&& triple_kind_base_is_valid(reader@.kind)
                &&& reader@.labels == LabelMap::empty()
                &&& reader@.buffer == Seq::<Triple>::empty()
            },
    {
        proof {
            use_type_invariant(self);
        }
        let kind = match self.format {
            GraphFormat::NTriples => TripleReaderKind::NTriples,
            GraphFormat::Turtle => TripleReaderKind::Turtle {
                base_iri: clone_base_iri(&self.base_iri),
            },
            GraphFormat::RdfXml => TripleReaderKind::RdfXml {
                base_iri: clone_base_iri(&self.base_iri),
            },
        };
        Ok(TripleReader { mapper: RioMapper::new(), kind, buffer: Vec::new() })
    }
}

/// The state of one graph document being read.
#[must_use]
pub struct TripleReader {
    mapper: RioMapper,
    kind: TripleReaderKind,
    buffer: Vec<Triple>,
}

/// The syntax parser, the blank nodes given so far and the triples waiting to be yielded.
pub struct TripleReaderView {
    pub kind: TripleReaderKind,
    pub labels: LabelMap,
    pub buffer: Seq<Triple>,
}

impl View for TripleReader {
    type V = TripleReaderView;

    closed spec fn view(&self) -> TripleReaderView {
        TripleReaderView { kind: self.kind, labels: self.mapper@, buffer: self.buffer@ }
    }
}

/// One call of `TripleReader::next` from the state `old` with `step` gives `action` and `new`.
///
/// Without a step outcome, the last waiting triple is yielded, or a step is asked for.
/// At the end of the document, triples still waiting are yielded first, and then the
/// iteration is over. The statements of a step become
/// triples, with the blank node labels of the document, and wait behind the ones
/// already waiting; an error of the step is yielded at once, otherwise the last
/// waiting triple is.
pub open spec fn triple_reader_next(
    old: TripleReaderView,
    step: Option<StepOutcome<RawTriple>>,
    new: TripleReaderView,
    action: ReaderAction<Triple>,
) -> bool {
    &&& new.kind == old.kind
    &&& fresh_extension(old.labels, new.labels)
    &&& match step {
        None => new.labels == old.labels && polled(old.buffer, new.buffer, action),
        Some(StepOutcome::End) => if old.buffer.len() > 0 {
            new.labels == old.labels && polled(old.buffer, new.buffer, action)
        } else {
            new == old && action is Done
        },
        Some(StepOutcome::Parsed { statements, error }) => exists|mapped: Seq<Triple>|
            #![trigger triples_mapped(statements@, new.labels, mapped)]
            {
                &&& extends_with(old.labels, new.labels, triples_labels(statements@))
                &&& triples_mapped(statements@, new.labels, mapped)
                &&& match error {
                    Some(e) => action == ReaderAction::<Triple>::Fail(e) && new.buffer
                        == old.buffer + mapped,
                    None => polled(old.buffer + mapped, new.buffer, action),
                }
            },
    }
}

impl TripleReader {
    /// The syntax parser that has to read the document.
    pub fn kind(&self) -> (k: &TripleReaderKind)
        ensures
            *k == self@.kind,
    {
        &self.kind
    }

    /// The number of triples waiting to be yielded.
    pub fn waiting(&self) -> (n: usize)
        ensures
            n == self@.buffer.len(),
    {
        self.buffer.len()
    }

    /// Decides what the iteration yields next; `step` is the outcome of the step of
    /// the syntax parser asked for last, if any.
    pub fn next(&mut self, step: Option<StepOutcome<RawTriple>>) -> (action: ReaderAction<Triple>)
        ensures
            triple_reader_next(old(self)@, step, final(self)@, action),
    {
        proof {
            lemma_fresh_extension_same(self.mapper@);
        }
        match step {
            None => self.pop_waiting(),
            Some(outcome) => match self.read(outcome) {
                None => if self.buffer.len() == 0 {
                    ReaderAction::Done
                } else {
                    self.pop_waiting()
                },
                Some(Err(error)) => ReaderAction::Fail(error),
                Some(Ok(())) => self.pop_waiting(),
            },
        }
    }

    /// Yields the last waiting triple, if any.
    fn pop_waiting(&mut self) -> (action: ReaderAction<Triple>)
        ensures
            final(self)@.kind == old(self)@.kind,
            final(self)@.labels == old(self)@.labels,
            polled(old(self)@.buffer, final(self)@.buffer, action),
    {
        match self.buffer.pop() {
            Some(triple) => ReaderAction::Emit(triple),
            None => ReaderAction::NeedStep,
        }
    }

    /// Takes in what a step of the syntax parser produced.
    fn read(&mut self, outcome: StepOutcome<RawTriple>) -> (r: Option<Result<(), ParserError>>)
        ensures
            final(self)@.kind == old(self)@.kind,
            fresh_extension(old(self)@.labels, final(self)@.labels),
            match outcome {
                StepOutcome::End => r is None && final(self)@ == old(self)@,
                StepOutcome::Parsed { statements, error } => exists|mapped: Seq<Triple>|
                    #![trigger triples_mapped(statements@, final(self)@.labels, mapped)]
                    {
                        &&& extends_with(
                            old(self)@.labels,
                            final(self)@.labels,
                            triples_labels(statements@),
                        )
                        &&& triples_mapped(statements@, final(self)@.labels, mapped)
                        &&& final(self)@.buffer == old(self)@.buffer + mapped
                        &&& match error {
                            Some(e) => r == Some(Err::<(), ParserError>(e)),
                            None => r == Some(Ok::<(), ParserError>(())),
                        }
                    },
            },
    {
        proof {
            lemma_fresh_extension_same(self.mapper@);
        }
        match outcome {
            StepOutcome::End => None,
            StepOutcome::Parsed { statements, error } => {
                let ghost old_buffer = self.buffer@;
                let ghost old_labels = self.mapper@;
                proof {
                    lemma_fresh_extension_same(old_labels);
                }
                let ghost mut mapped: Seq<Triple> = Seq::empty();
                let mut i: usize = 0;
                assert(statements@.take(0) =~= Seq::<RawTriple>::empty());
                assert(self.mapper@.dom() =~= old_labels.dom().union(
                    triples_labels(statements@.take(0)),
                ));
                while i < statements.len()
                    invariant
                        0 <= i <= statements.len(),
                        self.kind == old(self).kind,
                        self.buffer@ == old_buffer + mapped,
                        fresh_extension(old_labels, self.mapper@),
                        triples_mapped(statements@.take(i as int), self.mapper@, mapped),
                        extends_with(
                            old_labels,
                            self.mapper@,
                            triples_labels(statements@.take(i as int)),
                        ),
                    decreases statements.len() - i,
                {
                    let ghost before = self.mapper@;
                    let triple = self.mapper.triple(&statements[i]);
                    proof {
                        assert forall|j: int| 0 <= j < mapped.len() implies #[trigger] triple_mapped(
                            statements@.take(i + 1)[j],
                            self.mapper@,
                            mapped.push(triple)[j],
                        ) by {
                            assert(statements@.take(i + 1)[j] == statements@.take(i as int)[j]);
                            lemma_triple_mapped_grow(
                                statements@.take(i as int)[j],
                                before,
                                self.mapper@,
                                mapped[j],
                            );
                        }
                        assert(statements@.take(i + 1)[i as int] == statements@[i as int]);
                        assert(mapped.push(triple)[i as int] == triple);
                        assert(statements@.take(i + 1).drop_last() =~= statements@.take(i as int));
                        vstd::map_lib::lemma_submap_of_trans(old_labels, before, self.mapper@);
                        law_fresh_extension_chains(old_labels, before, self.mapper@);
                        assert(self.mapper@.dom() =~= old_labels.dom().union(
                            triples_labels(statements@.take(i + 1)),
                        ));
                        mapped = mapped.push(triple);
                    }
                    self.buffer.push(triple);
                    i = i + 1;
                }
                assert(statements@.take(i as int) =~= statements@);
                assert(triples_mapped(statements@, self@.labels, mapped));
                assert(extends_with(old_labels, self@.labels, triples_labels(statements@)));
                match error {
                    Some(e) => Some(Err(e)),
                    None => Some(Ok(())),
                }
            },
        }
    }
}

// ---------------------------------------------------------------------------------------
// Datasets
// ---------------------------------------------------------------------------------------
/// A parser for RDF dataset serialization formats: N-Quads and TriG.
pub struct DatasetParser {
    format: DatasetFormat,
    base_iri: Option<String>,
}

/// The format and the base IRI of a dataset parser.
pub struct DatasetParserView {
    pub format: DatasetFormat,
    pub base_iri: Option<Seq<char>>,
}

impl View for DatasetParser {
    type V = DatasetParserView;

    closed spec fn view(&self) -> DatasetParserView {
        DatasetParserView { format: self.format, base_iri: opt_view(self.base_iri) }
    }
}

/// The syntax parser that reads a dataset, with the base IRI it is given.
pub enum QuadReaderKind {
    NQuads,
    TriG { base_iri: Option<String> },
}

/// `kind` is the syntax parser of `format` with the base IRI `base`; N-Quads takes none.
pub open spec fn quad_kind_for(
    format: DatasetFormat,
    base: Option<Seq<char>>,
    kind: QuadReaderKind,
) -> bool {
    match format {
        DatasetFormat::NQuads => kind is NQuads,
        DatasetFormat::TriG => kind matches QuadReaderKind::TriG { base_iri: b } && opt_view(b)
            == base,
    }
}

/// The base IRI of `kind`, if any, is a valid IRI.
pub open spec fn quad_kind_base_is_valid(kind: QuadReaderKind) -> bool {
    match kind {
        QuadReaderKind::TriG { base_iri: Some(b) } => iri_is_valid(b@),
        _ => true,
    }
}

impl DatasetParser {
    #[verifier::type_invariant]
    spec fn base_iri_is_valid(self) -> bool {
        self.base_iri matches Some(b) ==> iri_is_valid(b@)
    }

    /// Builds a parser for the given format.
    pub fn from_format(format: DatasetFormat) -> (p: DatasetParser)
        ensures
            p@ == (DatasetParserView { format, base_iri: None }),
    {
        DatasetParser { format, base_iri: None }
    }

    /// Provides an IRI that could be used to resolve the file relative IRIs.
    pub fn with_base_iri(self, base_iri: &str) -> (r: Result<DatasetParser, oxiri::IriParseError>)
        ensures
            r is Ok <==> iri_is_valid(base_iri@),
            r matches Err(e) ==> iri_parse_error(base_iri@) == Some(e),
            r matches Ok(p) ==> p@ == (DatasetParserView {
                format: self@.format,
                base_iri: Some(base_iri@),
            }),
    {
        match parse_iri(base_iri.to_owned()) {
            Ok(iri) => Ok(DatasetParser { format: self.format, base_iri: Some(iri) }),
            Err(error) => Err(error),
        }
    }

    /// The format of the parser.
    pub fn format(&self) -> (f: DatasetFormat)
        ensures
            f == self@.format,
    {
        self.format
    }

    /// The base IRI of the parser; it is a valid IRI.
    pub fn base_iri(&self) -> (r: Option<&str>)
        ensures
            r matches Some(b) ==> self@.base_iri == Some(b@) && iri_is_valid(b@),
            r is None ==> self@.base_iri is None,
    {
        proof {
            use_type_invariant(self);
        }
        match &self.base_iri {
            Some(b) => Some(b.as_str()),
            None => None,
        }
    }

    /// Starts reading a document: the reader of the parser's format and base IRI,
    /// with no blank node label met and no quad waiting.
    pub fn read_quads(&self) -> (r: Result<QuadReader, ParserError>)
        ensures
            r matches Ok(reader) && {
                &&& quad_kind_for(self@.format, self@.base_iri, reader@.kind)
                &&& quad_kind_base_is_valid(reader@.kind)
                &&& reader@.labels == LabelMap::empty()
                &&& reader@.buffer == Seq::<Quad>::empty()
            },
    {
        proof {
            use_type_invariant(self);
        }
        let kind = match self.format {
            DatasetFormat::NQuads => QuadReaderKind::NQuads,
            DatasetFormat::TriG => QuadReaderKind::TriG {
                base_iri: clone_base_iri(&self.base_iri),
            },
        };
        Ok(QuadReader { mapper: RioMapper::new(), kind, buffer: Vec::new() })
    }
}

/// The state of one dataset document being read.
#[must_use]
pub struct QuadReader {
    mapper: RioMapper,
    kind: QuadReaderKind,
    buffer: Vec<Quad>,
}

/// The syntax parser, the blank nodes given so far and the quads waiting to be yielded.
pub struct QuadReaderView {
    pub kind: QuadReaderKind,
    pub labels: LabelMap,
    pub buffer: Seq<Quad>,
}

impl View for QuadReader {
    type V = QuadReaderView;

    closed spec fn view(&self) -> QuadReaderView {
        QuadReaderView { kind: self.kind, labels: self.mapper@, buffer: self.buffer@ }
    }
}

/// One call of `QuadReader::next` from the state `old` with `step` gives `action` and `new`;
/// as for triples.
pub open spec fn quad_reader_next(
    old: QuadReaderView,
    step: Option<StepOutcome<RawQuad>>,
    new: QuadReaderView,
    action: ReaderAction<Quad>,
) -> bool {
    &&& new.kind == old.kind
    &&& fresh_extension(old.labels, new.labels)
    &&& match step {
        None => new.labels == old.labels && polled(old.buffer, new.buffer, action),
        Some(StepOutcome::End) => if old.buffer.len() > 0 {
            new.labels == old.labels && polled(old.buffer, new.buffer, action)
        } else {
            new == old && action is Done
        },
        Some(StepOutcome::Parsed { statements, error }) => exists|mapped: Seq<Quad>|
            #![trigger quads_mapped(statements@, new.labels, mapped)]
            {
                &&& extends_with(old.labels, new.labels, quads_labels(statements@))
                &&& quads_mapped(statements@, new.labels, mapped)
                &&& match error {
                    Some(e) => action == ReaderAction::<Quad>::Fail(e) && new.buffer
                        == old.buffer + mapped,
                    None => polled(old.buffer + mapped, new.buffer, action),
                }
            },
    }
}

impl QuadReader {
    /// The syntax parser that has to read the document.
    pub fn kind(&self) -> (k: &QuadReaderKind)
        ensures
            *k == self@.kind,
    {
        &self.kind
    }

    /// The number of quads waiting to be yielded.
    pub fn waiting(&self) -> (n: usize)
        ensures
            n == self@.buffer.len(),
    {
        self.buffer.len()
    }

    /// Decides what the iteration yields next; `step` is the outcome of the step of
    /// the syntax parser asked for last, if any.
    pub fn next(&mut self, step: Option<StepOutcome<RawQuad>>) -> (action: ReaderAction<Quad>)
        ensures
            quad_reader_next(old(self)@, step, final(self)@, action),
    {
        proof {
            lemma_fresh_extension_same(self.mapper@);
        }
        match step {
            None => self.pop_waiting(),
            Some(outcome) => match self.read(outcome) {
                None => if self.buffer.len() == 0 {
                    ReaderAction::Done
                } else {
                    self.pop_waiting()
                },
                Some(Err(error)) => ReaderAction::Fail(error),
                Some(Ok(())) => self.pop_waiting(),
            },
        }
    }

    /// Yields the last waiting quad, if any.
    fn pop_waiting(&mut self) -> (action: ReaderAction<Quad>)
        ensures
            final(self)@.kind == old(self)@.kind,
            final(self)@.labels == old(self)@.labels,
            polled(old(self)@.buffer, final(self)@.buffer, action),
    {
        match self.buffer.pop() {
            Some(quad) => ReaderAction::Emit(quad),
            None => ReaderAction::NeedStep,
        }
    }

    /// Takes in what a step of the syntax parser produced.
    fn read(&mut self, outcome: StepOutcome<RawQuad>) -> (r: Option<Result<(), ParserError>>)
        ensures
            final(self)@.kind == old(self)@.kind,
            fresh_extension(old(self)@.labels, final(self)@.labels),
            match outcome {
                StepOutcome::End => r is None && final(self)@ == old(self)@,
                StepOutcome::Parsed { statements, error } => exists|mapped: Seq<Quad>|
                    #![trigger quads_mapped(statements@, final(self)@.labels, mapped)]
                    {
                        &&& extends_with(
                            old(self)@.labels,
                            final(self)@.labels,
                            quads_labels(statements@),
                        )
                        &&& quads_mapped(statements@, final(self)@.labels, mapped)
                        &&& final(self)@.buffer == old(self)@.buffer + mapped
                        &&& match error {
                            Some(e) => r == Some(Err::<(), ParserError>(e)),
                            None => r == Some(Ok::<(), ParserError>(())),
                        }
                    },
            },
    {
        proof {
            lemma_fresh_extension_same(self.mapper@);
        }
        match outcome {
            StepOutcome::End => None,
            StepOutcome::Parsed { statements, error } => {
                let ghost old_buffer = self.buffer@;
                let ghost old_labels = self.mapper@;
                proof {
                    lemma_fresh_extension_same(old_labels);
                }
                let ghost mut mapped: Seq<Quad> = Seq::empty();
                let mut i: usize = 0;
                assert(statements@.take(0) =~= Seq::<RawQuad>::empty());
                assert(self.mapper@.dom() =~= old_labels.dom().union(
                    quads_labels(statements@.take(0)),
                ));
                while i < statements.len()
                    invariant
                        0 <= i <= statements.len(),
                        self.kind == old(self).kind,
                        self.buffer@ == old_buffer + mapped,
                        fresh_extension(old_labels, self.mapper@),
                        quads_mapped(statements@.take(i as int), self.mapper@, mapped),
                        extends_with(
                            old_labels,
                            self.mapper@,
                            quads_labels(statements@.take(i as int)),
                        ),
                    decreases statements.len() - i,
                {
                    let ghost before = self.mapper@;
                    let quad = self.mapper.quad(&statements[i]);
                    proof {
                        assert forall|j: int| 0 <= j < mapped.len() implies #[trigger] quad_mapped(
                            statements@.take(i + 1)[j],
                            self.mapper@,
                            mapped.push(quad)[j],
                        ) by {
                            assert(statements@.take(i + 1)[j] == statements@.take(i as int)[j]);
                            lemma_quad_mapped_grow(
                                statements@.take(i as int)[j],
                                before,
                                self.mapper@,
                                mapped[j],
                            );
                        }
                        assert(statements@.take(i + 1)[i as int] == statements@[i as int]);
                        assert(mapped.push(quad)[i as int] == quad);
                        assert(statements@.take(i + 1).drop_last() =~= statements@.take(i as int));
                        vstd::map_lib::lemma_submap_of_trans(old_labels, before, self.mapper@);
                        law_fresh_extension_chains(old_labels, before, self.mapper@);
                        assert(self.mapper@.dom() =~= old_labels.dom().union(
                            quads_labels(statements@.take(i + 1)),
                        ));
                        mapped = mapped.push(quad);
                    }
                    self.buffer.push(quad);
                    i = i + 1;
                }
                assert(statements@.take(i as int) =~= statements@);
                assert(quads_mapped(statements@, self@.labels, mapped));
                assert(extends_with(old_labels, self@.labels, quads_labels(statements@)));
                match error {
                    Some(e) => Some(Err(e)),
                    None => Some(Ok(())),
                }
            },
        }
    }
}

} // verus!
