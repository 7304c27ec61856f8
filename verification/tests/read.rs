use oxigraph_read::error::{IoErrorKind, IoErrorParts, IoErrorPayload, ParserErrorSource, SyntaxErrorSource};
use oxigraph_read::model::TermParseError;
use oxigraph_read::{
    BlankNode, DatasetFormat, DatasetParser, GraphFormat, GraphName, GraphParser, Literal,
    NamedNode, ParserError, Quad, QuadReaderKind, RawGraphName, RawLiteral, RawQuad, RawSubject,
    RawTerm, RawTriple, ReaderAction, RioMapper, StepOutcome, Subject, SyntaxError,
    SyntaxErrorKind, Term, Triple, TripleReaderKind,
};
use oxiri::Iri;
use rio_api::model as rio;
use rio_api::parser::{QuadsParser, TriplesParser};
use rio_turtle::{NQuadsParser, NTriplesParser, TriGParser, TurtleParser};
use rio_xml::RdfXmlParser;
use std::io::Cursor;

// ---------------------------------------------------------------------------------------
// Driving the readers with the syntax parsers of rio, as a program does.
// ---------------------------------------------------------------------------------------

fn raw_literal(literal: &rio::Literal<'_>) -> RawLiteral {
    match literal {
        rio::Literal::Simple { value } => RawLiteral::Simple {
            value: (*value).to_owned(),
        },
        rio::Literal::LanguageTaggedString { value, language } => RawLiteral::LanguageTagged {
            value: (*value).to_owned(),
            language: (*language).to_owned(),
        },
        rio::Literal::Typed { value, datatype } => RawLiteral::Typed {
            value: (*value).to_owned(),
            datatype: datatype.iri.to_owned(),
        },
    }
}

fn raw_subject(subject: &rio::Subject<'_>) -> RawSubject {
    match subject {
        rio::Subject::NamedNode(node) => RawSubject::NamedNode(node.iri.to_owned()),
        rio::Subject::BlankNode(node) => RawSubject::BlankNode(node.id.to_owned()),
        rio::Subject::Triple(triple) => RawSubject::Triple(Box::new(raw_triple(triple))),
    }
}

fn raw_term(term: &rio::Term<'_>) -> RawTerm {
    match term {
        rio::Term::NamedNode(node) => RawTerm::NamedNode(node.iri.to_owned()),
        rio::Term::BlankNode(node) => RawTerm::BlankNode(node.id.to_owned()),
        rio::Term::Literal(literal) => RawTerm::Literal(raw_literal(literal)),
        rio::Term::Triple(triple) => RawTerm::Triple(Box::new(raw_triple(triple))),
    }
}

fn raw_triple(triple: &rio::Triple<'_>) -> RawTriple {
    RawTriple {
        subject: raw_subject(&triple.subject),
        predicate: triple.predicate.iri.to_owned(),
        object: raw_term(&triple.object),
    }
}

fn raw_quad(quad: &rio::Quad<'_>) -> RawQuad {
    RawQuad {
        subject: raw_subject(&quad.subject),
        predicate: quad.predicate.iri.to_owned(),
        object: raw_term(&quad.object),
        graph_name: quad.graph_name.map(|g| match g {
            rio::GraphName::NamedNode(node) => RawGraphName::NamedNode(node.iri.to_owned()),
            rio::GraphName::BlankNode(node) => RawGraphName::BlankNode(node.id.to_owned()),
        }),
    }
}

fn triples_step<P: TriplesParser>(
    parser: &mut P,
    into_error: fn(P::Error) -> ParserError,
) -> StepOutcome<RawTriple> {
    if parser.is_end() {
        return StepOutcome::End;
    }
    let mut statements = Vec::new();
    let result = parser.parse_step(&mut |t| -> Result<(), P::Error> {
        statements.push(raw_triple(&t));
        Ok(())
    });
    StepOutcome::Parsed {
        statements,
        error: result.err().map(into_error),
    }
}

fn quads_step<P: QuadsParser>(
    parser: &mut P,
    into_error: fn(P::Error) -> ParserError,
) -> StepOutcome<RawQuad> {
    if parser.is_end() {
        return StepOutcome::End;
    }
    let mut statements = Vec::new();
    let result = parser.parse_step(&mut |q| -> Result<(), P::Error> {
        statements.push(raw_quad(&q));
        Ok(())
    });
    StepOutcome::Parsed {
        statements,
        error: result.err().map(into_error),
    }
}

fn base(base_iri: &Option<String>) -> Option<Iri<String>> {
    base_iri.as_ref().map(|b| Iri::parse_unchecked(b.clone()))
}

fn read_graph(parser: &GraphParser, data: &str) -> Vec<Result<Triple, ParserError>> {
    let mut reader = parser.read_triples().unwrap();
    let input = Cursor::new(data.as_bytes().to_vec());
    let mut nt = None;
    let mut ttl = None;
    let mut xml = None;
    match reader.kind() {
        TripleReaderKind::NTriples => nt = Some(NTriplesParser::new(input)),
        TripleReaderKind::Turtle { base_iri } => ttl = Some(TurtleParser::new(input, base(base_iri))),
        TripleReaderKind::RdfXml { base_iri } => xml = Some(RdfXmlParser::new(input, base(base_iri))),
    }
    let mut out = Vec::new();
    let mut step = None;
    loop {
        match reader.next(step) {
            ReaderAction::Emit(t) => {
                out.push(Ok(t));
                step = None;
            }
            ReaderAction::Fail(e) => {
                // Like collecting into a `Result`, stop at the first error.
                out.push(Err(e));
                return out;
            }
            ReaderAction::Done => return out,
            ReaderAction::NeedStep => {
                step = Some(if let Some(p) = nt.as_mut() {
                    triples_step(p, ParserError::from_turtle_error)
                } else if let Some(p) = ttl.as_mut() {
                    triples_step(p, ParserError::from_turtle_error)
                } else {
                    triples_step(xml.as_mut().unwrap(), ParserError::from_rdf_xml_error)
                });
            }
        }
    }
}

fn read_dataset(parser: &DatasetParser, data: &str) -> Vec<Result<Quad, ParserError>> {
    let mut reader = parser.read_quads().unwrap();
    let input = Cursor::new(data.as_bytes().to_vec());
    let mut nq = None;
    let mut trig = None;
    match reader.kind() {
        QuadReaderKind::NQuads => nq = Some(NQuadsParser::new(input)),
        QuadReaderKind::TriG { base_iri } => trig = Some(TriGParser::new(input, base(base_iri))),
    }
    let mut out = Vec::new();
    let mut step = None;
    loop {
        match reader.next(step) {
            ReaderAction::Emit(q) => {
                out.push(Ok(q));
                step = None;
            }
            ReaderAction::Fail(e) => {
                // Like collecting into a `Result`, stop at the first error.
                out.push(Err(e));
                return out;
            }
            ReaderAction::Done => return out,
            ReaderAction::NeedStep => {
                step = Some(if let Some(p) = nq.as_mut() {
                    quads_step(p, ParserError::from_turtle_error)
                } else {
                    quads_step(trig.as_mut().unwrap(), ParserError::from_turtle_error)
                });
            }
        }
    }
}

fn named(iri: &str) -> NamedNode {
    NamedNode {
        iri: iri.to_owned(),
    }
}

fn ok_triples(results: Vec<Result<Triple, ParserError>>) -> Vec<Triple> {
    results.into_iter().map(|r| r.unwrap()).collect()
}

fn ok_quads(results: Vec<Result<Quad, ParserError>>) -> Vec<Quad> {
    results.into_iter().map(|r| r.unwrap()).collect()
}

fn raw_named_triple(s: &str, p: &str, o: &str) -> RawTriple {
    RawTriple {
        subject: RawSubject::NamedNode(s.to_owned()),
        predicate: p.to_owned(),
        object: RawTerm::NamedNode(o.to_owned()),
    }
}

// ---------------------------------------------------------------------------------------
// Scenarios of the documentation
// ---------------------------------------------------------------------------------------

#[test]
fn ntriples_document_gives_its_triple() {
    let file = "<http://example.com/s> <http://example.com/p> <http://example.com/o> .";
    let parser = GraphParser::from_format(GraphFormat::NTriples);
    let triples = ok_triples(read_graph(&parser, file));
    assert_eq!(triples.len(), 1);
    assert_eq!(triples[0].subject, Subject::NamedNode(named("http://example.com/s")));
    assert_eq!(triples[0].predicate, named("http://example.com/p"));
    assert_eq!(triples[0].object, Term::NamedNode(named("http://example.com/o")));
}

#[test]
fn turtle_relative_iris_resolve_against_base_iri() {
    let file = "</s> </p> </o> .";
    let parser = GraphParser::from_format(GraphFormat::Turtle)
        .with_base_iri("http://example.com")
        .unwrap();
    let triples = ok_triples(read_graph(&parser, file));
    assert_eq!(triples.len(), 1);
    assert_eq!(triples[0].subject, Subject::NamedNode(named("http://example.com/s")));
}

#[test]
fn nquads_document_gives_its_quad() {
    let file = "<http://example.com/s> <http://example.com/p> <http://example.com/o> <http://example.com/g> .";
    let parser = DatasetParser::from_format(DatasetFormat::NQuads);
    let quads = ok_quads(read_dataset(&parser, file));
    assert_eq!(quads.len(), 1);
    assert_eq!(quads[0].subject, Subject::NamedNode(named("http://example.com/s")));
    assert_eq!(quads[0].graph_name, GraphName::NamedNode(named("http://example.com/g")));
}

#[test]
fn trig_relative_iris_resolve_against_base_iri() {
    let file = "<g> { </s> </p> </o> }";
    let parser = DatasetParser::from_format(DatasetFormat::TriG)
        .with_base_iri("http://example.com")
        .unwrap();
    let quads = ok_quads(read_dataset(&parser, file));
    assert_eq!(quads.len(), 1);
    assert_eq!(quads[0].subject, Subject::NamedNode(named("http://example.com/s")));
    assert_eq!(quads[0].graph_name, GraphName::NamedNode(named("http://example.com/g")));
}

// ---------------------------------------------------------------------------------------
// Parsers and base IRIs
// ---------------------------------------------------------------------------------------

#[test]
fn from_format_has_no_base_iri() {
    let parser = GraphParser::from_format(GraphFormat::RdfXml);
    assert_eq!(parser.format(), GraphFormat::RdfXml);
    assert_eq!(parser.base_iri(), None);
    let parser = DatasetParser::from_format(DatasetFormat::TriG);
    assert_eq!(parser.format(), DatasetFormat::TriG);
    assert_eq!(parser.base_iri(), None);
}

#[test]
fn with_base_iri_keeps_format_and_text() {
    let parser = GraphParser::from_format(GraphFormat::Turtle)
        .with_base_iri("http://example.com/base/")
        .unwrap();
    assert_eq!(parser.format(), GraphFormat::Turtle);
    assert_eq!(parser.base_iri(), Some("http://example.com/base/"));
    let parser = DatasetParser::from_format(DatasetFormat::NQuads)
        .with_base_iri("http://example.com/d")
        .unwrap();
    assert_eq!(parser.format(), DatasetFormat::NQuads);
    assert_eq!(parser.base_iri(), Some("http://example.com/d"));
}

#[test]
fn with_base_iri_rejects_relative_iri() {
    assert!(GraphParser::from_format(GraphFormat::Turtle)
        .with_base_iri("../bar/baz")
        .is_err());
    assert!(DatasetParser::from_format(DatasetFormat::TriG)
        .with_base_iri("not an iri")
        .is_err());
}

#[test]
fn read_triples_picks_the_syntax_parser_of_the_format() {
    let nt = GraphParser::from_format(GraphFormat::NTriples)
        .with_base_iri("http://example.com")
        .unwrap();
    assert!(matches!(nt.read_triples().unwrap().kind(), TripleReaderKind::NTriples));
    let ttl = GraphParser::from_format(GraphFormat::Turtle)
        .with_base_iri("http://example.com")
        .unwrap();
    match ttl.read_triples().unwrap().kind() {
        TripleReaderKind::Turtle { base_iri } => {
            assert_eq!(base_iri.as_deref(), Some("http://example.com"))
        }
        _ => panic!("expected the Turtle parser"),
    }
    let xml = GraphParser::from_format(GraphFormat::RdfXml);
    match xml.read_triples().unwrap().kind() {
        TripleReaderKind::RdfXml { base_iri } => assert_eq!(base_iri, &None),
        _ => panic!("expected the RDF/XML parser"),
    }
    assert_eq!(xml.read_triples().unwrap().waiting(), 0);
}

#[test]
fn read_quads_picks_the_syntax_parser_of_the_format() {
    let nq = DatasetParser::from_format(DatasetFormat::NQuads)
        .with_base_iri("http://example.com")
        .unwrap();
    assert!(matches!(nq.read_quads().unwrap().kind(), QuadReaderKind::NQuads));
    let trig = DatasetParser::from_format(DatasetFormat::TriG)
        .with_base_iri("http://example.com")
        .unwrap();
    match trig.read_quads().unwrap().kind() {
        QuadReaderKind::TriG { base_iri } => {
            assert_eq!(base_iri.as_deref(), Some("http://example.com"))
        }
        _ => panic!("expected the TriG parser"),
    }
    assert_eq!(trig.read_quads().unwrap().waiting(), 0);
}

// ---------------------------------------------------------------------------------------
// Blank nodes
// ---------------------------------------------------------------------------------------

#[test]
fn same_blank_node_label_is_the_same_node_in_a_document() {
    let file = "_:a <http://example.com/p> _:a .\n_:a <http://example.com/q> _:b .\n";
    let parser = GraphParser::from_format(GraphFormat::NTriples);
    let triples = ok_triples(read_graph(&parser, file));
    assert_eq!(triples.len(), 2);
    let a = match &triples[0].subject {
        Subject::BlankNode(b) => *b,
        other => panic!("unexpected subject {:?}", other),
    };
    assert_eq!(triples[0].object, Term::BlankNode(a));
    assert_eq!(triples[1].subject, Subject::BlankNode(a));
    assert_ne!(triples[1].object, Term::BlankNode(a));
}

#[test]
fn blank_node_labels_are_scoped_to_their_document() {
    let file = "_:a <http://example.com/p> <http://example.com/o> .";
    let parser = GraphParser::from_format(GraphFormat::NTriples);
    let first = ok_triples(read_graph(&parser, file));
    let second = ok_triples(read_graph(&parser, file));
    assert_ne!(first[0].subject, second[0].subject);
}

#[test]
fn mapper_remembers_labels() {
    let mut mapper = RioMapper::new();
    let a1 = mapper.blank_node("a");
    let b = mapper.blank_node("b");
    let a2 = mapper.blank_node("a");
    assert_eq!(a1, a2);
    assert_ne!(a1, b);
    assert_eq!(a1.id(), a2.id());
}

#[test]
fn quad_blank_graph_name_shares_the_document_labels() {
    let file = "_:g <http://example.com/p> <http://example.com/o> _:g .\n<http://example.com/s> <http://example.com/p> <http://example.com/o> .\n";
    let parser = DatasetParser::from_format(DatasetFormat::NQuads);
    let quads = ok_quads(read_dataset(&parser, file));
    assert_eq!(quads.len(), 2);
    let g = match &quads[0].subject {
        Subject::BlankNode(b) => *b,
        other => panic!("unexpected subject {:?}", other),
    };
    assert_eq!(quads[0].graph_name, GraphName::BlankNode(g));
    assert_eq!(quads[1].graph_name, GraphName::DefaultGraph);
}

// ---------------------------------------------------------------------------------------
// Literals and quoted triples
// ---------------------------------------------------------------------------------------

#[test]
fn literal_typed_xsd_string_is_simple() {
    let l = RioMapper::literal(&RawLiteral::Typed {
        value: "foo".to_owned(),
        datatype: "http://www.w3.org/2001/XMLSchema#string".to_owned(),
    });
    assert_eq!(
        l,
        Literal::Simple {
            value: "foo".to_owned()
        }
    );
}

#[test]
fn literal_kinds_keep_their_parts() {
    let l = RioMapper::literal(&RawLiteral::Typed {
        value: "1".to_owned(),
        datatype: "http://www.w3.org/2001/XMLSchema#integer".to_owned(),
    });
    assert_eq!(
        l,
        Literal::Typed {
            value: "1".to_owned(),
            datatype: named("http://www.w3.org/2001/XMLSchema#integer")
        }
    );
    let l = RioMapper::literal(&RawLiteral::LanguageTagged {
        value: "chat".to_owned(),
        language: "fr".to_owned(),
    });
    assert_eq!(
        l,
        Literal::LanguageTagged {
            value: "chat".to_owned(),
            language: "fr".to_owned()
        }
    );
}

#[test]
fn turtle_literals_are_mapped() {
    let file = "<http://e/s> <http://e/p> \"a\", \"b\"@en, \"c\"^^<http://www.w3.org/2001/XMLSchema#string> .";
    let parser = GraphParser::from_format(GraphFormat::Turtle);
    let mut objects: Vec<Term> = ok_triples(read_graph(&parser, file))
        .into_iter()
        .map(|t| t.object)
        .collect();
    assert_eq!(objects.len(), 3);
    // The three objects come from one step, so the last one written comes first.
    assert_eq!(
        objects.remove(0),
        Term::Literal(Literal::Simple {
            value: "c".to_owned()
        })
    );
    assert_eq!(
        objects.remove(0),
        Term::Literal(Literal::LanguageTagged {
            value: "b".to_owned(),
            language: "en".to_owned()
        })
    );
    assert_eq!(
        objects.remove(0),
        Term::Literal(Literal::Simple {
            value: "a".to_owned()
        })
    );
}

#[test]
fn quoted_triple_keeps_its_blank_nodes() {
    let mut mapper = RioMapper::new();
    let inner = RawTriple {
        subject: RawSubject::BlankNode("x".to_owned()),
        predicate: "http://e/p".to_owned(),
        object: RawTerm::Literal(RawLiteral::Simple {
            value: "v".to_owned(),
        }),
    };
    let outer = RawTriple {
        subject: RawSubject::Triple(Box::new(inner)),
        predicate: "http://e/q".to_owned(),
        object: RawTerm::BlankNode("x".to_owned()),
    };
    let t = mapper.triple(&outer);
    let x = match &t.object {
        Term::BlankNode(b) => *b,
        other => panic!("unexpected object {:?}", other),
    };
    match &t.subject {
        Subject::Triple(q) => {
            assert_eq!(q.subject, Subject::BlankNode(x));
            assert_eq!(q.predicate, named("http://e/p"));
        }
        other => panic!("unexpected subject {:?}", other),
    }
    assert_eq!(t.predicate, named("http://e/q"));
}

#[test]
fn quad_in_default_graph() {
    let mut mapper = RioMapper::new();
    let q = mapper.quad(&RawQuad {
        subject: RawSubject::NamedNode("http://e/s".to_owned()),
        predicate: "http://e/p".to_owned(),
        object: RawTerm::NamedNode("http://e/o".to_owned()),
        graph_name: None,
    });
    assert_eq!(q.graph_name, GraphName::DefaultGraph);
    assert_eq!(q.object, Term::NamedNode(named("http://e/o")));
}

// ---------------------------------------------------------------------------------------
// The reader's decisions
// ---------------------------------------------------------------------------------------

#[test]
fn reader_yields_a_step_last_statement_first() {
    let mut reader = GraphParser::from_format(GraphFormat::Turtle)
        .read_triples()
        .unwrap();
    match reader.next(None) {
        ReaderAction::NeedStep => {}
        _ => panic!("an idle reader asks for a step"),
    }
    let step = StepOutcome::Parsed {
        statements: vec![
            raw_named_triple("http://e/s", "http://e/p", "http://e/o1"),
            raw_named_triple("http://e/s", "http://e/p", "http://e/o2"),
        ],
        error: None,
    };
    match reader.next(Some(step)) {
        ReaderAction::Emit(t) => assert_eq!(t.object, Term::NamedNode(named("http://e/o2"))),
        _ => panic!("expected a triple"),
    }
    assert_eq!(reader.waiting(), 1);
    match reader.next(None) {
        ReaderAction::Emit(t) => assert_eq!(t.object, Term::NamedNode(named("http://e/o1"))),
        _ => panic!("expected a triple"),
    }
    assert!(matches!(reader.next(None), ReaderAction::NeedStep));
    assert!(matches!(reader.next(Some(StepOutcome::End)), ReaderAction::Done));
}

#[test]
fn reader_yields_a_step_error_before_its_statements() {
    let mut reader = GraphParser::from_format(GraphFormat::NTriples)
        .read_triples()
        .unwrap();
    let step = StepOutcome::Parsed {
        statements: vec![raw_named_triple("http://e/s", "http://e/p", "http://e/o")],
        error: Some(ParserError::from(SyntaxError::msg("broken"))),
    };
    match reader.next(Some(step)) {
        ReaderAction::Fail(e) => assert_eq!(e.message(), "broken"),
        _ => panic!("expected the error"),
    }
    assert_eq!(reader.waiting(), 1);
    match reader.next(None) {
        ReaderAction::Emit(t) => assert_eq!(t.object, Term::NamedNode(named("http://e/o"))),
        _ => panic!("expected the waiting triple"),
    }
}

#[test]
fn reader_step_without_statements_asks_again() {
    let mut reader = GraphParser::from_format(GraphFormat::NTriples)
        .read_triples()
        .unwrap();
    let step = StepOutcome::Parsed {
        statements: vec![],
        error: None,
    };
    assert!(matches!(reader.next(Some(step)), ReaderAction::NeedStep));
}

#[test]
fn quad_reader_decisions() {
    let mut reader = DatasetParser::from_format(DatasetFormat::NQuads)
        .read_quads()
        .unwrap();
    let step = StepOutcome::Parsed {
        statements: vec![RawQuad {
            subject: RawSubject::BlankNode("b".to_owned()),
            predicate: "http://e/p".to_owned(),
            object: RawTerm::BlankNode("b".to_owned()),
            graph_name: Some(RawGraphName::NamedNode("http://e/g".to_owned())),
        }],
        error: None,
    };
    match reader.next(Some(step)) {
        ReaderAction::Emit(q) => {
            match (&q.subject, &q.object) {
                (Subject::BlankNode(s), Term::BlankNode(o)) => assert_eq!(s, o),
                _ => panic!("expected blank nodes"),
            }
            assert_eq!(q.graph_name, GraphName::NamedNode(named("http://e/g")));
        }
        _ => panic!("expected a quad"),
    }
    assert!(matches!(reader.next(None), ReaderAction::NeedStep));
    assert!(matches!(reader.next(Some(StepOutcome::End)), ReaderAction::Done));
}

// ---------------------------------------------------------------------------------------
// Errors
// ---------------------------------------------------------------------------------------

#[test]
fn turtle_syntax_error_is_a_syntax_error() {
    let parser = GraphParser::from_format(GraphFormat::Turtle);
    let results = read_graph(&parser, "ex:s ex:p ex:o .");
    let error = results.into_iter().find_map(|r| r.err()).expect("an error");
    match &error {
        ParserError::Syntax(SyntaxError {
            inner: SyntaxErrorKind::Turtle(_),
        }) => {}
        other => panic!("unexpected error {:?}", other),
    }
    assert!(!error.message().is_empty());
}

#[test]
fn rdf_xml_syntax_error_is_a_syntax_error() {
    let parser = GraphParser::from_format(GraphFormat::RdfXml);
    let file = "<rdf:RDF xmlns:rdf=\"http://www.w3.org/1999/02/22-rdf-syntax-ns#\"><rdf:Description rdf:about=\"http://e/ s\"/></rdf:RDF>";
    let results = read_graph(&parser, file);
    let error = results.into_iter().find_map(|r| r.err()).expect("an error");
    match &error {
        ParserError::Syntax(SyntaxError {
            inner: SyntaxErrorKind::RdfXml(_),
        }) => {}
        other => panic!("unexpected error {:?}", other),
    }
    assert_eq!(error.into_io_error().kind(), std::io::ErrorKind::InvalidData);
}

#[test]
fn rdf_xml_xml_error_is_a_syntax_error() {
    let parser = GraphParser::from_format(GraphFormat::RdfXml);
    let file = "<rdf:RDF xmlns:rdf=\"http://www.w3.org/1999/02/22-rdf-syntax-ns#\"><rdf:Description></rdf:RDF>";
    let results = read_graph(&parser, file);
    let error = results.into_iter().find_map(|r| r.err()).expect("an error");
    match &error {
        ParserError::Syntax(SyntaxError {
            inner: SyntaxErrorKind::RdfXml(_),
        }) => {}
        other => panic!("unexpected error {:?}", other),
    }
    assert_eq!(error.into_io_error().kind(), std::io::ErrorKind::InvalidData);
}

#[test]
fn rdf_xml_document_gives_its_triple() {
    let file = "<?xml version=\"1.0\"?>\n<rdf:RDF xmlns:rdf=\"http://www.w3.org/1999/02/22-rdf-syntax-ns#\" xmlns:ex=\"http://example.com/\">\n<rdf:Description rdf:about=\"http://example.com/s\"><ex:p rdf:resource=\"http://example.com/o\"/></rdf:Description>\n</rdf:RDF>";
    let parser = GraphParser::from_format(GraphFormat::RdfXml);
    let triples = ok_triples(read_graph(&parser, file));
    assert_eq!(triples.len(), 1);
    assert_eq!(triples[0].subject, Subject::NamedNode(named("http://example.com/s")));
    assert_eq!(triples[0].predicate, named("http://example.com/p"));
}

#[test]
fn turtle_io_error_is_an_io_error() {
    let error = rio_turtle::TurtleError::from(std::io::Error::new(
        std::io::ErrorKind::BrokenPipe,
        "pipe",
    ));
    match ParserError::from_turtle_error(error) {
        ParserError::Io(e) => assert_eq!(e.kind(), std::io::ErrorKind::BrokenPipe),
        other => panic!("unexpected error {:?}", other),
    }
}

#[test]
fn rdf_xml_io_error_is_an_io_error() {
    let error = rio_xml::RdfXmlError::from(std::io::Error::new(
        std::io::ErrorKind::ConnectionReset,
        "reset",
    ));
    match ParserError::from_rdf_xml_error(error) {
        ParserError::Io(e) => assert_eq!(e.kind(), std::io::ErrorKind::ConnectionReset),
        other => panic!("unexpected error {:?}", other),
    }
}

#[test]
fn xml_errors_are_sorted() {
    let io = quick_xml::Error::Io(std::io::Error::new(std::io::ErrorKind::Other, "disk"));
    assert!(matches!(ParserError::from_xml_error(io), ParserError::Io(_)));
    let eof = quick_xml::Error::UnexpectedEof("tag".to_owned());
    let error = ParserError::from_xml_error(eof);
    assert!(matches!(
        error,
        ParserError::Syntax(SyntaxError {
            inner: SyntaxErrorKind::Xml(_)
        })
    ));
    assert_eq!(
        error.into_io_error().kind(),
        std::io::ErrorKind::UnexpectedEof
    );
    let other = ParserError::from_xml_error(quick_xml::Error::TextNotFound);
    assert_eq!(other.into_io_error().kind(), std::io::ErrorKind::InvalidData);
}

#[test]
fn io_error_converts_both_ways() {
    let error = ParserError::from(std::io::Error::new(std::io::ErrorKind::NotFound, "gone"));
    assert!(matches!(error, ParserError::Io(_)));
    assert_eq!(error.message(), "gone");
    assert_eq!(error.into_io_error().kind(), std::io::ErrorKind::NotFound);
}

#[test]
fn msg_error_message_and_io_kind() {
    let error = SyntaxError::msg("something wrong");
    assert_eq!(error.message(), "something wrong");
    let io = error.into_io_error();
    assert_eq!(io.kind(), std::io::ErrorKind::InvalidData);
    assert_eq!(io.to_string(), "something wrong");
}

#[test]
fn invalid_base_iri_error() {
    let iri_error = Iri::parse("../relative".to_owned()).unwrap_err();
    let error = ParserError::invalid_base_iri("../relative", iri_error);
    assert!(error.message().starts_with("Invalid base IRI '../relative': "));
    assert!(error.message().len() > "Invalid base IRI '../relative': ".len());
    let io = error.into_io_error();
    assert_eq!(io.kind(), std::io::ErrorKind::InvalidInput);
    assert!(io.to_string().starts_with("Invalid IRI '../relative': "));
}

#[test]
fn turtle_eof_error_into_io_is_unexpected_eof() {
    let parser = GraphParser::from_format(GraphFormat::Turtle);
    let results = read_graph(&parser, "<http://e/s> <http://e/p> \"unterminated");
    let error = results.into_iter().find_map(|r| r.err()).expect("an error");
    assert!(matches!(
        error,
        ParserError::Syntax(SyntaxError {
            inner: SyntaxErrorKind::Turtle(_)
        })
    ));
    assert_eq!(
        error.into_io_error().kind(),
        std::io::ErrorKind::UnexpectedEof
    );
}

#[test]
fn turtle_error_held_by_a_reader_error_is_a_syntax_error() {
    let inner = NTriplesParser::new(Cursor::new("<http://e/s> <http://e/p> ."))
        .parse_all(&mut |_| -> Result<(), rio_turtle::TurtleError> { Ok(()) })
        .unwrap_err();
    let text = inner.to_string();
    let outer = rio_turtle::TurtleError::from(std::io::Error::new(
        std::io::ErrorKind::Other,
        inner,
    ));
    match ParserError::from_turtle_error(outer) {
        ParserError::Syntax(SyntaxError {
            inner: SyntaxErrorKind::Turtle(e),
        }) => assert_eq!(e.to_string(), text),
        other => panic!("unexpected error {:?}", other),
    }
}

#[test]
fn rdf_xml_errors_are_syntax_errors_unless_the_reader_failed() {
    let kept = rio_xml::RdfXmlError::from(quick_xml::Error::TextNotFound);
    let text = kept.to_string();
    match ParserError::from_rdf_xml_error(kept) {
        ParserError::Syntax(SyntaxError {
            inner: SyntaxErrorKind::RdfXml(e),
        }) => assert_eq!(e.to_string(), text),
        other => panic!("unexpected error {:?}", other),
    }
    let eof = rio_xml::RdfXmlError::from(quick_xml::Error::UnexpectedEof("tag".to_owned()));
    let error = ParserError::from_rdf_xml_error(eof);
    assert!(matches!(
        error,
        ParserError::Syntax(SyntaxError {
            inner: SyntaxErrorKind::RdfXml(_)
        })
    ));
    assert_eq!(error.into_io_error().kind(), std::io::ErrorKind::UnexpectedEof);
    let failed = rio_xml::RdfXmlError::from(std::io::Error::new(
        std::io::ErrorKind::Interrupted,
        "stop",
    ));
    match ParserError::from_rdf_xml_error(failed) {
        ParserError::Io(e) => {
            assert_eq!(e.kind(), std::io::ErrorKind::Interrupted);
            assert_eq!(e.to_string(), "stop");
        }
        other => panic!("unexpected error {:?}", other),
    }
}

#[test]
fn xml_io_error_is_the_same_io_error() {
    let io = quick_xml::Error::Io(std::io::Error::new(std::io::ErrorKind::WriteZero, "zero"));
    match ParserError::from_xml_error(io) {
        ParserError::Io(e) => {
            assert_eq!(e.kind(), std::io::ErrorKind::WriteZero);
            assert_eq!(e.to_string(), "zero");
        }
        other => panic!("unexpected error {:?}", other),
    }
    let io = SyntaxError {
        inner: SyntaxErrorKind::Xml(quick_xml::Error::Io(std::io::Error::new(
            std::io::ErrorKind::WriteZero,
            "zero",
        ))),
    }
    .into_io_error();
    assert_eq!(io.kind(), std::io::ErrorKind::WriteZero);
    assert_eq!(io.to_string(), "zero");
}

#[test]
fn reader_yields_waiting_triples_before_the_end() {
    let mut reader = GraphParser::from_format(GraphFormat::NTriples)
        .read_triples()
        .unwrap();
    let step = StepOutcome::Parsed {
        statements: vec![raw_named_triple("http://e/s", "http://e/p", "http://e/o")],
        error: Some(ParserError::from(SyntaxError::msg("broken"))),
    };
    assert!(matches!(reader.next(Some(step)), ReaderAction::Fail(_)));
    match reader.next(Some(StepOutcome::End)) {
        ReaderAction::Emit(t) => assert_eq!(t.object, Term::NamedNode(named("http://e/o"))),
        _ => panic!("the waiting triple comes first"),
    }
    assert!(matches!(reader.next(Some(StepOutcome::End)), ReaderAction::Done));
}

#[test]
fn xml_error_is_kept_as_it_is() {
    let text = quick_xml::Error::UnexpectedEof("tag".to_owned()).to_string();
    let error = ParserError::from_xml_error(quick_xml::Error::UnexpectedEof("tag".to_owned()));
    match &error {
        ParserError::Syntax(SyntaxError {
            inner: SyntaxErrorKind::Xml(quick_xml::Error::UnexpectedEof(s)),
        }) => assert_eq!(s, "tag"),
        other => panic!("unexpected error {:?}", other),
    }
    assert_eq!(error.message(), text);
    let io = std::io::Error::new(std::io::ErrorKind::WriteZero, "zero");
    match ParserError::from_xml_parts(Ok(io)) {
        ParserError::Io(e) => assert_eq!(e.kind(), std::io::ErrorKind::WriteZero),
        other => panic!("unexpected error {:?}", other),
    }
    assert!(matches!(
        ParserError::from_xml_parts(Err(quick_xml::Error::TextNotFound)),
        ParserError::Syntax(SyntaxError {
            inner: SyntaxErrorKind::Xml(quick_xml::Error::TextNotFound)
        })
    ));
}

#[test]
fn io_error_parts_of_library_errors() {
    match SyntaxError::msg("bad").into_io_error_parts() {
        IoErrorParts::New {
            kind: IoErrorKind::InvalidData,
            payload: IoErrorPayload::Message(m),
        } => assert_eq!(m, "bad"),
        _ => panic!("expected InvalidData with the message"),
    }
    let iri_error = Iri::parse("rel".to_owned()).unwrap_err();
    let detail = iri_error.to_string();
    let base = match ParserError::invalid_base_iri("rel", iri_error) {
        ParserError::Syntax(s) => s,
        _ => panic!("expected a syntax error"),
    };
    match base.into_io_error_parts() {
        IoErrorParts::New {
            kind: IoErrorKind::InvalidInput,
            payload: IoErrorPayload::Message(m),
        } => assert_eq!(m, format!("Invalid IRI 'rel': {}", detail)),
        _ => panic!("expected InvalidInput with the IRI"),
    }
    let eof = SyntaxError {
        inner: SyntaxErrorKind::Xml(quick_xml::Error::UnexpectedEof("tag".to_owned())),
    };
    match eof.into_io_error_parts() {
        IoErrorParts::New {
            kind: IoErrorKind::UnexpectedEof,
            payload: IoErrorPayload::Message(m),
        } => assert_eq!(m, "tag"),
        _ => panic!("expected UnexpectedEof with the message"),
    }
    let other = SyntaxError {
        inner: SyntaxErrorKind::Xml(quick_xml::Error::TextNotFound),
    };
    assert!(matches!(
        other.into_io_error_parts(),
        IoErrorParts::New {
            kind: IoErrorKind::InvalidData,
            payload: IoErrorPayload::Xml(quick_xml::Error::TextNotFound),
        }
    ));
    let io = SyntaxError {
        inner: SyntaxErrorKind::Xml(quick_xml::Error::Io(std::io::Error::new(
            std::io::ErrorKind::AddrInUse,
            "busy",
        ))),
    };
    match io.into_io_error_parts() {
        IoErrorParts::Made(e) => assert_eq!(e.kind(), std::io::ErrorKind::AddrInUse),
        _ => panic!("expected the carried I/O error"),
    }
}

#[test]
fn term_error_is_a_syntax_error() {
    let error = ParserError::from(TermParseError {
        message: "no term".to_owned(),
    });
    assert_eq!(error.message(), "no term");
    match &error {
        ParserError::Syntax(s) => match s.source() {
            Some(SyntaxErrorSource::Term(t)) => assert_eq!(t.message, "no term"),
            _ => panic!("expected the term error"),
        },
        _ => panic!("expected a syntax error"),
    }
    let io = error.into_io_error();
    assert_eq!(io.kind(), std::io::ErrorKind::InvalidData);
    assert_eq!(io.to_string(), "no term");
}

#[test]
fn sources_of_errors() {
    let io = ParserError::from(std::io::Error::new(std::io::ErrorKind::NotFound, "gone"));
    match io.source() {
        ParserErrorSource::Io(e) => assert_eq!(e.kind(), std::io::ErrorKind::NotFound),
        _ => panic!("expected the I/O error"),
    }
    let msg = ParserError::from(SyntaxError::msg("m"));
    match msg.source() {
        ParserErrorSource::Syntax(s) => assert!(s.source().is_none()),
        _ => panic!("expected the syntax error"),
    }
    let iri_error = Iri::parse("rel".to_owned()).unwrap_err();
    match ParserError::invalid_base_iri("rel", iri_error) {
        ParserError::Syntax(s) => assert!(s.source().is_none()),
        _ => panic!("expected a syntax error"),
    }
    let xml = ParserError::from_xml_error(quick_xml::Error::TextNotFound);
    match xml.source() {
        ParserErrorSource::Syntax(s) => {
            assert!(matches!(s.source(), Some(SyntaxErrorSource::Xml(_))))
        }
        _ => panic!("expected the syntax error"),
    }
}

#[test]
fn invalid_base_iri_keeps_the_error() {
    let iri_error = Iri::parse("rel".to_owned()).unwrap_err();
    let detail = iri_error.to_string();
    let error = ParserError::invalid_base_iri("rel", iri_error);
    assert_eq!(error.message(), format!("Invalid base IRI 'rel': {}", detail));
    match error {
        ParserError::Syntax(SyntaxError {
            inner: SyntaxErrorKind::BaseIri { iri, error },
        }) => {
            assert_eq!(iri, "rel");
            assert_eq!(error.to_string(), detail);
        }
        _ => panic!("expected a base IRI error"),
    }
}

#[test]
fn ntriples_syntax_error_is_a_syntax_error() {
    let parser = GraphParser::from_format(GraphFormat::NTriples);
    let results = read_graph(&parser, "<http://example.com/s> <http://example.com/p> .");
    assert!(matches!(
        results.last(),
        Some(Err(ParserError::Syntax(SyntaxError {
            inner: SyntaxErrorKind::Turtle(_)
        })))
    ));
    let parser = DatasetParser::from_format(DatasetFormat::NQuads);
    let results = read_dataset(&parser, "<http://example.com/s> <http://example.com/p> .");
    assert!(matches!(
        results.last(),
        Some(Err(ParserError::Syntax(SyntaxError {
            inner: SyntaxErrorKind::Turtle(_)
        })))
    ));
}

struct FailingReader;

impl std::io::Read for FailingReader {
    fn read(&mut self, _buf: &mut [u8]) -> std::io::Result<usize> {
        Err(std::io::Error::new(std::io::ErrorKind::BrokenPipe, "pipe"))
    }
}

#[test]
fn reader_failure_is_an_io_error() {
    let mut reader = GraphParser::from_format(GraphFormat::NTriples)
        .read_triples()
        .unwrap();
    let mut parser = NTriplesParser::new(std::io::BufReader::new(FailingReader));
    assert!(matches!(reader.next(None), ReaderAction::NeedStep));
    let step = triples_step(&mut parser, ParserError::from_turtle_error);
    match reader.next(Some(step)) {
        ReaderAction::Fail(ParserError::Io(e)) => {
            assert_eq!(e.kind(), std::io::ErrorKind::BrokenPipe)
        }
        ReaderAction::Done => panic!("the failure was not reported"),
        _ => panic!("expected an I/O error"),
    }
}

#[test]
fn parser_error_io_error_parts() {
    let io = std::io::Error::new(std::io::ErrorKind::NotFound, "gone");
    match ParserError::from(io).into_io_error_parts() {
        IoErrorParts::Made(e) => {
            assert_eq!(e.kind(), std::io::ErrorKind::NotFound);
            assert_eq!(e.to_string(), "gone");
        }
        _ => panic!("an I/O error is already made"),
    }
    match ParserError::from(SyntaxError::msg("foo")).into_io_error_parts() {
        IoErrorParts::New {
            kind: IoErrorKind::InvalidData,
            payload: IoErrorPayload::Message(m),
        } => assert_eq!(m, "foo"),
        _ => panic!("a message error gives InvalidData with its message"),
    }
    let io = ParserError::from(SyntaxError::msg("foo")).into_io_error();
    assert_eq!(io.kind(), std::io::ErrorKind::InvalidData);
    assert_eq!(io.to_string(), "foo");
}

#[test]
fn reader_stays_finished() {
    let mut reader = GraphParser::from_format(GraphFormat::NTriples)
        .read_triples()
        .unwrap();
    assert!(matches!(reader.next(Some(StepOutcome::End)), ReaderAction::Done));
    assert!(matches!(reader.next(None), ReaderAction::NeedStep));
    assert!(matches!(reader.next(Some(StepOutcome::End)), ReaderAction::Done));
    assert_eq!(reader.waiting(), 0);
    let mut quads = DatasetParser::from_format(DatasetFormat::NQuads)
        .read_quads()
        .unwrap();
    assert!(matches!(quads.next(Some(StepOutcome::End)), ReaderAction::Done));
    assert!(matches!(quads.next(None), ReaderAction::NeedStep));
    assert!(matches!(quads.next(Some(StepOutcome::End)), ReaderAction::Done));
}

#[test]
fn reader_yields_every_triple_of_several_steps_once() {
    let mut reader = GraphParser::from_format(GraphFormat::Turtle)
        .read_triples()
        .unwrap();
    let steps = vec![
        vec![
            raw_named_triple("http://e/s", "http://e/p", "http://e/o1"),
            raw_named_triple("http://e/s", "http://e/p", "http://e/o2"),
        ],
        vec![],
        vec![raw_named_triple("http://e/s", "http://e/p", "http://e/o3")],
    ];
    let mut yielded = Vec::new();
    let mut steps = steps.into_iter();
    let mut step: Option<StepOutcome<RawTriple>> = None;
    loop {
        match reader.next(step.take()) {
            ReaderAction::Emit(t) => yielded.push(t),
            ReaderAction::Fail(_) => panic!("no step failed"),
            ReaderAction::Done => break,
            ReaderAction::NeedStep => {
                step = Some(match steps.next() {
                    Some(statements) => StepOutcome::Parsed { statements, error: None },
                    None => StepOutcome::End,
                })
            }
        }
    }
    assert_eq!(yielded.len(), 3);
    for o in ["http://e/o1", "http://e/o2", "http://e/o3"] {
        let object = Term::NamedNode(named(o));
        assert_eq!(yielded.iter().filter(|t| t.object == object).count(), 1);
    }
}

#[test]
fn reader_fails_only_with_the_step_error() {
    let mut reader = GraphParser::from_format(GraphFormat::NTriples)
        .read_triples()
        .unwrap();
    let io = std::io::Error::new(std::io::ErrorKind::BrokenPipe, "pipe");
    let step = StepOutcome::Parsed {
        statements: vec![],
        error: Some(ParserError::from(io)),
    };
    match reader.next(Some(step)) {
        ReaderAction::Fail(ParserError::Io(e)) => assert_eq!(e.kind(), std::io::ErrorKind::BrokenPipe),
        _ => panic!("an I/O error stays an I/O error"),
    }
    let step = StepOutcome::Parsed {
        statements: vec![raw_named_triple("http://e/s", "http://e/p", "http://e/o")],
        error: None,
    };
    assert!(matches!(reader.next(Some(step)), ReaderAction::Emit(_)));
    assert!(matches!(reader.next(None), ReaderAction::NeedStep));
}

#[test]
fn with_base_iri_gives_the_parse_error_of_the_text() {
    let expected = Iri::parse("../bar/baz".to_owned()).unwrap_err().to_string();
    let error = GraphParser::from_format(GraphFormat::Turtle)
        .with_base_iri("../bar/baz")
        .err()
        .expect("a relative IRI is refused");
    assert_eq!(error.to_string(), expected);
    let expected = Iri::parse("not an iri".to_owned()).unwrap_err().to_string();
    let error = DatasetParser::from_format(DatasetFormat::TriG)
        .with_base_iri("not an iri")
        .err()
        .expect("a text that is no IRI is refused");
    assert_eq!(error.to_string(), expected);
}

#[test]
fn blank_node_with_gives_a_new_label_the_fresh_node() {
    let mut mapper = RioMapper::new();
    let a = mapper.blank_node_with("a", BlankNode { id: 1 });
    assert_eq!(a, BlankNode { id: 1 });
    let b = mapper.blank_node_with("b", BlankNode { id: 2 });
    assert_eq!(b, BlankNode { id: 2 });
    assert_ne!(a, b);
    assert_eq!(mapper.blank_node_with("a", BlankNode { id: 3 }), BlankNode { id: 1 });
    assert_eq!(mapper.blank_node("b"), BlankNode { id: 2 });
    let c = mapper.blank_node("c");
    assert_eq!(mapper.blank_node_with("c", BlankNode { id: 4 }), c);
}
