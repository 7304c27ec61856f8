//! Errors raised while reading RDF documents.
use vstd::prelude::*;
use vstd::string::{to_string_from_display_ensures, StringExecFns};
use crate::model::TermParseError;

verus! {

/// An I/O error of the standard library.
#[verifier::external_type_specification]
#[verifier::external_body]
pub struct ExIoError(std::io::Error);

/// An error of the N-Triples, N-Quads, Turtle and TriG parsers of `rio_turtle`.
#[verifier::external_type_specification]
#[verifier::external_body]
pub struct ExTurtleError(rio_turtle::TurtleError);

/// An error of the RDF/XML parser of `rio_xml`.
#[verifier::external_type_specification]
#[verifier::external_body]
pub struct ExRdfXmlError(rio_xml::RdfXmlError);

/// An error of the XML reader `quick_xml`.
#[verifier::external_type_specification]
#[verifier::external_body]
pub struct ExXmlError(quick_xml::Error);

/// The kinds of I/O errors that this library tells apart; every other kind is `Other`.
#[derive(Clone, Copy, Debug, PartialEq, Eq)]
pub enum IoErrorKind {
    InvalidInput,
    InvalidData,
    UnexpectedEof,
    Other,
}

/// The kind of an I/O error, as `std::io::Error::kind` gives it; the kinds
/// `InvalidInput`, `InvalidData` and `UnexpectedEof` of `std::io::ErrorKind` are the
/// variants of the same name, every other kind is `Other`.
pub uninterp spec fn io_error_kind(e: std::io::Error) -> IoErrorKind;

/// What an I/O error made by this library holds.
pub enum IoErrorPayload {
    /// A message.
    Message(String),
    /// An error of the XML reader.
    Xml(quick_xml::Error),
}

/// The I/O error that `std::io::Error::new` builds from the `std::io::ErrorKind` of
/// the same name as `kind` (`Other` for `Other`) and the payload.
pub uninterp spec fn io_error_made(kind: IoErrorKind, payload: IoErrorPayload) -> std::io::Error;

/// Calls `std::io::Error::new` with the `std::io::ErrorKind` of the same name as `kind`
/// (`Other` for `Other`) and the payload. Claims that the result is the one named by
/// `io_error_made` for these arguments and, as the documentation of
/// `std::io::Error::kind` shows, that it has that kind.
#[verifier::external_body]
fn io_error_new(kind: IoErrorKind, payload: IoErrorPayload) -> (r: std::io::Error)
    ensures
        r == io_error_made(kind, payload),
        io_error_kind(r) == kind,
{
    let kind = match kind {
        IoErrorKind::InvalidInput => std::io::ErrorKind::InvalidInput,
        IoErrorKind::InvalidData => std::io::ErrorKind::InvalidData,
        IoErrorKind::UnexpectedEof => std::io::ErrorKind::UnexpectedEof,
        IoErrorKind::Other => std::io::ErrorKind::Other,
    };
    match payload {
        IoErrorPayload::Message(message) => std::io::Error::new(kind, message),
        IoErrorPayload::Xml(error) => std::io::Error::new(kind, error),
    }
}

/// Whether a Turtle-family error reports a failure of the reader (its kind is
/// `TurtleErrorKind::Io`).
pub uninterp spec fn turtle_error_is_io(e: rio_turtle::TurtleError) -> bool;

/// The I/O error that the `From<TurtleError>` implementation of `std::io::Error` in
/// `rio_turtle` gives for `e`.
pub uninterp spec fn turtle_error_io(e: rio_turtle::TurtleError) -> std::io::Error;

/// What `std::io::Error::downcast::<TurtleError>` finds in `e`: the `TurtleError` that
/// `e` holds as its payload, if it holds one.
pub uninterp spec fn io_error_turtle_payload(e: std::io::Error) -> Option<rio_turtle::TurtleError>;

/// Calls the `From<TurtleError>` implementation of `std::io::Error` in `rio_turtle`.
/// Claims: the result is the one named by `turtle_error_io`; an error reporting a
/// failure of the reader gives its own I/O error back, and any other becomes an I/O
/// error of kind `UnexpectedEof` (a premature end of file) or `InvalidData` made by
/// `std::io::Error::new` with the error itself as payload, so that `downcast` finds it.
#[verifier::external_body]
fn turtle_error_into_io(error: rio_turtle::TurtleError) -> (r: std::io::Error)
    ensures
        r == turtle_error_io(error),
        !turtle_error_is_io(error) ==> (io_error_kind(r) == IoErrorKind::InvalidData
            || io_error_kind(r) == IoErrorKind::UnexpectedEof),
        !turtle_error_is_io(error) ==> io_error_turtle_payload(r) == Some(error),
{
    std::io::Error::from(error)
}

/// Calls `std::io::Error::downcast::<TurtleError>`. Claims, as its documentation says:
/// the `TurtleError` held as payload comes back, if there is one; otherwise the I/O
/// error itself comes back.
#[verifier::external_body]
fn io_error_downcast_turtle(
    error: std::io::Error,
) -> (r: Result<rio_turtle::TurtleError, std::io::Error>)
    ensures
        r matches Ok(t) ==> io_error_turtle_payload(error) == Some(t),
        r is Err <==> io_error_turtle_payload(error) is None,
        r matches Err(e) ==> e == error,
{
    error.downcast::<rio_turtle::TurtleError>()
}

/// The XML error that an RDF/XML error of kind `Xml` holds (`rio_xml` gives it as the
/// error's source); none for the other kinds.
pub uninterp spec fn rdf_xml_error_xml(e: rio_xml::RdfXmlError) -> Option<quick_xml::Error>;

/// Whether an RDF/XML error reports a failure of the reader: it holds an XML error of
/// the variant `quick_xml::Error::Io`.
pub open spec fn rdf_xml_error_is_io(e: rio_xml::RdfXmlError) -> bool {
    rdf_xml_error_xml(e) matches Some(x) && xml_error_is_io(x)
}

/// The I/O error that the `From<RdfXmlError>` implementation of `std::io::Error` in
/// `rio_xml` gives for `e`.
pub uninterp spec fn rdf_xml_error_io(e: rio_xml::RdfXmlError) -> std::io::Error;

/// Calls the `From<RdfXmlError>` implementation of `std::io::Error` in `rio_xml`.
/// Claims: the result is the one named by `rdf_xml_error_io`; an error reporting a
/// failure of the reader gives its own I/O error back, and any other becomes an I/O
/// error of kind `UnexpectedEof` (an unexpected end of the XML) or `InvalidData`.
#[verifier::external_body]
fn rdf_xml_error_into_io(error: rio_xml::RdfXmlError) -> (r: std::io::Error)
    ensures
        r == rdf_xml_error_io(error),
        !rdf_xml_error_is_io(error) ==> (io_error_kind(r) == IoErrorKind::InvalidData
            || io_error_kind(r) == IoErrorKind::UnexpectedEof),
{
    std::io::Error::from(error)
}

/// The XML error that an RDF/XML error holds, if it holds one: its source (the
/// `Error::source` of `rio_xml`), taken as a `quick_xml::Error` with `downcast_ref`.
/// `rio_xml` gives an XML error as source exactly for its errors of kind `Xml`.
#[verifier::external_body]
fn rdf_xml_error_xml_source(error: &rio_xml::RdfXmlError) -> (r: Option<&quick_xml::Error>)
    ensures
        r is None <==> rdf_xml_error_xml(*error) is None,
        r matches Some(x) ==> rdf_xml_error_xml(*error) == Some(*x),
{
    std::error::Error::source(error).and_then(|s| s.downcast_ref::<quick_xml::Error>())
}

/// Whether an XML error is of the variant `quick_xml::Error::Io`.
pub uninterp spec fn xml_error_is_io(e: quick_xml::Error) -> bool;

/// The I/O error that an XML error of the variant `quick_xml::Error::Io` holds.
pub uninterp spec fn xml_error_io(e: quick_xml::Error) -> std::io::Error;

/// Whether an XML error is of the variant `quick_xml::Error::UnexpectedEof`.
pub uninterp spec fn xml_error_is_unexpected_eof(e: quick_xml::Error) -> bool;

/// The message that an XML error of the variant `quick_xml::Error::UnexpectedEof` holds.
pub uninterp spec fn xml_error_eof_message(e: quick_xml::Error) -> Seq<char>;

/// Tells the variant `quick_xml::Error::Io` apart, on a borrowed error.
#[verifier::external_body]
fn xml_error_is_io_variant(error: &quick_xml::Error) -> (r: bool)
    ensures
        r == xml_error_is_io(*error),
{
    match error {
        quick_xml::Error::Io(_) => true,
        _ => false,
    }
}

/// Tells the variant `quick_xml::Error::Io` apart: gives back the I/O error it holds,
/// or the error as it came.
#[verifier::external_body]
fn xml_error_into_io_variant(
    error: quick_xml::Error,
) -> (r: Result<std::io::Error, quick_xml::Error>)
    ensures
        r is Ok <==> xml_error_is_io(error),
        r matches Ok(io) ==> io == xml_error_io(error),
        r matches Err(e) ==> e == error,
{
    match error {
        quick_xml::Error::Io(error) => Ok(error),
        error => Err(error),
    }
}

/// Tells the variant `quick_xml::Error::UnexpectedEof` apart: gives back its message,
/// or the error as it came.
#[verifier::external_body]
fn xml_error_into_eof_message(error: quick_xml::Error) -> (r: Result<String, quick_xml::Error>)
    ensures
        r is Ok <==> xml_error_is_unexpected_eof(error),
        r matches Ok(m) ==> m@ == xml_error_eof_message(error),
        r matches Err(e) ==> e == error,
{
    match error {
        quick_xml::Error::UnexpectedEof(message) => Ok(message),
        error => Err(error),
    }
}

/// The error that a Turtle-family error is reported as: the I/O error that
/// `rio_turtle` converts it into, or, where that I/O error holds a `TurtleError` as
/// payload, a syntax error that keeps that `TurtleError`.
pub open spec fn turtle_parser_error(e: rio_turtle::TurtleError) -> ParserError {
    match io_error_turtle_payload(turtle_error_io(e)) {
        Some(t) => ParserError::Syntax(SyntaxError { inner: SyntaxErrorKind::Turtle(t) }),
        None => ParserError::Io(turtle_error_io(e)),
    }
}

/// Error returned while parsing an RDF document.
#[derive(Debug)]
pub enum ParserError {
    /// I/O error during parsing (file not found...).
    Io(std::io::Error),
    /// An error in the file syntax.
    Syntax(SyntaxError),
}

/// An error in the syntax of the parsed file.
#[derive(Debug)]
pub struct SyntaxError {
    pub inner: SyntaxErrorKind,
}

/// What a syntax error is about.
#[derive(Debug)]
pub enum SyntaxErrorKind {
    Turtle(rio_turtle::TurtleError),
    RdfXml(rio_xml::RdfXmlError),
    BaseIri { iri: String, error: oxiri::IriParseError },
    Xml(quick_xml::Error),
    Term(TermParseError),
    Msg { msg: String },
}

/// The error that a syntax error keeps, if it keeps one.
pub enum SyntaxErrorSource<'a> {
    Turtle(&'a rio_turtle::TurtleError),
    RdfXml(&'a rio_xml::RdfXmlError),
    Xml(&'a quick_xml::Error),
    Term(&'a TermParseError),
}

/// The error that a parser error keeps.
pub enum ParserErrorSource<'a> {
    Io(&'a std::io::Error),
    Syntax(&'a SyntaxError),
}

/// How the I/O error that reports a syntax error is made.
pub enum IoErrorParts {
    /// Already made: by the conversion of the outside error the syntax error keeps, or
    /// the I/O error that an XML error carries.
    Made(std::io::Error),
    /// To be made with `std::io::Error::new` from a kind and a payload.
    New { kind: IoErrorKind, payload: IoErrorPayload },
}

/// The prefix of the message of an invalid base IRI.
pub open spec fn base_iri_message_prefix(iri: Seq<char>) -> Seq<char> {
    "Invalid base IRI '"@ + iri + "': "@
}

/// The prefix of the message of the I/O error that reports an invalid base IRI.
pub open spec fn base_iri_io_message_prefix(iri: Seq<char>) -> Seq<char> {
    "Invalid IRI '"@ + iri + "': "@
}

/// `text` is the message of a syntax error of kind `kind`: the message of the error it
/// keeps, the invalid IRI and the reason it is invalid, or the message it was built with.
pub open spec fn syntax_message(kind: SyntaxErrorKind, text: String) -> bool {
    match kind {
        SyntaxErrorKind::Turtle(e) => to_string_from_display_ensures(&e, text),
        SyntaxErrorKind::RdfXml(e) => to_string_from_display_ensures(&e, text),
        SyntaxErrorKind::BaseIri { iri, error } => exists|detail: String|
            #![trigger to_string_from_display_ensures(&error, detail)]
            to_string_from_display_ensures(&error, detail) && text@ == base_iri_message_prefix(
                iri@,
            ) + detail@,
        SyntaxErrorKind::Xml(e) => to_string_from_display_ensures(&e, text),
        SyntaxErrorKind::Term(e) => text@ == e.message@,
        SyntaxErrorKind::Msg { msg } => text@ == msg@,
    }
}

/// `parts` is how the I/O error that reports a syntax error of kind `kind` is made:
/// - the conversions of `rio_turtle` and `rio_xml` make it for their errors, of kind
///   `InvalidData` or `UnexpectedEof` unless the error reports a failure of the reader;
///   an XML error of the variant `Io` holds it;
/// - an invalid base IRI gives the kind `InvalidInput` and the message
///   "Invalid IRI '<iri>': <reason>";
/// - an XML error of the variant `UnexpectedEof` gives the kind `UnexpectedEof` and its
///   message; any other XML error gives the kind `InvalidData` and is kept as payload;
/// - a term error and a message error give the kind `InvalidData` and their message.
pub open spec fn io_error_parts_of(kind: SyntaxErrorKind, parts: IoErrorParts) -> bool {
    match kind {
        SyntaxErrorKind::Turtle(e) => parts == IoErrorParts::Made(turtle_error_io(e)) && (
        !turtle_error_is_io(e) ==> (io_error_kind(turtle_error_io(e)) == IoErrorKind::InvalidData
            || io_error_kind(turtle_error_io(e)) == IoErrorKind::UnexpectedEof)),
        SyntaxErrorKind::RdfXml(e) => parts == IoErrorParts::Made(rdf_xml_error_io(e)) && (
        !rdf_xml_error_is_io(e) ==> (io_error_kind(rdf_xml_error_io(e)) == IoErrorKind::InvalidData
            || io_error_kind(rdf_xml_error_io(e)) == IoErrorKind::UnexpectedEof)),
        SyntaxErrorKind::BaseIri { iri, error } => parts matches IoErrorParts::New {
            kind: IoErrorKind::InvalidInput,
            payload: IoErrorPayload::Message(m),
        } && exists|detail: String|
            #![trigger to_string_from_display_ensures(&error, detail)]
            to_string_from_display_ensures(&error, detail) && m@ == base_iri_io_message_prefix(
                iri@,
            ) + detail@,
        SyntaxErrorKind::Xml(x) => if xml_error_is_io(x) {
            parts == IoErrorParts::Made(xml_error_io(x))
        } else if xml_error_is_unexpected_eof(x) {
            parts matches IoErrorParts::New {
                kind: IoErrorKind::UnexpectedEof,
                payload: IoErrorPayload::Message(m),
            } && m@ == xml_error_eof_message(x)
        } else {
            parts == IoErrorParts::New {
                kind: IoErrorKind::InvalidData,
                payload: IoErrorPayload::Xml(x),
            }
        },
        SyntaxErrorKind::Term(e) => parts matches IoErrorParts::New {
            kind: IoErrorKind::InvalidData,
            payload: IoErrorPayload::Message(m),
        } && m@ == e.message@,
        SyntaxErrorKind::Msg { msg } => parts matches IoErrorParts::New {
            kind: IoErrorKind::InvalidData,
            payload: IoErrorPayload::Message(m),
        } && m@ == msg@,
    }
}

/// The I/O error that `parts` give: the one already made, or the one
/// `std::io::Error::new` builds from the kind and payload.
pub open spec fn io_error_from_parts(parts: IoErrorParts) -> std::io::Error {
    match parts {
        IoErrorParts::Made(e) => e,
        IoErrorParts::New { kind, payload } => io_error_made(kind, payload),
    }
}

/// `r` is the I/O error that reports a syntax error of kind `kind`: the one its parts give.
pub open spec fn syntax_io_error(kind: SyntaxErrorKind, r: std::io::Error) -> bool {
    exists|parts: IoErrorParts|
        #![trigger io_error_parts_of(kind, parts)]
        io_error_parts_of(kind, parts) && io_error_from_parts(parts) == r
}

/// The kind of the I/O error that reports a syntax error of kind `kind`, where this
/// library decides it.
pub open spec fn io_error_kind_of(kind: SyntaxErrorKind) -> Option<IoErrorKind> {
    match kind {
        SyntaxErrorKind::Turtle(_) => None,
        SyntaxErrorKind::RdfXml(_) => None,
        SyntaxErrorKind::BaseIri { .. } => Some(IoErrorKind::InvalidInput),
        SyntaxErrorKind::Xml(x) => if xml_error_is_io(x) {
            None
        } else if xml_error_is_unexpected_eof(x) {
            Some(IoErrorKind::UnexpectedEof)
        } else {
            Some(IoErrorKind::InvalidData)
        },
        SyntaxErrorKind::Term(_) => Some(IoErrorKind::InvalidData),
        SyntaxErrorKind::Msg { .. } => Some(IoErrorKind::InvalidData),
    }
}

/// The I/O error that reports a syntax error of kind `kind` has kind `k`, as far as
/// this library and the conversions of `rio_turtle` and `rio_xml` tell it: the kind
/// this library decides, or, for a Turtle-family or RDF/XML error that reports no
/// failure of the reader, `InvalidData` or `UnexpectedEof`.
pub open spec fn io_error_kind_fits(kind: SyntaxErrorKind, k: IoErrorKind) -> bool {
    &&& io_error_kind_of(kind) matches Some(d) ==> k == d
    &&& match kind {
        SyntaxErrorKind::Turtle(e) => !turtle_error_is_io(e) ==> (k == IoErrorKind::InvalidData
            || k == IoErrorKind::UnexpectedEof),
        SyntaxErrorKind::RdfXml(e) => !rdf_xml_error_is_io(e) ==> (k == IoErrorKind::InvalidData
            || k == IoErrorKind::UnexpectedEof),
        _ => true,
    }
}

/// Builds `prefix + iri + "': " + detail`.
fn iri_message(prefix: &str, iri: &str, detail: &str) -> (r: String)
    ensures
        r@ == prefix@ + iri@ + "': "@ + detail@,
{
    let mut r = prefix.to_owned();
    r.append(iri);
    r.append("': ");
    r.append(detail);
    r
}

impl IoErrorParts {
    /// Makes the I/O error: the one already made, or a new one of the kind and payload.
    pub fn into_io_error(self) -> (r: std::io::Error)
        ensures
            r == io_error_from_parts(self),
            self matches IoErrorParts::New { kind, .. } ==> io_error_kind(r) == kind,
    {
        match self {
            IoErrorParts::Made(error) => error,
            IoErrorParts::New { kind, payload } => io_error_new(kind, payload),
        }
    }
}

impl SyntaxError {
    /// Builds an error from a printable error message.
    pub fn msg(msg: &str) -> (e: SyntaxError)
        ensures
            e.inner matches SyntaxErrorKind::Msg { msg: m } && m@ == msg@,
    {
        SyntaxError { inner: SyntaxErrorKind::Msg { msg: msg.to_owned() } }
    }

    /// The message of the error.
    pub fn message(&self) -> (r: String)
        ensures
            syntax_message(self.inner, r),
    {
        match &self.inner {
            SyntaxErrorKind::Turtle(e) => e.to_string(),
            SyntaxErrorKind::RdfXml(e) => e.to_string(),
            SyntaxErrorKind::BaseIri { iri, error } => {
                let detail = error.to_string();
                let r = iri_message("Invalid base IRI '", iri.as_str(), detail.as_str());
                assert(r@ == base_iri_message_prefix(iri@) + detail@);
                r
            },
            SyntaxErrorKind::Xml(e) => e.to_string(),
            SyntaxErrorKind::Term(e) => e.message.clone(),
            SyntaxErrorKind::Msg { msg } => msg.clone(),
        }
    }

    /// The error that this syntax error keeps: none for an invalid base IRI or a message.
    pub fn source(&self) -> (r: Option<SyntaxErrorSource<'_>>)
        ensures
            self.inner matches SyntaxErrorKind::Turtle(e) ==> r matches Some(
                SyntaxErrorSource::Turtle(f),
            ) && *f == e,
            self.inner matches SyntaxErrorKind::RdfXml(e) ==> r matches Some(
                SyntaxErrorSource::RdfXml(f),
            ) && *f == e,
            self.inner matches SyntaxErrorKind::Xml(e) ==> r matches Some(
                SyntaxErrorSource::Xml(f),
            ) && *f == e,
            self.inner matches SyntaxErrorKind::Term(e) ==> r matches Some(
                SyntaxErrorSource::Term(f),
            ) && *f == e,
            self.inner is BaseIri || self.inner is Msg ==> r is None,
    {
        match &self.inner {
            SyntaxErrorKind::Turtle(e) => Some(SyntaxErrorSource::Turtle(e)),
            SyntaxErrorKind::RdfXml(e) => Some(SyntaxErrorSource::RdfXml(e)),
            SyntaxErrorKind::Xml(e) => Some(SyntaxErrorSource::Xml(e)),
            SyntaxErrorKind::Term(e) => Some(SyntaxErrorSource::Term(e)),
            SyntaxErrorKind::BaseIri { .. } => None,
            SyntaxErrorKind::Msg { .. } => None,
        }
    }

    /// How the I/O error that reports this syntax error is made.
    pub fn into_io_error_parts(self) -> (r: IoErrorParts)
        ensures
            io_error_parts_of(self.inner, r),
    {
        match self.inner {
            SyntaxErrorKind::Turtle(error) => IoErrorParts::Made(turtle_error_into_io(error)),
            SyntaxErrorKind::RdfXml(error) => IoErrorParts::Made(rdf_xml_error_into_io(error)),
            SyntaxErrorKind::BaseIri { iri, error } => {
                let detail = error.to_string();
                let message = iri_message("Invalid IRI '", iri.as_str(), detail.as_str());
                assert(message@ == base_iri_io_message_prefix(iri@) + detail@);
                IoErrorParts::New {
                    kind: IoErrorKind::InvalidInput,
                    payload: IoErrorPayload::Message(message),
                }
            },
            SyntaxErrorKind::Xml(error) => match xml_error_into_io_variant(error) {
                Ok(error) => IoErrorParts::Made(error),
                Err(error) => match xml_error_into_eof_message(error) {
                    Ok(message) => IoErrorParts::New {
                        kind: IoErrorKind::UnexpectedEof,
                        payload: IoErrorPayload::Message(message),
                    },
                    Err(error) => IoErrorParts::New {
                        kind: IoErrorKind::InvalidData,
                        payload: IoErrorPayload::Xml(error),
                    },
                },
            },
            SyntaxErrorKind::Term(error) => IoErrorParts::New {
                kind: IoErrorKind::InvalidData,
                payload: IoErrorPayload::Message(error.message),
            },
            SyntaxErrorKind::Msg { msg } => IoErrorParts::New {
                kind: IoErrorKind::InvalidData,
                payload: IoErrorPayload::Message(msg),
            },
        }
    }

    /// The I/O error that reports this syntax error, made from its parts; its kind is
    /// the one these parts give.
    pub fn into_io_error(self) -> (r: std::io::Error)
        ensures
            syntax_io_error(self.inner, r),
            io_error_kind_fits(self.inner, io_error_kind(r)),
    {
        let ghost inner = self.inner;
        let parts = self.into_io_error_parts();
        proof {
            if let SyntaxErrorKind::Xml(x) = inner {
                if !xml_error_is_io(x) && !xml_error_is_unexpected_eof(x) {
                    assert(parts == IoErrorParts::New {
                        kind: IoErrorKind::InvalidData,
                        payload: IoErrorPayload::Xml(x),
                    });
                }
            }
        }
        let r = parts.into_io_error();
        r
    }
}

impl ParserError {
    /// The error of a base IRI that is no valid IRI; it keeps the IRI and the error.
    pub fn invalid_base_iri(iri: &str, error: oxiri::IriParseError) -> (e: ParserError)
        ensures
            e matches ParserError::Syntax(s) && s.inner matches SyntaxErrorKind::BaseIri {
                iri: i,
                error: f,
            } && i@ == iri@ && f == error,
    {
        ParserError::Syntax(
            SyntaxError { inner: SyntaxErrorKind::BaseIri { iri: iri.to_owned(), error } },
        )
    }

    /// The error of a Turtle-family parser: the I/O error that `rio_turtle` converts it
    /// into, unless that I/O error holds a `TurtleError` as payload, which then becomes
    /// a syntax error. An error that reports no failure of the reader is kept as it is.
    pub fn from_turtle_error(error: rio_turtle::TurtleError) -> (e: ParserError)
        ensures
            e == turtle_parser_error(error),
            !turtle_error_is_io(error) ==> e == ParserError::Syntax(
                SyntaxError { inner: SyntaxErrorKind::Turtle(error) },
            ),
            e is Io ==> turtle_error_is_io(error),
            e matches ParserError::Io(io) ==> io == turtle_error_io(error),
    {
        match io_error_downcast_turtle(turtle_error_into_io(error)) {
            Ok(error) => ParserError::Syntax(SyntaxError { inner: SyntaxErrorKind::Turtle(error) }),
            Err(error) => ParserError::Io(error),
        }
    }

    /// The error of the RDF/XML parser: an I/O error exactly when it reports a failure
    /// of the reader, and then the I/O error that `rio_xml` converts it into (the one
    /// the reader failed with); otherwise a syntax error that keeps it.
    pub fn from_rdf_xml_error(error: rio_xml::RdfXmlError) -> (e: ParserError)
        ensures
            e == (if rdf_xml_error_is_io(error) {
                ParserError::Io(rdf_xml_error_io(error))
            } else {
                ParserError::Syntax(SyntaxError { inner: SyntaxErrorKind::RdfXml(error) })
            }),
    {
        let reader_failed = match rdf_xml_error_xml_source(&error) {
            Some(xml) => xml_error_is_io_variant(xml),
            None => false,
        };
        if reader_failed {
            ParserError::Io(rdf_xml_error_into_io(error))
        } else {
            ParserError::Syntax(SyntaxError { inner: SyntaxErrorKind::RdfXml(error) })
        }
    }

    /// The error of the XML reader once its variant `Io` is told apart: that I/O
    /// error, or a syntax error that keeps the XML error.
    pub fn from_xml_parts(parts: Result<std::io::Error, quick_xml::Error>) -> (e: ParserError)
        ensures
            parts matches Ok(io) ==> e == ParserError::Io(io),
            parts matches Err(x) ==> e == ParserError::Syntax(
                SyntaxError { inner: SyntaxErrorKind::Xml(x) },
            ),
    {
        match parts {
            Ok(error) => ParserError::Io(error),
            Err(error) => ParserError::Syntax(SyntaxError { inner: SyntaxErrorKind::Xml(error) }),
        }
    }

    /// The error of the XML reader: the I/O error of the variant `Io`, a syntax
    /// error that keeps the XML error as it is otherwise.
    pub fn from_xml_error(error: quick_xml::Error) -> (e: ParserError)
        ensures
            e is Io <==> xml_error_is_io(error),
            xml_error_is_io(error) ==> e == ParserError::Io(xml_error_io(error)),
            !xml_error_is_io(error) ==> e == ParserError::Syntax(
                SyntaxError { inner: SyntaxErrorKind::Xml(error) },
            ),
    {
        Self::from_xml_parts(xml_error_into_io_variant(error))
    }

    /// The message of the error.
    pub fn message(&self) -> (r: String)
        ensures
            self matches ParserError::Io(e) ==> to_string_from_display_ensures(e, r),
            self matches ParserError::Syntax(s) ==> syntax_message(s.inner, r),
    {
        match self {
            ParserError::Io(e) => e.to_string(),
            ParserError::Syntax(e) => e.message(),
        }
    }

    /// The error that this error keeps.
    pub fn source(&self) -> (r: ParserErrorSource<'_>)
        ensures
            self matches ParserError::Io(e) ==> r matches ParserErrorSource::Io(f) && *f == e,
            self matches ParserError::Syntax(e) ==> r matches ParserErrorSource::Syntax(f) && *f
                == e,
    {
        match self {
            ParserError::Io(e) => ParserErrorSource::Io(e),
            ParserError::Syntax(e) => ParserErrorSource::Syntax(e),
        }
    }

    /// How the I/O error that reports this error is made: an I/O error is already
    /// made, a syntax error gives the parts it converts into.
    pub fn into_io_error_parts(self) -> (r: IoErrorParts)
        ensures
            self matches ParserError::Io(e) ==> r == IoErrorParts::Made(e),
            self matches ParserError::Syntax(s) ==> io_error_parts_of(s.inner, r),
    {
        match self {
            ParserError::Io(error) => IoErrorParts::Made(error),
            ParserError::Syntax(error) => error.into_io_error_parts(),
        }
    }

    /// The I/O error that reports this error: an I/O error is given back as it is, a
    /// syntax error gives the I/O error it converts into.
    pub fn into_io_error(self) -> (r: std::io::Error)
        ensures
            self matches ParserError::Io(e) ==> r == e,
            self matches ParserError::Syntax(s) ==> syntax_io_error(s.inner, r),
            self matches ParserError::Syntax(s) ==> io_error_kind_fits(s.inner, io_error_kind(r)),
    {
        match self {
            ParserError::Io(error) => error,
            ParserError::Syntax(error) => error.into_io_error(),
        }
    }
}

impl From<std::io::Error> for ParserError {
    fn from(error: std::io::Error) -> (e: ParserError) {
        ParserError::Io(error)
    }
}

impl vstd::std_specs::convert::FromSpecImpl<std::io::Error> for ParserError {
    open spec fn obeys_from_spec() -> bool {
        true
    }

    open spec fn from_spec(error: std::io::Error) -> ParserError {
        ParserError::Io(error)
    }
}

impl From<SyntaxError> for ParserError {
    fn from(error: SyntaxError) -> (e: ParserError) {
        ParserError::Syntax(error)
    }
}

impl vstd::std_specs::convert::FromSpecImpl<SyntaxError> for ParserError {
    open spec fn obeys_from_spec() -> bool {
        true
    }

    open spec fn from_spec(error: SyntaxError) -> ParserError {
        ParserError::Syntax(error)
    }
}

impl From<TermParseError> for ParserError {
    fn from(error: TermParseError) -> (e: ParserError) {
        ParserError::Syntax(SyntaxError { inner: SyntaxErrorKind::Term(error) })
    }
}

impl vstd::std_specs::convert::FromSpecImpl<TermParseError> for ParserError {
    open spec fn obeys_from_spec() -> bool {
        true
    }

    open spec fn from_spec(error: TermParseError) -> ParserError {
        ParserError::Syntax(SyntaxError { inner: SyntaxErrorKind::Term(error) })
    }
}

} // verus!
