//! Validation of base IRIs.
use vstd::prelude::*;

verus! {

/// The error that `oxiri` reports for a text that is no valid IRI.
#[verifier::external_type_specification]
#[verifier::external_body]
pub struct ExIriParseError(oxiri::IriParseError);

/// The error that `oxiri::Iri::parse` reports for the text `iri`, if it rejects it
/// as no absolute IRI (RFC 3987).
pub uninterp spec fn iri_parse_error(iri: Seq<char>) -> Option<oxiri::IriParseError>;

/// Whether `oxiri::Iri::parse` accepts `iri` as an absolute IRI.
pub open spec fn iri_is_valid(iri: Seq<char>) -> bool {
    iri_parse_error(iri) is None
}

/// Calls `oxiri::Iri::parse` on `iri` and gives back the validated text.
///
/// Claims: the parse fails exactly with the error named by `iri_parse_error` for the
/// text, and on success the text is kept as it was (`Iri::parse` stores its argument
/// and `Iri::into_inner` hands it back).
#[verifier::external_body]
pub(crate) fn parse_iri(iri: String) -> (r: Result<String, oxiri::IriParseError>)
    ensures
        r is Ok <==> iri_is_valid(iri@),
        r matches Err(e) ==> iri_parse_error(iri@) == Some(e),
        r matches Ok(s) ==> s@ == iri@,
{
    oxiri::Iri::parse(iri).map(|parsed| parsed.into_inner())
}

} // verus!
