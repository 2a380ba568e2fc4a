pub mod errors;
pub mod events;
pub mod extract;
pub mod render;
pub mod styles;
pub mod text;
pub mod tokenize;
pub mod tokens;

use vstd::prelude::*;

use crate::errors::OdtError;
use crate::events::{parse_events, xml_events_of};
use crate::extract::{extract_content, extract_spec};
use crate::render::{convert, render_spec};
use crate::tokenize::{handle_xml, tokenize_spec, TokErr};

verus! {

/// The kind of failure a conversion reports, with the diagnostic text
/// abstracted away.
pub enum ErrKind {
    Archive,
    Markup,
    Builder,
    Unmatched,
}

/// The kind of the error `e`.
pub open spec fn err_kind(e: OdtError) -> ErrKind {
    match e {
        OdtError::ArchiveError(_) => ErrKind::Archive,
        OdtError::MarkupParseError(_) => ErrKind::Markup,
        OdtError::StyleBuilderViolation => ErrKind::Builder,
        OdtError::UnmatchedCloseError => ErrKind::Unmatched,
    }
}

/// The outcome a conversion of the archive bytes `b` owes: extract the
/// content stream, tokenize its events, render the tokens; the first layer
/// that refuses the input decides the error kind.
pub open spec fn odt_spec(b: Seq<u8>) -> Result<Seq<char>, ErrKind> {
    match extract_spec(b) {
        Err(_) => Err(ErrKind::Archive),
        Ok(text) => match xml_events_of(text) {
            None => Err(ErrKind::Markup),
            Some(events) => match tokenize_spec(events) {
                Err(TokErr::Builder) => Err(ErrKind::Builder),
                Err(TokErr::Level) => Err(ErrKind::Markup),
                Ok(toks) => match render_spec(toks) {
                    None => Err(ErrKind::Unmatched),
                    Some(md) => Ok(md),
                },
            },
        },
    }
}

/// Converts one document package, given as the bytes of its archive, into
/// the target markup text.
pub fn read_odt_bytes(bytes: &Vec<u8>) -> (r: Result<String, OdtError>)
    ensures
        odt_spec(bytes@) matches Ok(md) ==> (r matches Ok(s) && s@ == md),
        odt_spec(bytes@) matches Err(k) ==> (r matches Err(e) && err_kind(e) == k),
{
    let text = match extract_content(bytes) {
        Ok(t) => t,
        Err(e) => {
            return Err(e);
        },
    };
    let events = match parse_events(&text) {
        Ok(v) => v,
        Err(e) => {
            return Err(e);
        },
    };
    let tokens = match handle_xml(&events) {
        Ok(v) => v,
        Err(e) => {
            return Err(e);
        },
    };
    convert(&tokens)
}

/// Converting the same archive twice yields the same markup, byte for byte:
/// the outcome is a function of the input bytes alone.
pub proof fn lemma_conversion_deterministic(b: Seq<u8>, r1: Seq<char>, r2: Seq<char>)
    requires
        odt_spec(b) == Ok::<Seq<char>, ErrKind>(r1),
        odt_spec(b) == Ok::<Seq<char>, ErrKind>(r2),
    ensures
        r1 == r2,
{
}

} // verus!
