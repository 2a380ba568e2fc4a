use vstd::prelude::*;
use vstd::string::StringExecFns;

verus! {

/// The ways a conversion can fail.
///
/// `ArchiveError` and `MarkupParseError` carry the diagnostic of the layer
/// that rejected the input; the other two mark invariant breaches in the
/// token stream or the style definitions.
#[derive(Debug)]
pub enum OdtError {
    /// The input bytes are not a valid archive, or an entry could not be read.
    ArchiveError(String),
    /// The document's content stream is not well-formed markup.
    MarkupParseError(String),
    /// A style definition declared a name or a style twice before committing,
    /// or tried to commit without a name.
    StyleBuilderViolation,
    /// An emphasis span was closed while none was open.
    UnmatchedCloseError,
}

impl OdtError {
    /// A human-readable description of the failure.
    pub fn describe(&self) -> String {
        match self {
            OdtError::ArchiveError(m) => {
                let mut s = "could not read archive: ".to_owned();
                s.append(m.as_str());
                s
            },
            OdtError::MarkupParseError(m) => {
                let mut s = "could not parse content: ".to_owned();
                s.append(m.as_str());
                s
            },
            OdtError::StyleBuilderViolation => {
                "style definition declared twice before commit".to_owned()
            },
            OdtError::UnmatchedCloseError => {
                "emphasis span closed while none was open".to_owned()
            },
        }
    }
}

} // verus!
