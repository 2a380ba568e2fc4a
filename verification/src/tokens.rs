use vstd::prelude::*;

use crate::styles::Style;

verus! {

/// The mathematical view of a token: text runs are sequences of characters.
pub enum TokenV {
    NewLine,
    Text(Seq<char>),
    StartStyle(Style),
    EndStyle,
    Heading(int),
    Quotation,
}

/// One semantic token of the document, in reading order: produced once by
/// the tokenizer, consumed once by the renderer.
#[derive(Debug)]
pub enum Tokens {
    /// End of a paragraph or heading block.
    NewLine,
    /// A literal run of characters, emitted verbatim.
    Text(String),
    /// Opens an emphasis span of the given kind.
    StartStyle(Style),
    /// Closes the currently open emphasis span.
    EndStyle,
    /// Start of a heading block at the given outline depth.
    Heading(usize),
    /// Start of a block-quote paragraph.
    Quotation,
}

impl View for Tokens {
    type V = TokenV;

    open spec fn view(&self) -> TokenV {
        match self {
            Tokens::NewLine => TokenV::NewLine,
            Tokens::Text(s) => TokenV::Text(s@),
            Tokens::StartStyle(st) => TokenV::StartStyle(*st),
            Tokens::EndStyle => TokenV::EndStyle,
            Tokens::Heading(n) => TokenV::Heading(*n as int),
            Tokens::Quotation => TokenV::Quotation,
        }
    }
}

/// The views of the tokens of a sequence, in order.
pub open spec fn toks_view(ts: Seq<Tokens>) -> Seq<TokenV> {
    ts.map_values(|t: Tokens| t@)
}

} // verus!
