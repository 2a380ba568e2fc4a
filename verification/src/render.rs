use vstd::prelude::*;
use vstd::string::StringExecFns;

use crate::errors::OdtError;
use crate::styles::Style;
use crate::tokens::{toks_view, TokenV, Tokens};

verus! {

/// The marker that opens or closes an emphasis span of kind `s`.
pub open spec fn marker(s: Style) -> Seq<char> {
    match s {
        Style::Normal => Seq::<char>::empty(),
        Style::Bold => seq!['*', '*'],
        Style::Italics => seq!['*'],
    }
}

/// The marker that closes the open span `o`, if one is open.
pub open spec fn close_of(o: Option<Style>) -> Seq<char> {
    match o {
        Option::Some(s) => marker(s),
        Option::None => Seq::<char>::empty(),
    }
}

/// The separator that ends a paragraph or heading block.
pub open spec fn para_sep() -> Seq<char> {
    seq!['\n', '\n']
}

/// `n` heading marks in a row.
pub open spec fn hashes(n: int) -> Seq<char>
    decreases n,
{
    if n <= 0 {
        Seq::<char>::empty()
    } else {
        hashes(n - 1).push('#')
    }
}

/// The rendering of `toks` when the span `open` is currently open:
/// `None` marks an emphasis span closed while none was open.
pub open spec fn render_rest(toks: Seq<TokenV>, open: Option<Style>) -> Option<Seq<char>>
    decreases toks.len(),
{
    if toks.len() == 0 {
        Some(Seq::<char>::empty())
    } else {
        let rest = toks.drop_first();
        match toks[0] {
            TokenV::NewLine => match render_rest(rest, None) {
                Some(r) => Some(close_of(open) + para_sep() + r),
                None => None,
            },
            TokenV::Text(s) => match render_rest(rest, open) {
                Some(r) => Some(s + r),
                None => None,
            },
            TokenV::StartStyle(st) => match render_rest(rest, Some(st)) {
                Some(r) => Some(close_of(open) + marker(st) + r),
                None => None,
            },
            TokenV::EndStyle => match open {
                Some(st) => match render_rest(rest, None) {
                    Some(r) => Some(marker(st) + r),
                    None => None,
                },
                None => None,
            },
            TokenV::Heading(n) => match render_rest(rest, open) {
                Some(r) => Some(hashes(n) + seq![' '] + r),
                None => None,
            },
            TokenV::Quotation => match render_rest(rest, open) {
                Some(r) => Some(seq!['>'] + r),
                None => None,
            },
        }
    }
}

/// The rendering of a whole token sequence, starting with no span open.
pub open spec fn render_spec(toks: Seq<TokenV>) -> Option<Seq<char>> {
    render_rest(toks, None)
}

/// Two renderings of the same token sequence are the same text: the
/// renderer is deterministic.
pub proof fn lemma_render_deterministic(toks: Seq<TokenV>, r1: Seq<char>, r2: Seq<char>)
    requires
        render_spec(toks) == Some(r1),
        render_spec(toks) == Some(r2),
    ensures
        r1 == r2,
{
}

/// Appends the marker that closes `open`, if any.
fn emit_close(out: &mut String, open: &Option<Style>)
    ensures
        final(out)@ == old(out)@ + close_of(*open),
{
    match open {
        None => {
            proof {
                assert(old(out)@ + close_of(*open) =~= old(out)@);
            }
        },
        Some(Style::Normal) => {
            proof {
                assert(old(out)@ + close_of(*open) =~= old(out)@);
            }
        },
        Some(Style::Bold) => {
            out.append("**");
            proof {
                reveal_strlit("**");
                assert("**"@ =~= marker(Style::Bold));
            }
        },
        Some(Style::Italics) => {
            out.append("*");
            proof {
                reveal_strlit("*");
                assert("*"@ =~= marker(Style::Italics));
            }
        },
    }
}

/// Renders the token sequence into the target markup by one left-to-right
/// pass, keeping at most one emphasis span open. Fails exactly when a span
/// is closed while none is open.
pub fn convert(tokens: &Vec<Tokens>) -> (r: Result<String, OdtError>)
    ensures
        render_spec(toks_view(tokens@)) matches Some(md) ==> (r matches Ok(s) && s@ == md),
        render_spec(toks_view(tokens@)) is None ==> (r matches Err(e) && e is UnmatchedCloseError),
{
    let ghost all = toks_view(tokens@);
    let mut out = String::new();
    let mut open: Option<Style> = None;
    let mut i: usize = 0;
    proof {
        assert(all.skip(0) =~= all);
        if let Some(rest) = render_rest(all, None) {
            assert(Seq::<char>::empty() + rest =~= rest);
        }
    }
    while i < tokens.len()
        invariant
            i <= tokens.len(),
            all == toks_view(tokens@),
            match render_rest(all.skip(i as int), open) {
                Some(rest) => render_spec(all) == Some(out@ + rest),
                None => render_spec(all) is None,
            },
        decreases tokens.len() - i,
    {
        let ghost pre = all.skip(i as int);
        let ghost open0 = open;
        let ghost out0 = out@;
        proof {
            assert(all[i as int] == tokens@[i as int]@);
            assert(pre[0] == all[i as int]);
            assert(pre.drop_first() =~= all.skip(i as int + 1));
        }
        match &tokens[i] {
            Tokens::NewLine => {
                emit_close(&mut out, &open);
                out.append("\n\n");
                open = None;
                proof {
                    reveal_strlit("\n\n");
                    assert("\n\n"@ =~= para_sep());
                    if let Some(r) = render_rest(pre.drop_first(), None) {
                        assert(out@ + r =~= out0 + (close_of(open0) + para_sep() + r));
                    }
                }
            },
            Tokens::Text(x) => {
                out.append(x.as_str());
                proof {
                    if let Some(r) = render_rest(pre.drop_first(), open) {
                        assert(out@ + r =~= out0 + (x@ + r));
                    }
                }
            },
            Tokens::StartStyle(st) => {
                emit_close(&mut out, &open);
                match st {
                    Style::Normal => {},
                    Style::Bold => {
                        out.append("**");
                        proof {
                            reveal_strlit("**");
                            assert("**"@ =~= marker(Style::Bold));
                        }
                    },
                    Style::Italics => {
                        out.append("*");
                        proof {
                            reveal_strlit("*");
                            assert("*"@ =~= marker(Style::Italics));
                        }
                    },
                }
                open = Some(*st);
                proof {
                    assert(out@ =~= out0 + close_of(open0) + marker(*st));
                    if let Some(r) = render_rest(pre.drop_first(), Some(*st)) {
                        assert(out@ + r =~= out0 + (close_of(open0) + marker(*st) + r));
                    }
                }
            },
            Tokens::EndStyle => {
                match open {
                    None => {
                        return Err(OdtError::UnmatchedCloseError);
                    },
                    Some(_) => {
                        emit_close(&mut out, &open);
                        open = None;
                        proof {
                            if let Some(r) = render_rest(pre.drop_first(), None) {
                                assert(out@ + r =~= out0 + (marker(open0->0) + r));
                            }
                        }
                    },
                }
            },
            Tokens::Heading(n) => {
                let mut j: usize = 0;
                proof {
                    assert(out@ =~= out0 + hashes(0));
                }
                while j < *n
                    invariant
                        j <= *n,
                        out@ == out0 + hashes(j as int),
                    decreases *n - j,
                {
                    out.append("#");
                    proof {
                        reveal_strlit("#");
                        assert(out@ =~= out0 + hashes(j as int + 1));
                    }
                    j = j + 1;
                }
                out.append(" ");
                proof {
                    reveal_strlit(" ");
                    assert(" "@ =~= seq![' ']);
                    if let Some(r) = render_rest(pre.drop_first(), open) {
                        assert(out@ + r =~= out0 + (hashes(*n as int) + seq![' '] + r));
                    }
                }
            },
            Tokens::Quotation => {
                out.append(">");
                proof {
                    reveal_strlit(">");
                    assert(">"@ =~= seq!['>']);
                    if let Some(r) = render_rest(pre.drop_first(), open) {
                        assert(out@ + r =~= out0 + (seq!['>'] + r));
                    }
                }
            },
        }
        i = i + 1;
    }
    proof {
        assert(all.skip(tokens.len() as int) =~= Seq::<TokenV>::empty());
        assert(out@ + Seq::<char>::empty() =~= out@);
    }
    Ok(out)
}

} // verus!
