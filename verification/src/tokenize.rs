use vstd::prelude::*;

use crate::errors::OdtError;
use crate::events::{attrs_view, events_view, AttrV, EventV, RawEvent, XmlAttr};
use crate::styles::{commit_style, pending_name_view, table_lookup, HashAdder, Style, StyleTable};
use crate::text::{chars_of, parse_level_usize, parse_usize_chars, seq_contains, str_contains};
use crate::tokens::{toks_view, TokenV, Tokens};

verus! {

/// The ways a scan over the event stream can fail.
pub enum TokErr {
    /// A style definition declared a name or a style twice, or committed
    /// without a name.
    Builder,
    /// An outline level that is not a machine-sized positive numeral.
    Level,
}

/// Whether the scan failure `e` is reported as the error `err`.
pub open spec fn tok_err_matches(e: TokErr, err: OdtError) -> bool {
    match e {
        TokErr::Builder => err is StyleBuilderViolation,
        TokErr::Level => err is MarkupParseError,
    }
}

/// The tokenizer's state between events: the pending builder slots and the
/// committed style table.
#[verifier::ext_equal]
pub struct ScanState {
    pub pending_name: Option<Seq<char>>,
    pub pending_style: Option<Style>,
    pub table: Seq<(Seq<char>, Style)>,
}

/// The state before any event: nothing pending, no style committed.
pub open spec fn initial_scan_state() -> ScanState {
    ScanState { pending_name: None, pending_style: None, table: Seq::empty() }
}

/// Whether `a` is an italic font-style property.
pub open spec fn is_italic_attr(a: AttrV) -> bool {
    a.name == "font-style"@ && a.value == "italic"@
}

/// Whether `a` is a bold font-weight property.
pub open spec fn is_bold_attr(a: AttrV) -> bool {
    a.name == "font-weight"@ && a.value == "bold"@
}

/// The style resolved by the first recognized formatting property of a
/// text-properties element, in written order.
pub open spec fn first_style(attrs: Seq<AttrV>) -> Option<Style>
    decreases attrs.len(),
{
    if attrs.len() == 0 {
        None
    } else if is_italic_attr(attrs[0]) {
        Some(Style::Italics)
    } else if is_bold_attr(attrs[0]) {
        Some(Style::Bold)
    } else {
        first_style(attrs.drop_first())
    }
}

/// The pending name after a style-definition element declares its "name"
/// attributes: declaring a name while one is pending is a violation.
pub open spec fn scan_names(pending: Option<Seq<char>>, attrs: Seq<AttrV>) -> Result<
    Option<Seq<char>>,
    TokErr,
>
    decreases attrs.len(),
{
    if attrs.len() == 0 {
        Ok(pending)
    } else if attrs[0].name == "name"@ {
        if pending is Some {
            Err(TokErr::Builder)
        } else {
            scan_names(Some(attrs[0].value), attrs.drop_first())
        }
    } else {
        scan_names(pending, attrs.drop_first())
    }
}

/// The tokens a paragraph-open element emits: a quotation mark for every
/// attribute valued "Quotations", and a span start for every attribute whose
/// value names a committed style. Resolution is by value, whatever the
/// attribute's name.
pub open spec fn para_tokens(table: Seq<(Seq<char>, Style)>, attrs: Seq<AttrV>) -> Seq<TokenV>
    decreases attrs.len(),
{
    if attrs.len() == 0 {
        Seq::empty()
    } else {
        let q: Seq<TokenV> = if attrs[0].value == "Quotations"@ {
            seq![TokenV::Quotation]
        } else {
            Seq::empty()
        };
        let s: Seq<TokenV> = match table_lookup(table, attrs[0].value) {
            Some(st) => seq![TokenV::StartStyle(st)],
            None => Seq::empty(),
        };
        q + s + para_tokens(table, attrs.drop_first())
    }
}

/// The tokens a span-open element emits: a span start for every attribute
/// whose value names a committed style.
pub open spec fn span_tokens(table: Seq<(Seq<char>, Style)>, attrs: Seq<AttrV>) -> Seq<TokenV>
    decreases attrs.len(),
{
    if attrs.len() == 0 {
        Seq::empty()
    } else {
        let s: Seq<TokenV> = match table_lookup(table, attrs[0].value) {
            Some(st) => seq![TokenV::StartStyle(st)],
            None => Seq::empty(),
        };
        s + span_tokens(table, attrs.drop_first())
    }
}

/// The tokens a heading-open element emits: one heading token for every
/// "outline-level" attribute; a level that is not a machine-sized numeral
/// aborts the scan.
pub open spec fn heading_tokens(attrs: Seq<AttrV>) -> Result<Seq<TokenV>, TokErr>
    decreases attrs.len(),
{
    if attrs.len() == 0 {
        Ok(Seq::empty())
    } else if attrs[0].name == "outline-level"@ {
        match parse_level_usize(attrs[0].value) {
            Some(v) => match heading_tokens(attrs.drop_first()) {
                Ok(t) => Ok(seq![TokenV::Heading(v)] + t),
                Err(e) => Err(e),
            },
            None => Err(TokErr::Level),
        }
    } else {
        heading_tokens(attrs.drop_first())
    }
}

/// What an element-open event does to the scan: the new state and the tokens
/// it emits. Element names are matched by containment against the fixed
/// fragments, in this order.
pub open spec fn step_open(st: ScanState, name: Seq<char>, attrs: Seq<AttrV>) -> Result<
    (ScanState, Seq<TokenV>),
    TokErr,
> {
    if seq_contains(name, "style:style"@) {
        match scan_names(st.pending_name, attrs) {
            Ok(p) => Ok((ScanState { pending_name: p, ..st }, Seq::empty())),
            Err(e) => Err(e),
        }
    } else if seq_contains(name, "style:text-properties"@) {
        let styres: Result<Option<Style>, TokErr> = match first_style(attrs) {
            Some(sty) => if st.pending_style is Some {
                Err(TokErr::Builder)
            } else {
                Ok(Some(sty))
            },
            None => Ok(st.pending_style),
        };
        match styres {
            Err(e) => Err(e),
            Ok(s) => match st.pending_name {
                None => Err(TokErr::Builder),
                Some(n) => Ok(
                    (
                        ScanState {
                            pending_name: None,
                            pending_style: None,
                            table: st.table.push((n, commit_style(s))),
                        },
                        Seq::empty(),
                    ),
                ),
            },
        }
    } else if seq_contains(name, "text:p"@) {
        Ok((st, para_tokens(st.table, attrs)))
    } else if seq_contains(name, "text:span"@) {
        Ok((st, span_tokens(st.table, attrs)))
    } else if seq_contains(name, "text:h"@) {
        match heading_tokens(attrs) {
            Ok(t) => Ok((st, t)),
            Err(e) => Err(e),
        }
    } else {
        Ok((st, Seq::empty()))
    }
}

/// The tokens an element-close event emits.
pub open spec fn step_close(name: Seq<char>) -> Seq<TokenV> {
    if seq_contains(name, "text:p"@) {
        seq![TokenV::NewLine]
    } else if seq_contains(name, "text:span"@) {
        seq![TokenV::EndStyle]
    } else if seq_contains(name, "text:h"@) {
        seq![TokenV::NewLine]
    } else {
        Seq::empty()
    }
}

/// One forward scan over the events, from state `st` with `toks` already
/// emitted.
pub open spec fn scan_events(st: ScanState, toks: Seq<TokenV>, events: Seq<EventV>) -> Result<
    Seq<TokenV>,
    TokErr,
>
    decreases events.len(),
{
    if events.len() == 0 {
        Ok(toks)
    } else {
        match events[0] {
            EventV::Open { name, attrs } => match step_open(st, name, attrs) {
                Ok(res) => scan_events(res.0, toks + res.1, events.drop_first()),
                Err(e) => Err(e),
            },
            EventV::Close { name } => scan_events(st, toks + step_close(name), events.drop_first()),
            EventV::Text { data } => scan_events(
                st,
                toks.push(TokenV::Text(data)),
                events.drop_first(),
            ),
            EventV::Other => scan_events(st, toks, events.drop_first()),
        }
    }
}

/// The token sequence of a whole event stream.
pub open spec fn tokenize_spec(events: Seq<EventV>) -> Result<Seq<TokenV>, TokErr> {
    scan_events(initial_scan_state(), Seq::empty(), events)
}

/// A style definition none of whose properties is a recognized formatting
/// attribute resolves no style, so it commits as Normal.
pub proof fn lemma_unstyled_definition_is_normal(attrs: Seq<AttrV>)
    requires
        forall|i: int|
            0 <= i < attrs.len() ==> !is_italic_attr(#[trigger] attrs[i]) && !is_bold_attr(
                attrs[i],
            ),
    ensures
        first_style(attrs) is None,
        commit_style(first_style(attrs)) == Style::Normal,
    decreases attrs.len(),
{
    if attrs.len() > 0 {
        assert forall|i: int|
            0 <= i < attrs.drop_first().len() implies !is_italic_attr(
            #[trigger] attrs.drop_first()[i],
        ) && !is_bold_attr(attrs.drop_first()[i]) by {
            assert(attrs.drop_first()[i] == attrs[i + 1]);
        }
        lemma_unstyled_definition_is_normal(attrs.drop_first());
    }
}

/// When a bold indicator stands before any other recognized indicator among
/// a definition's properties, the resolved style is Bold: the first
/// recognized property in written order wins.
pub proof fn lemma_bold_first_wins(attrs: Seq<AttrV>, i: int)
    requires
        0 <= i < attrs.len(),
        is_bold_attr(attrs[i]),
        forall|j: int|
            0 <= j < i ==> !is_italic_attr(#[trigger] attrs[j]) && !is_bold_attr(attrs[j]),
    ensures
        first_style(attrs) == Some(Style::Bold),
    decreases i,
{
    reveal_strlit("font-style");
    reveal_strlit("font-weight");
    assert("font-style"@.len() != "font-weight"@.len());
    if i == 0 {
        assert(!is_italic_attr(attrs[0]));
    } else {
        assert(attrs.drop_first()[i - 1] == attrs[i]);
        assert forall|j: int|
            0 <= j < i - 1 implies !is_italic_attr(#[trigger] attrs.drop_first()[j])
            && !is_bold_attr(attrs.drop_first()[j]) by {
            assert(attrs.drop_first()[j] == attrs[j + 1]);
        }
        lemma_bold_first_wins(attrs.drop_first(), i - 1);
    }
}

/// The scan state carried by the executable pieces.
pub open spec fn state_of(h: HashAdder, t: StyleTable) -> ScanState {
    ScanState { pending_name: pending_name_view(h.name), pending_style: h.style, table: t@ }
}

/// Handles one element-open event: style definitions feed the builder and
/// the table, paragraphs, spans and headings emit tokens.
pub fn handle_start_element(
    tokens: &mut Vec<Tokens>,
    hash: &mut StyleTable,
    hashadder: &mut HashAdder,
    name: &String,
    attributes: &Vec<XmlAttr>,
) -> (r: Result<(), OdtError>)
    ensures
        ({
            let pre = state_of(*old(hashadder), *old(hash));
            match step_open(pre, name@, attrs_view(attributes@)) {
                Ok(res) => r is Ok && state_of(*final(hashadder), *final(hash)) == res.0
                    && toks_view(final(tokens)@) == toks_view(old(tokens)@) + res.1,
                Err(e) => r matches Err(err) && tok_err_matches(e, err),
            }
        }),
{
    let ghost pre = state_of(*old(hashadder), *old(hash));
    let ghost av = attrs_view(attributes@);
    if str_contains(name.as_str(), "style:style") {
        let name_key: String = "name".to_owned();
        let mut i: usize = 0;
        proof {
            assert(av.skip(0) =~= av);
        }
        while i < attributes.len()
            invariant
                i <= attributes.len(),
                av == attrs_view(attributes@),
                pre == state_of(*old(hashadder), *old(hash)),
                *hash == *old(hash),
                *tokens == *old(tokens),
                hashadder.style == old(hashadder).style,
                seq_contains(name@, "style:style"@),
                scan_names(pre.pending_name, av) == scan_names(
                    pending_name_view(hashadder.name),
                    av.skip(i as int),
                ),
                name_key@ == "name"@,
            decreases attributes.len() - i,
        {
            proof {
                assert(av[i as int] == attributes@[i as int]@);
                assert(av.skip(i as int)[0] == av[i as int]);
                assert(av.skip(i as int).drop_first() =~= av.skip(i as int + 1));
            }
            if attributes[i].name == name_key {
                match hashadder.add_name(attributes[i].value.clone()) {
                    Ok(_) => {},
                    Err(e) => {
                        return Err(e);
                    },
                }
            }
            i = i + 1;
        }
        proof {
            assert(av.skip(attributes.len() as int) =~= Seq::<AttrV>::empty());
            let res = step_open(pre, name@, av)->Ok_0;
            assert(state_of(*hashadder, *hash) =~= res.0);
            assert(toks_view(tokens@) + Seq::<TokenV>::empty() =~= toks_view(tokens@));
        }
        Ok(())
    } else if str_contains(name.as_str(), "style:text-properties") {
        let key_style: String = "font-style".to_owned();
        let key_weight: String = "font-weight".to_owned();
        let val_italic: String = "italic".to_owned();
        let val_bold: String = "bold".to_owned();
        let mut found: Option<Style> = None;
        let mut i: usize = 0;
        proof {
            assert(av.skip(0) =~= av);
        }
        while i < attributes.len() && found.is_none()
            invariant
                i <= attributes.len(),
                av == attrs_view(attributes@),
                pre == state_of(*old(hashadder), *old(hash)),
                key_style@ == "font-style"@,
                key_weight@ == "font-weight"@,
                val_italic@ == "italic"@,
                val_bold@ == "bold"@,
                found is None ==> first_style(av) == first_style(av.skip(i as int)),
                found matches Some(sty) ==> first_style(av) == Some(sty),
            decreases attributes.len() - i,
        {
            proof {
                assert(av[i as int] == attributes@[i as int]@);
                assert(av.skip(i as int)[0] == av[i as int]);
                assert(av.skip(i as int).drop_first() =~= av.skip(i as int + 1));
            }
            if attributes[i].name == key_style && attributes[i].value == val_italic {
                found = Some(Style::Italics);
            } else if attributes[i].name == key_weight && attributes[i].value == val_bold {
                found = Some(Style::Bold);
            }
            i = i + 1;
        }
        proof {
            if i == attributes.len() {
                assert(av.skip(attributes.len() as int) =~= Seq::<AttrV>::empty());
            }
        }
        if let Some(sty) = found {
            match hashadder.add_style(sty) {
                Ok(_) => {},
                Err(e) => {
                    return Err(e);
                },
            }
        }
        match hashadder.add_to_hash(hash) {
            Ok(_) => {
                proof {
                    let res = step_open(pre, name@, av)->Ok_0;
                    assert(state_of(*hashadder, *hash) =~= res.0);
                    assert(toks_view(tokens@) + Seq::<TokenV>::empty() =~= toks_view(tokens@));
                }
                Ok(())
            },
            Err(e) => {
                return Err(e);
            },
        }
    } else if str_contains(name.as_str(), "text:p") {
        let val_quot: String = "Quotations".to_owned();
        let mut i: usize = 0;
        proof {
            assert(av.skip(0) =~= av);
        }
        while i < attributes.len()
            invariant
                i <= attributes.len(),
                av == attrs_view(attributes@),
                pre == state_of(*old(hashadder), *old(hash)),
                *hash == *old(hash),
                *hashadder == *old(hashadder),
                val_quot@ == "Quotations"@,
                toks_view(old(tokens)@) + para_tokens(pre.table, av) == toks_view(tokens@)
                    + para_tokens(pre.table, av.skip(i as int)),
            decreases attributes.len() - i,
        {
            proof {
                assert(av[i as int] == attributes@[i as int]@);
                assert(av.skip(i as int)[0] == av[i as int]);
                assert(av.skip(i as int).drop_first() =~= av.skip(i as int + 1));
            }
            let ghost before = toks_view(tokens@);
            let ghost q: Seq<TokenV> = if av[i as int].value == "Quotations"@ {
                seq![TokenV::Quotation]
            } else {
                Seq::empty()
            };
            let ghost s: Seq<TokenV> = match table_lookup(pre.table, av[i as int].value) {
                Some(st) => seq![TokenV::StartStyle(st)],
                None => Seq::empty(),
            };
            if attributes[i].value == val_quot {
                tokens.push(Tokens::Quotation);
                proof {
                    assert(toks_view(tokens@) =~= before + q);
                }
            } else {
                proof {
                    assert(toks_view(tokens@) =~= before + q);
                }
            }
            let ghost mid = toks_view(tokens@);
            match hash.get(&attributes[i].value) {
                Some(x) => {
                    tokens.push(Tokens::StartStyle(x));
                    proof {
                        assert(toks_view(tokens@) =~= mid + s);
                    }
                },
                None => {
                    proof {
                        assert(toks_view(tokens@) =~= mid + s);
                    }
                },
            }
            proof {
                assert(toks_view(tokens@) =~= before + q + s);
                assert(before + q + s + para_tokens(pre.table, av.skip(i as int + 1))
                    =~= before + (q + s + para_tokens(pre.table, av.skip(i as int + 1))));
                assert(toks_view(old(tokens)@) + para_tokens(pre.table, av) == toks_view(tokens@)
                    + para_tokens(pre.table, av.skip(i as int + 1)));
            }
            i = i + 1;
        }
        proof {
            assert(av.skip(attributes.len() as int) =~= Seq::<AttrV>::empty());
            assert(toks_view(tokens@) + Seq::<TokenV>::empty() =~= toks_view(tokens@));
        }
        Ok(())
    } else if str_contains(name.as_str(), "text:span") {
        let mut i: usize = 0;
        proof {
            assert(av.skip(0) =~= av);
        }
        while i < attributes.len()
            invariant
                i <= attributes.len(),
                av == attrs_view(attributes@),
                pre == state_of(*old(hashadder), *old(hash)),
                *hash == *old(hash),
                *hashadder == *old(hashadder),
                toks_view(old(tokens)@) + span_tokens(pre.table, av) == toks_view(tokens@)
                    + span_tokens(pre.table, av.skip(i as int)),
            decreases attributes.len() - i,
        {
            proof {
                assert(av[i as int] == attributes@[i as int]@);
                assert(av.skip(i as int)[0] == av[i as int]);
                assert(av.skip(i as int).drop_first() =~= av.skip(i as int + 1));
            }
            let ghost before = toks_view(tokens@);
            let ghost s: Seq<TokenV> = match table_lookup(pre.table, av[i as int].value) {
                Some(st) => seq![TokenV::StartStyle(st)],
                None => Seq::empty(),
            };
            match hash.get(&attributes[i].value) {
                Some(x) => {
                    tokens.push(Tokens::StartStyle(x));
                    proof {
                        assert(toks_view(tokens@) =~= before + s);
                    }
                },
                None => {
                    proof {
                        assert(toks_view(tokens@) =~= before + s);
                    }
                },
            }
            proof {
                assert(before + s + span_tokens(pre.table, av.skip(i as int + 1)) =~= before + (s
                    + span_tokens(pre.table, av.skip(i as int + 1))));
            }
            i = i + 1;
        }
        proof {
            assert(av.skip(attributes.len() as int) =~= Seq::<AttrV>::empty());
            assert(toks_view(tokens@) + Seq::<TokenV>::empty() =~= toks_view(tokens@));
        }
        Ok(())
    } else if str_contains(name.as_str(), "text:h") {
        let key_level: String = "outline-level".to_owned();
        let mut i: usize = 0;
        proof {
            assert(av.skip(0) =~= av);
        }
        while i < attributes.len()
            invariant
                i <= attributes.len(),
                av == attrs_view(attributes@),
                pre == state_of(*old(hashadder), *old(hash)),
                *hash == *old(hash),
                *hashadder == *old(hashadder),
                key_level@ == "outline-level"@,
                !seq_contains(name@, "style:style"@),
                !seq_contains(name@, "style:text-properties"@),
                !seq_contains(name@, "text:p"@),
                !seq_contains(name@, "text:span"@),
                seq_contains(name@, "text:h"@),
                match heading_tokens(av.skip(i as int)) {
                    Ok(t) => heading_tokens(av) matches Ok(full) && toks_view(old(tokens)@) + full
                        == toks_view(tokens@) + t,
                    Err(e) => heading_tokens(av) == Err::<Seq<TokenV>, TokErr>(e),
                },
            decreases attributes.len() - i,
        {
            proof {
                assert(av[i as int] == attributes@[i as int]@);
                assert(av.skip(i as int)[0] == av[i as int]);
                assert(av.skip(i as int).drop_first() =~= av.skip(i as int + 1));
            }
            if attributes[i].name == key_level {
                let value_chars = chars_of(attributes[i].value.as_str());
                match parse_usize_chars(&value_chars) {
                    Some(v) => {
                        let ghost before = toks_view(tokens@);
                        tokens.push(Tokens::Heading(v));
                        proof {
                            assert(toks_view(tokens@) =~= before.push(TokenV::Heading(v as int)));
                            if let Ok(t) = heading_tokens(av.skip(i as int + 1)) {
                                assert(before + (seq![TokenV::Heading(v as int)] + t)
                                    =~= before.push(TokenV::Heading(v as int)) + t);
                            }
                        }
                    },
                    None => {
                        return Err(
                            OdtError::MarkupParseError("invalid outline-level value".to_owned()),
                        );
                    },
                }
            }
            i = i + 1;
        }
        proof {
            assert(av.skip(attributes.len() as int) =~= Seq::<AttrV>::empty());
            assert(toks_view(tokens@) + Seq::<TokenV>::empty() =~= toks_view(tokens@));
        }
        Ok(())
    } else {
        proof {
            assert(toks_view(tokens@) + Seq::<TokenV>::empty() =~= toks_view(tokens@));
        }
        Ok(())
    }
}

/// Handles one element-close event: paragraph and heading ends emit a block
/// break, span ends close the open emphasis.
pub fn handle_end_element(tokens: &mut Vec<Tokens>, name: &String)
    ensures
        toks_view(final(tokens)@) == toks_view(old(tokens)@) + step_close(name@),
{
    let ghost before = toks_view(tokens@);
    if str_contains(name.as_str(), "text:p") {
        tokens.push(Tokens::NewLine);
        proof {
            assert(toks_view(tokens@) =~= before + seq![TokenV::NewLine]);
        }
    } else if str_contains(name.as_str(), "text:span") {
        tokens.push(Tokens::EndStyle);
        proof {
            assert(toks_view(tokens@) =~= before + seq![TokenV::EndStyle]);
        }
    } else if str_contains(name.as_str(), "text:h") {
        tokens.push(Tokens::NewLine);
        proof {
            assert(toks_view(tokens@) =~= before + seq![TokenV::NewLine]);
        }
    } else {
        proof {
            assert(toks_view(tokens@) =~= before + Seq::<TokenV>::empty());
        }
    }
}

/// Scans the whole event stream into tokens: style definitions build the
/// table as they are seen, paragraphs, spans, headings and text emit tokens.
pub fn handle_xml(events: &Vec<RawEvent>) -> (r: Result<Vec<Tokens>, OdtError>)
    ensures
        tokenize_spec(events_view(events@)) matches Ok(ts) ==> (r matches Ok(v) && toks_view(v@)
            == ts),
        tokenize_spec(events_view(events@)) matches Err(e) ==> (r matches Err(err)
            && tok_err_matches(e, err)),
{
    let ghost ev = events_view(events@);
    let mut hash = StyleTable::new();
    let mut hashadder = HashAdder::default();
    let mut tokens: Vec<Tokens> = Vec::new();
    let mut i: usize = 0;
    proof {
        assert(ev.skip(0) =~= ev);
        assert(state_of(hashadder, hash) =~= initial_scan_state());
        assert(toks_view(tokens@) =~= Seq::<TokenV>::empty());
    }
    while i < events.len()
        invariant
            i <= events.len(),
            ev == events_view(events@),
            scan_events(state_of(hashadder, hash), toks_view(tokens@), ev.skip(i as int))
                == tokenize_spec(ev),
        decreases events.len() - i,
    {
        proof {
            assert(ev[i as int] == events@[i as int]@);
            assert(ev.skip(i as int)[0] == ev[i as int]);
            assert(ev.skip(i as int).drop_first() =~= ev.skip(i as int + 1));
        }
        match &events[i] {
            RawEvent::Open { name, attrs } => {
                match handle_start_element(&mut tokens, &mut hash, &mut hashadder, name, attrs) {
                    Ok(_) => {},
                    Err(e) => {
                        return Err(e);
                    },
                }
            },
            RawEvent::Close { name } => {
                handle_end_element(&mut tokens, name);
            },
            RawEvent::Text { data } => {
                let ghost before = toks_view(tokens@);
                tokens.push(Tokens::Text(data.clone()));
                proof {
                    assert(toks_view(tokens@) =~= before.push(TokenV::Text(data@)));
                }
            },
            RawEvent::Other => {},
        }
        i = i + 1;
    }
    proof {
        assert(ev.skip(events.len() as int) =~= Seq::<EventV>::empty());
    }
    Ok(tokens)
}

} // verus!
