use vstd::prelude::*;

use crate::token::{Attr, Document, Token, TokenModel};

verus! {

// ---------------------------------------------------------------------------
// The lexer's model
// ---------------------------------------------------------------------------

/// One step of the lexer: a token, the end of the input, or a fault with the
/// lexer's message.
#[derive(Debug, Clone, PartialEq, Eq)]
pub enum LexStep {
    Tok(Token),
    Done,
    Fault(String),
}

#[verifier::ext_equal]
pub enum LexStepModel {
    Tok(TokenModel),
    Done,
    Fault(Seq<char>),
}

impl View for LexStep {
    type V = LexStepModel;

    open spec fn view(&self) -> LexStepModel {
        match self {
            LexStep::Tok(t) => LexStepModel::Tok(t@),
            LexStep::Done => LexStepModel::Done,
            LexStep::Fault(m) => LexStepModel::Fault(m@),
        }
    }
}

/// The step sequence the lexer produces on the given input. Lexing is a
/// function of the bytes alone; its value is not written out here, only named.
pub uninterp spec fn lex_steps(input: Seq<u8>) -> Seq<LexStepModel>;

/// The steps a reader has not yet handed out.
pub uninterp spec fn reader_rest(
    r: quick_xml::Reader<std::io::Cursor<Vec<u8>>>,
) -> Seq<LexStepModel>;

/// The tokens of a step sequence, up to its first terminal step.
pub open spec fn lexed_tokens_from(steps: Seq<LexStepModel>) -> Seq<TokenModel>
    decreases steps.len(),
{
    if steps.len() == 0 {
        Seq::empty()
    } else {
        match steps[0] {
            LexStepModel::Tok(t) => seq![t] + lexed_tokens_from(steps.drop_first()),
            LexStepModel::Done => Seq::empty(),
            LexStepModel::Fault(_) => Seq::empty(),
        }
    }
}

/// The fault that cuts a step sequence short, if any.
pub open spec fn lexed_fault_from(steps: Seq<LexStepModel>) -> Option<Seq<char>>
    decreases steps.len(),
{
    if steps.len() == 0 {
        None
    } else {
        match steps[0] {
            LexStepModel::Tok(_) => lexed_fault_from(steps.drop_first()),
            LexStepModel::Done => None,
            LexStepModel::Fault(m) => Some(m),
        }
    }
}

/// The tokens of the given input bytes.
pub open spec fn lexed_tokens(input: Seq<u8>) -> Seq<TokenModel> {
    lexed_tokens_from(lex_steps(input))
}

/// The lexer fault of the given input bytes, if any.
pub open spec fn lexed_fault(input: Seq<u8>) -> Option<Seq<char>> {
    lexed_fault_from(lex_steps(input))
}

/// The document model the lexer assigns to the given bytes.
pub open spec fn lexed_document(input: Seq<u8>) -> crate::token::DocumentModel {
    crate::token::DocumentModel { tokens: lexed_tokens(input), fault: lexed_fault(input) }
}

// ---------------------------------------------------------------------------
// The trusted boundary around quick_xml
// ---------------------------------------------------------------------------

#[verifier::external_type_specification]
#[verifier::external_body]
#[verifier::reject_recursive_types(R)]
pub struct ExReader<R>(quick_xml::Reader<R>);

#[verifier::external_type_specification]
#[verifier::external_body]
#[verifier::reject_recursive_types(T)]
pub struct ExCursor<T>(std::io::Cursor<T>);

#[verifier::external_type_specification]
#[verifier::external_body]
pub struct ExEvent<'a>(quick_xml::events::Event<'a>);

#[verifier::external_type_specification]
#[verifier::external_body]
pub struct ExBytesStart<'a>(quick_xml::events::BytesStart<'a>);

/// Relies on quick_xml::Reader::from_reader: a fresh reader stands at the
/// start of the given bytes, so its remaining steps are the input's whole
/// step sequence. End-name checking is turned off: matching a directive
/// closing tag against the open directives is this library's own, verified
/// logic, and unrecognized markup passes through unvalidated.
#[verifier::external_body]
fn new_reader(input: &Vec<u8>) -> (r: quick_xml::Reader<std::io::Cursor<Vec<u8>>>)
    ensures
        reader_rest(r) == lex_steps(input@),
{
    let mut r = quick_xml::Reader::from_reader(std::io::Cursor::new(input.clone()));
    r.config_mut().check_end_names = false;
    r.config_mut().allow_unmatched_ends = true;
    r
}

/// Relies on quick_xml::Reader::read_event_into: hands out the reader's next
/// step; past the end of the stream it keeps reporting the end.
#[verifier::external_body]
fn next_step(r: &mut quick_xml::Reader<std::io::Cursor<Vec<u8>>>) -> (s: LexStep)
    ensures
        reader_rest(*old(r)).len() > 0 ==> s@ == reader_rest(*old(r))[0] && reader_rest(*final(r))
            == reader_rest(*old(r)).drop_first(),
        reader_rest(*old(r)).len() == 0 ==> s@ == LexStepModel::Done && reader_rest(*final(r))
            == reader_rest(*old(r)),
{
    let mut buf = Vec::new();
    match r.read_event_into(&mut buf) {
        Err(e) => LexStep::Fault(e.to_string()),
        Ok(quick_xml::events::Event::Eof) => LexStep::Done,
        Ok(ev) => event_step(ev),
    }
}

/// Serves `next_step` only: sorts one quick_xml event into the library's
/// token shape, carrying the event's exact serialized bytes.
#[verifier::external_body]
fn event_step<'a>(ev: quick_xml::events::Event<'a>) -> (s: LexStep)
{
    let raw = match event_bytes(&ev) {
        Ok(raw) => raw,
        Err(m) => return LexStep::Fault(m),
    };
    match ev {
        quick_xml::events::Event::Start(t) => open_token(&t, false, raw),
        quick_xml::events::Event::Empty(t) => open_token(&t, true, raw),
        quick_xml::events::Event::End(t) => LexStep::Tok(Token::Close {
            name: t.name().0.as_bytes().to_vec(),
            raw,
        }),
        _ => LexStep::Tok(Token::Other { raw }),
    }
}

/// Serves `next_step` only. Relies on quick_xml::Writer::write_event: the
/// exact bytes the writer emits for one event.
#[verifier::external_body]
fn event_bytes<'a>(ev: &quick_xml::events::Event<'a>) -> (r: Result<Vec<u8>, String>)
{
    let mut w = quick_xml::Writer::new(Vec::new());
    match w.write_event(ev.clone()) {
        Ok(()) => Ok(w.into_inner()),
        Err(e) => Err(e.to_string()),
    }
}

/// Serves `next_step` only. Relies on BytesStart::name and
/// BytesStart::attributes: the tag's name and its attribute pairs, duplicate
/// names kept so the parser can reject them itself.
#[verifier::external_body]
fn open_token<'a>(
    t: &quick_xml::events::BytesStart<'a>,
    self_closing: bool,
    raw: Vec<u8>,
) -> (s: LexStep)
{
    let mut attrs: Vec<Attr> = Vec::new();
    let mut it = t.attributes();
    it.with_checks(false);
    for a in it {
        match a {
            Ok(a) => attrs.push(Attr {
                name: a.key.0.as_bytes().to_vec(),
                value: a.value.as_bytes().to_vec(),
            }),
            Err(e) => return LexStep::Fault(e.to_string()),
        }
    }
    let name = t.name().0.as_bytes().to_vec();
    LexStep::Tok(Token::Open { name, attrs, self_closing, raw })
}

// ---------------------------------------------------------------------------
// Lexing a whole input
// ---------------------------------------------------------------------------

/// Lexes the given bytes into a document: the tokens before the first lexer
/// fault, and that fault if there is one.
pub fn tokenize(input: &Vec<u8>) -> (d: Document)
    ensures
        d@.tokens == lexed_tokens(input@),
        d@.fault == lexed_fault(input@),
{
    let mut reader = new_reader(input);
    let mut tokens: Vec<Token> = Vec::new();
    loop
        invariant
            lexed_tokens(input@) == tokens@.map_values(|t: Token| t@) + lexed_tokens_from(
                reader_rest(reader),
            ),
            lexed_fault(input@) == lexed_fault_from(reader_rest(reader)),
        decreases reader_rest(reader).len(),
    {
        let ghost rest = reader_rest(reader);
        let s = next_step(&mut reader);
        match s {
            LexStep::Done => {
                proof {
                    assert(lexed_tokens_from(rest) =~= Seq::<TokenModel>::empty());
                    assert(lexed_tokens(input@) =~= tokens@.map_values(|t: Token| t@));
                }
                let d = Document { tokens, fault: None };
                return d;
            },
            LexStep::Fault(m) => {
                proof {
                    assert(rest.len() > 0 && rest[0] == LexStepModel::Fault(m@));
                    assert(lexed_tokens_from(rest) =~= Seq::<TokenModel>::empty());
                    assert(lexed_tokens(input@) =~= tokens@.map_values(|t: Token| t@));
                }
                let d = Document { tokens, fault: Some(m) };
                return d;
            },
            LexStep::Tok(t) => {
                proof {
                    assert(rest.len() > 0 && rest[0] == LexStepModel::Tok(t@));
                    assert(lexed_tokens_from(rest) == seq![t@] + lexed_tokens_from(
                        rest.drop_first(),
                    ));
                    assert((tokens@.map_values(|x: Token| x@) + seq![t@]) =~= tokens@.push(
                        t,
                    ).map_values(|x: Token| x@));
                    assert((tokens@.map_values(|x: Token| x@) + (seq![t@] + lexed_tokens_from(
                        rest.drop_first(),
                    ))) =~= (tokens@.map_values(|x: Token| x@) + seq![t@]) + lexed_tokens_from(
                        rest.drop_first(),
                    ));
                }
                tokens.push(t);
            },
        }
    }
}

} // verus!
