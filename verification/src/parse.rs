use vstd::prelude::*;

use crate::token::{
    alt_attr, alt_attr_vec, bytes_eq, clone_bytes, continue_value, continue_value_vec,
    directive_name, is_directive_name, onerror_attr, onerror_attr_vec, src_attr, src_attr_vec,
    Attr, AttrModel, ErrModel, ParseEvent, EventModel, ExecutionError, Tag, TagModel, Token,
    TokenModel,
};

verus! {

// ---------------------------------------------------------------------------
// Parser state
// ---------------------------------------------------------------------------

/// A directive tag that has been opened but not yet completed: the attribute
/// values seen at its start tag, to be validated at completion time.
#[derive(Debug, Clone, PartialEq, Eq)]
pub struct Pending {
    pub name: Vec<u8>,
    pub src: Option<Vec<u8>>,
    pub alt: Option<Vec<u8>>,
    pub continue_on_error: bool,
}

#[verifier::ext_equal]
pub struct PendingModel {
    pub name: Seq<u8>,
    pub src: Option<Seq<u8>>,
    pub alt: Option<Seq<u8>>,
    pub continue_on_error: bool,
}

impl View for Pending {
    type V = PendingModel;

    open spec fn view(&self) -> PendingModel {
        PendingModel {
            name: self.name@,
            src: match &self.src {
                Option::Some(s) => Option::Some(s@),
                Option::None => Option::None,
            },
            alt: match &self.alt {
                Option::Some(a) => Option::Some(a@),
                Option::None => Option::None,
            },
            continue_on_error: self.continue_on_error,
        }
    }
}

/// Parser state: the directive tags currently open, innermost last.
#[derive(Debug, Clone, PartialEq, Eq)]
pub struct ParserState {
    pub pending: Vec<Pending>,
}

impl View for ParserState {
    type V = Seq<PendingModel>;

    open spec fn view(&self) -> Seq<PendingModel> {
        self.pending@.map_values(|p: Pending| p@)
    }
}

impl ParserState {
    /// A parser in its initial, scanning state.
    pub fn new() -> (s: ParserState)
        ensures
            s@ == Seq::<PendingModel>::empty(),
    {
        let s = ParserState { pending: Vec::new() };
        proof {
            assert(s@ =~= Seq::<PendingModel>::empty());
        }
        s
    }
}

// ---------------------------------------------------------------------------
// The step relation, at the model level
// ---------------------------------------------------------------------------

/// The first duplicated attribute name at or after position `j`, if any.
pub open spec fn first_dup_from(attrs: Seq<AttrModel>, j: int) -> Option<Seq<u8>>
    decreases attrs.len() - j,
{
    if j < 0 || j >= attrs.len() {
        None
    } else if exists|i: int| 0 <= i < j && attrs[i].name == attrs[j].name {
        Some(attrs[j].name)
    } else {
        first_dup_from(attrs, j + 1)
    }
}

/// The first attribute name that repeats an earlier one, if any.
pub open spec fn first_dup(attrs: Seq<AttrModel>) -> Option<Seq<u8>> {
    first_dup_from(attrs, 0)
}

/// The value of the first attribute named `name` among the first `n`, if any.
pub open spec fn attr_value_upto(attrs: Seq<AttrModel>, name: Seq<u8>, n: int) -> Option<Seq<u8>>
    decreases n,
{
    if n <= 0 || n > attrs.len() {
        None
    } else if attr_value_upto(attrs, name, n - 1) is Some {
        attr_value_upto(attrs, name, n - 1)
    } else if attrs[n - 1].name == name {
        Some(attrs[n - 1].value)
    } else {
        None
    }
}

/// The value of the first attribute named `name`, if any.
pub open spec fn attr_value(attrs: Seq<AttrModel>, name: Seq<u8>) -> Option<Seq<u8>> {
    attr_value_upto(attrs, name, attrs.len() as int)
}

/// What a directive start tag with the given attributes leaves pending.
pub open spec fn pending_of(name: Seq<u8>, attrs: Seq<AttrModel>) -> PendingModel {
    PendingModel {
        name: name,
        src: attr_value(attrs, src_attr()),
        alt: attr_value(attrs, alt_attr()),
        continue_on_error: attr_value(attrs, onerror_attr()) == Some(continue_value()),
    }
}

/// Completion of a pending directive: `src` must be present and non-empty.
pub open spec fn complete_pending(p: PendingModel) -> Result<TagModel, ErrModel> {
    match p.src {
        Some(s) => if s.len() > 0 {
            Ok(TagModel::Splice { src: s, alt: p.alt, continue_on_error: p.continue_on_error })
        } else {
            Err(ErrModel::MissingParam { tag: p.name, param: src_attr() })
        },
        None => Err(ErrModel::MissingParam { tag: p.name, param: src_attr() }),
    }
}

/// One step of the tag parser: from the open-directive stack and one token to
/// the next stack and what is emitted. Tags named `ns` + ":" + the directive
/// local name are recognized; duplicate attributes are rejected immediately;
/// a self-closing directive completes in the same step it opens; everything
/// else passes through as markup.
pub open spec fn parse_step_model(ns: Seq<u8>, st: Seq<PendingModel>, tok: TokenModel) -> (Seq<
    PendingModel,
>, Result<Option<EventModel>, ErrModel>) {
    match tok {
        TokenModel::Open { name, attrs, self_closing, raw: _ } => {
            if name == directive_name(ns) {
                match first_dup(attrs) {
                    Some(d) => (st, Err(ErrModel::DupAttr(d))),
                    None => {
                        let p = pending_of(name, attrs);
                        if self_closing {
                            match complete_pending(p) {
                                Ok(tag) => (st, Ok(Some(EventModel::Directive(tag)))),
                                Err(e) => (st, Err(e)),
                            }
                        } else {
                            (st.push(p), Ok(None))
                        }
                    },
                }
            } else {
                (st, Ok(Some(EventModel::Markup(tok))))
            }
        },
        TokenModel::Close { name, raw: _ } => {
            if name == directive_name(ns) {
                if st.len() == 0 {
                    (st, Err(ErrModel::UnexpectedClose(name)))
                } else {
                    match complete_pending(st.last()) {
                        Ok(tag) => (st.drop_last(), Ok(Some(EventModel::Directive(tag)))),
                        Err(e) => (st, Err(e)),
                    }
                }
            } else {
                (st, Ok(Some(EventModel::Markup(tok))))
            }
        },
        TokenModel::Other { raw: _ } => (st, Ok(Some(EventModel::Markup(tok)))),
    }
}

/// How an executable step result corresponds to the model's: a markup event
/// stands for the token at hand.
pub open spec fn step_matches(
    r: Result<Option<ParseEvent>, ExecutionError>,
    tok: TokenModel,
    m: Result<Option<EventModel>, ErrModel>,
) -> bool {
    match (r, m) {
        (Ok(None), Ok(None)) => true,
        (Ok(Some(ParseEvent::Markup)), Ok(Some(EventModel::Markup(t)))) => t == tok,
        (Ok(Some(ParseEvent::Directive(tag))), Ok(Some(EventModel::Directive(tm)))) => tag@ == tm,
        (Err(e), Err(em)) => e@ == em,
        _ => false,
    }
}

// ---------------------------------------------------------------------------
// The step function
// ---------------------------------------------------------------------------

/// The first attribute whose name repeats an earlier one, if any.
fn find_dup(attrs: &Vec<Attr>) -> (r: Option<Vec<u8>>)
    ensures
        match r {
            Some(d) => first_dup(attrs@.map_values(|a: Attr| a@)) == Some(d@),
            None => first_dup(attrs@.map_values(|a: Attr| a@)) is None,
        },
{
    let ghost am = attrs@.map_values(|a: Attr| a@);
    let mut j: usize = 0;
    while j < attrs.len()
        invariant
            j <= attrs.len(),
            am == attrs@.map_values(|a: Attr| a@),
            am.len() == attrs@.len(),
            first_dup(am) == first_dup_from(am, j as int),
        decreases attrs.len() - j,
    {
        let mut i: usize = 0;
        while i < j
            invariant
                i <= j < attrs.len(),
                am == attrs@.map_values(|a: Attr| a@),
                am.len() == attrs@.len(),
                first_dup(am) == first_dup_from(am, j as int),
                forall|k: int| 0 <= k < i ==> am[k].name != am[j as int].name,
            decreases j - i,
        {
            if bytes_eq(&attrs[i].name, &attrs[j].name) {
                proof {
                    assert(am[i as int] == attrs@[i as int]@);
                    assert(am[j as int] == attrs@[j as int]@);
                    assert(am[i as int].name == am[j as int].name);
                    assert(exists|k: int| 0 <= k < j && am[k].name == am[j as int].name);
                }
                return Some(clone_bytes(&attrs[j].name));
            }
            i += 1;
        }
        proof {
            assert(forall|k: int| 0 <= k < j ==> am[k].name != am[j as int].name);
            assert(!(exists|k: int| 0 <= k < j && am[k].name == am[j as int].name));
        }
        j += 1;
    }
    proof {
        assert(first_dup_from(am, j as int) is None);
    }
    None
}

/// Collects the directive attributes from a start tag, first occurrence of
/// each name winning.
fn collect_pending(name: &Vec<u8>, attrs: &Vec<Attr>) -> (p: Pending)
    ensures
        p@ == pending_of(name@, attrs@.map_values(|a: Attr| a@)),
{
    let ghost am = attrs@.map_values(|a: Attr| a@);
    let mut src: Option<Vec<u8>> = None;
    let mut alt: Option<Vec<u8>> = None;
    let mut onerror: Option<Vec<u8>> = None;
    let src_name = src_attr_vec();
    let alt_name = alt_attr_vec();
    let onerror_name = onerror_attr_vec();
    let mut i: usize = 0;
    while i < attrs.len()
        invariant
            i <= attrs.len(),
            am == attrs@.map_values(|a: Attr| a@),
            am.len() == attrs@.len(),
            src_name@ == src_attr(),
            alt_name@ == alt_attr(),
            onerror_name@ == onerror_attr(),
            opt_view(src) == attr_value_upto(am, src_attr(), i as int),
            opt_view(alt) == attr_value_upto(am, alt_attr(), i as int),
            opt_view(onerror) == attr_value_upto(am, onerror_attr(), i as int),
        decreases attrs.len() - i,
    {
        proof {
            assert(am[i as int] == attrs@[i as int]@);
        }
        if src.is_none() && bytes_eq(&attrs[i].name, &src_name) {
            src = Some(clone_bytes(&attrs[i].value));
        }
        if alt.is_none() && bytes_eq(&attrs[i].name, &alt_name) {
            alt = Some(clone_bytes(&attrs[i].value));
        }
        if onerror.is_none() && bytes_eq(&attrs[i].name, &onerror_name) {
            onerror = Some(clone_bytes(&attrs[i].value));
        }
        i += 1;
    }
    let continue_on_error = match &onerror {
        Some(v) => bytes_eq(v, &continue_value_vec()),
        None => false,
    };
    let p = Pending { name: clone_bytes(name), src, alt, continue_on_error };
    proof {
        assert(p@ =~= pending_of(name@, am));
    }
    p
}

/// The value of an optional byte vector, at the model level.
pub open spec fn opt_view(o: Option<Vec<u8>>) -> Option<Seq<u8>> {
    match o {
        Option::Some(v) => Option::Some(v@),
        Option::None => Option::None,
    }
}

/// Completes a pending directive, checking that `src` is present and non-empty.
fn complete(p: Pending) -> (r: Result<Tag, ExecutionError>)
    ensures
        match (r, complete_pending(p@)) {
            (Ok(tag), Ok(tm)) => tag@ == tm,
            (Err(e), Err(em)) => e@ == em,
            _ => false,
        },
{
    let Pending { name, src, alt, continue_on_error } = p;
    match src {
        Some(s) => {
            if s.len() > 0 {
                Ok(Tag::Splice { src: s, alt, continue_on_error })
            } else {
                Err(ExecutionError::MissingRequiredParameter(name, src_attr_vec()))
            }
        },
        None => Err(ExecutionError::MissingRequiredParameter(name, src_attr_vec())),
    }
}

/// One step of the tag parser over the next token. The returned event refers
/// to the token at hand: markup passes through verbatim, a completed
/// directive carries its `Tag`. Errors leave the state unchanged and are
/// terminal for the current parse.
pub fn parse_step(ns: &Vec<u8>, st: &mut ParserState, tok: &Token) -> (r: Result<
    Option<ParseEvent>,
    ExecutionError,
>)
    ensures
        ({
            let (st2, m) = parse_step_model(ns@, old(st)@, tok@);
            final(st)@ == st2 && step_matches(r, tok@, m)
        }),
{
    match tok {
        Token::Open { name, attrs, self_closing, raw: _ } => {
            if is_directive_name(ns, name) {
                match find_dup(attrs) {
                    Some(d) => Err(ExecutionError::DuplicateTagAttribute(d)),
                    None => {
                        let p = collect_pending(name, attrs);
                        if *self_closing {
                            match complete(p) {
                                Ok(tag) => Ok(Some(ParseEvent::Directive(tag))),
                                Err(e) => Err(e),
                            }
                        } else {
                            st.pending.push(p);
                            proof {
                                assert(st@ =~= old(st)@.push(p@));
                            }
                            Ok(None)
                        }
                    },
                }
            } else {
                Ok(Some(ParseEvent::Markup))
            }
        },
        Token::Close { name, raw: _ } => {
            if is_directive_name(ns, name) {
                if st.pending.len() == 0 {
                    proof {
                        assert(st@.len() == 0);
                    }
                    Err(ExecutionError::UnexpectedClosingTag(clone_bytes(name)))
                } else {
                    let n = st.pending.len();
                    proof {
                        assert(st@[n - 1] == st.pending@[n - 1]@);
                        assert(st@.last() == st.pending@[n - 1]@);
                    }
                    let src_ok = match &st.pending[n - 1].src {
                        Some(s) => s.len() > 0,
                        None => false,
                    };
                    if src_ok {
                        let p = match st.pending.pop() {
                            Some(p) => p,
                            None => {
                                proof {
                                    assert(false);
                                }
                                return Err(ExecutionError::Unknown);
                            },
                        };
                        proof {
                            assert(st@ =~= old(st)@.drop_last());
                        }
                        match complete(p) {
                            Ok(tag) => Ok(Some(ParseEvent::Directive(tag))),
                            Err(e) => {
                                proof {
                                    assert(false);
                                }
                                Err(e)
                            },
                        }
                    } else {
                        let last = &st.pending[n - 1];
                        Err(ExecutionError::MissingRequiredParameter(
                            clone_bytes(&last.name),
                            src_attr_vec(),
                        ))
                    }
                }
            } else {
                Ok(Some(ParseEvent::Markup))
            }
        },
        Token::Other { raw: _ } => Ok(Some(ParseEvent::Markup)),
    }
}

} // verus!
