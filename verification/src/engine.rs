use vstd::prelude::*;

use crate::config::Configuration;
use crate::fetch::{attempt_model, FetchOutcome, FragmentFetcher};
use crate::lex::{lexed_document, lexed_fault, lexed_tokens, tokenize};
use crate::parse::{parse_step, parse_step_model, ParserState, PendingModel};
use crate::sink::OutputSink;
use crate::token::{Document, DocumentModel, ErrModel, ParseEvent, EventModel, ExecutionError, Tag,
    TagModel, TokenModel};

verus! {

// ---------------------------------------------------------------------------
// The rendering model
// ---------------------------------------------------------------------------

/// What one rendering pass produces: the bytes it delivers, in document
/// order, and whether it ends cleanly or with the error that stopped it.
/// Bytes delivered before a late failure stay delivered: streaming cannot
/// retract them.
#[verifier::ext_equal]
pub struct RenderOut {
    pub bytes: Seq<u8>,
    pub result: Result<(), ErrModel>,
}

/// The fetch collaborator's model, as a function from URL to outcome.
pub open spec fn oracle_of<F: FragmentFetcher>(f: &F) -> spec_fn(Seq<u8>) -> FetchOutcome {
    |u: Seq<u8>| f.outcome(u)
}

/// Skipping a failed directive or giving up, per its error-tolerance policy.
pub open spec fn skip_or_fail(continue_on_error: bool, e: ErrModel) -> RenderOut {
    if continue_on_error {
        RenderOut { bytes: Seq::empty(), result: Ok(()) }
    } else {
        RenderOut { bytes: Seq::empty(), result: Err(e) }
    }
}

/// Renders a token sequence: markup passes through verbatim, each completed
/// directive is resolved in place, and the first error ends the pass with
/// everything rendered before it kept.
pub open spec fn render_tokens(
    ns: Seq<u8>,
    toks: Seq<TokenModel>,
    st: Seq<PendingModel>,
    oracle: spec_fn(Seq<u8>) -> FetchOutcome,
    depth: nat,
) -> RenderOut
    decreases depth, toks.len(), 0nat,
{
    if toks.len() == 0 {
        RenderOut { bytes: Seq::empty(), result: Ok(()) }
    } else {
        let (st2, step) = parse_step_model(ns, st, toks[0]);
        match step {
            Err(e) => RenderOut { bytes: Seq::empty(), result: Err(e) },
            Ok(None) => render_tokens(ns, toks.drop_first(), st2, oracle, depth),
            Ok(Some(EventModel::Markup(t))) => {
                let rest = render_tokens(ns, toks.drop_first(), st2, oracle, depth);
                RenderOut { bytes: t.raw() + rest.bytes, result: rest.result }
            },
            Ok(Some(EventModel::Directive(tag))) => {
                let frag = resolve_model(ns, tag, oracle, depth);
                if frag.result is Err {
                    frag
                } else {
                    let rest = render_tokens(ns, toks.drop_first(), st2, oracle, depth);
                    RenderOut { bytes: frag.bytes + rest.bytes, result: rest.result }
                }
            },
        }
    }
}

/// Resolves one directive: fetch `src`, fall back to `alt`, then apply the
/// error-tolerance policy; a successful fragment is rendered in full,
/// directives inside it and all, one nesting level down.
pub open spec fn resolve_model(
    ns: Seq<u8>,
    tag: TagModel,
    oracle: spec_fn(Seq<u8>) -> FetchOutcome,
    depth: nat,
) -> RenderOut
    decreases depth, 0nat, 0nat,
{
    match tag {
        TagModel::Splice { src, alt, continue_on_error } => {
            if depth == 0 {
                RenderOut { bytes: Seq::empty(), result: Err(ErrModel::DepthLimit) }
            } else {
                match attempt_model(oracle(src)) {
                    Ok(body) => render_doc(ns, body, oracle, (depth - 1) as nat),
                    Err(e1) => match alt {
                        Some(a) => match attempt_model(oracle(a)) {
                            Ok(body) => render_doc(ns, body, oracle, (depth - 1) as nat),
                            Err(e2) => skip_or_fail(continue_on_error, e2),
                        },
                        None => skip_or_fail(continue_on_error, e1),
                    },
                }
            }
        },
    }
}

/// Renders a lexed document: its tokens, then the lexer fault that cut the
/// stream short, if rendering got that far.
pub open spec fn render_document(
    ns: Seq<u8>,
    dm: DocumentModel,
    oracle: spec_fn(Seq<u8>) -> FetchOutcome,
    depth: nat,
) -> RenderOut
    decreases depth, dm.tokens.len() + 1, 0nat,
{
    let body = render_tokens(ns, dm.tokens, Seq::empty(), oracle, depth);
    if body.result is Err {
        body
    } else {
        match dm.fault {
            Some(m) => RenderOut { bytes: body.bytes, result: Err(ErrModel::Xml(m)) },
            None => body,
        }
    }
}

/// Renders raw document bytes: what the lexer makes of them, rendered.
pub open spec fn render_doc(
    ns: Seq<u8>,
    input: Seq<u8>,
    oracle: spec_fn(Seq<u8>) -> FetchOutcome,
    depth: nat,
) -> RenderOut
    decreases depth, lexed_tokens(input).len() + 1, 1nat,
{
    render_document(
        ns,
        DocumentModel { tokens: lexed_tokens(input), fault: lexed_fault(input) },
        oracle,
        depth,
    )
}

/// How an executable result corresponds to the model's.
pub open spec fn result_matches(r: Result<(), ExecutionError>, m: Result<(), ErrModel>) -> bool {
    match (r, m) {
        (Ok(_), Ok(_)) => true,
        (Err(e), Err(em)) => e@ == em,
        _ => false,
    }
}

// ---------------------------------------------------------------------------
// The fallback notice
// ---------------------------------------------------------------------------

/// The fixed plain-text notice appended, best effort, when rendering aborts.
pub open spec fn fallback_notice() -> Seq<u8> {
    seq![
        10u8, 65u8, 110u8, 32u8, 101u8, 114u8, 114u8, 111u8, 114u8, 32u8, 111u8, 99u8, 99u8,
        117u8, 114u8, 114u8, 101u8, 100u8, 32u8, 119u8, 104u8, 105u8, 108u8, 101u8, 32u8, 99u8,
        111u8, 110u8, 115u8, 116u8, 114u8, 117u8, 99u8, 116u8, 105u8, 110u8, 103u8, 32u8, 116u8,
        104u8, 105u8, 115u8, 32u8, 100u8, 111u8, 99u8, 117u8, 109u8, 101u8, 110u8, 116u8, 46u8,
        10u8,
    ]
}

/// The fallback notice, as a fresh vector.
pub fn fallback_notice_vec() -> (v: Vec<u8>)
    ensures
        v@ == fallback_notice(),
{
    let mut v: Vec<u8> = Vec::new();
    v.push(10u8);
    v.push(65u8);
    v.push(110u8);
    v.push(32u8);
    v.push(101u8);
    v.push(114u8);
    v.push(114u8);
    v.push(111u8);
    v.push(114u8);
    v.push(32u8);
    v.push(111u8);
    v.push(99u8);
    v.push(99u8);
    v.push(117u8);
    v.push(114u8);
    v.push(114u8);
    v.push(101u8);
    v.push(100u8);
    v.push(32u8);
    v.push(119u8);
    v.push(104u8);
    v.push(105u8);
    v.push(108u8);
    v.push(101u8);
    v.push(32u8);
    v.push(99u8);
    v.push(111u8);
    v.push(110u8);
    v.push(115u8);
    v.push(116u8);
    v.push(114u8);
    v.push(117u8);
    v.push(99u8);
    v.push(116u8);
    v.push(105u8);
    v.push(110u8);
    v.push(103u8);
    v.push(32u8);
    v.push(116u8);
    v.push(104u8);
    v.push(105u8);
    v.push(115u8);
    v.push(32u8);
    v.push(100u8);
    v.push(111u8);
    v.push(99u8);
    v.push(117u8);
    v.push(109u8);
    v.push(101u8);
    v.push(110u8);
    v.push(116u8);
    v.push(46u8);
    v.push(10u8);
    proof {
        assert(v@ =~= fallback_notice());
    }
    v
}

// ---------------------------------------------------------------------------
// The execution engine
// ---------------------------------------------------------------------------

/// The execution engine: drives the tag parser over a document, passes
/// markup through to the output sink in document order, and resolves each
/// directive in place by fetching its fragment and rendering it recursively.
pub struct Processor {
    pub configuration: Configuration,
}

impl Processor {
    pub fn new(configuration: Configuration) -> (p: Self)
        ensures
            p.configuration == configuration,
    {
        Self { configuration }
    }

    /// Fetches one source and checks its status, reporting the error the
    /// engine propagates when the attempt fails.
    fn attempt_fetch<F: FragmentFetcher>(&self, fetcher: &F, url: &Vec<u8>) -> (r: Result<
        Vec<u8>,
        ExecutionError,
    >)
        ensures
            match (r, attempt_model(fetcher.outcome(url@))) {
                (Ok(body), Ok(b)) => body@ == b,
                (Err(e), Err(em)) => e@ == em,
                _ => false,
            },
    {
        match fetcher.fetch(url) {
            Ok(resp) => {
                if 200 <= resp.status && resp.status < 300 {
                    Ok(resp.body)
                } else {
                    Err(ExecutionError::UnexpectedStatus(resp.status))
                }
            },
            Err(f) => Err(ExecutionError::RequestError(f.message)),
        }
    }

    /// Resolves one directive: fetch `src`; on failure fetch `alt` if given;
    /// on success render the fragment one nesting level down into `output`;
    /// otherwise skip or abort per `continue_on_error`.
    fn resolve_directive<F: FragmentFetcher, S: OutputSink>(
        &self,
        tag: Tag,
        depth: u32,
        fetcher: &F,
        output: &mut S,
    ) -> (r: Result<(), ExecutionError>)
        ensures
            ({
                let m = resolve_model(
                    self.configuration.namespace@,
                    tag@,
                    oracle_of(fetcher),
                    depth as nat,
                );
                &&& final(output).infallible() == old(output).infallible()
                &&& old(output).infallible() ==> final(output).out() == old(output).out()
                    + m.bytes && result_matches(r, m.result)
                &&& r is Ok ==> final(output).out() == old(output).out() + m.bytes && m.result
                    is Ok
            }),
        decreases depth, 0int,
    {
        let ghost orc = oracle_of(fetcher);
        match tag {
            Tag::Splice { src, alt, continue_on_error } => {
                if depth == 0 {
                    return Err(ExecutionError::DepthLimitExceeded);
                }
                proof {
                    assert(orc(src@) == fetcher.outcome(src@));
                }
                let fetched: Result<Vec<u8>, ExecutionError> = match self.attempt_fetch(
                    fetcher,
                    &src,
                ) {
                    Ok(body) => Ok(body),
                    Err(e1) => match &alt {
                        Some(a) => {
                            proof {
                                assert(orc(a@) == fetcher.outcome(a@));
                            }
                            match self.attempt_fetch(fetcher, a) {
                                Ok(body) => Ok(body),
                                Err(e2) => Err(e2),
                            }
                        },
                        None => Err(e1),
                    },
                };
                match fetched {
                    Ok(body) => {
                        let frag = tokenize(&body);
                        proof {
                            assert(frag@ =~= DocumentModel {
                                tokens: lexed_tokens(body@),
                                fault: lexed_fault(body@),
                            });
                        }
                        self.execute_esi_fragment(frag, depth - 1, fetcher, output)
                    },
                    Err(e) => {
                        if continue_on_error {
                            Ok(())
                        } else {
                            Err(e)
                        }
                    },
                }
            },
        }
    }

    /// Renders one lexed document or fragment into `output`: markup events
    /// are written and flushed immediately, in document order; each completed
    /// directive is resolved in place; the first error ends the pass, with
    /// everything already written kept. Exactly what is written and returned
    /// is `render_document` of the document, the fetcher's model, and the
    /// remaining `depth`.
    #[verifier::loop_isolation(false)]
    pub fn execute_esi_fragment<F: FragmentFetcher, S: OutputSink>(
        &self,
        doc: Document,
        depth: u32,
        fetcher: &F,
        output: &mut S,
    ) -> (r: Result<(), ExecutionError>)
        ensures
            ({
                let m = render_document(
                    self.configuration.namespace@,
                    doc@,
                    oracle_of(fetcher),
                    depth as nat,
                );
                &&& final(output).infallible() == old(output).infallible()
                &&& old(output).infallible() ==> final(output).out() == old(output).out()
                    + m.bytes && result_matches(r, m.result)
                &&& r is Ok ==> final(output).out() == old(output).out() + m.bytes && m.result
                    is Ok
            }),
        decreases depth, 1int,
    {
        let ghost ns = self.configuration.namespace@;
        let ghost orc = oracle_of(fetcher);
        let ghost toks = doc@.tokens;
        let ghost full = render_tokens(ns, toks, Seq::<PendingModel>::empty(), orc, depth as nat);
        let ghost base = output.out();
        let mut st = ParserState::new();
        let ghost mut emitted: Seq<u8> = Seq::empty();
        proof {
            assert(toks.skip(0) =~= toks);
            assert(emitted + full.bytes =~= full.bytes);
        }
        let mut i: usize = 0;
        while i < doc.tokens.len()
            invariant
                i <= doc.tokens.len(),
                toks.len() == doc.tokens@.len(),
                output.out() == base + emitted,
                output.infallible() == old(output).infallible(),
                ({
                    let rem = render_tokens(ns, toks.skip(i as int), st@, orc, depth as nat);
                    full.bytes == emitted + rem.bytes && full.result == rem.result
                }),
            decreases doc.tokens.len() - i,
        {
            let tok = &doc.tokens[i];
            proof {
                assert(toks[i as int] == doc.tokens@[i as int]@);
                assert(toks.skip(i as int).len() == toks.len() - i);
                assert(toks.skip(i as int)[0] == toks[i as int]);
                assert(toks.skip(i as int).drop_first() =~= toks.skip(i as int + 1));
            }
            let ghost st_before = st@;
            let ghost rem = render_tokens(ns, toks.skip(i as int), st_before, orc, depth as nat);
            match parse_step(&self.configuration.namespace, &mut st, tok) {
                Err(e) => {
                    return Err(e);
                },
                Ok(None) => {},
                Ok(Some(ParseEvent::Markup)) => {
                    match output.write_all(tok.raw_bytes()) {
                        Ok(_) => {},
                        Err(f) => {
                            return Err(ExecutionError::XMLError(f.message));
                        },
                    }
                    match output.flush() {
                        Ok(_) => {},
                        Err(f) => {
                            return Err(ExecutionError::XMLError(f.message));
                        },
                    }
                    proof {
                        emitted = emitted + tok@.raw();
                    }
                },
                Ok(Some(ParseEvent::Directive(tag))) => {
                    let ghost tm = tag@;
                    match self.resolve_directive(tag, depth, fetcher, output) {
                        Ok(_) => {
                            proof {
                                emitted = emitted + resolve_model(ns, tm, orc, depth as nat).bytes;
                            }
                        },
                        Err(e) => {
                            return Err(e);
                        },
                    }
                },
            }
            i += 1;
        }
        proof {
            assert(toks.skip(i as int) =~= Seq::<TokenModel>::empty());
        }
        match doc.fault {
            Some(m) => Err(ExecutionError::XMLError(m)),
            None => Ok(()),
        }
    }

    /// Renders a whole document's bytes into `output` to the configured depth
    /// bound. On an unrecovered failure, makes one best-effort attempt to
    /// append the fixed fallback notice (its own failure is ignored) and
    /// reports the error to the caller; everything streamed before the
    /// failure stays delivered.
    pub fn execute_esi<F: FragmentFetcher, S: OutputSink>(
        &self,
        document: Vec<u8>,
        fetcher: &F,
        output: &mut S,
    ) -> (r: Result<(), ExecutionError>)
        ensures
            ({
                let m = render_doc(
                    self.configuration.namespace@,
                    document@,
                    oracle_of(fetcher),
                    self.configuration.max_fragment_depth as nat,
                );
                &&& final(output).infallible() == old(output).infallible()
                &&& old(output).infallible() ==> result_matches(r, m.result) && (match m.result {
                    Ok(_) => final(output).out() == old(output).out() + m.bytes,
                    Err(_) => final(output).out() == old(output).out() + m.bytes
                        + fallback_notice(),
                })
                &&& r is Ok ==> m.result is Ok
            }),
    {
        let doc = tokenize(&document);
        proof {
            assert(doc@ =~= lexed_document(document@));
        }
        match self.execute_esi_fragment(
            doc,
            self.configuration.max_fragment_depth,
            fetcher,
            output,
        ) {
            Ok(_) => Ok(()),
            Err(e) => {
                let notice = fallback_notice_vec();
                let _ = output.write_all(&notice);
                let _ = output.flush();
                Err(e)
            },
        }
    }
}

} // verus!
