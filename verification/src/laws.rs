use vstd::prelude::*;

use crate::engine::{render_doc, render_document, render_tokens, resolve_model, RenderOut};
use crate::fetch::{attempt_model, is_success_status, FetchOutcome};
use crate::lex::{lexed_fault, lexed_tokens};
use crate::parse::{parse_step_model, PendingModel};
use crate::token::{directive_name, DocumentModel, ErrModel, EventModel, TagModel, TokenModel};

verus! {

// ---------------------------------------------------------------------------
// Vocabulary for the laws
// ---------------------------------------------------------------------------

/// Whether a token takes no part in directive recognition under `ns`.
pub open spec fn markup_only(ns: Seq<u8>, t: TokenModel) -> bool {
    match t {
        TokenModel::Open { name, attrs: _, self_closing: _, raw: _ } => name != directive_name(ns),
        TokenModel::Close { name, raw: _ } => name != directive_name(ns),
        TokenModel::Other { raw: _ } => true,
    }
}

/// Whether no token of the sequence takes part in directive recognition.
pub open spec fn all_markup(ns: Seq<u8>, toks: Seq<TokenModel>) -> bool {
    forall|j: int| 0 <= j < toks.len() ==> markup_only(ns, #[trigger] toks[j])
}

/// The bytes of a token sequence, concatenated in document order.
pub open spec fn concat_raws(toks: Seq<TokenModel>) -> Seq<u8>
    decreases toks.len(),
{
    if toks.len() == 0 {
        Seq::empty()
    } else {
        toks[0].raw() + concat_raws(toks.drop_first())
    }
}

// ---------------------------------------------------------------------------
// Passthrough
// ---------------------------------------------------------------------------

/// Markup-only tokens pass through verbatim in front of whatever follows:
/// they change neither the parser state nor the outcome of the rest.
pub proof fn lemma_markup_prefix(
    ns: Seq<u8>,
    pre: Seq<TokenModel>,
    rest: Seq<TokenModel>,
    st: Seq<PendingModel>,
    oracle: spec_fn(Seq<u8>) -> FetchOutcome,
    depth: nat,
)
    requires
        all_markup(ns, pre),
    ensures
        ({
            let whole = render_tokens(ns, pre + rest, st, oracle, depth);
            let tail = render_tokens(ns, rest, st, oracle, depth);
            whole.bytes == concat_raws(pre) + tail.bytes && whole.result == tail.result
        }),
    decreases pre.len(),
{
    let whole = render_tokens(ns, pre + rest, st, oracle, depth);
    let tail = render_tokens(ns, rest, st, oracle, depth);
    if pre.len() == 0 {
        assert(pre + rest =~= rest);
        assert(concat_raws(pre) + tail.bytes =~= tail.bytes);
    } else {
        let t = pre[0];
        assert(markup_only(ns, t));
        assert((pre + rest)[0] == t);
        assert((pre + rest).drop_first() =~= pre.drop_first() + rest);
        assert(all_markup(ns, pre.drop_first()));
        lemma_markup_prefix(ns, pre.drop_first(), rest, st, oracle, depth);
        let mid = render_tokens(ns, pre.drop_first() + rest, st, oracle, depth);
        assert(whole.bytes == t.raw() + mid.bytes);
        assert(t.raw() + (concat_raws(pre.drop_first()) + tail.bytes) =~= (t.raw() + concat_raws(
            pre.drop_first(),
        )) + tail.bytes);
    }
}

/// Markup-only tokens alone render to exactly their own bytes.
pub proof fn lemma_markup_all(
    ns: Seq<u8>,
    toks: Seq<TokenModel>,
    st: Seq<PendingModel>,
    oracle: spec_fn(Seq<u8>) -> FetchOutcome,
    depth: nat,
)
    requires
        all_markup(ns, toks),
    ensures
        render_tokens(ns, toks, st, oracle, depth) == (RenderOut {
            bytes: concat_raws(toks),
            result: Ok(()),
        }),
{
    lemma_markup_prefix(ns, toks, Seq::empty(), st, oracle, depth);
    assert(toks + Seq::<TokenModel>::empty() =~= toks);
    assert(concat_raws(toks) + Seq::<u8>::empty() =~= concat_raws(toks));
    assert(render_tokens(ns, toks, st, oracle, depth) =~= RenderOut {
        bytes: concat_raws(toks),
        result: Ok(()),
    });
}

// ---------------------------------------------------------------------------
// Identity
// ---------------------------------------------------------------------------

/// Identity: a document holding no directive markup renders to exactly its
/// own bytes, with a clean result, whatever the fetch collaborator would do.
pub proof fn lemma_identity(
    ns: Seq<u8>,
    dm: DocumentModel,
    oracle: spec_fn(Seq<u8>) -> FetchOutcome,
    depth: nat,
)
    requires
        all_markup(ns, dm.tokens),
        dm.fault is None,
    ensures
        render_document(ns, dm, oracle, depth).bytes == concat_raws(dm.tokens),
        render_document(ns, dm, oracle, depth).result is Ok,
{
    lemma_markup_all(ns, dm.tokens, Seq::empty(), oracle, depth);
}

// ---------------------------------------------------------------------------
// One directive among markup
// ---------------------------------------------------------------------------

/// The outcome of one directive token standing between markup-only runs:
/// whatever resolving the directive yields, the document renders to the
/// prefix bytes, then the directive's contribution, then the suffix bytes,
/// and a directive failure ends the pass right there, prefix kept.
pub proof fn lemma_directive_in_context(
    ns: Seq<u8>,
    pre: Seq<TokenModel>,
    dir: TokenModel,
    post: Seq<TokenModel>,
    tag: TagModel,
    oracle: spec_fn(Seq<u8>) -> FetchOutcome,
    depth: nat,
)
    requires
        all_markup(ns, pre),
        all_markup(ns, post),
        parse_step_model(ns, Seq::empty(), dir) == (Seq::<PendingModel>::empty(), Ok::<
            Option<EventModel>,
            ErrModel,
        >(Some(EventModel::Directive(tag)))),
    ensures
        ({
            let whole = render_tokens(ns, pre + seq![dir] + post, Seq::empty(), oracle, depth);
            let frag = resolve_model(ns, tag, oracle, depth);
            match frag.result {
                Ok(_) => whole.bytes == concat_raws(pre) + frag.bytes + concat_raws(post)
                    && whole.result is Ok,
                Err(e) => whole.bytes == concat_raws(pre) + frag.bytes && whole.result == Err::<
                    (),
                    ErrModel,
                >(e),
            }
        }),
{
    let mid = seq![dir] + post;
    assert(pre + seq![dir] + post =~= pre + mid);
    lemma_markup_prefix(ns, pre, mid, Seq::empty(), oracle, depth);
    let tail = render_tokens(ns, mid, Seq::empty(), oracle, depth);
    assert(mid[0] == dir);
    assert(mid.drop_first() =~= post);
    let frag = resolve_model(ns, tag, oracle, depth);
    if frag.result is Ok {
        lemma_markup_all(ns, post, Seq::empty(), oracle, depth);
        assert(tail.bytes == frag.bytes + concat_raws(post));
        assert(concat_raws(pre) + (frag.bytes + concat_raws(post)) =~= (concat_raws(pre)
            + frag.bytes) + concat_raws(post));
    } else {
        assert(tail == frag);
    }
}

/// Single substitution: an `src` fetch that succeeds with a fragment holding
/// no further directives replaces the directive token with the fragment's
/// bytes, verbatim, with the surrounding markup unchanged.
pub proof fn lemma_single_substitution(
    ns: Seq<u8>,
    pre: Seq<TokenModel>,
    dir: TokenModel,
    post: Seq<TokenModel>,
    tag: TagModel,
    status: u16,
    body: Seq<u8>,
    oracle: spec_fn(Seq<u8>) -> FetchOutcome,
    depth: nat,
)
    requires
        all_markup(ns, pre),
        all_markup(ns, post),
        parse_step_model(ns, Seq::empty(), dir) == (Seq::<PendingModel>::empty(), Ok::<
            Option<EventModel>,
            ErrModel,
        >(Some(EventModel::Directive(tag)))),
        oracle(tag.src()) == (FetchOutcome::Reply { status, body }),
        is_success_status(status),
        all_markup(ns, lexed_tokens(body)),
        lexed_fault(body) is None,
        depth >= 1,
    ensures
        ({
            let whole = render_tokens(ns, pre + seq![dir] + post, Seq::empty(), oracle, depth);
            whole.bytes == concat_raws(pre) + concat_raws(lexed_tokens(body)) + concat_raws(post)
                && whole.result is Ok
        }),
{
    let frag = resolve_model(ns, tag, oracle, depth);
    lemma_identity(
        ns,
        DocumentModel { tokens: lexed_tokens(body), fault: lexed_fault(body) },
        oracle,
        (depth - 1) as nat,
    );
    assert(frag.bytes == concat_raws(lexed_tokens(body)) && frag.result is Ok);
    lemma_directive_in_context(ns, pre, dir, post, tag, oracle, depth);
}

/// Fallback: when the `src` fetch fails and the `alt` fetch succeeds with a
/// fragment holding no further directives, the output carries the fallback
/// fragment's bytes at the directive's position.
pub proof fn lemma_fallback(
    ns: Seq<u8>,
    pre: Seq<TokenModel>,
    dir: TokenModel,
    post: Seq<TokenModel>,
    tag: TagModel,
    alt_url: Seq<u8>,
    status: u16,
    body: Seq<u8>,
    oracle: spec_fn(Seq<u8>) -> FetchOutcome,
    depth: nat,
)
    requires
        all_markup(ns, pre),
        all_markup(ns, post),
        parse_step_model(ns, Seq::empty(), dir) == (Seq::<PendingModel>::empty(), Ok::<
            Option<EventModel>,
            ErrModel,
        >(Some(EventModel::Directive(tag)))),
        tag.alt() == Some(alt_url),
        attempt_model(oracle(tag.src())) is Err,
        oracle(alt_url) == (FetchOutcome::Reply { status, body }),
        is_success_status(status),
        all_markup(ns, lexed_tokens(body)),
        lexed_fault(body) is None,
        depth >= 1,
    ensures
        ({
            let whole = render_tokens(ns, pre + seq![dir] + post, Seq::empty(), oracle, depth);
            whole.bytes == concat_raws(pre) + concat_raws(lexed_tokens(body)) + concat_raws(post)
                && whole.result is Ok
        }),
{
    let frag = resolve_model(ns, tag, oracle, depth);
    lemma_identity(
        ns,
        DocumentModel { tokens: lexed_tokens(body), fault: lexed_fault(body) },
        oracle,
        (depth - 1) as nat,
    );
    assert(frag.bytes == concat_raws(lexed_tokens(body)) && frag.result is Ok);
    lemma_directive_in_context(ns, pre, dir, post, tag, oracle, depth);
}

// ---------------------------------------------------------------------------
// Error tolerance
// ---------------------------------------------------------------------------

/// Error tolerance, tolerant side: when both sources fail and the directive
/// carries `continue_on_error`, it contributes no bytes and the following
/// siblings still render.
pub proof fn lemma_error_tolerance_continue(
    ns: Seq<u8>,
    pre: Seq<TokenModel>,
    dir: TokenModel,
    post: Seq<TokenModel>,
    tag: TagModel,
    oracle: spec_fn(Seq<u8>) -> FetchOutcome,
    depth: nat,
)
    requires
        all_markup(ns, pre),
        all_markup(ns, post),
        parse_step_model(ns, Seq::empty(), dir) == (Seq::<PendingModel>::empty(), Ok::<
            Option<EventModel>,
            ErrModel,
        >(Some(EventModel::Directive(tag)))),
        tag.continue_on_error(),
        attempt_model(oracle(tag.src())) is Err,
        (tag.alt() matches Some(a) ==> attempt_model(oracle(a)) is Err),
        depth >= 1,
    ensures
        ({
            let whole = render_tokens(ns, pre + seq![dir] + post, Seq::empty(), oracle, depth);
            whole.bytes == concat_raws(pre) + concat_raws(post) && whole.result is Ok
        }),
{
    let frag = resolve_model(ns, tag, oracle, depth);
    assert(frag.bytes =~= Seq::<u8>::empty() && frag.result is Ok);
    lemma_directive_in_context(ns, pre, dir, post, tag, oracle, depth);
    assert(concat_raws(pre) + Seq::<u8>::empty() =~= concat_raws(pre));
}

/// Error tolerance, strict side: when both sources fail and the directive
/// does not carry `continue_on_error`, rendering stops at the directive with
/// the last failure's error; the markup already delivered before it stays.
pub proof fn lemma_error_tolerance_abort(
    ns: Seq<u8>,
    pre: Seq<TokenModel>,
    dir: TokenModel,
    post: Seq<TokenModel>,
    tag: TagModel,
    e: ErrModel,
    oracle: spec_fn(Seq<u8>) -> FetchOutcome,
    depth: nat,
)
    requires
        all_markup(ns, pre),
        all_markup(ns, post),
        parse_step_model(ns, Seq::empty(), dir) == (Seq::<PendingModel>::empty(), Ok::<
            Option<EventModel>,
            ErrModel,
        >(Some(EventModel::Directive(tag)))),
        !tag.continue_on_error(),
        attempt_model(oracle(tag.src())) is Err,
        match tag.alt() {
            Some(a) => attempt_model(oracle(a)) == Err::<Seq<u8>, ErrModel>(e),
            None => attempt_model(oracle(tag.src())) == Err::<Seq<u8>, ErrModel>(e),
        },
        depth >= 1,
    ensures
        ({
            let whole = render_tokens(ns, pre + seq![dir] + post, Seq::empty(), oracle, depth);
            whole.bytes == concat_raws(pre) && whole.result == Err::<(), ErrModel>(e)
        }),
{
    let frag = resolve_model(ns, tag, oracle, depth);
    assert(frag.bytes =~= Seq::<u8>::empty() && frag.result == Err::<(), ErrModel>(e));
    lemma_directive_in_context(ns, pre, dir, post, tag, oracle, depth);
    assert(concat_raws(pre) + Seq::<u8>::empty() =~= concat_raws(pre));
}

// ---------------------------------------------------------------------------
// Validation precedence
// ---------------------------------------------------------------------------

/// Validation precedence: a directive token the parser rejects (a duplicated
/// attribute, a missing or empty `src`) ends rendering with that error before
/// any fetch is attempted — the outcome is the same whatever the fetch
/// collaborator would answer, as the unconstrained `oracle` here shows.
pub proof fn lemma_validation_precedence(
    ns: Seq<u8>,
    pre: Seq<TokenModel>,
    tok: TokenModel,
    post: Seq<TokenModel>,
    e: ErrModel,
    oracle: spec_fn(Seq<u8>) -> FetchOutcome,
    depth: nat,
)
    requires
        all_markup(ns, pre),
        parse_step_model(ns, Seq::empty(), tok).1 == Err::<Option<EventModel>, ErrModel>(e),
    ensures
        ({
            let whole = render_tokens(ns, pre + seq![tok] + post, Seq::empty(), oracle, depth);
            whole.bytes == concat_raws(pre) && whole.result == Err::<(), ErrModel>(e)
        }),
{
    let mid = seq![tok] + post;
    assert(pre + seq![tok] + post =~= pre + mid);
    lemma_markup_prefix(ns, pre, mid, Seq::empty(), oracle, depth);
    assert(mid[0] == tok);
    let tail = render_tokens(ns, mid, Seq::empty(), oracle, depth);
    assert(tail.bytes =~= Seq::<u8>::empty());
    assert(concat_raws(pre) + Seq::<u8>::empty() =~= concat_raws(pre));
}

// ---------------------------------------------------------------------------
// Unbounded-depth resolution
// ---------------------------------------------------------------------------

/// Nested resolution: a chain of directives, each one's fragment holding
/// exactly the next directive and the last one's fragment holding only
/// markup, flattens to the innermost fragment's bytes alone — at any chain
/// length the remaining depth allows, independent of the nesting.
pub proof fn lemma_nested_resolution(
    ns: Seq<u8>,
    dirs: Seq<TokenModel>,
    tags: Seq<TagModel>,
    bodies: Seq<Seq<u8>>,
    ptoks: Seq<TokenModel>,
    oracle: spec_fn(Seq<u8>) -> FetchOutcome,
    depth: nat,
)
    requires
        tags.len() >= 1,
        dirs.len() == tags.len(),
        bodies.len() == tags.len(),
        depth >= tags.len(),
        forall|i: int| 0 <= i < tags.len() ==> oracle((#[trigger] tags[i]).src())
            == (FetchOutcome::Reply { status: 200u16, body: bodies[i] }),
        forall|i: int| 0 <= i < tags.len() - 1 ==> lexed_tokens(#[trigger] bodies[i]) == seq![
            dirs[i + 1],
        ],
        forall|i: int| 0 <= i < tags.len() ==> lexed_fault(#[trigger] bodies[i]) is None,
        forall|i: int| 1 <= i < tags.len() ==> parse_step_model(ns, Seq::empty(), #[trigger] dirs[i])
            == (Seq::<PendingModel>::empty(), Ok::<Option<EventModel>, ErrModel>(Some(
            EventModel::Directive(tags[i]),
        ))),
        lexed_tokens(bodies[tags.len() - 1]) == ptoks,
        all_markup(ns, ptoks),
    ensures
        resolve_model(ns, tags[0], oracle, depth).bytes == concat_raws(ptoks),
        resolve_model(ns, tags[0], oracle, depth).result is Ok,
    decreases tags.len(),
{
    let frag = resolve_model(ns, tags[0], oracle, depth);
    let body0 = bodies[0];
    let dm0 = DocumentModel { tokens: lexed_tokens(body0), fault: lexed_fault(body0) };
    assert(is_success_status(200u16));
    assert(oracle(tags[0].src()) == (FetchOutcome::Reply { status: 200u16, body: body0 }));
    assert(attempt_model(oracle(tags[0].src())) == Ok::<Seq<u8>, ErrModel>(body0));
    assert(frag == render_doc(ns, body0, oracle, (depth - 1) as nat));
    assert(frag == render_document(ns, dm0, oracle, (depth - 1) as nat));
    if tags.len() == 1 {
        lemma_identity(ns, dm0, oracle, (depth - 1) as nat);
        assert(bodies[tags.len() - 1] == bodies[0]);
        assert(dm0.tokens == ptoks);
        assert(frag.bytes == concat_raws(ptoks));
        assert(frag.result is Ok);
    } else {
        let dirs2 = dirs.drop_first();
        let tags2 = tags.drop_first();
        let bodies2 = bodies.drop_first();
        assert forall|i: int| 0 <= i < tags2.len() implies oracle(
            (#[trigger] tags2[i]).src(),
        ) == (FetchOutcome::Reply { status: 200u16, body: bodies2[i] }) by {
            assert(tags2[i] == tags[i + 1]);
            assert(bodies2[i] == bodies[i + 1]);
        }
        assert forall|i: int| 0 <= i < tags2.len() - 1 implies lexed_tokens(
            #[trigger] bodies2[i],
        ) == seq![dirs2[i + 1]] by {
            assert(bodies2[i] == bodies[i + 1]);
            assert(dirs2[i + 1] == dirs[i + 2]);
            assert(lexed_tokens(bodies[i + 1]) == seq![dirs[i + 2]]);
        }
        assert forall|i: int| 0 <= i < tags2.len() implies lexed_fault(
            #[trigger] bodies2[i],
        ) is None by {
            assert(bodies2[i] == bodies[i + 1]);
        }
        assert forall|i: int| 1 <= i < tags2.len() implies parse_step_model(
            ns,
            Seq::empty(),
            #[trigger] dirs2[i],
        ) == (Seq::<PendingModel>::empty(), Ok::<Option<EventModel>, ErrModel>(Some(
            EventModel::Directive(tags2[i]),
        ))) by {
            assert(dirs2[i] == dirs[i + 1]);
            assert(tags2[i] == tags[i + 1]);
        }
        assert(bodies2[tags2.len() - 1] == bodies[tags.len() - 1]);
        assert(lexed_tokens(bodies2[tags2.len() - 1]) == ptoks);
        lemma_nested_resolution(ns, dirs2, tags2, bodies2, ptoks, oracle, (depth - 1) as nat);
        assert(tags2[0] == tags[1]);
        let inner = resolve_model(ns, tags[1], oracle, (depth - 1) as nat);
        assert(inner.bytes == concat_raws(ptoks) && inner.result is Ok);
        // the fragment of the head directive holds exactly the next directive
        let toks0 = lexed_tokens(bodies[0]);
        assert(toks0 == seq![dirs[1]]);
        assert(toks0[0] == dirs[1]);
        assert(toks0.drop_first() =~= Seq::<TokenModel>::empty());
        let after = render_tokens(ns, toks0.drop_first(), Seq::empty(), oracle, (depth - 1) as nat);
        assert(after.bytes =~= Seq::<u8>::empty() && after.result is Ok);
        let body_render = render_tokens(ns, toks0, Seq::empty(), oracle, (depth - 1) as nat);
        assert(body_render.bytes == inner.bytes + after.bytes && body_render.result is Ok);
        assert(inner.bytes + Seq::<u8>::empty() =~= inner.bytes);
        assert(frag.bytes == concat_raws(ptoks));
        assert(frag.result is Ok);
    }
}

} // verus!

