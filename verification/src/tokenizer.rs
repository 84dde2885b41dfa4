//! Whitespace tokenizer and prefix resolution.
//!
//! A message is split into whitespace-delimited tokens; each token is kept as
//! a span into the original bytes, so that later stages can quote the exact
//! offending fragment and a trailing "rest" argument can capture the original
//! text verbatim.
//!
//! The core works on bytes, and its separator class is ASCII whitespace
//! (space, tab, line feed, carriage return): that is the intended reading of
//! "whitespace" throughout this crate. Bytes of multi-byte characters are
//! never separators, so any other Unicode spacing character binds into the
//! surrounding token instead of splitting it.

use vstd::prelude::*;
use crate::text::{is_ws, is_ws_byte, starts_with, starts_with_at, dec_digits, push_dec};

verus! {

/// One token of the original message: the byte range `[start, end)`.
#[derive(Clone, Copy, PartialEq, Eq, Structural)]
pub struct Token {
    pub start: usize,
    pub end: usize,
}

/// Ghost image of a token: its byte range as mathematical integers.
pub open spec fn span_of(t: Token) -> (int, int) {
    (t.start as int, t.end as int)
}

/// Spans of a token vector.
pub open spec fn spans_of(ts: Seq<Token>) -> Seq<(int, int)> {
    ts.map_values(|t: Token| span_of(t))
}

/// The bytes a span selects.
pub open spec fn span_text(s: Seq<u8>, sp: (int, int)) -> Seq<u8> {
    s.subrange(sp.0, sp.1)
}

/// End of the maximal run of non-whitespace bytes beginning at `i`.
pub open spec fn token_end(s: Seq<u8>, i: int) -> int
    decreases s.len() - i when i <= s.len()
{
    if i < 0 || i >= s.len() || is_ws(s[i]) {
        i
    } else {
        token_end(s, i + 1)
    }
}

/// `token_end` stays within the text and moves forward over a non-whitespace
/// byte.
pub proof fn lemma_token_end(s: Seq<u8>, i: int)
    requires
        0 <= i <= s.len(),
    ensures
        i <= token_end(s, i) <= s.len(),
        i < s.len() && !is_ws(s[i]) ==> token_end(s, i) > i,
        forall|k: int| i <= k < token_end(s, i) ==> !is_ws(s[k]),
        token_end(s, i) < s.len() ==> is_ws(s[token_end(s, i)]),
    decreases s.len() - i,
{
    if i < s.len() && !is_ws(s[i]) {
        lemma_token_end(s, i + 1);
    }
}

/// The token spans of `s` from position `i` on: maximal runs of
/// non-whitespace bytes, in order.
pub open spec fn spec_spans(s: Seq<u8>, i: int) -> Seq<(int, int)>
    decreases s.len() - i when 0 <= i <= s.len()
    via spec_spans_decreases
{
    if i >= s.len() {
        Seq::empty()
    } else if is_ws(s[i]) {
        spec_spans(s, i + 1)
    } else {
        seq![(i, token_end(s, i))] + spec_spans(s, token_end(s, i))
    }
}

#[via_fn]
proof fn spec_spans_decreases(s: Seq<u8>, i: int) {
    if 0 <= i < s.len() && !is_ws(s[i]) {
        lemma_token_end(s, i);
    }
}

/// Every span lies within `[i, s.len())` and is non-empty.
pub proof fn lemma_spans_wf(s: Seq<u8>, i: int)
    requires
        0 <= i <= s.len(),
    ensures
        forall|k: int| 0 <= k < spec_spans(s, i).len() ==> i <= (#[trigger] spec_spans(s, i)[k]).0
            < spec_spans(s, i)[k].1 <= s.len(),
    decreases s.len() - i,
{
    if i >= s.len() {
        assert(spec_spans(s, i).len() == 0);
    } else {
        if is_ws(s[i]) {
            lemma_spans_wf(s, i + 1);
            assert(spec_spans(s, i) == spec_spans(s, i + 1));
            assert forall|k: int|
                0 <= k < spec_spans(s, i).len() implies i <= (#[trigger] spec_spans(s, i)[k]).0
                < spec_spans(s, i)[k].1 <= s.len() by {
                assert(spec_spans(s, i)[k] == spec_spans(s, i + 1)[k]);
            }
        } else {
            lemma_token_end(s, i);
            let te = token_end(s, i);
            lemma_spans_wf(s, te);
            assert(spec_spans(s, i) == seq![(i, te)] + spec_spans(s, te));
            assert forall|k: int|
                0 <= k < spec_spans(s, i).len() implies i <= (#[trigger] spec_spans(s, i)[k]).0
                < spec_spans(s, i)[k].1 <= s.len() by {
                if k > 0 {
                    assert(spec_spans(s, i)[k] == spec_spans(s, te)[k - 1]);
                }
            }
        }
    }
}

/// Position of the first non-whitespace byte at or after `i`.
pub open spec fn ws_end(s: Seq<u8>, i: int) -> int
    decreases s.len() - i when i <= s.len()
{
    if i < 0 || i >= s.len() || !is_ws(s[i]) {
        i
    } else {
        ws_end(s, i + 1)
    }
}

/// Splits `s` from position `from` into its whitespace-delimited tokens.
pub fn tokenize(s: &[u8], from: usize) -> (r: Vec<Token>)
    requires
        from <= s@.len(),
    ensures
        spans_of(r@) == spec_spans(s@, from as int),
{
    let slen = s.len();
    let mut out: Vec<Token> = Vec::new();
    let mut i = from;
    proof {
        assert(spans_of(out@) =~= Seq::<(int, int)>::empty());
    }
    loop
        invariant
            from <= i <= slen == s@.len(),
            spans_of(out@) + spec_spans(s@, i as int) == spec_spans(s@, from as int),
        ensures
            spans_of(out@) == spec_spans(s@, from as int),
        decreases slen - i,
    {
        let ghost i0 = i;
        while i < slen && is_ws_byte(s[i])
            invariant
                from <= i <= slen == s@.len(),
                i0 <= i,
                spans_of(out@) + spec_spans(s@, i as int) == spec_spans(s@, from as int),
            decreases slen - i,
        {
            i += 1;
        }
        if i == slen {
            proof {
                assert(spec_spans(s@, i as int) == Seq::<(int, int)>::empty());
                assert(spans_of(out@) + spec_spans(s@, i as int) =~= spans_of(out@));
            }
            break;
        }
        let b = i;
        while i < slen && !is_ws_byte(s[i])
            invariant
                from <= b <= i <= slen == s@.len(),
                i0 <= b,
                !is_ws(s@[b as int]),
                b < slen,
                token_end(s@, b as int) == token_end(s@, i as int),
            decreases slen - i,
        {
            i += 1;
        }
        proof {
            assert(i > b);
            assert(token_end(s@, i as int) == i);
            assert(spec_spans(s@, b as int) == seq![(b as int, i as int)] + spec_spans(
                s@,
                i as int,
            ));
        }
        out.push(Token { start: b, end: i });
        proof {
            assert(spans_of(out@) =~= spans_of(out@.drop_last()) + seq![(b as int, i as int)]);
            assert(spans_of(out@) + spec_spans(s@, i as int) =~= spec_spans(s@, from as int));
        }
    }
    out
}

/// How the prefix stage classified a message.
pub enum PrefixOutcome {
    /// The message does not begin with the active prefix or a bot mention.
    NoPrefix,
    /// The prefix was found but nothing except whitespace follows it.
    PrefixOnly,
    /// The prefix was found; the command text begins at this byte position.
    Rest(usize),
}

/// Ghost image of a prefix outcome.
pub enum PrefixOutcomeView {
    NoPrefix,
    PrefixOnly,
    Rest(int),
}

impl PrefixOutcome {
    pub open spec fn view(&self) -> PrefixOutcomeView {
        match self {
            PrefixOutcome::NoPrefix => PrefixOutcomeView::NoPrefix,
            PrefixOutcome::PrefixOnly => PrefixOutcomeView::PrefixOnly,
            PrefixOutcome::Rest(p) => PrefixOutcomeView::Rest(*p as int),
        }
    }
}

/// The mention of the bot: `<@id>`, or `<@!id>` when `bang` is set.
pub open spec fn mention_text(bot_id: u64, bang: bool) -> Seq<u8> {
    if bang {
        seq![60u8, 64u8, 33u8] + dec_digits(bot_id as nat) + seq![62u8]
    } else {
        seq![60u8, 64u8] + dec_digits(bot_id as nat) + seq![62u8]
    }
}

/// Builds the mention of the bot as bytes.
pub fn build_mention(bot_id: u64, bang: bool) -> (r: Vec<u8>)
    ensures
        r@ == mention_text(bot_id, bang),
{
    let mut out: Vec<u8> = Vec::new();
    out.push(60);
    out.push(64);
    if bang {
        out.push(33);
    }
    push_dec(&mut out, bot_id);
    out.push(62);
    proof {
        assert(out@ =~= mention_text(bot_id, bang));
    }
    out
}

/// What the prefix stage returns, at the specification level: skip leading
/// whitespace; try the active prefix, then the two mention forms; classify
/// the remainder.
pub open spec fn spec_find_prefix(content: Seq<u8>, prefix: Seq<u8>, bot_id: u64) -> PrefixOutcomeView {
    let p = ws_end(content, 0);
    let rest = content.skip(p);
    if starts_with(rest, prefix) {
        spec_classify(content, p + prefix.len())
    } else if starts_with(rest, mention_text(bot_id, false)) {
        spec_classify(content, p + mention_text(bot_id, false).len())
    } else if starts_with(rest, mention_text(bot_id, true)) {
        spec_classify(content, p + mention_text(bot_id, true).len())
    } else {
        PrefixOutcomeView::NoPrefix
    }
}

/// After a matched prefix ending at `r`: prefix-only when nothing but
/// whitespace follows, else the command text starts at `r`.
pub open spec fn spec_classify(content: Seq<u8>, r: int) -> PrefixOutcomeView {
    if ws_end(content, r) == content.len() {
        PrefixOutcomeView::PrefixOnly
    } else {
        PrefixOutcomeView::Rest(r)
    }
}

/// Skips leading whitespace and detects the active prefix or a mention of the
/// bot at the front of `content`.
pub fn find_prefix(content: &[u8], prefix: &[u8], bot_id: u64) -> (r: PrefixOutcome)
    ensures
        r@ == spec_find_prefix(content@, prefix@, bot_id),
        match r {
            PrefixOutcome::Rest(p) => p <= content@.len(),
            _ => true,
        },
{
    let slen = content.len();
    let mut p: usize = 0;
    while p < slen && is_ws_byte(content[p])
        invariant
            p <= slen == content@.len(),
            ws_end(content@, 0) == ws_end(content@, p as int),
        decreases slen - p,
    {
        p += 1;
    }
    proof {
        assert(ws_end(content@, p as int) == p);
    }
    if starts_with_at(content, p, prefix) {
        return classify(content, p + prefix.len());
    }
    let m0 = build_mention(bot_id, false);
    if starts_with_at(content, p, m0.as_slice()) {
        return classify(content, p + m0.len());
    }
    let m1 = build_mention(bot_id, true);
    if starts_with_at(content, p, m1.as_slice()) {
        return classify(content, p + m1.len());
    }
    PrefixOutcome::NoPrefix
}

/// Classifies the remainder after a matched prefix ending at `r`.
fn classify(content: &[u8], r: usize) -> (out: PrefixOutcome)
    requires
        r <= content@.len(),
    ensures
        out@ == spec_classify(content@, r as int),
        match out {
            PrefixOutcome::Rest(p) => p == r,
            _ => true,
        },
{
    let slen = content.len();
    let mut q = r;
    while q < slen && is_ws_byte(content[q])
        invariant
            r <= q <= slen == content@.len(),
            ws_end(content@, r as int) == ws_end(content@, q as int),
        decreases slen - q,
    {
        q += 1;
    }
    proof {
        assert(ws_end(content@, q as int) == q);
    }
    if q == slen {
        PrefixOutcome::PrefixOnly
    } else {
        PrefixOutcome::Rest(r)
    }
}

} // verus!
