//! The dispatcher: one inbound event in, one decision out.
//!
//! `plan` runs the checks of a message in order — discard, prefix, help,
//! command resolution, authorization, rate limit, argument binding — and returns what
//! the surrounding process must do: nothing, send a reply, or run a handler.
//! `settle` closes the invocation once the handler reports back: a success
//! debits the command's bucket; a failure costs no allowance and is turned
//! into the user-facing message of its error tier. The surrounding process
//! owns all I/O; every decision here is a plain value.

use vstd::prelude::*;
use crate::arguments::{ArgValue, ArgValueView, args_view, spec_bind, bind_arguments};
use crate::bucket::{Bucket, BucketView, spec_check, spec_commit};
use crate::command::{
    Command, CommandMap, CommandView, cmds_view, spec_resolve, token_texts,
};
use crate::error::RoError;
use crate::messages::{
    prefix_announcement, render_prefix_announcement, cooldown_message, render_cooldown_message,
    parse_error_message, render_parse_error, error_message, render_error_message,
};
use crate::permission::{
    BotConfig, BotConfigView, GuildAuthContext, MemberInfo, MemberInfoView, active_prefix,
    lookup_prefix_exec, spec_authorize, authorize,
};
use crate::text::{lower_seq, eq_ignore_case, bytes_eq, copy_bytes, subvec, vecs_view};
use crate::tokenizer::{
    Token, spans_of, span_text, spec_spans, lemma_spans_wf, PrefixOutcome, PrefixOutcomeView,
    spec_find_prefix, find_prefix,
};

verus! {

/// A normalized inbound chat message.
pub struct MessageEvent {
    pub author_id: u64,
    pub author_is_bot: bool,
    pub from_webhook: bool,
    /// Absent for direct messages, which the dispatcher discards.
    pub guild_id: Option<u64>,
    pub channel_id: u64,
    pub content: Vec<u8>,
}

/// Ghost image of a message event.
pub struct MessageEventView {
    pub author_id: u64,
    pub author_is_bot: bool,
    pub from_webhook: bool,
    pub guild_id: Option<u64>,
    pub channel_id: u64,
    pub content: Seq<u8>,
}

impl View for MessageEvent {
    type V = MessageEventView;

    open spec fn view(&self) -> MessageEventView {
        MessageEventView {
            author_id: self.author_id,
            author_is_bot: self.author_is_bot,
            from_webhook: self.from_webhook,
            guild_id: self.guild_id,
            channel_id: self.channel_id,
            content: self.content@,
        }
    }
}

/// A normalized component interaction: a button press on an earlier message.
pub struct InteractionEvent {
    pub author_id: u64,
    pub message_id: u64,
    pub component_id: Vec<u8>,
}

/// A normalized inbound event.
pub enum Event {
    MessageCreate(MessageEvent),
    /// Owned by whichever confirmation wait registered the message; the
    /// generic dispatcher never treats one as a command.
    ComponentInteraction(InteractionEvent),
}

/// The help command's registration: its invocation name and handler key.
pub struct HelpCommand {
    pub name: Vec<u8>,
    pub handler: u64,
}

/// What the dispatcher asks the surrounding process to do for one event.
#[allow(inconsistent_fields)]
pub enum Decision {
    /// Nothing: the event is not an invocation, or must be dropped silently
    /// (bots, webhooks, direct messages, unknown commands, denied callers,
    /// and pure namespaces matched without a handler).
    Ignore,
    /// Send this text to the message's channel and stop.
    Reply(Vec<u8>),
    /// Run the help handler over these leftover token texts.
    Help { handler: u64, args: Vec<Vec<u8>> },
    /// Run this handler with these bound arguments; on success, settle with
    /// the named bucket.
    Invoke { handler: u64, args: Vec<ArgValue>, bucket: Option<Vec<u8>> },
}

/// Ghost image of a decision.
#[allow(inconsistent_fields)]
pub enum DecisionView {
    Ignore,
    Reply(Seq<u8>),
    Help { handler: u64, args: Seq<Seq<u8>> },
    Invoke { handler: u64, args: Seq<ArgValueView>, bucket: Option<Seq<u8>> },
}

impl View for Decision {
    type V = DecisionView;

    open spec fn view(&self) -> DecisionView {
        match self {
            Decision::Ignore => DecisionView::Ignore,
            Decision::Reply(m) => DecisionView::Reply(m@),
            Decision::Help { handler, args } => DecisionView::Help {
                handler: *handler,
                args: vecs_view(args@),
            },
            Decision::Invoke { handler, args, bucket } => DecisionView::Invoke {
                handler: *handler,
                args: args_view(args@),
                bucket: match bucket {
                    Some(b) => Some(b@),
                    None => None,
                },
            },
        }
    }
}

/// The framework: the command registry, the named rate-limit buckets, and the
/// optional help command. Built once at process start; only bucket state
/// changes afterwards.
pub struct Framework {
    pub commands: CommandMap,
    pub buckets: Vec<(Vec<u8>, Bucket)>,
    pub help: Option<HelpCommand>,
}

/// Ghost image of the framework.
pub struct FrameworkView {
    pub commands: Seq<CommandView>,
    pub buckets: Seq<(Seq<u8>, BucketView)>,
    pub help: Option<(Seq<u8>, u64)>,
}

/// Ghost image of the named buckets.
pub open spec fn buckets_view(s: Seq<(Vec<u8>, Bucket)>) -> Seq<(Seq<u8>, BucketView)> {
    s.map_values(|p: (Vec<u8>, Bucket)| (p.0@, p.1@))
}

impl View for Framework {
    type V = FrameworkView;

    open spec fn view(&self) -> FrameworkView {
        FrameworkView {
            commands: cmds_view(self.commands.commands@),
            buckets: buckets_view(self.buckets@),
            help: match &self.help {
                Some(h) => Some((h.name@, h.handler)),
                None => None,
            },
        }
    }
}

/// Index of the named bucket: the first with this name.
pub open spec fn find_bucket(s: Seq<(Seq<u8>, BucketView)>, name: Seq<u8>) -> Option<int>
    decreases s.len(),
{
    if s.len() == 0 {
        None
    } else if s[0].0 == name {
        Some(0int)
    } else {
        match find_bucket(s.drop_first(), name) {
            Some(i) => Some(i + 1),
            None => None,
        }
    }
}

/// The first bucket of the name is where `find_bucket` points.
pub proof fn lemma_find_bucket_first(s: Seq<(Seq<u8>, BucketView)>, name: Seq<u8>, i: int)
    requires
        0 <= i <= s.len(),
        forall|k: int| 0 <= k < i ==> (#[trigger] s[k]).0 != name,
        i < s.len() ==> s[i].0 == name,
    ensures
        find_bucket(s, name) == if i < s.len() {
            Some(i)
        } else {
            None::<int>
        },
    decreases s.len(),
{
    if s.len() > 0 {
        if i == 0 {
        } else {
            assert(s[0].0 != name);
            assert forall|k: int| 0 <= k < i - 1 implies (#[trigger] s.drop_first()[k]).0
                != name by {
                assert(s.drop_first()[k] == s[k + 1]);
            }
            if i - 1 < s.drop_first().len() {
                assert(s.drop_first()[i - 1] == s[i]);
            }
            lemma_find_bucket_first(s.drop_first(), name, i - 1);
        }
    }
}

/// Registration at the specification level: a fresh bucket of this window and
/// capacity replaces the bucket already registered under the name, or is
/// appended when the name is new.
pub open spec fn spec_register_bucket(
    buckets: Seq<(Seq<u8>, BucketView)>,
    name: Seq<u8>,
    window: u64,
    calls: u64,
) -> Seq<(Seq<u8>, BucketView)> {
    let fresh = BucketView { window, capacity: calls, entries: Seq::empty() };
    match find_bucket(buckets, name) {
        Some(i) => buckets.update(i, (name, fresh)),
        None => buckets.push((name, fresh)),
    }
}

/// The rate-limit step at the specification level: the buckets after the
/// check, and the wait if the call is limited. A command naming no registered
/// bucket passes free.
pub open spec fn spec_gate(
    buckets: Seq<(Seq<u8>, BucketView)>,
    name: Seq<u8>,
    guild_id: u64,
    now: u64,
) -> (Seq<(Seq<u8>, BucketView)>, Option<u64>) {
    match find_bucket(buckets, name) {
        Some(i) => {
            let b = buckets[i].1;
            let (entries, res) = spec_check(b, guild_id, now);
            (
                buckets.update(
                    i,
                    (buckets[i].0, BucketView { window: b.window, capacity: b.capacity, entries }),
                ),
                res,
            )
        },
        None => (buckets, None),
    }
}

/// Debiting after a successful handler, at the specification level.
pub open spec fn spec_commit_gate(
    buckets: Seq<(Seq<u8>, BucketView)>,
    name: Option<Seq<u8>>,
    guild_id: u64,
    now: u64,
) -> Seq<(Seq<u8>, BucketView)> {
    match name {
        None => buckets,
        Some(n) => match find_bucket(buckets, n) {
            Some(i) => {
                let b = buckets[i].1;
                buckets.update(
                    i,
                    (
                        buckets[i].0,
                        BucketView {
                            window: b.window,
                            capacity: b.capacity,
                            entries: spec_commit(b, guild_id, now),
                        },
                    ),
                )
            },
            None => buckets,
        },
    }
}

/// Runs the check of the named bucket, if registered.
fn gate_exec(buckets: &mut Vec<(Vec<u8>, Bucket)>, name: &[u8], guild_id: u64, now: u64) -> (r:
    Option<u64>)
    ensures
        (buckets_view(final(buckets)@), r) == spec_gate(
            buckets_view(old(buckets)@),
            name@,
            guild_id,
            now,
        ),
{
    let ghost bv = buckets_view(buckets@);
    let n = buckets.len();
    let mut k: usize = 0;
    while k < n
        invariant
            k <= n == buckets@.len(),
            bv == buckets_view(buckets@),
            bv == buckets_view(old(buckets)@),
            bv.len() == n,
            forall|m: int| 0 <= m < k ==> (#[trigger] bv[m]).0 != name@,
        decreases n - k,
    {
        proof {
            assert(bv[k as int] == (buckets@[k as int].0@, buckets@[k as int].1@));
        }
        if bytes_eq(buckets[k].0.as_slice(), name) {
            proof {
                lemma_find_bucket_first(bv, name@, k as int);
            }
            let ghost bpre = buckets@[k as int].1@;
            let r = buckets[k].1.check(guild_id, now);
            proof {
                assert(bv[k as int].1 == bpre);
                assert((buckets@[k as int].1@.entries, r) == spec_check(bpre, guild_id, now));
                assert(buckets_view(buckets@) =~= spec_gate(bv, name@, guild_id, now).0);
                assert(r == spec_gate(bv, name@, guild_id, now).1);
                assert(bv == buckets_view(old(buckets)@));
                assert((buckets_view(buckets@), r) == spec_gate(bv, name@, guild_id, now));
            }
            return r;
        }
        k += 1;
    }
    proof {
        lemma_find_bucket_first(bv, name@, n as int);
    }
    None
}

/// Debits the named bucket, if registered.
fn commit_exec(buckets: &mut Vec<(Vec<u8>, Bucket)>, name: &[u8], guild_id: u64, now: u64)
    ensures
        buckets_view(final(buckets)@) == spec_commit_gate(
            buckets_view(old(buckets)@),
            Some(name@),
            guild_id,
            now,
        ),
{
    let ghost bv = buckets_view(buckets@);
    let n = buckets.len();
    let mut k: usize = 0;
    while k < n
        invariant
            k <= n == buckets@.len(),
            bv == buckets_view(buckets@),
            bv == buckets_view(old(buckets)@),
            bv.len() == n,
            forall|m: int| 0 <= m < k ==> (#[trigger] bv[m]).0 != name@,
        decreases n - k,
    {
        proof {
            assert(bv[k as int] == (buckets@[k as int].0@, buckets@[k as int].1@));
        }
        if bytes_eq(buckets[k].0.as_slice(), name) {
            proof {
                lemma_find_bucket_first(bv, name@, k as int);
            }
            let ghost bpre = buckets@[k as int].1@;
            buckets[k].1.commit(guild_id, now);
            proof {
                assert(bv[k as int].1 == bpre);
                assert(buckets@[k as int].1@.entries == spec_commit(bpre, guild_id, now));
                assert(buckets_view(buckets@) =~= spec_commit_gate(
                    bv,
                    Some(name@),
                    guild_id,
                    now,
                ));
            }
            return ;
        }
        k += 1;
    }
    proof {
        lemma_find_bucket_first(bv, name@, n as int);
    }
}

/// The text of each token span.
pub open spec fn texts_of(content: Seq<u8>, spans: Seq<(int, int)>) -> Seq<Seq<u8>> {
    Seq::new(spans.len(), |k: int| span_text(content, spans[k]))
}

/// The whole dispatch chain of one message, at the specification level.
/// Returns the decision and the buckets as the rate-limit check leaves them.
pub open spec fn spec_plan(
    f: FrameworkView,
    ev: MessageEventView,
    cfg: BotConfigView,
    guild: Option<GuildAuthContext>,
    member: Option<MemberInfoView>,
    now: u64,
) -> (DecisionView, Seq<(Seq<u8>, BucketView)>) {
    match ev.guild_id {
        None => (DecisionView::Ignore, f.buckets),
        Some(gid) => {
            if ev.author_is_bot || ev.from_webhook || ev.content.len() == 0 {
                (DecisionView::Ignore, f.buckets)
            } else {
                let prefix = active_prefix(cfg, gid);
                match spec_find_prefix(ev.content, prefix, cfg.bot_id) {
                    PrefixOutcomeView::NoPrefix => (DecisionView::Ignore, f.buckets),
                    PrefixOutcomeView::PrefixOnly => (
                        DecisionView::Reply(prefix_announcement(prefix)),
                        f.buckets,
                    ),
                    PrefixOutcomeView::Rest(p) => {
                        let spans = spec_spans(ev.content, p);
                        let toks = texts_of(ev.content, spans);
                        if toks.len() == 0 {
                            (DecisionView::Ignore, f.buckets)
                        } else if (match f.help {
                            Some((hname, _)) => lower_seq(toks[0]) == lower_seq(hname),
                            None => false,
                        }) {
                            (
                                DecisionView::Help {
                                    handler: (match f.help {
                                        Some((_, hkey)) => hkey,
                                        None => 0,
                                    }),
                                    args: toks.drop_first(),
                                },
                                f.buckets,
                            )
                        } else {
                            match spec_resolve(f.commands, toks, 0) {
                                None => (DecisionView::Ignore, f.buckets),
                                Some((c, nt)) => spec_plan_matched(
                                    f,
                                    ev,
                                    cfg,
                                    guild,
                                    member,
                                    now,
                                    c,
                                    nt,
                                    spans,
                                ),
                            }
                        }
                    },
                }
            }
        },
    }
}

/// The tail of the dispatch chain once a command is matched: authorization,
/// the rate limit, argument binding, and the invocation itself.
///
/// A matched command without a handler is a pure namespace invoked with no
/// further matching token; the chain drops it silently, the reading of
/// "error" this dispatcher takes. A registry that wants a reply instead
/// gives the group a fall-through handler, as the shipped asset-bind group
/// does with its view handler.
pub open spec fn spec_plan_matched(
    f: FrameworkView,
    ev: MessageEventView,
    cfg: BotConfigView,
    guild: Option<GuildAuthContext>,
    member: Option<MemberInfoView>,
    now: u64,
    c: CommandView,
    nt: int,
    spans: Seq<(int, int)>,
) -> (DecisionView, Seq<(Seq<u8>, BucketView)>) {
    let gid = match ev.guild_id {
        Some(g) => g,
        None => 0,
    };
    let allowed = match guild {
        Some(g) => spec_authorize(cfg, c.level, ev.author_id, gid, g, member),
        None => false,
    };
    if !allowed {
        (DecisionView::Ignore, f.buckets)
    } else {
        let gated = match c.bucket {
            Some(bname) => spec_gate(f.buckets, bname, gid, now),
            None => (f.buckets, None),
        };
        match gated.1 {
            Some(wait) => (DecisionView::Reply(cooldown_message(wait)), gated.0),
            None => match spec_bind(ev.content, spans, nt, c.args, 0) {
                Err(e) => (
                    DecisionView::Reply(
                        parse_error_message(ev.content, e.fragment, e.field, e.expected),
                    ),
                    gated.0,
                ),
                Ok(vs) => match c.handler {
                    Some(h) => (
                        DecisionView::Invoke { handler: h, args: vs, bucket: c.bucket },
                        gated.0,
                    ),
                    None => (DecisionView::Ignore, gated.0),
                },
            },
        }
    }
}

impl Framework {
    /// An empty framework: no commands, no buckets, no help.
    pub fn new() -> (r: Framework)
        ensures
            r@.commands.len() == 0,
            r@.buckets.len() == 0,
            r@.help is None,
    {
        Framework { commands: CommandMap::new(), buckets: Vec::new(), help: None }
    }

    /// Registers one top-level command.
    pub fn command(self, command: Command) -> (r: Framework)
        ensures
            r@.commands == self@.commands.push(command@),
            r@.buckets == self@.buckets,
            r@.help == self@.help,
    {
        let ghost before = self.commands.commands@;
        let mut f = self;
        f.commands.add(command);
        proof {
            crate::command::lemma_cmds_view_push(before, command);
        }
        f
    }

    /// Registers the help command.
    pub fn help(self, help: HelpCommand) -> (r: Framework)
        ensures
            r@.commands == self@.commands,
            r@.buckets == self@.buckets,
            r@.help == Some((help.name@, help.handler)),
    {
        let mut f = self;
        f.help = Some(help);
        f
    }

    /// Registers a named rate-limit bucket of the given window (milliseconds)
    /// and capacity. Registering a name a second time replaces the earlier
    /// bucket, state and all.
    pub fn bucket(self, name: Vec<u8>, window: u64, calls: u64) -> (r: Framework)
        ensures
            r@.commands == self@.commands,
            r@.help == self@.help,
            r@.buckets == spec_register_bucket(self@.buckets, name@, window, calls),
    {
        let ghost nv = name@;
        let b = Bucket::new(window, calls);
        proof {
            assert(b@.entries =~= Seq::<(u64, crate::bucket::BucketEntry)>::empty());
        }
        let ghost bv = buckets_view(self.buckets@);
        let n = self.buckets.len();
        let mut found: Option<usize> = None;
        let mut k: usize = 0;
        while k < n && found.is_none()
            invariant
                k <= n == self.buckets@.len(),
                bv == buckets_view(self.buckets@),
                bv.len() == n,
                nv == name@,
                match found {
                    Some(i) => i < n && bv[i as int].0 == nv && forall|m: int|
                        0 <= m < i ==> (#[trigger] bv[m]).0 != nv,
                    None => forall|m: int| 0 <= m < k ==> (#[trigger] bv[m]).0 != nv,
                },
            decreases n - k + (if found is None {
                1int
            } else {
                0int
            }),
        {
            proof {
                assert(bv[k as int] == (self.buckets@[k as int].0@, self.buckets@[k as int].1@));
            }
            if bytes_eq(self.buckets[k].0.as_slice(), name.as_slice()) {
                found = Some(k);
            } else {
                k += 1;
            }
        }
        let mut f = self;
        match found {
            Some(i) => {
                proof {
                    lemma_find_bucket_first(bv, nv, i as int);
                }
                f.buckets[i] = (name, b);
                proof {
                    assert(buckets_view(f.buckets@) =~= bv.update(
                        i as int,
                        (nv, BucketView { window, capacity: calls, entries: Seq::empty() }),
                    ));
                }
            },
            None => {
                proof {
                    lemma_find_bucket_first(bv, nv, n as int);
                }
                f.buckets.push((name, b));
                proof {
                    assert(buckets_view(f.buckets@) =~= bv.push(
                        (nv, BucketView { window, capacity: calls, entries: Seq::empty() }),
                    ));
                }
            },
        }
        f
    }

    /// Plans one inbound message: every check of the dispatch chain, with the
    /// buckets left exactly as the rate-limit check sets them. Sends nothing
    /// and runs nothing itself.
    pub fn plan(
        &mut self,
        ev: &MessageEvent,
        cfg: &BotConfig,
        guild: Option<&GuildAuthContext>,
        member: Option<&MemberInfo>,
        now: u64,
    ) -> (r: Decision)
        ensures
            final(self)@.commands == old(self)@.commands,
            final(self)@.help == old(self)@.help,
            (r@, final(self)@.buckets) == spec_plan(
                old(self)@,
                ev@,
                cfg@,
                match guild {
                    Some(g) => Some(*g),
                    None => None,
                },
                match member {
                    Some(m) => Some(m@),
                    None => None,
                },
                now,
            ),
    {
        let ghost f0 = self@;
        let ghost gv = match guild {
            Some(g) => Some(*g),
            None => None::<GuildAuthContext>,
        };
        let ghost mv = match member {
            Some(m) => Some(m@),
            None => None::<MemberInfoView>,
        };
        if ev.author_is_bot || ev.from_webhook || ev.content.len() == 0 {
            return Decision::Ignore;
        }
        let gid = match ev.guild_id {
            Some(g) => g,
            None => {
                return Decision::Ignore;
            },
        };
        let prefix: &Vec<u8> = match lookup_prefix_exec(cfg, gid) {
            Some(p) => p,
            None => &cfg.default_prefix,
        };
        let content = ev.content.as_slice();
        let p = match find_prefix(content, prefix.as_slice(), cfg.bot_id) {
            PrefixOutcome::NoPrefix => {
                return Decision::Ignore;
            },
            PrefixOutcome::PrefixOnly => {
                return Decision::Reply(render_prefix_announcement(prefix.as_slice()));
            },
            PrefixOutcome::Rest(p) => p,
        };
        let tokens = crate::tokenizer::tokenize(content, p);
        let ghost spans = spec_spans(ev@.content, p as int);
        let ghost toks = texts_of(ev@.content, spans);
        proof {
            lemma_spans_wf(ev@.content, p as int);
            assert forall|k: int|
                0 <= k < tokens@.len() implies (#[trigger] tokens@[k]).start < tokens@[k].end
                <= ev@.content.len() by {
                assert(spans_of(tokens@)[k] == crate::tokenizer::span_of(tokens@[k]));
            }
            assert(token_texts(ev@.content, tokens@) =~= toks);
        }
        if tokens.len() == 0 {
            return Decision::Ignore;
        }
        let first = subvec(content, tokens[0].start, tokens[0].end);
        proof {
            assert(first@ == toks[0]);
        }
        let is_help = match &self.help {
            Some(h) => eq_ignore_case(first.as_slice(), h.name.as_slice()),
            None => false,
        };
        if is_help {
            let hkey = match &self.help {
                Some(h) => h.handler,
                None => 0,
            };
            let mut args: Vec<Vec<u8>> = Vec::new();
            let mut k: usize = 1;
            while k < tokens.len()
                invariant
                    1 <= k <= tokens@.len(),
                    content@ == ev@.content,
                    toks == texts_of(ev@.content, spans),
                    spans == spans_of(tokens@),
                    toks.len() == tokens@.len(),
                    forall|m: int|
                        0 <= m < tokens@.len() ==> (#[trigger] tokens@[m]).start < tokens@[m].end
                            <= ev@.content.len(),
                    vecs_view(args@) == toks.subrange(1, k as int),
                decreases tokens@.len() - k,
            {
                let t = subvec(content, tokens[k].start, tokens[k].end);
                proof {
                    assert(spans_of(tokens@)[k as int] == crate::tokenizer::span_of(
                        tokens@[k as int],
                    ));
                    assert(t@ == toks[k as int]);
                }
                let ghost args0 = args@;
                args.push(t);
                proof {
                    assert(vecs_view(args@) =~= vecs_view(args0).push(toks[k as int]));
                    assert(vecs_view(args0).push(toks[k as int]) =~= toks.subrange(1, k + 1));
                }
                k += 1;
            }
            proof {
                assert(toks.subrange(1, toks.len() as int) =~= toks.drop_first());
            }
            return Decision::Help { handler: hkey, args };
        }
        let resolved = self.commands.resolve(content, &tokens, 0);
        let (c, nt) = match resolved {
            Some(r) => r,
            None => {
                return Decision::Ignore;
            },
        };
        let g = match guild {
            Some(g) => g,
            None => {
                return Decision::Ignore;
            },
        };
        if !authorize(cfg, c.level, ev.author_id, gid, g, member) {
            return Decision::Ignore;
        }
        let mut waited: Option<u64> = None;
        if let Some(bname) = &c.bucket {
            waited = gate_exec(&mut self.buckets, bname.as_slice(), gid, now);
        }
        if let Some(wait) = waited {
            return Decision::Reply(render_cooldown_message(wait));
        }
        match bind_arguments(content, &tokens, nt, &c.args) {
            Err(e) => Decision::Reply(
                render_parse_error(
                    content,
                    e.fragment.as_slice(),
                    e.field.as_slice(),
                    e.expected.as_slice(),
                ),
            ),
            Ok(vs) => {
                match c.handler {
                    Some(h) => {
                        let bname = match &c.bucket {
                            Some(b) => Some(copy_bytes(b.as_slice())),
                            None => None,
                        };
                        Decision::Invoke { handler: h, args: vs, bucket: bname }
                    },
                    None => Decision::Ignore,
                }
            },
        }
    }

    /// Settles one invocation after its handler reported back: a success
    /// debits the command's bucket and needs no reply; a failure debits
    /// nothing and is answered with the message of its error tier.
    pub fn settle(
        &mut self,
        bucket: &Option<Vec<u8>>,
        guild_id: u64,
        outcome: Result<(), RoError>,
        content: &[u8],
        now: u64,
    ) -> (r: Option<Vec<u8>>)
        ensures
            final(self)@.commands == old(self)@.commands,
            final(self)@.help == old(self)@.help,
            match outcome {
                Ok(()) => r is None && final(self)@.buckets == spec_commit_gate(
                    old(self)@.buckets,
                    match bucket {
                        Some(b) => Some(b@),
                        None => None,
                    },
                    guild_id,
                    now,
                ),
                Err(e) => final(self)@.buckets == old(self)@.buckets && (r matches Some(m) && m@
                    == error_message(e@, content@)),
            },
    {
        match outcome {
            Ok(()) => {
                if let Some(bname) = bucket {
                    commit_exec(&mut self.buckets, bname.as_slice(), guild_id, now);
                }
                None
            },
            Err(e) => Some(render_error_message(&e, content)),
        }
    }

    /// Routes one inbound event: messages run the dispatch chain; component
    /// interactions belong to the confirmation waits that registered them and
    /// are never treated as commands here.
    pub fn handle_event(
        &mut self,
        event: &Event,
        cfg: &BotConfig,
        guild: Option<&GuildAuthContext>,
        member: Option<&MemberInfo>,
        now: u64,
    ) -> (r: Decision)
        ensures
            final(self)@.commands == old(self)@.commands,
            final(self)@.help == old(self)@.help,
            match event {
                Event::MessageCreate(ev) => (r@, final(self)@.buckets) == spec_plan(
                    old(self)@,
                    ev@,
                    cfg@,
                    match guild {
                        Some(g) => Some(*g),
                        None => None,
                    },
                    match member {
                        Some(m) => Some(m@),
                        None => None,
                    },
                    now,
                ),
                Event::ComponentInteraction(_) => r@ == DecisionView::Ignore && final(self)@.buckets
                    == old(self)@.buckets,
            },
    {
        match event {
            Event::MessageCreate(ev) => self.plan(ev, cfg, guild, member, now),
            Event::ComponentInteraction(_) => Decision::Ignore,
        }
    }
}

} // verus!
