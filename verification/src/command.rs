//! Command descriptors and the greedy, case-insensitive resolver.
//!
//! A command carries its name and aliases, a permission level, an optional
//! rate-limit bucket, a declared argument shape, an optional handler key, and
//! its sub-commands. Resolution walks the tree: the next token is matched
//! against the current level's names; on a match with sub-commands and more
//! tokens left it descends one level, and otherwise the deepest matched
//! command is returned together with the index of the first leftover token.

use vstd::prelude::*;
use crate::arguments::{FieldSpec, FieldSpecView, specs_view};
use crate::text::{lower_seq, eq_ignore_case, subvec};
use crate::tokenizer::Token;

verus! {

/// The minimum authorization tier required to run a command.
#[derive(Clone, Copy, PartialEq, Eq, Structural, Debug)]
pub enum RoLevel {
    Normal,
    Trainer,
    Admin,
    Creator,
}

/// An immutable command descriptor. The first entry of `names` is the
/// canonical name; the rest are aliases. Handlers live outside the core and
/// are referred to by key; a command with sub-commands and no handler of its
/// own is a pure namespace, which the dispatcher drops silently when it is
/// invoked with no further matching token — give such a group a fall-through
/// handler where a reply is wanted.
pub struct Command {
    pub names: Vec<Vec<u8>>,
    pub level: RoLevel,
    pub bucket: Option<Vec<u8>>,
    pub handler: Option<u64>,
    pub args: Vec<FieldSpec>,
    pub sub_commands: Vec<Command>,
}

/// Ghost image of a command descriptor.
pub struct CommandView {
    pub names: Seq<Seq<u8>>,
    pub level: RoLevel,
    pub bucket: Option<Seq<u8>>,
    pub handler: Option<u64>,
    pub args: Seq<FieldSpecView>,
    pub subs: Seq<CommandView>,
}

/// Ghost image of one command descriptor.
pub open spec fn cmd_view(c: Command) -> CommandView
    decreases c via cmd_view_dec
{
    CommandView {
        names: c.names@.map_values(|n: Vec<u8>| n@),
        level: c.level,
        bucket: match c.bucket {
            Some(b) => Some(b@),
            None => None,
        },
        handler: c.handler,
        args: specs_view(c.args@),
        subs: cmds_view(c.sub_commands@),
    }
}

/// Ghost image of a command level's descriptors, in order.
pub open spec fn cmds_view(cmds: Seq<Command>) -> Seq<CommandView>
    decreases cmds via cmds_view_dec
{
    if cmds.len() == 0 {
        Seq::empty()
    } else {
        cmds_view(cmds.drop_last()).push(cmd_view(cmds.last()))
    }
}

#[via_fn]
proof fn cmd_view_dec(c: Command) {
    assert(decreases_to!(c => c.sub_commands));
    vstd::std_specs::vec::axiom_vec_decreases_to_view(c.sub_commands);
    assert(decreases_to!(c => c.sub_commands@));
}

#[via_fn]
proof fn cmds_view_dec(cmds: Seq<Command>) {
    if cmds.len() > 0 {
        vstd::seq::axiom_seq_index_decreases(cmds, cmds.len() - 1);
        assert(decreases_to!(cmds => cmds.last()));
        vstd::seq::axiom_seq_subrange_decreases(cmds, 0, cmds.len() - 1);
        assert(cmds.drop_last() =~= cmds.subrange(0, cmds.len() - 1));
        assert(decreases_to!(cmds => cmds.drop_last()));
    }
}

impl View for Command {
    type V = CommandView;

    open spec fn view(&self) -> CommandView {
        cmd_view(*self)
    }
}

/// A level's view is elementwise.
pub broadcast proof fn lemma_cmds_view_len(cmds: Seq<Command>)
    ensures
        (#[trigger] cmds_view(cmds)).len() == cmds.len(),
    decreases cmds,
{
    if cmds.len() > 0 {
        lemma_cmds_view_len(cmds.drop_last());
    }
}

/// A level's view is elementwise.
pub broadcast proof fn lemma_cmds_view_index(cmds: Seq<Command>, i: int)
    requires
        0 <= i < cmds.len(),
    ensures
        #[trigger] cmds_view(cmds)[i] == cmds[i]@,
    decreases cmds,
{
    lemma_cmds_view_len(cmds);
    if cmds.len() > 0 {
        lemma_cmds_view_len(cmds.drop_last());
        if i < cmds.len() - 1 {
            lemma_cmds_view_index(cmds.drop_last(), i);
            assert(cmds.drop_last()[i] == cmds[i]);
        } else {
            assert(cmds.last() == cmds[i]);
        }
    }
}

/// Registering one more command extends the view by its image.
pub proof fn lemma_cmds_view_push(s: Seq<Command>, c: Command)
    ensures
        cmds_view(s.push(c)) == cmds_view(s).push(cmd_view(c)),
{
    assert(s.push(c).drop_last() =~= s);
    assert(s.push(c).last() == c);
}

/// The token names this command, canonically or by alias, ignoring ASCII
/// case.
pub open spec fn name_matches(c: CommandView, tok: Seq<u8>) -> bool {
    exists|i: int| 0 <= i < c.names.len() && lower_seq(#[trigger] c.names[i]) == lower_seq(tok)
}

/// Index of the first command of the level that the token names.
pub open spec fn find_match(cmds: Seq<CommandView>, tok: Seq<u8>) -> Option<int>
    decreases cmds.len(),
{
    if cmds.len() == 0 {
        None
    } else if name_matches(cmds[0], tok) {
        Some(0int)
    } else {
        match find_match(cmds.drop_first(), tok) {
            Some(i) => Some(i + 1),
            None => None,
        }
    }
}

/// What `find_match` returns is a real, matching index.
pub proof fn lemma_find_match_sound(cmds: Seq<CommandView>, tok: Seq<u8>)
    ensures
        match find_match(cmds, tok) {
            Some(i) => 0 <= i < cmds.len() && name_matches(cmds[i], tok),
            None => forall|k: int| 0 <= k < cmds.len() ==> !name_matches(#[trigger] cmds[k], tok),
        },
    decreases cmds.len(),
{
    if cmds.len() > 0 && !name_matches(cmds[0], tok) {
        lemma_find_match_sound(cmds.drop_first(), tok);
        match find_match(cmds.drop_first(), tok) {
            Some(i) => {
                assert(cmds.drop_first()[i] == cmds[i + 1]);
            },
            None => {
                assert forall|k: int| 0 <= k < cmds.len() implies !name_matches(
                    #[trigger] cmds[k],
                    tok,
                ) by {
                    if k > 0 {
                        assert(cmds.drop_first()[k - 1] == cmds[k]);
                        assert(!name_matches(cmds.drop_first()[k - 1], tok));
                    }
                }
            },
        }
    }
}

/// `find_match` returns the first matching index.
pub proof fn lemma_find_match_first(cmds: Seq<CommandView>, tok: Seq<u8>, i: int)
    requires
        0 <= i <= cmds.len(),
        forall|k: int| 0 <= k < i ==> !name_matches(#[trigger] cmds[k], tok),
        i < cmds.len() ==> name_matches(cmds[i], tok),
    ensures
        find_match(cmds, tok) == if i < cmds.len() {
            Some(i)
        } else {
            None::<int>
        },
    decreases cmds.len(),
{
    if cmds.len() > 0 {
        if i == 0 {
        } else {
            assert(!name_matches(cmds[0], tok));
            assert forall|k: int| 0 <= k < i - 1 implies !name_matches(
                #[trigger] cmds.drop_first()[k],
                tok,
            ) by {
                assert(cmds.drop_first()[k] == cmds[k + 1]);
            }
            if i - 1 < cmds.drop_first().len() {
                assert(cmds.drop_first()[i - 1] == cmds[i]);
            }
            lemma_find_match_first(cmds.drop_first(), tok, i - 1);
        }
    }
}

/// The resolver at the specification level: match `toks[t]` at this level;
/// descend while the matched command has sub-commands and tokens remain;
/// return the deepest match and the index of the first leftover token.
pub open spec fn spec_resolve(cmds: Seq<CommandView>, toks: Seq<Seq<u8>>, t: int) -> Option<
    (CommandView, int),
>
    decreases toks.len() - t when 0 <= t <= toks.len()
{
    if t >= toks.len() {
        None
    } else {
        match find_match(cmds, toks[t]) {
            None => None,
            Some(i) => {
                let c = cmds[i];
                if c.subs.len() > 0 && t + 1 < toks.len() {
                    match spec_resolve(c.subs, toks, t + 1) {
                        Some(r) => Some(r),
                        None => Some((c, t + 1)),
                    }
                } else {
                    Some((c, t + 1))
                }
            },
        }
    }
}

/// Resolution reads only the tokens from `t` on: equal suffixes resolve
/// equally.
pub proof fn lemma_resolve_suffix(
    cmds: Seq<CommandView>,
    a: Seq<Seq<u8>>,
    b: Seq<Seq<u8>>,
    t: int,
)
    requires
        0 <= t <= a.len(),
        a.len() == b.len(),
        forall|k: int| t <= k < a.len() ==> a[k] == b[k],
    ensures
        spec_resolve(cmds, a, t) == spec_resolve(cmds, b, t),
    decreases a.len() - t,
{
    if t < a.len() {
        if let Some(i) = find_match(cmds, a[t]) {
            lemma_find_match_sound(cmds, a[t]);
            let c = cmds[i];
            if c.subs.len() > 0 && t + 1 < a.len() {
                lemma_resolve_suffix(c.subs, a, b, t + 1);
            }
        }
    }
}

/// Resolving a token stream against a registry is a function of its inputs:
/// two resolutions of the same stream against the same registry yield the
/// same command and the same leftover-token position.
pub proof fn lemma_resolve_deterministic(
    cmds: Seq<CommandView>,
    toks: Seq<Seq<u8>>,
    t: int,
    r1: Option<(CommandView, int)>,
    r2: Option<(CommandView, int)>,
)
    requires
        r1 == spec_resolve(cmds, toks, t),
        r2 == spec_resolve(cmds, toks, t),
    ensures
        r1 == r2,
{
}

/// No token names two different commands of one level. Registries are built
/// this way; it is what makes alias choice irrelevant.
pub open spec fn names_disjoint(cmds: Seq<CommandView>) -> bool {
    forall|i: int, j: int, tok: Seq<u8>|
        0 <= i < j < cmds.len() ==> !(#[trigger] name_matches(cmds[i], tok)
            && #[trigger] name_matches(cmds[j], tok))
}

/// On a level without shared names, a matching command is the match.
pub proof fn lemma_find_match_unique(cmds: Seq<CommandView>, tok: Seq<u8>, i: int)
    requires
        names_disjoint(cmds),
        0 <= i < cmds.len(),
        name_matches(cmds[i], tok),
    ensures
        find_match(cmds, tok) == Some(i),
{
    lemma_find_match_sound(cmds, tok);
    match find_match(cmds, tok) {
        Some(k) => {
            if k < i {
                assert(!name_matches(cmds[i], tok));
            } else if i < k {
                assert(!name_matches(cmds[k], tok));
            }
        },
        None => {
            assert(!name_matches(cmds[i], tok));
        },
    }
}

/// Matching a command by any alias yields the identical command as matching
/// its canonical name, with the same leftover tokens: resolution of
/// `[t1] + rest` and `[t2] + rest` agrees whenever `t1` and `t2` both name
/// the same command of a level without shared names.
pub proof fn lemma_alias_same_command(
    cmds: Seq<CommandView>,
    i: int,
    t1: Seq<u8>,
    t2: Seq<u8>,
    rest: Seq<Seq<u8>>,
)
    requires
        names_disjoint(cmds),
        0 <= i < cmds.len(),
        name_matches(cmds[i], t1),
        name_matches(cmds[i], t2),
    ensures
        spec_resolve(cmds, seq![t1] + rest, 0) == spec_resolve(cmds, seq![t2] + rest, 0),
{
    let a = seq![t1] + rest;
    let b = seq![t2] + rest;
    assert(a[0] == t1);
    assert(b[0] == t2);
    lemma_find_match_unique(cmds, t1, i);
    lemma_find_match_unique(cmds, t2, i);
    let c = cmds[i];
    if c.subs.len() > 0 && 1 < a.len() {
        lemma_resolve_suffix(c.subs, a, b, 1);
    }
}

/// Matches one token against a command's names, ignoring ASCII case.
pub fn name_matches_exec(c: &Command, tok: &[u8]) -> (r: bool)
    ensures
        r == name_matches(c@, tok@),
{
    let n = c.names.len();
    let mut k: usize = 0;
    while k < n
        invariant
            n == c.names@.len(),
            k <= n,
            c@.names.len() == n,
            forall|m: int| 0 <= m < k ==> lower_seq(#[trigger] c@.names[m]) != lower_seq(tok@),
        decreases n - k,
    {
        if eq_ignore_case(c.names[k].as_slice(), tok) {
            assert(c@.names[k as int] == c.names@[k as int]@);
            return true;
        }
        assert(c@.names[k as int] == c.names@[k as int]@);
        k += 1;
    }
    false
}

/// Finds the first command of the level that the token names.
pub fn find_match_exec<'a>(cmds: &'a Vec<Command>, tok: &[u8]) -> (r: Option<(&'a Command, usize)>)
    ensures
        match r {
            Some((c, i)) => find_match(cmds_view(cmds@), tok@) == Some(i as int) && c@
                == cmds_view(cmds@)[i as int],
            None => find_match(cmds_view(cmds@), tok@) == None::<int>,
        },
{
    let n = cmds.len();
    proof {
        lemma_cmds_view_len(cmds@);
    }
    let mut k: usize = 0;
    while k < n
        invariant
            n == cmds@.len(),
            k <= n,
            cmds_view(cmds@).len() == n,
            forall|m: int| 0 <= m < k ==> !name_matches(#[trigger] cmds_view(cmds@)[m], tok@),
        decreases n - k,
    {
        proof {
            lemma_cmds_view_index(cmds@, k as int);
        }
        if name_matches_exec(&cmds[k], tok) {
            proof {
                lemma_find_match_first(cmds_view(cmds@), tok@, k as int);
            }
            return Some((&cmds[k], k));
        }
        k += 1;
    }
    proof {
        lemma_find_match_first(cmds_view(cmds@), tok@, n as int);
    }
    None
}

/// Resolves tokens `tokens[t..]` of `content` against the level `cmds`,
/// greedily descending into sub-commands.
pub fn resolve_from<'a>(
    cmds: &'a Vec<Command>,
    content: &[u8],
    tokens: &Vec<Token>,
    t: usize,
) -> (r: Option<(&'a Command, usize)>)
    requires
        t <= tokens@.len(),
        forall|k: int| 0 <= k < tokens@.len() ==> (#[trigger] tokens@[k]).start <= tokens@[k].end
            <= content@.len(),
    ensures
        match r {
            Some((c, nt)) => spec_resolve(cmds_view(cmds@), token_texts(content@, tokens@), t as int)
                == Some((c@, nt as int)) && nt <= tokens@.len(),
            None => spec_resolve(cmds_view(cmds@), token_texts(content@, tokens@), t as int)
                == None::<(CommandView, int)>,
        },
    decreases tokens@.len() - t,
{
    let ghost toks = token_texts(content@, tokens@);
    if t == tokens.len() {
        return None;
    }
    let tk = tokens[t];
    let tok = subvec(content, tk.start, tk.end);
    proof {
        assert(toks[t as int] == tok@);
    }
    match find_match_exec(cmds, tok.as_slice()) {
        None => None,
        Some((c, _i)) => {
            if c.sub_commands.len() > 0 && t + 1 < tokens.len() {
                proof {
                    lemma_cmds_view_len(c.sub_commands@);
                    assert(c@.subs.len() > 0);
                }
                match resolve_from(&c.sub_commands, content, tokens, t + 1) {
                    Some(r) => Some(r),
                    None => Some((c, t + 1)),
                }
            } else {
                proof {
                    lemma_cmds_view_len(c.sub_commands@);
                    assert(c@.subs.len() == c.sub_commands@.len());
                }
                Some((c, t + 1))
            }
        },
    }
}

/// The bytes each token of the message selects.
pub open spec fn token_texts(content: Seq<u8>, tokens: Seq<Token>) -> Seq<Seq<u8>> {
    Seq::new(tokens.len(), |k: int| content.subrange(tokens[k].start as int, tokens[k].end as int))
}

/// The ordered, derived index over a registry of top-level commands.
///
/// Uniqueness of names within each level is a registry-build invariant, not
/// runtime-checked; see [`names_disjoint`].
pub struct CommandMap {
    pub commands: Vec<Command>,
}

impl CommandMap {
    /// An empty registry.
    pub fn new() -> (r: CommandMap)
        ensures
            r.commands@.len() == 0,
    {
        CommandMap { commands: Vec::new() }
    }

    /// Adds one top-level command.
    pub fn add(&mut self, c: Command)
        ensures
            final(self).commands@ == old(self).commands@.push(c),
    {
        self.commands.push(c);
    }

    /// Resolves tokens `tokens[t..]` of `content` against the registry.
    pub fn resolve<'a>(&'a self, content: &[u8], tokens: &Vec<Token>, t: usize) -> (r: Option<
        (&'a Command, usize),
    >)
        requires
            t <= tokens@.len(),
            forall|k: int| 0 <= k < tokens@.len() ==> (#[trigger] tokens@[k]).start
                <= tokens@[k].end <= content@.len(),
        ensures
            match r {
                Some((c, nt)) => spec_resolve(
                    cmds_view(self.commands@),
                    token_texts(content@, tokens@),
                    t as int,
                ) == Some((c@, nt as int)) && nt <= tokens@.len(),
                None => spec_resolve(
                    cmds_view(self.commands@),
                    token_texts(content@, tokens@),
                    t as int,
                ) == None::<(CommandView, int)>,
            },
    {
        resolve_from(&self.commands, content, tokens, t)
    }
}

} // verus!
