//! Permission resolution.
//!
//! Whether the invoking member may run a command at its declared level,
//! combining the global denylists, guild ownership, the global bot-owner
//! allow-list, the member's computed effective guild permissions, and the
//! guild's configured admin role.

use vstd::prelude::*;
use crate::command::RoLevel;

verus! {

/// The "manage guild" capability bit of an effective permission set.
pub const MANAGE_GUILD: u64 = 0x20;

/// Process-wide configuration the dispatch core consumes.
pub struct BotConfig {
    /// Prefix used where a guild has no override.
    pub default_prefix: Vec<u8>,
    /// Per-guild prefix overrides.
    pub prefixes: Vec<(u64, Vec<u8>)>,
    /// Global bot-owner allow-list.
    pub owners: Vec<u64>,
    /// Globally blocked users.
    pub blocked_users: Vec<u64>,
    /// Globally blocked guilds.
    pub blocked_guilds: Vec<u64>,
    /// The bot's own user id, for mention-as-prefix detection.
    pub bot_id: u64,
}

/// Ghost image of the configuration.
pub struct BotConfigView {
    pub default_prefix: Seq<u8>,
    pub prefixes: Seq<(u64, Seq<u8>)>,
    pub owners: Seq<u64>,
    pub blocked_users: Seq<u64>,
    pub blocked_guilds: Seq<u64>,
    pub bot_id: u64,
}

impl View for BotConfig {
    type V = BotConfigView;

    open spec fn view(&self) -> BotConfigView {
        BotConfigView {
            default_prefix: self.default_prefix@,
            prefixes: self.prefixes@.map_values(|p: (u64, Vec<u8>)| (p.0, p.1@)),
            owners: self.owners@,
            blocked_users: self.blocked_users@,
            blocked_guilds: self.blocked_guilds@,
            bot_id: self.bot_id,
        }
    }
}

/// The prefix override recorded for a guild, if any: the first entry with the
/// guild's id.
pub open spec fn lookup_prefix(entries: Seq<(u64, Seq<u8>)>, guild_id: u64) -> Option<Seq<u8>>
    decreases entries.len(),
{
    if entries.len() == 0 {
        None
    } else if entries[0].0 == guild_id {
        Some(entries[0].1)
    } else {
        lookup_prefix(entries.drop_first(), guild_id)
    }
}

/// The prefix that is active in a guild: its override, or the default.
pub open spec fn active_prefix(cfg: BotConfigView, guild_id: u64) -> Seq<u8> {
    match lookup_prefix(cfg.prefixes, guild_id) {
        Some(p) => p,
        None => cfg.default_prefix,
    }
}

/// Looks up the guild's prefix override.
pub fn lookup_prefix_exec<'a>(cfg: &'a BotConfig, guild_id: u64) -> (r: Option<&'a Vec<u8>>)
    ensures
        match r {
            Some(p) => lookup_prefix(cfg@.prefixes, guild_id) == Some(p@),
            None => lookup_prefix(cfg@.prefixes, guild_id) == None::<Seq<u8>>,
        },
{
    let n = cfg.prefixes.len();
    proof {
        assert(cfg@.prefixes.skip(0) =~= cfg@.prefixes);
    }
    let mut k: usize = 0;
    while k < n
        invariant
            k <= n == cfg.prefixes@.len(),
            cfg@.prefixes.len() == n,
            lookup_prefix(cfg@.prefixes, guild_id) == lookup_prefix(
                cfg@.prefixes.skip(k as int),
                guild_id,
            ),
        decreases n - k,
    {
        proof {
            assert(cfg@.prefixes[k as int] == (cfg.prefixes@[k as int].0, cfg.prefixes@[k as int].1@));
            assert(cfg@.prefixes.skip(k as int)[0] == cfg@.prefixes[k as int]);
            assert(cfg@.prefixes.skip(k as int).drop_first() =~= cfg@.prefixes.skip(k + 1));
        }
        if cfg.prefixes[k].0 == guild_id {
            return Some(&cfg.prefixes[k].1);
        }
        k += 1;
    }
    proof {
        assert(cfg@.prefixes.skip(n as int).len() == 0);
    }
    None
}

/// Membership in a plain id list.
pub fn contains_u64(v: &Vec<u64>, x: u64) -> (r: bool)
    ensures
        r == v@.contains(x),
{
    let n = v.len();
    let mut k: usize = 0;
    while k < n
        invariant
            k <= n == v@.len(),
            forall|m: int| 0 <= m < k ==> v@[m] != x,
        decreases n - k,
    {
        if v[k] == x {
            return true;
        }
        k += 1;
    }
    false
}

/// The guild state permission resolution reads: its owner and its configured
/// admin role. Owned by the external cache; referenced, never mutated, here.
#[derive(Clone, Copy, PartialEq, Eq, Structural)]
pub struct GuildAuthContext {
    pub owner_id: u64,
    pub admin_role: Option<u64>,
}

/// The invoking member as the cache knows it: the roles held, and the
/// computed effective permission bitset — `None` when the computation failed,
/// which denies that check only.
pub struct MemberInfo {
    pub roles: Vec<u64>,
    pub effective_perms: Option<u64>,
}

/// Ghost image of the member.
pub struct MemberInfoView {
    pub roles: Seq<u64>,
    pub effective_perms: Option<u64>,
}

impl View for MemberInfo {
    type V = MemberInfoView;

    open spec fn view(&self) -> MemberInfoView {
        MemberInfoView { roles: self.roles@, effective_perms: self.effective_perms }
    }
}

/// Authorization at the specification level, in short-circuit order: global
/// denylists first; then guild ownership and the bot-owner allow-list; then
/// the command's level. `Normal` and `Trainer` impose no further restriction.
/// `Admin` needs the "manage guild" capability or the guild's admin role.
/// `Creator` is only for the allow-list, already tried.
pub open spec fn spec_authorize(
    cfg: BotConfigView,
    level: RoLevel,
    invoker: u64,
    guild_id: u64,
    guild: GuildAuthContext,
    member: Option<MemberInfoView>,
) -> bool {
    if cfg.blocked_users.contains(invoker) || cfg.blocked_guilds.contains(guild_id)
        || cfg.blocked_users.contains(guild.owner_id) {
        false
    } else if invoker == guild.owner_id || cfg.owners.contains(invoker) {
        true
    } else {
        match level {
            RoLevel::Normal => true,
            RoLevel::Trainer => true,
            RoLevel::Creator => false,
            RoLevel::Admin => match member {
                None => false,
                Some(m) => (match m.effective_perms {
                    Some(p) => p & MANAGE_GUILD != 0,
                    None => false,
                }) || (match guild.admin_role {
                    Some(r) => m.roles.contains(r),
                    None => false,
                }),
            },
        }
    }
}

/// Decides whether the invoker may run a command at `level` in this guild.
pub fn authorize(
    cfg: &BotConfig,
    level: RoLevel,
    invoker: u64,
    guild_id: u64,
    guild: &GuildAuthContext,
    member: Option<&MemberInfo>,
) -> (r: bool)
    ensures
        r == spec_authorize(
            cfg@,
            level,
            invoker,
            guild_id,
            *guild,
            match member {
                Some(m) => Some(m@),
                None => None,
            },
        ),
{
    if contains_u64(&cfg.blocked_users, invoker) || contains_u64(&cfg.blocked_guilds, guild_id)
        || contains_u64(&cfg.blocked_users, guild.owner_id) {
        return false;
    }
    if invoker == guild.owner_id || contains_u64(&cfg.owners, invoker) {
        return true;
    }
    match level {
        RoLevel::Normal => true,
        RoLevel::Trainer => true,
        RoLevel::Creator => false,
        RoLevel::Admin => {
            match member {
                None => false,
                Some(m) => {
                    let by_perms = match m.effective_perms {
                        Some(p) => p & MANAGE_GUILD != 0,
                        None => false,
                    };
                    let by_role = match guild.admin_role {
                        Some(r) => contains_u64(&m.roles, r),
                        None => false,
                    };
                    by_perms || by_role
                },
            }
        },
    }
}

/// A guild owner who is not denylisted is authorized at every permission
/// level, whatever roles or computed permissions they hold.
pub proof fn lemma_owner_always_authorized(
    cfg: BotConfigView,
    level: RoLevel,
    guild_id: u64,
    guild: GuildAuthContext,
    member: Option<MemberInfoView>,
)
    requires
        !cfg.blocked_users.contains(guild.owner_id),
        !cfg.blocked_guilds.contains(guild_id),
    ensures
        spec_authorize(cfg, level, guild.owner_id, guild_id, guild, member),
{
}

/// A non-owner, non-allow-listed member without the "manage guild"
/// capability and without the guild's admin role is denied `Admin`-level
/// commands and allowed `Normal`-level ones.
pub proof fn lemma_plain_member_admin_denied(
    cfg: BotConfigView,
    invoker: u64,
    guild_id: u64,
    guild: GuildAuthContext,
    m: MemberInfoView,
)
    requires
        !cfg.blocked_users.contains(invoker),
        !cfg.blocked_guilds.contains(guild_id),
        !cfg.blocked_users.contains(guild.owner_id),
        invoker != guild.owner_id,
        !cfg.owners.contains(invoker),
        match m.effective_perms {
            Some(p) => p & MANAGE_GUILD == 0,
            None => true,
        },
        match guild.admin_role {
            Some(r) => !m.roles.contains(r),
            None => true,
        },
    ensures
        !spec_authorize(cfg, RoLevel::Admin, invoker, guild_id, guild, Some(m)),
        spec_authorize(cfg, RoLevel::Normal, invoker, guild_id, guild, Some(m)),
{
}

} // verus!
