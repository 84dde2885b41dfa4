use rowifi_core::arguments::{ArgValue, FieldSpec, FieldType};
use rowifi_core::command::{Command, RoLevel};
use rowifi_core::dispatcher::{Decision, Event, Framework, HelpCommand, InteractionEvent, MessageEvent};
use rowifi_core::permission::{BotConfig, GuildAuthContext, MemberInfo};

fn config() -> BotConfig {
    BotConfig {
        default_prefix: b"!".to_vec(),
        prefixes: Vec::new(),
        owners: Vec::new(),
        blocked_users: Vec::new(),
        blocked_guilds: Vec::new(),
        bot_id: 99,
    }
}

fn ping_command() -> Command {
    Command {
        names: vec![b"ping".to_vec()],
        level: RoLevel::Normal,
        bucket: None,
        handler: Some(42),
        args: Vec::new(),
        sub_commands: Vec::new(),
    }
}

fn guild() -> GuildAuthContext {
    GuildAuthContext { owner_id: 10, admin_role: None }
}

fn member() -> MemberInfo {
    MemberInfo { roles: Vec::new(), effective_perms: Some(0) }
}

fn message(content: &[u8]) -> MessageEvent {
    MessageEvent {
        author_id: 7,
        author_is_bot: false,
        from_webhook: false,
        guild_id: Some(1),
        channel_id: 5,
        content: content.to_vec(),
    }
}

#[test]
fn bang_ping_dispatches_ping() {
    let mut f = Framework::new().command(ping_command());
    let ev = message(b"!ping");
    let d = f.plan(&ev, &config(), Some(&guild()), Some(&member()), 0);
    match d {
        Decision::Invoke { handler, args, bucket } => {
            assert_eq!(handler, 42);
            assert!(args.is_empty());
            assert!(bucket.is_none());
        },
        _ => panic!("expected an invocation"),
    }
}

#[test]
fn bang_space_ping_dispatches_ping_too() {
    let mut f = Framework::new().command(ping_command());
    let ev = message(b"! ping");
    let d = f.plan(&ev, &config(), Some(&guild()), Some(&member()), 0);
    assert!(matches!(d, Decision::Invoke { handler: 42, .. }));
}

#[test]
fn leading_whitespace_before_prefix_is_skipped() {
    let mut f = Framework::new().command(ping_command());
    let ev = message(b"   !ping");
    let d = f.plan(&ev, &config(), Some(&guild()), Some(&member()), 0);
    assert!(matches!(d, Decision::Invoke { handler: 42, .. }));
}

#[test]
fn mention_works_as_prefix() {
    let mut f = Framework::new().command(ping_command());
    let d = f.plan(&message(b"<@99> ping"), &config(), Some(&guild()), Some(&member()), 0);
    assert!(matches!(d, Decision::Invoke { handler: 42, .. }));
    let d2 = f.plan(&message(b"<@!99>ping"), &config(), Some(&guild()), Some(&member()), 0);
    assert!(matches!(d2, Decision::Invoke { handler: 42, .. }));
}

#[test]
fn prefix_only_announces_the_active_prefix() {
    let mut f = Framework::new().command(ping_command());
    let d = f.plan(&message(b"!"), &config(), Some(&guild()), Some(&member()), 0);
    match d {
        Decision::Reply(m) => {
            assert_eq!(m, b"The prefix of this server is !".to_vec());
        },
        _ => panic!("expected a reply"),
    }
}

#[test]
fn prefix_followed_by_only_whitespace_announces_too() {
    let mut f = Framework::new().command(ping_command());
    let d = f.plan(&message(b"!   "), &config(), Some(&guild()), Some(&member()), 0);
    assert!(matches!(d, Decision::Reply(_)));
}

#[test]
fn guild_prefix_override_wins() {
    let mut f = Framework::new().command(ping_command());
    let mut cfg = config();
    cfg.prefixes.push((1, b"?".to_vec()));
    let d = f.plan(&message(b"?ping"), &cfg, Some(&guild()), Some(&member()), 0);
    assert!(matches!(d, Decision::Invoke { handler: 42, .. }));
    let d2 = f.plan(&message(b"!ping"), &cfg, Some(&guild()), Some(&member()), 0);
    assert!(matches!(d2, Decision::Ignore));
}

#[test]
fn no_prefix_is_silent() {
    let mut f = Framework::new().command(ping_command());
    let d = f.plan(&message(b"ping"), &config(), Some(&guild()), Some(&member()), 0);
    assert!(matches!(d, Decision::Ignore));
}

#[test]
fn unknown_command_is_silent() {
    let mut f = Framework::new().command(ping_command());
    let d = f.plan(&message(b"!pong"), &config(), Some(&guild()), Some(&member()), 0);
    assert!(matches!(d, Decision::Ignore));
}

#[test]
fn bots_webhooks_dms_and_empty_content_are_discarded() {
    let mut f = Framework::new().command(ping_command());
    let cfg = config();
    let mut bot = message(b"!ping");
    bot.author_is_bot = true;
    assert!(matches!(f.plan(&bot, &cfg, Some(&guild()), Some(&member()), 0), Decision::Ignore));
    let mut hook = message(b"!ping");
    hook.from_webhook = true;
    assert!(matches!(f.plan(&hook, &cfg, Some(&guild()), Some(&member()), 0), Decision::Ignore));
    let mut dm = message(b"!ping");
    dm.guild_id = None;
    assert!(matches!(f.plan(&dm, &cfg, Some(&guild()), Some(&member()), 0), Decision::Ignore));
    let empty = message(b"");
    assert!(matches!(f.plan(&empty, &cfg, Some(&guild()), Some(&member()), 0), Decision::Ignore));
}

#[test]
fn blocked_user_is_denied_silently() {
    let mut f = Framework::new().command(ping_command());
    let mut cfg = config();
    cfg.blocked_users.push(7);
    let d = f.plan(&message(b"!ping"), &cfg, Some(&guild()), Some(&member()), 0);
    assert!(matches!(d, Decision::Ignore));
}

#[test]
fn admin_command_denied_for_plain_member_allowed_for_owner() {
    let admin_cmd = Command {
        names: vec![b"setup".to_vec()],
        level: RoLevel::Admin,
        bucket: None,
        handler: Some(9),
        args: Vec::new(),
        sub_commands: Vec::new(),
    };
    let mut f = Framework::new().command(admin_cmd);
    let cfg = config();
    let d = f.plan(&message(b"!setup"), &cfg, Some(&guild()), Some(&member()), 0);
    assert!(matches!(d, Decision::Ignore));
    let mut owner_ev = message(b"!setup");
    owner_ev.author_id = 10;
    let d2 = f.plan(&owner_ev, &cfg, Some(&guild()), Some(&member()), 0);
    assert!(matches!(d2, Decision::Invoke { handler: 9, .. }));
}

#[test]
fn admin_command_allowed_via_admin_role() {
    let admin_cmd = Command {
        names: vec![b"setup".to_vec()],
        level: RoLevel::Admin,
        bucket: None,
        handler: Some(9),
        args: Vec::new(),
        sub_commands: Vec::new(),
    };
    let mut f = Framework::new().command(admin_cmd);
    let g = GuildAuthContext { owner_id: 10, admin_role: Some(77) };
    let m = MemberInfo { roles: vec![77], effective_perms: Some(0) };
    let d = f.plan(&message(b"!setup"), &config(), Some(&g), Some(&m), 0);
    assert!(matches!(d, Decision::Invoke { handler: 9, .. }));
}

#[test]
fn cooldown_replies_after_a_committed_call() {
    let cmd = Command {
        names: vec![b"update".to_vec()],
        level: RoLevel::Normal,
        bucket: Some(b"update".to_vec()),
        handler: Some(3),
        args: Vec::new(),
        sub_commands: Vec::new(),
    };
    let mut f = Framework::new().command(cmd).bucket(b"update".to_vec(), 1000, 1);
    let cfg = config();
    let d = f.plan(&message(b"!update"), &cfg, Some(&guild()), Some(&member()), 0);
    let bucket = match d {
        Decision::Invoke { handler: 3, bucket, .. } => bucket,
        _ => panic!("expected an invocation"),
    };
    let reply = f.settle(&bucket, 1, Ok(()), b"!update", 5);
    assert!(reply.is_none());
    let d2 = f.plan(&message(b"!update"), &cfg, Some(&guild()), Some(&member()), 10);
    match d2 {
        Decision::Reply(m) => {
            assert_eq!(m, b"Ratelimit reached. You may use this command in 990ms".to_vec());
        },
        _ => panic!("expected a cooldown reply"),
    }
    let d3 = f.plan(&message(b"!update"), &cfg, Some(&guild()), Some(&member()), 1000);
    assert!(matches!(d3, Decision::Invoke { handler: 3, .. }));
}

#[test]
fn failed_handler_keeps_the_allowance() {
    let cmd = Command {
        names: vec![b"update".to_vec()],
        level: RoLevel::Normal,
        bucket: Some(b"update".to_vec()),
        handler: Some(3),
        args: Vec::new(),
        sub_commands: Vec::new(),
    };
    let mut f = Framework::new().command(cmd).bucket(b"update".to_vec(), 1000, 1);
    let cfg = config();
    let d = f.plan(&message(b"!update"), &cfg, Some(&guild()), Some(&member()), 0);
    let bucket = match d {
        Decision::Invoke { bucket, .. } => bucket,
        _ => panic!("expected an invocation"),
    };
    let reply = f.settle(
        &bucket,
        1,
        Err(rowifi_core::error::RoError::Database(b"socket closed".to_vec())),
        b"!update",
        5,
    );
    assert!(reply.is_some());
    let d2 = f.plan(&message(b"!update"), &cfg, Some(&guild()), Some(&member()), 10);
    assert!(matches!(d2, Decision::Invoke { handler: 3, .. }));
}

#[test]
fn binding_error_is_rendered_with_an_underline() {
    let cmd = Command {
        names: vec![b"add".to_vec()],
        level: RoLevel::Normal,
        bucket: None,
        handler: Some(4),
        args: vec![
            FieldSpec { name: b"count".to_vec(), ty: FieldType::Int, required: true, rest: false },
        ],
        sub_commands: Vec::new(),
    };
    let mut f = Framework::new().command(cmd);
    let d = f.plan(&message(b"!add xyz"), &config(), Some(&guild()), Some(&member()), 0);
    match d {
        Decision::Reply(m) => {
            let expected =
                b"```!add xyz\n     ^^^\n\nExpected count to be a number```".to_vec();
            assert_eq!(m, expected);
        },
        _ => panic!("expected a reply"),
    }
}

#[test]
fn bound_arguments_reach_the_invocation() {
    let cmd = Command {
        names: vec![b"add".to_vec()],
        level: RoLevel::Normal,
        bucket: None,
        handler: Some(4),
        args: vec![
            FieldSpec { name: b"count".to_vec(), ty: FieldType::Int, required: true, rest: false },
            FieldSpec { name: b"label".to_vec(), ty: FieldType::Str, required: true, rest: true },
        ],
        sub_commands: Vec::new(),
    };
    let mut f = Framework::new().command(cmd);
    let d = f.plan(&message(b"!add 5 red shirt"), &config(), Some(&guild()), Some(&member()), 0);
    match d {
        Decision::Invoke { handler: 4, args, .. } => {
            assert_eq!(args.len(), 2);
            assert!(matches!(args[0], ArgValue::Int(5)));
            match &args[1] {
                ArgValue::Str(s) => assert_eq!(s, &b"red shirt".to_vec()),
                _ => panic!("expected the rest text"),
            }
        },
        _ => panic!("expected an invocation"),
    }
}

#[test]
fn help_token_routes_to_the_help_handler() {
    let mut f = Framework::new().command(ping_command()).help(HelpCommand {
        name: b"help".to_vec(),
        handler: 100,
    });
    let d = f.plan(&message(b"!help ping"), &config(), Some(&guild()), Some(&member()), 0);
    match d {
        Decision::Help { handler, args } => {
            assert_eq!(handler, 100);
            assert_eq!(args, vec![b"ping".to_vec()]);
        },
        _ => panic!("expected help"),
    }
}

#[test]
fn sub_commands_resolve_greedily() {
    let sub = Command {
        names: vec![b"new".to_vec()],
        level: RoLevel::Normal,
        bucket: None,
        handler: Some(21),
        args: Vec::new(),
        sub_commands: Vec::new(),
    };
    let top = Command {
        names: vec![b"binds".to_vec()],
        level: RoLevel::Normal,
        bucket: None,
        handler: Some(20),
        args: Vec::new(),
        sub_commands: vec![sub],
    };
    let mut f = Framework::new().command(top);
    let cfg = config();
    let d = f.plan(&message(b"!binds new"), &cfg, Some(&guild()), Some(&member()), 0);
    assert!(matches!(d, Decision::Invoke { handler: 21, .. }));
    let d2 = f.plan(&message(b"!binds"), &cfg, Some(&guild()), Some(&member()), 0);
    assert!(matches!(d2, Decision::Invoke { handler: 20, .. }));
    let d3 = f.plan(&message(b"!binds other"), &cfg, Some(&guild()), Some(&member()), 0);
    assert!(matches!(d3, Decision::Invoke { handler: 20, .. }));
}

#[test]
fn component_interactions_are_never_commands() {
    let mut f = Framework::new().command(ping_command());
    let ev = Event::ComponentInteraction(InteractionEvent {
        author_id: 7,
        message_id: 500,
        component_id: b"undo".to_vec(),
    });
    let d = f.handle_event(&ev, &config(), Some(&guild()), Some(&member()), 0);
    assert!(matches!(d, Decision::Ignore));
}

#[test]
fn message_events_dispatch_through_handle_event() {
    let mut f = Framework::new().command(ping_command());
    let ev = Event::MessageCreate(message(b"!ping"));
    let d = f.handle_event(&ev, &config(), Some(&guild()), Some(&member()), 0);
    assert!(matches!(d, Decision::Invoke { handler: 42, .. }));
}

#[test]
fn trainer_level_imposes_no_restriction_beyond_normal() {
    // Trainer-level commands are currently authorized exactly like Normal
    // ones: the per-guild trainer-roles configuration is not consulted by the
    // resolver. This mirrors the deployed behaviour; tightening it is a
    // pending design decision, so this test documents the gap.
    let trainer_cmd = Command {
        names: vec![b"train".to_vec()],
        level: RoLevel::Trainer,
        bucket: None,
        handler: Some(8),
        args: Vec::new(),
        sub_commands: Vec::new(),
    };
    let mut f = Framework::new().command(trainer_cmd);
    let d = f.plan(&message(b"!train"), &config(), Some(&guild()), Some(&member()), 0);
    assert!(matches!(d, Decision::Invoke { handler: 8, .. }));
}

#[test]
fn asset_bind_creation_binds_the_declared_shape() {
    let mut cmds: Vec<Command> = Vec::new();
    rowifi_core::registry::assetbinds_config(&mut cmds);
    let mut f = Framework::new();
    for c in cmds {
        f = f.command(c);
    }
    // The invoker holds the "manage guild" capability, as Admin level asks.
    let m = MemberInfo { roles: Vec::new(), effective_perms: Some(0x20) };
    let ev = message(b"!ab new shirt 55 N/A 1 @team");
    let d = f.plan(&ev, &config(), Some(&guild()), Some(&m), 0);
    match d {
        Decision::Invoke { handler, args, bucket } => {
            assert_eq!(handler, rowifi_core::registry::HANDLER_ASSETBINDS_NEW);
            assert!(bucket.is_none());
            assert_eq!(args.len(), 5);
            assert!(matches!(&args[0], ArgValue::Str(s) if s == &b"shirt".to_vec()));
            assert!(matches!(args[1], ArgValue::Int(55)));
            assert!(matches!(&args[2], ArgValue::Str(s) if s == &b"N/A".to_vec()));
            assert!(matches!(args[3], ArgValue::Int(1)));
            assert!(matches!(&args[4], ArgValue::Str(s) if s == &b"@team".to_vec()));
        },
        _ => panic!("expected an invocation"),
    }
}

#[test]
fn re_registering_a_bucket_replaces_it() {
    let cmd = Command {
        names: vec![b"update".to_vec()],
        level: RoLevel::Normal,
        bucket: Some(b"update".to_vec()),
        handler: Some(3),
        args: Vec::new(),
        sub_commands: Vec::new(),
    };
    // The second registration of the name wins: one entry, window 500 and
    // capacity 2, not the earlier window 1000 and capacity 1.
    let mut f = Framework::new()
        .command(cmd)
        .bucket(b"update".to_vec(), 1000, 1)
        .bucket(b"update".to_vec(), 500, 2);
    assert_eq!(f.buckets.len(), 1);
    let cfg = config();
    let d = f.plan(&message(b"!update"), &cfg, Some(&guild()), Some(&member()), 0);
    let bucket = match d {
        Decision::Invoke { handler: 3, bucket, .. } => bucket,
        _ => panic!("expected an invocation"),
    };
    assert!(f.settle(&bucket, 1, Ok(()), b"!update", 0).is_none());
    // Under the replaced capacity of one this would already be limited.
    let d2 = f.plan(&message(b"!update"), &cfg, Some(&guild()), Some(&member()), 10);
    assert!(matches!(d2, Decision::Invoke { handler: 3, .. }));
    assert!(f.settle(&bucket, 1, Ok(()), b"!update", 10).is_none());
    let d3 = f.plan(&message(b"!update"), &cfg, Some(&guild()), Some(&member()), 20);
    match d3 {
        Decision::Reply(m) => {
            // The wait runs against the replacing bucket's window of 500.
            assert_eq!(m, b"Ratelimit reached. You may use this command in 480ms".to_vec());
        },
        _ => panic!("expected a cooldown reply"),
    }
}
