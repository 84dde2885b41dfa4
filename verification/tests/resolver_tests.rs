use rowifi_core::command::{Command, CommandMap, RoLevel};
use rowifi_core::registry::{
    assetbinds_config, ModifyOption, HANDLER_AB_MODIFY_PRIORITY, HANDLER_ASSETBINDS_DELETE,
    HANDLER_ASSETBINDS_NEW, HANDLER_ASSETBINDS_VIEW,
};
use rowifi_core::tokenizer::tokenize;

fn registry() -> CommandMap {
    let mut cmds: Vec<Command> = Vec::new();
    assetbinds_config(&mut cmds);
    let mut map = CommandMap::new();
    for c in cmds {
        map.add(c);
    }
    map
}

fn resolve_handler(map: &CommandMap, content: &[u8]) -> Option<(Option<u64>, usize)> {
    let tokens = tokenize(content, 0);
    map.resolve(content, &tokens, 0).map(|(c, nt)| (c.handler, nt))
}

#[test]
fn resolving_twice_gives_the_same_outcome() {
    let map = registry();
    let content = b"assetbinds modify priority 123 4";
    let first = resolve_handler(&map, content);
    let second = resolve_handler(&map, content);
    assert_eq!(first, second);
    assert_eq!(first, Some((Some(HANDLER_AB_MODIFY_PRIORITY), 3)));
}

#[test]
fn every_alias_reaches_the_same_command() {
    let map = registry();
    let canonical = resolve_handler(&map, b"assetbinds view");
    assert_eq!(canonical, Some((Some(HANDLER_ASSETBINDS_VIEW), 2)));
    assert_eq!(resolve_handler(&map, b"ab view"), canonical);
    let modify = resolve_handler(&map, b"assetbinds modify template 1 x");
    assert_eq!(resolve_handler(&map, b"ab m template 1 x"), modify);
    let delete = resolve_handler(&map, b"assetbinds delete 1");
    assert_eq!(delete, Some((Some(HANDLER_ASSETBINDS_DELETE), 2)));
    assert_eq!(resolve_handler(&map, b"ab d 1"), delete);
    assert_eq!(resolve_handler(&map, b"ab remove 1"), delete);
}

#[test]
fn matching_ignores_ascii_case() {
    let map = registry();
    assert_eq!(
        resolve_handler(&map, b"ASSETBINDS NEW shirt 1 N/A"),
        Some((Some(HANDLER_ASSETBINDS_NEW), 2)),
    );
}

#[test]
fn group_without_subcommand_token_falls_through() {
    let map = registry();
    assert_eq!(resolve_handler(&map, b"assetbinds"), Some((Some(HANDLER_ASSETBINDS_VIEW), 1)));
    // An unknown token after the group leaves it as an argument.
    assert_eq!(resolve_handler(&map, b"assetbinds nope"), Some((Some(HANDLER_ASSETBINDS_VIEW), 1)));
}

#[test]
fn unknown_top_level_name_resolves_to_nothing() {
    let map = registry();
    assert_eq!(resolve_handler(&map, b"rankbinds view"), None);
}

#[test]
fn deeper_tokens_stay_arguments() {
    let map = registry();
    let content = b"ab new shirt 55 N/A 1 @everyone";
    let (handler, nt) = resolve_handler(&map, content).unwrap();
    assert_eq!(handler, Some(HANDLER_ASSETBINDS_NEW));
    assert_eq!(nt, 2);
}

#[test]
fn modify_option_tokens_parse_case_insensitively() {
    assert_eq!(ModifyOption::from_arg(b"roles-add"), Some(ModifyOption::RolesAdd));
    assert_eq!(ModifyOption::from_arg(b"ROLES-REMOVE"), Some(ModifyOption::RolesRemove));
    assert_eq!(ModifyOption::from_arg(b"Priority"), Some(ModifyOption::Priority));
    assert_eq!(ModifyOption::from_arg(b"template"), Some(ModifyOption::Template));
    assert_eq!(ModifyOption::from_arg(b"colour"), None);
}

#[test]
fn levels_with_no_match_do_not_shadow_later_commands() {
    let a = Command {
        names: vec![b"alpha".to_vec()],
        level: RoLevel::Normal,
        bucket: None,
        handler: Some(1),
        args: Vec::new(),
        sub_commands: Vec::new(),
    };
    let b = Command {
        names: vec![b"beta".to_vec()],
        level: RoLevel::Normal,
        bucket: None,
        handler: Some(2),
        args: Vec::new(),
        sub_commands: Vec::new(),
    };
    let mut map = CommandMap::new();
    map.add(a);
    map.add(b);
    assert_eq!(resolve_handler(&map, b"beta"), Some((Some(2), 1)));
    assert_eq!(resolve_handler(&map, b"alpha"), Some((Some(1), 1)));
}
