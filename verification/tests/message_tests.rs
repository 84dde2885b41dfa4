use rowifi_core::error::{CommandError, RoError};
use rowifi_core::messages::{render_cooldown_message, render_error_message, render_prefix_announcement};
use rowifi_core::text::find_first;

#[test]
fn blacklist_reason_is_shown_verbatim() {
    let e = RoError::Command(CommandError::Blacklist(b"spamming invites".to_vec()));
    let m = render_error_message(&e, b"!verify");
    assert_eq!(m, b"User was found on the server blacklist. Reason: spamming invites".to_vec());
}

#[test]
fn long_nickname_is_quoted() {
    let e = RoError::Command(CommandError::NicknameTooLong(b"a-very-long-name".to_vec()));
    let m = render_error_message(&e, b"!nick");
    assert_eq!(
        m,
        b"The supposed nickname a-very-long-name was found to be longer than 32 characters"
            .to_vec(),
    );
}

#[test]
fn missing_setup_points_at_the_setup_command() {
    let e = RoError::Command(CommandError::NoRoGuild);
    let m = render_error_message(&e, b"!update");
    assert_eq!(
        m,
        b"This server was not set up. Please ask the server owner to run `setup`".to_vec(),
    );
}

#[test]
fn timeout_asks_to_try_again() {
    let e = RoError::Command(CommandError::Timeout);
    let m = render_error_message(&e, b"!update");
    assert_eq!(m, b"Timeout reached. Please try again".to_vec());
}

#[test]
fn infrastructure_errors_collapse_to_one_generic_notice() {
    let texts: Vec<RoError> = vec![
        RoError::Database(b"pool timeout".to_vec()),
        RoError::Roblox(b"404".to_vec()),
        RoError::Discord(b"502".to_vec()),
        RoError::Patreon(b"401".to_vec()),
    ];
    for e in &texts {
        let m = render_error_message(e, b"!update");
        assert_eq!(
            m,
            b"There was an error in executing this command. Please try again. If the issue persists, please contact the support server for more information".to_vec(),
        );
    }
}

#[test]
fn parse_error_underlines_the_first_occurrence() {
    let e = RoError::Command(CommandError::ParseArgument(
        b"abc".to_vec(),
        b"count".to_vec(),
        b"number".to_vec(),
    ));
    let m = render_error_message(&e, b"!add abc");
    assert_eq!(m, b"```!add abc\n     ^^^\n\nExpected count to be a number```".to_vec());
}

#[test]
fn parse_error_without_a_locatable_fragment_drops_the_underline() {
    let e = RoError::Command(CommandError::ParseArgument(
        b"zzz".to_vec(),
        b"count".to_vec(),
        b"number".to_vec(),
    ));
    let m = render_error_message(&e, b"!add abc");
    assert_eq!(m, b"```!add abc\n\nExpected count to be a number```".to_vec());
}

#[test]
fn cooldown_quotes_the_wait() {
    assert_eq!(
        render_cooldown_message(990),
        b"Ratelimit reached. You may use this command in 990ms".to_vec(),
    );
}

#[test]
fn prefix_announcement_quotes_the_prefix() {
    assert_eq!(
        render_prefix_announcement(b"?"),
        b"The prefix of this server is ?".to_vec(),
    );
}

#[test]
fn find_first_returns_the_first_occurrence() {
    assert_eq!(find_first(b"!ab new abc", b"abc"), Some(8));
    assert_eq!(find_first(b"aaa", b"aa"), Some(0));
    assert_eq!(find_first(b"abc", b"zz"), None);
    assert_eq!(find_first(b"abc", b""), Some(0));
}
