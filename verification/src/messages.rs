//! User-facing message rendering.
//!
//! Every reply the dispatcher sends is assembled here as bytes, pinned down
//! exactly: the active-prefix announcement, the cooldown notice, and the two
//! tiers of error messages — command-level errors shown with their payloads,
//! and infrastructure errors hidden behind one generic retry notice. A parse
//! error quotes the whole message and underlines the first occurrence of the
//! offending fragment with carets; when the fragment cannot be located the
//! underline is dropped rather than misplaced.

use vstd::prelude::*;
use vstd::slice::slice_to_vec;
use crate::error::{RoError, RoErrorView, CommandErrorView};
use crate::text::{dec_digits, push_dec, push_bytes, push_repeat, repeat_byte, spec_find, find_first};

verus! {

/// `The prefix of this server is `
pub open spec fn prefix_head() -> Seq<u8> {
    seq![
        84u8, 104u8, 101u8, 32u8, 112u8, 114u8, 101u8, 102u8, 105u8, 120u8, 32u8, 111u8, 102u8,
        32u8, 116u8, 104u8, 105u8, 115u8, 32u8, 115u8, 101u8, 114u8, 118u8, 101u8, 114u8, 32u8,
        105u8, 115u8, 32u8,
    ]
}

/// Builds [`prefix_head`] as bytes.
pub fn build_prefix_head() -> (r: Vec<u8>)
    ensures
        r@ == prefix_head(),
{
    let a: [u8; 29] = [
        84u8, 104u8, 101u8, 32u8, 112u8, 114u8, 101u8, 102u8, 105u8, 120u8, 32u8, 111u8, 102u8,
        32u8, 116u8, 104u8, 105u8, 115u8, 32u8, 115u8, 101u8, 114u8, 118u8, 101u8, 114u8, 32u8,
        105u8, 115u8, 32u8,
    ];
    let r = slice_to_vec(a.as_slice());
    proof {
        assert(r@ =~= prefix_head());
    }
    r
}

/// `Ratelimit reached. You may use this command in `
pub open spec fn cooldown_head() -> Seq<u8> {
    seq![
        82u8, 97u8, 116u8, 101u8, 108u8, 105u8, 109u8, 105u8, 116u8, 32u8, 114u8, 101u8, 97u8,
        99u8, 104u8, 101u8, 100u8, 46u8, 32u8, 89u8, 111u8, 117u8, 32u8, 109u8, 97u8, 121u8,
        32u8, 117u8, 115u8, 101u8, 32u8, 116u8, 104u8, 105u8, 115u8, 32u8, 99u8, 111u8, 109u8,
        109u8, 97u8, 110u8, 100u8, 32u8, 105u8, 110u8, 32u8,
    ]
}

/// Builds [`cooldown_head`] as bytes.
pub fn build_cooldown_head() -> (r: Vec<u8>)
    ensures
        r@ == cooldown_head(),
{
    let a: [u8; 47] = [
        82u8, 97u8, 116u8, 101u8, 108u8, 105u8, 109u8, 105u8, 116u8, 32u8, 114u8, 101u8, 97u8,
        99u8, 104u8, 101u8, 100u8, 46u8, 32u8, 89u8, 111u8, 117u8, 32u8, 109u8, 97u8, 121u8,
        32u8, 117u8, 115u8, 101u8, 32u8, 116u8, 104u8, 105u8, 115u8, 32u8, 99u8, 111u8, 109u8,
        109u8, 97u8, 110u8, 100u8, 32u8, 105u8, 110u8, 32u8,
    ];
    let r = slice_to_vec(a.as_slice());
    proof {
        assert(r@ =~= cooldown_head());
    }
    r
}

/// `ms`
pub open spec fn cooldown_tail() -> Seq<u8> {
    seq![
        109u8, 115u8,
    ]
}

/// Builds [`cooldown_tail`] as bytes.
pub fn build_cooldown_tail() -> (r: Vec<u8>)
    ensures
        r@ == cooldown_tail(),
{
    let a: [u8; 2] = [
        109u8, 115u8,
    ];
    let r = slice_to_vec(a.as_slice());
    proof {
        assert(r@ =~= cooldown_tail());
    }
    r
}

/// `User was found on the server blacklist. Reason: `
pub open spec fn blacklist_head() -> Seq<u8> {
    seq![
        85u8, 115u8, 101u8, 114u8, 32u8, 119u8, 97u8, 115u8, 32u8, 102u8, 111u8, 117u8, 110u8,
        100u8, 32u8, 111u8, 110u8, 32u8, 116u8, 104u8, 101u8, 32u8, 115u8, 101u8, 114u8, 118u8,
        101u8, 114u8, 32u8, 98u8, 108u8, 97u8, 99u8, 107u8, 108u8, 105u8, 115u8, 116u8, 46u8,
        32u8, 82u8, 101u8, 97u8, 115u8, 111u8, 110u8, 58u8, 32u8,
    ]
}

/// Builds [`blacklist_head`] as bytes.
pub fn build_blacklist_head() -> (r: Vec<u8>)
    ensures
        r@ == blacklist_head(),
{
    let a: [u8; 48] = [
        85u8, 115u8, 101u8, 114u8, 32u8, 119u8, 97u8, 115u8, 32u8, 102u8, 111u8, 117u8, 110u8,
        100u8, 32u8, 111u8, 110u8, 32u8, 116u8, 104u8, 101u8, 32u8, 115u8, 101u8, 114u8, 118u8,
        101u8, 114u8, 32u8, 98u8, 108u8, 97u8, 99u8, 107u8, 108u8, 105u8, 115u8, 116u8, 46u8,
        32u8, 82u8, 101u8, 97u8, 115u8, 111u8, 110u8, 58u8, 32u8,
    ];
    let r = slice_to_vec(a.as_slice());
    proof {
        assert(r@ =~= blacklist_head());
    }
    r
}

/// `The supposed nickname `
pub open spec fn nickname_head() -> Seq<u8> {
    seq![
        84u8, 104u8, 101u8, 32u8, 115u8, 117u8, 112u8, 112u8, 111u8, 115u8, 101u8, 100u8, 32u8,
        110u8, 105u8, 99u8, 107u8, 110u8, 97u8, 109u8, 101u8, 32u8,
    ]
}

/// Builds [`nickname_head`] as bytes.
pub fn build_nickname_head() -> (r: Vec<u8>)
    ensures
        r@ == nickname_head(),
{
    let a: [u8; 22] = [
        84u8, 104u8, 101u8, 32u8, 115u8, 117u8, 112u8, 112u8, 111u8, 115u8, 101u8, 100u8, 32u8,
        110u8, 105u8, 99u8, 107u8, 110u8, 97u8, 109u8, 101u8, 32u8,
    ];
    let r = slice_to_vec(a.as_slice());
    proof {
        assert(r@ =~= nickname_head());
    }
    r
}

/// ` was found to be longer than 32 characters`
pub open spec fn nickname_tail() -> Seq<u8> {
    seq![
        32u8, 119u8, 97u8, 115u8, 32u8, 102u8, 111u8, 117u8, 110u8, 100u8, 32u8, 116u8, 111u8,
        32u8, 98u8, 101u8, 32u8, 108u8, 111u8, 110u8, 103u8, 101u8, 114u8, 32u8, 116u8, 104u8,
        97u8, 110u8, 32u8, 51u8, 50u8, 32u8, 99u8, 104u8, 97u8, 114u8, 97u8, 99u8, 116u8, 101u8,
        114u8, 115u8,
    ]
}

/// Builds [`nickname_tail`] as bytes.
pub fn build_nickname_tail() -> (r: Vec<u8>)
    ensures
        r@ == nickname_tail(),
{
    let a: [u8; 42] = [
        32u8, 119u8, 97u8, 115u8, 32u8, 102u8, 111u8, 117u8, 110u8, 100u8, 32u8, 116u8, 111u8,
        32u8, 98u8, 101u8, 32u8, 108u8, 111u8, 110u8, 103u8, 101u8, 114u8, 32u8, 116u8, 104u8,
        97u8, 110u8, 32u8, 51u8, 50u8, 32u8, 99u8, 104u8, 97u8, 114u8, 97u8, 99u8, 116u8, 101u8,
        114u8, 115u8,
    ];
    let r = slice_to_vec(a.as_slice());
    proof {
        assert(r@ =~= nickname_tail());
    }
    r
}

/// `This server was not set up. Please ask the server owner to run `setup``
pub open spec fn no_guild_text() -> Seq<u8> {
    seq![
        84u8, 104u8, 105u8, 115u8, 32u8, 115u8, 101u8, 114u8, 118u8, 101u8, 114u8, 32u8, 119u8,
        97u8, 115u8, 32u8, 110u8, 111u8, 116u8, 32u8, 115u8, 101u8, 116u8, 32u8, 117u8, 112u8,
        46u8, 32u8, 80u8, 108u8, 101u8, 97u8, 115u8, 101u8, 32u8, 97u8, 115u8, 107u8, 32u8,
        116u8, 104u8, 101u8, 32u8, 115u8, 101u8, 114u8, 118u8, 101u8, 114u8, 32u8, 111u8, 119u8,
        110u8, 101u8, 114u8, 32u8, 116u8, 111u8, 32u8, 114u8, 117u8, 110u8, 32u8, 96u8, 115u8,
        101u8, 116u8, 117u8, 112u8, 96u8,
    ]
}

/// Builds [`no_guild_text`] as bytes.
pub fn build_no_guild_text() -> (r: Vec<u8>)
    ensures
        r@ == no_guild_text(),
{
    let a: [u8; 70] = [
        84u8, 104u8, 105u8, 115u8, 32u8, 115u8, 101u8, 114u8, 118u8, 101u8, 114u8, 32u8, 119u8,
        97u8, 115u8, 32u8, 110u8, 111u8, 116u8, 32u8, 115u8, 101u8, 116u8, 32u8, 117u8, 112u8,
        46u8, 32u8, 80u8, 108u8, 101u8, 97u8, 115u8, 101u8, 32u8, 97u8, 115u8, 107u8, 32u8,
        116u8, 104u8, 101u8, 32u8, 115u8, 101u8, 114u8, 118u8, 101u8, 114u8, 32u8, 111u8, 119u8,
        110u8, 101u8, 114u8, 32u8, 116u8, 111u8, 32u8, 114u8, 117u8, 110u8, 32u8, 96u8, 115u8,
        101u8, 116u8, 117u8, 112u8, 96u8,
    ];
    let r = slice_to_vec(a.as_slice());
    proof {
        assert(r@ =~= no_guild_text());
    }
    r
}

/// `Timeout reached. Please try again`
pub open spec fn timeout_text() -> Seq<u8> {
    seq![
        84u8, 105u8, 109u8, 101u8, 111u8, 117u8, 116u8, 32u8, 114u8, 101u8, 97u8, 99u8, 104u8,
        101u8, 100u8, 46u8, 32u8, 80u8, 108u8, 101u8, 97u8, 115u8, 101u8, 32u8, 116u8, 114u8,
        121u8, 32u8, 97u8, 103u8, 97u8, 105u8, 110u8,
    ]
}

/// Builds [`timeout_text`] as bytes.
pub fn build_timeout_text() -> (r: Vec<u8>)
    ensures
        r@ == timeout_text(),
{
    let a: [u8; 33] = [
        84u8, 105u8, 109u8, 101u8, 111u8, 117u8, 116u8, 32u8, 114u8, 101u8, 97u8, 99u8, 104u8,
        101u8, 100u8, 46u8, 32u8, 80u8, 108u8, 101u8, 97u8, 115u8, 101u8, 32u8, 116u8, 114u8,
        121u8, 32u8, 97u8, 103u8, 97u8, 105u8, 110u8,
    ];
    let r = slice_to_vec(a.as_slice());
    proof {
        assert(r@ =~= timeout_text());
    }
    r
}

/// `There was an error in executing this command. Please try again. If the issue persists, please contact the support server for more information`
pub open spec fn generic_text() -> Seq<u8> {
    seq![
        84u8, 104u8, 101u8, 114u8, 101u8, 32u8, 119u8, 97u8, 115u8, 32u8, 97u8, 110u8, 32u8,
        101u8, 114u8, 114u8, 111u8, 114u8, 32u8, 105u8, 110u8, 32u8, 101u8, 120u8, 101u8, 99u8,
        117u8, 116u8, 105u8, 110u8, 103u8, 32u8, 116u8, 104u8, 105u8, 115u8, 32u8, 99u8, 111u8,
        109u8, 109u8, 97u8, 110u8, 100u8, 46u8, 32u8, 80u8, 108u8, 101u8, 97u8, 115u8, 101u8,
        32u8, 116u8, 114u8, 121u8, 32u8, 97u8, 103u8, 97u8, 105u8, 110u8, 46u8, 32u8, 73u8,
        102u8, 32u8, 116u8, 104u8, 101u8, 32u8, 105u8, 115u8, 115u8, 117u8, 101u8, 32u8, 112u8,
        101u8, 114u8, 115u8, 105u8, 115u8, 116u8, 115u8, 44u8, 32u8, 112u8, 108u8, 101u8, 97u8,
        115u8, 101u8, 32u8, 99u8, 111u8, 110u8, 116u8, 97u8, 99u8, 116u8, 32u8, 116u8, 104u8,
        101u8, 32u8, 115u8, 117u8, 112u8, 112u8, 111u8, 114u8, 116u8, 32u8, 115u8, 101u8, 114u8,
        118u8, 101u8, 114u8, 32u8, 102u8, 111u8, 114u8, 32u8, 109u8, 111u8, 114u8, 101u8, 32u8,
        105u8, 110u8, 102u8, 111u8, 114u8, 109u8, 97u8, 116u8, 105u8, 111u8, 110u8,
    ]
}

/// Builds [`generic_text`] as bytes.
pub fn build_generic_text() -> (r: Vec<u8>)
    ensures
        r@ == generic_text(),
{
    let a: [u8; 141] = [
        84u8, 104u8, 101u8, 114u8, 101u8, 32u8, 119u8, 97u8, 115u8, 32u8, 97u8, 110u8, 32u8,
        101u8, 114u8, 114u8, 111u8, 114u8, 32u8, 105u8, 110u8, 32u8, 101u8, 120u8, 101u8, 99u8,
        117u8, 116u8, 105u8, 110u8, 103u8, 32u8, 116u8, 104u8, 105u8, 115u8, 32u8, 99u8, 111u8,
        109u8, 109u8, 97u8, 110u8, 100u8, 46u8, 32u8, 80u8, 108u8, 101u8, 97u8, 115u8, 101u8,
        32u8, 116u8, 114u8, 121u8, 32u8, 97u8, 103u8, 97u8, 105u8, 110u8, 46u8, 32u8, 73u8,
        102u8, 32u8, 116u8, 104u8, 101u8, 32u8, 105u8, 115u8, 115u8, 117u8, 101u8, 32u8, 112u8,
        101u8, 114u8, 115u8, 105u8, 115u8, 116u8, 115u8, 44u8, 32u8, 112u8, 108u8, 101u8, 97u8,
        115u8, 101u8, 32u8, 99u8, 111u8, 110u8, 116u8, 97u8, 99u8, 116u8, 32u8, 116u8, 104u8,
        101u8, 32u8, 115u8, 117u8, 112u8, 112u8, 111u8, 114u8, 116u8, 32u8, 115u8, 101u8, 114u8,
        118u8, 101u8, 114u8, 32u8, 102u8, 111u8, 114u8, 32u8, 109u8, 111u8, 114u8, 101u8, 32u8,
        105u8, 110u8, 102u8, 111u8, 114u8, 109u8, 97u8, 116u8, 105u8, 111u8, 110u8,
    ];
    let r = slice_to_vec(a.as_slice());
    proof {
        assert(r@ =~= generic_text());
    }
    r
}

/// A code-fence: three backticks.
pub open spec fn fence_text() -> Seq<u8> {
    seq![
        96u8, 96u8, 96u8,
    ]
}

/// Builds [`fence_text`] as bytes.
pub fn build_fence_text() -> (r: Vec<u8>)
    ensures
        r@ == fence_text(),
{
    let a: [u8; 3] = [
        96u8, 96u8, 96u8,
    ];
    let r = slice_to_vec(a.as_slice());
    proof {
        assert(r@ =~= fence_text());
    }
    r
}

/// A blank line, then `Expected ` (with a trailing space).
pub open spec fn expected_head() -> Seq<u8> {
    seq![
        10u8, 10u8, 69u8, 120u8, 112u8, 101u8, 99u8, 116u8, 101u8, 100u8, 32u8,
    ]
}

/// Builds [`expected_head`] as bytes.
pub fn build_expected_head() -> (r: Vec<u8>)
    ensures
        r@ == expected_head(),
{
    let a: [u8; 11] = [
        10u8, 10u8, 69u8, 120u8, 112u8, 101u8, 99u8, 116u8, 101u8, 100u8, 32u8,
    ];
    let r = slice_to_vec(a.as_slice());
    proof {
        assert(r@ =~= expected_head());
    }
    r
}

/// ` to be a `
pub open spec fn expected_mid() -> Seq<u8> {
    seq![
        32u8, 116u8, 111u8, 32u8, 98u8, 101u8, 32u8, 97u8, 32u8,
    ]
}

/// Builds [`expected_mid`] as bytes.
pub fn build_expected_mid() -> (r: Vec<u8>)
    ensures
        r@ == expected_mid(),
{
    let a: [u8; 9] = [
        32u8, 116u8, 111u8, 32u8, 98u8, 101u8, 32u8, 97u8, 32u8,
    ];
    let r = slice_to_vec(a.as_slice());
    proof {
        assert(r@ =~= expected_mid());
    }
    r
}

/// A line feed.
pub open spec fn newline_text() -> Seq<u8> {
    seq![
        10u8,
    ]
}

/// Builds [`newline_text`] as bytes.
pub fn build_newline_text() -> (r: Vec<u8>)
    ensures
        r@ == newline_text(),
{
    let a: [u8; 1] = [
        10u8,
    ];
    let r = slice_to_vec(a.as_slice());
    proof {
        assert(r@ =~= newline_text());
    }
    r
}
/// The reply to a prefix-only message: the guild's active prefix.
pub open spec fn prefix_announcement(prefix: Seq<u8>) -> Seq<u8> {
    prefix_head() + prefix
}

/// Renders [`prefix_announcement`].
pub fn render_prefix_announcement(prefix: &[u8]) -> (r: Vec<u8>)
    ensures
        r@ == prefix_announcement(prefix@),
{
    let mut out = build_prefix_head();
    push_bytes(&mut out, prefix);
    out
}

/// The reply to a rate-limited invocation, quoting the wait in milliseconds.
pub open spec fn cooldown_message(wait_ms: u64) -> Seq<u8> {
    cooldown_head() + dec_digits(wait_ms as nat) + cooldown_tail()
}

/// Renders [`cooldown_message`].
pub fn render_cooldown_message(wait_ms: u64) -> (r: Vec<u8>)
    ensures
        r@ == cooldown_message(wait_ms),
{
    let mut out = build_cooldown_head();
    push_dec(&mut out, wait_ms);
    let tail = build_cooldown_tail();
    push_bytes(&mut out, tail.as_slice());
    proof {
        assert(out@ =~= cooldown_message(wait_ms));
    }
    out
}

/// The parse-failure reply: the whole message fenced, the first occurrence of
/// the offending fragment underlined with carets, and what was expected. When
/// the fragment is not found in the message, the underline is omitted.
pub open spec fn parse_error_message(
    content: Seq<u8>,
    fragment: Seq<u8>,
    field: Seq<u8>,
    expected: Seq<u8>,
) -> Seq<u8> {
    let tail = expected_head() + field + expected_mid() + expected + fence_text();
    match spec_find(content, fragment, 0) {
        Some(i) => fence_text() + content + newline_text() + repeat_byte(32u8, i as nat)
            + repeat_byte(94u8, fragment.len()) + tail,
        None => fence_text() + content + tail,
    }
}

/// Renders [`parse_error_message`].
pub fn render_parse_error(
    content: &[u8],
    fragment: &[u8],
    field: &[u8],
    expected: &[u8],
) -> (r: Vec<u8>)
    ensures
        r@ == parse_error_message(content@, fragment@, field@, expected@),
{
    let mut out = build_fence_text();
    push_bytes(&mut out, content);
    match find_first(content, fragment) {
        Some(i) => {
            let nl = build_newline_text();
            push_bytes(&mut out, nl.as_slice());
            push_repeat(&mut out, 32, i);
            push_repeat(&mut out, 94, fragment.len());
        },
        None => {
        },
    }
    let head = build_expected_head();
    push_bytes(&mut out, head.as_slice());
    push_bytes(&mut out, field);
    let mid = build_expected_mid();
    push_bytes(&mut out, mid.as_slice());
    push_bytes(&mut out, expected);
    let fence = build_fence_text();
    push_bytes(&mut out, fence.as_slice());
    proof {
        assert(out@ =~= parse_error_message(content@, fragment@, field@, expected@));
    }
    out
}

/// The reply for a failed handler: command-level errors are shown with their
/// payloads; infrastructure errors all collapse to one generic retry notice
/// that leaks no internal detail.
pub open spec fn error_message(e: RoErrorView, content: Seq<u8>) -> Seq<u8> {
    match e {
        RoErrorView::Command(c) => match c {
            CommandErrorView::Blacklist(reason) => blacklist_head() + reason,
            CommandErrorView::NicknameTooLong(nick) => nickname_head() + nick + nickname_tail(),
            CommandErrorView::NoRoGuild => no_guild_text(),
            CommandErrorView::ParseArgument(fragment, field, expected) => parse_error_message(
                content,
                fragment,
                field,
                expected,
            ),
            CommandErrorView::Timeout => timeout_text(),
        },
        _ => generic_text(),
    }
}

/// Renders [`error_message`].
pub fn render_error_message(e: &RoError, content: &[u8]) -> (r: Vec<u8>)
    ensures
        r@ == error_message(e@, content@),
{
    match e {
        RoError::Command(c) => {
            match c {
                crate::error::CommandError::Blacklist(reason) => {
                    let mut out = build_blacklist_head();
                    push_bytes(&mut out, reason.as_slice());
                    out
                },
                crate::error::CommandError::NicknameTooLong(nick) => {
                    let mut out = build_nickname_head();
                    push_bytes(&mut out, nick.as_slice());
                    let tail = build_nickname_tail();
                    push_bytes(&mut out, tail.as_slice());
                    proof {
                        assert(out@ =~= nickname_head() + nick@ + nickname_tail());
                    }
                    out
                },
                crate::error::CommandError::NoRoGuild => build_no_guild_text(),
                crate::error::CommandError::ParseArgument(fragment, field, expected) => {
                    render_parse_error(
                        content,
                        fragment.as_slice(),
                        field.as_slice(),
                        expected.as_slice(),
                    )
                },
                crate::error::CommandError::Timeout => build_timeout_text(),
            }
        },
        _ => build_generic_text(),
    }
}

} // verus!
