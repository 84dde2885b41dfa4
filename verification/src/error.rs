//! Error taxonomy of the dispatch core.
//!
//! Two tiers: command-level errors are expected and user-actionable; every
//! other variant is an infrastructure failure whose internal detail is kept
//! for logging but never shown to the user.

use vstd::prelude::*;

verus! {

/// An expected, user-actionable failure of one command invocation.
///
/// Text payloads are byte strings: the whole core works on the raw bytes of
/// the inbound message.
pub enum CommandError {
    /// A computed nickname exceeded the platform's length limit; carries the
    /// offending value.
    NicknameTooLong(Vec<u8>),
    /// The invoking user is on the server's denylist; carries the recorded
    /// reason, shown verbatim.
    Blacklist(Vec<u8>),
    /// The guild has not completed setup.
    NoRoGuild,
    /// Positional argument binding failed: the raw fragment that did not
    /// parse, the field name, and a description of the expected type.
    ParseArgument(Vec<u8>, Vec<u8>, Vec<u8>),
    /// An awaited interactive step exceeded its deadline.
    Timeout,
}

/// Any failure a command handler can report back to the dispatcher.
///
/// The non-`Command` variants are infrastructure failures; each carries the
/// originating cause as text so that nothing is discarded before the boundary
/// logs it. Users only ever see a generic retry message for those.
pub enum RoError {
    Database(Vec<u8>),
    Roblox(Vec<u8>),
    Discord(Vec<u8>),
    Command(CommandError),
    Patreon(Vec<u8>),
}

/// Ghost image of a command-level error.
pub enum CommandErrorView {
    NicknameTooLong(Seq<u8>),
    Blacklist(Seq<u8>),
    NoRoGuild,
    ParseArgument(Seq<u8>, Seq<u8>, Seq<u8>),
    Timeout,
}

impl View for CommandError {
    type V = CommandErrorView;

    open spec fn view(&self) -> CommandErrorView {
        match self {
            CommandError::NicknameTooLong(v) => CommandErrorView::NicknameTooLong(v@),
            CommandError::Blacklist(v) => CommandErrorView::Blacklist(v@),
            CommandError::NoRoGuild => CommandErrorView::NoRoGuild,
            CommandError::ParseArgument(a, b, c) => CommandErrorView::ParseArgument(a@, b@, c@),
            CommandError::Timeout => CommandErrorView::Timeout,
        }
    }
}

/// Ghost image of a handler error.
pub enum RoErrorView {
    Database(Seq<u8>),
    Roblox(Seq<u8>),
    Discord(Seq<u8>),
    Command(CommandErrorView),
    Patreon(Seq<u8>),
}

impl View for RoError {
    type V = RoErrorView;

    open spec fn view(&self) -> RoErrorView {
        match self {
            RoError::Database(v) => RoErrorView::Database(v@),
            RoError::Roblox(v) => RoErrorView::Roblox(v@),
            RoError::Discord(v) => RoErrorView::Discord(v@),
            RoError::Command(c) => RoErrorView::Command(c@),
            RoError::Patreon(v) => RoErrorView::Patreon(v@),
        }
    }
}

} // verus!
