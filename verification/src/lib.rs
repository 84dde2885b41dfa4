//! Command-dispatch core of a chat-bot backend.
//!
//! The crate turns raw inbound chat events into authorized, rate-limited
//! command invocations and turns failures into user-facing messages. It is
//! pure logic over plain values: the chat gateway, storage, and clock live
//! outside and hand values in; the dispatcher hands decisions and outbound
//! message texts back.

pub mod arguments;
pub mod bucket;
pub mod command;
pub mod confirmation;
pub mod dispatcher;
pub mod error;
pub mod messages;
pub mod permission;
pub mod registry;
pub mod text;
pub mod tokenizer;

pub use arguments::{ArgValue, ArgumentError, FieldSpec, FieldType};
pub use bucket::Bucket;
pub use command::{Command, CommandMap, RoLevel};
pub use confirmation::{ConfirmStep, PendingConfirmation, SuppressionSet};
pub use dispatcher::{Decision, Event, Framework, HelpCommand, InteractionEvent, MessageEvent};
pub use error::{CommandError, RoError};
pub use permission::{BotConfig, GuildAuthContext, MemberInfo};
