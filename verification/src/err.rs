//! Top-level error taxonomy: every failing command surfaces as exactly one
//! of these values, and the event loop logs it and goes on.
use vstd::prelude::*;

use crate::action::deepseek;
use crate::action::timer;
use crate::action::weather;

verus! {

/// A request-scoped failure. One failing command never affects any other
/// in-flight or future command.
#[derive(Debug, Clone, PartialEq)]
pub enum RKBServiceRequestErr {
    /// A failure with no more precise classification.
    Unknown,
    /// A credential was missing or malformed; carries the lookup's own text.
    Token(String),
    /// The timer handler rejected its input.
    Timer(timer::Error),
    /// The AI-chat handler failed.
    Deepseek(deepseek::Error),
    /// The weather handler failed.
    Weather(weather::Error),
    /// A transport send failed; carries the segment that could not be sent.
    DiscordMessageSendFailure(String),
    /// A send was attempted with no segment at all.
    DiscordMessageSendEmpty,
    /// The gateway refused an operation for lack of permissions.
    DiscordMissingPermissions,
}

impl RKBServiceRequestErr {
    /// The user-visible plain-language text of this error.
    pub open spec fn spec_message(&self) -> Seq<char> {
        match self {
            RKBServiceRequestErr::Unknown => "error caused by unknown means"@,
            RKBServiceRequestErr::Token(_) => "token keys error"@,
            RKBServiceRequestErr::Timer(_) => "timer action error"@,
            RKBServiceRequestErr::Deepseek(_) => "deepseek action error"@,
            RKBServiceRequestErr::Weather(_) => "weather action error"@,
            RKBServiceRequestErr::DiscordMessageSendFailure(_) => "failed to send discord message"@,
            RKBServiceRequestErr::DiscordMessageSendEmpty => "attempted to send no messages"@,
            RKBServiceRequestErr::DiscordMissingPermissions => "missing permissions"@,
        }
    }

    /// Renders the error as its user-visible text; no raw internal
    /// representation is shown to the end user.
    pub fn message(&self) -> (r: String)
        ensures
            r@ == self.spec_message(),
    {
        match self {
            RKBServiceRequestErr::Unknown => String::from_str("error caused by unknown means"),
            RKBServiceRequestErr::Token(_) => String::from_str("token keys error"),
            RKBServiceRequestErr::Timer(_) => String::from_str("timer action error"),
            RKBServiceRequestErr::Deepseek(_) => String::from_str("deepseek action error"),
            RKBServiceRequestErr::Weather(_) => String::from_str("weather action error"),
            RKBServiceRequestErr::DiscordMessageSendFailure(_) => String::from_str(
                "failed to send discord message",
            ),
            RKBServiceRequestErr::DiscordMessageSendEmpty => String::from_str(
                "attempted to send no messages",
            ),
            RKBServiceRequestErr::DiscordMissingPermissions => String::from_str(
                "missing permissions",
            ),
        }
    }
}

} // verus!
