//! The AI-chat handler: assembles the role-tagged message list for the
//! chat-completion service and interprets its answer.  The HTTP exchange
//! itself is the caller's outside work.
use vstd::prelude::*;

use crate::err::RKBServiceRequestErr;
use crate::spec_split_action;
use crate::split_action;

verus! {

/// How many recent channel messages the chat mode hands to the service.
pub const CONTEXT_SIZE: u8 = 21;

/// The standing system instruction of the chat mode.
pub const SYSTEM_PROMPT: &'static str = "Be short and concise. Cite your sources.";

/// Failures of the AI-chat handler.
#[derive(Debug, Clone, Copy, PartialEq, Eq, Structural)]
pub enum Error {
    /// Reserved variant with no meaning of its own.
    Placeholder,
    /// The service's answer held no usable completion.
    DeepseekError,
}

impl Error {
    /// The user-visible plain-language text of this failure.
    pub open spec fn spec_message(&self) -> Seq<char> {
        match self {
            Error::Placeholder => "placeholder"@,
            Error::DeepseekError => "invalid deepseek response"@,
        }
    }

    /// Renders the failure as its user-visible text.
    pub fn message(&self) -> (r: String)
        ensures
            r@ == self.spec_message(),
    {
        match self {
            Error::Placeholder => String::from_str("placeholder"),
            Error::DeepseekError => String::from_str("invalid deepseek response"),
        }
    }
}

/// The role a message carries towards the chat-completion service.
#[derive(Debug, Clone, Copy, PartialEq, Eq, Structural)]
pub enum Role {
    /// A standing instruction.
    System,
    /// A human conversational turn.
    User,
    /// A turn the bot itself authored earlier.
    Assistant,
}

/// One role-tagged message of a chat-completion request.
#[derive(Debug, Clone)]
pub struct ChatMessage {
    /// The speaker's role.
    pub role: Role,
    /// The turn's text.
    pub content: String,
}

/// The role/text views of a message list.
pub open spec fn message_views(ms: Seq<ChatMessage>) -> Seq<(Role, Seq<char>)> {
    ms.map_values(|m: ChatMessage| (m.role, m.content@))
}

/// The author-flag/text views of a channel-history list.
pub open spec fn history_views(h: Seq<(bool, String)>) -> Seq<(bool, Seq<char>)> {
    h.map_values(|p: (bool, String)| (p.0, p.1@))
}

/// How one channel message turns into a chat-completion message: a turn the
/// bot authored keeps its full text under the assistant role; anyone else's
/// turn carries the user role with the entry prefix and action token
/// stripped off.
pub open spec fn spec_to_deepseek_message(author_is_bot: bool, content: Seq<char>) -> (
    Role,
    Seq<char>,
) {
    if author_is_bot {
        (Role::Assistant, content)
    } else {
        (Role::User, spec_split_action(content).1)
    }
}

/// Converts one channel message (author-is-the-bot flag and raw text) into
/// a role-tagged chat-completion message.
pub fn to_deepseek_message(author_is_bot: bool, content: String) -> (r: ChatMessage)
    ensures
        (r.role, r.content@) == spec_to_deepseek_message(author_is_bot, content@),
{
    if author_is_bot {
        ChatMessage { role: Role::Assistant, content }
    } else {
        let (_action, argument) = split_action(content);
        ChatMessage { role: Role::User, content: argument }
    }
}

/// The message list of a chat-mode request: the channel history (taken
/// newest first) converted message by message and put back into
/// chronological order, preceded by the standing system instruction, itself
/// preceded by the pinned-directive instruction when one is given.
pub open spec fn spec_chat_body(
    history: Seq<(bool, Seq<char>)>,
    preprompt: Option<Seq<char>>,
) -> Seq<(Role, Seq<char>)> {
    let mapped = history.map_values(
        |p: (bool, Seq<char>)| spec_to_deepseek_message(p.0, p.1),
    ).reverse();
    let with_system = seq![(Role::System, SYSTEM_PROMPT@)] + mapped;
    match preprompt {
        Option::Some(p) => seq![(Role::System, p)] + with_system,
        Option::None => with_system,
    }
}

/// Builds the chat-mode request body from the channel history (newest
/// first) and an optional pinned-directive instruction.
#[verifier::rlimit(100)]
pub fn chat_body(history: Vec<(bool, String)>, preprompt: Option<String>) -> (r: Vec<ChatMessage>)
    ensures
        message_views(r@) == spec_chat_body(history_views(history@), crate::opt_view(preprompt)),
{
    let ghost mapped = history_views(history@).map_values(
        |p: (bool, Seq<char>)| spec_to_deepseek_message(p.0, p.1),
    );
    let mut messages: Vec<ChatMessage> = Vec::new();
    match preprompt {
        Option::Some(p) => {
            messages.push(ChatMessage { role: Role::System, content: p });
        },
        Option::None => {},
    }
    messages.push(ChatMessage { role: Role::System, content: String::from_str(SYSTEM_PROMPT) });
    let ghost init = messages@;
    let ghost head = message_views(init);
    let mut i: usize = history.len();
    proof {
        assert(history_views(history@).len() == history@.len());
        assert(mapped.len() == history@.len());
        assert(head.len() == init.len());
    }
    while i > 0
        invariant
            0 <= i <= history.len(),
            mapped.len() == history.len(),
            mapped == history_views(history@).map_values(
                |p: (bool, Seq<char>)| spec_to_deepseek_message(p.0, p.1),
            ),
            messages@.len() == init.len() + (mapped.len() - i),
            forall|k: int| 0 <= k < init.len() ==> messages@[k] == init[k],
            forall|k: int|
                init.len() <= k < messages@.len() ==> ((#[trigger] messages@[k]).role,
                    messages@[k].content@) == mapped[mapped.len() - 1 - (k - init.len())],
        decreases i,
    {
        i = i - 1;
        let author_is_bot: bool = history[i].0;
        let content: String = history[i].1.clone();
        proof {
            assert(history_views(history@)[i as int] == (history@[i as int].0,
                history@[i as int].1@));
        }
        let converted = to_deepseek_message(author_is_bot, content);
        proof {
            assert((converted.role, converted.content@) == mapped[i as int]);
        }
        messages.push(converted);
    }
    proof {
        let target = spec_chat_body(history_views(history@), crate::opt_view(preprompt));
        assert(target == head + mapped.reverse()) by {
            match preprompt {
                Option::Some(p) => {
                    assert(head =~= seq![
                        (Role::System, p@),
                        (Role::System, SYSTEM_PROMPT@),
                    ]);
                    assert(target =~= head + mapped.reverse());
                },
                Option::None => {
                    assert(head =~= seq![(Role::System, SYSTEM_PROMPT@)]);
                    assert(target =~= head + mapped.reverse());
                },
            }
        }
        assert(message_views(messages@).len() == messages@.len());
        assert(forall|k: int|
            0 <= k < messages@.len() ==> message_views(messages@)[k] == ((#[trigger] messages@[k]).role,
                messages@[k].content@));
        assert(forall|k: int|
            0 <= k < init.len() ==> message_views(messages@)[k] == head[k]) by {
            assert(forall|k: int|
                0 <= k < init.len() ==> message_views(init)[k] == ((#[trigger] init[k]).role,
                    init[k].content@));
        }
        assert(forall|k: int|
            init.len() <= k < messages@.len() ==> #[trigger] mapped.reverse()[k - init.len()]
                == mapped[mapped.len() - 1 - (k - init.len())]);
        assert(message_views(messages@) =~= head + mapped.reverse());
    }
    messages
}

/// The message list of a reasoning-mode request: the triggering turns
/// converted in the order given, with no standing instruction.
pub open spec fn spec_reasoning_body(history: Seq<(bool, Seq<char>)>) -> Seq<(Role, Seq<char>)> {
    history.map_values(|p: (bool, Seq<char>)| spec_to_deepseek_message(p.0, p.1))
}

/// Builds the reasoning-mode request body from the given turns.
pub fn reasoning_body(history: Vec<(bool, String)>) -> (r: Vec<ChatMessage>)
    ensures
        message_views(r@) == spec_reasoning_body(history_views(history@)),
{
    let ghost mapped = spec_reasoning_body(history_views(history@));
    let mut messages: Vec<ChatMessage> = Vec::new();
    let mut i: usize = 0;
    proof {
        assert(history_views(history@).len() == history@.len());
        assert(mapped.len() == history@.len());
        assert(message_views(messages@) =~= mapped.subrange(0, 0));
    }
    while i < history.len()
        invariant
            0 <= i <= history.len(),
            mapped.len() == history.len(),
            mapped == spec_reasoning_body(history_views(history@)),
            message_views(messages@) == mapped.subrange(0, i as int),
        decreases history.len() - i,
    {
        let ghost old_msgs = messages@;
        let author_is_bot: bool = history[i].0;
        let content: String = history[i].1.clone();
        let converted = to_deepseek_message(author_is_bot, content);
        messages.push(converted);
        proof {
            assert(history_views(history@).len() == history@.len());
            assert(history_views(history@)[i as int] == (history@[i as int].0,
                history@[i as int].1@));
            assert((converted.role, converted.content@) == mapped[i as int]);
            assert(message_views(old_msgs).len() == old_msgs.len());
            assert(forall|k: int|
                0 <= k < old_msgs.len() ==> message_views(old_msgs)[k] == mapped.subrange(
                    0,
                    i as int,
                )[k]);
            assert(message_views(messages@) =~= mapped.subrange(0, i as int + 1));
        }
        i = i + 1;
    }
    proof {
        assert(mapped.subrange(0, mapped.len() as int) =~= mapped);
    }
    messages
}

/// The immediate low-latency acknowledgment sent before the slow exchange
/// begins; the real answer later replaces it in place.
pub fn placeholder_text() -> (r: String)
    ensures
        r@ == "*..*"@,
{
    String::from_str("*..*")
}

/// Interprets the completion text the service handed back: an absent
/// completion is the handler's distinguishable failure, never a panic.
pub fn deepseek_response_text(content: Option<String>) -> (r: Result<String, RKBServiceRequestErr>)
    ensures
        content matches Some(s) ==> r matches Ok(t) && t@ == s@,
        content is None ==> r == Err::<String, RKBServiceRequestErr>(
            RKBServiceRequestErr::Deepseek(Error::DeepseekError),
        ),
{
    match content {
        Option::Some(s) => Ok(s),
        Option::None => Err(RKBServiceRequestErr::Deepseek(Error::DeepseekError)),
    }
}

} // verus!
