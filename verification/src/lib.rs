//! Command dispatch and multi-part reply protocol for a chat bot.
//!
//! An inbound message is first filtered (only human authors trigger work),
//! then checked against the channel's pinned messages (a pinned command is a
//! standing directive that overrides normal dispatch), and finally routed by
//! its action token to one handler.  Handler output is reassembled into an
//! ordered sequence of bounded-size outbound segments.
use vstd::prelude::*;

use crate::err::RKBServiceRequestErr;

pub mod action;
pub mod err;
pub mod resource;
pub mod text;
pub mod token;

verus! {

broadcast use vstd::string::group_string_axioms;

/// The leading string that marks a message as a command.
pub const ENTRY_STRING: &'static str = "?";

/// The view of an optional owned string.
pub open spec fn opt_view(o: Option<String>) -> Option<Seq<char>> {
    match o {
        Option::Some(s) => Some(s@),
        Option::None => None,
    }
}

/// Character-for-character string equality.
pub fn str_eq(a: &str, b: &str) -> (r: bool)
    ensures
        r == (a@ == b@),
{
    let n: usize = a.unicode_len();
    let m: usize = b.unicode_len();
    if n != m {
        proof {
            assert(a@ != b@) by {
                if a@ == b@ {
                    assert(a@.len() == b@.len());
                }
            }
        }
        return false;
    }
    let mut i: usize = 0;
    while i < n
        invariant
            0 <= i <= n,
            n == a@.len(),
            n == b@.len(),
            forall|k: int| 0 <= k < i ==> a@[k] == b@[k],
        decreases n - i,
    {
        if a.get_char(i) != b.get_char(i) {
            proof {
                assert(a@ != b@) by {
                    if a@ == b@ {
                        assert(a@[i as int] == b@[i as int]);
                    }
                }
            }
            return false;
        }
        i = i + 1;
    }
    proof {
        assert(a@ =~= b@);
    }
    true
}

/// Number of leading characters that the entry-prefix strip removes: the
/// length of the run of `'?'` characters at the front of `s`.
pub open spec fn spec_entry_len(s: Seq<char>) -> nat
    decreases s.len(),
{
    if s.len() > 0 && s[0] == '?' {
        (1 + spec_entry_len(s.drop_first())) as nat
    } else {
        0
    }
}

/// `s` with every leading `'?'` removed.
pub open spec fn spec_stripped(s: Seq<char>) -> Seq<char> {
    s.skip(spec_entry_len(s) as int)
}

/// Index of the first space in `s`, or `s.len()` if `s` has no space.
pub open spec fn spec_space_idx(s: Seq<char>) -> int
    decreases s.len(),
{
    if s.len() == 0 {
        0
    } else if s[0] == ' ' {
        0
    } else {
        1 + spec_space_idx(s.drop_first())
    }
}

/// The action/argument pair that `split_action` extracts: strip the entry
/// prefix, then split at the first space; with no space the whole remainder
/// is the action and the argument is empty.
pub open spec fn spec_split_action(s: Seq<char>) -> (Seq<char>, Seq<char>) {
    let t = spec_stripped(s);
    let i = spec_space_idx(t);
    if i < t.len() {
        (t.take(i), t.skip(i + 1))
    } else {
        (t, Seq::empty())
    }
}

proof fn lemma_entry_len_at(s: Seq<char>, i: int)
    requires
        0 <= i <= s.len(),
        forall|k: int| 0 <= k < i ==> s[k] == '?',
        i == s.len() || s[i] != '?',
    ensures
        spec_entry_len(s) == i,
    decreases s.len(),
{
    if i == 0 {
    } else {
        assert(s[0] == '?');
        assert(forall|k: int| 0 <= k < i - 1 ==> s.drop_first()[k] == s[k + 1]);
        lemma_entry_len_at(s.drop_first(), i - 1);
    }
}

proof fn lemma_space_idx_at(s: Seq<char>, i: int)
    requires
        0 <= i <= s.len(),
        forall|k: int| 0 <= k < i ==> s[k] != ' ',
        i == s.len() || s[i] == ' ',
    ensures
        spec_space_idx(s) == i,
    decreases s.len(),
{
    if i == 0 {
    } else {
        assert(s[0] != ' ');
        assert(forall|k: int| 0 <= k < i - 1 ==> s.drop_first()[k] == s[k + 1]);
        lemma_space_idx_at(s.drop_first(), i - 1);
    }
}

/// Splits a raw message into its action token and its argument: the entry
/// prefix is stripped from the front, the remainder is cut at its first
/// space; without a space the argument is empty.
pub fn split_action(message: String) -> (r: (String, String))
    ensures
        r.0@ == spec_split_action(message@).0,
        r.1@ == spec_split_action(message@).1,
{
    let s: &str = message.as_str();
    let n: usize = s.unicode_len();
    let mut i: usize = 0;
    while i < n && s.get_char(i) == '?'
        invariant
            0 <= i <= n,
            n == s@.len(),
            forall|k: int| 0 <= k < i ==> s@[k] == '?',
        decreases n - i,
    {
        i = i + 1;
    }
    proof {
        lemma_entry_len_at(s@, i as int);
    }
    let stripped: &str = s.substring_char(i, n);
    proof {
        assert(stripped@ =~= spec_stripped(s@));
    }
    let m: usize = n - i;
    let mut j: usize = 0;
    while j < m && stripped.get_char(j) != ' '
        invariant
            0 <= j <= m,
            m == stripped@.len(),
            forall|k: int| 0 <= k < j ==> stripped@[k] != ' ',
        decreases m - j,
    {
        j = j + 1;
    }
    proof {
        lemma_space_idx_at(stripped@, j as int);
    }
    if j < m {
        let action = stripped.substring_char(0, j).to_owned();
        let argument = stripped.substring_char(j + 1, m).to_owned();
        proof {
            assert(action@ =~= spec_stripped(s@).take(j as int));
            assert(argument@ =~= spec_stripped(s@).skip(j + 1));
        }
        (action, argument)
    } else {
        let action = stripped.to_owned();
        (action, String::new())
    }
}

/// Splitter extraction law: for a remainder `s` that does not itself begin
/// with the entry prefix, splitting the prefixed message recovers `s`: when
/// `s` holds a space, action, one space and argument concatenate back to
/// `s`; otherwise the action is all of `s` and the argument is empty.
pub proof fn lemma_split_action_extraction(s: Seq<char>)
    requires
        s.len() == 0 || s[0] != '?',
    ensures
        ({
            let (action, argument) = spec_split_action(seq!['?'] + s);
            if exists|k: int| 0 <= k < s.len() && s[k] == ' ' {
                action + seq![' '] + argument == s
            } else {
                action == s && argument == Seq::<char>::empty()
            }
        }),
{
    let p = seq!['?'] + s;
    assert(p[0] == '?');
    assert(forall|k: int| 0 <= k < s.len() ==> p[k + 1] == s[k]);
    lemma_entry_len_at(p, 1);
    assert(spec_stripped(p) =~= s);
    let i = spec_space_idx(s);
    lemma_space_idx_props(s);
    if exists|k: int| 0 <= k < s.len() && s[k] == ' ' {
        let k = choose|k: int| 0 <= k < s.len() && s[k] == ' ';
        assert(i <= k) by {
            if i > k {
                assert(s[k] != ' ');
            }
        }
        assert(s.take(i) + seq![' '] + s.skip(i + 1) =~= s);
    } else {
        assert(i == s.len()) by {
            if i < s.len() {
                assert(s[i] == ' ');
            }
        }
    }
}

/// Hard per-message size limit of the transport, in characters.
pub const MESSAGE_CAP: usize = 2000;

/// Largest number of segments one logical reply may be broken into; content
/// beyond `MESSAGE_CAP * MAX_MESSAGE_BREAKS` characters is dropped.
pub const MAX_MESSAGE_BREAKS: usize = 3;

/// The segments that the reply chunker produces from `s` with `breaks`
/// segments still available: repeatedly slice the front `MESSAGE_CAP`
/// characters off, until the text is exhausted or no break is left.
pub open spec fn spec_chunks(s: Seq<char>, breaks: nat) -> Seq<Seq<char>>
    decreases breaks,
{
    if breaks == 0 || s.len() == 0 {
        Seq::empty()
    } else {
        let cut = if s.len() < MESSAGE_CAP as int {
            s.len() as int
        } else {
            MESSAGE_CAP as int
        };
        seq![s.take(cut)] + spec_chunks(s.skip(cut), (breaks - 1) as nat)
    }
}

/// The views of a sequence of owned strings.
pub open spec fn views_of(ss: Seq<String>) -> Seq<Seq<char>> {
    ss.map_values(|s: String| s@)
}

/// Breaks one logical reply into at most `MAX_MESSAGE_BREAKS` segments of at
/// most `MESSAGE_CAP` characters each, front to back; text beyond the last
/// segment is dropped.
pub fn breakdown_string(string: String) -> (r: std::collections::VecDeque<String>)
    ensures
        views_of(r@) == spec_chunks(string@, MAX_MESSAGE_BREAKS as nat),
{
    let mut strings: std::collections::VecDeque<String> = std::collections::VecDeque::new();
    let mut remaining_string: String = string;
    let mut available_message_breaks: usize = MAX_MESSAGE_BREAKS;
    proof {
        assert(views_of(strings@) + spec_chunks(remaining_string@, MAX_MESSAGE_BREAKS as nat)
            =~= spec_chunks(string@, MAX_MESSAGE_BREAKS as nat));
    }
    while available_message_breaks > 0 && !remaining_string.as_str().is_empty()
        invariant
            available_message_breaks <= MAX_MESSAGE_BREAKS,
            views_of(strings@) + spec_chunks(remaining_string@, available_message_breaks as nat)
                == spec_chunks(string@, MAX_MESSAGE_BREAKS as nat),
        decreases available_message_breaks,
    {
        let s: &str = remaining_string.as_str();
        let n: usize = s.unicode_len();
        let cut: usize = if n < MESSAGE_CAP {
            n
        } else {
            MESSAGE_CAP
        };
        let string_block: String = s.substring_char(0, cut).to_owned();
        let remaining_string_block: String = s.substring_char(cut, n).to_owned();
        proof {
            assert(string_block@ =~= remaining_string@.take(cut as int));
            assert(remaining_string_block@ =~= remaining_string@.skip(cut as int));
            assert(views_of(strings@.push(string_block)) =~= views_of(strings@)
                + seq![string_block@]);
            assert(views_of(strings@) + seq![string_block@] + spec_chunks(
                remaining_string_block@,
                (available_message_breaks - 1) as nat,
            ) =~= views_of(strings@) + spec_chunks(
                remaining_string@,
                available_message_breaks as nat,
            ));
        }
        remaining_string = remaining_string_block;
        available_message_breaks = available_message_breaks - 1;
        strings.push_back(string_block);
    }
    proof {
        assert(spec_chunks(remaining_string@, available_message_breaks as nat)
            =~= Seq::<Seq<char>>::empty());
        assert(views_of(strings@) =~= views_of(strings@) + Seq::<Seq<char>>::empty());
    }
    strings
}

/// Chunker size bound: never more than `breaks` segments, and every segment
/// holds at most `MESSAGE_CAP` characters.
pub proof fn lemma_chunk_bounds(s: Seq<char>, breaks: nat)
    ensures
        spec_chunks(s, breaks).len() <= breaks,
        forall|i: int|
            0 <= i < spec_chunks(s, breaks).len() ==> (#[trigger] spec_chunks(s, breaks)[i]).len()
                <= MESSAGE_CAP,
    decreases breaks,
{
    if breaks == 0 || s.len() == 0 {
    } else {
        let cut = if s.len() < MESSAGE_CAP as int {
            s.len() as int
        } else {
            MESSAGE_CAP as int
        };
        lemma_chunk_bounds(s.skip(cut), (breaks - 1) as nat);
        assert(forall|i: int|
            1 <= i < spec_chunks(s, breaks).len() ==> spec_chunks(s, breaks)[i] == spec_chunks(
                s.skip(cut),
                (breaks - 1) as nat,
            )[i - 1]);
    }
}

/// Chunker reconstruction: concatenating all segments in order reproduces
/// the first `min(s.len(), MESSAGE_CAP * breaks)` characters of the input
/// exactly; in particular nothing is reordered, and only the overflow beyond
/// the last segment is dropped.
pub proof fn lemma_chunk_concat(s: Seq<char>, breaks: nat)
    ensures
        spec_chunks(s, breaks).flatten() == s.take(
            if s.len() <= MESSAGE_CAP * breaks {
                s.len() as int
            } else {
                MESSAGE_CAP * breaks
            },
        ),
    decreases breaks,
{
    let kept = if s.len() <= MESSAGE_CAP * breaks {
        s.len() as int
    } else {
        MESSAGE_CAP * breaks
    };
    if breaks == 0 || s.len() == 0 {
        assert(spec_chunks(s, breaks).flatten() =~= s.take(kept));
    } else {
        let cut = if s.len() < MESSAGE_CAP as int {
            s.len() as int
        } else {
            MESSAGE_CAP as int
        };
        let rest = spec_chunks(s.skip(cut), (breaks - 1) as nat);
        lemma_chunk_concat(s.skip(cut), (breaks - 1) as nat);
        assert((seq![s.take(cut)] + rest).drop_first() =~= rest);
        assert((seq![s.take(cut)] + rest).flatten() == s.take(cut) + rest.flatten());
        assert(MESSAGE_CAP * breaks == MESSAGE_CAP + MESSAGE_CAP * (breaks - 1)) by (nonlinear_arith);
        assert(s.take(cut) + s.skip(cut).take(kept - cut) =~= s.take(kept));
    }
}

/// Chunking the empty reply yields no segment at all.
pub proof fn lemma_chunk_empty(breaks: nat)
    ensures
        spec_chunks(Seq::<char>::empty(), breaks) == Seq::<Seq<char>>::empty(),
{
}

/// The first-space index is in bounds, points at a space when one exists,
/// and everything before it is not a space.
pub proof fn lemma_space_idx_props(s: Seq<char>)
    ensures
        0 <= spec_space_idx(s) <= s.len(),
        spec_space_idx(s) < s.len() ==> s[spec_space_idx(s)] == ' ',
        forall|k: int| 0 <= k < spec_space_idx(s) ==> s[k] != ' ',
    decreases s.len(),
{
    if s.len() == 0 || s[0] == ' ' {
    } else {
        lemma_space_idx_props(s.drop_first());
        assert(forall|k: int| 1 <= k < spec_space_idx(s) ==> s[k] == s.drop_first()[k - 1]);
    }
}

/// One inbound message together with everything dispatch reads of it.
/// Created fresh per inbound event; the gateway handle itself stays with
/// the caller, which performs the operations the library decides on.
#[derive(Debug, Clone)]
pub struct RKBServiceRequest {
    /// Whether the gateway marked the author as a bot.
    pub author_bot: bool,
    /// Whether the gateway marked the author as a system account.
    pub author_system: bool,
    /// The message's raw text.
    pub content: String,
    /// The channel the message arrived in.
    pub channel_id: u64,
    /// The loaded credential store.
    pub tkn: crate::token::RKBTokens,
    /// The request's resource bag.
    pub rsc: crate::resource::Resources,
}

/// One outbound operation against the messaging gateway, as the contracts
/// describe it: a fresh send of a segment, or an in-place edit that
/// replaces the placeholder with a segment.
pub enum GatewayOp {
    /// A fresh send of one segment.
    SendSeg(Seq<char>),
    /// An in-place edit of the placeholder to one segment.
    EditSeg(Seq<char>),
}

/// The operations of a fresh send: every segment of the chunked reply,
/// sent in chunk order.
pub open spec fn spec_send_ops(text: Seq<char>) -> Seq<GatewayOp> {
    spec_chunks(text, MAX_MESSAGE_BREAKS as nat).map_values(|c: Seq<char>| GatewayOp::SendSeg(c))
}

/// The operations of an edit-then-append delivery: the first segment
/// replaces the placeholder in place, every further segment is a fresh
/// send, in chunk order.
pub open spec fn spec_edit_ops(text: Seq<char>) -> Seq<GatewayOp> {
    let cs = spec_chunks(text, MAX_MESSAGE_BREAKS as nat);
    if cs.len() == 0 {
        Seq::empty()
    } else {
        seq![GatewayOp::EditSeg(cs[0])] + cs.skip(1).map_values(|c: Seq<char>| GatewayOp::SendSeg(c))
    }
}

/// Edit-then-append ordering law: a placeholder send followed by the
/// edit-then-append delivery of a three-segment result touches the gateway
/// exactly in this order: one send carrying the placeholder, one edit
/// carrying the first segment, then one fresh send for each of the second
/// and third segments.
pub proof fn lemma_edit_then_append_ordering(placeholder: Seq<char>, text: Seq<char>)
    requires
        spec_chunks(text, MAX_MESSAGE_BREAKS as nat).len() == 3,
    ensures
        seq![GatewayOp::SendSeg(placeholder)] + spec_edit_ops(text) == seq![
            GatewayOp::SendSeg(placeholder),
            GatewayOp::EditSeg(spec_chunks(text, MAX_MESSAGE_BREAKS as nat)[0]),
            GatewayOp::SendSeg(spec_chunks(text, MAX_MESSAGE_BREAKS as nat)[1]),
            GatewayOp::SendSeg(spec_chunks(text, MAX_MESSAGE_BREAKS as nat)[2]),
        ],
{
    let cs = spec_chunks(text, MAX_MESSAGE_BREAKS as nat);
    let tail = cs.skip(1).map_values(|c: Seq<char>| GatewayOp::SendSeg(c));
    assert(tail.len() == cs.skip(1).len());
    assert(tail[0] == GatewayOp::SendSeg(cs.skip(1)[0]));
    assert(tail[1] == GatewayOp::SendSeg(cs.skip(1)[1]));
    assert(cs.skip(1)[0] == cs[1]);
    assert(cs.skip(1)[1] == cs[2]);
    assert(seq![GatewayOp::SendSeg(placeholder)] + spec_edit_ops(text) =~= seq![
        GatewayOp::SendSeg(placeholder),
        GatewayOp::EditSeg(cs[0]),
        GatewayOp::SendSeg(cs[1]),
        GatewayOp::SendSeg(cs[2]),
    ]);
}

impl RKBServiceRequest {
    /// Builds the request for one inbound event.  The credential store is
    /// loaded once by the caller and handed in; the resource bag starts
    /// empty.
    pub fn new(
        author_bot: bool,
        author_system: bool,
        content: String,
        channel_id: u64,
        tkn: crate::token::RKBTokens,
    ) -> (r: Self)
        ensures
            r.author_bot == author_bot,
            r.author_system == author_system,
            r.content@ == content@,
            r.channel_id == channel_id,
            r.tkn == tkn,
            r.rsc.active_timers@ == Seq::<i64>::empty(),
    {
        RKBServiceRequest {
            author_bot,
            author_system,
            content,
            channel_id,
            tkn,
            rsc: crate::resource::Resources::default(),
        }
    }

    /// Whether a genuine human user authored the message; only such
    /// messages are ever dispatched.
    pub fn is_user_message(&self) -> (r: bool)
        ensures
            r == (!self.author_bot && !self.author_system),
    {
        !self.author_bot && !self.author_system
    }

    /// Fresh-send delivery plan: the segments of the chunked reply, to be
    /// sent in order; a reply with no segment at all is the distinguishable
    /// empty-send error, not a transport failure.
    pub fn try_send_message(&self, response: String) -> (r: Result<
        std::collections::VecDeque<String>,
        RKBServiceRequestErr,
    >)
        ensures
            response@.len() == 0 ==> r == Err::<
                std::collections::VecDeque<String>,
                RKBServiceRequestErr,
            >(RKBServiceRequestErr::DiscordMessageSendEmpty),
            response@.len() > 0 ==> (r matches Ok(segs) && segs@.len() > 0 && views_of(segs@)
                == spec_chunks(response@, MAX_MESSAGE_BREAKS as nat) && spec_send_ops(response@)
                == views_of(segs@).map_values(|c: Seq<char>| GatewayOp::SendSeg(c))),
    {
        let ghost text = response@;
        let responses = breakdown_string(response);
        if responses.len() == 0 {
            proof {
                assert(views_of(responses@).len() == responses@.len());
                assert(text.len() == 0) by {
                    if text.len() > 0 {
                        assert(spec_chunks(text, MAX_MESSAGE_BREAKS as nat).len() > 0);
                    }
                }
            }
            return Err(RKBServiceRequestErr::DiscordMessageSendEmpty);
        }
        proof {
            assert(views_of(responses@).len() == responses@.len());
            assert(text.len() > 0) by {
                if text.len() == 0 {
                    assert(spec_chunks(text, MAX_MESSAGE_BREAKS as nat) =~= Seq::<
                        Seq<char>,
                    >::empty());
                }
            }
        }
        Ok(responses)
    }

    /// Edit-then-append delivery plan: the first segment replaces the
    /// placeholder in place, the remaining segments follow as fresh sends
    /// in order; an empty result is the distinguishable empty-send error.
    pub fn try_edit_message(&self, response: &str) -> (r: Result<
        (String, std::collections::VecDeque<String>),
        RKBServiceRequestErr,
    >)
        ensures
            response@.len() == 0 ==> r == Err::<
                (String, std::collections::VecDeque<String>),
                RKBServiceRequestErr,
            >(RKBServiceRequestErr::DiscordMessageSendEmpty),
            response@.len() > 0 ==> (r matches Ok(pair) && ({
                let cs = spec_chunks(response@, MAX_MESSAGE_BREAKS as nat);
                pair.0@ == cs[0] && views_of(pair.1@) == cs.skip(1) && spec_edit_ops(response@)
                    == seq![GatewayOp::EditSeg(pair.0@)] + views_of(pair.1@).map_values(
                    |c: Seq<char>| GatewayOp::SendSeg(c),
                )
            })),
    {
        let ghost text = response@;
        let ghost cs = spec_chunks(text, MAX_MESSAGE_BREAKS as nat);
        let mut responses = breakdown_string(response.to_owned());
        let first_response = match responses.pop_front() {
            Option::Some(first) => first,
            Option::None => {
                proof {
                    assert(views_of(responses@).len() == responses@.len());
                    assert(text.len() == 0) by {
                        if text.len() > 0 {
                            assert(cs.len() > 0);
                        }
                    }
                }
                return Err(RKBServiceRequestErr::DiscordMessageSendEmpty);
            },
        };
        proof {
            assert(text.len() > 0) by {
                if text.len() == 0 {
                    assert(cs =~= Seq::<Seq<char>>::empty());
                }
            }
            assert(first_response@ == cs[0]);
            assert(views_of(responses@) =~= cs.skip(1));
        }
        Ok((first_response, responses))
    }

    /// The acknowledgment plan for an unrecognized action token: one short
    /// fixed reply.
    pub fn nonaction(&self) -> (r: Result<
        std::collections::VecDeque<String>,
        RKBServiceRequestErr,
    >)
        ensures
            r matches Ok(segs) && views_of(segs@) == spec_chunks(
                "non-action. 🎣"@,
                MAX_MESSAGE_BREAKS as nat,
            ),
    {
        proof {
            reveal_strlit("non-action. 🎣");
            assert("non-action. 🎣"@.len() == 13);
        }
        self.try_send_message(String::from_str("non-action. 🎣"))
    }

    /// The reply plan for a pinned message whose action is not
    /// re-triggerable: one short fixed reply.
    pub fn nonaction_pinned(&self) -> (r: Result<
        std::collections::VecDeque<String>,
        RKBServiceRequestErr,
    >)
        ensures
            r matches Ok(segs) && views_of(segs@) == spec_chunks(
                "Pinned message is a non-action. 🎣"@,
                MAX_MESSAGE_BREAKS as nat,
            ),
    {
        proof {
            reveal_strlit("Pinned message is a non-action. 🎣");
            assert("Pinned message is a non-action. 🎣"@.len() == 33);
        }
        self.try_send_message(String::from_str("Pinned message is a non-action. 🎣"))
    }
}

/// Whether `c` carries the Unicode `White_Space` property, the set that
/// `str::trim` removes at both ends.
pub open spec fn is_space_char(c: char) -> bool {
    c == ' ' || c == '\t' || c == '\n' || c == '\r' || c == '\u{b}' || c == '\u{c}' || c
        == '\u{85}' || c == '\u{a0}' || c == '\u{1680}' || ('\u{2000}' <= c && c <= '\u{200a}')
        || c == '\u{2028}' || c == '\u{2029}' || c == '\u{202f}' || c == '\u{205f}' || c
        == '\u{3000}'
}

/// Tests `c` for the Unicode `White_Space` property.
pub fn is_space(c: char) -> (r: bool)
    ensures
        r == is_space_char(c),
{
    c == ' ' || c == '\t' || c == '\n' || c == '\r' || c == '\u{b}' || c == '\u{c}' || c
        == '\u{85}' || c == '\u{a0}' || c == '\u{1680}' || ('\u{2000}' <= c && c <= '\u{200a}')
        || c == '\u{2028}' || c == '\u{2029}' || c == '\u{202f}' || c == '\u{205f}' || c
        == '\u{3000}'
}

/// `s` with leading whitespace removed.
pub open spec fn spec_trim_start(s: Seq<char>) -> Seq<char>
    decreases s.len(),
{
    if s.len() > 0 && is_space_char(s[0]) {
        spec_trim_start(s.drop_first())
    } else {
        s
    }
}

/// `s` with trailing whitespace removed.
pub open spec fn spec_trim_end(s: Seq<char>) -> Seq<char>
    decreases s.len(),
{
    if s.len() > 0 && is_space_char(s.last()) {
        spec_trim_end(s.drop_last())
    } else {
        s
    }
}

/// `s` with whitespace removed at both ends.
pub open spec fn spec_trim(s: Seq<char>) -> Seq<char> {
    spec_trim_end(spec_trim_start(s))
}

proof fn lemma_trim_start_at(s: Seq<char>, i: int)
    requires
        0 <= i <= s.len(),
        forall|k: int| 0 <= k < i ==> is_space_char(#[trigger] s[k]),
        i == s.len() || !is_space_char(s[i]),
    ensures
        spec_trim_start(s) == s.skip(i),
    decreases s.len(),
{
    if i == 0 {
        assert(s.skip(0) =~= s);
    } else {
        assert(is_space_char(s[0]));
        assert(forall|k: int| 0 <= k < i - 1 ==> s.drop_first()[k] == s[k + 1]);
        lemma_trim_start_at(s.drop_first(), i - 1);
        assert(s.drop_first().skip(i - 1) =~= s.skip(i));
    }
}

proof fn lemma_trim_end_at(s: Seq<char>, i: int)
    requires
        0 <= i <= s.len(),
        forall|k: int| i <= k < s.len() ==> is_space_char(#[trigger] s[k]),
        i == 0 || !is_space_char(s[i - 1]),
    ensures
        spec_trim_end(s) == s.take(i),
    decreases s.len(),
{
    if i == s.len() {
        assert(s.take(i) =~= s);
    } else {
        assert(is_space_char(s.last()));
        assert(forall|k: int| i <= k < s.len() - 1 ==> s.drop_last()[k] == s[k]);
        lemma_trim_end_at(s.drop_last(), i);
        assert(s.drop_last().take(i) =~= s.take(i));
    }
}

/// Removes whitespace at both ends of `s`.
pub fn trim_str(s: &str) -> (r: String)
    ensures
        r@ == spec_trim(s@),
{
    let n: usize = s.unicode_len();
    let mut a: usize = 0;
    while a < n && is_space(s.get_char(a))
        invariant
            0 <= a <= n,
            n == s@.len(),
            forall|k: int| 0 <= k < a ==> is_space_char(#[trigger] s@[k]),
        decreases n - a,
    {
        a = a + 1;
    }
    proof {
        lemma_trim_start_at(s@, a as int);
    }
    let mut b: usize = n;
    while b > a && is_space(s.get_char(b - 1))
        invariant
            a <= b <= n,
            n == s@.len(),
            forall|k: int| 0 <= k < a ==> is_space_char(#[trigger] s@[k]),
            forall|k: int| b <= k < n ==> is_space_char(#[trigger] s@[k]),
        decreases b,
    {
        b = b - 1;
    }
    proof {
        let t = s@.skip(a as int);
        assert(forall|k: int| b - a <= k < t.len() ==> t[k] == s@[k + a]);
        assert(b - a == 0 || !is_space_char(t[b - a - 1]));
        lemma_trim_end_at(t, b - a);
        assert(t.take(b - a) =~= s@.subrange(a as int, b as int));
    }
    s.substring_char(a, b).to_owned()
}

/// The argument a command's message carries, trimmed: the text after the
/// first space of the prefix-stripped message, with surrounding
/// whitespace removed; none when the message has no space.
pub open spec fn spec_get_content(s: Seq<char>) -> Option<Seq<char>> {
    let t = spec_stripped(s);
    let i = spec_space_idx(t);
    if i < t.len() {
        Some(spec_trim(t.skip(i + 1)))
    } else {
        None
    }
}

impl RKBServiceRequest {
    /// The message's trimmed argument text, when it has one.
    pub fn get_content(&self) -> (r: Option<String>)
        ensures
            r is Some <==> spec_get_content(self.content@) is Some,
            r matches Some(v) ==> spec_get_content(self.content@) == Some(v@),
    {
        let s: &str = self.content.as_str();
        let n: usize = s.unicode_len();
        let mut i: usize = 0;
        while i < n && s.get_char(i) == '?'
            invariant
                0 <= i <= n,
                n == s@.len(),
                forall|k: int| 0 <= k < i ==> s@[k] == '?',
            decreases n - i,
        {
            i = i + 1;
        }
        proof {
            lemma_entry_len_at(s@, i as int);
        }
        let stripped: &str = s.substring_char(i, n);
        proof {
            assert(stripped@ =~= spec_stripped(s@));
        }
        let m: usize = n - i;
        let mut j: usize = 0;
        while j < m && stripped.get_char(j) != ' '
            invariant
                0 <= j <= m,
                m == stripped@.len(),
                forall|k: int| 0 <= k < j ==> stripped@[k] != ' ',
            decreases m - j,
        {
            j = j + 1;
        }
        proof {
            lemma_space_idx_at(stripped@, j as int);
        }
        if j < m {
            let argument: &str = stripped.substring_char(j + 1, m);
            proof {
                assert(argument@ =~= spec_stripped(s@).skip(j + 1));
            }
            Some(trim_str(argument))
        } else {
            None
        }
    }

    /// The help action's delivery plan: the usage text as a fresh send.
    pub fn help(&self) -> (r: Result<std::collections::VecDeque<String>, RKBServiceRequestErr>)
        ensures
            r matches Ok(segs) && views_of(segs@) == spec_chunks(
                crate::action::help::spec_help_text(),
                MAX_MESSAGE_BREAKS as nat,
            ),
    {
        let text = crate::action::help::help_text();
        proof {
            reveal_strlit("```USAGE: \n");
            assert("```USAGE: \n"@.len() == 11);
        }
        self.try_send_message(text)
    }

    /// The timer action's decisions: builds the timer from this message's
    /// argument and the current time; the suspension and the follow-up
    /// notification are the caller's outside work.
    pub fn timer(&self, now: i64) -> (r: Result<
        crate::action::timer::Timer,
        RKBServiceRequestErr,
    >)
        ensures
            ({
                let gc = spec_get_content(self.content@);
                match gc {
                    Option::None => r == Err::<crate::action::timer::Timer, RKBServiceRequestErr>(
                        RKBServiceRequestErr::Timer(
                            crate::action::timer::Error::CannotParseEmptyUserInputTime,
                        ),
                    ),
                    Option::Some(c) => ({
                        let (dtext, recall) = crate::action::timer::spec_timer_split(c);
                        match crate::action::timer::spec_try_deltatime(dtext) {
                            Result::Err(e) => r == Err::<
                                crate::action::timer::Timer,
                                RKBServiceRequestErr,
                            >(RKBServiceRequestErr::Timer(e)),
                            Result::Ok(v) => if v == 0 {
                                r == Err::<crate::action::timer::Timer, RKBServiceRequestErr>(
                                    RKBServiceRequestErr::Timer(
                                        crate::action::timer::Error::CannotParseEmptyUserInputTime,
                                    ),
                                )
                            } else if v < 0 {
                                r == Err::<crate::action::timer::Timer, RKBServiceRequestErr>(
                                    RKBServiceRequestErr::Timer(
                                        crate::action::timer::Error::Overflow,
                                    ),
                                )
                            } else {
                                r matches Ok(t) && t.dob == now && t.delta == v
                                    && t.recalled_message@ == recall
                            },
                        }
                    }),
                }
            }),
    {
        crate::action::timer::Timer::try_new(self.get_content(), now)
    }
}

/// The handler a message routes to.  The routing table is closed: every
/// action token lands on exactly one variant.
#[derive(Debug, Clone, Copy, PartialEq, Eq, Structural)]
pub enum Dispatch {
    /// The message does not begin with the entry prefix: no command at all.
    NotCommand,
    /// The usage text.
    Help,
    /// The weather report.
    Weather,
    /// The geocoding report.
    Geo,
    /// The AI chat, plain mode.
    Chat,
    /// The AI chat, reasoning mode.
    Reason,
    /// A new timer.
    Timer,
    /// An unrecognized action: acknowledged, nothing performed.
    NonAction,
}

/// Whether a message begins with the entry prefix.
pub open spec fn starts_with_entry(s: Seq<char>) -> bool {
    s.len() > 0 && s[0] == '?'
}

/// The routing table over the action token: empty or `help` to the usage
/// text; `weather`, `temperature` and `temp` to the weather report; `geo`
/// to geocoding; `chat` and `reason` to the AI chat; `timer` to a timer;
/// everything else to the no-op acknowledgment.
pub open spec fn spec_route(action: Seq<char>) -> Dispatch {
    if action == "help"@ || action.len() == 0 {
        Dispatch::Help
    } else if action == "weather"@ || action == "temperature"@ || action == "temp"@ {
        Dispatch::Weather
    } else if action == "geo"@ {
        Dispatch::Geo
    } else if action == "chat"@ {
        Dispatch::Chat
    } else if action == "reason"@ {
        Dispatch::Reason
    } else if action == "timer"@ {
        Dispatch::Timer
    } else {
        Dispatch::NonAction
    }
}

/// What normal dispatch decides for a message: nothing for a message
/// without the entry prefix, else the routing table applied to the
/// extracted action token.
pub open spec fn spec_handle_message(content: Seq<char>) -> Dispatch {
    if !starts_with_entry(content) {
        Dispatch::NotCommand
    } else {
        spec_route(spec_split_action(content).0)
    }
}

/// Routes one action token through the routing table.
pub fn route_action(action: &str) -> (d: Dispatch)
    ensures
        d == spec_route(action@),
{
    if str_eq(action, "help") || action.unicode_len() == 0 {
        Dispatch::Help
    } else if str_eq(action, "weather") || str_eq(action, "temperature") || str_eq(
        action,
        "temp",
    ) {
        Dispatch::Weather
    } else if str_eq(action, "geo") {
        Dispatch::Geo
    } else if str_eq(action, "chat") {
        Dispatch::Chat
    } else if str_eq(action, "reason") {
        Dispatch::Reason
    } else if str_eq(action, "timer") {
        Dispatch::Timer
    } else {
        Dispatch::NonAction
    }
}

/// Dispatch routing-table completeness law: every defined action token
/// routes to exactly its documented handler and to no other, and an
/// unrecognized token routes to the no-op acknowledgment alone; prefixed
/// dispatch never claims a message is no command.
pub proof fn lemma_routing_table(action: Seq<char>)
    ensures
        spec_route(action) == Dispatch::Help <==> (action == "help"@ || action.len() == 0),
        spec_route(action) == Dispatch::Weather <==> (action == "weather"@ || action
            == "temperature"@ || action == "temp"@),
        spec_route(action) == Dispatch::Geo <==> action == "geo"@,
        spec_route(action) == Dispatch::Chat <==> action == "chat"@,
        spec_route(action) == Dispatch::Reason <==> action == "reason"@,
        spec_route(action) == Dispatch::Timer <==> action == "timer"@,
        spec_route(action) != Dispatch::NotCommand,
{
    reveal_strlit("help");
    reveal_strlit("weather");
    reveal_strlit("temperature");
    reveal_strlit("temp");
    reveal_strlit("geo");
    reveal_strlit("chat");
    reveal_strlit("reason");
    reveal_strlit("timer");
    assert("help"@.len() == 4);
    assert("weather"@.len() == 7);
    assert("temperature"@.len() == 11);
    assert("temp"@.len() == 4);
    assert("geo"@.len() == 3);
    assert("chat"@.len() == 4);
    assert("reason"@.len() == 6);
    assert("timer"@.len() == 5);
    assert("help"@[0] == 'h' && "temp"@[0] == 't' && "chat"@[0] == 'c');
}

/// Index of the first pinned message that begins with the entry prefix,
/// or the pin count when none does.  The pin order is the gateway's own;
/// the first match wins.
pub open spec fn spec_first_entry_pin(pins: Seq<Seq<char>>) -> int
    decreases pins.len(),
{
    if pins.len() == 0 {
        0
    } else if starts_with_entry(pins[0]) {
        0
    } else {
        1 + spec_first_entry_pin(pins.drop_first())
    }
}

/// The active pinned directive: the first pinned command, split into its
/// action and argument; none when no pinned message is a command.
pub open spec fn spec_pinned_directive(pins: Seq<Seq<char>>) -> Option<(Seq<char>, Seq<char>)> {
    let i = spec_first_entry_pin(pins);
    if i < pins.len() {
        Some(spec_split_action(pins[i]))
    } else {
        None
    }
}

proof fn lemma_first_entry_pin_at(pins: Seq<Seq<char>>, i: int)
    requires
        0 <= i <= pins.len(),
        forall|k: int| 0 <= k < i ==> !starts_with_entry(#[trigger] pins[k]),
        i == pins.len() || starts_with_entry(pins[i]),
    ensures
        spec_first_entry_pin(pins) == i,
    decreases pins.len(),
{
    if i == 0 {
    } else {
        assert(!starts_with_entry(pins[0]));
        assert(forall|k: int| 0 <= k < i - 1 ==> pins.drop_first()[k] == pins[k + 1]);
        lemma_first_entry_pin_at(pins.drop_first(), i - 1);
    }
}

/// What a pinned-directive check decides.
#[derive(Debug, Clone)]
pub enum PinnedDecision {
    /// No pinned message is a command: normal dispatch proceeds.
    NoDirective,
    /// The pinned directive re-triggers the AI chat, with the pinned
    /// argument as the standing instruction.
    Chat(String),
    /// The pinned command is not re-triggerable: the distinct pinned
    /// non-action reply goes out, and normal dispatch is skipped.
    NonActionPinned,
}

/// The ghost-level picture of a pinned-directive check.
pub enum PinnedOutcome {
    /// No pinned message is a command.
    NoDirective,
    /// The AI chat re-triggers with this standing instruction.
    Chat(Seq<char>),
    /// The pinned command is not re-triggerable.
    NonActionPinned,
}

/// What the pinned-directive check decides over the pin list's views.
pub open spec fn spec_pinned_handle(pins: Seq<Seq<char>>) -> PinnedOutcome {
    match spec_pinned_directive(pins) {
        Option::None => PinnedOutcome::NoDirective,
        Option::Some(p) => if p.0 == "chat"@ {
            PinnedOutcome::Chat(p.1)
        } else {
            PinnedOutcome::NonActionPinned
        },
    }
}

/// Whether an executable pinned decision carries exactly the specified
/// outcome.
pub open spec fn pinned_matches(d: PinnedDecision, m: PinnedOutcome) -> bool {
    match (d, m) {
        (PinnedDecision::NoDirective, PinnedOutcome::NoDirective) => true,
        (PinnedDecision::Chat(p), PinnedOutcome::Chat(c)) => p@ == c,
        (PinnedDecision::NonActionPinned, PinnedOutcome::NonActionPinned) => true,
        _ => false,
    }
}

/// What dispatch decides for one inbound event, over plain values: a
/// non-human author is filtered before anything else; then an active
/// pinned directive takes priority; only then does normal dispatch route
/// the message itself.
pub enum MessageOutcome {
    /// The author is a bot or a system account: nothing runs.
    Filtered,
    /// A pinned directive took over; normal dispatch was skipped.
    Pinned(PinnedOutcome),
    /// Normal dispatch routed the message.
    Dispatched(Dispatch),
}

/// The decision for one inbound event, over the message's and the pin
/// list's views.
pub open spec fn spec_decide_message(
    author_bot: bool,
    author_system: bool,
    content: Seq<char>,
    pins: Seq<Seq<char>>,
) -> MessageOutcome {
    if author_bot || author_system {
        MessageOutcome::Filtered
    } else if spec_pinned_handle(pins) is NoDirective {
        MessageOutcome::Dispatched(spec_handle_message(content))
    } else {
        MessageOutcome::Pinned(spec_pinned_handle(pins))
    }
}

/// What dispatch decided for one inbound event.
#[derive(Debug, Clone)]
pub enum Decision {
    /// The author is a bot or a system account: nothing runs.
    Filtered,
    /// A pinned directive took over; normal dispatch was skipped.
    Pinned(PinnedDecision),
    /// Normal dispatch routed the message.
    Dispatched(Dispatch),
}

/// Whether an executable decision carries exactly the specified outcome.
pub open spec fn decision_matches(d: Decision, m: MessageOutcome) -> bool {
    match (d, m) {
        (Decision::Filtered, MessageOutcome::Filtered) => true,
        (Decision::Pinned(p), MessageOutcome::Pinned(po)) => pinned_matches(p, po),
        (Decision::Dispatched(h), MessageOutcome::Dispatched(hh)) => h == hh,
        _ => false,
    }
}

/// Non-human filtering law: a message authored by the bot itself or by a
/// system account never triggers any handler, pinned or otherwise.
pub proof fn lemma_non_human_filtering(
    author_bot: bool,
    author_system: bool,
    content: Seq<char>,
    pins: Seq<Seq<char>>,
)
    requires
        author_bot || author_system,
    ensures
        spec_decide_message(author_bot, author_system, content, pins)
            == MessageOutcome::Filtered,
{
}

/// Pinned-directive precedence law: for a human-authored message in a
/// channel whose first pinned command carries the `chat` action, dispatch
/// invokes the AI chat with the pinned argument as standing instruction,
/// and normal routing of the message itself is never consulted — whatever
/// the message says.
pub proof fn lemma_pinned_directive_precedence(
    author_bot: bool,
    author_system: bool,
    content: Seq<char>,
    pins: Seq<Seq<char>>,
    instruction: Seq<char>,
)
    requires
        !author_bot,
        !author_system,
        spec_pinned_directive(pins) == Some(("chat"@, instruction)),
    ensures
        spec_decide_message(author_bot, author_system, content, pins)
            == MessageOutcome::Pinned(PinnedOutcome::Chat(instruction)),
{
}

impl RKBServiceRequest {
    /// Routes the message through normal dispatch: nothing for a message
    /// without the entry prefix, else the routing table applied to the
    /// extracted action token.
    pub fn handle_message(&self) -> (d: Dispatch)
        ensures
            d == spec_handle_message(self.content@),
    {
        let s: &str = self.content.as_str();
        let n: usize = s.unicode_len();
        if n == 0 {
            return Dispatch::NotCommand;
        }
        if s.get_char(0) != '?' {
            return Dispatch::NotCommand;
        }
        let (action, _content) = split_action(self.content.clone());
        route_action(action.as_str())
    }

    /// Checks the channel's pinned messages for a standing directive: the
    /// first pinned command wins; a pinned `chat` command re-triggers the
    /// AI chat with the pinned argument as instruction, any other pinned
    /// command gets the distinct pinned non-action reply.
    pub fn pinned_handle_message(&self, pinned_messages: &Vec<String>) -> (d: PinnedDecision)
        ensures
            pinned_matches(d, spec_pinned_handle(views_of(pinned_messages@))),
    {
        let ghost pv = views_of(pinned_messages@);
        proof {
            assert(pv.len() == pinned_messages@.len());
            assert(forall|k: int|
                0 <= k < pv.len() ==> pv[k] == (#[trigger] pinned_messages@[k])@);
        }
        let mut i: usize = 0;
        while i < pinned_messages.len()
            invariant
                0 <= i <= pinned_messages@.len(),
                pv == views_of(pinned_messages@),
                pv.len() == pinned_messages@.len(),
                forall|k: int| 0 <= k < pv.len() ==> pv[k] == (#[trigger] pinned_messages@[k])@,
                forall|k: int| 0 <= k < i ==> !starts_with_entry(#[trigger] pv[k]),
            decreases pinned_messages@.len() - i,
        {
            let p: &str = pinned_messages[i].as_str();
            let n: usize = p.unicode_len();
            if n > 0 && p.get_char(0) == '?' {
                proof {
                    lemma_first_entry_pin_at(pv, i as int);
                }
                let (pinned_action, pinned_content) = split_action(pinned_messages[i].clone());
                if str_eq(pinned_action.as_str(), "chat") {
                    return PinnedDecision::Chat(pinned_content);
                }
                return PinnedDecision::NonActionPinned;
            }
            i = i + 1;
        }
        proof {
            lemma_first_entry_pin_at(pv, pv.len() as int);
        }
        PinnedDecision::NoDirective
    }

    /// Decides one inbound event end to end: filter non-human authors,
    /// then let an active pinned directive take priority, then route the
    /// message through normal dispatch.
    pub fn decide_message(&self, pinned_messages: &Vec<String>) -> (d: Decision)
        ensures
            decision_matches(
                d,
                spec_decide_message(
                    self.author_bot,
                    self.author_system,
                    self.content@,
                    views_of(pinned_messages@),
                ),
            ),
    {
        if !self.is_user_message() {
            return Decision::Filtered;
        }
        match self.pinned_handle_message(pinned_messages) {
            PinnedDecision::NoDirective => Decision::Dispatched(self.handle_message()),
            PinnedDecision::Chat(preprompt) => Decision::Pinned(PinnedDecision::Chat(preprompt)),
            PinnedDecision::NonActionPinned => Decision::Pinned(PinnedDecision::NonActionPinned),
        }
    }
}

} // verus!
