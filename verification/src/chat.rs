//! An OpenAI-compatible chat endpoint as the client talks to it: the route
//! a configuration resolves to, and the conversation carried per call —
//! the system prompt plus the most recent turns, up to a cap.

use vstd::prelude::*;
use vstd::string::StringExecFns;

use crate::text::{chars_of, string_of};

verus! {

broadcast use vstd::string::group_string_axioms;

/// System prompt plus 20 user/assistant pairs.
pub const DEFAULT_MAX_MESSAGES: usize = 41;

/// Below this the trim would drop the system prompt or the turn being sent.
pub const MIN_MAX_MESSAGES: usize = 3;

/// Why a configuration names no endpoint.
#[derive(Debug, Clone, Copy, PartialEq, Eq, Structural)]
pub enum EndpointError {
    NoBaseUrl,
    NoModel,
}

impl EndpointError {
    /// The error as the operator reads it.
    pub fn message(self) -> (r: &'static str)
        ensures
            r@ == match self {
                EndpointError::NoBaseUrl => "openai.base_url is not set"@,
                EndpointError::NoModel => "openai.model is not set"@,
            },
    {
        match self {
            EndpointError::NoBaseUrl => "openai.base_url is not set",
            EndpointError::NoModel => "openai.model is not set",
        }
    }
}

/// Where and how a configuration talks: the completions URL, the model, the
/// reasoning effort to send (none: the field is left out), and how many
/// messages of history a call carries.
#[derive(Debug)]
pub struct ChatRoute {
    pub url: String,
    pub model: String,
    pub reasoning_effort: Option<String>,
    pub max_messages: usize,
}

/// `s` without its trailing `c`s (`str::trim_end_matches`).
pub open spec fn trim_end_char(s: Seq<char>, c: char) -> Seq<char>
    decreases s.len(),
{
    if s.len() > 0 && s.last() == c {
        trim_end_char(s.drop_last(), c)
    } else {
        s
    }
}

/// The completions URL of a base URL: its trailing slashes dropped, then
/// the path appended once.
pub open spec fn completions_url(base: Seq<char>) -> Seq<char> {
    trim_end_char(base, '/') + "/chat/completions"@
}

/// The route a configuration resolves to: refused without a base URL or a
/// model; an empty reasoning effort leaves the field out; the history cap is
/// clamped up to the floor, not rejected, so a bad value still starts.
pub open spec fn route_spec(base: Seq<char>, model: Seq<char>, effort: Seq<char>, max_messages: usize) -> Result<
    (Seq<char>, Seq<char>, Option<Seq<char>>, usize),
    EndpointError,
> {
    if base.len() == 0 {
        Err(EndpointError::NoBaseUrl)
    } else if model.len() == 0 {
        Err(EndpointError::NoModel)
    } else {
        Ok(
            (
                completions_url(base),
                model,
                if effort.len() == 0 {
                    None
                } else {
                    Some(effort)
                },
                if max_messages < MIN_MAX_MESSAGES {
                    MIN_MAX_MESSAGES
                } else {
                    max_messages
                },
            ),
        )
    }
}

/// The route a configuration resolves to.
pub fn chat_route(base_url: &str, model: &str, reasoning_effort: &str, max_messages: usize) -> (r: Result<
    ChatRoute,
    EndpointError,
>)
    ensures
        match r {
            Ok(route) => route_spec(base_url@, model@, reasoning_effort@, max_messages) == Ok::<
                (Seq<char>, Seq<char>, Option<Seq<char>>, usize),
                EndpointError,
            >(
                (
                    route.url@,
                    route.model@,
                    match route.reasoning_effort {
                        Some(e) => Some(e@),
                        None => None,
                    },
                    route.max_messages,
                ),
            ),
            Err(e) => route_spec(base_url@, model@, reasoning_effort@, max_messages) == Err::<
                (Seq<char>, Seq<char>, Option<Seq<char>>, usize),
                EndpointError,
            >(e),
        },
{
    let base = chars_of(base_url);
    if base.len() == 0 {
        return Err(EndpointError::NoBaseUrl);
    }
    let m = chars_of(model);
    if m.len() == 0 {
        return Err(EndpointError::NoModel);
    }
    let mut end: usize = base.len();
    assert(base@.take(end as int) =~= base@);
    while end > 0 && base[end - 1] == '/'
        invariant
            end <= base@.len(),
            trim_end_char(base@, '/') == trim_end_char(base@.take(end as int), '/'),
        decreases end,
    {
        assert(base@.take(end as int).drop_last() == base@.take(end - 1));
        end -= 1;
    }
    assert(trim_end_char(base@.take(end as int), '/') == base@.take(end as int));
    let mut url = string_of(&base, 0, end);
    assert(base@.subrange(0, end as int) == base@.take(end as int));
    url.append("/chat/completions");
    let effort = if chars_of(reasoning_effort).len() == 0 {
        None
    } else {
        Some(reasoning_effort.to_owned())
    };
    let cap: usize = if max_messages < MIN_MAX_MESSAGES {
        MIN_MAX_MESSAGES
    } else {
        max_messages
    };
    Ok(ChatRoute { url, model: model.to_owned(), reasoning_effort: effort, max_messages: cap })
}

/// One message of a conversation.
#[derive(Debug)]
pub struct ChatMessage {
    pub role: String,
    pub content: String,
}

impl View for ChatMessage {
    type V = (Seq<char>, Seq<char>);

    open spec fn view(&self) -> (Seq<char>, Seq<char>) {
        (self.role@, self.content@)
    }
}

/// The messages of a conversation, as values.
pub open spec fn message_views(ms: Seq<ChatMessage>) -> Seq<(Seq<char>, Seq<char>)> {
    ms.map_values(|m: ChatMessage| m@)
}

/// A copy of a message.
pub fn copy_message(m: &ChatMessage) -> (r: ChatMessage)
    ensures
        r@ == m@,
{
    ChatMessage { role: m.role.clone(), content: m.content.clone() }
}

/// A conversation cut to `cap` messages: the system prompt kept, then the
/// most recent ones.
pub open spec fn trimmed(turn: Seq<(Seq<char>, Seq<char>)>, cap: int) -> Seq<(Seq<char>, Seq<char>)> {
    if turn.len() > cap {
        seq![turn[0]] + turn.subrange(turn.len() - (cap - 1), turn.len() as int)
    } else {
        turn
    }
}

/// What the next call sends: the history (opened with the system prompt
/// when it is empty), the user's turn appended, then cut to the cap — at
/// least `MIN_MAX_MESSAGES`, so neither the system prompt nor the turn
/// being sent is ever dropped.
pub open spec fn next_turn_spec(
    history: Seq<(Seq<char>, Seq<char>)>,
    system_prompt: Seq<char>,
    content: Seq<char>,
    max_messages: usize,
) -> Seq<(Seq<char>, Seq<char>)> {
    let opened = if history.len() == 0 {
        seq![("system"@, system_prompt)]
    } else {
        history
    };
    let cap = if max_messages < MIN_MAX_MESSAGES {
        MIN_MAX_MESSAGES as int
    } else {
        max_messages as int
    };
    trimmed(opened.push(("user"@, content)), cap)
}

/// The messages the next call sends, built aside so the history is
/// committed only once the call comes back.
pub fn next_turn(
    history: &Vec<ChatMessage>,
    system_prompt: &str,
    content: &str,
    max_messages: usize,
) -> (r: Vec<ChatMessage>)
    requires
        history@.len() < usize::MAX,
    ensures
        message_views(r@) == next_turn_spec(
            message_views(history@),
            system_prompt@,
            content@,
            max_messages,
        ),
{
    let ghost hv = message_views(history@);
    let mut turn: Vec<ChatMessage> = Vec::new();
    if history.len() == 0 {
        turn.push(ChatMessage { role: String::from_str("system"), content: system_prompt.to_owned() });
        proof {
            reveal_strlit("system");
        }
        assert(message_views(turn@) =~= seq![("system"@, system_prompt@)]);
    } else {
        let mut k: usize = 0;
        while k < history.len()
            invariant
                k <= history@.len(),
                hv == message_views(history@),
                message_views(turn@) == hv.take(k as int),
            decreases history@.len() - k,
        {
            turn.push(copy_message(&history[k]));
            assert(hv.take(k + 1) =~= hv.take(k as int).push(history@[k as int]@));
            assert(message_views(turn@) =~= hv.take(k + 1));
            k += 1;
        }
        assert(hv.take(k as int) == hv);
    }
    let ghost opened = message_views(turn@);
    turn.push(ChatMessage { role: String::from_str("user"), content: content.to_owned() });
    proof {
        reveal_strlit("user");
    }
    assert(message_views(turn@) =~= opened.push(("user"@, content@)));
    let cap: usize = if max_messages < MIN_MAX_MESSAGES {
        MIN_MAX_MESSAGES
    } else {
        max_messages
    };
    trim_history(turn, cap)
}

/// Keep the system prompt plus the most recent messages, `cap` in all.
pub fn trim_history(turn: Vec<ChatMessage>, cap: usize) -> (r: Vec<ChatMessage>)
    requires
        cap >= 1,
    ensures
        message_views(r@) == trimmed(message_views(turn@), cap as int),
{
    let ghost tv = message_views(turn@);
    if turn.len() <= cap {
        return turn;
    }
    let keep_from: usize = turn.len() - (cap - 1);
    let mut out: Vec<ChatMessage> = Vec::new();
    let first = copy_message(&turn[0]);
    assert(first@ == tv[0]);
    out.push(first);
    assert(message_views(out@) =~= seq![tv[0]] + tv.subrange(keep_from as int, keep_from as int));
    let mut k: usize = keep_from;
    while k < turn.len()
        invariant
            keep_from <= k <= turn@.len(),
            keep_from == turn@.len() - (cap - 1),
            tv == message_views(turn@),
            turn@.len() > cap,
            message_views(out@) == seq![tv[0]] + tv.subrange(keep_from as int, k as int),
        decreases turn@.len() - k,
    {
        let ghost before = message_views(out@);
        let m = copy_message(&turn[k]);
        assert(m@ == tv[k as int]);
        out.push(m);
        assert(message_views(out@) =~= before.push(tv[k as int]));
        assert(tv.subrange(keep_from as int, k + 1) =~= tv.subrange(keep_from as int, k as int).push(
            tv[k as int],
        ));
        assert(message_views(out@) =~= seq![tv[0]] + tv.subrange(keep_from as int, k + 1));
        k += 1;
    }
    out
}

/// The history kept after a call: what was sent, then the reply.
pub fn commit_reply(sent: Vec<ChatMessage>, reply: &str) -> (r: Vec<ChatMessage>)
    requires
        sent@.len() < usize::MAX,
    ensures
        message_views(r@) == message_views(sent@).push(("assistant"@, reply@)),
{
    let mut history = sent;
    let ghost before = message_views(history@);
    history.push(ChatMessage { role: String::from_str("assistant"), content: reply.to_owned() });
    proof {
        reveal_strlit("assistant");
    }
    assert(message_views(history@) =~= before.push(("assistant"@, reply@)));
    history
}

/// A call's history keeps the system prompt first, ends with the turn
/// being sent, and never carries more than the cap.
pub proof fn law_the_cut_keeps_the_system_prompt_and_the_turn(
    history: Seq<(Seq<char>, Seq<char>)>,
    system_prompt: Seq<char>,
    content: Seq<char>,
    max_messages: usize,
)
    ensures
        ({
            let t = next_turn_spec(history, system_prompt, content, max_messages);
            let cap = if max_messages < MIN_MAX_MESSAGES {
                MIN_MAX_MESSAGES as int
            } else {
                max_messages as int
            };
            &&& t.len() <= cap
            &&& t.len() >= 2
            &&& t[0] == (if history.len() == 0 {
                ("system"@, system_prompt)
            } else {
                history[0]
            })
            &&& t.last() == ("user"@, content)
        }),
{
}

/// The cut keeps the most recent messages in order: after the first, the
/// messages sent are exactly the last ones of the uncut conversation.
pub proof fn law_the_cut_keeps_the_latest_in_order(turn: Seq<(Seq<char>, Seq<char>)>, cap: int)
    requires
        cap >= 1,
        turn.len() > 0,
    ensures
        trimmed(turn, cap).drop_first() =~= turn.subrange(
            turn.len() - (trimmed(turn, cap).len() - 1),
            turn.len() as int,
        ),
{
}

} // verus!
