//! History management and message formatting for channels.

use crate::agent::message::{
    assistant_text, has_tool_call, is_assistant_text, AssistantContent, Message, PromptError,
    UserContent,
};
use crate::assoc::{find_member, law_last_pair_counts, law_what_is_found_is_there, member};
use crate::json::{find_flag, find_text, flag_of, json_member_text, parse_member_text, text_of, JsonValue};
use crate::messages::{InboundMessage, MESSAGE_ID, REPLY_TO_TEXT};
use crate::text::{
    ascii_lower, chars_of, contains, is_prefix, is_white_space, law_blank_is_white_space, occurs_in,
    text_eq, to_ascii_lower, trim, trimmed, view_of,
};
use vstd::prelude::*;
use vstd::string::*;

verus! {

/// The text of a reply that an item of a message asks for.
pub open spec fn reply_of_item(item: AssistantContent) -> Option<Seq<char>> {
    match item {
        AssistantContent::ToolCall(call) => if call.name@ == "reply"@ {
            text_of(member(call.arguments@, "content"@))
        } else {
            None
        },
        _ => None,
    }
}

/// The text of the first reply among the items of a message.
pub open spec fn reply_in(items: Seq<AssistantContent>) -> Option<Seq<char>>
    decreases items.len(),
{
    if items.len() == 0 {
        None
    } else if reply_of_item(items[0]) is Some {
        reply_of_item(items[0])
    } else {
        reply_in(items.drop_first())
    }
}

/// The text of the first reply that a message asks for.
pub open spec fn reply_of_message(message: Message) -> Option<Seq<char>> {
    match message {
        Message::Assistant { content, .. } => reply_in(content@),
        _ => None,
    }
}

/// The text of the first reply among messages.
pub open spec fn reply_of(messages: Seq<Message>) -> Option<Seq<char>>
    decreases messages.len(),
{
    if messages.len() == 0 {
        None
    } else if reply_of_message(messages[0]) is Some {
        reply_of_message(messages[0])
    } else {
        reply_of(messages.drop_first())
    }
}

/// Whether a message is a user prompt: text and nothing else.
pub open spec fn is_user_text(message: Message) -> bool {
    match message {
        Message::User { content } => forall|i: int|
            0 <= i < content@.len() ==> #[trigger] content@[i] is Text,
        _ => false,
    }
}

/// The position of the first user prompt, from `from` on.
pub open spec fn first_user_text(messages: Seq<Message>, from: int) -> Option<int>
    decreases messages.len() - from,
{
    if from < 0 || from >= messages.len() {
        None
    } else if is_user_text(messages[from]) {
        Some(from)
    } else {
        first_user_text(messages, from + 1)
    }
}

/// Whether a message is the one that stands in while work runs in the
/// background.
pub open spec fn is_bridge(message: Message) -> bool {
    match message {
        Message::Assistant { content, .. } => exists|i: int|
            0 <= i < content@.len() && #[trigger] content@[i] is Text && occurs_in(
                "[acknowledged"@,
                content@[i]->Text_0@,
            ),
        _ => false,
    }
}

/// A history without the stand-in message at its end, if there is one.
pub open spec fn without_bridge(history: Seq<Message>) -> Seq<Message> {
    if history.len() > 0 && is_bridge(history.last()) {
        history.drop_last()
    } else {
        history
    }
}

/// Whether `after` is `base` with a reply at its end, where there is one.
pub open spec fn with_reply(base: Seq<Message>, reply: Option<Seq<char>>, after: Seq<Message>) -> bool {
    match reply {
        Some(text) => after.len() == base.len() + 1 && after.drop_last() == base
            && is_assistant_text(after.last(), text),
        None => after == base,
    }
}

/// What a turn that was cancelled leaves of a history. `appended` is what the
/// turn had added.
pub open spec fn is_after_cancelled(
    before: Seq<Message>,
    appended: Seq<Message>,
    is_retrigger: bool,
    after: Seq<Message>,
) -> bool {
    if is_retrigger {
        with_reply(without_bridge(before), reply_of(appended), after)
    } else {
        with_reply(
            match first_user_text(appended, 0) {
                Some(i) => before.push(appended[i]),
                None => before,
            },
            reply_of(appended),
            after,
        )
    }
}

/// What a turn leaves of a history: everything where it ended in order, a clean
/// excerpt where it was cancelled, and nothing where it failed.
pub open spec fn is_history_after(
    result: Result<String, PromptError>,
    before: Seq<Message>,
    history: Seq<Message>,
    history_len_before: int,
    is_retrigger: bool,
    after: Seq<Message>,
) -> bool {
    match result {
        Ok(_) => after == history,
        Err(PromptError::MaxTurnsError) => after == history,
        Err(PromptError::PromptCancelled { .. }) => is_after_cancelled(
            before,
            history.skip(history_len_before),
            is_retrigger,
            after,
        ),
        Err(_) => after == if before.len() <= history_len_before {
            before
        } else {
            before.take(history_len_before)
        },
    }
}

/// Write history back after the agentic loop completes.
///
/// On success or where the turns were used up, the history that the loop built is
/// consistent and is kept. A cancelled turn carries the assistant's tool call but
/// no tool result: what is kept is the first user prompt and the text of the
/// reply, as a clean message; a retrigger keeps the reply alone, in place of the
/// stand-in message. After any other error the history is cut back.
///
/// Returns true when a cancelled retrigger turn had a reply that was kept.
pub fn apply_history_after_turn(
    result: &Result<String, PromptError>,
    guard: &mut Vec<Message>,
    history: Vec<Message>,
    history_len_before: usize,
    _channel_id: &str,
    is_retrigger: bool,
) -> (preserved: bool)
    requires
        *result matches Err(PromptError::PromptCancelled { .. }) ==> history_len_before
            <= history@.len(),
    ensures
        is_history_after(
            *result,
            old(guard)@,
            history@,
            history_len_before as int,
            is_retrigger,
            final(guard)@,
        ),
        preserved <==> is_retrigger && (*result matches Err(PromptError::PromptCancelled { .. }))
            && reply_of(history@.skip(history_len_before as int)) is Some,
        preserved <==> is_retrigger && (*result matches Err(PromptError::PromptCancelled { .. }))
            && exists|m: int, k: int, text: Seq<char>|
            history_len_before <= m < history@.len() && #[trigger] calls_reply(
                history@[m],
                k,
                text,
            ),
{
    proof {
        if history_len_before <= history@.len() {
            lemma_reply_of(history@, history_len_before as int);
        }
    }
    match result {
        Ok(_) => {
            *guard = history;
            false
        },
        Err(PromptError::MaxTurnsError) => {
            *guard = history;
            false
        },
        Err(PromptError::PromptCancelled { .. }) => {
            let ghost whole = history@;
            let mut history = history;
            let mut appended = history.split_off(history_len_before);
            assert(appended@ =~= whole.skip(history_len_before as int));
            let reply = extract_reply_content_from_cancelled_history(&appended);
            if is_retrigger {
                let _replaced = pop_retrigger_bridge_message(guard);
                match reply {
                    Some(text) => {
                        let ghost base = guard@;
                        guard.push(assistant_text(text));
                        assert(guard@.drop_last() =~= base);
                        true
                    },
                    None => false,
                }
            } else {
                match find_user_text(&appended) {
                    Some(index) => {
                        let message = appended.remove(index);
                        guard.push(message);
                    },
                    None => {},
                }
                match reply {
                    Some(text) => {
                        let ghost base = guard@;
                        guard.push(assistant_text(text));
                        assert(guard@.drop_last() =~= base);
                    },
                    None => {},
                }
                false
            }
        },
        Err(_) => {
            if guard.len() > history_len_before {
                guard.truncate(history_len_before);
                assert(guard@ =~= old(guard)@.take(history_len_before as int));
            }
            false
        },
    }
}

fn find_user_text(messages: &Vec<Message>) -> (found: Option<usize>)
    ensures
        match found {
            Some(i) => i < messages@.len() && first_user_text(messages@, 0) == Some(i as int),
            None => first_user_text(messages@, 0) is None,
        },
{
    let mut i: usize = 0;
    while i < messages.len()
        invariant
            i <= messages.len(),
            first_user_text(messages@, 0) == first_user_text(messages@, i as int),
        decreases messages.len() - i,
    {
        if is_user_text_message(&messages[i]) {
            return Some(i);
        }
        i = i + 1;
    }
    None
}

/// Takes the stand-in message off the end of a history, if it is there.
pub fn pop_retrigger_bridge_message(history: &mut Vec<Message>) -> (popped: bool)
    ensures
        final(history)@ == without_bridge(old(history)@),
        popped == (old(history)@.len() > 0 && is_bridge(old(history)@.last())),
{
    if history.len() > 0 && is_retrigger_bridge_message(&history[history.len() - 1]) {
        let _bridge = history.pop();
        true
    } else {
        false
    }
}

fn is_retrigger_bridge_message(message: &Message) -> (result: bool)
    ensures
        result == is_bridge(*message),
{
    match message {
        Message::Assistant { content, .. } => {
            let mut i: usize = 0;
            while i < content.len()
                invariant
                    i <= content.len(),
                    *message matches Message::Assistant { content: inner, .. } && inner == *content,
                    forall|k: int|
                        0 <= k < i ==> !(#[trigger] content@[k] is Text && occurs_in(
                            "[acknowledged"@,
                            content@[k]->Text_0@,
                        )),
                decreases content.len() - i,
            {
                match &content[i] {
                    AssistantContent::Text(text) => {
                        if contains(text.as_str(), "[acknowledged") {
                            assert(content@[i as int] is Text);
                            return true;
                        }
                    },
                    _ => {},
                }
                i = i + 1;
            }
            false
        },
        _ => false,
    }
}

fn reply_item_text(item: &AssistantContent) -> (reply: Option<String>)
    ensures
        view_of(reply) == reply_of_item(*item),
{
    match item {
        AssistantContent::ToolCall(call) => if text_eq(call.name.as_str(), "reply") {
            match find_text(&call.arguments, "content") {
                Some(text) => Some(text.to_owned()),
                None => None,
            }
        } else {
            None
        },
        _ => None,
    }
}

/// The text of the reply that a cancelled turn's assistant message asks for.
pub fn extract_reply_content_from_cancelled_history(messages: &Vec<Message>) -> (reply: Option<String>)
    ensures
        view_of(reply) == reply_of(messages@),
{
    let mut i: usize = 0;
    assert(messages@.skip(0) =~= messages@);
    while i < messages.len()
        invariant
            i <= messages.len(),
            reply_of(messages@) == reply_of(messages@.skip(i as int)),
        decreases messages.len() - i,
    {
        assert(messages@.skip(i as int).drop_first() =~= messages@.skip(i + 1));
        match &messages[i] {
            Message::Assistant { content, .. } => {
                let mut k: usize = 0;
                assert(content@.skip(0) =~= content@);
                while k < content.len()
                    invariant
                        i < messages.len(),
                        messages@[i as int] matches Message::Assistant { content: inner, .. }
                            && inner == *content,
                        k <= content.len(),
                        reply_in(content@) == reply_in(content@.skip(k as int)),
                        reply_of(messages@) == reply_of(messages@.skip(i as int)),
                    decreases content.len() - k,
                {
                    assert(content@.skip(k as int).drop_first() =~= content@.skip(k + 1));
                    let reply = reply_item_text(&content[k]);
                    if reply.is_some() {
                        assert(reply_of_message(messages@[i as int]) == view_of(reply));
                        return reply;
                    }
                    k = k + 1;
                }
                assert(reply_of_message(messages@[i as int]) is None);
            },
            _ => {},
        }
        i = i + 1;
    }
    None
}

/// Returns true if a message is a user message of text and nothing else.
fn is_user_text_message(message: &Message) -> (result: bool)
    ensures
        result == is_user_text(*message),
{
    match message {
        Message::User { content } => {
            let mut i: usize = 0;
            while i < content.len()
                invariant
                    i <= content.len(),
                    *message matches Message::User { content: inner } && inner == *content,
                    forall|k: int| 0 <= k < i ==> #[trigger] content@[k] is Text,
                decreases content.len() - i,
            {
                let is_text = match &content[i] {
                    UserContent::Text(_) => true,
                    _ => false,
                };
                if !is_text {
                    assert(!(content@[i as int] is Text));
                    return false;
                }
                i = i + 1;
            }
            true
        },
        _ => false,
    }
}

proof fn lemma_first_user_text(messages: Seq<Message>, from: int)
    requires
        0 <= from,
    ensures
        first_user_text(messages, from) matches Some(i) ==> from <= i < messages.len()
            && is_user_text(messages[i]),
    decreases messages.len() - from,
{
    if from < messages.len() && !is_user_text(messages[from]) {
        lemma_first_user_text(messages, from + 1);
    }
}

/// Whether the item at a position of a message is a call of the reply tool with a
/// text as its content: the last argument of that name counts.
pub open spec fn calls_reply(message: Message, position: int, text: Seq<char>) -> bool {
    match message {
        Message::Assistant { content, .. } => 0 <= position < content@.len() && (
        content@[position] matches AssistantContent::ToolCall(call) && call.name@ == "reply"@
            && exists|at: int|
            {
                &&& 0 <= at < call.arguments@.len()
                &&& (#[trigger] call.arguments@[at]).0@ == "content"@
                &&& call.arguments@[at].1 is Text
                &&& call.arguments@[at].1->Text_0@ == text
                &&& forall|later: int|
                    at < later < call.arguments@.len() ==> (
                    #[trigger] call.arguments@[later]).0@ != "content"@
            }),
        _ => false,
    }
}

proof fn lemma_reply_of_item(message: Message, position: int, text: Seq<char>)
    requires
        message is Assistant,
        0 <= position < message->Assistant_content@.len(),
    ensures
        calls_reply(message, position, text) <==> reply_of_item(
            message->Assistant_content@[position],
        ) == Some(text),
{
    match message->Assistant_content@[position] {
        AssistantContent::ToolCall(call) => {
            let arguments = call.arguments@;
            law_what_is_found_is_there(arguments, "content"@);
            if calls_reply(message, position, text) {
                let at = choose|at: int|
                    {
                        &&& 0 <= at < arguments.len()
                        &&& (#[trigger] arguments[at]).0@ == "content"@
                        &&& arguments[at].1 is Text
                        &&& arguments[at].1->Text_0@ == text
                        &&& forall|later: int|
                            at < later < arguments.len() ==> (#[trigger] arguments[later]).0@
                                != "content"@
                    };
                law_last_pair_counts(arguments, "content"@, at);
            }
        },
        _ => {},
    }
}

proof fn lemma_reply_in(message: Message, from: int)
    requires
        message is Assistant,
        0 <= from <= message->Assistant_content@.len(),
    ensures
        match reply_in(message->Assistant_content@.skip(from)) {
            Some(text) => exists|k: int| from <= k && first_call_at(message, from, k, text),
            None => forall|k: int, text: Seq<char>|
                from <= k ==> !#[trigger] calls_reply(message, k, text),
        },
    decreases message->Assistant_content@.len() - from,
{
    let items = message->Assistant_content@;
    let rest = items.skip(from);
    if from < items.len() {
        assert(rest[0] == items[from]);
        assert(rest.drop_first() =~= items.skip(from + 1));
        assert forall|text: Seq<char>| #[trigger]
            calls_reply(message, from, text) <==> reply_of_item(items[from]) == Some(text) by {
            lemma_reply_of_item(message, from, text);
        }
        if reply_of_item(items[from]) is Some {
            let text = reply_of_item(items[from])->0;
            assert(first_call_at(message, from, from, text));
        } else {
            lemma_reply_in(message, from + 1);
            match reply_in(items.skip(from + 1)) {
                Some(text) => {
                    let next = from + 1;
                    let k = choose|k: int| next <= k && first_call_at(message, next, k, text);
                    assert(first_call_at(message, from, k, text));
                },
                None => {},
            }
        }
    }
}

/// Whether the first call of the reply tool, of the items of a message from a
/// position on, is the one at `at`.
spec fn first_call_at(message: Message, from: int, at: int, text: Seq<char>) -> bool {
    &&& calls_reply(message, at, text)
    &&& forall|k: int, other: Seq<char>|
        from <= k < at ==> !#[trigger] calls_reply(message, k, other)
}

proof fn lemma_reply_of(messages: Seq<Message>, from: int)
    requires
        0 <= from <= messages.len(),
    ensures
        match reply_of(messages.skip(from)) {
            Some(text) => exists|m: int, k: int|
                from <= m < messages.len() && 0 <= k && #[trigger] is_first_reply(
                    messages,
                    from,
                    m,
                    k,
                    text,
                ),
            None => forall|m: int, k: int, text: Seq<char>|
                from <= m < messages.len() ==> !#[trigger] calls_reply(messages[m], k, text),
        },
    decreases messages.len() - from,
{
    let rest = messages.skip(from);
    if from < messages.len() {
        assert(rest[0] == messages[from]);
        assert(rest.drop_first() =~= messages.skip(from + 1));
        if messages[from] is Assistant {
            let items = messages[from]->Assistant_content@;
            assert(items.skip(0) =~= items);
            lemma_reply_in(messages[from], 0);
            if reply_in(items) is Some {
                let text = reply_in(items)->0;
                let k = choose|k: int| 0 <= k && first_call_at(messages[from], 0, k, text);
                assert(is_first_reply(messages, from, from, k, text));
            }
        }
        if reply_of_message(messages[from]) is None {
            lemma_reply_of(messages, from + 1);
            match reply_of(messages.skip(from + 1)) {
                Some(text) => {
                    let next = from + 1;
                    let (m, k) = choose|m: int, k: int|
                        next <= m < messages.len() && 0 <= k && #[trigger] is_first_reply(
                            messages,
                            next,
                            m,
                            k,
                            text,
                        );
                    assert forall|i: int, j: int, other: Seq<char>|
                        from <= i < m || i == m && j < k implies !#[trigger] calls_reply(
                        messages[i],
                        j,
                        other,
                    ) by {
                        if from < i {
                            assert(!calls_reply(messages[i], j, other));
                        }
                    }
                    assert(is_first_reply(messages, from, m, k, text));
                },
                None => {},
            }
        }
    }
}

/// Whether the first call of the reply tool, in the order of the messages from a
/// position on and of their items, is the one at item `k` of message `m`.
pub open spec fn is_first_reply(
    messages: Seq<Message>,
    from: int,
    m: int,
    k: int,
    text: Seq<char>,
) -> bool {
    &&& calls_reply(messages[m], k, text)
    &&& forall|i: int, j: int, other: Seq<char>|
        from <= i < m || i == m && j < k ==> !#[trigger] calls_reply(messages[i], j, other)
}

/// Where an item, at any position of any assistant message that a cancelled turn
/// appended, is a call of the reply tool with a text as its content, the history
/// ends with an assistant message that says just the text of the first such call.
pub proof fn law_first_reply_is_kept(
    reason: String,
    before: Seq<Message>,
    history: Seq<Message>,
    history_len_before: int,
    is_retrigger: bool,
    after: Seq<Message>,
    m: int,
    k: int,
    text: Seq<char>,
)
    requires
        is_history_after(
            Err(PromptError::PromptCancelled { reason }),
            before,
            history,
            history_len_before,
            is_retrigger,
            after,
        ),
        0 <= history_len_before <= m < history.len(),
        calls_reply(history[m], k, text),
        forall|i: int, j: int, other: Seq<char>|
            history_len_before <= i < m || i == m && j < k ==> !#[trigger] calls_reply(
                history[i],
                j,
                other,
            ),
    ensures
        after.len() > 0,
        after.last() matches Message::Assistant { content, .. } && content@.len() == 1
            && content@[0] is Text && content@[0]->Text_0@ == text,
{
    lemma_reply_of(history, history_len_before);
    let reply = reply_of(history.skip(history_len_before));
    assert(reply is Some);
    let (m2, k2) = choose|m2: int, k2: int|
        history_len_before <= m2 < history.len() && 0 <= k2 && #[trigger] is_first_reply(
            history,
            history_len_before,
            m2,
            k2,
            reply->0,
        );
    assert(calls_reply(history[m2], k2, reply->0));
    assert(m2 == m && k2 == k) by {
        if m2 < m || m2 == m && k2 < k {
            assert(!calls_reply(history[m2], k2, reply->0));
        }
        if m < m2 || m2 == m && k < k2 {
            assert(!calls_reply(history[m], k, text));
        }
    }
    lemma_reply_of_item(history[m], k, text);
    lemma_reply_of_item(history[m], k, reply->0);
}

/// A cancelled turn in which nothing asked for a reply adds no assistant message:
/// what comes after the past is the prompt of a turn that is no retrigger, where
/// there was one, and nothing else.
pub proof fn law_no_reply_no_answer(
    reason: String,
    before: Seq<Message>,
    history: Seq<Message>,
    history_len_before: int,
    after: Seq<Message>,
)
    requires
        is_history_after(
            Err(PromptError::PromptCancelled { reason }),
            before,
            history,
            history_len_before,
            false,
            after,
        ),
        0 <= history_len_before <= history.len(),
        forall|m: int, k: int, text: Seq<char>|
            history_len_before <= m < history.len() ==> !#[trigger] calls_reply(
                history[m],
                k,
                text,
            ),
    ensures
        before.len() <= after.len() <= before.len() + 1,
        forall|i: int| 0 <= i < before.len() ==> #[trigger] after[i] == before[i],
        after.len() > before.len() ==> after.last() is User && history.skip(
            history_len_before,
        ).contains(after.last()),
{
    let appended = history.skip(history_len_before);
    lemma_reply_of(history, history_len_before);
    if reply_of(appended) is Some {
        let (m, k) = choose|m: int, k: int|
            history_len_before <= m < history.len() && 0 <= k && #[trigger] is_first_reply(
                history,
                history_len_before,
                m,
                k,
                reply_of(appended)->0,
            );
        assert(calls_reply(history[m], k, reply_of(appended)->0));
    }
    lemma_first_user_text(appended, 0);
    if let Some(i) = first_user_text(appended, 0) {
        assert(appended[i] == after.last());
    }
}

/// The first message of nothing but text from the user's side, among those that a
/// cancelled turn appended, is kept right behind the past. A retrigger has no such
/// prompt: what it keeps of the past is all but the message that stood in for the
/// results.
pub proof fn law_first_prompt_is_kept(
    reason: String,
    before: Seq<Message>,
    history: Seq<Message>,
    history_len_before: int,
    after: Seq<Message>,
    m: int,
)
    requires
        is_history_after(
            Err(PromptError::PromptCancelled { reason }),
            before,
            history,
            history_len_before,
            false,
            after,
        ),
        0 <= history_len_before <= m < history.len(),
        history[m] matches Message::User { content } && forall|j: int|
            0 <= j < content@.len() ==> #[trigger] content@[j] is Text,
        forall|i: int|
            history_len_before <= i < m ==> ((#[trigger] history[i]) matches Message::User {
                content,
            } ==> exists|j: int|
                0 <= j < content@.len() && !(#[trigger] content@[j] is Text)),
    ensures
        after.len() > before.len(),
        forall|i: int| 0 <= i < before.len() ==> #[trigger] after[i] == before[i],
        after[before.len() as int] == history[m],
{
    let appended = history.skip(history_len_before);
    lemma_first_user_text_is_first(appended, 0, m - history_len_before);
    assert(appended[m - history_len_before] == history[m]);
    let base = before.push(history[m]);
    if reply_of(appended) is Some {
        assert forall|i: int| 0 <= i < base.len() implies #[trigger] after[i] == base[i] by {
            assert(after.drop_last()[i] == after[i]);
        }
    }
    assert(after[before.len() as int] == base[before.len() as int]);
    assert forall|i: int| 0 <= i < before.len() implies #[trigger] after[i] == before[i] by {
        assert(base[i] == after[i]);
    }
}

proof fn lemma_first_user_text_is_first(messages: Seq<Message>, from: int, at: int)
    requires
        0 <= from <= at < messages.len(),
        is_user_text(messages[at]),
        forall|i: int| from <= i < at ==> !is_user_text(#[trigger] messages[i]),
    ensures
        first_user_text(messages, from) == Some(at),
    decreases at - from,
{
    if from < at {
        assert(!is_user_text(messages[from]));
        lemma_first_user_text_is_first(messages, from + 1, at);
    }
}

/// A turn that ended in order, or used up its turns, leaves just the history that
/// it built; one that failed otherwise leaves of the past what was there when it
/// began.
pub proof fn law_finished_turn_keeps_its_history(
    result: Result<String, PromptError>,
    before: Seq<Message>,
    history: Seq<Message>,
    history_len_before: int,
    is_retrigger: bool,
    after: Seq<Message>,
)
    requires
        is_history_after(result, before, history, history_len_before, is_retrigger, after),
        0 <= history_len_before <= before.len(),
    ensures
        result is Ok ==> after == history,
        result matches Err(PromptError::MaxTurnsError) ==> after == history,
        result matches Err(PromptError::CompletionError(_)) ==> after == before.take(
            history_len_before,
        ),
        result matches Err(PromptError::ToolError(_)) ==> after == before.take(history_len_before),
{
    assert(before.take(before.len() as int) =~= before);
}

/// A cancelled turn adds no tool call to a history: neither a call without its
/// result nor anything else that a model would refuse.
pub proof fn law_cancelled_turn_adds_no_tool_call(
    before: Seq<Message>,
    appended: Seq<Message>,
    is_retrigger: bool,
    after: Seq<Message>,
    i: int,
)
    requires
        is_after_cancelled(before, appended, is_retrigger, after),
        0 <= i < after.len(),
        has_tool_call(after[i]),
    ensures
        i < before.len(),
        after[i] == before[i],
{
    lemma_first_user_text(appended, 0);
    let base = if is_retrigger {
        without_bridge(before)
    } else {
        match first_user_text(appended, 0) {
            Some(at) => before.push(appended[at]),
            None => before,
        }
    };
    if reply_of(appended) is Some {
        let text = reply_of(appended)->0;
        if i == after.len() - 1 {
            assert(is_assistant_text(after[i], text));
            assert(false);
        }
        assert(after.drop_last()[i] == after[i]);
    }
    assert(base[i] == after[i]);
    if !is_retrigger && i == before.len() {
        assert(is_user_text(after[i]));
        assert(false);
    }
}

/// A cancelled turn keeps what was there before it, but for the stand-in message
/// that a retrigger replaces, and adds two messages at most.
pub proof fn law_cancelled_turn_keeps_the_past(
    before: Seq<Message>,
    appended: Seq<Message>,
    is_retrigger: bool,
    after: Seq<Message>,
)
    requires
        is_after_cancelled(before, appended, is_retrigger, after),
    ensures
        ({
            let kept = if is_retrigger {
                without_bridge(before)
            } else {
                before
            };
            &&& kept.len() <= after.len() <= kept.len() + 2
            &&& after.take(kept.len() as int) == kept
        }),
{
    let kept = if is_retrigger {
        without_bridge(before)
    } else {
        before
    };
    if reply_of(appended) is Some {
        assert(after.take(kept.len() as int) =~= after.drop_last().take(kept.len() as int));
    }
    assert(after.take(kept.len() as int) =~= kept);
}

/// A turn that failed leaves the history as it was before the turn.
pub proof fn law_failed_turn_rolls_back(
    error: PromptError,
    before: Seq<Message>,
    history: Seq<Message>,
    is_retrigger: bool,
    after: Seq<Message>,
)
    requires
        error is CompletionError || error is ToolError,
        is_history_after(
            Err(error),
            before,
            history,
            before.len() as int,
            is_retrigger,
            after,
        ),
    ensures
        after == before,
{
}

// Tool call syntax in plain text.

/// A character with its case set aside: the letters from A to Z, and the Kelvin
/// sign, are the characters whose lower case is a letter from a to z.
pub open spec fn folded(c: char) -> char {
    if c == '\u{212a}' {
        'k'
    } else {
        ascii_lower(c)
    }
}

/// Whether a text begins with a prefix in lower case, whatever the case of its
/// letters.
pub open spec fn is_folded_prefix(prefix: Seq<char>, text: Seq<char>) -> bool {
    prefix.len() <= text.len() && forall|i: int|
        0 <= i < prefix.len() ==> #[trigger] folded(text[i]) == prefix[i]
}

/// Whether a text begins with the name of a tool that says nothing to the user.
pub open spec fn is_silent_syntax(text: Seq<char>) -> bool {
    ||| is_folded_prefix("[react]"@, text)
    ||| is_folded_prefix("(react)"@, text)
    ||| is_folded_prefix("[skip]"@, text)
    ||| is_folded_prefix("(skip)"@, text)
    ||| is_folded_prefix("[branch]"@, text)
    ||| is_folded_prefix("(branch)"@, text)
    ||| is_folded_prefix("[spawn_worker]"@, text)
    ||| is_folded_prefix("(spawn_worker)"@, text)
    ||| is_folded_prefix("[route]"@, text)
    ||| is_folded_prefix("(route)"@, text)
    ||| is_folded_prefix("[cancel]"@, text)
    ||| is_folded_prefix("(cancel)"@, text)
}

/// Whether a text begins with the name of the reply tool.
pub open spec fn is_reply_syntax(text: Seq<char>) -> bool {
    is_folded_prefix("[reply]"@, text) || is_folded_prefix("(reply)"@, text)
}

/// What follows the name of the reply tool.
pub open spec fn reply_payload(text: Seq<char>) -> Seq<char> {
    trimmed(text.skip("[reply]"@.len() as int))
}

/// The text that a payload stands for, where `content` is what it holds as JSON:
/// that, or the payload itself where it is not meant as JSON.
pub open spec fn payload_text(payload: Seq<char>, content: Option<Seq<char>>) -> Option<Seq<char>> {
    if content is Some {
        content
    } else if payload.len() > 0 && !is_prefix(seq!['{'], payload) {
        Some(payload)
    } else {
        None
    }
}

/// The text to show for one that may be written in tool call syntax.
pub open spec fn tool_syntax_reply(text: Seq<char>) -> Option<Seq<char>> {
    if is_reply_syntax(text) {
        payload_text(reply_payload(text), json_member_text(reply_payload(text), "content"@))
    } else if is_silent_syntax(text) {
        Some(Seq::empty())
    } else {
        None
    }
}

fn fold(c: char) -> (result: char)
    ensures
        result == folded(c),
{
    if c == '\u{212a}' {
        'k'
    } else {
        to_ascii_lower(c)
    }
}

fn starts_with_folded(text: &Vec<char>, prefix: &str) -> (result: bool)
    ensures
        result == is_folded_prefix(prefix@, text@),
{
    let wanted = chars_of(prefix);
    if wanted.len() > text.len() {
        return false;
    }
    let mut i: usize = 0;
    while i < wanted.len()
        invariant
            i <= wanted.len() <= text.len(),
            wanted@ == prefix@,
            forall|k: int| 0 <= k < i ==> #[trigger] folded(text@[k]) == prefix@[k],
        decreases wanted.len() - i,
    {
        if fold(text[i]) != wanted[i] {
            assert(folded(text@[i as int]) != prefix@[i as int]);
            return false;
        }
        i = i + 1;
    }
    true
}

/// The text that a payload stands for, where `content` is what it holds as JSON.
pub fn resolve_reply_payload(payload: &str, content: Option<String>) -> (reply: Option<String>)
    ensures
        view_of(reply) == payload_text(payload@, view_of(content)),
{
    proof {
        reveal_strlit("{");
        assert("{"@ =~= seq!['{']);
    }
    if content.is_some() {
        content
    } else if !payload.is_empty() && !crate::text::starts_with(payload, "{") {
        Some(payload.to_owned())
    } else {
        None
    }
}

/// Some models write tool call syntax as plain text instead of making actual tool
/// calls. Where a text begins with the name of a tool in brackets, this gives what
/// the user should see: the content of a reply, or nothing for another tool.
/// `None` where the text is not of that form or cannot be read: it is then sent
/// as it is.
pub fn extract_reply_from_tool_syntax(text: &str) -> (reply: Option<String>)
    ensures
        view_of(reply) == tool_syntax_reply(text@),
{
    let chars = chars_of(text);
    if starts_with_folded(&chars, "[reply]") || starts_with_folded(&chars, "(reply)") {
        proof {
            reveal_strlit("[reply]");
            reveal_strlit("(reply)");
        }
        let total: usize = text.unicode_len();
        assert("[reply]"@.len() == 7 && "(reply)"@.len() == 7);
        assert(text@.subrange(7, total as int) =~= text@.skip(7));
        let payload = trim(text.substring_char(7, total));
        let content = parse_member_text(payload, "content");
        return resolve_reply_payload(payload, content);
    }
    if starts_with_folded(&chars, "[react]") || starts_with_folded(&chars, "(react)")
        || starts_with_folded(&chars, "[skip]") || starts_with_folded(&chars, "(skip)")
        || starts_with_folded(&chars, "[branch]") || starts_with_folded(&chars, "(branch)")
        || starts_with_folded(&chars, "[spawn_worker]") || starts_with_folded(
        &chars,
        "(spawn_worker)",
    ) || starts_with_folded(&chars, "[route]") || starts_with_folded(&chars, "(route)")
        || starts_with_folded(&chars, "[cancel]") || starts_with_folded(&chars, "(cancel)") {
        return Some(String::new());
    }
    None
}

// Formatting.

impl InboundMessage {
    /// The name that a message is shown under.
    pub open spec fn display_name(self) -> Seq<char> {
        match self.formatted_author {
            Some(author) => author@,
            None => match text_of(member(self.metadata@, "sender_display_name"@)) {
                Some(name) => name,
                None => self.sender_id@,
            },
        }
    }
}

/// The name that a message is shown under: the one its platform formatted, the
/// one in its metadata, or the sender's identifier.
pub fn message_display_name(message: &InboundMessage) -> (name: &str)
    ensures
        name@ == message.display_name(),
{
    match &message.formatted_author {
        Some(author) => author.as_str(),
        None => match find_text(&message.metadata, "sender_display_name") {
            Some(name) => name,
            None => message.sender_id.as_str(),
        },
    }
}

/// A text, or a placeholder where it is only white space.
pub open spec fn text_or(text: Seq<char>, placeholder: Seq<char>) -> Seq<char> {
    if trimmed(text).len() == 0 {
        placeholder
    } else {
        text
    }
}

fn text_or_placeholder<'a>(text: &'a str, placeholder: &'a str) -> (result: &'a str)
    ensures
        result@ == text_or(text@, placeholder@),
{
    if trim(text).is_empty() {
        placeholder
    } else {
        text
    }
}

impl InboundMessage {
    /// Whom the message replies to, in words.
    pub open spec fn reply_context(self) -> Seq<char> {
        match text_of(member(self.metadata@, "reply_to_author"@)) {
            Some(author) => {
                let preview = match text_of(member(self.metadata@, REPLY_TO_TEXT@)) {
                    Some(text) => text,
                    None => ""@,
                };
                if preview.len() == 0 {
                    " (replying to "@ + author + ")"@
                } else {
                    " (replying to "@ + author + ": \""@ + preview + "\")"@
                }
            },
            None => ""@,
        }
    }

    /// The message as the model reads it, with its sender and time.
    pub open spec fn formatted(self, raw_text: Seq<char>, timestamp_text: Seq<char>) -> Seq<char> {
        if self.source@ == "system"@ {
            text_or(raw_text, "[system event]"@)
        } else {
            self.display_name() + (if flag_of(member(self.metadata@, "sender_is_bot"@)) == Some(
                true,
            ) {
                " (bot)"@
            } else {
                ""@
            }) + self.reply_context() + " ["@ + timestamp_text + "]: "@ + text_or(
                raw_text,
                "[attachment or empty message]"@,
            )
        }
    }
}

fn reply_context_text(message: &InboundMessage) -> (text: String)
    ensures
        text@ == message.reply_context(),
{
    proof {
        reveal_strlit("");
    }
    match find_text(&message.metadata, "reply_to_author") {
        Some(author) => {
            let preview = match find_text(&message.metadata, REPLY_TO_TEXT) {
                Some(text) => text,
                None => "",
            };
            let start = " (replying to ".to_owned().concat(author);
            if preview.is_empty() {
                start.concat(")")
            } else {
                start.concat(": \"").concat(preview).concat("\")")
            }
        },
        None => "".to_owned(),
    }
}

/// Format a user message with sender attribution from message metadata, so that
/// the model can tell who said what. A message of the system itself is passed
/// through.
pub fn format_user_message(raw_text: &str, message: &InboundMessage, timestamp_text: &str) -> (text: String)
    ensures
        text@ == message.formatted(raw_text@, timestamp_text@),
{
    if text_eq(message.source.as_str(), "system") {
        return text_or_placeholder(raw_text, "[system event]").to_owned();
    }
    let is_bot = match find_flag(&message.metadata, "sender_is_bot") {
        Some(flag) => flag,
        None => false,
    };
    let bot_tag = if is_bot {
        " (bot)"
    } else {
        ""
    };
    message_display_name(message).to_owned().concat(bot_tag).concat(
        reply_context_text(message).as_str(),
    ).concat(" [").concat(timestamp_text).concat("]: ").concat(
        text_or_placeholder(raw_text, "[attachment or empty message]"),
    )
}

/// A message of a batch as the model reads it.
pub open spec fn batched_form(
    display_name: Seq<char>,
    absolute_timestamp: Seq<char>,
    relative_text: Seq<char>,
    raw_text: Seq<char>,
) -> Seq<char> {
    "["@ + display_name + "] ("@ + absolute_timestamp + "; "@ + relative_text + "): "@ + text_or(
        raw_text,
        "[attachment or empty message]"@,
    )
}

/// Format a message of a batch, with its sender and its time in two forms.
pub fn format_batched_user_message(
    display_name: &str,
    absolute_timestamp: &str,
    relative_text: &str,
    raw_text: &str,
) -> (text: String)
    ensures
        text@ == batched_form(display_name@, absolute_timestamp@, relative_text@, raw_text@),
{
    "[".to_owned().concat(display_name).concat("] (").concat(absolute_timestamp).concat("; ").concat(
        relative_text,
    ).concat("): ").concat(text_or_placeholder(raw_text, "[attachment or empty message]"))
}

/// The platform's identifier of a message, as text, where it is a string or a
/// number.
pub open spec fn message_id_of(value: Option<JsonValue>) -> Option<Seq<char>> {
    match value {
        Some(JsonValue::Text(text)) => Some(text@),
        Some(JsonValue::Number(number)) => Some(number@),
        _ => None,
    }
}

/// The platform's identifier of a message.
pub fn extract_message_id(message: &InboundMessage) -> (id: Option<String>)
    ensures
        view_of(id) == message_id_of(member(message.metadata@, MESSAGE_ID@)),
{
    match find_member(&message.metadata, MESSAGE_ID) {
        Some(JsonValue::Text(text)) => Some(text.clone()),
        Some(JsonValue::Number(number)) => Some(number.clone()),
        _ => None,
    }
}

/// A cancelled retrigger takes the message that stood in for the results away: one
/// of the assistant's texts at the end of the past that holds its mark. Any other
/// message at the end is kept.
pub proof fn law_cancelled_retrigger_drops_stand_in(
    reason: String,
    before: Seq<Message>,
    history: Seq<Message>,
    history_len_before: int,
    after: Seq<Message>,
    item: int,
    at: int,
)
    requires
        is_history_after(
            Err(PromptError::PromptCancelled { reason }),
            before,
            history,
            history_len_before,
            true,
            after,
        ),
        before.len() > 0,
    ensures
        forall|i: int| 0 <= i < before.len() - 1 ==> #[trigger] after[i] == before[i],
        (before.last() matches Message::Assistant { content, .. } && 0 <= item < content@.len()
            && content@[item] is Text && 0 <= at && at + 13 <= content@[item]->Text_0@.len()
            && content@[item]->Text_0@.subrange(at, at + 13) == "[acknowledged"@) ==> before.len() - 1
            <= after.len() <= before.len(),
        before.last() is User ==> before.len() <= after.len() <= before.len() + 1
            && after[before.len() - 1] == before.last(),
{
    reveal_strlit("[acknowledged");
    let kept = without_bridge(before);
    if let Message::Assistant { content, .. } = before.last() {
        if 0 <= item < content@.len() && content@[item] is Text && 0 <= at && at + 13
            <= content@[item]->Text_0@.len() && content@[item]->Text_0@.subrange(at, at + 13)
            == "[acknowledged"@ {
            assert(crate::text::occurs_at("[acknowledged"@, content@[item]->Text_0@, at));
            assert(is_bridge(before.last()));
        }
    }
    assert forall|i: int| 0 <= i < kept.len() implies #[trigger] after[i] == kept[i] by {
        if after.len() > kept.len() {
            assert(after.drop_last()[i] == after[i]);
        }
    }
    assert forall|i: int| 0 <= i < before.len() - 1 implies #[trigger] after[i] == before[i] by {
        assert(kept[i] == after[i]);
    }
}

/// Whether a text is the same as a name in lower case up to its length, with the
/// case of the letters set aside.
pub open spec fn begins_with_name(text: Seq<char>, name: Seq<char>) -> bool {
    &&& name.len() <= text.len()
    &&& forall|i: int|
        0 <= i < name.len() ==> {
            ||| #[trigger] text[i] == name[i]
            ||| 'A' <= text[i] && text[i] <= 'Z' && text[i] as int + 32 == name[i] as int
        }
}

proof fn lemma_begins_with_name(text: Seq<char>, name: Seq<char>)
    requires
        begins_with_name(text, name),
        forall|i: int| 0 <= i < name.len() ==> !('A' <= #[trigger] name[i] && name[i] <= 'Z')
            && name[i] != '\u{212a}',
    ensures
        is_folded_prefix(name, text),
{
    assert forall|i: int| 0 <= i < name.len() implies #[trigger] folded(text[i]) == name[i] by {
        assert(text[i] == name[i] || 'A' <= text[i] && text[i] <= 'Z' && text[i] as int + 32
            == name[i] as int);
        assert(!('A' <= name[i] && name[i] <= 'Z'));
    }
}

/// A text that begins with the name of a tool that says nothing to the user, in
/// square or in round brackets and in any case, shows the user nothing.
pub proof fn law_silent_tools_show_nothing(text: Seq<char>, name: Seq<char>)
    requires
        name == "[react]"@ || name == "(react)"@ || name == "[skip]"@ || name == "(skip)"@ || name
            == "[branch]"@ || name == "(branch)"@ || name == "[spawn_worker]"@ || name
            == "(spawn_worker)"@ || name == "[route]"@ || name == "(route)"@ || name == "[cancel]"@
            || name == "(cancel)"@,
        begins_with_name(text, name),
    ensures
        tool_syntax_reply(text) == Some(Seq::<char>::empty()),
{
    reveal_strlit("[react]");
    reveal_strlit("(react)");
    reveal_strlit("[skip]");
    reveal_strlit("(skip)");
    reveal_strlit("[branch]");
    reveal_strlit("(branch)");
    reveal_strlit("[spawn_worker]");
    reveal_strlit("(spawn_worker)");
    reveal_strlit("[route]");
    reveal_strlit("(route)");
    reveal_strlit("[cancel]");
    reveal_strlit("(cancel)");
    reveal_strlit("[reply]");
    reveal_strlit("(reply)");
    lemma_begins_with_name(text, name);
    assert(is_silent_syntax(text));
    if is_reply_syntax(text) {
        let reply = if is_folded_prefix("[reply]"@, text) {
            "[reply]"@
        } else {
            "(reply)"@
        };
        assert(folded(text[0]) == name[0] && folded(text[0]) == reply[0]);
        assert(folded(text[1]) == name[1] && folded(text[1]) == reply[1]);
        assert(folded(text[2]) == name[2] && folded(text[2]) == reply[2]);
        assert(folded(text[3]) == name[3] && folded(text[3]) == reply[3]);
    }
}

/// A text that begins with the name of the reply tool, in square or in round
/// brackets and in any case, shows the user what follows, without the white space
/// around it, where that is not meant as JSON.
pub proof fn law_reply_syntax_shows_what_follows(text: Seq<char>, name: Seq<char>)
    requires
        name == "[reply]"@ || name == "(reply)"@,
        begins_with_name(text, name),
        trimmed(text.skip(7)).len() > 0,
        trimmed(text.skip(7))[0] != '{',
        json_member_text(trimmed(text.skip(7)), "content"@) is None,
    ensures
        tool_syntax_reply(text) == Some(trimmed(text.skip(7))),
{
    reveal_strlit("[reply]");
    reveal_strlit("(reply)");
    lemma_begins_with_name(text, name);
    let payload = trimmed(text.skip(7));
    if is_prefix(seq!['{'], payload) {
        assert(payload.take(1)[0] == payload[0]);
    }
}

/// A text that does not begin with a bracket is no tool call.
pub proof fn law_plain_text_is_no_tool_call(text: Seq<char>)
    requires
        text.len() > 0 ==> text[0] != '[' && text[0] != '(',
    ensures
        tool_syntax_reply(text) is None,
{
    reveal_strlit("[react]");
    reveal_strlit("(react)");
    reveal_strlit("[skip]");
    reveal_strlit("(skip)");
    reveal_strlit("[branch]");
    reveal_strlit("(branch)");
    reveal_strlit("[spawn_worker]");
    reveal_strlit("(spawn_worker)");
    reveal_strlit("[route]");
    reveal_strlit("(route)");
    reveal_strlit("[cancel]");
    reveal_strlit("(cancel)");
    reveal_strlit("[reply]");
    reveal_strlit("(reply)");
    if text.len() > 0 {
        assert(folded(text[0]) != '[' && folded(text[0]) != '(');
    }
}

/// A message that is not the system's own is told with its sender first: the name
/// that the platform formatted, else the one in the metadata, else the identifier.
/// Then come whether it is a bot, whom it replies to and the time, and at the end
/// the text, or a placeholder where it is white space throughout.
pub proof fn law_message_is_told_with_its_sender(
    message: InboundMessage,
    text: Seq<char>,
    time: Seq<char>,
    name: Seq<char>,
    at: int,
)
    requires
        message.source@ != "system"@,
        match message.formatted_author {
            Some(author) => name == author@,
            None => if 0 <= at < message.metadata@.len() {
                &&& message.metadata@[at].0@ == "sender_display_name"@
                &&& message.metadata@[at].1 is Text
                &&& message.metadata@[at].1->Text_0@ == name
                &&& forall|later: int|
                    at < later < message.metadata@.len() ==> (#[trigger] message.metadata@[later]).0@
                        != "sender_display_name"@
            } else {
                &&& name == message.sender_id@
                &&& forall|i: int|
                    0 <= i < message.metadata@.len() ==> (#[trigger] message.metadata@[i]).0@
                        != "sender_display_name"@
            },
        },
    ensures
        ({
            let told = message.formatted(text, time);
            let shown = if exists|i: int| 0 <= i < text.len() && !is_white_space(#[trigger] text[i]) {
                text
            } else {
                "[attachment or empty message]"@
            };
            told == name + (if member(message.metadata@, "sender_is_bot"@) == Some(
                JsonValue::Bool(true),
            ) {
                " (bot)"@
            } else {
                ""@
            }) + message.reply_context() + " ["@ + time + "]: "@ + shown
        }),
        message.display_name() == name,
{
    law_blank_is_white_space(text);
    if message.formatted_author is None {
        if 0 <= at < message.metadata@.len() {
            law_last_pair_counts(message.metadata@, "sender_display_name"@, at);
        } else {
            crate::assoc::lemma_absent(message.metadata@, "sender_display_name"@);
        }
    }
    match member(message.metadata@, "sender_is_bot"@) {
        Some(JsonValue::Bool(flag)) => {},
        _ => {},
    }
}

/// A message says whom it replies to just where its metadata name an author, and
/// quotes what it replies to where that is there.
pub proof fn law_reply_is_told(message: InboundMessage, author: String, preview: String)
    ensures
        member(message.metadata@, "reply_to_author"@) == Some(JsonValue::Text(author)) && member(
            message.metadata@,
            "reply_to_text"@,
        ) == Some(JsonValue::Text(preview)) && preview@.len() > 0 ==> message.reply_context()
            == " (replying to "@ + author@ + ": \""@ + preview@ + "\")"@,
        member(message.metadata@, "reply_to_author"@) == Some(JsonValue::Text(author)) && (member(
            message.metadata@,
            "reply_to_text"@,
        ) is None || member(message.metadata@, "reply_to_text"@) == Some(JsonValue::Text(preview))
            && preview@.len() == 0) ==> message.reply_context() == " (replying to "@ + author@ + ")"@,
        member(message.metadata@, "reply_to_author"@) is None ==> message.reply_context().len() == 0,
{
    reveal_strlit("");
}

/// A message of the system itself is told in its own words.
pub proof fn law_system_message_is_passed_through(
    message: InboundMessage,
    text: Seq<char>,
    time: Seq<char>,
    at: int,
)
    requires
        message.source@ == "system"@,
        0 <= at < text.len(),
        !is_white_space(text[at]),
    ensures
        message.formatted(text, time) == text,
{
    law_blank_is_white_space(text);
}

/// A message of a batch is told with its sender, its time in both forms, and at
/// the end its text, or a placeholder where it is white space throughout.
pub proof fn law_batched_message_is_told(
    name: Seq<char>,
    time: Seq<char>,
    relative: Seq<char>,
    text: Seq<char>,
)
    ensures
        (exists|i: int| 0 <= i < text.len() && !is_white_space(#[trigger] text[i])) ==> batched_form(
            name,
            time,
            relative,
            text,
        ) == "["@ + name + "] ("@ + time + "; "@ + relative + "): "@ + text,
        (forall|i: int| 0 <= i < text.len() ==> is_white_space(#[trigger] text[i])) ==> batched_form(
            name,
            time,
            relative,
            text,
        ) == "["@ + name + "] ("@ + time + "; "@ + relative + "): "@
            + "[attachment or empty message]"@,
{
    law_blank_is_white_space(text);
}

/// A message is identified by the text or the number that its platform gave it.
pub proof fn law_message_is_identified(value: JsonValue)
    ensures
        value is Text ==> message_id_of(Some(value)) == Some(value->Text_0@),
        value is Number ==> message_id_of(Some(value)) == Some(value->Number_0@),
        !(value is Text) && !(value is Number) ==> message_id_of(Some(value)) is None,
        message_id_of(None) is None,
{
}

/// The reply of a cancelled turn is the content of the first call of the reply tool,
/// in the order of the messages and of their items; there is none just where no item
/// of any message is such a call.
pub proof fn law_first_reply_is_extracted(
    messages: &Vec<Message>,
    reply: Option<String>,
    m: int,
    k: int,
    text: Seq<char>,
)
    requires
        call_ensures(extract_reply_content_from_cancelled_history, (messages,), reply),
    ensures
        reply is None <==> forall|i: int, j: int, other: Seq<char>|
            0 <= i < messages@.len() ==> !#[trigger] calls_reply(messages@[i], j, other),
        0 <= m < messages@.len() && is_first_reply(messages@, 0, m, k, text) ==> (reply matches Some(
            said,
        ) && said@ == text),
{
    lemma_reply_of(messages@, 0);
    assert(messages@.skip(0) =~= messages@);
    if reply is Some {
        let said = reply->0@;
        let (m2, k2) = choose|m2: int, k2: int|
            0 <= m2 < messages@.len() && 0 <= k2 && #[trigger] is_first_reply(
                messages@,
                0,
                m2,
                k2,
                said,
            );
        assert(calls_reply(messages@[m2], k2, said));
        if 0 <= m < messages@.len() && is_first_reply(messages@, 0, m, k, text) {
            assert(m2 == m && k2 == k) by {
                if m2 < m || m2 == m && k2 < k {
                    assert(!calls_reply(messages@[m2], k2, said));
                }
                if m < m2 || m2 == m && k < k2 {
                    assert(!calls_reply(messages@[m], k, text));
                }
            }
            lemma_reply_of_item(messages@[m], k, text);
            lemma_reply_of_item(messages@[m], k, said);
        }
    } else if 0 <= m < messages@.len() && is_first_reply(messages@, 0, m, k, text) {
        assert(calls_reply(messages@[m], k, text));
    }
}

/// A reply written in tool call syntax shows the content that its payload holds as
/// JSON, where it holds one.
pub proof fn law_reply_syntax_shows_the_content(text: Seq<char>, name: Seq<char>)
    requires
        name == "[reply]"@ || name == "(reply)"@,
        begins_with_name(text, name),
    ensures
        json_member_text(trimmed(text.skip(7)), "content"@) is Some ==> tool_syntax_reply(text)
            == json_member_text(trimmed(text.skip(7)), "content"@),
{
    reveal_strlit("[reply]");
    reveal_strlit("(reply)");
    lemma_begins_with_name(text, name);
}

/// A payload that is empty, or that is meant as JSON but holds no content, is not
/// shown as it is.
pub proof fn law_broken_payload_is_not_shown(text: Seq<char>, name: Seq<char>)
    requires
        name == "[reply]"@ || name == "(reply)"@,
        begins_with_name(text, name),
        trimmed(text.skip(7)).len() == 0 || trimmed(text.skip(7))[0] == '{',
        json_member_text(trimmed(text.skip(7)), "content"@) is None,
    ensures
        tool_syntax_reply(text) is None,
{
    reveal_strlit("[reply]");
    reveal_strlit("(reply)");
    lemma_begins_with_name(text, name);
    let payload = trimmed(text.skip(7));
    if payload.len() > 0 {
        assert(payload.take(1) =~= seq!['{']);
    }
}

} // verus!
