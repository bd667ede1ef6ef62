//! Laws of the translator and the mapper, each proved over the spec
//! functions that the executable functions' contracts are stated with.

use vstd::prelude::*;

use crate::events::{ErrorView, EventView, StopReason};
use crate::mapper::{acc_after_chunk, acc_after_frag, acc_after_frags, chunk_events, drain_events,
    entry_after_frag, entry_event, find_entry, fresh_entry, RawToolCallView};
use crate::request::{Message, MessageContent, Role, ToolChoice};
use crate::stream::{StreamResponse, ToolCallChunk};
use crate::translate::{needs_placeholder, placeholder_assistant, repair, repair_from, system_msgs,
    tool_result_text, translate_messages, translate_one, user_parts, user_tail, user_tool_msgs,
    wire_tool_choice};
use crate::wire;
use crate::wire::MessageView;

verus! {

/// No `Tool` message stands directly before a `User` message.
pub open spec fn ok_pairs(s: Seq<MessageView>) -> bool {
    forall|t: int| #![trigger s[t]] 0 <= t < s.len() - 1 ==> !needs_placeholder(s[t], s[t + 1])
}

/// A sequence without forbidden pairs passes the repair untouched, from
/// any position on.
proof fn lemma_repair_from_no_pair(s: Seq<MessageView>, i: int)
    requires
        0 <= i <= s.len(),
        ok_pairs(s),
    ensures
        repair_from(s, i) == s.skip(i),
    decreases s.len() - i,
{
    if i >= s.len() {
        assert(repair_from(s, i) =~= s.skip(i));
    } else {
        lemma_repair_from_no_pair(s, i + 1);
        assert(repair_from(s, i) =~= s.skip(i));
    }
}

/// Repair changes nothing on a sequence that already satisfies the
/// ordering constraint.
pub proof fn lemma_repair_identity(s: Seq<MessageView>)
    requires
        ok_pairs(s),
    ensures
        repair(s) == s,
{
    lemma_repair_from_no_pair(s, 0);
    assert(s.skip(0) =~= s);
}

/// The repair pass establishes the ordering constraint: its output never
/// has a `Tool` message directly before a `User` message. From position
/// `i` on, the output starts with `s[i]`.
proof fn lemma_repair_from_ok(s: Seq<MessageView>, i: int)
    requires
        0 <= i,
    ensures
        ok_pairs(repair_from(s, i)),
        i < s.len() ==> repair_from(s, i).len() > 0 && repair_from(s, i)[0] == s[i],
        i >= s.len() ==> repair_from(s, i).len() == 0,
    decreases s.len() - i,
{
    if i >= s.len() {
    } else {
        lemma_repair_from_ok(s, i + 1);
        let rest = repair_from(s, i + 1);
        let r = repair_from(s, i);
        if i + 1 < s.len() && needs_placeholder(s[i], s[i + 1]) {
            assert(r =~= seq![s[i]] + seq![placeholder_assistant()] + rest);
            assert forall|t: int| #![trigger r[t]] 0 <= t < r.len() - 1 implies !needs_placeholder(
                r[t],
                r[t + 1],
            ) by {
                if t == 0 {
                    assert(r[1] == placeholder_assistant());
                    assert(!(r[1] is User));
                } else if t == 1 {
                    assert(r[1] == placeholder_assistant());
                    assert(!(r[1] is Tool));
                } else {
                    assert(r[t] == rest[t - 2]);
                    assert(r[t + 1] == rest[t - 1]);
                }
            }
        } else {
            assert(r =~= seq![s[i]] + rest);
            assert forall|t: int| #![trigger r[t]] 0 <= t < r.len() - 1 implies !needs_placeholder(
                r[t],
                r[t + 1],
            ) by {
                if t == 0 {
                    if i + 1 < s.len() {
                        assert(r[1] == rest[0]);
                        assert(rest[0] == s[i + 1]);
                        assert(!needs_placeholder(s[i], s[i + 1]));
                    }
                } else {
                    assert(r[t] == rest[t - 1]);
                    assert(r[t + 1] == rest[t]);
                }
            }
        }
    }
}

/// Every repaired sequence satisfies the ordering constraint.
pub proof fn lemma_repair_no_forbidden_pair(s: Seq<MessageView>)
    ensures
        ok_pairs(repair(s)),
{
    lemma_repair_from_ok(s, 0);
}

/// The repair pass is idempotent: repairing an already repaired sequence
/// changes nothing.
pub proof fn lemma_repair_idempotent(s: Seq<MessageView>)
    ensures
        repair(repair(s)) == repair(s),
{
    lemma_repair_no_forbidden_pair(s);
    lemma_repair_identity(repair(s));
}

/// Every message sequence the translator emits satisfies the provider's
/// ordering constraint: the translated wire request's messages are
/// `repair(translate_messages(..))`, and repair establishes it.
pub proof fn lemma_translated_request_ordering(msgs: Seq<Message>)
    ensures
        ok_pairs(repair(translate_messages(msgs))),
{
    lemma_repair_no_forbidden_pair(translate_messages(msgs));
}

/// A user message whose parts are all tool-use requests contributes no
/// wire message at all: the parts are unsupported in user turns and the
/// empty user turn is suppressed.
pub proof fn lemma_unsupported_user_turn(acc: Seq<MessageView>, m: Message)
    requires
        m.role == Role::User,
        forall|j: int| 0 <= j < m.content@.len() ==> m.content@[j] is ToolUse,
    ensures
        translate_one(acc, m) == acc,
{
    lemma_all_tooluse_parts(m.content@);
    assert(translate_one(acc, m) =~= acc);
}

/// Helper: all-tool-use content yields no tool messages and no parts.
proof fn lemma_all_tooluse_parts(parts: Seq<MessageContent>)
    requires
        forall|j: int| 0 <= j < parts.len() ==> parts[j] is ToolUse,
    ensures
        user_tool_msgs(parts) == Seq::<MessageView>::empty(),
        user_parts(parts) == Seq::<crate::wire::PartView>::empty(),
    decreases parts.len(),
{
    if parts.len() == 0 {
        assert(user_tool_msgs(parts) =~= Seq::<MessageView>::empty());
        assert(user_parts(parts) =~= Seq::<crate::wire::PartView>::empty());
    } else {
        assert(forall|j: int| 0 <= j < parts.drop_last().len() ==> parts.drop_last()[j]
            is ToolUse);
        lemma_all_tooluse_parts(parts.drop_last());
        assert(user_tool_msgs(parts) =~= Seq::<MessageView>::empty());
        assert(user_parts(parts) =~= Seq::<crate::wire::PartView>::empty());
    }
}

/// The `Tool` wire message one tool-result part becomes.
pub open spec fn tool_msg_of(c: MessageContent) -> MessageView
    recommends
        c is ToolResult,
{
    match c {
        MessageContent::ToolResult(tr) => MessageView::Tool {
            content: tool_result_text(tr.content),
            tool_call_id: tr.tool_use_id@,
        },
        _ => arbitrary(),
    }
}

/// The `Tool` wire messages of a user turn are exactly its tool-result
/// parts, in order, each as a distinct `Tool` message whose `tool_call_id`
/// is the original tool-use id.
pub proof fn lemma_tool_results_become_tool_messages(parts: Seq<MessageContent>)
    ensures
        user_tool_msgs(parts) == parts.filter(|c: MessageContent| c is ToolResult).map_values(
            |c: MessageContent| tool_msg_of(c),
        ),
    decreases parts.len(),
{
    reveal(Seq::filter);
    let pred = |c: MessageContent| c is ToolResult;
    let f = |c: MessageContent| tool_msg_of(c);
    if parts.len() == 0 {
        assert(user_tool_msgs(parts) =~= parts.filter(pred).map_values(f));
    } else {
        lemma_tool_results_become_tool_messages(parts.drop_last());
        assert(user_tool_msgs(parts) =~= parts.filter(pred).map_values(f));
    }
}

/// One neutral message of the shapes the counting law speaks of.
pub open spec fn single_text_system(m: Message) -> bool {
    m.role == Role::System && m.content@.len() == 1 && m.content@[0] is Text
}

/// A user message whose parts are all plain text.
pub open spec fn all_text_user(m: Message) -> bool {
    m.role == Role::User && forall|j: int| 0 <= j < m.content@.len() ==> m.content@[j] is Text
}

/// How many messages have any content at all.
pub open spec fn nonempty_count(msgs: Seq<Message>) -> int
    decreases msgs.len(),
{
    if msgs.len() == 0 {
        0
    } else {
        nonempty_count(msgs.drop_last()) + if msgs.last().content@.len() > 0 {
            1int
        } else {
            0int
        }
    }
}

/// No message of the sequence is a `Tool` message.
pub open spec fn no_tool_msg(s: Seq<MessageView>) -> bool {
    forall|i: int| 0 <= i < s.len() ==> !(s[i] is Tool)
}

/// Helper: all-text content yields no tool messages and one part per
/// text.
proof fn lemma_all_text_parts(parts: Seq<MessageContent>)
    requires
        forall|j: int| 0 <= j < parts.len() ==> parts[j] is Text,
    ensures
        user_tool_msgs(parts) == Seq::<MessageView>::empty(),
        user_parts(parts).len() == parts.len(),
    decreases parts.len(),
{
    if parts.len() == 0 {
        assert(user_tool_msgs(parts) =~= Seq::<MessageView>::empty());
    } else {
        assert(forall|j: int| 0 <= j < parts.drop_last().len() ==> parts.drop_last()[j] is Text);
        lemma_all_text_parts(parts.drop_last());
        assert(user_tool_msgs(parts) =~= Seq::<MessageView>::empty());
    }
}

/// Helper for the counting law: under the counted shapes, translation
/// yields one wire message per non-empty input message and never a `Tool`
/// message.
proof fn lemma_count_translate(msgs: Seq<Message>)
    requires
        forall|i: int| 0 <= i < msgs.len() ==> single_text_system(msgs[i]) || all_text_user(
            msgs[i],
        ),
    ensures
        translate_messages(msgs).len() == nonempty_count(msgs),
        no_tool_msg(translate_messages(msgs)),
    decreases msgs.len(),
{
    if msgs.len() == 0 {
    } else {
        assert(forall|i: int| 0 <= i < msgs.drop_last().len() ==> single_text_system(
            msgs.drop_last()[i],
        ) || all_text_user(msgs.drop_last()[i]));
        lemma_count_translate(msgs.drop_last());
        let acc = translate_messages(msgs.drop_last());
        let m = msgs.last();
        assert(single_text_system(m) || all_text_user(m));
        if single_text_system(m) {
            assert(m.content@.drop_last().len() == 0);
            assert(m.content@.drop_last() =~= Seq::<MessageContent>::empty());
            assert(system_msgs(Seq::<MessageContent>::empty()) =~= Seq::<MessageView>::empty());
            assert(m.content@.last() == m.content@[0]);
            assert(system_msgs(m.content@) =~= seq![
                MessageView::System { content: text_of(m.content@[0]) },
            ]);
            assert(translate_one(acc, m).len() == acc.len() + 1);
            assert(no_tool_msg(translate_one(acc, m)));
        } else {
            lemma_all_text_parts(m.content@);
            if m.content@.len() == 0 {
                assert(user_tail(m.content@) == Seq::<MessageView>::empty());
                assert(translate_one(acc, m) =~= acc);
            } else {
                assert(user_parts(m.content@).len() > 0);
                assert(translate_one(acc, m) =~= acc + user_tail(m.content@));
                assert(translate_one(acc, m).len() == acc.len() + 1);
                assert(no_tool_msg(translate_one(acc, m)));
            }
        }
    }
}

/// The text of a text part.
pub open spec fn text_of(c: MessageContent) -> Seq<char>
    recommends
        c is Text,
{
    match c {
        MessageContent::Text(t) => t@,
        _ => arbitrary(),
    }
}

/// The counting law: for a conversation of single-text system messages
/// and all-text user messages, the translated wire message count equals
/// the number of messages with any content. (A system message is counted
/// with exactly one text part: one with several parts becomes several
/// wire messages.)
pub proof fn lemma_system_user_text_count(msgs: Seq<Message>)
    requires
        forall|i: int| 0 <= i < msgs.len() ==> single_text_system(msgs[i]) || all_text_user(
            msgs[i],
        ),
    ensures
        repair(translate_messages(msgs)).len() == nonempty_count(msgs),
{
    lemma_count_translate(msgs);
    let s = translate_messages(msgs);
    assert forall|t: int| #![trigger s[t]] 0 <= t < s.len() - 1 implies !needs_placeholder(
        s[t],
        s[t + 1],
    ) by {
        assert(!(s[t] is Tool));
    }
    lemma_repair_identity(s);
}

/// The tool-choice defaulting law. The one input it leaves out: an empty
/// tool list with `NoTool` requested, where the explicit refusal still
/// passes through to the wire.
pub proof fn lemma_tool_choice_defaulting(choice: Option<ToolChoice>, n_tools: nat)
    ensures
        n_tools == 0 && choice != Some(ToolChoice::NoTool) ==> wire_tool_choice(choice, n_tools)
            is None,
        n_tools > 0 && choice == Some(ToolChoice::NoTool) ==> wire_tool_choice(choice, n_tools)
            == Some(wire::ToolChoice::NoTool),
        n_tools > 0 && choice is None ==> wire_tool_choice(choice, n_tools) == Some(
            wire::ToolChoice::Auto,
        ),
{
}

/// The argument text one fragment carries, if any.
pub open spec fn frag_arguments(f: ToolCallChunk) -> Option<Seq<char>> {
    match f.function {
        Some(g) => match g.arguments {
            Some(a) => Some(a@),
            None => None,
        },
        None => None,
    }
}

/// The function name one fragment carries, if any.
pub open spec fn frag_name(f: ToolCallChunk) -> Option<Seq<char>> {
    match f.function {
        Some(g) => match g.name {
            Some(n) => Some(n@),
            None => None,
        },
        None => None,
    }
}

/// The id one fragment carries, if any.
pub open spec fn frag_id(f: ToolCallChunk) -> Option<Seq<char>> {
    match f.id {
        Some(id) => Some(id@),
        None => None,
    }
}

/// The fragment-concatenation law: three fragments with one index, the
/// first carrying the id and name, the later two only argument text,
/// accumulate into one entry whose argument text is the concatenation in
/// arrival order; draining yields exactly one outcome carrying that text
/// as its raw input.
pub proof fn lemma_fragment_concat(
    f1: ToolCallChunk,
    f2: ToolCallChunk,
    f3: ToolCallChunk,
    id: Seq<char>,
    name: Seq<char>,
    a1: Seq<char>,
    a2: Seq<char>,
    a3: Seq<char>,
)
    requires
        f1.index == f2.index,
        f2.index == f3.index,
        frag_id(f1) == Some(id),
        id.len() > 0,
        frag_name(f1) == Some(name),
        name.len() > 0,
        frag_arguments(f1) == Some(a1),
        frag_id(f2) == None::<Seq<char>>,
        frag_name(f2) == None::<Seq<char>>,
        frag_arguments(f2) == Some(a2),
        frag_id(f3) == None::<Seq<char>>,
        frag_name(f3) == None::<Seq<char>>,
        frag_arguments(f3) == Some(a3),
    ensures
        ({
            let acc = acc_after_frags(Seq::empty(), seq![f1, f2, f3]);
            &&& acc.len() == 1
            &&& acc[0].id == id
            &&& acc[0].name == name
            &&& acc[0].arguments == a1 + a2 + a3
            &&& drain_events(acc) == seq![entry_event(acc[0])]
            &&& match entry_event(acc[0]) {
                Ok(EventView::ToolUse { raw_input, .. }) => raw_input == a1 + a2 + a3,
                Ok(EventView::ToolUseJsonParseError { raw_input, .. }) => raw_input == a1 + a2
                    + a3,
                _ => false,
            }
        }),
{
    let frags = seq![f1, f2, f3];
    assert(frags.drop_last() =~= seq![f1, f2]);
    assert(seq![f1, f2].drop_last() =~= seq![f1]);
    assert(seq![f1].drop_last() =~= Seq::<ToolCallChunk>::empty());
    let acc0 = Seq::<RawToolCallView>::empty();
    let e1 = entry_after_frag(fresh_entry(f1.index), f1);
    assert(find_entry(acc0, f1.index) == -1);
    assert(acc_after_frags(acc0, Seq::<ToolCallChunk>::empty()) == acc0);
    assert(seq![f1].last() == f1);
    let acc1 = acc_after_frags(acc0, seq![f1]);
    assert(acc1 == acc_after_frag(acc0, f1));
    assert(acc1 =~= seq![e1]);
    assert(e1.id == id && e1.name == name && e1.arguments =~= a1);
    assert(find_entry(acc1, f2.index) == 0);
    let e2 = entry_after_frag(e1, f2);
    assert(seq![f1, f2].last() == f2);
    let acc2 = acc_after_frags(acc0, seq![f1, f2]);
    assert(acc2 == acc_after_frag(acc1, f2));
    assert(acc2 =~= seq![e2]);
    assert(e2.id == id && e2.name == name && e2.arguments == a1 + a2);
    assert(find_entry(acc2, f3.index) == 0);
    let e3 = entry_after_frag(e2, f3);
    assert(frags.last() == f3);
    let acc3 = acc_after_frags(acc0, frags);
    assert(acc3 == acc_after_frag(acc2, f3));
    assert(acc3 =~= seq![e3]);
    assert(e3.arguments =~= a1 + a2 + a3);
    assert(acc3.drop_last() =~= Seq::<RawToolCallView>::empty());
    assert(drain_events(Seq::<RawToolCallView>::empty()) =~= Seq::<
        Result<EventView, ErrorView>,
    >::empty());
    assert(acc3.last() == acc3[0]);
    assert(drain_events(acc3) =~= seq![entry_event(acc3[0])]);
}

/// A chunk whose only payload is exactly one tool-call fragment.
pub open spec fn lone_fragment_chunk(c: StreamResponse, f: ToolCallChunk) -> bool {
    &&& c.choices@.len() == 1
    &&& c.choices@[0].delta.content is None
    &&& c.choices@[0].finish_reason is None
    &&& c.usage is None
    &&& match c.choices@[0].delta.tool_calls {
        Some(v) => v@ == seq![f],
        None => false,
    }
}

/// A chunk whose only payload is the `"tool_calls"` finish signal.
pub open spec fn tool_calls_finish_chunk(c: StreamResponse) -> bool {
    &&& c.choices@.len() == 1
    &&& c.choices@[0].delta.content is None
    &&& c.choices@[0].delta.tool_calls is None
    &&& c.usage is None
    &&& match c.choices@[0].finish_reason {
        Some(fr) => fr@ == "tool_calls"@,
        None => false,
    }
}

/// The streaming law over whole chunks: three chunks that split one tool
/// call's argument text across three fragments with one index emit no
/// event themselves; the finish chunk then drains exactly one outcome,
/// whose raw input is the concatenation of the three fragments in arrival
/// order, followed by the tool-use stop, and empties the accumulator.
pub proof fn lemma_chunked_arguments_concat(
    c1: StreamResponse,
    c2: StreamResponse,
    c3: StreamResponse,
    cf: StreamResponse,
    f1: ToolCallChunk,
    f2: ToolCallChunk,
    f3: ToolCallChunk,
    id: Seq<char>,
    name: Seq<char>,
    a1: Seq<char>,
    a2: Seq<char>,
    a3: Seq<char>,
)
    requires
        lone_fragment_chunk(c1, f1),
        lone_fragment_chunk(c2, f2),
        lone_fragment_chunk(c3, f3),
        tool_calls_finish_chunk(cf),
        f1.index == f2.index,
        f2.index == f3.index,
        frag_id(f1) == Some(id),
        id.len() > 0,
        frag_name(f1) == Some(name),
        name.len() > 0,
        frag_arguments(f1) == Some(a1),
        frag_id(f2) == None::<Seq<char>>,
        frag_name(f2) == None::<Seq<char>>,
        frag_arguments(f2) == Some(a2),
        frag_id(f3) == None::<Seq<char>>,
        frag_name(f3) == None::<Seq<char>>,
        frag_arguments(f3) == Some(a3),
    ensures
        ({
            let acc1 = acc_after_chunk(Seq::empty(), c1);
            let acc2 = acc_after_chunk(acc1, c2);
            let acc3 = acc_after_chunk(acc2, c3);
            &&& chunk_events(Seq::empty(), c1) == Seq::<Result<EventView, ErrorView>>::empty()
            &&& chunk_events(acc1, c2) == Seq::<Result<EventView, ErrorView>>::empty()
            &&& chunk_events(acc2, c3) == Seq::<Result<EventView, ErrorView>>::empty()
            &&& acc_after_chunk(acc3, cf) == Seq::<RawToolCallView>::empty()
            &&& chunk_events(acc3, cf).len() == 2
            &&& chunk_events(acc3, cf)[1] == Ok::<EventView, ErrorView>(
                EventView::Stop(StopReason::ToolUse),
            )
            &&& match chunk_events(acc3, cf)[0] {
                Ok(
                    EventView::ToolUse { id: rid, name: rname, raw_input, is_input_complete },
                ) => raw_input == a1 + a2 + a3 && rid == id && rname == name
                    && is_input_complete,
                Ok(EventView::ToolUseJsonParseError { id: rid, tool_name, raw_input }) =>
                    raw_input == a1 + a2 + a3 && rid == id && tool_name == name,
                _ => false,
            }
        }),
{
    lemma_fragment_concat(f1, f2, f3, id, name, a1, a2, a3);
    let acc0 = Seq::<RawToolCallView>::empty();
    let none_events = Seq::<Result<EventView, ErrorView>>::empty();

    let acc1 = acc_after_chunk(acc0, c1);
    assert(acc_after_frags(acc0, Seq::<ToolCallChunk>::empty()) == acc0);
    assert(seq![f1].last() == f1 && seq![f1].drop_last() =~= Seq::<ToolCallChunk>::empty());
    assert(acc1 == acc_after_frags(acc0, seq![f1]));
    assert(chunk_events(acc0, c1) =~= none_events);

    let acc2 = acc_after_chunk(acc1, c2);
    assert(acc_after_frags(acc1, Seq::<ToolCallChunk>::empty()) == acc1);
    assert(seq![f2].last() == f2 && seq![f2].drop_last() =~= Seq::<ToolCallChunk>::empty());
    assert(acc2 == acc_after_frag(acc1, f2));
    assert(seq![f1, f2].last() == f2 && seq![f1, f2].drop_last() =~= seq![f1]);
    assert(acc2 == acc_after_frags(acc0, seq![f1, f2]));
    assert(chunk_events(acc1, c2) =~= none_events);

    let acc3 = acc_after_chunk(acc2, c3);
    assert(acc_after_frags(acc2, Seq::<ToolCallChunk>::empty()) == acc2);
    assert(seq![f3].last() == f3 && seq![f3].drop_last() =~= Seq::<ToolCallChunk>::empty());
    assert(acc3 == acc_after_frag(acc2, f3));
    assert(seq![f1, f2, f3].last() == f3 && seq![f1, f2, f3].drop_last() =~= seq![f1, f2]);
    assert(acc3 == acc_after_frags(acc0, seq![f1, f2, f3]));
    assert(chunk_events(acc2, c3) =~= none_events);

    reveal_strlit("stop");
    reveal_strlit("tool_calls");
    assert("stop"@.len() == 4);
    assert("tool_calls"@.len() == 10);
    assert(acc_after_chunk(acc3, cf) == Seq::<RawToolCallView>::empty());
    assert(chunk_events(acc3, cf) =~= drain_events(acc3).push(
        Ok::<EventView, ErrorView>(EventView::Stop(StopReason::ToolUse)),
    ));
    assert(drain_events(acc3) == seq![entry_event(acc3[0])]);
}

/// The drain law: draining yields exactly one outcome per accumulated
/// entry, in accumulator order; an entry missing its id or name yields
/// the incomplete-tool-call error and no tool-use event, while every
/// complete entry in the same drain still yields its own outcome.
pub proof fn lemma_drain_outcomes(acc: Seq<RawToolCallView>)
    ensures
        drain_events(acc).len() == acc.len(),
        forall|k: int| 0 <= k < acc.len() ==> drain_events(acc)[k] == entry_event(acc[k]),
    decreases acc.len(),
{
    if acc.len() == 0 {
    } else {
        lemma_drain_outcomes(acc.drop_last());
    }
}

/// The lone-stop law: a chunk whose only payload is a `"stop"` finish
/// signal, consumed with no pending tool calls, yields exactly one
/// end-of-turn stop event and leaves the accumulator empty.
pub proof fn lemma_stop_yields_single_stop(acc: Seq<RawToolCallView>, chunk: StreamResponse)
    requires
        acc == Seq::<RawToolCallView>::empty(),
        chunk.choices@.len() == 1,
        chunk.choices@[0].delta.content is None,
        chunk.choices@[0].delta.tool_calls is None,
        chunk.usage is None,
        chunk.choices@[0].finish_reason matches Some(fr) && fr@ == "stop"@,
    ensures
        chunk_events(acc, chunk) == seq![
            Ok::<EventView, ErrorView>(EventView::Stop(StopReason::EndTurn)),
        ],
        acc_after_chunk(acc, chunk) == Seq::<RawToolCallView>::empty(),
{
    assert(chunk_events(acc, chunk) =~= seq![
        Ok::<EventView, ErrorView>(EventView::Stop(StopReason::EndTurn)),
    ]);
}

} // verus!
