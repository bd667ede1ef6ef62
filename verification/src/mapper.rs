//! The stream event mapper: decoded chunks in, vendor-neutral events out.
//!
//! One mapper serves one streaming call. It keeps an accumulator of
//! partially received tool calls, keyed by the stream-local fragment index;
//! fragments never emit events themselves. A `"tool_calls"` finish signal
//! drains the whole accumulator — the only removal path — parsing each
//! entry's argument text as JSON and emitting either a complete tool-use
//! event or a parse-error event per entry.

use vstd::prelude::*;
use vstd::string::StringExecFns;

use crate::events::{CompletionError, CompletionEvent, ErrorView, EventView, StopReason,
    TokenUsage, ToolUseEvent};
use crate::json::{parse_json, parses_as_json};
use crate::stream::{StreamResponse, ToolCallChunk};

verus! {

/// One accumulator entry: the fragments received so far for one tool-call
/// index.
#[derive(Debug)]
pub struct RawToolCall {
    pub index: usize,
    pub id: String,
    pub name: String,
    pub arguments: String,
}

/// Ghost view of a [`RawToolCall`].
#[verifier::ext_equal]
pub struct RawToolCallView {
    pub index: usize,
    pub id: Seq<char>,
    pub name: Seq<char>,
    pub arguments: Seq<char>,
}

impl DeepView for RawToolCall {
    type V = RawToolCallView;

    open spec fn deep_view(&self) -> RawToolCallView {
        RawToolCallView {
            index: self.index,
            id: self.id@,
            name: self.name@,
            arguments: self.arguments@,
        }
    }
}

/// Ghost view of one emitted outcome.
pub open spec fn outcome_view(x: Result<CompletionEvent, CompletionError>) -> Result<
    EventView,
    ErrorView,
> {
    match x {
        Ok(e) => Ok(e.deep_view()),
        Err(e) => Err(e.deep_view()),
    }
}

/// Ghost view of an emitted outcome sequence.
pub open spec fn outcomes_view(s: Seq<Result<CompletionEvent, CompletionError>>) -> Seq<
    Result<EventView, ErrorView>,
> {
    Seq::new(s.len(), |i: int| outcome_view(s[i]))
}

/// A fresh accumulator entry for the given index: all fields empty.
pub open spec fn fresh_entry(index: usize) -> RawToolCallView {
    RawToolCallView {
        index,
        id: Seq::empty(),
        name: Seq::empty(),
        arguments: Seq::empty(),
    }
}

/// One fragment's effect on one entry: a non-empty id overwrites the id, a
/// name overwrites the name, argument text is appended.
pub open spec fn entry_after_frag(e: RawToolCallView, frag: ToolCallChunk) -> RawToolCallView {
    let id1 = match frag.id {
        Some(id) => if id@.len() > 0 {
            id@
        } else {
            e.id
        },
        None => e.id,
    };
    let name1 = match frag.function {
        Some(f) => match f.name {
            Some(n) => n@,
            None => e.name,
        },
        None => e.name,
    };
    let args1 = match frag.function {
        Some(f) => match f.arguments {
            Some(a) => e.arguments + a@,
            None => e.arguments,
        },
        None => e.arguments,
    };
    RawToolCallView { index: e.index, id: id1, name: name1, arguments: args1 }
}

/// The position of the first entry with the given index, or -1.
pub open spec fn find_entry(acc: Seq<RawToolCallView>, index: usize) -> int
    decreases acc.len(),
{
    if acc.len() == 0 {
        -1
    } else if acc[0].index == index {
        0
    } else {
        let r = find_entry(acc.drop_first(), index);
        if r == -1 {
            -1
        } else {
            r + 1
        }
    }
}

/// What [`find_entry`] finds: the first matching position, if any.
pub proof fn lemma_find_entry_char(acc: Seq<RawToolCallView>, index: usize)
    ensures
        -1 <= find_entry(acc, index) < acc.len(),
        find_entry(acc, index) == -1 ==> forall|t: int|
            0 <= t < acc.len() ==> acc[t].index != index,
        find_entry(acc, index) >= 0 ==> acc[find_entry(acc, index)].index == index && forall|
            t: int,
        | 0 <= t < find_entry(acc, index) ==> acc[t].index != index,
    decreases acc.len(),
{
    if acc.len() == 0 {
    } else if acc[0].index == index {
    } else {
        lemma_find_entry_char(acc.drop_first(), index);
        assert forall|t: int| 1 <= t < acc.len() implies acc[t] == acc.drop_first()[t - 1] by {}
    }
}

/// One fragment's effect on the accumulator: update the entry with its
/// index, or append a freshly started one.
pub open spec fn acc_after_frag(acc: Seq<RawToolCallView>, frag: ToolCallChunk) -> Seq<
    RawToolCallView,
> {
    let k = find_entry(acc, frag.index);
    if k >= 0 {
        acc.update(k, entry_after_frag(acc[k], frag))
    } else {
        acc.push(entry_after_frag(fresh_entry(frag.index), frag))
    }
}

/// Left fold of [`acc_after_frag`] over a chunk's fragments.
pub open spec fn acc_after_frags(acc: Seq<RawToolCallView>, frags: Seq<ToolCallChunk>) -> Seq<
    RawToolCallView,
>
    decreases frags.len(),
{
    if frags.len() == 0 {
        acc
    } else {
        acc_after_frag(acc_after_frags(acc, frags.drop_last()), frags.last())
    }
}

/// The outcome one drained entry yields: an error for an incomplete call,
/// a tool-use event when its argument text parses as JSON, and a parse
/// error event otherwise.
pub open spec fn entry_event(e: RawToolCallView) -> Result<EventView, ErrorView> {
    if e.id.len() == 0 || e.name.len() == 0 {
        Err(ErrorView::IncompleteToolCall)
    } else if parses_as_json(e.arguments) {
        Ok(
            EventView::ToolUse {
                id: e.id,
                name: e.name,
                raw_input: e.arguments,
                is_input_complete: true,
            },
        )
    } else {
        Ok(EventView::ToolUseJsonParseError { id: e.id, tool_name: e.name, raw_input: e.arguments })
    }
}

/// The outcomes of draining the whole accumulator, in accumulator order.
pub open spec fn drain_events(acc: Seq<RawToolCallView>) -> Seq<Result<EventView, ErrorView>>
    decreases acc.len(),
{
    if acc.len() == 0 {
        Seq::empty()
    } else {
        drain_events(acc.drop_last()).push(entry_event(acc.last()))
    }
}

/// The accumulator state after one chunk: fragments are folded in, and a
/// `"tool_calls"` finish signal empties it.
pub open spec fn acc_after_chunk(acc: Seq<RawToolCallView>, chunk: StreamResponse) -> Seq<
    RawToolCallView,
> {
    if chunk.choices@.len() == 0 {
        acc
    } else {
        let choice = chunk.choices@[0];
        let acc1 = match choice.delta.tool_calls {
            Some(tcs) => acc_after_frags(acc, tcs@),
            None => acc,
        };
        match choice.finish_reason {
            Some(fr) => if fr@ == "tool_calls"@ {
                Seq::empty()
            } else {
                acc1
            },
            None => acc1,
        }
    }
}

/// The outcomes one chunk yields, in order: the text delta, the usage
/// update, then what the finish signal demands. A chunk without choices
/// yields exactly the no-choices error. An unrecognized finish reason is
/// reported as a normal end of turn: the stream fails open.
pub open spec fn chunk_events(acc: Seq<RawToolCallView>, chunk: StreamResponse) -> Seq<
    Result<EventView, ErrorView>,
> {
    if chunk.choices@.len() == 0 {
        seq![Err(ErrorView::NoChoices)]
    } else {
        let choice = chunk.choices@[0];
        let text_events = match choice.delta.content {
            Some(t) => seq![Ok(EventView::Text(t@))],
            None => Seq::<Result<EventView, ErrorView>>::empty(),
        };
        let acc1 = match choice.delta.tool_calls {
            Some(tcs) => acc_after_frags(acc, tcs@),
            None => acc,
        };
        let usage_events = match chunk.usage {
            Some(u) => seq![
                Ok(
                    EventView::UsageUpdate(
                        TokenUsage {
                            input_tokens: u.prompt_tokens,
                            output_tokens: u.completion_tokens,
                            cache_creation_input_tokens: 0,
                            cache_read_input_tokens: 0,
                        },
                    ),
                ),
            ],
            None => Seq::<Result<EventView, ErrorView>>::empty(),
        };
        let finish_events = match choice.finish_reason {
            Some(fr) => if fr@ == "stop"@ {
                seq![Ok(EventView::Stop(StopReason::EndTurn))]
            } else if fr@ == "tool_calls"@ {
                drain_events(acc1).push(Ok(EventView::Stop(StopReason::ToolUse)))
            } else {
                seq![Ok(EventView::Stop(StopReason::EndTurn))]
            },
            None => Seq::<Result<EventView, ErrorView>>::empty(),
        };
        text_events + usage_events + finish_events
    }
}

/// The accumulator after a whole prefix of the stream: transport errors
/// leave it untouched.
pub open spec fn stream_acc(
    acc: Seq<RawToolCallView>,
    items: Seq<Result<StreamResponse, String>>,
) -> Seq<RawToolCallView>
    decreases items.len(),
{
    if items.len() == 0 {
        acc
    } else {
        match items.last() {
            Ok(c) => acc_after_chunk(stream_acc(acc, items.drop_last()), c),
            Err(_) => stream_acc(acc, items.drop_last()),
        }
    }
}

/// Every outcome of a whole stream, in order: each decoded chunk
/// contributes its events, each transport failure one terminal error.
pub open spec fn stream_events(
    acc: Seq<RawToolCallView>,
    items: Seq<Result<StreamResponse, String>>,
) -> Seq<Result<EventView, ErrorView>>
    decreases items.len(),
{
    if items.len() == 0 {
        Seq::empty()
    } else {
        stream_events(acc, items.drop_last()) + match items.last() {
            Ok(c) => chunk_events(stream_acc(acc, items.drop_last()), c),
            Err(msg) => seq![Err(ErrorView::Transport(msg@))],
        }
    }
}

/// Pushing an outcome pushes its view.
proof fn lemma_outcomes_push(
    pre: Seq<Result<CompletionEvent, CompletionError>>,
    post: Seq<Result<CompletionEvent, CompletionError>>,
    x: Result<CompletionEvent, CompletionError>,
)
    requires
        post == pre.push(x),
    ensures
        outcomes_view(post) == outcomes_view(pre).push(outcome_view(x)),
{
    assert(outcomes_view(post) =~= outcomes_view(pre).push(outcome_view(x)));
}

/// The outcome view distributes over concatenation.
proof fn lemma_outcomes_concat(
    a: Seq<Result<CompletionEvent, CompletionError>>,
    b: Seq<Result<CompletionEvent, CompletionError>>,
)
    ensures
        outcomes_view(a + b) == outcomes_view(a) + outcomes_view(b),
{
    assert(outcomes_view(a + b) =~= outcomes_view(a) + outcomes_view(b));
}

/// Relies on `str`'s `PartialEq`: two string slices are equal exactly
/// when their character sequences are.
#[verifier::external_body]
fn str_eq(a: &str, b: &str) -> (r: bool)
    ensures
        r == (a@ == b@),
{
    a == b
}

/// The stateful mapper bound to one streaming call.
#[derive(Debug)]
pub struct MistralEventMapper {
    tool_calls_by_index: Vec<RawToolCall>,
}

impl MistralEventMapper {
    /// The accumulator's ghost contents, in insertion order of the
    /// indices.
    pub closed spec fn acc(&self) -> Seq<RawToolCallView> {
        self.tool_calls_by_index.deep_view()
    }

    /// A fresh mapper with an empty accumulator.
    pub fn new() -> (r: MistralEventMapper)
        ensures
            r.acc() == Seq::<RawToolCallView>::empty(),
    {
        let r = MistralEventMapper { tool_calls_by_index: Vec::new() };
        proof {
            assert(r.acc() =~= Seq::<RawToolCallView>::empty());
        }
        r
    }

    /// Consumes one decoded chunk and returns the events it yields, in
    /// order; the accumulator advances as [`acc_after_chunk`] says.
    pub fn map_event(&mut self, chunk: &StreamResponse) -> (events: Vec<
        Result<CompletionEvent, CompletionError>,
    >)
        ensures
            final(self).acc() == acc_after_chunk(old(self).acc(), *chunk),
            outcomes_view(events@) == chunk_events(old(self).acc(), *chunk),
    {
        let ghost acc0 = self.acc();
        let mut events: Vec<Result<CompletionEvent, CompletionError>> = Vec::new();
        if chunk.choices.len() == 0 {
            let ghost preve = events@;
            events.push(Err(CompletionError::NoChoices));
            proof {
                lemma_outcomes_push(preve, events@, Err(CompletionError::NoChoices));
                assert(outcomes_view(events@) =~= chunk_events(acc0, *chunk));
            }
            return events;
        }
        let choice = &chunk.choices[0];
        if let Some(content) = &choice.delta.content {
            let ghost preve = events@;
            let ev = CompletionEvent::Text(content.clone());
            let ghost evg = ev;
            events.push(Ok(ev));
            proof {
                lemma_outcomes_push(preve, events@, Ok(evg));
            }
        }
        if let Some(tool_calls) = &choice.delta.tool_calls {
            self.apply_fragments(tool_calls);
        }
        let ghost acc1 = self.acc();
        if let Some(usage) = &chunk.usage {
            let ghost preve = events@;
            let ev = CompletionEvent::UsageUpdate(
                TokenUsage {
                    input_tokens: usage.prompt_tokens,
                    output_tokens: usage.completion_tokens,
                    cache_creation_input_tokens: 0,
                    cache_read_input_tokens: 0,
                },
            );
            let ghost evg = ev;
            events.push(Ok(ev));
            proof {
                lemma_outcomes_push(preve, events@, Ok(evg));
            }
        }
        if let Some(finish_reason) = &choice.finish_reason {
            proof {
                reveal_strlit("stop");
                reveal_strlit("tool_calls");
                assert("stop"@.len() == 4);
                assert("tool_calls"@.len() == 10);
            }
            if str_eq(finish_reason.as_str(), "stop") {
                let ghost preve = events@;
                events.push(Ok(CompletionEvent::Stop(StopReason::EndTurn)));
                proof {
                    lemma_outcomes_push(
                        preve,
                        events@,
                        Ok(CompletionEvent::Stop(StopReason::EndTurn)),
                    );
                }
            } else if str_eq(finish_reason.as_str(), "tool_calls") {
                let ghost preve = events@;
                let mut drained = self.process_tool_calls();
                let ghost drainedg = drained@;
                events.append(&mut drained);
                proof {
                    lemma_outcomes_concat(preve, drainedg);
                }
                let ghost preve2 = events@;
                events.push(Ok(CompletionEvent::Stop(StopReason::ToolUse)));
                proof {
                    lemma_outcomes_push(
                        preve2,
                        events@,
                        Ok(CompletionEvent::Stop(StopReason::ToolUse)),
                    );
                }
            } else {
                let ghost preve = events@;
                events.push(Ok(CompletionEvent::Stop(StopReason::EndTurn)));
                proof {
                    lemma_outcomes_push(
                        preve,
                        events@,
                        Ok(CompletionEvent::Stop(StopReason::EndTurn)),
                    );
                }
            }
        }
        proof {
            assert(outcomes_view(events@) =~= chunk_events(acc0, *chunk));
        }
        events
    }

    /// Consumes the mapper and a whole decoded stream: chunks in arrival
    /// order, transport failures as their error text. Events come out in
    /// order; a transport failure becomes one terminal error outcome and
    /// the accumulator carries over to any later chunks.
    pub fn map_stream(self, items: Vec<Result<StreamResponse, String>>) -> (events: Vec<
        Result<CompletionEvent, CompletionError>,
    >)
        ensures
            outcomes_view(events@) == stream_events(self.acc(), items@),
    {
        let ghost acc0 = self.acc();
        let mut this = self;
        let mut events: Vec<Result<CompletionEvent, CompletionError>> = Vec::new();
        let mut k: usize = 0;
        proof {
            assert(outcomes_view(events@) =~= stream_events(acc0, items@.take(0)));
        }
        while k < items.len()
            invariant
                k <= items@.len(),
                this.acc() == stream_acc(acc0, items@.take(k as int)),
                outcomes_view(events@) == stream_events(acc0, items@.take(k as int)),
            decreases items@.len() - k,
        {
            match &items[k] {
                Ok(chunk) => {
                    let mut evs = this.map_event(chunk);
                    let ghost evsg = evs@;
                    let ghost preve = events@;
                    events.append(&mut evs);
                    proof {
                        lemma_outcomes_concat(preve, evsg);
                    }
                },
                Err(msg) => {
                    let ghost preve = events@;
                    let ev = CompletionError::Transport(msg.clone());
                    let ghost evg = ev;
                    events.push(Err(ev));
                    proof {
                        lemma_outcomes_push(preve, events@, Err(evg));
                    }
                },
            }
            proof {
                assert(items@.take(k + 1).drop_last() =~= items@.take(k as int));
                assert(items@.take(k + 1).last() == items@[k as int]);
                assert(this.acc() =~= stream_acc(acc0, items@.take(k + 1)));
                assert(outcomes_view(events@) =~= stream_events(acc0, items@.take(k + 1)));
            }
            k += 1;
        }
        proof {
            assert(items@.take(items@.len() as int) =~= items@);
        }
        events
    }

    /// Folds each fragment of one chunk into the accumulator.
    fn apply_fragments(&mut self, frags: &Vec<ToolCallChunk>)
        ensures
            final(self).acc() == acc_after_frags(old(self).acc(), frags@),
    {
        let mut j: usize = 0;
        while j < frags.len()
            invariant
                j <= frags.len(),
                self.acc() == acc_after_frags(old(self).acc(), frags@.take(j as int)),
            decreases frags.len() - j,
        {
            self.apply_fragment(&frags[j]);
            proof {
                assert(frags@.take(j + 1).drop_last() =~= frags@.take(j as int));
                assert(frags@.take(j + 1).last() == frags@[j as int]);
            }
            j += 1;
        }
        proof {
            assert(frags@.take(frags@.len() as int) =~= frags@);
        }
    }

    /// Folds one fragment into the accumulator.
    fn apply_fragment(&mut self, frag: &ToolCallChunk)
        ensures
            final(self).acc() == acc_after_frag(old(self).acc(), *frag),
    {
        let slot = find_slot(&self.tool_calls_by_index, frag.index);
        match slot {
            Some(k) => {
                let ghost prevv = self.tool_calls_by_index;
                let mut e = self.tool_calls_by_index.remove(k);
                update_entry(&mut e, frag);
                let ghost eg = e;
                let ghost midv = self.tool_calls_by_index;
                self.tool_calls_by_index.insert(k, e);
                proof {
                    crate::deep::lemma_update_deep(
                        prevv,
                        midv,
                        self.tool_calls_by_index,
                        k as int,
                        eg,
                    );
                }
            },
            None => {
                let mut e = RawToolCall {
                    index: frag.index,
                    id: String::new(),
                    name: String::new(),
                    arguments: String::new(),
                };
                proof {
                    assert(e.deep_view() =~~= fresh_entry(frag.index));
                }
                update_entry(&mut e, frag);
                let ghost eg = e;
                let ghost prevv = self.tool_calls_by_index;
                self.tool_calls_by_index.push(e);
                proof {
                    crate::deep::lemma_push_deep(prevv, self.tool_calls_by_index, eg);
                }
            },
        }
    }

    /// Drains the accumulator completely, yielding one outcome per entry.
    fn process_tool_calls(&mut self) -> (events: Vec<Result<CompletionEvent, CompletionError>>)
        ensures
            final(self).acc() == Seq::<RawToolCallView>::empty(),
            outcomes_view(events@) == drain_events(old(self).acc()),
    {
        let ghost orig = self.acc();
        let mut events: Vec<Result<CompletionEvent, CompletionError>> = Vec::new();
        let ghost mut done: int = 0;
        proof {
            assert(self.acc() =~= orig.skip(0));
            assert(outcomes_view(events@) =~= drain_events(orig.take(0)));
        }
        while self.tool_calls_by_index.len() > 0
            invariant
                0 <= done,
                done + self.tool_calls_by_index@.len() == orig.len(),
                self.acc() == orig.skip(done),
                outcomes_view(events@) == drain_events(orig.take(done)),
            decreases self.tool_calls_by_index@.len(),
        {
            let ghost prevv = self.tool_calls_by_index;
            let e = self.tool_calls_by_index.remove(0);
            proof {
                crate::deep::lemma_remove_front_deep(prevv, self.tool_calls_by_index, e);
                assert(orig.skip(done).skip(1) =~= orig.skip(done + 1));
                assert(e.deep_view() == orig[done]);
            }
            let ghost preve = events@;
            if e.id.as_str().is_empty() || e.name.as_str().is_empty() {
                events.push(Err(CompletionError::IncompleteToolCall));
                proof {
                    lemma_outcomes_push(preve, events@, Err(CompletionError::IncompleteToolCall));
                }
            } else {
                match parse_json(e.arguments.as_str()) {
                    Ok(input) => {
                        let ev = CompletionEvent::ToolUse(
                            ToolUseEvent {
                                id: e.id,
                                name: e.name,
                                is_input_complete: true,
                                input,
                                raw_input: e.arguments,
                            },
                        );
                        let ghost evg = ev;
                        events.push(Ok(ev));
                        proof {
                            lemma_outcomes_push(preve, events@, Ok(evg));
                        }
                    },
                    Err(json_parse_error) => {
                        let ev = CompletionEvent::ToolUseJsonParseError {
                            id: e.id,
                            tool_name: e.name,
                            raw_input: e.arguments,
                            json_parse_error,
                        };
                        let ghost evg = ev;
                        events.push(Ok(ev));
                        proof {
                            lemma_outcomes_push(preve, events@, Ok(evg));
                        }
                    },
                }
            }
            proof {
                assert(orig.take(done + 1).drop_last() =~= orig.take(done));
                assert(orig.take(done + 1).last() == orig[done]);
                assert(outcomes_view(events@) =~~= drain_events(orig.take(done + 1)));
                done = done + 1;
            }
        }
        proof {
            assert(orig.take(orig.len() as int) =~= orig);
            assert(self.acc() =~= Seq::<RawToolCallView>::empty());
        }
        events
    }
}

/// Overwrites an entry's id and name and appends argument text, as one
/// fragment demands.
fn update_entry(e: &mut RawToolCall, frag: &ToolCallChunk)
    ensures
        final(e).deep_view() == entry_after_frag(old(e).deep_view(), *frag),
{
    if let Some(id) = &frag.id {
        if !id.as_str().is_empty() {
            e.id = id.clone();
        }
    }
    if let Some(function) = &frag.function {
        if let Some(name) = &function.name {
            e.name = name.clone();
        }
        if let Some(arguments) = &function.arguments {
            e.arguments.append(arguments.as_str());
        }
    }
}

/// Finds the position of the accumulator entry with the given index.
fn find_slot(v: &Vec<RawToolCall>, index: usize) -> (r: Option<usize>)
    ensures
        match r {
            Some(k) => 0 <= k < v.deep_view().len() && find_entry(v.deep_view(), index)
                == k as int,
            None => find_entry(v.deep_view(), index) == -1,
        },
{
    let mut k: usize = 0;
    while k < v.len()
        invariant
            k <= v@.len(),
            forall|t: int| 0 <= t < k ==> v.deep_view()[t].index != index,
        decreases v@.len() - k,
    {
        if v[k].index == index {
            proof {
                lemma_find_entry_char(v.deep_view(), index);
                assert(v.deep_view()[k as int] == v@[k as int].deep_view());
                assert(v.deep_view()[k as int].index == index);
                let f = find_entry(v.deep_view(), index);
                if f < k {
                    assert(f >= 0);
                    assert(v.deep_view()[f].index == index);
                    assert(false);
                }
                if f > k {
                    assert(v.deep_view()[k as int].index != index);
                    assert(false);
                }
            }
            return Some(k);
        }
        proof {
            assert(v.deep_view()[k as int] == v@[k as int].deep_view());
        }
        k += 1;
    }
    proof {
        lemma_find_entry_char(v.deep_view(), index);
        let f = find_entry(v.deep_view(), index);
        if f >= 0 {
            assert(v.deep_view()[f].index == index);
            assert(false);
        }
    }
    None
}

} // verus!
