//! The request translator: a neutral request becomes one wire request.
//!
//! Translation is a left fold over the messages. Each (role, content-kind)
//! pair has one effect on the wire message list, spelled out by the spec
//! functions below; a post-pass then repairs the provider's ordering
//! constraint (no `Tool` message directly before a `User` message) by
//! splicing in a placeholder assistant message.

use vstd::prelude::*;
use vstd::string::StringExecFns;

use crate::request::{Message, MessageContent, Request, Role, ToolChoice, ToolDefinition,
    ToolResultContent, ToolUseRequest};
use crate::wire;
use crate::wire::{ContentView, MessageView, PartView, ToolCallView, ToolDefView};

verus! {

/// The data-URL prefix put in front of a base64 image source.
pub open spec fn spec_image_url_prefix() -> Seq<char> {
    "data:image/png;base64,"@
}

/// The text that stands in for an image a tool handed back.
pub open spec fn spec_image_placeholder() -> Seq<char> {
    "[Tool responded with an image, but images in tool results are not supported here yet]"@
}

/// The placeholder assistant message spliced between a tool message and a
/// user message: non-empty whitespace content, no tool calls.
pub open spec fn placeholder_assistant() -> MessageView {
    MessageView::Assistant { content: Some(" "@), tool_calls: Seq::empty() }
}

/// Wire messages produced by a system message's parts: one `System`
/// message per text or thinking part, all else dropped.
pub open spec fn system_msgs(parts: Seq<MessageContent>) -> Seq<MessageView>
    decreases parts.len(),
{
    if parts.len() == 0 {
        Seq::empty()
    } else {
        system_msgs(parts.drop_last()) + match parts.last() {
            MessageContent::Text(t) => seq![MessageView::System { content: t@ }],
            MessageContent::Thinking(t) => seq![MessageView::System { content: t@ }],
            _ => Seq::<MessageView>::empty(),
        }
    }
}

/// The multipart items of a user message: text and thinking become text
/// parts, an image becomes an image reference, all else contributes none.
pub open spec fn user_parts(parts: Seq<MessageContent>) -> Seq<PartView>
    decreases parts.len(),
{
    if parts.len() == 0 {
        Seq::empty()
    } else {
        user_parts(parts.drop_last()) + match parts.last() {
            MessageContent::Text(t) => seq![PartView::Text(t@)],
            MessageContent::Thinking(t) => seq![PartView::Text(t@)],
            MessageContent::Image(src) => seq![
                PartView::ImageUrl(spec_image_url_prefix() + src@),
            ],
            _ => Seq::<PartView>::empty(),
        }
    }
}

/// The text a tool result contributes: its own text, or the fixed
/// placeholder when the tool answered with an image.
pub open spec fn tool_result_text(c: ToolResultContent) -> Seq<char> {
    match c {
        ToolResultContent::Text(t) => t@,
        ToolResultContent::Image(_) => spec_image_placeholder(),
    }
}

/// The `Tool` wire messages a user message's tool results produce, in
/// content order. They precede the `User` message built from the same turn.
pub open spec fn user_tool_msgs(parts: Seq<MessageContent>) -> Seq<MessageView>
    decreases parts.len(),
{
    if parts.len() == 0 {
        Seq::empty()
    } else {
        user_tool_msgs(parts.drop_last()) + match parts.last() {
            MessageContent::ToolResult(tr) => seq![
                MessageView::Tool {
                    content: tool_result_text(tr.content),
                    tool_call_id: tr.tool_use_id@,
                },
            ],
            _ => Seq::<MessageView>::empty(),
        }
    }
}

/// The `User` wire message of a turn, or nothing when no part survived:
/// an empty user turn is not sent.
pub open spec fn user_tail(parts: Seq<MessageContent>) -> Seq<MessageView> {
    if user_parts(parts).len() == 0 {
        Seq::empty()
    } else {
        seq![MessageView::User { content: ContentView::Multipart(user_parts(parts)) }]
    }
}

/// The tool-call record an assistant tool-use part becomes.
pub open spec fn asst_tool_call(t: ToolUseRequest) -> ToolCallView {
    ToolCallView { id: t.id@, name: t.name@, arguments: t.input@ }
}

/// The effect of one assistant content part on the wire message list: text
/// opens a fresh assistant message; a tool use attaches to the trailing
/// assistant message if there is one, else opens a bare one; the rest is
/// dropped.
pub open spec fn asst_step(acc: Seq<MessageView>, part: MessageContent) -> Seq<MessageView> {
    match part {
        MessageContent::Text(t) => acc.push(
            MessageView::Assistant { content: Some(t@), tool_calls: Seq::empty() },
        ),
        MessageContent::Thinking(t) => acc.push(
            MessageView::Assistant { content: Some(t@), tool_calls: Seq::empty() },
        ),
        MessageContent::ToolUse(tu) => {
            if acc.len() > 0 {
                match acc.last() {
                    MessageView::Assistant { content, tool_calls } => acc.update(
                        acc.len() - 1,
                        MessageView::Assistant {
                            content,
                            tool_calls: tool_calls.push(asst_tool_call(tu)),
                        },
                    ),
                    _ => acc.push(
                        MessageView::Assistant {
                            content: None,
                            tool_calls: seq![asst_tool_call(tu)],
                        },
                    ),
                }
            } else {
                acc.push(
                    MessageView::Assistant {
                        content: None,
                        tool_calls: seq![asst_tool_call(tu)],
                    },
                )
            }
        },
        _ => acc,
    }
}

/// Left fold of [`asst_step`] over an assistant message's parts.
pub open spec fn asst_fold(acc: Seq<MessageView>, parts: Seq<MessageContent>) -> Seq<MessageView>
    decreases parts.len(),
{
    if parts.len() == 0 {
        acc
    } else {
        asst_step(asst_fold(acc, parts.drop_last()), parts.last())
    }
}

/// The effect of one whole neutral message on the wire message list.
pub open spec fn translate_one(acc: Seq<MessageView>, m: Message) -> Seq<MessageView> {
    match m.role {
        Role::System => acc + system_msgs(m.content@),
        Role::User => acc + user_tool_msgs(m.content@) + user_tail(m.content@),
        Role::Assistant => asst_fold(acc, m.content@),
    }
}

/// Left fold of [`translate_one`] over all messages, before the repair
/// pass.
pub open spec fn translate_messages(msgs: Seq<Message>) -> Seq<MessageView>
    decreases msgs.len(),
{
    if msgs.len() == 0 {
        Seq::empty()
    } else {
        translate_one(translate_messages(msgs.drop_last()), msgs.last())
    }
}

/// The adjacent pair the wire format forbids.
pub open spec fn needs_placeholder(a: MessageView, b: MessageView) -> bool {
    a is Tool && b is User
}

/// The repair pass from position `i` on: copy each message, and after a
/// `Tool` message directly followed by a `User` message splice in the
/// placeholder assistant message.
pub open spec fn repair_from(s: Seq<MessageView>, i: int) -> Seq<MessageView>
    decreases s.len() - i,
{
    if i < 0 || i >= s.len() {
        Seq::empty()
    } else {
        seq![s[i]] + (if i + 1 < s.len() && needs_placeholder(s[i], s[i + 1]) {
            seq![placeholder_assistant()]
        } else {
            Seq::<MessageView>::empty()
        }) + repair_from(s, i + 1)
    }
}

/// The repair pass over a whole message sequence.
pub open spec fn repair(s: Seq<MessageView>) -> Seq<MessageView> {
    repair_from(s, 0)
}

/// The wire tool-choice field: `Auto` and `Any` pass through only beside a
/// non-empty tool list, `NoTool` always passes through, no explicit choice
/// beside tools defaults to `Auto`, and an empty tool list otherwise means
/// no field at all.
pub open spec fn wire_tool_choice(
    choice: Option<ToolChoice>,
    n_tools: nat,
) -> Option<wire::ToolChoice> {
    match choice {
        Some(ToolChoice::Auto) => if n_tools > 0 {
            Some(wire::ToolChoice::Auto)
        } else {
            None
        },
        Some(ToolChoice::Any) => if n_tools > 0 {
            Some(wire::ToolChoice::Any)
        } else {
            None
        },
        Some(ToolChoice::NoTool) => Some(wire::ToolChoice::NoTool),
        None => if n_tools > 0 {
            Some(wire::ToolChoice::Auto)
        } else {
            None
        },
    }
}

/// The wire form of one tool definition.
pub open spec fn wire_tool_of(t: ToolDefinition) -> ToolDefView {
    ToolDefView {
        name: t.name@,
        description: Some(t.description@),
        parameters: Some(t.input_schema@),
    }
}

/// The wire forms of all tool definitions, in order.
pub open spec fn wire_tools(ts: Seq<ToolDefinition>) -> Seq<ToolDefView>
    decreases ts.len(),
{
    if ts.len() == 0 {
        Seq::empty()
    } else {
        wire_tools(ts.drop_last()).push(wire_tool_of(ts.last()))
    }
}

/// Builds the data URL for a base64 image source.
fn image_data_url(src: &String) -> (r: String)
    ensures
        r@ == spec_image_url_prefix() + src@,
{
    let mut u = String::from_str("data:image/png;base64,");
    u.append(src.as_str());
    u
}

/// The placeholder text for an image-valued tool result.
fn image_placeholder_text() -> (r: String)
    ensures
        r@ == spec_image_placeholder(),
{
    String::from_str(
        "[Tool responded with an image, but images in tool results are not supported here yet]",
    )
}

/// The placeholder assistant message, as an executable value.
fn placeholder_assistant_msg() -> (r: wire::RequestMessage)
    ensures
        r.deep_view() == placeholder_assistant(),
{
    let r = wire::RequestMessage::Assistant {
        content: Some(String::from_str(" ")),
        tool_calls: Vec::new(),
    };
    proof {
        assert(r.deep_view() =~~= placeholder_assistant());
    }
    r
}

/// Appends the wire messages of one system message's parts.
fn translate_system_parts(msgs: &mut Vec<wire::RequestMessage>, content: &Vec<MessageContent>)
    ensures
        final(msgs).deep_view() == old(msgs).deep_view() + system_msgs(content@),
{
    let mut j: usize = 0;
    while j < content.len()
        invariant
            j <= content.len(),
            msgs.deep_view() == old(msgs).deep_view() + system_msgs(content@.take(j as int)),
        decreases content.len() - j,
    {
        match &content[j] {
            MessageContent::Text(t) => {
                let m = wire::RequestMessage::System { content: t.clone() };
                let ghost mg = m;
                let ghost prevv = *msgs;
                msgs.push(m);
                proof {
                    crate::deep::lemma_push_deep(prevv, *msgs, mg);
                }
            },
            MessageContent::Thinking(t) => {
                let m = wire::RequestMessage::System { content: t.clone() };
                let ghost mg = m;
                let ghost prevv = *msgs;
                msgs.push(m);
                proof {
                    crate::deep::lemma_push_deep(prevv, *msgs, mg);
                }
            },
            _ => {},
        }
        proof {
            assert(content@.take(j + 1).drop_last() =~= content@.take(j as int));
            assert(content@.take(j + 1).last() == content@[j as int]);
            assert(msgs.deep_view() =~~= old(msgs).deep_view() + system_msgs(
                content@.take(j + 1),
            ));
        }
        j += 1;
    }
    proof {
        assert(content@.take(content@.len() as int) =~= content@);
    }
}

/// Appends the wire messages of one user message: the `Tool` messages of
/// its tool results, then the `User` message itself unless no part
/// survived.
fn translate_user_message(msgs: &mut Vec<wire::RequestMessage>, content: &Vec<MessageContent>)
    ensures
        final(msgs).deep_view() == old(msgs).deep_view() + user_tool_msgs(content@) + user_tail(
            content@,
        ),
{
    let mut parts: Vec<wire::MessagePart> = Vec::new();
    let mut j: usize = 0;
    while j < content.len()
        invariant
            j <= content.len(),
            msgs.deep_view() == old(msgs).deep_view() + user_tool_msgs(content@.take(j as int)),
            parts.deep_view() == user_parts(content@.take(j as int)),
        decreases content.len() - j,
    {
        match &content[j] {
            MessageContent::Text(t) => {
                let p = wire::MessagePart::Text { text: t.clone() };
                let ghost pg = p;
                let ghost prevp = parts;
                parts.push(p);
                proof {
                    crate::deep::lemma_push_deep(prevp, parts, pg);
                }
            },
            MessageContent::Thinking(t) => {
                let p = wire::MessagePart::Text { text: t.clone() };
                let ghost pg = p;
                let ghost prevp = parts;
                parts.push(p);
                proof {
                    crate::deep::lemma_push_deep(prevp, parts, pg);
                }
            },
            MessageContent::Image(src) => {
                let p = wire::MessagePart::ImageUrl { image_url: image_data_url(src) };
                let ghost pg = p;
                let ghost prevp = parts;
                parts.push(p);
                proof {
                    crate::deep::lemma_push_deep(prevp, parts, pg);
                }
            },
            MessageContent::RedactedThinking(_) => {},
            MessageContent::ToolUse(_) => {},
            MessageContent::ToolResult(tr) => {
                let text = match &tr.content {
                    ToolResultContent::Text(t) => t.clone(),
                    ToolResultContent::Image(_) => image_placeholder_text(),
                };
                let m = wire::RequestMessage::Tool {
                    content: text,
                    tool_call_id: tr.tool_use_id.clone(),
                };
                let ghost mg = m;
                let ghost prevv = *msgs;
                msgs.push(m);
                proof {
                    crate::deep::lemma_push_deep(prevv, *msgs, mg);
                }
            },
        }
        proof {
            assert(content@.take(j + 1).drop_last() =~= content@.take(j as int));
            assert(content@.take(j + 1).last() == content@[j as int]);
            assert(msgs.deep_view() =~~= old(msgs).deep_view() + user_tool_msgs(
                content@.take(j + 1),
            ));
            assert(parts.deep_view() =~~= user_parts(content@.take(j + 1)));
        }
        j += 1;
    }
    proof {
        assert(content@.take(content@.len() as int) =~= content@);
    }
    if parts.len() > 0 {
        let m = wire::RequestMessage::User {
            content: wire::MessageContent::Multipart { content: parts },
        };
        let ghost mg = m;
        let ghost prevv = *msgs;
        msgs.push(m);
        proof {
            crate::deep::lemma_push_deep(prevv, *msgs, mg);
            assert(msgs.deep_view() =~~= old(msgs).deep_view() + user_tool_msgs(content@)
                + user_tail(content@));
        }
    } else {
        proof {
            assert(msgs.deep_view() =~~= old(msgs).deep_view() + user_tool_msgs(content@)
                + user_tail(content@));
        }
    }
}

/// Applies [`asst_step`] for each assistant content part.
fn translate_assistant_parts(msgs: &mut Vec<wire::RequestMessage>, content: &Vec<MessageContent>)
    ensures
        final(msgs).deep_view() == asst_fold(old(msgs).deep_view(), content@),
{
    let mut j: usize = 0;
    while j < content.len()
        invariant
            j <= content.len(),
            msgs.deep_view() == asst_fold(old(msgs).deep_view(), content@.take(j as int)),
        decreases content.len() - j,
    {
        let ghost prev = msgs.deep_view();
        match &content[j] {
            MessageContent::Text(t) => {
                let m = wire::RequestMessage::Assistant {
                    content: Some(t.clone()),
                    tool_calls: Vec::new(),
                };
                let ghost mg = m;
                let ghost prevv = *msgs;
                msgs.push(m);
                proof {
                    crate::deep::lemma_push_deep(prevv, *msgs, mg);
                    assert(mg.deep_view() =~~= MessageView::Assistant {
                        content: Some(t@),
                        tool_calls: Seq::empty(),
                    });
                }
            },
            MessageContent::Thinking(t) => {
                let m = wire::RequestMessage::Assistant {
                    content: Some(t.clone()),
                    tool_calls: Vec::new(),
                };
                let ghost mg = m;
                let ghost prevv = *msgs;
                msgs.push(m);
                proof {
                    crate::deep::lemma_push_deep(prevv, *msgs, mg);
                    assert(mg.deep_view() =~~= MessageView::Assistant {
                        content: Some(t@),
                        tool_calls: Seq::empty(),
                    });
                }
            },
            MessageContent::ToolUse(tu) => {
                let tc = wire::ToolCall {
                    id: tu.id.clone(),
                    name: tu.name.clone(),
                    arguments: tu.input.clone(),
                };
                let ghost tcg = tc;
                proof {
                    assert(tcg.deep_view() == asst_tool_call(*tu));
                }
                if msgs.len() > 0 {
                    let ghost prevv = *msgs;
                    let popped = msgs.pop();
                    let last = popped.unwrap();
                    proof {
                        crate::deep::lemma_pop_deep(prevv, *msgs, last);
                    }
                    match last {
                        wire::RequestMessage::Assistant { content: c, tool_calls: tcs0 } => {
                            let ghost tcs0g = tcs0;
                            let mut tcs = tcs0;
                            tcs.push(tc);
                            proof {
                                crate::deep::lemma_push_deep(tcs0g, tcs, tcg);
                            }
                            let m2 = wire::RequestMessage::Assistant {
                                content: c,
                                tool_calls: tcs,
                            };
                            let ghost m2g = m2;
                            let ghost prevv2 = *msgs;
                            msgs.push(m2);
                            proof {
                                crate::deep::lemma_push_deep(prevv2, *msgs, m2g);
                                assert(msgs.deep_view() =~~= prev.update(
                                    prev.len() - 1,
                                    m2g.deep_view(),
                                ));
                            }
                        },
                        other => {
                            let ghost og = other;
                            let ghost prevv2 = *msgs;
                            msgs.push(other);
                            proof {
                                crate::deep::lemma_push_deep(prevv2, *msgs, og);
                            }
                            let mut one: Vec<wire::ToolCall> = Vec::new();
                            let ghost oneg = one;
                            one.push(tc);
                            proof {
                                crate::deep::lemma_push_deep(oneg, one, tcg);
                            }
                            let m2 = wire::RequestMessage::Assistant {
                                content: None,
                                tool_calls: one,
                            };
                            let ghost m2g = m2;
                            let ghost prevv3 = *msgs;
                            msgs.push(m2);
                            proof {
                                crate::deep::lemma_push_deep(prevv3, *msgs, m2g);
                                assert(m2g.deep_view() =~~= MessageView::Assistant {
                                    content: None,
                                    tool_calls: seq![asst_tool_call(*tu)],
                                });
                                assert(msgs.deep_view() =~~= prev.push(m2g.deep_view()));
                            }
                        },
                    }
                } else {
                    let mut one: Vec<wire::ToolCall> = Vec::new();
                    let ghost oneg = one;
                    one.push(tc);
                    proof {
                        crate::deep::lemma_push_deep(oneg, one, tcg);
                    }
                    let m2 = wire::RequestMessage::Assistant { content: None, tool_calls: one };
                    let ghost m2g = m2;
                    let ghost prevv = *msgs;
                    msgs.push(m2);
                    proof {
                        crate::deep::lemma_push_deep(prevv, *msgs, m2g);
                        assert(m2g.deep_view() =~~= MessageView::Assistant {
                            content: None,
                            tool_calls: seq![asst_tool_call(*tu)],
                        });
                    }
                }
            },
            _ => {},
        }
        proof {
            assert(content@.take(j + 1).drop_last() =~= content@.take(j as int));
            assert(content@.take(j + 1).last() == content@[j as int]);
            assert(msgs.deep_view() =~~= asst_step(prev, content@[j as int]));
        }
        j += 1;
    }
    proof {
        assert(content@.take(content@.len() as int) =~= content@);
    }
}

/// The repair pass: splices the placeholder assistant message into each
/// forbidden `Tool`-then-`User` pair.
fn repair_messages(msgs: Vec<wire::RequestMessage>) -> (r: Vec<wire::RequestMessage>)
    ensures
        r.deep_view() == repair(msgs.deep_view()),
{
    let ghost orig: Seq<MessageView> = msgs.deep_view();
    let mut out: Vec<wire::RequestMessage> = Vec::new();
    let mut rest = msgs;
    let ghost mut i: int = 0;
    proof {
        assert(rest.deep_view() =~= orig.skip(0));
    }
    while rest.len() > 0
        invariant
            0 <= i,
            i + rest@.len() == orig.len(),
            rest.deep_view() == orig.skip(i),
            out.deep_view() + repair_from(orig, i) == repair_from(orig, 0),
        decreases rest@.len(),
    {
        let ghost restv = *(&rest);
        let m = rest.remove(0);
        proof {
            crate::deep::lemma_remove_front_deep(restv, rest, m);
            assert(orig.skip(i).skip(1) =~= orig.skip(i + 1));
            assert(m.deep_view() == orig[i]);
        }
        let is_tool = matches!(m, wire::RequestMessage::Tool { .. });
        proof {
            assert(is_tool == (orig[i] is Tool));
        }
        let ghost mg = m;
        let ghost outv = out;
        out.push(m);
        proof {
            crate::deep::lemma_push_deep(outv, out, mg);
        }
        if is_tool && rest.len() > 0 {
            let next_is_user = matches!(&rest[0], wire::RequestMessage::User { .. });
            proof {
                assert(rest.deep_view()[0] == rest@[0].deep_view());
                assert(rest@[0].deep_view() == orig[i + 1]);
                assert(next_is_user == (orig[i + 1] is User));
            }
            if next_is_user {
                let ph = placeholder_assistant_msg();
                let ghost phg = ph;
                let ghost outv2 = out;
                out.push(ph);
                proof {
                    crate::deep::lemma_push_deep(outv2, out, phg);
                }
            }
        }
        proof {
            assert(out.deep_view() + repair_from(orig, i + 1) =~= repair_from(orig, 0));
            i = i + 1;
        }
    }
    proof {
        assert(repair_from(orig, orig.len() as int) =~= Seq::<MessageView>::empty());
        assert(out.deep_view() =~= repair_from(orig, 0));
    }
    out
}

/// Shapes a vendor-neutral request into one wire request for the given
/// model. It never fails: content the wire format cannot carry is dropped
/// or substituted, as the spec functions spell out.
pub fn into_mistral(request: Request, model: String, max_output_tokens: Option<u64>) -> (r:
    wire::Request)
    ensures
        r.model == model,
        r.stream == true,
        r.max_tokens == max_output_tokens,
        r.temperature == request.temperature,
        r.messages.deep_view() == repair(translate_messages(request.messages@)),
        r.tool_choice == wire_tool_choice(request.tool_choice, request.tools@.len()),
        r.parallel_tool_calls == (if request.tools@.len() > 0 {
            Some(false)
        } else {
            None::<bool>
        }),
        r.tools.deep_view() == wire_tools(request.tools@),
{
    let mut msgs: Vec<wire::RequestMessage> = Vec::new();
    proof {
        assert(msgs.deep_view() =~= translate_messages(request.messages@.take(0)));
    }
    let mut i: usize = 0;
    while i < request.messages.len()
        invariant
            i <= request.messages.len(),
            msgs.deep_view() == translate_messages(request.messages@.take(i as int)),
        decreases request.messages.len() - i,
    {
        let ghost prev = msgs.deep_view();
        let m = &request.messages[i];
        match m.role {
            Role::System => translate_system_parts(&mut msgs, &m.content),
            Role::User => translate_user_message(&mut msgs, &m.content),
            Role::Assistant => translate_assistant_parts(&mut msgs, &m.content),
        }
        proof {
            assert(request.messages@.take(i + 1).drop_last() =~= request.messages@.take(i as int));
            assert(request.messages@.take(i + 1).last() == request.messages@[i as int]);
            assert(msgs.deep_view() == translate_one(prev, request.messages@[i as int]));
        }
        i += 1;
    }
    proof {
        assert(request.messages@.take(request.messages@.len() as int) =~= request.messages@);
    }
    let messages = repair_messages(msgs);

    let has_tools = request.tools.len() > 0;
    let tool_choice: Option<wire::ToolChoice> = match request.tool_choice {
        Some(ToolChoice::Auto) => if has_tools {
            Some(wire::ToolChoice::Auto)
        } else {
            None
        },
        Some(ToolChoice::Any) => if has_tools {
            Some(wire::ToolChoice::Any)
        } else {
            None
        },
        Some(ToolChoice::NoTool) => Some(wire::ToolChoice::NoTool),
        None => if has_tools {
            Some(wire::ToolChoice::Auto)
        } else {
            None
        },
    };
    let parallel_tool_calls: Option<bool> = if has_tools {
        Some(false)
    } else {
        None
    };

    let mut tools: Vec<wire::ToolDefinition> = Vec::new();
    proof {
        assert(tools.deep_view() =~= wire_tools(request.tools@.take(0)));
    }
    let mut k: usize = 0;
    while k < request.tools.len()
        invariant
            k <= request.tools.len(),
            tools.deep_view() == wire_tools(request.tools@.take(k as int)),
        decreases request.tools.len() - k,
    {
        let t = &request.tools[k];
        let w = wire::ToolDefinition::Function {
            function: wire::FunctionDefinition {
                name: t.name.clone(),
                description: Some(t.description.clone()),
                parameters: Some(t.input_schema.clone()),
            },
        };
        let ghost wg = w;
        let ghost prevt = tools;
        tools.push(w);
        proof {
            crate::deep::lemma_push_deep(prevt, tools, wg);
            assert(request.tools@.take(k + 1).drop_last() =~= request.tools@.take(k as int));
            assert(request.tools@.take(k + 1).last() == request.tools@[k as int]);
            assert(tools.deep_view() =~~= wire_tools(request.tools@.take(k + 1)));
        }
        k += 1;
    }
    proof {
        assert(request.tools@.take(request.tools@.len() as int) =~= request.tools@);
    }

    wire::Request {
        model,
        messages,
        stream: true,
        max_tokens: max_output_tokens,
        temperature: request.temperature,
        tool_choice,
        parallel_tool_calls,
        tools,
    }
}

} // verus!
