//! The text of a turn and the parameters of `turn/start`: the user's prompt,
//! the transcript handed over from a DeepSeek Harness session when a thread
//! starts, the attachments saved for the turn, and the sandbox the turn runs in.
use vstd::prelude::*;

use crate::json::{array, lemma_field_at, member, object, JsonValue};
use crate::send::string_object;
use crate::text::{append_str, occurs_in, trim, trimmed};

verus! {

broadcast use vstd::string::group_string_axioms;

/// An attachment saved for a turn: its display name, where it was saved,
/// and whether Codex receives it as an image.
#[derive(Debug)]
pub struct StoredAttachment {
    pub name: String,
    pub path: String,
    pub is_image: bool,
}

/// The prompt that hands a DeepSeek Harness transcript over to a new thread.
pub open spec fn handoff_prompt(context: Seq<char>, prompt: Seq<char>) -> Seq<char> {
    "Continue this work from a DeepSeek Harness session. Treat the transferred transcript as context, verify the repository state yourself, and perform the user's current request.\n\n<dsh-session-context>\n"@
        + context + "\n</dsh-session-context>\n\n<current-request>\n"@ + prompt
        + "\n</current-request>"@
}

/// The prompt before attachments: the trimmed prompt, wrapped with the
/// trimmed transcript when a new thread starts with one.
pub open spec fn base_prompt(is_new: bool, context: Option<Seq<char>>, prompt: Seq<char>) -> Seq<
    char,
> {
    if is_new && context is Some && trimmed(context->0).len() > 0 {
        handoff_prompt(trimmed(context->0), trimmed(prompt))
    } else {
        trimmed(prompt)
    }
}

/// One line per attachment: `- name: path`.
pub open spec fn attachment_lines(atts: Seq<StoredAttachment>) -> Seq<char>
    decreases atts.len(),
{
    if atts.len() == 0 {
        Seq::empty()
    } else {
        attachment_lines(atts.drop_last()) + "\n- "@ + atts.last().name@ + ": "@
            + atts.last().path@
    }
}

/// The text that introduces the attachments of a turn.
pub open spec fn attachments_intro() -> Seq<char> {
    "\n\nThe user selected these local attachments in DSH Desktop. Read them from the exact paths below when needed:\n<local-attachments>"@
}

/// The text of a turn.
pub open spec fn composed_prompt(
    is_new: bool,
    context: Option<Seq<char>>,
    prompt: Seq<char>,
    atts: Seq<StoredAttachment>,
) -> Seq<char> {
    let base = base_prompt(is_new, context, prompt);
    let text = if base.len() == 0 {
        "Review and process the attached files."@
    } else {
        base
    };
    if atts.len() > 0 {
        text + attachments_intro() + attachment_lines(atts) + "\n</local-attachments>"@
    } else {
        text
    }
}

/// Each attachment's line `\n- name: path` occurs in the lines of the
/// attachments.
proof fn lemma_attachment_line_occurs(atts: Seq<StoredAttachment>, k: int)
    requires
        0 <= k < atts.len(),
    ensures
        occurs_in("\n- "@ + atts[k].name@ + ": "@ + atts[k].path@, attachment_lines(atts)),
    decreases atts.len(),
{
    let line = "\n- "@ + atts[k].name@ + ": "@ + atts[k].path@;
    let rest = attachment_lines(atts.drop_last());
    let all = attachment_lines(atts);
    if k == atts.len() - 1 {
        assert(all =~= rest + line);
        assert(all.subrange(rest.len() as int, (rest.len() + line.len()) as int) =~= line);
    } else {
        lemma_attachment_line_occurs(atts.drop_last(), k);
        assert(atts.drop_last()[k] == atts[k]);
        let i = choose|i: int|
            0 <= i && i + line.len() <= rest.len() && #[trigger] rest.subrange(i, i + line.len()) == line;
        let tail = "\n- "@ + atts.last().name@ + ": "@ + atts.last().path@;
        assert(all =~= rest + tail);
        assert(all.subrange(i, i + line.len()) =~= rest.subrange(i, i + line.len()));
    }
}

/// The text of a turn begins with the user's trimmed prompt, or, for a new
/// thread handed a non-empty transcript, with the hand-off that wraps the
/// trimmed transcript and prompt. "Review and process the attached files."
/// stands in only when that text is empty. Without attachments nothing
/// follows; with attachments, the text ends with the closing tag and holds
/// the line `- name: path` of each attachment.
pub proof fn law_prompt_leads_the_turn(
    is_new: bool,
    context: Option<Seq<char>>,
    prompt: Seq<char>,
    atts: Seq<StoredAttachment>,
)
    ensures
        ({
            let text = composed_prompt(is_new, context, prompt, atts);
            let handoff = is_new && context is Some && trimmed(context->0).len() > 0;
            let lead = if handoff {
                "Continue this work from a DeepSeek Harness session. Treat the transferred transcript as context, verify the repository state yourself, and perform the user's current request.\n\n<dsh-session-context>\n"@
                    + trimmed(context->0) + "\n</dsh-session-context>\n\n<current-request>\n"@
                    + trimmed(prompt) + "\n</current-request>"@
            } else {
                trimmed(prompt)
            };
            &&& lead.len() > 0 ==> lead.is_prefix_of(text)
            &&& lead.len() == 0 ==> "Review and process the attached files."@.is_prefix_of(text)
            &&& atts.len() == 0 ==> text == (if lead.len() > 0 {
                lead
            } else {
                "Review and process the attached files."@
            })
            &&& atts.len() > 0 ==> "\n</local-attachments>"@.is_suffix_of(text)
            &&& forall|k: int|
                0 <= k < atts.len() ==> occurs_in(
                    "\n- "@ + atts[k].name@ + ": "@ + atts[k].path@,
                    text,
                )
        }),
{
    let text = composed_prompt(is_new, context, prompt, atts);
    let base = base_prompt(is_new, context, prompt);
    let head = if base.len() == 0 {
        "Review and process the attached files."@
    } else {
        base
    };
    if atts.len() > 0 {
        let lines = attachment_lines(atts);
        let close = "\n</local-attachments>"@;
        assert(text =~= head + attachments_intro() + lines + close);
        assert(text.take(head.len() as int) =~= head);
        assert(text.skip(text.len() - close.len()) =~= close);
        assert forall|k: int| 0 <= k < atts.len() implies occurs_in(
            "\n- "@ + atts[k].name@ + ": "@ + atts[k].path@,
            text,
        ) by {
            let line = "\n- "@ + atts[k].name@ + ": "@ + atts[k].path@;
            lemma_attachment_line_occurs(atts, k);
            let i = choose|i: int|
                0 <= i && i + line.len() <= lines.len() && #[trigger] lines.subrange(i, i + line.len())
                    == line;
            let off = head.len() + attachments_intro().len();
            assert(text.subrange(off + i, off + i + line.len()) =~= lines.subrange(i, i + line.len()));
        }
    } else {
        assert(text.take(head.len() as int) =~= head);
    }
}

/// Composes the text of a turn.
pub fn compose_prompt(
    is_new: bool,
    context: Option<&str>,
    prompt: &str,
    attachments: &Vec<StoredAttachment>,
) -> (r: String)
    ensures
        r@ == composed_prompt(
            is_new,
            match context {
                Some(c) => Some(c@),
                None => None,
            },
            prompt@,
            attachments@,
        ),
{
    let p = trim(prompt);
    let mut text = String::new();
    let handoff = match context {
        Some(c) => {
            let t = trim(c);
            if is_new && !t.as_str().is_empty() {
                Some(t)
            } else {
                None
            }
        },
        None => None,
    };
    match handoff {
        Some(c) => {
            append_str(
                &mut text,
                "Continue this work from a DeepSeek Harness session. Treat the transferred transcript as context, verify the repository state yourself, and perform the user's current request.\n\n<dsh-session-context>\n",
            );
            append_str(&mut text, c.as_str());
            append_str(&mut text, "\n</dsh-session-context>\n\n<current-request>\n");
            append_str(&mut text, p.as_str());
            append_str(&mut text, "\n</current-request>");
        },
        None => {
            append_str(&mut text, p.as_str());
        },
    }
    if text.as_str().is_empty() {
        text = "Review and process the attached files.".to_string();
    }
    if attachments.len() > 0 {
        append_str(
            &mut text,
            "\n\nThe user selected these local attachments in DSH Desktop. Read them from the exact paths below when needed:\n<local-attachments>",
        );
        let ghost head = text@;
        let mut i: usize = 0;
        while i < attachments.len()
            invariant
                i <= attachments@.len(),
                text@ == head + attachment_lines(attachments@.take(i as int)),
            decreases attachments.len() - i,
        {
            append_str(&mut text, "\n- ");
            append_str(&mut text, attachments[i].name.as_str());
            append_str(&mut text, ": ");
            append_str(&mut text, attachments[i].path.as_str());
            assert(attachments@.take((i + 1) as int).drop_last() =~= attachments@.take(i as int));
            i = i + 1;
        }
        assert(attachments@.take(attachments@.len() as int) =~= attachments@);
        append_str(&mut text, "\n</local-attachments>");
    }
    text
}

/// The paths of the attachments Codex receives as images, in order.
pub open spec fn image_paths(atts: Seq<StoredAttachment>) -> Seq<Seq<char>>
    decreases atts.len(),
{
    if atts.len() == 0 {
        Seq::empty()
    } else if atts.last().is_image {
        image_paths(atts.drop_last()).push(atts.last().path@)
    } else {
        image_paths(atts.drop_last())
    }
}

/// The input of a turn: the text, then each image attachment.
pub open spec fn turn_input(items: Seq<JsonValue>, text: Seq<char>, atts: Seq<StoredAttachment>) -> bool {
    &&& items.len() == 1 + image_paths(atts).len()
    &&& string_object(items[0], seq!["type"@, "text"@], seq!["text"@, text])
    &&& forall|i: int|
        0 <= i < image_paths(atts).len() ==> string_object(
            #[trigger] items[i + 1],
            seq!["type"@, "path"@],
            seq!["localImage"@, image_paths(atts)[i]],
        )
}

/// The sandbox of a turn: the workspace is the only writable root, without
/// network access.
pub open spec fn sandbox_policy(p: JsonValue, cwd: Seq<char>) -> bool {
    &&& p is Object
    &&& p->Object_0.pairs().len() == 5
    &&& p->Object_0.pairs()[0].0 == "type"@
    &&& p->Object_0.pairs()[0].1.str_value() == Some("workspaceWrite"@)
    &&& p->Object_0.pairs()[1].0 == "writableRoots"@
    &&& p->Object_0.pairs()[1].1 is Array
    &&& p->Object_0.pairs()[1].1->Array_0.items().len() == 1
    &&& p->Object_0.pairs()[1].1->Array_0.items()[0].str_value() == Some(cwd)
    &&& p->Object_0.pairs()[2] == ("networkAccess"@, JsonValue::Bool(false))
    &&& p->Object_0.pairs()[3] == ("excludeTmpdirEnvVar"@, JsonValue::Bool(false))
    &&& p->Object_0.pairs()[4] == ("excludeSlashTmp"@, JsonValue::Bool(false))
}

/// The collaboration mode of a turn with its settings.
pub open spec fn mode_settings(
    p: JsonValue,
    mode: Seq<char>,
    model: Seq<char>,
    effort: Option<Seq<char>>,
) -> bool {
    let settings = p->Object_0.pairs()[1].1;
    &&& p is Object
    &&& p->Object_0.pairs().len() == 2
    &&& p->Object_0.pairs()[0].0 == "mode"@
    &&& p->Object_0.pairs()[0].1.str_value() == Some(mode)
    &&& p->Object_0.pairs()[1].0 == "settings"@
    &&& settings is Object
    &&& settings->Object_0.pairs().len() == 3
    &&& settings->Object_0.pairs()[0].0 == "model"@
    &&& settings->Object_0.pairs()[0].1.str_value() == Some(model)
    &&& settings->Object_0.pairs()[1].0 == "reasoning_effort"@
    &&& match effort {
        Some(e) => settings->Object_0.pairs()[1].1.str_value() == Some(e),
        None => settings->Object_0.pairs()[1].1 is Null,
    }
    &&& settings->Object_0.pairs()[2] == ("developer_instructions"@, JsonValue::Null)
}

/// Some attachment is an image saved at `path`.
pub open spec fn image_sourced(atts: Seq<StoredAttachment>, path: Seq<char>) -> bool {
    exists|k: int| 0 <= k < atts.len() && #[trigger] image_at(atts, k, path)
}

/// Attachment `k` is an image saved at `path`.
pub open spec fn image_at(atts: Seq<StoredAttachment>, k: int, path: Seq<char>) -> bool {
    atts[k].is_image && atts[k].path@ == path
}

/// The attachment that an image path comes from.
proof fn image_source(atts: Seq<StoredAttachment>, i: int) -> (k: int)
    requires
        0 <= i < image_paths(atts).len(),
    ensures
        0 <= k < atts.len(),
        image_at(atts, k, image_paths(atts)[i]),
    decreases atts.len(),
{
    let rest = atts.drop_last();
    if atts.last().is_image && i == image_paths(rest).len() {
        atts.len() - 1
    } else {
        let k = image_source(rest, i);
        assert(atts[k] == rest[k]);
        k
    }
}

/// Codex receives as images exactly the attachments marked as images, by
/// their paths, in the attachments' order.
pub proof fn law_turn_images(atts: Seq<StoredAttachment>)
    ensures
        image_paths(atts).len() <= atts.len(),
        forall|k: int| 0 <= k < atts.len() && (#[trigger] atts[k]).is_image ==> image_paths(atts).contains(
            atts[k].path@,
        ),
        forall|i: int|
            0 <= i < image_paths(atts).len() ==> #[trigger] image_sourced(atts, image_paths(atts)[i]),
    decreases atts.len(),
{
    if atts.len() > 0 {
        let rest = atts.drop_last();
        law_turn_images(rest);
        let ip = image_paths(atts);
        let ir = image_paths(rest);
        assert forall|k: int| 0 <= k < atts.len() && (#[trigger] atts[k]).is_image implies ip.contains(
            atts[k].path@,
        ) by {
            if k < rest.len() {
                assert(rest[k] == atts[k]);
                let i = choose|i: int| 0 <= i < ir.len() && ir[i] == rest[k].path@;
                assert(ip[i] == ir[i]);
            } else {
                assert(atts[k] == atts.last());
                assert(ip[ip.len() - 1] == atts[k].path@);
            }
        }
    }
    assert forall|i: int|
        0 <= i < image_paths(atts).len() implies #[trigger] image_sourced(atts, image_paths(atts)[i]) by {
        let k = image_source(atts, i);
        assert(image_at(atts, k, image_paths(atts)[i]));
    }
}

/// A turn runs in its workspace's sandbox: `type` is `workspaceWrite`, the
/// workspace is the only writable root, and there is no network access.
pub proof fn law_turn_sandbox(p: JsonValue, cwd: Seq<char>)
    requires
        sandbox_policy(p, cwd),
    ensures
        p.field_str("type"@) == Some("workspaceWrite"@),
        p.field("writableRoots"@) is Some,
        p.field("writableRoots"@)->0.array_items() is Some,
        p.field("writableRoots"@)->0.array_items()->0.len() == 1,
        p.field("writableRoots"@)->0.array_items()->0[0].str_value() == Some(cwd),
        p.field("networkAccess"@) == Some(JsonValue::Bool(false)),
{
    let ps = p->Object_0.pairs();
    reveal_strlit("type");
    reveal_strlit("writableRoots");
    reveal_strlit("networkAccess");
    assert("type"@.len() == 4 && "writableRoots"@.len() == 13 && "networkAccess"@.len() == 13);
    assert("writableRoots"@[0] == 'w' && "networkAccess"@[0] == 'n');
    lemma_field_at(p, 0);
    lemma_field_at(p, 1);
    lemma_field_at(p, 2);
}

/// A turn's collaboration mode names the mode, and its settings name the
/// model and the reasoning effort (`null` without one), without developer
/// instructions.
pub proof fn law_turn_mode(p: JsonValue, mode: Seq<char>, model: Seq<char>, effort: Option<Seq<char>>)
    requires
        mode_settings(p, mode, model, effort),
    ensures
        p.field_str("mode"@) == Some(mode),
        p.field("settings"@) is Some,
        p.field("settings"@)->0.field_str("model"@) == Some(model),
        effort is Some ==> p.field("settings"@)->0.field_str("reasoning_effort"@) == effort,
        effort is None ==> p.field("settings"@)->0.field("reasoning_effort"@) == Some(JsonValue::Null),
        p.field("settings"@)->0.field("developer_instructions"@) == Some(JsonValue::Null),
{
    let settings = p->Object_0.pairs()[1].1;
    reveal_strlit("mode");
    reveal_strlit("settings");
    reveal_strlit("model");
    reveal_strlit("reasoning_effort");
    reveal_strlit("developer_instructions");
    assert("mode"@.len() == 4 && "settings"@.len() == 8);
    assert("model"@.len() == 5 && "reasoning_effort"@.len() == 16 && "developer_instructions"@.len() == 22);
    lemma_field_at(p, 0);
    lemma_field_at(p, 1);
    lemma_field_at(settings, 0);
    lemma_field_at(settings, 1);
    lemma_field_at(settings, 2);
}

/// The parameters of `turn/start`.
pub fn turn_start_params(
    thread_id: &str,
    text: &str,
    attachments: &Vec<StoredAttachment>,
    cwd: &str,
    model: &str,
    effort: Option<&str>,
    mode: &str,
) -> (r: JsonValue)
    ensures
        r is Object,
        ({
            let ps = r->Object_0.pairs();
            &&& ps.len() == (if effort is Some {
                8int
            } else {
                7int
            })
            &&& ps[0].0 == "threadId"@ && ps[0].1.str_value() == Some(thread_id@)
            &&& ps[1].0 == "input"@ && ps[1].1 is Array && turn_input(
                ps[1].1->Array_0.items(),
                text@,
                attachments@,
            )
            &&& ps[2].0 == "cwd"@ && ps[2].1.str_value() == Some(cwd@)
            &&& ps[3].0 == "model"@ && ps[3].1.str_value() == Some(model@)
            &&& ps[4].0 == "approvalPolicy"@ && ps[4].1.str_value() == Some("untrusted"@)
            &&& ps[5].0 == "collaborationMode"@ && mode_settings(
                ps[5].1,
                mode@,
                model@,
                match effort {
                    Some(e) => Some(e@),
                    None => None,
                },
            )
            &&& ps[6].0 == "sandboxPolicy"@ && sandbox_policy(ps[6].1, cwd@)
            &&& effort is Some ==> ps[7].0 == "effort"@ && ps[7].1.str_value() == Some(effort->0@)
        }),
{
    let mut input: Vec<JsonValue> = Vec::new();
    input.push(object(vec![member("type", JsonValue::string("text")), member("text", JsonValue::string(text))]));
    let mut i: usize = 0;
    while i < attachments.len()
        invariant
            i <= attachments@.len(),
            input@.len() == 1 + image_paths(attachments@.take(i as int)).len(),
            string_object(input@[0], seq!["type"@, "text"@], seq!["text"@, text@]),
            forall|j: int|
                0 <= j < image_paths(attachments@.take(i as int)).len() ==> string_object(
                    #[trigger] input@[j + 1],
                    seq!["type"@, "path"@],
                    seq!["localImage"@, image_paths(attachments@.take(i as int))[j]],
                ),
        decreases attachments.len() - i,
    {
        assert(attachments@.take((i + 1) as int).drop_last() =~= attachments@.take(i as int));
        if attachments[i].is_image {
            input.push(
                object(
                    vec![
                        member("type", JsonValue::string("localImage")),
                        member("path", JsonValue::string(attachments[i].path.as_str())),
                    ],
                ),
            );
        }
        i = i + 1;
    }
    assert(attachments@.take(attachments@.len() as int) =~= attachments@);
    let effort_value = match effort {
        Some(e) => JsonValue::string(e),
        None => JsonValue::Null,
    };
    let settings = object(
        vec![
            member("model", JsonValue::string(model)),
            member("reasoning_effort", effort_value),
            member("developer_instructions", JsonValue::Null),
        ],
    );
    let collaboration = object(vec![member("mode", JsonValue::string(mode)), member("settings", settings)]);
    let sandbox = object(
        vec![
            member("type", JsonValue::string("workspaceWrite")),
            member("writableRoots", array(vec![JsonValue::string(cwd)])),
            member("networkAccess", JsonValue::Bool(false)),
            member("excludeTmpdirEnvVar", JsonValue::Bool(false)),
            member("excludeSlashTmp", JsonValue::Bool(false)),
        ],
    );
    let mut members: Vec<(String, JsonValue)> = vec![
        member("threadId", JsonValue::string(thread_id)),
        member("input", array(input)),
        member("cwd", JsonValue::string(cwd)),
        member("model", JsonValue::string(model)),
        member("approvalPolicy", JsonValue::string("untrusted")),
        member("collaborationMode", collaboration),
        member("sandboxPolicy", sandbox),
    ];
    let ghost first = members@;
    match effort {
        Some(e) => members.push(member("effort", JsonValue::string(e))),
        None => {},
    }
    assert(forall|i: int| 0 <= i < 7 ==> members@[i] == first[i]);
    let r = object(members);
    assert(r->Object_0.pairs()[0] == (members@[0].0@, members@[0].1));
    assert(r->Object_0.pairs()[1] == (members@[1].0@, members@[1].1));
    assert(r->Object_0.pairs()[2] == (members@[2].0@, members@[2].1));
    assert(r->Object_0.pairs()[3] == (members@[3].0@, members@[3].1));
    assert(r->Object_0.pairs()[4] == (members@[4].0@, members@[4].1));
    assert(r->Object_0.pairs()[5] == (members@[5].0@, members@[5].1));
    assert(r->Object_0.pairs()[6] == (members@[6].0@, members@[6].1));
    proof {
        if effort is Some {
            assert(r->Object_0.pairs()[7] == (members@[7].0@, members@[7].1));
        }
    }
    r
}

} // verus!
