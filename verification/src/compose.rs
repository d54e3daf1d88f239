use vstd::prelude::*;

use crate::mattermost::Conversation;
use crate::text::{
    concat2, concat3, join_spec, join_strings, lines_spec, match_at, replace, replace_spec,
    strip_prefix_all, strip_prefix_all_spec, trim, trim_spec,
};
use vstd::string::StringExecFns;

verus! {

// ---------------------------------------------------------------------------
// Composing the issue text.
//
// Everything that turns a conversation and an assistant's reply into the
// markdown of an issue: the description template, the prompt, parsing the
// reply, and the attachment lines. The two places that need a regular
// expression go through trusted wrappers; what is done with their results
// is verified.
// ---------------------------------------------------------------------------

/// The skeleton the issue description is built from.
pub open spec fn issue_template() -> Seq<char> {
    "\n**Source**: {source_link}\n\n## Description\n{description}\n\n{reason}\n"@
}

/// Fills the issue template: the source link, the description under its
/// marker line, and the reasoning inside a collapsed block, each placed by
/// textual replacement in that order.
pub fn format_issue_description(source_link: &str, ai_description: &str, ai_reason: &str) -> (r:
    String)
    ensures
        r@ == replace_spec(
            replace_spec(
                replace_spec(issue_template(), "{source_link}"@, source_link@),
                "{description}"@,
                ">description generated by LLM based on the conversation\n\n"@ + ai_description@,
            ),
            "{reason}"@,
            "<details>\n<summary>Think</summary>\n\n"@ + ai_reason@ + "\n</details>"@,
        ),
{
    proof {
        broadcast use vstd::string::group_string_axioms;

        reveal_strlit("{source_link}");
        reveal_strlit("{description}");
        reveal_strlit("{reason}");
        assert("{source_link}"@.len() == 13);
        assert("{description}"@.len() == 13);
        assert("{reason}"@.len() == 8);
    }
    let step1 = replace(
        "\n**Source**: {source_link}\n\n## Description\n{description}\n\n{reason}\n",
        "{source_link}",
        source_link,
    );
    let description = concat2(
        ">description generated by LLM based on the conversation\n\n",
        ai_description,
    );
    let step2 = replace(step1.as_str(), "{description}", description.as_str());
    let reason = concat3("<details>\n<summary>Think</summary>\n\n", ai_reason, "\n</details>");
    replace(step2.as_str(), "{reason}", reason.as_str())
}

/// The prompt handed to the language model: the instruction, the
/// conversation as `name: message` lines, and the required answer format.
pub fn build_llm_prompt(conversation: &Vec<Conversation>) -> (r: String)
    ensures
        r@ == "Given this conversation, create a concise issue title and description for a developer issue.\n\nConversation:\n"@
            + join_spec(
            conversation@.map_values(|c: Conversation| c.username@ + ": "@ + c.message@),
            "\n"@,
        )
            + "\n\nRespond in this exact format with nothing else.\ntitle: <Issue Title in exactly one line>\ndescription: <Issue Description that can take multiple lines>"@,
{
    let mut lines: Vec<String> = Vec::new();
    let mut i: usize = 0;
    while i < conversation.len()
        invariant
            0 <= i <= conversation@.len(),
            lines@.len() == i,
            forall|j: int| 0 <= j < i ==> #[trigger] lines@[j]@ == conversation@[j].username@
                + ": "@ + conversation@[j].message@,
        decreases conversation@.len() - i,
    {
        let mut line = conversation[i].username.clone();
        line.append(": ");
        line.append(conversation[i].message.as_str());
        lines.push(line);
        i = i + 1;
    }
    proof {
        assert(lines@.map_values(|l: String| l@) =~~= conversation@.map_values(
            |c: Conversation| c.username@ + ": "@ + c.message@,
        ));
    }
    let body = join_strings(&lines, "\n");
    let mut out =
        "Given this conversation, create a concise issue title and description for a developer issue.\n\nConversation:\n".to_owned();
    out.append(body.as_str());
    out.append(
        "\n\nRespond in this exact format with nothing else.\ntitle: <Issue Title in exactly one line>\ndescription: <Issue Description that can take multiple lines>",
    );
    out
}

// ---------------------------------------------------------------------------
// The assistant's reply.
// ---------------------------------------------------------------------------

/// The body of the first `<think>` block of a reply, empty when there is
/// none.
pub uninterp spec fn think_reason(content: Seq<char>) -> Seq<char>;

/// The reply with every `<think>` block removed.
pub uninterp spec fn think_stripped(content: Seq<char>) -> Seq<char>;

/// Relies on `regex::Regex::captures` with `(?ms)<think>(.*?)</think>\n?`:
/// the first captured block body, or the empty string without a match.
#[verifier::external_body]
fn capture_think_reason(content: &str) -> (r: String)
    ensures
        r@ == think_reason(content@),
{
    let re = match regex::Regex::new(r"(?ms)<think>(.*?)</think>\n?") {
        Ok(re) => re,
        Err(_) => return String::new(),
    };
    match re.captures(content).and_then(|cap| cap.get(1)) {
        Some(m) => m.as_str().to_string(),
        None => String::new(),
    }
}

/// Relies on `regex::Regex::replace_all` with `(?ms)<think>(.*?)</think>\n?`:
/// the reply with every match removed.
#[verifier::external_body]
fn strip_think_blocks(content: &str) -> (r: String)
    ensures
        r@ == think_stripped(content@),
{
    match regex::Regex::new(r"(?ms)<think>(.*?)</think>\n?") {
        Ok(re) => re.replace_all(content, "").into_owned(),
        Err(_) => content.to_string(),
    }
}

/// The title stated in a stripped reply: its first line without the
/// `title:` marker, or a placeholder when the reply is empty.
pub open spec fn llm_title_spec(stripped: Seq<char>) -> Seq<char> {
    let ls = lines_spec(stripped);
    if ls.len() == 0 {
        "Untitled Issue"@
    } else {
        trim_spec(strip_prefix_all_spec(ls[0], "title:"@))
    }
}

/// The description stated in a stripped reply: the remaining lines without
/// the `description:` marker, or a placeholder when nothing is left.
pub open spec fn llm_description_spec(stripped: Seq<char>) -> Seq<char> {
    let ls = lines_spec(stripped);
    let rest = if ls.len() == 0 {
        Seq::<Seq<char>>::empty()
    } else {
        ls.drop_first()
    };
    let d = trim_spec(strip_prefix_all_spec(join_spec(rest, "\n"@), "description:"@));
    if d.len() == 0 {
        "No description provided."@
    } else {
        d
    }
}

/// Reads title and description out of a reply already stripped of think
/// blocks.
pub fn parse_llm_response(stripped: &str) -> (r: (String, String))
    ensures
        r.0@ == llm_title_spec(stripped@),
        r.1@ == llm_description_spec(stripped@),
{
    proof {
        broadcast use vstd::string::group_string_axioms;

        reveal_strlit("title:");
        reveal_strlit("description:");
        assert("title:"@.len() == 6);
        assert("description:"@.len() == 12);
    }
    let lines = crate::text::split_lines(stripped);
    let title: String;
    if lines.len() == 0 {
        title = "Untitled Issue".to_owned();
    } else {
        let bare = strip_prefix_all(lines[0].as_str(), "title:");
        title = trim(bare.as_str());
    }
    let mut rest: Vec<String> = Vec::new();
    let mut i: usize = 1;
    while i < lines.len()
        invariant
            1 <= i <= lines@.len() || (lines@.len() == 0 && i == 1),
            rest@.len() == (if i >= 1 && lines@.len() >= 1 {
                i - 1
            } else {
                0int
            }),
            forall|j: int| 0 <= j < rest@.len() ==> rest@[j] == lines@[j + 1],
        decreases lines@.len() - i,
    {
        rest.push(lines[i].clone());
        i = i + 1;
    }
    proof {
        let ls = lines_spec(stripped@);
        if ls.len() == 0 {
            assert(rest@.map_values(|l: String| l@) =~~= Seq::<Seq<char>>::empty());
        } else {
            assert(rest@.map_values(|l: String| l@) =~~= ls.drop_first());
        }
    }
    let joined = join_strings(&rest, "\n");
    let bare = strip_prefix_all(joined.as_str(), "description:");
    let trimmed = trim(bare.as_str());
    let description: String;
    if trimmed.as_str().is_empty() {
        description = "No description provided.".to_owned();
    } else {
        description = trimmed;
    }
    (title, description)
}

/// Splits a raw reply into what the issue needs: the title and description
/// it states, and the reasoning the assistant set apart in a think block.
pub fn analyze_llm_reply(content: &str) -> (r: (String, String, String))
    ensures
        r.0@ == llm_title_spec(trim_spec(think_stripped(content@))),
        r.1@ == llm_description_spec(trim_spec(think_stripped(content@))),
        r.2@ == trim_spec(think_reason(content@)),
{
    let raw_reason = capture_think_reason(content);
    let reason = trim(raw_reason.as_str());
    let raw_stripped = strip_think_blocks(content);
    let stripped = trim(raw_stripped.as_str());
    let (title, description) = parse_llm_response(stripped.as_str());
    (title, description, reason)
}

// ---------------------------------------------------------------------------
// Attachments and the conversation block.
// ---------------------------------------------------------------------------

/// The markdown for an uploaded attachment: pictures and clips are embedded
/// at reduced width, anything else becomes a link line.
pub fn attachment_markdown(
    filename: &str,
    upload_markdown: &str,
    upload_url: &str,
    content_type: &str,
) -> (r: String)
    ensures
        (match_at(content_type@, "image/"@, 0) || match_at(content_type@, "video/"@, 0)) ==> r@
            == upload_markdown@ + "{width=60%}\n"@,
        !(match_at(content_type@, "image/"@, 0) || match_at(content_type@, "video/"@, 0)) ==> r@
            == "- ["@ + filename@ + "]("@ + upload_url@ + ")\n"@,
{
    let embed = crate::text::matches_at(content_type, "image/", 0) || crate::text::matches_at(
        content_type,
        "video/",
        0,
    );
    if embed {
        concat2(upload_markdown, "{width=60%}\n")
    } else {
        link_markdown(filename, upload_url)
    }
}

/// The markdown link used when an attachment could not be uploaded and the
/// original file location is pointed at instead.
pub fn link_markdown(filename: &str, url: &str) -> (r: String)
    ensures
        r@ == "- ["@ + filename@ + "]("@ + url@ + ")\n"@,
{
    let mut out = "- [".to_owned();
    out.append(filename);
    out.append("](");
    out.append(url);
    out.append(")\n");
    out
}

/// Folds the rendered conversation lines into the collapsed block appended
/// to the issue.
pub fn wrap_conversation_markdown(lines: &Vec<String>) -> (r: String)
    ensures
        r@ == "<details>\n<summary>Conversation Thread</summary>\n\n"@ + join_spec(
            lines@.map_values(|l: String| l@),
            "\n\n"@,
        ) + "\n</details>"@,
{
    let body = join_strings(lines, "\n\n");
    let mut out = "<details>\n<summary>Conversation Thread</summary>\n\n".to_owned();
    out.append(body.as_str());
    out.append("\n</details>");
    out
}

/// One rendered conversation line: author in bold, the moment in
/// parentheses, then the message.
pub open spec fn conversation_line_spec(
    username: Seq<char>,
    time_text: Seq<char>,
    message: Seq<char>,
) -> Seq<char> {
    "**"@ + username + "** ("@ + time_text + "): "@ + message
}

/// Renders a conversation entry around an already-rendered timestamp.
pub fn format_conversation_with_time(c: &Conversation, time_text: &str) -> (r: String)
    ensures
        r@ == conversation_line_spec(c.username@, time_text@, c.message@),
{
    let mut out = "**".to_owned();
    out.append(c.username.as_str());
    out.append("** (");
    out.append(time_text);
    out.append("): ");
    out.append(c.message.as_str());
    out
}

/// Relies on chrono: the post's creation time rendered as a local
/// `%Y-%m-%d %H:%M:%S` timestamp. The text depends on the machine's time
/// zone, so only its shape is stated: the pattern prints at least
/// nineteen characters. Out-of-range times yield nothing.
#[verifier::external_body]
fn local_time_text(millis: i64) -> (r: Option<String>)
    ensures
        r matches Some(t) ==> t@.len() >= 19,
{
    match chrono::TimeZone::timestamp_millis_opt(&chrono::Local, millis).single() {
        Some(dt) => Some(dt.format("%Y-%m-%d %H:%M:%S").to_string()),
        None => None,
    }
}

/// Renders a conversation entry, timestamping it in local time; a post
/// whose time lies outside the calendar is refused.
pub fn format_conversation(c: &Conversation) -> (r: Result<String, String>)
    ensures
        (match r {
            Ok(line) => exists|t: Seq<char>|
                t.len() >= 19 && line@ == #[trigger] conversation_line_spec(
                    c.username@,
                    t,
                    c.message@,
                ),
            Err(e) => e@ == "Invalid timestamp"@,
        }),
{
    match local_time_text(c.timestamp_millis) {
        Some(t) => {
            let line = format_conversation_with_time(c, t.as_str());
            proof {
                assert(t@.len() >= 19 && line@ == conversation_line_spec(
                    c.username@,
                    t@,
                    c.message@,
                ));
            }
            Ok(line)
        },
        None => Err("Invalid timestamp".to_owned()),
    }
}

// ---------------------------------------------------------------------------
// The preview editor.
// ---------------------------------------------------------------------------

/// The text opened in the editor: the title line, a rule of eighty equals
/// signs, a blank line, the description.
pub fn editor_seed(title: &str, description: &str) -> (r: String)
    ensures
        r@ == "Title: "@ + title@ + "\n"@ + Seq::new(80, |i: int| '=') + "\n\n"@ + description@,
{
    let mut out = "Title: ".to_owned();
    out.append(title);
    out.append("\n");
    let rule = crate::text::repeat_char('=', 80);
    out.append(rule.as_str());
    out.append("\n\n");
    out.append(description);
    out
}

/// Reads the edited text back: the first line without its `Title: ` marker
/// becomes the title, everything from the third line on the description.
/// Nothing comes back from a text of fewer than two lines.
pub fn parse_edited_issue(content: &str) -> (r: Option<(String, String)>)
    ensures
        (match r {
            Some(parts) => {
                &&& lines_spec(content@).len() >= 2
                &&& parts.0@ == trim_spec(replace_spec(lines_spec(content@)[0], "Title: "@, ""@))
                &&& parts.1@ == join_spec(
                    lines_spec(content@).subrange(2, lines_spec(content@).len() as int),
                    "\n"@,
                )
            },
            None => lines_spec(content@).len() < 2,
        }),
{
    proof {
        broadcast use vstd::string::group_string_axioms;

        reveal_strlit("Title: ");
        assert("Title: "@.len() == 7);
    }
    let lines = crate::text::split_lines(content);
    if lines.len() < 2 {
        return None;
    }
    let cleaned = replace(lines[0].as_str(), "Title: ", "");
    let title = trim(cleaned.as_str());
    let mut rest: Vec<String> = Vec::new();
    let mut i: usize = 2;
    while i < lines.len()
        invariant
            2 <= i <= lines@.len(),
            rest@.len() == i - 2,
            forall|j: int| 0 <= j < rest@.len() ==> rest@[j] == lines@[j + 2],
        decreases lines@.len() - i,
    {
        rest.push(lines[i].clone());
        i = i + 1;
    }
    proof {
        let ls = lines_spec(content@);
        assert(rest@.map_values(|l: String| l@) =~~= ls.subrange(2, ls.len() as int));
    }
    let description = join_strings(&rest, "\n");
    Some((title, description))
}

} // verus!
