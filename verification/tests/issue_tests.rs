use clitools::compose::{
    analyze_llm_reply, attachment_markdown, build_llm_prompt, editor_seed, format_conversation,
    format_issue_description, link_markdown, parse_edited_issue, wrap_conversation_markdown,
};
use clitools::mattermost::{parse_permalink, Conversation, Post, Thread, User};
use clitools::mm2glab::{merge_settings_with_args, Args, LogLevel, Settings};

fn conversation(username: &str, message: &str) -> Conversation {
    Conversation {
        username: username.to_string(),
        timestamp_millis: 1_700_000_000_000,
        message: message.to_string(),
        file_ids: None,
    }
}

#[test]
fn issue_description_fills_the_template() {
    let text = format_issue_description("https://chat/pl/x", "It breaks.", "thought hard");
    assert_eq!(
        text,
        "\n**Source**: https://chat/pl/x\n\n## Description\n>description generated by LLM based on the conversation\n\nIt breaks.\n\n<details>\n<summary>Think</summary>\n\nthought hard\n</details>\n"
    );
}

#[test]
fn llm_prompt_lists_the_conversation() {
    let prompt = build_llm_prompt(&vec![conversation("ann", "hi"), conversation("bob", "yo")]);
    assert!(prompt.starts_with(
        "Given this conversation, create a concise issue title and description for a developer issue.\n\nConversation:\nann: hi\nbob: yo\n\nRespond"
    ));
}

#[test]
fn llm_reply_is_split_into_parts() {
    let reply = "<think>weighing options</think>\ntitle: Fix the crash\ndescription: It crashes on start.";
    let (title, description, reason) = analyze_llm_reply(reply);
    assert_eq!(title, "Fix the crash");
    assert_eq!(description, "It crashes on start.");
    assert_eq!(reason, "weighing options");
}

#[test]
fn llm_reply_without_think_block() {
    let (title, description, reason) = analyze_llm_reply("title: A\ndescription: B");
    assert_eq!(title, "A");
    assert_eq!(description, "B");
    assert_eq!(reason, "");
}

#[test]
fn llm_reply_empty_falls_back() {
    let (title, description, reason) = analyze_llm_reply("");
    assert_eq!(title, "Untitled Issue");
    assert_eq!(description, "No description provided.");
    assert_eq!(reason, "");
}

#[test]
fn permalink_parsing() {
    let (team, post) = parse_permalink("https://chat.example.com/myteam/pl/abc123XYZ").unwrap();
    assert_eq!(team, "myteam");
    assert_eq!(post, "abc123XYZ");
    let err = parse_permalink("https://chat.example.com/nothing").unwrap_err();
    assert_eq!(err, "Invalid Mattermost permalink format");
}

#[test]
fn attachment_lines() {
    assert_eq!(
        attachment_markdown("shot.png", "![shot](url)", "https://x/shot.png", "image/png"),
        "![shot](url){width=60%}\n"
    );
    assert_eq!(
        attachment_markdown("log.txt", "![log](url)", "https://x/log.txt", "text/plain"),
        "- [log.txt](https://x/log.txt)\n"
    );
    assert_eq!(link_markdown("a.bin", "https://x/a.bin"), "- [a.bin](https://x/a.bin)\n");
}

#[test]
fn conversation_markdown_wrapping() {
    let wrapped = wrap_conversation_markdown(&vec!["one".to_string(), "two".to_string()]);
    assert_eq!(
        wrapped,
        "<details>\n<summary>Conversation Thread</summary>\n\none\n\ntwo\n</details>"
    );
}

#[test]
fn conversation_line_has_author_and_message() {
    let line = format_conversation(&conversation("ann", "hello there")).unwrap();
    assert!(line.starts_with("**ann** ("));
    assert!(line.ends_with("): hello there"));
    // the parenthesized timestamp is really there
    assert!(line.len() >= "**ann** (): hello there".len() + 19);
}

#[test]
fn editor_round_trip() {
    let seed = editor_seed("My title", "Body line");
    let rule: String = std::iter::repeat('=').take(80).collect();
    assert_eq!(seed, format!("Title: My title\n{rule}\n\nBody line"));
    let (title, description) = parse_edited_issue(&seed).unwrap();
    assert_eq!(title, "My title");
    // the blank spacer line between the rule and the body is kept
    assert_eq!(description, "\nBody line");
    assert!(parse_edited_issue("only one line").is_none());
}

#[test]
fn display_names_prefer_full_names() {
    let full = User {
        username: "jd".to_string(),
        first_name: Some("Jane".to_string()),
        last_name: Some("Doe".to_string()),
    };
    assert_eq!(full.display_name(), "Jane Doe");
    let first_only = User {
        username: "jd".to_string(),
        first_name: Some("Jane".to_string()),
        last_name: None,
    };
    assert_eq!(first_only.display_name(), "Jane");
    let empty_half = User {
        username: "jd".to_string(),
        first_name: Some("Jane".to_string()),
        last_name: Some(String::new()),
    };
    assert_eq!(empty_half.display_name(), "jd");
    let bare = User { username: "jd".to_string(), first_name: None, last_name: None };
    assert_eq!(bare.display_name(), "jd");
}

#[test]
fn thread_conversation_filters_and_names() {
    let post = |user_id: &str, message: &str, at: i64| Post {
        user_id: user_id.to_string(),
        channel_id: "ch".to_string(),
        message: message.to_string(),
        create_at: at,
        file_ids: None,
    };
    let thread = Thread {
        posts: vec![
            ("p1".to_string(), post("u1", "before", 100)),
            ("p2".to_string(), post("u1", "start", 200)),
            ("p3".to_string(), post("u2", "reply", 300)),
        ],
        order: vec!["p1".to_string(), "p2".to_string(), "p3".to_string()],
    };
    let users = vec![
        (
            "u1".to_string(),
            User {
                username: "ann".to_string(),
                first_name: Some("Ann".to_string()),
                last_name: Some("Alpha".to_string()),
            },
        ),
        (
            "u2".to_string(),
            User { username: "bob".to_string(), first_name: None, last_name: None },
        ),
    ];
    let conv = clitools::mattermost::conversation_from_thread(&thread, "p2", &users).unwrap();
    assert_eq!(conv.len(), 2);
    assert_eq!(conv[0].username, "Ann Alpha");
    assert_eq!(conv[0].message, "start");
    assert_eq!(conv[1].username, "bob");
    assert_eq!(conv[1].timestamp_millis, 300);

    let missing = clitools::mattermost::conversation_from_thread(&thread, "nope", &users);
    assert_eq!(missing.unwrap_err(), "Target post not found");
}

#[test]
fn settings_merge_fills_blanks_and_reports_missing() {
    let args = Args {
        permalink: "https://chat/x/pl/y".to_string(),
        title: None,
        mm_url: String::new(),
        mm_token: "t1".to_string(),
        gitlab_url: "https://git".to_string(),
        gitlab_token: String::new(),
        project_id: "42".to_string(),
        no_reply: false,
        no_preview: false,
        ollama_model: "deepseek-r1:latest".to_string(),
        log_level: LogLevel::Info,
    };
    let settings = Settings {
        mm_url: Some("https://chat".to_string()),
        mm_token: None,
        gitlab_url: Some("https://ignored".to_string()),
        gitlab_token: Some("t2".to_string()),
        project_id: None,
        ollama_model: Some("llama3:8b".to_string()),
        prompt: None,
    };
    let merged = merge_settings_with_args(&args, &settings).unwrap();
    assert_eq!(merged.mm_url, "https://chat");
    assert_eq!(merged.gitlab_url, "https://git");
    assert_eq!(merged.gitlab_token, "t2");
    assert_eq!(merged.ollama_model, "llama3:8b");

    let empty_args = Args {
        mm_url: String::new(),
        mm_token: String::new(),
        gitlab_url: String::new(),
        gitlab_token: String::new(),
        project_id: String::new(),
        ..args
    };
    let bare = Settings {
        mm_url: None,
        mm_token: None,
        gitlab_url: None,
        gitlab_token: None,
        project_id: None,
        ollama_model: None,
        prompt: None,
    };
    let err = merge_settings_with_args(&empty_args, &bare).unwrap_err();
    assert_eq!(
        err,
        "Gitlab URL, Gitlab Token, Gitlab Project ID, Mattermost URL, Mattermost Token"
    );
}
