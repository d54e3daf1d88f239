use vstd::prelude::*;

use crate::text::{join_spec, join_strings, str_eq};
use vstd::string::StrSliceExecFns;
use vstd::string::StringExecFns;

verus! {

// ---------------------------------------------------------------------------
// The thread-to-issue command line and its configuration.
// ---------------------------------------------------------------------------

/// What the thread-to-issue run is invoked with.
#[derive(Debug, Clone)]
pub struct Args {
    /// Mattermost permanent link to the thread.
    pub permalink: String,
    /// Custom issue title, when given.
    pub title: Option<String>,
    /// Mattermost server URL.
    pub mm_url: String,
    /// Mattermost access token.
    pub mm_token: String,
    /// GitLab server URL.
    pub gitlab_url: String,
    /// GitLab access token.
    pub gitlab_token: String,
    /// GitLab project ID.
    pub project_id: String,
    /// Disable the reply in the Mattermost thread.
    pub no_reply: bool,
    /// Skip preview and editor.
    pub no_preview: bool,
    /// Model used for summarizing the conversation.
    pub ollama_model: String,
    /// Log verbosity.
    pub log_level: LogLevel,
}

/// Log verbosity.
#[derive(Debug, Clone, Copy, PartialEq, Eq, Structural)]
pub enum LogLevel {
    Trace,
    Debug,
    Info,
    Warn,
    Error,
    Off,
}

/// The label a verbosity level is written as.
pub open spec fn log_level_label(l: LogLevel) -> Seq<char> {
    match l {
        LogLevel::Trace => "trace"@,
        LogLevel::Debug => "debug"@,
        LogLevel::Info => "info"@,
        LogLevel::Warn => "warn"@,
        LogLevel::Error => "error"@,
        LogLevel::Off => "off"@,
    }
}

impl LogLevel {
    /// The level's lowercase label.
    pub fn label(&self) -> (r: &'static str)
        ensures
            r@ == log_level_label(*self),
    {
        match self {
            LogLevel::Trace => "trace",
            LogLevel::Debug => "debug",
            LogLevel::Info => "info",
            LogLevel::Warn => "warn",
            LogLevel::Error => "error",
            LogLevel::Off => "off",
        }
    }
}

/// What the configuration file may provide.
#[derive(Debug, Clone)]
pub struct Settings {
    pub mm_url: Option<String>,
    pub mm_token: Option<String>,
    pub gitlab_url: Option<String>,
    pub gitlab_token: Option<String>,
    pub project_id: Option<String>,
    pub ollama_model: Option<String>,
    pub prompt: Option<String>,
}

/// A configured value fills an argument only where the command line left
/// it empty.
pub open spec fn merged_text(arg: Seq<char>, setting: Option<String>) -> Seq<char> {
    match setting {
        Some(v) => if arg.len() == 0 {
            v@
        } else {
            arg
        },
        None => arg,
    }
}

/// The configured model replaces only the stock default, and only when it
/// says something.
pub open spec fn merged_model(arg: Seq<char>, setting: Option<String>) -> Seq<char> {
    match setting {
        Some(m) => if m@.len() > 0 && arg == "deepseek-r1:latest"@ {
            m@
        } else {
            arg
        },
        None => arg,
    }
}

/// The names of the required connection values that are still empty after
/// merging, in the order they are reported.
pub open spec fn missing_fields_spec(
    gitlab_url: Seq<char>,
    gitlab_token: Seq<char>,
    project_id: Seq<char>,
    mm_url: Seq<char>,
    mm_token: Seq<char>,
) -> Seq<Seq<char>> {
    (if gitlab_url.len() == 0 {
        seq!["Gitlab URL"@]
    } else {
        Seq::<Seq<char>>::empty()
    }) + (if gitlab_token.len() == 0 {
        seq!["Gitlab Token"@]
    } else {
        Seq::<Seq<char>>::empty()
    }) + (if project_id.len() == 0 {
        seq!["Gitlab Project ID"@]
    } else {
        Seq::<Seq<char>>::empty()
    }) + (if mm_url.len() == 0 {
        seq!["Mattermost URL"@]
    } else {
        Seq::<Seq<char>>::empty()
    }) + (if mm_token.len() == 0 {
        seq!["Mattermost Token"@]
    } else {
        Seq::<Seq<char>>::empty()
    })
}

fn merge_text(arg: &String, setting: &Option<String>) -> (r: String)
    ensures
        r@ == merged_text(arg@, *setting),
{
    match setting {
        Some(v) => {
            if arg.as_str().is_empty() {
                v.clone()
            } else {
                arg.clone()
            }
        },
        None => arg.clone(),
    }
}

/// Lays the configuration under the command line: configured connection
/// values fill empty arguments, the configured model replaces the stock
/// default, and the names of whatever required values are still missing
/// come back as the error, joined for the report.
pub fn merge_settings_with_args(args: &Args, settings: &Settings) -> (r: Result<Args, String>)
    ensures
        (match r {
            Ok(merged) => {
                &&& missing_fields_spec(
                    merged_text(args.gitlab_url@, settings.gitlab_url),
                    merged_text(args.gitlab_token@, settings.gitlab_token),
                    merged_text(args.project_id@, settings.project_id),
                    merged_text(args.mm_url@, settings.mm_url),
                    merged_text(args.mm_token@, settings.mm_token),
                ).len() == 0
                &&& merged.permalink == args.permalink
                &&& merged.title == args.title
                &&& merged.mm_url@ == merged_text(args.mm_url@, settings.mm_url)
                &&& merged.mm_token@ == merged_text(args.mm_token@, settings.mm_token)
                &&& merged.gitlab_url@ == merged_text(args.gitlab_url@, settings.gitlab_url)
                &&& merged.gitlab_token@ == merged_text(args.gitlab_token@, settings.gitlab_token)
                &&& merged.project_id@ == merged_text(args.project_id@, settings.project_id)
                &&& merged.no_reply == args.no_reply
                &&& merged.no_preview == args.no_preview
                &&& merged.ollama_model@ == merged_model(
                    args.ollama_model@,
                    settings.ollama_model,
                )
                &&& merged.log_level == args.log_level
            },
            Err(e) => {
                &&& missing_fields_spec(
                    merged_text(args.gitlab_url@, settings.gitlab_url),
                    merged_text(args.gitlab_token@, settings.gitlab_token),
                    merged_text(args.project_id@, settings.project_id),
                    merged_text(args.mm_url@, settings.mm_url),
                    merged_text(args.mm_token@, settings.mm_token),
                ).len() > 0
                &&& e@ == join_spec(
                    missing_fields_spec(
                        merged_text(args.gitlab_url@, settings.gitlab_url),
                        merged_text(args.gitlab_token@, settings.gitlab_token),
                        merged_text(args.project_id@, settings.project_id),
                        merged_text(args.mm_url@, settings.mm_url),
                        merged_text(args.mm_token@, settings.mm_token),
                    ),
                    ", "@,
                )
            },
        }),
{
    let mm_url = merge_text(&args.mm_url, &settings.mm_url);
    let mm_token = merge_text(&args.mm_token, &settings.mm_token);
    let gitlab_url = merge_text(&args.gitlab_url, &settings.gitlab_url);
    let gitlab_token = merge_text(&args.gitlab_token, &settings.gitlab_token);
    let project_id = merge_text(&args.project_id, &settings.project_id);
    let ollama_model: String = match &settings.ollama_model {
        Some(m) => {
            if !m.as_str().is_empty() && str_eq(args.ollama_model.as_str(), "deepseek-r1:latest") {
                m.clone()
            } else {
                args.ollama_model.clone()
            }
        },
        None => args.ollama_model.clone(),
    };
    let mut missing: Vec<String> = Vec::new();
    if gitlab_url.as_str().is_empty() {
        missing.push("Gitlab URL".to_owned());
    }
    if gitlab_token.as_str().is_empty() {
        missing.push("Gitlab Token".to_owned());
    }
    if project_id.as_str().is_empty() {
        missing.push("Gitlab Project ID".to_owned());
    }
    if mm_url.as_str().is_empty() {
        missing.push("Mattermost URL".to_owned());
    }
    if mm_token.as_str().is_empty() {
        missing.push("Mattermost Token".to_owned());
    }
    proof {
        assert(missing@.map_values(|m: String| m@) =~~= missing_fields_spec(
            gitlab_url@,
            gitlab_token@,
            project_id@,
            mm_url@,
            mm_token@,
        ));
    }
    if missing.len() > 0 {
        return Err(join_strings(&missing, ", "));
    }
    let title: Option<String> = match &args.title {
        Some(t) => Some(t.clone()),
        None => None,
    };
    Ok(
        Args {
            permalink: args.permalink.clone(),
            title,
            mm_url,
            mm_token,
            gitlab_url,
            gitlab_token,
            project_id,
            no_reply: args.no_reply,
            no_preview: args.no_preview,
            ollama_model,
            log_level: args.log_level,
        },
    )
}

} // verus!
