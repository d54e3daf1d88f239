use clitools::bump::{
    detect_file_format, generate_default_bump_files, resolve_settings, skip_flags, Action,
    VersionFileFormat, VersionLabel,
};
use clitools::repo::{interpret_git_output, trim_args, Repo};
use clitools::version::{version_from_text, Version};

#[test]
fn test_repo_new_with_nonexistent_directory() {
    let result = Repo::new("/nonexistent/path".to_string(), false);
    assert!(result.is_err());
    assert!(result.unwrap_err().contains("does not exist"));
}

#[test]
fn repo_new_accepts_existing_directory() {
    let repo = Repo::new("/tmp".to_string(), true).unwrap();
    assert_eq!(repo.directory, "/tmp");
}

#[test]
fn git_commands_are_planned_exactly() {
    let repo = Repo::new(".".to_string(), true).unwrap();
    let stage = repo.stage_file("package.json");
    assert_eq!(stage.args, vec!["add", "package.json"]);
    let commit = repo.commit_changes("1.2.3");
    assert_eq!(commit.args, vec!["commit", "-m", "chore(release): 1.2.3"]);
    let tag = repo.tag_release("1.2.3", "v");
    assert_eq!(tag.args, vec!["tag", "-a", "v1.2.3", "-m", "chore(release): 1.2.3"]);
}

#[test]
fn git_failure_message_lists_streams() {
    let args = vec!["add".to_string(), "x".to_string()];
    let ok = interpret_git_output(".", &args, true, "done\n", "");
    assert_eq!(ok.unwrap(), "done\n");
    let err = interpret_git_output(".", &args, false, "", "fatal: no repo").unwrap_err();
    assert_eq!(
        err,
        "error while running git in directory `\".\"` with args `[\"add\", \"x\"]:\n- stderr: fatal: no repo"
    );
    let silent = interpret_git_output(".", &args, false, "", "").unwrap_err();
    assert_eq!(silent, "error while running git in directory `\".\"` with args `[\"add\", \"x\"]");
}

#[test]
fn git_args_are_trimmed() {
    let trimmed = trim_args(&vec![" add ".to_string(), "\tfile\n".to_string()]);
    assert_eq!(trimmed, vec!["add", "file"]);
}

#[test]
fn file_format_detection() {
    assert_eq!(detect_file_format("package.json").unwrap(), VersionFileFormat::Json);
    assert_eq!(detect_file_format("some/dir/Cargo.toml").unwrap(), VersionFileFormat::Toml);
    let err = detect_file_format("notes.txt").unwrap_err();
    assert_eq!(
        err,
        "cannot determine file format for 'notes.txt', supported formats are JSON and TOML"
    );
    assert!(detect_file_format("archive.json/readme").is_err());
    assert!(detect_file_format(".json").is_err());
}

#[test]
fn default_bump_files_follow_the_version_file() {
    assert_eq!(generate_default_bump_files("package.json", true, true), vec![
        "package-lock.json"
    ]);
    assert_eq!(generate_default_bump_files("package.json", false, true), Vec::<String>::new());
    assert_eq!(generate_default_bump_files("Cargo.toml", false, true), vec!["Cargo.lock"]);
    assert_eq!(generate_default_bump_files("pyproject.toml", true, true), Vec::<String>::new());
}

#[test]
fn settings_resolution_fills_defaults() {
    let s = resolve_settings(None, None, None, true, false, true, false);
    assert_eq!(s.version_file, "package.json");
    assert_eq!(s.bump_files, vec!["package-lock.json"]);
    assert_eq!(s.tag_prefix, "v");

    let s = resolve_settings(None, None, Some("rel-".to_string()), false, true, false, true);
    assert_eq!(s.version_file, "Cargo.toml");
    assert_eq!(s.bump_files, vec!["Cargo.lock"]);
    assert_eq!(s.tag_prefix, "rel-");

    // neither manifest on disk: the rule falls back to package.json
    let s = resolve_settings(None, None, None, false, false, false, false);
    assert_eq!(s.version_file, "package.json");
    assert_eq!(s.bump_files, Vec::<String>::new());

    let s = resolve_settings(
        Some("VERSION.json".to_string()),
        Some(vec!["a.json".to_string()]),
        None,
        false,
        false,
        false,
        false,
    );
    assert_eq!(s.version_file, "VERSION.json");
    assert_eq!(s.bump_files, vec!["a.json"]);
}

#[test]
fn skip_flags_read_both_actions() {
    assert_eq!(skip_flags(&vec![]), (false, false));
    assert_eq!(skip_flags(&vec![Action::Commit]), (true, false));
    assert_eq!(skip_flags(&vec![Action::Tag, Action::Commit]), (true, true));
}

#[test]
fn version_select_options_list() {
    let current = version_from_text("1.2.3").unwrap();
    let options = clitools::bump::version_select_options(&current, "0");
    let names: Vec<&str> = options.iter().map(|l| l.name.as_str()).collect();
    assert_eq!(
        names,
        vec!["major", "minor", "patch", "next", "pre-patch", "pre-minor", "pre-major", "current"]
    );
    assert_eq!(options[0].version.render(), "2.0.0");
    assert_eq!(options[3].version.render(), "1.2.4");
    assert_eq!(options[4].version.render(), "1.2.4-0");
    assert_eq!(options[7].version.render(), "1.2.3");

    let pre = version_from_text("1.2.3-beta.1").unwrap();
    let options = clitools::bump::version_select_options(&pre, "beta.0");
    let names: Vec<&str> = options.iter().map(|l| l.name.as_str()).collect();
    assert_eq!(
        names,
        vec![
            "major",
            "minor",
            "patch",
            "next",
            "release",
            "pre-patch",
            "pre-minor",
            "pre-major",
            "current"
        ]
    );
    assert_eq!(options[3].version.render(), "1.2.3-beta.2");
    assert_eq!(options[4].version.render(), "1.2.3");
}

#[test]
fn version_label_is_right_aligned() {
    let label = VersionLabel::new("major", Version::new(2, 0, 0));
    assert_eq!(label.label_text(), "    major 2.0.0");
    let label = VersionLabel::new("pre-patch", Version::new(1, 2, 4));
    assert_eq!(label.label_text(), "pre-patch 1.2.4");
}

#[test]
fn log_level_labels() {
    assert_eq!(clitools::lmerge::LogLevel::Info.label(), "info");
    assert_eq!(clitools::mm2glab::LogLevel::Off.label(), "off");
    assert_eq!(clitools::mrun::LogLevel::Trace.label(), "trace");
}
