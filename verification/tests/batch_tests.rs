use clitools::mrun::{
    failed_names, order_repositories, parse_repo_list, path_join, select_repo_candidates,
    RepoCandidate, Repository,
};
use clitools::pla::{
    collect_package_versions, diverged_count, duplicate_row_texts, package_name_of, sort_rows,
    sort_strings, Dependency,
};

fn candidate(name: &str, is_repo: bool) -> RepoCandidate {
    RepoCandidate {
        name: name.to_string(),
        path: format!("/root/{name}"),
        is_repo,
    }
}

#[test]
fn candidates_are_filtered_by_pattern() {
    let entries = vec![
        candidate("app-web", true),
        candidate("app-api", true),
        candidate("notes", true),
        candidate("app-old", false),
    ];
    let pattern = "app.+".to_string();
    let repos = select_repo_candidates(entries, Some(&pattern)).unwrap();
    let names: Vec<&str> = repos.iter().map(|r| r.name.as_str()).collect();
    assert_eq!(names, vec!["app-web", "app-api"]);

    let bad = select_repo_candidates(vec![candidate("x", true)], Some(&"(".to_string()));
    assert_eq!(bad.unwrap_err(), "Invalid regex pattern");

    let all = select_repo_candidates(
        vec![candidate("a", true), candidate("b", false)],
        None,
    )
    .unwrap();
    assert_eq!(all.len(), 1);
}

#[test]
fn listing_output_becomes_repositories() {
    let repos = parse_repo_list("alpha\nbeta\n", "/work", None).unwrap();
    assert_eq!(repos.len(), 2);
    assert_eq!(repos[0].name, "alpha");
    assert_eq!(repos[0].path, "/work/alpha");
    let pattern = "^b".to_string();
    let repos = parse_repo_list("alpha\nbeta\n", "/work/", Some(&pattern)).unwrap();
    assert_eq!(repos.len(), 1);
    assert_eq!(repos[0].path, "/work/beta");
}

#[test]
fn path_join_handles_edges() {
    assert_eq!(path_join("/work", "x"), "/work/x");
    assert_eq!(path_join("/work/", "x"), "/work/x");
    assert_eq!(path_join("", "x"), "x");
    assert_eq!(path_join("/work", "/abs"), "/abs");
}

#[test]
fn remembered_repositories_come_first() {
    let repos = vec![
        Repository { name: "a".to_string(), path: "/a".to_string() },
        Repository { name: "b".to_string(), path: "/b".to_string() },
        Repository { name: "c".to_string(), path: "/c".to_string() },
    ];
    let remembered = vec!["c".to_string(), "a".to_string()];
    let ordered = order_repositories(repos, &remembered);
    let names: Vec<&str> = ordered.iter().map(|r| r.name.as_str()).collect();
    assert_eq!(names, vec!["a", "c", "b"]);
}

#[test]
fn failed_runs_are_collected() {
    let results = vec![
        ("a".to_string(), true),
        ("b".to_string(), false),
        ("c".to_string(), false),
    ];
    assert_eq!(failed_names(results), vec!["b", "c"]);
}

fn dependency(version: &str) -> Dependency {
    Dependency {
        version: version.to_string(),
        name: None,
        resolved: None,
        integrity: None,
        bundled: false,
        is_dev: false,
        is_optional: false,
        is_dev_optional: false,
        is_in_bundle: false,
        has_install_script: false,
        has_shrink_wrap: false,
        dependencies: None,
        dev_dependencies: None,
        optional_dependencies: None,
        peer_dependencies: None,
        license: None,
        bin: None,
    }
}

#[test]
fn package_names_follow_the_last_nesting() {
    assert_eq!(package_name_of("node_modules/foo"), "foo");
    assert_eq!(package_name_of("node_modules/a/node_modules/@scope/b"), "@scope/b");
    assert_eq!(package_name_of("plain"), "plain");
    assert_eq!(package_name_of(""), "");
}

#[test]
fn lockfile_versions_are_grouped_and_counted() {
    let packages = vec![
        ("node_modules/a".to_string(), dependency("1.0.0")),
        ("node_modules/x/node_modules/a".to_string(), dependency("2.0.0")),
        ("node_modules/b".to_string(), dependency("3.1.4")),
        ("node_modules/y/node_modules/a".to_string(), dependency("1.0.0")),
    ];
    let groups = collect_package_versions(&packages);
    assert_eq!(groups.len(), 2);
    assert_eq!(groups[0].0, "a");
    assert_eq!(groups[0].1, vec!["1.0.0", "2.0.0"]);
    assert_eq!(groups[1].0, "b");
    assert_eq!(groups[1].1, vec!["3.1.4"]);
    assert_eq!(diverged_count(&groups), 1);
}

#[test]
fn report_rows_are_sorted_and_joined() {
    let packages = vec![
        ("node_modules/zeta".to_string(), dependency("2.0.0")),
        ("node_modules/q/node_modules/zeta".to_string(), dependency("1.0.0")),
        ("node_modules/alpha".to_string(), dependency("0.3.0")),
        ("node_modules/r/node_modules/alpha".to_string(), dependency("0.1.0")),
        ("node_modules/solo".to_string(), dependency("9.9.9")),
    ];
    let groups = collect_package_versions(&packages);
    let rows = sort_rows(duplicate_row_texts(&groups));
    assert_eq!(rows.len(), 2);
    assert_eq!(rows[0].0, "alpha");
    assert_eq!(rows[0].1, "0.1.0, 0.3.0");
    assert_eq!(rows[1].0, "zeta");
    assert_eq!(rows[1].1, "1.0.0, 2.0.0");
}

#[test]
fn string_sorting_is_lexicographic() {
    let sorted = sort_strings(&vec![
        "1.10.0".to_string(),
        "1.2.0".to_string(),
        "0.9.0".to_string(),
    ]);
    assert_eq!(sorted, vec!["0.9.0", "1.10.0", "1.2.0"]);
}

#[test]
fn text_utilities_behave_like_std() {
    assert_eq!(clitools::text::trim("  a b \n"), "a b");
    // Unicode whitespace is trimmed too, as str::trim does it
    assert_eq!(clitools::text::trim("\u{a0}\u{2003}x\u{3000}"), "x");
    assert_eq!(clitools::text::replace("a-b-c", "-", "+"), "a+b+c");
    assert_eq!(clitools::text::split_lines("a\r\nb\nc"), vec!["a", "b", "c"]);
    assert_eq!(clitools::text::split_lines("a\n"), vec!["a"]);
    assert_eq!(clitools::text::split_lines(""), Vec::<String>::new());
    assert_eq!(clitools::text::join_strings(&vec!["a".to_string(), "b".to_string()], ", "), "a, b");
    assert_eq!(clitools::text::parse_u32("42"), Some(42));
    assert_eq!(clitools::text::parse_u32("+7"), Some(7));
    assert_eq!(clitools::text::parse_u32("4294967296"), None);
    assert_eq!(clitools::text::parse_u32("12a"), None);
    assert_eq!(clitools::text::u64_to_dec(10500), "10500");
}
