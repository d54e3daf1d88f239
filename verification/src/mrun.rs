use vstd::prelude::*;

use crate::text::{split_lines, str_eq};
use vstd::string::StrSliceExecFns;
use vstd::string::StringExecFns;

verus! {

// ---------------------------------------------------------------------------
// Batch runs over many repositories.
//
// Which repositories a run works on — found on disk or listed by a
// command, filtered by a pattern, ordered with the previous selection
// first — is decided here. Walking directories, prompting and spawning
// the commands happen outside the library.
// ---------------------------------------------------------------------------

/// What a batch run is invoked with.
#[derive(Debug, Clone)]
pub struct Args {
    /// Root directory to search for repositories.
    pub dir: String,
    /// Command to execute in each repository.
    pub command: Option<String>,
    /// File holding the command to execute.
    pub command_file: Option<String>,
    /// Pattern that repository names must match.
    pub match_regexp: Option<String>,
    /// Command that lists the directories instead of walking them.
    pub list_command: Option<String>,
    /// Select the repositories that failed last time by default.
    pub failed: bool,
    /// Log verbosity.
    pub log_level: LogLevel,
}

/// Log verbosity.
#[derive(Debug, Clone, Copy, PartialEq, Eq, Structural)]
pub enum LogLevel {
    Trace,
    Debug,
    Info,
    Warn,
    Error,
    Off,
}

/// The label a verbosity level is written as.
pub open spec fn log_level_label(l: LogLevel) -> Seq<char> {
    match l {
        LogLevel::Trace => "trace"@,
        LogLevel::Debug => "debug"@,
        LogLevel::Info => "info"@,
        LogLevel::Warn => "warn"@,
        LogLevel::Error => "error"@,
        LogLevel::Off => "off"@,
    }
}

impl LogLevel {
    /// The level's lowercase label.
    pub fn label(&self) -> (r: &'static str)
        ensures
            r@ == log_level_label(*self),
    {
        match self {
            LogLevel::Trace => "trace",
            LogLevel::Debug => "debug",
            LogLevel::Info => "info",
            LogLevel::Warn => "warn",
            LogLevel::Error => "error",
            LogLevel::Off => "off",
        }
    }
}

/// What is remembered between runs.
#[derive(Debug, Clone)]
pub struct Settings {
    pub last_selected_repos: Vec<String>,
    pub last_failed_repos: Vec<String>,
}

/// One repository a command can run in.
#[derive(Debug, Clone)]
pub struct Repository {
    pub name: String,
    pub path: String,
}

/// A directory entry offered as a repository: its name, its path, and
/// whether it is a directory holding a `.git` entry.
#[derive(Debug, Clone)]
pub struct RepoCandidate {
    pub name: String,
    pub path: String,
    pub is_repo: bool,
}

// ---------------------------------------------------------------------------
// Pattern matching.
// ---------------------------------------------------------------------------

/// Whether the regex crate accepts the pattern.
pub uninterp spec fn regex_valid(pattern: Seq<char>) -> bool;

/// Whether the pattern matches somewhere in the text.
pub uninterp spec fn regex_accepts(pattern: Seq<char>, text: Seq<char>) -> bool;

/// Relies on `regex::Regex::new` and `Regex::is_match`: whether the pattern
/// compiles, and whether it matches somewhere in the text.
#[verifier::external_body]
fn regex_is_match(pattern: &str, text: &str) -> (r: Option<bool>)
    ensures
        r is Some <==> regex_valid(pattern@),
        (match r {
            Some(b) => b == regex_accepts(pattern@, text@),
            None => true,
        }),
{
    match regex::Regex::new(pattern) {
        Ok(re) => Some(re.is_match(text)),
        Err(_) => None,
    }
}

/// Whether a candidate is kept: it must be a repository, and its name must
/// match the pattern when one is given.
pub open spec fn keep_candidate(c: RepoCandidate, pattern: Option<Seq<char>>) -> bool {
    c.is_repo && (match pattern {
        Some(p) => regex_accepts(p, c.name@),
        None => true,
    })
}

/// The repository a kept candidate becomes.
pub open spec fn repo_of(c: RepoCandidate) -> Repository {
    Repository { name: c.name, path: c.path }
}

/// The view of an optional pattern.
pub open spec fn pattern_view(pattern: Option<&String>) -> Option<Seq<char>> {
    match pattern {
        Some(p) => Some(p@),
        None => None,
    }
}

/// Keeps the candidates that are repositories and match the pattern, in
/// the order they came; an unusable pattern is reported instead.
pub fn select_repo_candidates(entries: Vec<RepoCandidate>, pattern: Option<&String>) -> (r: Result<
    Vec<Repository>,
    String,
>)
    ensures
        (match r {
            Ok(repos) => {
                &&& (match pattern {
                    Some(p) => regex_valid(p@),
                    None => true,
                })
                &&& repos@ == entries@.filter(
                    |c: RepoCandidate| keep_candidate(c, pattern_view(pattern)),
                ).map_values(|c: RepoCandidate| repo_of(c))
            },
            Err(e) => {
                &&& pattern matches Some(p) && !regex_valid(p@)
                &&& e@ == "Invalid regex pattern"@
            },
        }),
{
    match pattern {
        Some(p) => {
            if regex_is_match(p.as_str(), "").is_none() {
                return Err("Invalid regex pattern".to_owned());
            }
        },
        None => {},
    }
    let mut repos: Vec<Repository> = Vec::new();
    let mut i: usize = 0;
    proof {
        reveal(Seq::filter);
        assert(entries@.subrange(0, 0).filter(
            |c: RepoCandidate| keep_candidate(c, pattern_view(pattern)),
        ).map_values(|c: RepoCandidate| repo_of(c)) =~= Seq::<Repository>::empty());
    }
    while i < entries.len()
        invariant
            0 <= i <= entries@.len(),
            (match pattern {
                Some(p) => regex_valid(p@),
                None => true,
            }),
            repos@ == entries@.subrange(0, i as int).filter(
                |c: RepoCandidate| keep_candidate(c, pattern_view(pattern)),
            ).map_values(|c: RepoCandidate| repo_of(c)),
        decreases entries@.len() - i,
    {
        let keep: bool;
        match pattern {
            Some(p) => {
                match regex_is_match(p.as_str(), entries[i].name.as_str()) {
                    Some(matched) => {
                        keep = entries[i].is_repo && matched;
                    },
                    None => {
                        return Err("Invalid regex pattern".to_owned());
                    },
                }
            },
            None => {
                keep = entries[i].is_repo;
            },
        }
        proof {
            let prefix = entries@.subrange(0, i as int);
            let next = entries@.subrange(0, i + 1);
            assert(next.drop_last() =~= prefix);
            assert(next.last() == entries@[i as int]);
            reveal(Seq::filter);
            assert(keep == keep_candidate(entries@[i as int], pattern_view(pattern)));
            assert(next.filter(|c: RepoCandidate| keep_candidate(c, pattern_view(pattern)))
                == if keep_candidate(next.last(), pattern_view(pattern)) {
                prefix.filter(|c: RepoCandidate| keep_candidate(c, pattern_view(pattern))).push(
                    next.last(),
                )
            } else {
                prefix.filter(|c: RepoCandidate| keep_candidate(c, pattern_view(pattern)))
            });
        }
        if keep {
            let entry = Repository {
                name: entries[i].name.clone(),
                path: entries[i].path.clone(),
            };
            proof {
                assert(entry == repo_of(entries@[i as int]));
            }
            repos.push(entry);
            proof {
                assert(repos@ =~= entries@.subrange(0, i + 1).filter(
                    |c: RepoCandidate| keep_candidate(c, pattern_view(pattern)),
                ).map_values(|c: RepoCandidate| repo_of(c)));
            }
        }
        i = i + 1;
    }
    proof {
        assert(entries@.subrange(0, entries@.len() as int) =~= entries@);
    }
    Ok(repos)
}

// ---------------------------------------------------------------------------
// Listing repositories from a command's output.
// ---------------------------------------------------------------------------

/// A path joined under a root, the way path joining treats absolute names
/// and trailing separators.
pub open spec fn path_join_spec(root: Seq<char>, name: Seq<char>) -> Seq<char> {
    if name.len() > 0 && name[0] == '/' {
        name
    } else if root.len() == 0 {
        name
    } else if root[root.len() - 1] == '/' {
        root + name
    } else {
        root + "/"@ + name
    }
}

/// Joins a name under the root directory.
pub fn path_join(root: &str, name: &str) -> (r: String)
    ensures
        r@ == path_join_spec(root@, name@),
{
    let name_len = crate::text::char_len(name);
    if name_len > 0 && crate::text::s_char_at(name, 0) == '/' {
        return name.to_owned();
    }
    let root_len = crate::text::char_len(root);
    if root_len == 0 {
        return name.to_owned();
    }
    if crate::text::s_char_at(root, root_len - 1) == '/' {
        crate::text::concat2(root, name)
    } else {
        crate::text::concat3(root, "/", name)
    }
}

/// Reads a listing command's output: each line names a repository placed
/// under the root, kept when it matches the pattern.
pub fn parse_repo_list(output: &str, root: &str, pattern: Option<&String>) -> (r: Result<
    Vec<Repository>,
    String,
>)
    ensures
        (match r {
            Ok(repos) => {
                &&& (match pattern {
                    Some(p) => regex_valid(p@),
                    None => true,
                })
                &&& repos@.map_values(|rep: Repository| rep.name@) == kept_lines(
                    crate::text::lines_spec(output@),
                    pattern_view(pattern),
                )
                &&& forall|k: int| 0 <= k < repos@.len() ==> #[trigger] repos@[k].path@
                    == path_join_spec(root@, repos@[k].name@)
            },
            Err(e) => {
                &&& pattern matches Some(p) && !regex_valid(p@)
                &&& e@ == "Invalid regex pattern"@
            },
        }),
{
    match pattern {
        Some(p) => {
            if regex_is_match(p.as_str(), "").is_none() {
                return Err("Invalid regex pattern".to_owned());
            }
        },
        None => {},
    }
    let lines = split_lines(output);
    let mut repos: Vec<Repository> = Vec::new();
    let mut i: usize = 0;
    proof {
        assert(kept_lines(
            crate::text::lines_spec(output@).subrange(0, 0),
            pattern_view(pattern),
        ) =~= Seq::<Seq<char>>::empty());
        assert(crate::text::lines_spec(output@).subrange(
            0,
            crate::text::lines_spec(output@).len() as int,
        ) =~= crate::text::lines_spec(output@));
    }
    while i < lines.len()
        invariant
            0 <= i <= lines@.len(),
            lines@.map_values(|l: String| l@) == crate::text::lines_spec(output@),
            (match pattern {
                Some(p) => regex_valid(p@),
                None => true,
            }),
            repos@.map_values(|rep: Repository| rep.name@) == kept_lines(
                crate::text::lines_spec(output@).subrange(0, i as int),
                pattern_view(pattern),
            ),
            forall|k: int| 0 <= k < repos@.len() ==> #[trigger] repos@[k].path@
                == path_join_spec(root@, repos@[k].name@),
        decreases lines@.len() - i,
    {
        let keep: bool;
        match pattern {
            Some(p) => {
                match regex_is_match(p.as_str(), lines[i].as_str()) {
                    Some(matched) => {
                        keep = matched;
                    },
                    None => {
                        return Err("Invalid regex pattern".to_owned());
                    },
                }
            },
            None => {
                keep = true;
            },
        }
        proof {
            let ls = crate::text::lines_spec(output@);
            let prefix = ls.subrange(0, i as int);
            let next = ls.subrange(0, i + 1);
            assert(next.drop_last() =~= prefix);
            assert(next.last() == ls[i as int]);
            assert(ls[i as int] == lines@[i as int]@);
            lemma_kept_lines_push(prefix, ls[i as int], pattern_view(pattern));
        }
        if keep {
            let name = lines[i].clone();
            let path = path_join(root, name.as_str());
            let ghost prev = repos@;
            repos.push(Repository { name, path });
            proof {
                assert(repos@.map_values(|rep: Repository| rep.name@) =~= prev.map_values(
                    |rep: Repository| rep.name@,
                ).push(lines@[i as int]@));
            }
        }
        i = i + 1;
    }
    Ok(repos)
}

/// The lines kept by the pattern, in order.
pub open spec fn kept_lines(lines: Seq<Seq<char>>, pattern: Option<Seq<char>>) -> Seq<Seq<char>>
    decreases lines.len(),
{
    if lines.len() == 0 {
        Seq::empty()
    } else {
        let rest = kept_lines(lines.drop_last(), pattern);
        if (match pattern {
            Some(p) => regex_accepts(p, lines.last()),
            None => true,
        }) {
            rest.push(lines.last())
        } else {
            rest
        }
    }
}

proof fn lemma_kept_lines_push(lines: Seq<Seq<char>>, line: Seq<char>, pattern: Option<Seq<char>>)
    ensures
        kept_lines(lines.push(line), pattern) == if (match pattern {
            Some(p) => regex_accepts(p, line),
            None => true,
        }) {
            kept_lines(lines, pattern).push(line)
        } else {
            kept_lines(lines, pattern)
        },
{
    assert(lines.push(line).drop_last() =~= lines);
    assert(lines.push(line).last() == line);
}

// ---------------------------------------------------------------------------
// Ordering and outcomes.
// ---------------------------------------------------------------------------

/// Whether a name is among the remembered selection.
pub open spec fn in_selection(selection: Seq<String>, name: Seq<char>) -> bool {
    exists|j: int| 0 <= j < selection.len() && selection[j]@ == name
}

/// Tests whether a name is among the remembered selection.
pub fn selection_contains(selection: &Vec<String>, name: &str) -> (r: bool)
    ensures
        r == in_selection(selection@, name@),
{
    let mut j: usize = 0;
    while j < selection.len()
        invariant
            0 <= j <= selection@.len(),
            forall|k: int| 0 <= k < j ==> selection@[k]@ != name@,
        decreases selection@.len() - j,
    {
        if str_eq(selection[j].as_str(), name) {
            return true;
        }
        j = j + 1;
    }
    false
}

/// Puts the remembered repositories first, each group keeping its order,
/// so the prompt preselects the leading entries.
pub fn order_repositories(repos: Vec<Repository>, default_selection: &Vec<String>) -> (r: Vec<
    Repository,
>)
    ensures
        r@ == repos@.filter(|rep: Repository| in_selection(default_selection@, rep.name@))
            + repos@.filter(|rep: Repository| !in_selection(default_selection@, rep.name@)),
{
    let mut chosen: Vec<Repository> = Vec::new();
    let mut others: Vec<Repository> = Vec::new();
    let mut i: usize = 0;
    proof {
        reveal(Seq::filter);
        assert(repos@.subrange(0, 0).filter(
            |rep: Repository| in_selection(default_selection@, rep.name@),
        ) =~= Seq::<Repository>::empty());
        assert(repos@.subrange(0, 0).filter(
            |rep: Repository| !in_selection(default_selection@, rep.name@),
        ) =~= Seq::<Repository>::empty());
    }
    while i < repos.len()
        invariant
            0 <= i <= repos@.len(),
            chosen@ == repos@.subrange(0, i as int).filter(
                |rep: Repository| in_selection(default_selection@, rep.name@),
            ),
            others@ == repos@.subrange(0, i as int).filter(
                |rep: Repository| !in_selection(default_selection@, rep.name@),
            ),
        decreases repos@.len() - i,
    {
        let hit = selection_contains(default_selection, repos[i].name.as_str());
        proof {
            let prefix = repos@.subrange(0, i as int);
            let next = repos@.subrange(0, i + 1);
            assert(next.drop_last() =~= prefix);
            assert(next.last() == repos@[i as int]);
            reveal(Seq::filter);
        }
        let entry = Repository { name: repos[i].name.clone(), path: repos[i].path.clone() };
        proof {
            assert(entry == repos@[i as int]);
        }
        if hit {
            chosen.push(entry);
        } else {
            others.push(entry);
        }
        i = i + 1;
    }
    proof {
        assert(repos@.subrange(0, repos@.len() as int) =~= repos@);
    }
    let mut out = chosen;
    let mut rest = others;
    out.append(&mut rest);
    out
}

/// The names whose runs failed, in the order the outcomes stand.
pub fn failed_names(results: Vec<(String, bool)>) -> (r: Vec<String>)
    ensures
        r@ == results@.filter(|p: (String, bool)| !p.1).map_values(|p: (String, bool)| p.0),
{
    let mut r: Vec<String> = Vec::new();
    let mut i: usize = 0;
    proof {
        reveal(Seq::filter);
        assert(results@.subrange(0, 0).filter(|p: (String, bool)| !p.1).map_values(
            |p: (String, bool)| p.0,
        ) =~= Seq::<String>::empty());
    }
    while i < results.len()
        invariant
            0 <= i <= results@.len(),
            r@ == results@.subrange(0, i as int).filter(|p: (String, bool)| !p.1).map_values(
                |p: (String, bool)| p.0,
            ),
        decreases results@.len() - i,
    {
        proof {
            let prefix = results@.subrange(0, i as int);
            let next = results@.subrange(0, i + 1);
            assert(next.drop_last() =~= prefix);
            assert(next.last() == results@[i as int]);
            reveal(Seq::filter);
        }
        if !results[i].1 {
            r.push(results[i].0.clone());
            proof {
                assert(r@ =~= results@.subrange(0, i + 1).filter(
                    |p: (String, bool)| !p.1,
                ).map_values(|p: (String, bool)| p.0));
            }
        }
        i = i + 1;
    }
    proof {
        assert(results@.subrange(0, results@.len() as int) =~= results@);
    }
    r
}

} // verus!
