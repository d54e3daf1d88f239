use vstd::prelude::*;

use crate::text::{repeat_char, rfind_char, rfind_char_spec, str_eq, substring};
use crate::version::{BumpVersion, Version, version_text_spec};
use vstd::string::StrSliceExecFns;
use vstd::string::StringExecFns;

verus! {

// ---------------------------------------------------------------------------
// Release bumping: settings, file formats and the interactive choices.
// ---------------------------------------------------------------------------

/// A release step that a run may skip.
#[derive(Debug, Clone, Copy, PartialEq, Eq, Structural)]
pub enum Action {
    /// Make new commit for changes.
    Commit,
    /// Tag the latest commit.
    Tag,
}

/// Which of the two steps a skip list names.
pub fn skip_flags(skips: &Vec<Action>) -> (r: (bool, bool))
    ensures
        r.0 == skips@.contains(Action::Commit),
        r.1 == skips@.contains(Action::Tag),
{
    let mut skip_commit = false;
    let mut skip_tag = false;
    let mut i: usize = 0;
    while i < skips.len()
        invariant
            0 <= i <= skips@.len(),
            skip_commit == skips@.subrange(0, i as int).contains(Action::Commit),
            skip_tag == skips@.subrange(0, i as int).contains(Action::Tag),
        decreases skips@.len() - i,
    {
        proof {
            assert(skips@.subrange(0, i + 1).drop_last() =~= skips@.subrange(0, i as int));
            assert(skips@.subrange(0, i + 1).last() == skips@[i as int]);
            let bigger = skips@.subrange(0, i + 1);
            let smaller = skips@.subrange(0, i as int);
            assert forall|a: Action| #[trigger] bigger.contains(a) == (smaller.contains(a) || skips@[i as int]
                == a) by {
                if smaller.contains(a) {
                    let j = choose|j: int| 0 <= j < smaller.len() && smaller[j] == a;
                    assert(bigger[j] == a);
                }
                if bigger.contains(a) {
                    let j = choose|j: int| 0 <= j < bigger.len() && bigger[j] == a;
                    if j < i {
                        assert(smaller[j] == a);
                    }
                }
                if skips@[i as int] == a {
                    assert(bigger[i as int] == a);
                }
            }
        }
        match skips[i] {
            Action::Commit => {
                skip_commit = true;
            },
            Action::Tag => {
                skip_tag = true;
            },
        }
        i = i + 1;
    }
    proof {
        assert(skips@.subrange(0, skips@.len() as int) =~= skips@);
    }
    (skip_commit, skip_tag)
}

/// What governs a bump run: which file carries the version, which other
/// files follow it, and how the release tag is prefixed.
#[derive(Debug, Clone)]
pub struct Settings {
    pub version_file: String,
    pub bump_files: Vec<String>,
    pub tag_prefix: String,
}

/// The file formats a version can be bumped in.
#[derive(Debug, Clone, Copy, PartialEq, Eq, Structural)]
pub enum VersionFileFormat {
    Json,
    Toml,
}

/// The extension of a path: what follows the last dot of the last path
/// component, unless that dot starts the component.
pub open spec fn extension_of(path: Seq<char>) -> Option<Seq<char>> {
    let slash = rfind_char_spec(path, '/');
    let name = path.subrange(slash + 1, path.len() as int);
    let dot = rfind_char_spec(name, '.');
    if dot <= 0 {
        None
    } else {
        Some(name.subrange(dot + 1, name.len() as int))
    }
}

/// Decides the format a file is in by its extension.
pub fn detect_file_format(file_path: &str) -> (r: Result<VersionFileFormat, String>)
    ensures
        (match r {
            Ok(VersionFileFormat::Json) => extension_of(file_path@) == Some("json"@),
            Ok(VersionFileFormat::Toml) => extension_of(file_path@) == Some("toml"@),
            Err(e) => {
                &&& extension_of(file_path@) != Some("json"@)
                &&& extension_of(file_path@) != Some("toml"@)
                &&& e@ == "cannot determine file format for '"@ + file_path@
                    + "', supported formats are JSON and TOML"@
            },
        }),
{
    let n = crate::text::char_len(file_path);
    let name_start: usize = match rfind_char(file_path, '/') {
        Some(s) => s + 1,
        None => 0,
    };
    let name = substring(file_path, name_start, n);
    proof {
        lemma_rfind_after(file_path@, '/');
        assert(name@ == file_path@.subrange(
            rfind_char_spec(file_path@, '/') + 1,
            file_path@.len() as int,
        ));
    }
    let name_len = crate::text::char_len(name.as_str());
    let ext: Option<String> = match rfind_char(name.as_str(), '.') {
        Some(d) => {
            if d == 0 {
                None
            } else {
                Some(substring(name.as_str(), d + 1, name_len))
            }
        },
        None => None,
    };
    match ext {
        Some(e) => {
            if str_eq(e.as_str(), "json") {
                Ok(VersionFileFormat::Json)
            } else if str_eq(e.as_str(), "toml") {
                Ok(VersionFileFormat::Toml)
            } else {
                Err(unknown_format_message(file_path))
            }
        },
        None => Err(unknown_format_message(file_path)),
    }
}

proof fn lemma_rfind_after(s: Seq<char>, c: char)
    ensures
        -1 <= rfind_char_spec(s, c) < s.len() || s.len() == 0,
        rfind_char_spec(s, c) + 1 >= 0,
        rfind_char_spec(s, c) + 1 <= s.len(),
{
    crate::text::lemma_rfind_char_bounds(s, c);
}

fn unknown_format_message(file_path: &str) -> (e: String)
    ensures
        e@ == "cannot determine file format for '"@ + file_path@
            + "', supported formats are JSON and TOML"@,
{
    crate::text::concat3(
        "cannot determine file format for '",
        file_path,
        "', supported formats are JSON and TOML",
    )
}

/// The companion files bumped along with the version file, when they exist:
/// the matching lock file.
pub open spec fn default_bump_files_spec(
    version_file: Seq<char>,
    package_lock_exists: bool,
    cargo_lock_exists: bool,
) -> Seq<Seq<char>> {
    if version_file == "package.json"@ && package_lock_exists {
        seq!["package-lock.json"@]
    } else if version_file == "Cargo.toml"@ && cargo_lock_exists {
        seq!["Cargo.lock"@]
    } else {
        Seq::empty()
    }
}

/// Picks the lock file that should follow the version file, when the caller
/// reports that it exists.
pub fn generate_default_bump_files(
    version_file: &str,
    package_lock_exists: bool,
    cargo_lock_exists: bool,
) -> (r: Vec<String>)
    ensures
        r@.map_values(|f: String| f@) == default_bump_files_spec(
            version_file@,
            package_lock_exists,
            cargo_lock_exists,
        ),
{
    let mut r: Vec<String> = Vec::new();
    if str_eq(version_file, "package.json") {
        if package_lock_exists {
            r.push("package-lock.json".to_owned());
        }
    } else if str_eq(version_file, "Cargo.toml") {
        if cargo_lock_exists {
            r.push("Cargo.lock".to_owned());
        }
    }
    proof {
        broadcast use vstd::string::group_string_axioms;

        reveal_strlit("package.json");
        reveal_strlit("Cargo.toml");
        assert("package.json"@.len() == 12);
        assert("Cargo.toml"@.len() == 10);
        let m = r@.map_values(|f: String| f@);
        let d = default_bump_files_spec(version_file@, package_lock_exists, cargo_lock_exists);
        if version_file@ == "package.json"@ && package_lock_exists {
            assert(m =~~= seq!["package-lock.json"@]);
            assert(d == seq!["package-lock.json"@]);
        } else if version_file@ == "Cargo.toml"@ && cargo_lock_exists {
            assert(version_file@ != "package.json"@);
            assert(m =~~= seq!["Cargo.lock"@]);
            assert(d == seq!["Cargo.lock"@]);
        } else {
            assert(m =~~= Seq::<Seq<char>>::empty());
            assert(d == Seq::<Seq<char>>::empty());
        }
    }
    r
}

/// Fills a settings record from what the configuration file gave and what
/// is on disk: the tag prefix falls back to `v`, the version file to the
/// first of `package.json` and `Cargo.toml` that exists — `package.json`
/// when neither does — and the bump files to the matching lock file.
pub fn resolve_settings(
    raw_version_file: Option<String>,
    raw_bump_files: Option<Vec<String>>,
    raw_tag_prefix: Option<String>,
    package_json_exists: bool,
    cargo_toml_exists: bool,
    package_lock_exists: bool,
    cargo_lock_exists: bool,
) -> (s: Settings)
    ensures
        (match raw_tag_prefix {
            Some(p) => s.tag_prefix == p,
            None => s.tag_prefix@ == "v"@,
        }),
        (match raw_version_file {
            Some(vf) => s.version_file == vf,
            None => s.version_file@ == (if package_json_exists {
                "package.json"@
            } else if cargo_toml_exists {
                "Cargo.toml"@
            } else {
                "package.json"@
            }),
        }),
        (match raw_bump_files {
            Some(fs) => s.bump_files == fs,
            None => s.bump_files@.map_values(|f: String| f@) == default_bump_files_spec(
                s.version_file@,
                package_lock_exists,
                cargo_lock_exists,
            ),
        }),
{
    let tag_prefix = match raw_tag_prefix {
        Some(p) => p,
        None => "v".to_owned(),
    };
    let version_file = match raw_version_file {
        Some(vf) => vf,
        None => {
            if package_json_exists {
                "package.json".to_owned()
            } else if cargo_toml_exists {
                "Cargo.toml".to_owned()
            } else {
                "package.json".to_owned()
            }
        },
    };
    let bump_files = match raw_bump_files {
        Some(fs) => fs,
        None => generate_default_bump_files(
            version_file.as_str(),
            package_lock_exists,
            cargo_lock_exists,
        ),
    };
    Settings { version_file, bump_files, tag_prefix }
}

// ---------------------------------------------------------------------------
// The interactive version choice.
// ---------------------------------------------------------------------------

/// One line of the version prompt: a short name and the version choosing it
/// would produce.
#[derive(Debug, Clone)]
pub struct VersionLabel {
    pub name: String,
    pub version: Version,
}

/// A name padded on the left to the label column width.
pub open spec fn padded_name_spec(name: Seq<char>) -> Seq<char> {
    if name.len() >= 9 {
        name
    } else {
        Seq::new((9 - name.len()) as nat, |i: int| ' ') + name
    }
}

impl VersionLabel {
    pub fn new(name: &str, version: Version) -> (l: VersionLabel)
        ensures
            l.name@ == name@,
            l.version == version,
    {
        VersionLabel { name: name.to_owned(), version }
    }

    /// The prompt line: the name right-aligned in nine columns, a space,
    /// then the version.
    pub fn label_text(&self) -> (r: String)
        ensures
            r@ == padded_name_spec(self.name@) + " "@ + version_text_spec(self.version),
    {
        let n = crate::text::char_len(self.name.as_str());
        let mut out: String;
        if n >= 9 {
            out = self.name.clone();
        } else {
            out = repeat_char(' ', 9 - n);
            out.append(self.name.as_str());
        }
        out.append(" ");
        let v = self.version.render();
        out.append(v.as_str());
        out
    }
}

/// The choices the interactive prompt offers for `current`: the three plain
/// bumps, the natural next version, release (when a pre-release), the three
/// pre-bumps carrying `prerelease_identifier`, and the current version
/// itself, in that order.
pub fn version_select_options(current: &Version, prerelease_identifier: &str) -> (r: Vec<VersionLabel>)
    requires
        current.bumpable(),
        current.pre@.len() > 0 ==> current.prerelease_incrementable(),
        Version::prerelease_acceptable(prerelease_identifier@),
    ensures
        current.pre@.len() > 0 ==> r@.len() == 9,
        current.pre@.len() == 0 ==> r@.len() == 8,
        r@[0].name@ == "major"@ && current.major_bumped(r@[0].version),
        r@[1].name@ == "minor"@ && current.minor_bumped(r@[1].version),
        r@[2].name@ == "patch"@ && current.patch_bumped(r@[2].version),
        r@[3].name@ == "next"@,
        current.pre@.len() == 0 ==> current.patch_bumped(r@[3].version),
        current.pre@.len() > 0 ==> current.prerelease_bumped(r@[3].version),
        current.pre@.len() > 0 ==> r@[4].name@ == "release"@ && current.release_of(r@[4].version),
        (select_tail_matches(*current, prerelease_identifier@, r@)),
{
    let mut options: Vec<VersionLabel> = Vec::new();
    options.push(VersionLabel::new("major", current.increment_major()));
    options.push(VersionLabel::new("minor", current.increment_minor()));
    options.push(VersionLabel::new("patch", current.increment_patch()));
    if current.has_prerelease() {
        options.push(VersionLabel::new("next", current.increment_prerelease()));
        options.push(VersionLabel::new("release", current.convert_prerelease_to_release()));
    } else {
        options.push(VersionLabel::new("next", current.increment_patch()));
    }
    options.push(
        VersionLabel::new(
            "pre-patch",
            current.increment_patch().append_prerelease_identifiers(prerelease_identifier),
        ),
    );
    options.push(
        VersionLabel::new(
            "pre-minor",
            current.increment_minor().append_prerelease_identifiers(prerelease_identifier),
        ),
    );
    options.push(
        VersionLabel::new(
            "pre-major",
            current.increment_major().append_prerelease_identifiers(prerelease_identifier),
        ),
    );
    options.push(VersionLabel::new("current", current.clone_exact()));
    options
}

/// The pre-bump and current entries at the tail of the option list, right
/// after the release entry when there is one.
pub open spec fn select_tail_matches(
    current: Version,
    identifiers: Seq<char>,
    r: Seq<VersionLabel>,
) -> bool {
    let base: int = if current.pre@.len() > 0 {
        5
    } else {
        4
    };
    &&& r.len() >= base + 4
    &&& r[base].name@ == "pre-patch"@
    &&& pre_bump_matches(
        current,
        identifiers,
        r[base].version,
        current.major as int,
        current.minor as int,
        current.patch + 1,
    )
    &&& r[base + 1].name@ == "pre-minor"@
    &&& pre_bump_matches(
        current,
        identifiers,
        r[base + 1].version,
        current.major as int,
        current.minor + 1,
        0,
    )
    &&& r[base + 2].name@ == "pre-major"@
    &&& pre_bump_matches(current, identifiers, r[base + 2].version, current.major + 1, 0, 0)
    &&& r[base + 3].name@ == "current"@
    &&& r[base + 3].version == current
}

/// A pre-release bump: the given numbers, the given identifier chain, the
/// build metadata kept.
pub open spec fn pre_bump_matches(
    current: Version,
    identifiers: Seq<char>,
    v: Version,
    major: int,
    minor: int,
    patch: int,
) -> bool {
    &&& v.major == major
    &&& v.minor == minor
    &&& v.patch == patch
    &&& v.pre@ == identifiers
    &&& v.build == current.build
}

} // verus!
