use vstd::prelude::*;

use crate::text::{
    char_len, concat2, dec_spec, find_char_from, is_digit, lemma_find_char_is, parse_u32,
    parse_u32_spec, rfind_char, rfind_char_spec, substring, u64_to_dec,
};
use vstd::string::StrSliceExecFns;
use vstd::string::StringExecFns;

verus! {

// ---------------------------------------------------------------------------
// Semantic versions and how they are bumped.
//
// A version is held as plain numbers and strings; parsing the textual form
// is left to the semver crate behind one trusted wrapper, and everything
// done to a parsed version is specified and verified here.
// ---------------------------------------------------------------------------

/// A semantic version: `major.minor.patch`, an optional pre-release chain
/// (the part after `-`), and optional build metadata (the part after `+`).
#[derive(Debug, Clone, PartialEq, Eq)]
pub struct Version {
    pub major: u64,
    pub minor: u64,
    pub patch: u64,
    /// Dot-separated pre-release identifiers, without the leading `-`;
    /// empty when the version is a release.
    pub pre: String,
    /// Build metadata without the leading `+`; empty when absent.
    pub build: String,
}

/// Which bump a command line may ask for.
#[derive(Debug, Clone, Copy, PartialEq, Eq, Structural)]
pub enum BumpType {
    /// Bump major version.
    Major,
    /// Bump minor version.
    Minor,
    /// Bump patch version.
    Patch,
    /// Bump major version for pre-release.
    PreMajor,
    /// Bump minor version for pre-release.
    PreMinor,
    /// Bump patch version for pre-release.
    PrePatch,
    /// Increase prerelease version.
    Prerelease,
    /// Remove prerelease suffix from version.
    Release,
}

// ---------------------------------------------------------------------------
// Pre-release identifier grammar.
// ---------------------------------------------------------------------------

/// A character allowed inside a pre-release identifier.
pub open spec fn is_ident_char(c: char) -> bool {
    is_digit(c) || ('a' as int <= c as int && c as int <= 'z' as int) || ('A' as int <= c as int
        && c as int <= 'Z' as int) || c == '-'
}

/// One valid identifier: non-empty, identifier characters only, and a purely
/// numeric one carries no leading zero.
pub open spec fn is_valid_identifier(s: Seq<char>) -> bool {
    &&& s.len() > 0
    &&& forall|i: int| 0 <= i < s.len() ==> is_ident_char(#[trigger] s[i])
    &&& crate::text::all_digits(s) ==> (s.len() == 1 || s[0] != '0')
}

/// A valid dot-separated chain of identifiers, as a pre-release carries it.
pub open spec fn is_valid_ident_list(s: Seq<char>) -> bool
    decreases s.len(),
{
    let i = crate::text::find_char_spec(s, '.');
    if 0 <= i < s.len() {
        is_valid_identifier(s.subrange(0, i)) && is_valid_ident_list(
            s.subrange(i + 1, s.len() as int),
        )
    } else {
        is_valid_identifier(s)
    }
}

fn validate_identifier(s: &str) -> (r: bool)
    ensures
        r == is_valid_identifier(s@),
{
    let n = char_len(s);
    if n == 0 {
        return false;
    }
    let mut digits_only = true;
    let mut i: usize = 0;
    while i < n
        invariant
            0 <= i <= n,
            n == s@.len(),
            forall|j: int| 0 <= j < i ==> is_ident_char(#[trigger] s@[j]),
            digits_only == crate::text::all_digits(s@.subrange(0, i as int)),
        decreases n - i,
    {
        let c = s.get_char(i);
        let u = c as u32;
        let digit = u >= '0' as u32 && u <= '9' as u32;
        let ok = digit || (u >= 'a' as u32 && u <= 'z' as u32) || (u >= 'A' as u32 && u
            <= 'Z' as u32) || u == '-' as u32;
        if !ok {
            proof {
                assert(!is_ident_char(s@[i as int]));
            }
            return false;
        }
        proof {
            assert(s@.subrange(0, i + 1).drop_last() =~= s@.subrange(0, i as int));
            assert(s@.subrange(0, i + 1).last() == s@[i as int]);
            assert(crate::text::all_digits(s@.subrange(0, i + 1)) == (crate::text::all_digits(
                s@.subrange(0, i as int),
            ) && is_digit(s@[i as int]))) by {
                let bigger = s@.subrange(0, i + 1);
                let smaller = s@.subrange(0, i as int);
                if crate::text::all_digits(smaller) && is_digit(s@[i as int]) {
                    assert forall|j: int| 0 <= j < bigger.len() implies is_digit(
                        #[trigger] bigger[j],
                    ) by {
                        if j < i {
                            assert(bigger[j] == smaller[j]);
                        }
                    }
                }
            }
        }
        digits_only = digits_only && digit;
        i = i + 1;
    }
    proof {
        assert(s@.subrange(0, n as int) =~= s@);
    }
    if digits_only && n > 1 && s.get_char(0) == '0' {
        return false;
    }
    true
}

/// Tests whether a string is a well-formed pre-release identifier chain.
pub fn prerelease_is_valid(s: &str) -> (r: bool)
    ensures
        r == is_valid_ident_list(s@),
    decreases s@.len(),
{
    let n = char_len(s);
    let i = find_char_from(s, '.', 0);
    proof {
        lemma_find_char_is(s@, '.', i as int);
    }
    if i < n {
        let head = substring(s, 0, i);
        let tail = substring(s, i + 1, n);
        if validate_identifier(head.as_str()) {
            prerelease_is_valid(tail.as_str())
        } else {
            false
        }
    } else {
        validate_identifier(s)
    }
}

// ---------------------------------------------------------------------------
// Incrementing the last identifier of a pre-release chain.
// ---------------------------------------------------------------------------

/// What incrementing does: a chain that is one number counts up; otherwise
/// a numeric part after the last dot counts up; otherwise `.1` is appended.
pub open spec fn increment_last_identifier_spec(s: Seq<char>) -> Seq<char> {
    match parse_u32_spec(s) {
        Some(n) => dec_spec((n + 1) as nat),
        None => {
            let i = rfind_char_spec(s, '.');
            if i >= 0 {
                match parse_u32_spec(s.subrange(i + 1, s.len() as int)) {
                    Some(m) => s.subrange(0, i + 1) + dec_spec((m + 1) as nat),
                    None => s + ".1"@,
                }
            } else {
                s + ".1"@
            }
        },
    }
}

/// The one family of inputs incrementing cannot take: a counter already at
/// the ceiling of `u32`.
pub open spec fn can_increment_last_identifier(s: Seq<char>) -> bool {
    &&& parse_u32_spec(s) != Some(u32::MAX)
    &&& {
        let i = rfind_char_spec(s, '.');
        i < 0 || parse_u32_spec(s.subrange(i + 1, s.len() as int)) != Some(u32::MAX)
    }
}

/// Tests the one precondition of incrementing: no counter of the chain
/// already sits at the `u32` ceiling.
pub fn can_increment_identifier(release: &str) -> (r: bool)
    ensures
        r == can_increment_last_identifier(release@),
{
    let whole_ok = match parse_u32(release) {
        Some(n) => n != u32::MAX,
        None => true,
    };
    if !whole_ok {
        return false;
    }
    let len = char_len(release);
    match rfind_char(release, '.') {
        Some(i) => {
            let right = substring(release, i + 1, len);
            match parse_u32(right.as_str()) {
                Some(m) => m != u32::MAX,
                None => true,
            }
        },
        None => true,
    }
}

/// Increments the last identifier of a pre-release chain.
pub fn increment_last_identifier(release: &str) -> (r: String)
    requires
        can_increment_last_identifier(release@),
    ensures
        r@ == increment_last_identifier_spec(release@),
{
    if let Some(n) = parse_u32(release) {
        return u64_to_dec(n as u64 + 1);
    }
    let len = char_len(release);
    match rfind_char(release, '.') {
        Some(i) => {
            let right = substring(release, i + 1, len);
            if let Some(m) = parse_u32(right.as_str()) {
                let left = substring(release, 0, i + 1);
                let mut out = left;
                let digits = u64_to_dec(m as u64 + 1);
                out.append(digits.as_str());
                out
            } else {
                concat2(release, ".1")
            }
        },
        None => concat2(release, ".1"),
    }
}

// ---------------------------------------------------------------------------
// Bump operations.
// ---------------------------------------------------------------------------

/// The bump operations a version offers. Each spec function pins down the
/// corresponding method's result exactly.
pub trait BumpVersion: Sized {
    /// Whether the numeric components can still count up.
    spec fn bumpable(self) -> bool;

    /// Whether the pre-release chain can be incremented.
    spec fn prerelease_incrementable(self) -> bool;

    /// Which identifier chains may be installed as a pre-release.
    spec fn prerelease_acceptable(identifiers: Seq<char>) -> bool;

    spec fn major_bumped(self, r: Self) -> bool;

    spec fn minor_bumped(self, r: Self) -> bool;

    spec fn patch_bumped(self, r: Self) -> bool;

    spec fn prerelease_bumped(self, r: Self) -> bool;

    spec fn prerelease_set(self, identifiers: Seq<char>, r: Self) -> bool;

    spec fn release_of(self, r: Self) -> bool;

    /// Increments the major version number.
    fn increment_major(&self) -> (r: Self)
        requires
            self.bumpable(),
        ensures
            self.major_bumped(r),
    ;

    /// Increments the minor version number.
    fn increment_minor(&self) -> (r: Self)
        requires
            self.bumpable(),
        ensures
            self.minor_bumped(r),
    ;

    /// Increments the patch version number.
    fn increment_patch(&self) -> (r: Self)
        requires
            self.bumpable(),
        ensures
            self.patch_bumped(r),
    ;

    /// Increments the prerelease version number.
    fn increment_prerelease(&self) -> (r: Self)
        requires
            self.prerelease_incrementable(),
        ensures
            self.prerelease_bumped(r),
    ;

    /// Add identifiers to version for prerelease.
    fn append_prerelease_identifiers(&self, identifiers: &str) -> (r: Self)
        requires
            Self::prerelease_acceptable(identifiers@),
        ensures
            self.prerelease_set(identifiers@, r),
    ;

    /// Remove prerelease from version.
    fn convert_prerelease_to_release(&self) -> (r: Self)
        ensures
            self.release_of(r),
    ;
}

impl BumpVersion for Version {
    open spec fn bumpable(self) -> bool {
        self.major < u64::MAX && self.minor < u64::MAX && self.patch < u64::MAX
    }

    open spec fn prerelease_incrementable(self) -> bool {
        is_valid_ident_list(self.pre@) && can_increment_last_identifier(self.pre@)
    }

    open spec fn prerelease_acceptable(identifiers: Seq<char>) -> bool {
        is_valid_ident_list(identifiers)
    }

    open spec fn major_bumped(self, r: Version) -> bool {
        &&& r.major == self.major + 1
        &&& r.minor == 0
        &&& r.patch == 0
        &&& r.pre@.len() == 0
        &&& r.build == self.build
    }

    open spec fn minor_bumped(self, r: Version) -> bool {
        &&& r.major == self.major
        &&& r.minor == self.minor + 1
        &&& r.patch == 0
        &&& r.pre@.len() == 0
        &&& r.build == self.build
    }

    open spec fn patch_bumped(self, r: Version) -> bool {
        &&& r.major == self.major
        &&& r.minor == self.minor
        &&& r.patch == self.patch + 1
        &&& r.pre@.len() == 0
        &&& r.build == self.build
    }

    open spec fn prerelease_bumped(self, r: Version) -> bool {
        &&& r.major == self.major
        &&& r.minor == self.minor
        &&& r.patch == self.patch
        &&& r.pre@ == increment_last_identifier_spec(self.pre@)
        &&& r.build == self.build
    }

    open spec fn prerelease_set(self, identifiers: Seq<char>, r: Version) -> bool {
        &&& r.major == self.major
        &&& r.minor == self.minor
        &&& r.patch == self.patch
        &&& r.pre@ == identifiers
        &&& r.build == self.build
    }

    open spec fn release_of(self, r: Version) -> bool {
        &&& r.major == self.major
        &&& r.minor == self.minor
        &&& r.patch == self.patch
        &&& r.pre@.len() == 0
        &&& r.build == self.build
    }

    fn increment_major(&self) -> (r: Version) {
        Version {
            major: self.major + 1,
            minor: 0,
            patch: 0,
            pre: String::new(),
            build: self.build.clone(),
        }
    }

    fn increment_minor(&self) -> (r: Version) {
        Version {
            major: self.major,
            minor: self.minor + 1,
            patch: 0,
            pre: String::new(),
            build: self.build.clone(),
        }
    }

    fn increment_patch(&self) -> (r: Version) {
        Version {
            major: self.major,
            minor: self.minor,
            patch: self.patch + 1,
            pre: String::new(),
            build: self.build.clone(),
        }
    }

    fn increment_prerelease(&self) -> (r: Version) {
        Version {
            major: self.major,
            minor: self.minor,
            patch: self.patch,
            pre: increment_last_identifier(self.pre.as_str()),
            build: self.build.clone(),
        }
    }

    fn append_prerelease_identifiers(&self, identifiers: &str) -> (r: Version) {
        Version {
            major: self.major,
            minor: self.minor,
            patch: self.patch,
            pre: identifiers.to_owned(),
            build: self.build.clone(),
        }
    }

    fn convert_prerelease_to_release(&self) -> (r: Version) {
        Version {
            major: self.major,
            minor: self.minor,
            patch: self.patch,
            pre: String::new(),
            build: self.build.clone(),
        }
    }
}

// ---------------------------------------------------------------------------
// Parsing and rendering.
// ---------------------------------------------------------------------------

/// The parts a well-formed version string parses into.
pub struct VersionParts {
    pub major: u64,
    pub minor: u64,
    pub patch: u64,
    pub pre: Seq<char>,
    pub build: Seq<char>,
}

/// What the semver grammar makes of a string: its parts, or nothing when the
/// string is not a version.
pub uninterp spec fn semver_parsed(text: Seq<char>) -> Option<VersionParts>;

/// Relies on `semver::Version::parse` for the semver grammar; the parts of a
/// parsed version are carried over field by field.
#[verifier::external_body]
fn parse_semver(text: &str) -> (r: Option<Version>)
    ensures
        (match r {
            Some(v) => semver_parsed(text@) == Some(
                VersionParts {
                    major: v.major,
                    minor: v.minor,
                    patch: v.patch,
                    pre: v.pre@,
                    build: v.build@,
                },
            ),
            None => semver_parsed(text@) is None,
        }),
{
    match semver::Version::parse(text) {
        Ok(v) => Some(
            Version {
                major: v.major,
                minor: v.minor,
                patch: v.patch,
                pre: v.pre.as_str().to_string(),
                build: v.build.as_str().to_string(),
            },
        ),
        Err(_) => None,
    }
}

/// Parses a version string, or says in the error which string would not
/// parse.
pub fn version_from_text(text: &str) -> (r: Result<Version, String>)
    ensures
        (match r {
            Ok(v) => semver_parsed(text@) == Some(
                VersionParts {
                    major: v.major,
                    minor: v.minor,
                    patch: v.patch,
                    pre: v.pre@,
                    build: v.build@,
                },
            ),
            Err(e) => semver_parsed(text@) is None && e@ == "Failed to parse version '"@ + text@
                + "' as semver"@,
        }),
{
    match parse_semver(text) {
        Some(v) => Ok(v),
        None => {
            let mut e = "Failed to parse version '".to_owned();
            e.append(text);
            e.append("' as semver");
            Err(e)
        },
    }
}

/// The canonical text of a version.
pub open spec fn version_text_spec(v: Version) -> Seq<char> {
    dec_spec(v.major as nat) + "."@ + dec_spec(v.minor as nat) + "."@ + dec_spec(v.patch as nat)
        + (if v.pre@.len() > 0 {
        "-"@ + v.pre@
    } else {
        Seq::<char>::empty()
    }) + (if v.build@.len() > 0 {
        "+"@ + v.build@
    } else {
        Seq::<char>::empty()
    })
}

impl Version {
    /// A release version with nothing after the numbers.
    pub fn new(major: u64, minor: u64, patch: u64) -> (v: Version)
        ensures
            v.major == major,
            v.minor == minor,
            v.patch == patch,
            v.pre@.len() == 0,
            v.build@.len() == 0,
    {
        Version { major, minor, patch, pre: String::new(), build: String::new() }
    }

    /// A field-for-field copy whose equality to the original is known to
    /// the verifier, unlike the derived `clone`.
    pub fn clone_exact(&self) -> (r: Version)
        ensures
            r == *self,
    {
        Version {
            major: self.major,
            minor: self.minor,
            patch: self.patch,
            pre: self.pre.clone(),
            build: self.build.clone(),
        }
    }

    /// Whether this version carries a pre-release chain.
    pub fn has_prerelease(&self) -> (r: bool)
        ensures
            r == (self.pre@.len() > 0),
    {
        !self.pre.as_str().is_empty()
    }

    /// Whether `increment_prerelease` may take this version: the chain is
    /// well-formed and no counter of it sits at the `u32` ceiling.
    pub fn can_increment_prerelease(&self) -> (r: bool)
        ensures
            r == self.prerelease_incrementable(),
    {
        prerelease_is_valid(self.pre.as_str()) && can_increment_identifier(self.pre.as_str())
    }

    /// Renders the version the way it is written: `1.2.3`, `1.2.3-beta.1`,
    /// `1.2.3+build5`, or both suffixes.
    pub fn render(&self) -> (r: String)
        ensures
            r@ == version_text_spec(*self),
    {
        let mut out = u64_to_dec(self.major);
        out.append(".");
        let minor = u64_to_dec(self.minor);
        out.append(minor.as_str());
        out.append(".");
        let patch = u64_to_dec(self.patch);
        out.append(patch.as_str());
        if !self.pre.as_str().is_empty() {
            out.append("-");
            out.append(self.pre.as_str());
        }
        if !self.build.as_str().is_empty() {
            out.append("+");
            out.append(self.build.as_str());
        }
        out
    }
}

} // verus!
