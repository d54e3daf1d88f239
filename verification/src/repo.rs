use vstd::prelude::*;

use crate::text::{join_spec, trim, trim_spec};
use vstd::string::StringExecFns;

verus! {

// ---------------------------------------------------------------------------
// Repository actions.
//
// A `Repo` plans what git is asked to do; each method builds the exact
// argument list. Running git is a process call and happens outside the
// library, which then hands stdout, stderr and the exit status back to
// `interpret_git_output`.
// ---------------------------------------------------------------------------

/// A project directory that release actions run in.
#[derive(Debug, Clone)]
pub struct Repo {
    pub directory: String,
}

/// One git invocation: the directory to run in and the arguments after
/// `git -C <directory>`.
#[derive(Debug, Clone)]
pub struct GitCommand {
    pub directory: String,
    pub args: Vec<String>,
}

impl Repo {
    /// Accepts the directory when it exists; the caller reports whether it
    /// does.
    pub fn new(directory: String, directory_exists: bool) -> (r: Result<Repo, String>)
        ensures
            (match r {
                Ok(repo) => directory_exists && repo.directory == directory,
                Err(e) => !directory_exists && e@ == directory@ + " does not exists."@,
            }),
    {
        if directory_exists {
            Ok(Repo { directory })
        } else {
            let mut e = directory;
            e.append(" does not exists.");
            Err(e)
        }
    }

    /// The command that stages one file.
    pub fn stage_file(&self, file_name: &str) -> (c: GitCommand)
        ensures
            c.directory == self.directory,
            c.args@.len() == 2,
            c.args@[0]@ == "add"@,
            c.args@[1]@ == file_name@,
    {
        let mut args: Vec<String> = Vec::new();
        args.push("add".to_owned());
        args.push(file_name.to_owned());
        GitCommand { directory: self.directory.clone(), args }
    }

    /// The command that commits the bumped files, with the release message
    /// for the next version.
    pub fn commit_changes(&self, next_version: &str) -> (c: GitCommand)
        ensures
            c.directory == self.directory,
            c.args@.len() == 3,
            c.args@[0]@ == "commit"@,
            c.args@[1]@ == "-m"@,
            c.args@[2]@ == "chore(release): "@ + next_version@,
    {
        let mut message = "chore(release): ".to_owned();
        message.append(next_version);
        let mut args: Vec<String> = Vec::new();
        args.push("commit".to_owned());
        args.push("-m".to_owned());
        args.push(message);
        GitCommand { directory: self.directory.clone(), args }
    }

    /// The command that tags the release as `<prefix><version>`.
    pub fn tag_release(&self, next_version: &str, tag_prefix: &str) -> (c: GitCommand)
        ensures
            c.directory == self.directory,
            c.args@.len() == 5,
            c.args@[0]@ == "tag"@,
            c.args@[1]@ == "-a"@,
            c.args@[2]@ == tag_prefix@ + next_version@,
            c.args@[3]@ == "-m"@,
            c.args@[4]@ == "chore(release): "@ + next_version@,
    {
        let mut tag = tag_prefix.to_owned();
        tag.append(next_version);
        let mut message = "chore(release): ".to_owned();
        message.append(next_version);
        let mut args: Vec<String> = Vec::new();
        args.push("tag".to_owned());
        args.push("-a".to_owned());
        args.push(tag);
        args.push("-m".to_owned());
        args.push(message);
        GitCommand { directory: self.directory.clone(), args }
    }
}

/// Each argument with surrounding whitespace removed, as the git runner
/// passes them on.
pub fn trim_args(args: &Vec<String>) -> (r: Vec<String>)
    ensures
        r@.len() == args@.len(),
        forall|i: int| 0 <= i < args@.len() ==> #[trigger] r@[i]@ == trim_spec(args@[i]@),
{
    let mut r: Vec<String> = Vec::new();
    let mut i: usize = 0;
    while i < args.len()
        invariant
            0 <= i <= args@.len(),
            r@.len() == i,
            forall|j: int| 0 <= j < i ==> #[trigger] r@[j]@ == trim_spec(args@[j]@),
        decreases args@.len() - i,
    {
        r.push(trim(args[i].as_str()));
        i = i + 1;
    }
    r
}

/// The text of a quoted value, written the way a debug listing shows it.
pub fn quoted(s: &str) -> (r: String)
    ensures
        r@ == "\""@ + s@ + "\""@,
{
    crate::text::concat3("\"", s, "\"")
}

/// The arguments listed the way a debug listing shows them: quoted, comma
/// separated, bracketed.
pub open spec fn args_listing_spec(args: Seq<Seq<char>>) -> Seq<char> {
    "["@ + join_spec(args.map_values(|a: Seq<char>| "\""@ + a + "\""@), ", "@) + "]"@
}

fn args_listing(args: &Vec<String>) -> (r: String)
    ensures
        r@ == args_listing_spec(args@.map_values(|a: String| a@)),
{
    let mut quoted_args: Vec<String> = Vec::new();
    let mut i: usize = 0;
    while i < args.len()
        invariant
            0 <= i <= args@.len(),
            quoted_args@.len() == i,
            forall|j: int| 0 <= j < i ==> #[trigger] quoted_args@[j]@ == "\""@ + args@[j]@
                + "\""@,
        decreases args@.len() - i,
    {
        quoted_args.push(quoted(args[i].as_str()));
        i = i + 1;
    }
    proof {
        assert(quoted_args@.map_values(|a: String| a@) =~~= args@.map_values(
            |a: String| a@,
        ).map_values(|a: Seq<char>| "\""@ + a + "\""@));
    }
    let joined = crate::text::join_strings(&quoted_args, ", ");
    crate::text::concat3("[", joined.as_str(), "]")
}

/// The message reported when git fails: the command that ran, then whichever
/// of its streams had anything to say.
pub open spec fn git_error_spec(
    directory: Seq<char>,
    args: Seq<Seq<char>>,
    stdout: Seq<char>,
    stderr: Seq<char>,
) -> Seq<char> {
    "error while running git in directory `\""@ + directory + "\"` with args `"@
        + args_listing_spec(args) + (if stdout.len() > 0 || stderr.len() > 0 {
        ":"@
    } else {
        Seq::<char>::empty()
    }) + (if stdout.len() > 0 {
        "\n- stdout: "@ + stdout
    } else {
        Seq::<char>::empty()
    }) + (if stderr.len() > 0 {
        "\n- stderr: "@ + stderr
    } else {
        Seq::<char>::empty()
    })
}

/// Turns what the git process produced into the call's result: stdout on
/// success, the assembled error message otherwise.
pub fn interpret_git_output(
    directory: &str,
    args: &Vec<String>,
    success: bool,
    stdout: &str,
    stderr: &str,
) -> (r: Result<String, String>)
    ensures
        (match r {
            Ok(out) => success && out@ == stdout@,
            Err(e) => !success && e@ == git_error_spec(
                directory@,
                args@.map_values(|a: String| a@),
                stdout@,
                stderr@,
            ),
        }),
{
    if success {
        return Ok(stdout.to_owned());
    }
    let mut e = "error while running git in directory `\"".to_owned();
    e.append(directory);
    e.append("\"` with args `");
    let listing = args_listing(args);
    e.append(listing.as_str());
    if !stdout.is_empty() || !stderr.is_empty() {
        e.append(":");
    }
    if !stdout.is_empty() {
        e.append("\n- stdout: ");
        e.append(stdout);
    }
    if !stderr.is_empty() {
        e.append("\n- stderr: ");
        e.append(stderr);
    }
    Err(e)
}

} // verus!
