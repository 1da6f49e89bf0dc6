//! What to do with the version file once its text, or the failure to read
//! it, is at hand.

use vstd::prelude::*;
use vstd::string::StringExecFns;
use path_absolutize::Absolutize;
use std::path::Path;
use crate::version::{
    bump, bumped_text, lemma_bump_once, parse_version_spec, Failure, Field, Version, VersionError,
};

verus! {

/// What is to be done about the version file.
#[derive(Debug, PartialEq, Eq)]
pub enum Update {
    /// Put this text in place of the file's content.
    Write(String),
    /// Print these lines, one after the other, and leave the file as it is.
    Report(Vec<String>),
    /// The file's path has no absolute form here: nothing can go on.
    NoAbsolutePath,
    /// The build number has no successor in 32 bits: nothing can go on.
    BuildOverflow,
}

/// An `Update` with its texts as sequences of characters.
pub enum Plan {
    Write(Seq<char>),
    Report(Seq<Seq<char>>),
    NoAbsolutePath,
    BuildOverflow,
}

/// What each string of `lines` holds.
pub open spec fn line_views(lines: Seq<String>) -> Seq<Seq<char>> {
    Seq::new(lines.len(), |i: int| lines[i]@)
}

impl View for Update {
    type V = Plan;

    open spec fn view(&self) -> Plan {
        match self {
            Update::Write(text) => Plan::Write(text@),
            Update::Report(lines) => Plan::Report(line_views(lines@)),
            Update::NoAbsolutePath => Plan::NoAbsolutePath,
            Update::BuildOverflow => Plan::BuildOverflow,
        }
    }
}

/// What a string, if there is one, holds.
pub open spec fn path_view(path: Option<String>) -> Option<Seq<char>> {
    match path {
        Some(p) => Some(p@),
        None => None,
    }
}

/// What came of reading the file: the content or the error's text.
pub open spec fn read_view(read: Result<String, String>) -> Result<Seq<char>, Seq<char>> {
    match read {
        Ok(content) => Ok(content@),
        Err(error) => Err(error@),
    }
}

/// The word for a number of the version, as the diagnostics have it.
pub open spec fn field_word(field: Field) -> Seq<char> {
    match field {
        Field::Major => "major"@,
        Field::Minor => "minor"@,
        Field::Build => "build"@,
    }
}

/// The line printed for a text that is not three pieces.
pub open spec fn format_line() -> Seq<char> {
    "version file does not contain a value in the format 1.2.3"@
}

/// The line printed for a piece that is not an integer: it names the number
/// and quotes the piece.
pub open spec fn not_an_int_line(field: Field, piece: Seq<char>) -> Seq<char> {
    field_word(field) + " version number is not an int: `"@ + piece + "`"@
}

/// The message for a file whose modification time cannot be had: the words
/// `full path: ` and the file's absolute path.
pub open spec fn full_path_line(full_path: Seq<char>) -> Seq<char> {
    "full path: "@ + full_path
}

/// The update that follows from the file's absolute path, if it has one, and
/// from what reading it gave.
///
/// Without an absolute path nothing is done. A failed read is reported with
/// the error and the absolute path. A content that is no version is reported
/// with the line that says why. Otherwise the file gets the next version's
/// text.
pub open spec fn plan_update_spec(
    full_path: Option<Seq<char>>,
    read: Result<Seq<char>, Seq<char>>,
) -> Plan {
    match full_path {
        None => Plan::NoAbsolutePath,
        Some(path) => match read {
            Err(error) => Plan::Report(seq![error, path]),
            Ok(content) => match bumped_text(content) {
                Ok(next) => Plan::Write(next),
                Err(Failure::Format) => Plan::Report(seq![format_line()]),
                Err(Failure::NotAnInt(field, piece)) => Plan::Report(
                    seq![not_an_int_line(field, piece)],
                ),
                Err(Failure::BuildOverflow) => Plan::BuildOverflow,
            },
        },
    }
}

/// `Absolutize::absolutize` of the crate path_absolutize, on a `Path` made
/// of `path`: the absolute form of the path, with `.` and `..` resolved
/// against the current directory of the process. Nothing is claimed of the
/// result, which depends on that directory. It is `None` where the crate
/// returns an error or a path that is not UTF-8.
#[verifier::external_body]
fn absolute_path(path: &str) -> (r: Option<String>) {
    match Path::new(path).absolutize() {
        Ok(full) => full.to_str().map(String::from),
        Err(_) => None,
    }
}

/// The line for a piece that is not an integer.
pub fn not_an_int_message(field: Field, piece: &str) -> (r: String)
    ensures
        r@ == not_an_int_line(field, piece@),
{
    let word: &str = match field {
        Field::Major => "major",
        Field::Minor => "minor",
        Field::Build => "build",
    };
    let mut line = String::from_str(word);
    line.append(" version number is not an int: `");
    line.append(piece);
    line.append("`");
    line
}

/// The line for a text that is not three pieces.
pub fn format_message() -> (r: String)
    ensures
        r@ == format_line(),
{
    String::from_str("version file does not contain a value in the format 1.2.3")
}

/// The message for a file whose modification time cannot be had.
pub fn full_path_message(full_path: &str) -> (r: String)
    ensures
        r@ == full_path_line(full_path@),
{
    let mut line = String::from_str("full path: ");
    line.append(full_path);
    line
}

/// The message for the file at `path`, whose modification time cannot be
/// had: it names the file's absolute path. `None` where the path has no
/// absolute form.
pub fn stat_failure_message(path: &str) -> (r: Option<String>)
    ensures
        r matches Some(message) ==> exists|full_path: Seq<char>|
            message@ == full_path_line(full_path),
{
    let full_path = absolute_path(path);
    let r = stat_failure_message_for(full_path);
    proof {
        if r.is_some() {
            assert(r->Some_0@ == full_path_line(full_path->Some_0@));
        }
    }
    r
}

/// The message that follows from a file's absolute path, if it has one:
/// the words `full path: ` and that path. Without an absolute path there is
/// no message.
pub open spec fn stat_failure_line(full_path: Option<Seq<char>>) -> Option<Seq<char>> {
    match full_path {
        Some(path) => Some(full_path_line(path)),
        None => None,
    }
}

/// The message for a file whose modification time cannot be had, from the
/// file's absolute path where it has one.
pub fn stat_failure_message_for(full_path: Option<String>) -> (r: Option<String>)
    ensures
        path_view(r) == stat_failure_line(path_view(full_path)),
{
    match full_path {
        Some(path) => Some(full_path_message(path.as_str())),
        None => None,
    }
}

/// Decides the update from the file's absolute path and from what reading the
/// file gave: its content, or the text of the error.
pub fn plan_update(full_path: Option<String>, read: Result<String, String>) -> (r: Update)
    ensures
        r@ == plan_update_spec(path_view(full_path), read_view(read)),
{
    let path = match full_path {
        None => { return Update::NoAbsolutePath; },
        Some(path) => path,
    };
    let content = match read {
        Err(error) => {
            let mut lines: Vec<String> = Vec::new();
            lines.push(error);
            lines.push(path);
            proof {
                assert(line_views(lines@) =~~= seq![error@, path@]);
            }
            return Update::Report(lines);
        },
        Ok(content) => content,
    };
    match bump(content.as_str()) {
        Ok(next) => Update::Write(next),
        Err(VersionError::Format) => {
            let mut lines: Vec<String> = Vec::new();
            lines.push(format_message());
            proof {
                assert(line_views(lines@) =~~= seq![format_line()]);
            }
            Update::Report(lines)
        },
        Err(VersionError::NotAnInt(field, piece)) => {
            let mut lines: Vec<String> = Vec::new();
            lines.push(not_an_int_message(field, piece.as_str()));
            proof {
                assert(line_views(lines@) =~~= seq![not_an_int_line(field, piece@)]);
            }
            Update::Report(lines)
        },
        Err(VersionError::BuildOverflow) => Update::BuildOverflow,
    }
}

/// Decides the update of the version file at `path` from what reading it
/// gave: its content, or the text of the error. The path is made absolute
/// first; whatever its absolute form is, the update is the one that
/// `plan_update_spec` gives for it.
pub fn update_version_file(path: &str, read: Result<String, String>) -> (r: Update)
    ensures
        exists|full_path: Option<Seq<char>>| r@ == plan_update_spec(full_path, read_view(read)),
{
    let full_path = absolute_path(path);
    let r = plan_update(full_path, read);
    proof {
        assert(r@ == plan_update_spec(path_view(full_path), read_view(read)));
    }
    r
}

/// The file is written only when it was read and held a version, and what is
/// written then reads as that version with the build number one higher. In
/// every other case the file is left as it is.
pub proof fn lemma_write_is_next_version(
    full_path: Option<Seq<char>>,
    read: Result<Seq<char>, Seq<char>>,
)
    ensures
        plan_update_spec(full_path, read) matches Plan::Write(next) ==> {
            &&& read matches Ok(content)
            &&& parse_version_spec(content) matches Ok(v)
            &&& v.build < i32::MAX
            &&& parse_version_spec(next) == Ok::<Version, Failure>(
                (Version { major: v.major, minor: v.minor, build: (v.build + 1) as i32 }),
            )
        },
{
    if let Plan::Write(next) = plan_update_spec(full_path, read) {
        let content = read->Ok_0;
        let v = parse_version_spec(content)->Ok_0;
        lemma_bump_once(content, v);
    }
}

} // verus!
