//! The version triple, its text form, and the bump of its build number.

use vstd::prelude::*;
use crate::decimal::{
    i32_text, int_text, lemma_i32_text_round_trip, lemma_int_text_shape, parse_i32,
    parse_i32_spec, push_i32,
};
use crate::text::{
    chars_of, free_of, lemma_split_append, lemma_split_push_sep, split, split_chars, string_of,
    views,
};

verus! {

/// A version: `major.minor.build`.
#[derive(Clone, Copy, Debug, PartialEq, Eq, Structural)]
pub struct Version {
    pub major: i32,
    pub minor: i32,
    pub build: i32,
}

/// One of the three numbers of a version.
#[derive(Clone, Copy, Debug, PartialEq, Eq, Structural)]
pub enum Field {
    Major,
    Minor,
    Build,
}

/// Why a text gives no next version.
#[derive(Debug, PartialEq, Eq)]
pub enum VersionError {
    /// The text is not three pieces separated by dots.
    Format,
    /// The piece for the named number is not a 32-bit integer; the piece is
    /// given as it stood in the text.
    NotAnInt(Field, String),
    /// The build number is the largest that 32 bits hold and has no successor.
    BuildOverflow,
}

/// A `VersionError` with the offending piece as a sequence of characters.
pub enum Failure {
    Format,
    NotAnInt(Field, Seq<char>),
    BuildOverflow,
}

impl View for VersionError {
    type V = Failure;

    open spec fn view(&self) -> Failure {
        match self {
            VersionError::Format => Failure::Format,
            VersionError::NotAnInt(field, text) => Failure::NotAnInt(*field, text@),
            VersionError::BuildOverflow => Failure::BuildOverflow,
        }
    }
}

/// The version that `s` denotes: `s` is split at every dot, must give exactly
/// three pieces, and each piece must read as a 32-bit integer. The first
/// piece that does not is reported under its number's name.
pub open spec fn parse_version_spec(s: Seq<char>) -> Result<Version, Failure> {
    let pieces = split(s, '.');
    if pieces.len() != 3 {
        Err(Failure::Format)
    } else {
        match parse_i32_spec(pieces[0]) {
            None => Err(Failure::NotAnInt(Field::Major, pieces[0])),
            Some(major) => match parse_i32_spec(pieces[1]) {
                None => Err(Failure::NotAnInt(Field::Minor, pieces[1])),
                Some(minor) => match parse_i32_spec(pieces[2]) {
                    None => Err(Failure::NotAnInt(Field::Build, pieces[2])),
                    Some(build) => Ok(Version { major, minor, build }),
                },
            },
        }
    }
}

/// The text of a version: the three numbers in decimal, joined by dots, with
/// nothing before, between or after.
pub open spec fn version_text(v: Version) -> Seq<char> {
    int_text(v.major as int) + seq!['.'] + int_text(v.minor as int) + seq!['.'] + int_text(
        v.build as int,
    )
}

/// What the version file holds after a bump of a file that held `s`, or why
/// it is left as it is.
pub open spec fn bumped_text(s: Seq<char>) -> Result<Seq<char>, Failure> {
    match parse_version_spec(s) {
        Err(e) => Err(e),
        Ok(v) => if v.build == i32::MAX {
            Err(Failure::BuildOverflow)
        } else {
            Ok(version_text(v.bumped_spec()))
        },
    }
}

impl Version {
    /// The same version with the build number one higher.
    pub open spec fn bumped_spec(self) -> Version {
        Version { major: self.major, minor: self.minor, build: (self.build + 1) as i32 }
    }

    /// The version after this one: the build number goes up by one, the other
    /// two stay. There is none after the largest build number.
    pub fn bumped(self) -> (r: Option<Version>)
        ensures
            self.build == i32::MAX ==> r.is_none(),
            self.build < i32::MAX ==> r == Some(self.bumped_spec()),
            r matches Some(v) ==> v.major == self.major && v.minor == self.minor && v.build
                == self.build + 1,
    {
        if self.build == i32::MAX {
            None
        } else {
            Some(Version { major: self.major, minor: self.minor, build: self.build + 1 })
        }
    }

    /// The text of this version. Read again, it gives this version back.
    pub fn text(&self) -> (r: String)
        ensures
            r@ == version_text(*self),
            parse_version_spec(r@) == Ok::<Version, Failure>(*self),
    {
        let mut out = i32_text(self.major);
        out.push('.');
        push_i32(&mut out, self.minor);
        out.push('.');
        push_i32(&mut out, self.build);
        proof {
            assert(out@ =~= version_text(*self));
            lemma_text_round_trip(*self);
        }
        out
    }
}

/// Reads one piece of a version text as the number `field`.
fn parse_field(piece: &Vec<char>, field: Field) -> (r: Result<i32, VersionError>)
    ensures
        match r {
            Ok(n) => parse_i32_spec(piece@) == Some(n),
            Err(e) => parse_i32_spec(piece@).is_none() && e@ == Failure::NotAnInt(
                field,
                piece@,
            ),
        },
{
    match parse_i32(piece.as_slice()) {
        Some(n) => Ok(n),
        None => Err(VersionError::NotAnInt(field, string_of(piece.as_slice()))),
    }
}

/// Reads the whole of `content` as a version.
pub fn parse_version(content: &str) -> (r: Result<Version, VersionError>)
    ensures
        match r {
            Ok(v) => parse_version_spec(content@) == Ok::<Version, Failure>(v),
            Err(e) => parse_version_spec(content@) == Err::<Version, Failure>(e@),
        },
{
    let chars = chars_of(content);
    let parts = split_chars(chars.as_slice(), '.');
    if parts.len() != 3 {
        return Err(VersionError::Format);
    }
    proof {
        assert(views(parts@)[0] == parts@[0]@);
        assert(views(parts@)[1] == parts@[1]@);
        assert(views(parts@)[2] == parts@[2]@);
    }
    let major: i32 = match parse_field(&parts[0], Field::Major) {
        Ok(n) => n,
        Err(e) => { return Err(e); },
    };
    let minor: i32 = match parse_field(&parts[1], Field::Minor) {
        Ok(n) => n,
        Err(e) => { return Err(e); },
    };
    let build: i32 = match parse_field(&parts[2], Field::Build) {
        Ok(n) => n,
        Err(e) => { return Err(e); },
    };
    Ok(Version { major, minor, build })
}

/// The text to put in place of `content`: the version it holds, with the
/// build number one higher.
pub fn bump(content: &str) -> (r: Result<String, VersionError>)
    ensures
        match r {
            Ok(next) => bumped_text(content@) == Ok::<Seq<char>, Failure>(next@),
            Err(e) => bumped_text(content@) == Err::<Seq<char>, Failure>(e@),
        },
{
    match parse_version(content) {
        Err(e) => Err(e),
        Ok(v) => match v.bumped() {
            None => Err(VersionError::BuildOverflow),
            Some(next) => Ok(next.text()),
        },
    }
}

/// A version's text splits at its dots into the texts of its three numbers.
pub proof fn lemma_version_text_split(v: Version)
    ensures
        split(version_text(v), '.') == seq![
            int_text(v.major as int),
            int_text(v.minor as int),
            int_text(v.build as int),
        ],
{
    let a = int_text(v.major as int);
    let b = int_text(v.minor as int);
    let c = int_text(v.build as int);
    let e = Seq::<char>::empty();
    lemma_int_text_shape(v.major as int);
    lemma_int_text_shape(v.minor as int);
    lemma_int_text_shape(v.build as int);
    assert(free_of(a, '.'));
    assert(free_of(b, '.'));
    assert(free_of(c, '.'));
    lemma_split_append(e, a, '.');
    assert(e + a =~= a);
    assert(split(e, '.') =~~= seq![e]);
    assert(split(a, '.') =~~= seq![a]);
    lemma_split_push_sep(a, '.');
    assert(a.push('.') =~= a + seq!['.']);
    assert(split(a + seq!['.'], '.') =~~= seq![a, e]);
    lemma_split_append(a + seq!['.'], b, '.');
    assert(e + b =~= b);
    let ab = a + seq!['.'] + b;
    assert(split(ab, '.') =~~= seq![a, b]);
    lemma_split_push_sep(ab, '.');
    assert(ab.push('.') =~= ab + seq!['.']);
    assert(split(ab + seq!['.'], '.') =~~= seq![a, b, e]);
    lemma_split_append(ab + seq!['.'], c, '.');
    assert(e + c =~= c);
    assert(split(ab + seq!['.'] + c, '.') =~~= seq![a, b, c]);
}

/// Writing a version and reading the text again gives the same version.
pub proof fn lemma_text_round_trip(v: Version)
    ensures
        parse_version_spec(version_text(v)) == Ok::<Version, Failure>(v),
{
    lemma_version_text_split(v);
    lemma_i32_text_round_trip(v.major);
    lemma_i32_text_round_trip(v.minor);
    lemma_i32_text_round_trip(v.build);
}

/// A bump of a well-formed text gives a text that reads as the same version
/// with the build number one higher.
pub proof fn lemma_bump_once(s: Seq<char>, v: Version)
    requires
        parse_version_spec(s) == Ok::<Version, Failure>(v),
        v.build < i32::MAX,
    ensures
        bumped_text(s) is Ok,
        parse_version_spec(bumped_text(s)->Ok_0) == Ok::<Version, Failure>(
            (Version { major: v.major, minor: v.minor, build: (v.build + 1) as i32 }),
        ),
{
    lemma_text_round_trip(v.bumped_spec());
}

/// Two bumps of a well-formed text, one after the other, raise the build
/// number by two and leave the other two numbers as they were, as long as the
/// build number has two successors.
pub proof fn lemma_bump_twice(s: Seq<char>, v: Version)
    requires
        parse_version_spec(s) == Ok::<Version, Failure>(v),
        v.build + 2 <= i32::MAX,
    ensures
        bumped_text(s) is Ok,
        bumped_text(bumped_text(s)->Ok_0) is Ok,
        parse_version_spec(bumped_text(bumped_text(s)->Ok_0)->Ok_0) == Ok::<Version, Failure>(
            (Version { major: v.major, minor: v.minor, build: (v.build + 2) as i32 }),
        ),
{
    lemma_bump_once(s, v);
    lemma_bump_once(bumped_text(s)->Ok_0, v.bumped_spec());
}

} // verus!
