//! The written form of a version, `major.minor.patch`: reading it and writing it.

use crate::number::{
    decimal, is_digit, lemma_decimal_denotes, lemma_number_round_trip, number_spec,
    parse_number, write_number, NumberError,
};
use crate::text::{
    lemma_split_concat, lemma_split_count, lemma_split_plain, occurrences, split, split_text,
};
use crate::version::Version;
use vstd::prelude::*;

verus! {

/// Why a text is not a version.
#[derive(Clone, Debug, PartialEq, Eq)]
pub enum VersionError {
    /// Cut at its dots, the text does not fall into exactly three pieces.
    InvalidFormat,
    /// One of the three pieces is not an unsigned 32-bit decimal number.
    InvalidNumber { segment: String, reason: NumberError },
}

/// A `VersionError` with its text as a sequence of characters.
pub enum VersionFault {
    InvalidFormat,
    InvalidNumber { segment: Seq<char>, reason: NumberError },
}

impl View for VersionError {
    type V = VersionFault;

    open spec fn view(&self) -> VersionFault {
        match *self {
            VersionError::InvalidFormat => VersionFault::InvalidFormat,
            VersionError::InvalidNumber { segment, reason } => VersionFault::InvalidNumber {
                segment: segment@,
                reason,
            },
        }
    }
}

impl VersionFault {
    /// The fault in words: for a piece that is no number, what is wrong with it.
    pub open spec fn text(self) -> Seq<char> {
        match self {
            VersionFault::InvalidFormat => "Invalid version"@,
            VersionFault::InvalidNumber { segment, reason } => reason.text(),
        }
    }
}

impl VersionError {
    /// The fault in words.
    pub fn message(&self) -> (message: String)
        ensures
            message@ == self@.text(),
    {
        match self {
            VersionError::InvalidFormat => "Invalid version".to_owned(),
            VersionError::InvalidNumber { segment, reason } => reason.message(),
        }
    }
}

/// What reading `piece` as a component gives: the number, or the fault that names the piece.
pub open spec fn component(piece: Seq<char>) -> Result<u32, VersionFault> {
    match number_spec(piece) {
        Ok(n) => Ok(n),
        Err(reason) => Err(VersionFault::InvalidNumber { segment: piece, reason }),
    }
}

/// What `text` is as a version.
///
/// The text is cut at every `.` and must fall into exactly three pieces, each of them a
/// number; nothing is trimmed. Of several pieces that are not numbers, the first is reported.
pub open spec fn parse_spec(text: Seq<char>) -> Result<Version, VersionFault> {
    let pieces = split(text, '.');
    if pieces.len() != 3 {
        Err(VersionFault::InvalidFormat)
    } else {
        match (component(pieces[0]), component(pieces[1]), component(pieces[2])) {
            (Ok(major), Ok(minor), Ok(patch)) => Ok(Version { major, minor, patch }),
            (Err(fault), _, _) => Err(fault),
            (_, Err(fault), _) => Err(fault),
            (_, _, Err(fault)) => Err(fault),
        }
    }
}

/// The written form of `v`: its three components in decimal, with a dot between them.
pub open spec fn written(v: Version) -> Seq<char> {
    (decimal(v.major as nat).push('.') + decimal(v.minor as nat)).push('.') + decimal(
        v.patch as nat,
    )
}

/// A result of `parse` with the error, if any, taken by its view.
pub open spec fn parsed_view(r: Result<Version, VersionError>) -> Result<Version, VersionFault> {
    match r {
        Ok(v) => Ok(v),
        Err(e) => Err(e@),
    }
}

/// Reads one piece of a version.
fn parse_component(piece: &String) -> (r: Result<u32, VersionError>)
    ensures
        match r {
            Ok(n) => component(piece@) == Ok::<u32, VersionFault>(n),
            Err(e) => component(piece@) == Err::<u32, VersionFault>(e@),
        },
{
    match parse_number(piece.as_str()) {
        Ok(n) => Ok(n),
        Err(reason) => Err(VersionError::InvalidNumber { segment: piece.clone(), reason }),
    }
}

/// Reads a version from `text`.
pub fn parse(text: &str) -> (r: Result<Version, VersionError>)
    ensures
        parsed_view(r) == parse_spec(text@),
{
    let pieces = split_text(text, '.');
    if pieces.len() != 3 {
        return Err(VersionError::InvalidFormat);
    }
    assert(pieces.deep_view()[0] == pieces[0]@);
    assert(pieces.deep_view()[1] == pieces[1]@);
    assert(pieces.deep_view()[2] == pieces[2]@);
    let major = match parse_component(&pieces[0]) {
        Ok(n) => n,
        Err(e) => {
            return Err(e);
        },
    };
    let minor = match parse_component(&pieces[1]) {
        Ok(n) => n,
        Err(e) => {
            return Err(e);
        },
    };
    let patch = match parse_component(&pieces[2]) {
        Ok(n) => n,
        Err(e) => {
            return Err(e);
        },
    };
    Ok(Version { major, minor, patch })
}

impl Version {
    /// Writes the version as `major.minor.patch`: a text that reads back as this version.
    pub fn to_string(&self) -> (text: String)
        ensures
            text@ == written(*self),
            parse_spec(text@) == Ok::<Version, VersionFault>(*self),
    {
        proof {
            reveal_strlit(".");
            lemma_round_trip(*self);
        }
        let mut text = String::new();
        write_number(self.major, &mut text);
        text.append(".");
        write_number(self.minor, &mut text);
        text.append(".");
        write_number(self.patch, &mut text);
        assert(text@ =~= written(*self));
        text
    }
}

/// The writing of a number holds no dot.
proof fn lemma_decimal_has_no_dot(n: nat)
    ensures
        !decimal(n).contains('.'),
{
    lemma_decimal_denotes(n);
    let s = decimal(n);
    if s.contains('.') {
        let i = choose|i: int| 0 <= i < s.len() && s[i] == '.';
        assert(is_digit(s[i]));
    }
}

/// Written and read again, every version comes back as it was.
pub proof fn lemma_round_trip(v: Version)
    ensures
        parse_spec(written(v)) == Ok::<Version, VersionFault>(v),
{
    let a = decimal(v.major as nat);
    let b = decimal(v.minor as nat);
    let c = decimal(v.patch as nat);
    lemma_decimal_has_no_dot(v.major as nat);
    lemma_decimal_has_no_dot(v.minor as nat);
    lemma_decimal_has_no_dot(v.patch as nat);
    lemma_split_plain(a, '.');
    lemma_split_plain(b, '.');
    lemma_split_plain(c, '.');
    lemma_split_concat(a, b, '.');
    lemma_split_concat(a.push('.') + b, c, '.');
    assert(split(written(v), '.') =~= seq![a, b, c]);
    lemma_number_round_trip(v.major);
    lemma_number_round_trip(v.minor);
    lemma_number_round_trip(v.patch);
}

/// Two versions that are written alike are the same version.
pub proof fn lemma_written_apart(a: Version, b: Version)
    requires
        written(a) == written(b),
    ensures
        a == b,
{
    lemma_round_trip(a);
    lemma_round_trip(b);
}

/// A text is a version exactly when it holds two dots and each of the three pieces between
/// them is a number. With fewer dots or more the fault is `InvalidFormat`, and with two it
/// is the first piece that is no number.
pub proof fn lemma_parse_accepts(text: Seq<char>)
    ensures
        occurrences(text, '.') != 2 <==> parse_spec(text) == Err::<Version, VersionFault>(
            VersionFault::InvalidFormat,
        ),
        parse_spec(text) is Ok <==> occurrences(text, '.') == 2 && forall|k: int|
            0 <= k < 3 ==> number_spec(#[trigger] split(text, '.')[k]) is Ok,
        occurrences(text, '.') == 2 && (exists|k: int|
            0 <= k < 3 && number_spec(#[trigger] split(text, '.')[k]) is Err) <==> parse_spec(
            text,
        ) is Err && parse_spec(text) != Err::<Version, VersionFault>(VersionFault::InvalidFormat),
{
    lemma_split_count(text, '.');
    let pieces = split(text, '.');
    if pieces.len() == 3 {
        if number_spec(pieces[0]) is Err {
            assert(component(pieces[0]) is Err);
        } else if number_spec(pieces[1]) is Err {
            assert(component(pieces[1]) is Err);
        } else if number_spec(pieces[2]) is Err {
            assert(component(pieces[2]) is Err);
        }
    }
}

} // verus!
