//! Finding the version that a package manifest declares: the field `version` of the table
//! `package` of a TOML document.
//!
//! The document is read by the crate `toml`. What that crate does is not verified here: it
//! is described by the contracts of four small functions, `read_document`, `field`,
//! `value_text` and `error_text`, and everything else in this module is proved from them.
//! Not every `toml::Value` can be written out as text: one that holds a date or time which
//! is none makes `to_string` panic. So `value_text` asks for a value that is `writable`, and
//! the values that the parser returns, and the entries found in them, are.

use crate::text::chars_of;
use vstd::prelude::*;

verus! {

/// `toml::Value`, a value of a TOML document. Nothing inside it is visible to the proofs.
#[verifier::external_type_specification]
#[verifier::external_body]
pub struct ExValue(toml::Value);

/// `toml::de::Error`, the error of the TOML parser. Nothing inside it is visible to the
/// proofs.
#[verifier::external_type_specification]
#[verifier::external_body]
pub struct ExDocumentError(toml::de::Error);

/// What a value of a document holds, as far as this library reads it.
pub struct Entry {
    /// The value written out in TOML.
    pub text: Seq<char>,
    /// The entries of the value, by key, where it is a table; none where it is not.
    pub fields: Map<Seq<char>, Entry>,
}

/// What `toml::from_str` makes of `text` read as a document: what the root table holds, or
/// the message of the parser's error.
pub uninterp spec fn document_of(text: Seq<char>) -> Result<Entry, Seq<char>>;

/// What a `toml::Value` holds: the text that `to_string` writes for it and, where it is a
/// table, what `get` finds in it under each key.
pub uninterp spec fn entry_of(value: toml::Value) -> Entry;

/// The message of a `toml::de::Error`: the text that `to_string` writes for it.
pub uninterp spec fn message_of(error: toml::de::Error) -> Seq<char>;

/// `to_string` returns on the `toml::Value`: the value, with all that it holds, can be
/// written out in TOML. A value can hold a date and time that was put together by hand
/// and is none, and on such a value `to_string` panics.
pub uninterp spec fn writable(value: toml::Value) -> bool;

/// `toml::from_str` at the type `toml::Value`: reads `raw` as a TOML document and gives
/// its root table, or the parser's error. The contract claims that the outcome depends on
/// the text alone, and that a value which the parser returns can be written out: the parser
/// reports an error with every date and time that it could not read. It says nothing of
/// which texts are documents.
#[verifier::external_body]
fn read_document(raw: &str) -> (r: Result<toml::Value, toml::de::Error>)
    ensures
        match r {
            Ok(value) => document_of(raw@) == Ok::<Entry, Seq<char>>(entry_of(value))
                && writable(value),
            Err(error) => document_of(raw@) == Err::<Entry, Seq<char>>(message_of(error)),
        },
{
    toml::from_str::<toml::Value>(raw)
}

/// `toml::Value::get` with a string for index: the entry of a table under `key`. The
/// contract claims that a value is returned exactly when `value` has an entry under the key,
/// which only a table has, and that it is the value stored there; and that an entry of a
/// table which can be written out can be written out itself, since writing the table writes
/// every entry.
#[verifier::external_body]
fn field<'a>(value: &'a toml::Value, key: &str) -> (r: Option<&'a toml::Value>)
    ensures
        match r {
            Some(found) => {
                &&& entry_of(*value).fields.contains_key(key@)
                &&& entry_of(*found) == entry_of(*value).fields[key@]
                &&& writable(*value) ==> writable(*found)
            },
            None => !entry_of(*value).fields.contains_key(key@),
        },
{
    value.get(key)
}

/// `to_string` of a `toml::Value`, which writes the value out in TOML: a string comes
/// with its delimiters. The call panics on a value that cannot be written out, which
/// `requires` leaves out.
#[verifier::external_body]
fn value_text(value: &toml::Value) -> (text: String)
    requires
        writable(*value),
    ensures
        text@ == entry_of(*value).text,
{
    value.to_string()
}

/// `to_string` of a `toml::de::Error`: the parser's message.
#[verifier::external_body]
fn error_text(error: &toml::de::Error) -> (text: String)
    ensures
        text@ == message_of(*error),
{
    error.to_string()
}

/// Why no version was found in a manifest.
#[derive(Clone, Debug, PartialEq, Eq)]
pub enum ExtractError {
    /// The text is not a TOML document; the parser's message is kept.
    Parse(String),
    /// The document has no entry `package`.
    MissingPackage,
    /// The entry `package` is no table, or a table without an entry `version`.
    MissingVersion,
}

/// An `ExtractError` with its text as a sequence of characters.
pub enum ExtractFault {
    Parse(Seq<char>),
    MissingPackage,
    MissingVersion,
}

impl View for ExtractError {
    type V = ExtractFault;

    open spec fn view(&self) -> ExtractFault {
        match *self {
            ExtractError::Parse(message) => ExtractFault::Parse(message@),
            ExtractError::MissingPackage => ExtractFault::MissingPackage,
            ExtractError::MissingVersion => ExtractFault::MissingVersion,
        }
    }
}

impl ExtractFault {
    /// The fault in words: for text that is no document, the parser's message.
    pub open spec fn text(self) -> Seq<char> {
        match self {
            ExtractFault::Parse(message) => message,
            ExtractFault::MissingPackage => "Missing package table"@,
            ExtractFault::MissingVersion => "Missing version field"@,
        }
    }
}

impl ExtractError {
    /// The fault in words.
    pub fn message(&self) -> (message: String)
        ensures
            message@ == self@.text(),
    {
        match self {
            ExtractError::Parse(message) => message.clone(),
            ExtractError::MissingPackage => "Missing package table".to_owned(),
            ExtractError::MissingVersion => "Missing version field".to_owned(),
        }
    }
}

/// `s` without the double quotes that it begins with.
pub open spec fn without_leading_quotes(s: Seq<char>) -> Seq<char>
    decreases s.len(),
{
    if s.len() > 0 && s[0] == '"' {
        without_leading_quotes(s.drop_first())
    } else {
        s
    }
}

/// `s` without the double quotes that it ends with.
pub open spec fn without_trailing_quotes(s: Seq<char>) -> Seq<char>
    decreases s.len(),
{
    if s.len() > 0 && s.last() == '"' {
        without_trailing_quotes(s.drop_last())
    } else {
        s
    }
}

/// `s` without the double quotes around it: all that it begins with and all that it ends
/// with. Quotes inside stay.
pub open spec fn unquoted(s: Seq<char>) -> Seq<char> {
    without_trailing_quotes(without_leading_quotes(s))
}

/// The version that the document under `root` declares: the text of the entry `version`
/// of the entry `package`, without the quotes around it.
pub open spec fn declared_in(root: Entry) -> Result<Seq<char>, ExtractFault> {
    if !root.fields.contains_key("package"@) {
        Err(ExtractFault::MissingPackage)
    } else if !root.fields["package"@].fields.contains_key("version"@) {
        Err(ExtractFault::MissingVersion)
    } else {
        Ok(unquoted(root.fields["package"@].fields["version"@].text))
    }
}

/// The version that a manifest declares, given what the parser makes of its text.
pub open spec fn declared_version(document: Result<Entry, Seq<char>>) -> Result<
    Seq<char>,
    ExtractFault,
> {
    match document {
        Ok(root) => declared_in(root),
        Err(message) => Err(ExtractFault::Parse(message)),
    }
}

/// A result of extraction with its texts as sequences of characters.
pub open spec fn extracted_view(r: Result<String, ExtractError>) -> Result<
    Seq<char>,
    ExtractFault,
> {
    match r {
        Ok(version) => Ok(version@),
        Err(e) => Err(e@),
    }
}

/// What is left of `s` is the part between the quotes that it begins with and the quotes
/// that it ends with: the part from `lo` up to `hi`, where only quotes stand before `lo` and
/// from `hi` on, and none stands at either end of the part.
pub proof fn lemma_unquoted_between(s: Seq<char>, lo: int, hi: int)
    requires
        0 <= lo <= hi <= s.len(),
        forall|i: int| 0 <= i < lo ==> s[i] == '"',
        forall|i: int| hi <= i < s.len() ==> s[i] == '"',
        lo < hi ==> s[lo] != '"' && s[hi - 1] != '"',
        lo == hi ==> hi == s.len(),
    ensures
        unquoted(s) == s.subrange(lo, hi),
{
    lemma_leading(s, lo);
    lemma_trailing(s.skip(lo), hi - lo);
    assert(s.skip(lo).take(hi - lo) == s.subrange(lo, hi));
}

/// Text that begins with `lo` quotes and then with something else, or ends, loses just those.
proof fn lemma_leading(s: Seq<char>, lo: int)
    requires
        0 <= lo <= s.len(),
        forall|i: int| 0 <= i < lo ==> s[i] == '"',
        lo < s.len() ==> s[lo] != '"',
    ensures
        without_leading_quotes(s) == s.skip(lo),
    decreases lo,
{
    if lo == 0 {
        assert(s.skip(0) == s);
    } else {
        lemma_leading(s.drop_first(), lo - 1);
        assert(s.drop_first().skip(lo - 1) == s.skip(lo));
    }
}

/// Text that ends with quotes after its first `hi` characters, of which the last is none,
/// loses just those.
proof fn lemma_trailing(s: Seq<char>, hi: int)
    requires
        0 <= hi <= s.len(),
        forall|i: int| hi <= i < s.len() ==> s[i] == '"',
        hi > 0 ==> s[hi - 1] != '"',
    ensures
        without_trailing_quotes(s) == s.take(hi),
    decreases s.len() - hi,
{
    if hi == s.len() {
        assert(s.take(hi) == s);
    } else {
        lemma_trailing(s.drop_last(), hi);
        assert(s.drop_last().take(hi) == s.take(hi));
    }
}

/// What is left has no quote at either end, and text that has none at either end is left
/// as it is; so text between two quotes comes out bare.
pub proof fn lemma_unquoted(s: Seq<char>)
    ensures
        unquoted(s).len() <= s.len(),
        unquoted(s).len() > 0 ==> unquoted(s).first() != '"' && unquoted(s).last() != '"',
        s.len() == 0 || (s.first() != '"' && s.last() != '"') ==> unquoted(s) == s,
        s.len() == 0 || (s.first() != '"' && s.last() != '"') ==> unquoted(
            seq!['"'] + s + seq!['"'],
        ) == s,
{
    lemma_leading_shape(s);
    lemma_trailing_shape(without_leading_quotes(s));
    let quoted = seq!['"'] + s + seq!['"'];
    if s.len() == 0 {
        lemma_unquoted_between(quoted, 2, 2);
        assert(quoted.subrange(2, 2) =~= s);
    } else if s.first() != '"' && s.last() != '"' {
        lemma_unquoted_between(s, 0, s.len() as int);
        assert(s.subrange(0, s.len() as int) =~= s);
        let end = s.len() as int + 1;
        lemma_unquoted_between(quoted, 1, end);
        assert(quoted.subrange(1, end) =~= s);
    }
}

/// Taking the leading quotes off leaves the end of the text, and no quote in front.
proof fn lemma_leading_shape(s: Seq<char>)
    ensures
        without_leading_quotes(s).len() <= s.len(),
        without_leading_quotes(s).len() > 0 ==> without_leading_quotes(s).first() != '"'
            && without_leading_quotes(s).last() == s.last(),
    decreases s.len(),
{
    if s.len() > 0 && s[0] == '"' {
        lemma_leading_shape(s.drop_first());
    }
}

/// Taking the trailing quotes off leaves the beginning of the text, and no quote behind.
proof fn lemma_trailing_shape(s: Seq<char>)
    ensures
        without_trailing_quotes(s).len() <= s.len(),
        without_trailing_quotes(s).len() > 0 ==> without_trailing_quotes(s).last() != '"'
            && without_trailing_quotes(s).first() == s.first(),
    decreases s.len(),
{
    if s.len() > 0 && s.last() == '"' {
        lemma_trailing_shape(s.drop_last());
    }
}

/// Takes the double quotes off both ends of `text`.
pub fn strip_quotes(text: &str) -> (bare: String)
    ensures
        bare@ == unquoted(text@),
{
    let chars = chars_of(text);
    let n = chars.len();
    let mut lo: usize = 0;
    while lo < n && chars[lo] == '"'
        invariant
            lo <= n,
            n == chars@.len(),
            forall|i: int| 0 <= i < lo ==> chars@[i] == '"',
        decreases n - lo,
    {
        lo = lo + 1;
    }
    let mut hi: usize = n;
    while hi > lo && chars[hi - 1] == '"'
        invariant
            lo <= hi <= n,
            n == chars@.len(),
            forall|i: int| hi <= i < n ==> chars@[i] == '"',
        decreases hi,
    {
        hi = hi - 1;
    }
    proof {
        lemma_unquoted_between(text@, lo as int, hi as int);
    }
    text.substring_char(lo, hi).to_owned()
}

/// Looks up the declared version in a document that was read.
fn version_in(document: &toml::Value) -> (r: Result<String, ExtractError>)
    requires
        writable(*document),
    ensures
        extracted_view(r) == declared_in(entry_of(*document)),
{
    let package = match field(document, "package") {
        Some(package) => package,
        None => {
            return Err(ExtractError::MissingPackage);
        },
    };
    let version = match field(package, "version") {
        Some(version) => version,
        None => {
            return Err(ExtractError::MissingVersion);
        },
    };
    let written = value_text(version);
    Ok(strip_quotes(written.as_str()))
}

/// Reads `raw_text` as a manifest and finds the version that it declares.
pub fn extract_version(raw_text: &str) -> (r: Result<String, ExtractError>)
    ensures
        extracted_view(r) == declared_version(document_of(raw_text@)),
{
    match read_document(raw_text) {
        Ok(document) => version_in(&document),
        Err(error) => Err(ExtractError::Parse(error_text(&error))),
    }
}

} // verus!
