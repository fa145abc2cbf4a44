//! How a run of one of the programs ends: with success or with one failure, with what it
//! has to print, and with an exit code.

use crate::fetch::{FetchError, FetchFault};
use crate::manifest::{ExtractError, ExtractFault};
use crate::syntax::{VersionError, VersionFault};
use vstd::prelude::*;

verus! {

/// Every way in which a run can fail.
#[derive(Clone, Debug, PartialEq, Eq)]
pub enum Failure {
    /// Too few arguments were given.
    Usage,
    /// The repository argument is not of the form `owner/name`.
    InvalidRepository,
    /// A text is not a version.
    Version(VersionError),
    /// A file could not be had from the service.
    Fetch(FetchError),
    /// A file declares no version.
    Extract(ExtractError),
    /// The two versions do not stand in the order that the policy asks for.
    InvalidVersionTransition,
}

/// A `Failure` with its texts as sequences of characters.
pub enum Cause {
    Usage,
    InvalidRepository,
    Version(VersionFault),
    Fetch(FetchFault),
    Extract(ExtractFault),
    InvalidVersionTransition,
}

impl View for Failure {
    type V = Cause;

    open spec fn view(&self) -> Cause {
        match *self {
            Failure::Usage => Cause::Usage,
            Failure::InvalidRepository => Cause::InvalidRepository,
            Failure::Version(e) => Cause::Version(e@),
            Failure::Fetch(e) => Cause::Fetch(e@),
            Failure::Extract(e) => Cause::Extract(e@),
            Failure::InvalidVersionTransition => Cause::InvalidVersionTransition,
        }
    }
}

impl Cause {
    /// The failure in words.
    pub open spec fn text(self) -> Seq<char> {
        match self {
            Cause::Usage => "Too few arguments"@,
            Cause::InvalidRepository => "Invalid repository"@,
            Cause::Version(fault) => fault.text(),
            Cause::Fetch(fault) => fault.text(),
            Cause::Extract(fault) => fault.text(),
            Cause::InvalidVersionTransition => "Invalid version transition"@,
        }
    }
}

impl Failure {
    /// The failure in words.
    pub fn message(&self) -> (message: String)
        ensures
            message@ == self@.text(),
    {
        match self {
            Failure::Usage => "Too few arguments".to_owned(),
            Failure::InvalidRepository => "Invalid repository".to_owned(),
            Failure::Version(e) => e.message(),
            Failure::Fetch(e) => e.message(),
            Failure::Extract(e) => e.message(),
            Failure::InvalidVersionTransition => "Invalid version transition".to_owned(),
        }
    }
}

/// The name of the program in the arguments of a run: the first of them, or no text when
/// there is none.
pub open spec fn program_name(args: Seq<Seq<char>>) -> Seq<char> {
    if args.len() > 0 {
        args[0]
    } else {
        Seq::empty()
    }
}

/// The name of the program in the arguments of a run.
pub fn program_of(args: &Vec<String>) -> (program: &str)
    ensures
        program@ == program_name(args.deep_view()),
{
    if args.len() > 0 {
        assert(args.deep_view()[0] == args[0]@);
        args[0].as_str()
    } else {
        proof {
            reveal_strlit("");
        }
        assert(""@ =~= Seq::<char>::empty());
        ""
    }
}

/// No lines at all: what a run has printed that printed nothing.
pub fn no_lines() -> (lines: Vec<String>)
    ensures
        lines.deep_view() == Seq::<Seq<char>>::empty(),
{
    let lines: Vec<String> = Vec::new();
    assert(lines.deep_view() =~= Seq::<Seq<char>>::empty());
    lines
}

/// The text that reports a failure: its message after `Error: `. A message of the parser
/// or of the service may hold line breaks, so the text may run over several lines.
pub open spec fn error_notice(message: Seq<char>) -> Seq<char> {
    "Error: "@ + message
}

/// The text that reports a wrong call: after `Usage: `, the program's name and the
/// arguments that it expects.
pub open spec fn usage_notice(program: Seq<char>, operands: Seq<char>) -> Seq<char> {
    "Usage: "@ + program + operands
}

/// How a run ended.
#[derive(Debug, PartialEq, Eq)]
pub struct Report {
    /// Success, or the one failure that ended the run.
    pub result: Result<(), Failure>,
    /// What goes to standard output, in order, each text followed by a line break.
    pub printed: Vec<String>,
    /// What goes to standard error, if anything, followed by a line break.
    pub diagnostic: Option<String>,
}

/// A `Report` with its texts as sequences of characters.
pub struct ReportView {
    pub result: Result<(), Cause>,
    pub printed: Seq<Seq<char>>,
    pub diagnostic: Option<Seq<char>>,
}

impl View for Report {
    type V = ReportView;

    open spec fn view(&self) -> ReportView {
        ReportView {
            result: match self.result {
                Ok(_) => Ok(()),
                Err(failure) => Err(failure@),
            },
            printed: self.printed.deep_view(),
            diagnostic: match self.diagnostic {
                Some(notice) => Some(notice@),
                None => None,
            },
        }
    }
}

impl ReportView {
    /// What holds of every report that the programs make: a run that succeeded has nothing
    /// to report, and a run that failed reports its failure once, in a text that begins with
    /// `Usage: ` where too few arguments were given and is the failure's message after
    /// `Error: ` everywhere else.
    pub open spec fn well_formed(self) -> bool {
        match self.result {
            Ok(_) => self.diagnostic is None,
            Err(Cause::Usage) => self.diagnostic matches Some(notice)
                && "Usage: "@.is_prefix_of(notice),
            Err(failure) => self.diagnostic == Some(error_notice(failure.text())),
        }
    }
}

/// The report of a run that succeeded after printing `printed`.
pub open spec fn succeeded(printed: Seq<Seq<char>>) -> ReportView {
    ReportView { result: Ok(()), printed, diagnostic: None }
}

/// The report of a run that `failure` ended after printing `printed`: the failure is
/// reported by its message after `Error: `.
pub open spec fn failed(failure: Cause, printed: Seq<Seq<char>>) -> ReportView {
    ReportView { result: Err(failure), printed, diagnostic: Some(error_notice(failure.text())) }
}

/// The report of a run that too few arguments ended.
pub open spec fn misused(program: Seq<char>, operands: Seq<char>) -> ReportView {
    ReportView {
        result: Err(Cause::Usage),
        printed: Seq::empty(),
        diagnostic: Some(usage_notice(program, operands)),
    }
}

/// The three ways to make a report give well-formed reports, but for a failure by too few
/// arguments that is reported as any other.
pub proof fn lemma_reports_well_formed(
    failure: Cause,
    printed: Seq<Seq<char>>,
    program: Seq<char>,
    operands: Seq<char>,
)
    ensures
        succeeded(printed).well_formed(),
        failure != Cause::Usage ==> failed(failure, printed).well_formed(),
        misused(program, operands).well_formed(),
{
    assert("Usage: "@.is_prefix_of(usage_notice(program, operands))) by {
        assert(usage_notice(program, operands).subrange(0, "Usage: "@.len() as int) =~= "Usage: "@);
    }
}

impl Report {
    /// The report of a run that succeeded after printing `printed`.
    pub fn success(printed: Vec<String>) -> (report: Report)
        ensures
            report@ == succeeded(printed.deep_view()),
    {
        Report { result: Ok(()), printed, diagnostic: None }
    }

    /// The report of a run that `failure` ended after printing `printed`.
    pub fn failure(failure: Failure, printed: Vec<String>) -> (report: Report)
        ensures
            report@ == failed(failure@, printed.deep_view()),
    {
        let mut notice = "Error: ".to_owned();
        let message = failure.message();
        notice.append(message.as_str());
        Report { result: Err(failure), printed, diagnostic: Some(notice) }
    }

    /// The report of a run that too few arguments ended: `operands` says which the
    /// program expects.
    pub fn usage(program: &str, operands: &str) -> (report: Report)
        ensures
            report@ == misused(program@, operands@),
    {
        let mut notice = "Usage: ".to_owned();
        notice.append(program);
        notice.append(operands);
        Report { result: Err(Failure::Usage), printed: no_lines(), diagnostic: Some(notice) }
    }

    /// The exit code of the process: 0 after success, 1 after any failure.
    pub fn exit_code(&self) -> (code: u8)
        ensures
            code == if self.result is Ok { 0u8 } else { 1u8 },
    {
        match &self.result {
            Ok(_) => 0,
            Err(_) => 1,
        }
    }
}

} // verus!
