//! The program that compares two versions given as arguments.

use crate::report::{
    failed, lemma_reports_well_formed, misused, no_lines, program_name, program_of, succeeded,
    Cause, Failure, Report, ReportView,
};
use crate::syntax::{lemma_round_trip, parse, parse_spec, written};
use crate::version::{compare_pass, precedes, Version};
use vstd::prelude::*;

verus! {

/// How the program ends on the arguments `args`, of which the first is its own name.
///
/// It needs two versions after its name and ignores what follows them. A text that is no
/// version ends the run, the first one first; so do two versions of which the first does
/// not strictly precede the second.
pub open spec fn pairwise_report(args: Seq<Seq<char>>) -> ReportView {
    if args.len() < 3 {
        misused(program_name(args), " <version1> <version2>"@)
    } else {
        match parse_spec(args[1]) {
            Err(fault) => failed(Cause::Version(fault), Seq::empty()),
            Ok(first) => match parse_spec(args[2]) {
                Err(fault) => failed(Cause::Version(fault), Seq::empty()),
                Ok(second) => if precedes(first, second) {
                    succeeded(Seq::empty())
                } else {
                    failed(Cause::InvalidVersionTransition, Seq::empty())
                },
            },
        }
    }
}

/// Runs the program on its arguments.
pub fn run(args: &Vec<String>) -> (report: Report)
    ensures
        report@ == pairwise_report(args.deep_view()),
{
    let ghost texts = args.deep_view();
    if args.len() < 3 {
        return Report::usage(program_of(args), " <version1> <version2>");
    }
    assert(texts[1] == args[1]@);
    assert(texts[2] == args[2]@);
    let first = match parse(args[1].as_str()) {
        Ok(version) => version,
        Err(e) => {
            return Report::failure(Failure::Version(e), no_lines());
        },
    };
    let second = match parse(args[2].as_str()) {
        Ok(version) => version,
        Err(e) => {
            return Report::failure(Failure::Version(e), no_lines());
        },
    };
    if compare_pass(first, second) {
        Report::success(no_lines())
    } else {
        Report::failure(Failure::InvalidVersionTransition, no_lines())
    }
}

/// Whatever the arguments, the program prints nothing on standard output, and it reports
/// every failure once and nothing else.
pub proof fn lemma_pairwise_reports(args: Seq<Seq<char>>)
    ensures
        pairwise_report(args).well_formed(),
        pairwise_report(args).printed.len() == 0,
        pairwise_report(args).result == Err::<(), Cause>(Cause::Usage) <==> args.len()
            < 3,
{
    lemma_reports_well_formed(
        Cause::InvalidVersionTransition,
        Seq::empty(),
        program_name(args),
        " <version1> <version2>"@,
    );
}

/// Given two versions as they are written, the program succeeds exactly when the first
/// strictly precedes the second.
pub proof fn lemma_pairwise(program: Seq<char>, first: Version, second: Version)
    ensures
        pairwise_report(seq![program, written(first), written(second)]).result is Ok <==> precedes(
            first,
            second,
        ),
{
    lemma_round_trip(first);
    lemma_round_trip(second);
}

} // verus!
