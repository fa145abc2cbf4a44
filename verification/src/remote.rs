//! The program that compares the versions which one file declares at two references of a
//! repository.
//!
//! The program itself does no input or output. A run is a short exchange: `start` reads the
//! arguments and names the first file to get; each answer of the service goes to `resume`,
//! which names the next file or ends the run with a report.

use crate::fetch::{content_spec, select_content, ContentRequest, FetchFault, RequestView};
use crate::manifest::{declared_version, document_of, extract_version};
use crate::report::{
    failed, lemma_reports_well_formed, misused, no_lines, program_name, program_of, succeeded,
    Cause, Failure, Report, ReportView,
};
use crate::repository::{parse_repository, repository_spec, RepositoryReference};
use crate::syntax::{lemma_round_trip, parse, parse_spec, written};
use crate::version::{precedes, valid_version, Version};
use vstd::prelude::*;

verus! {

/// What a run does with the two versions once it has them.
#[derive(Clone, Copy, Debug, PartialEq, Eq, Structural)]
pub enum Mode {
    /// Print them, read them and check that the change between them is valid.
    Validate,
    /// Print them and stop.
    Show,
}

/// What the arguments of a run ask for.
#[derive(Clone, Debug, PartialEq, Eq)]
pub struct Plan {
    pub repository: RepositoryReference,
    pub from_reference: String,
    pub to_reference: String,
    pub path: String,
    pub mode: Mode,
}

/// A `Plan` with its texts as sequences of characters.
pub struct PlanView {
    pub owner: Seq<char>,
    pub name: Seq<char>,
    pub from_reference: Seq<char>,
    pub to_reference: Seq<char>,
    pub path: Seq<char>,
    pub mode: Mode,
}

impl View for Plan {
    type V = PlanView;

    open spec fn view(&self) -> PlanView {
        PlanView {
            owner: self.repository.owner@,
            name: self.repository.name@,
            from_reference: self.from_reference@,
            to_reference: self.to_reference@,
            path: self.path@,
            mode: self.mode,
        }
    }
}

/// A run that waits for an answer of the service.
#[derive(Clone, Debug, PartialEq, Eq)]
pub enum Pending {
    /// The file at the reference that the change comes from was asked for.
    From(Plan),
    /// That file is here, with the text given, and the file at the reference that the
    /// change goes to was asked for.
    To(Plan, String),
}

/// A `Pending` with its texts as sequences of characters.
pub enum PendingView {
    From(PlanView),
    To(PlanView, Seq<char>),
}

impl View for Pending {
    type V = PendingView;

    open spec fn view(&self) -> PendingView {
        match *self {
            Pending::From(plan) => PendingView::From(plan@),
            Pending::To(plan, from_text) => PendingView::To(plan@, from_text@),
        }
    }
}

/// What a run does next.
#[derive(Debug, PartialEq, Eq)]
pub enum Step {
    /// Get the file that the request names, and come back to `resume` with the answer and
    /// with the state given here.
    Fetch(ContentRequest, Pending),
    /// Print what the report holds and exit with its code.
    Finish(Report),
}

/// A `Step` with its texts as sequences of characters.
pub enum StepView {
    Fetch(RequestView, PendingView),
    Finish(ReportView),
}

impl View for Step {
    type V = StepView;

    open spec fn view(&self) -> StepView {
        match *self {
            Step::Fetch(request, pending) => StepView::Fetch(request@, pending@),
            Step::Finish(report) => StepView::Finish(report@),
        }
    }
}

/// What the arguments `args` ask for. After the program's name come the repository, the
/// reference that the change comes from, the reference that it goes to, and the path of the
/// file; what follows them is ignored.
pub open spec fn plan_spec(args: Seq<Seq<char>>, mode: Mode) -> Result<PlanView, Cause> {
    if args.len() < 5 {
        Err(Cause::Usage)
    } else {
        match repository_spec(args[1]) {
            None => Err(Cause::InvalidRepository),
            Some((owner, name)) => Ok(
                PlanView {
                    owner,
                    name,
                    from_reference: args[2],
                    to_reference: args[3],
                    path: args[4],
                    mode,
                },
            ),
        }
    }
}

/// The request for the file of `plan` at `reference`.
pub open spec fn request_spec(plan: PlanView, reference: Seq<char>) -> RequestView {
    RequestView { owner: plan.owner, repo: plan.name, reference, path: plan.path }
}

/// The first step of a run on the arguments `args`, of which the first is the program's
/// name.
pub open spec fn start_spec(args: Seq<Seq<char>>, mode: Mode) -> StepView {
    match plan_spec(args, mode) {
        Ok(plan) => StepView::Fetch(
            request_spec(plan, plan.from_reference),
            PendingView::From(plan),
        ),
        Err(Cause::Usage) => StepView::Finish(
            misused(program_name(args), " <owner/repo> <from-ref> <to-ref> <file-path>"@),
        ),
        Err(failure) => StepView::Finish(failed(failure, Seq::empty())),
    }
}

/// The verdict on the two versions that the files declare. Both are printed first. Unless
/// the run only shows them, both are read, the one that the change comes from first, and
/// the change is valid when that one is strictly newer than the other.
pub open spec fn judgement(mode: Mode, from_version: Seq<char>, to_version: Seq<char>) -> ReportView {
    let printed = seq![from_version, to_version];
    match mode {
        Mode::Show => succeeded(printed),
        Mode::Validate => match parse_spec(from_version) {
            Err(fault) => failed(Cause::Version(fault), printed),
            Ok(from) => match parse_spec(to_version) {
                Err(fault) => failed(Cause::Version(fault), printed),
                Ok(to) => if precedes(to, from) {
                    succeeded(printed)
                } else {
                    failed(Cause::InvalidVersionTransition, printed)
                },
            },
        },
    }
}

/// How a run ends that has both files. A version is looked for in the file that the change
/// comes from, then in the other; the first that is missing ends the run.
pub open spec fn conclusion(mode: Mode, from_text: Seq<char>, to_text: Seq<char>) -> ReportView {
    match declared_version(document_of(from_text)) {
        Err(fault) => failed(Cause::Extract(fault), Seq::empty()),
        Ok(from_version) => match declared_version(document_of(to_text)) {
            Err(fault) => failed(Cause::Extract(fault), Seq::empty()),
            Ok(to_version) => judgement(mode, from_version, to_version),
        },
    }
}

/// The step that follows an answer. `content` is what the answer yields: the text of the
/// file, or the reason why there is none, which ends the run.
pub open spec fn resume_spec(pending: PendingView, content: Result<Seq<char>, FetchFault>) -> StepView {
    match content {
        Err(fault) => StepView::Finish(failed(Cause::Fetch(fault), Seq::empty())),
        Ok(text) => match pending {
            PendingView::From(plan) => StepView::Fetch(
                request_spec(plan, plan.to_reference),
                PendingView::To(plan, text),
            ),
            PendingView::To(plan, from_text) => StepView::Finish(
                conclusion(plan.mode, from_text, text),
            ),
        },
    }
}

/// The request for the file of `plan` at `reference`.
fn request(plan: &Plan, reference: &String) -> (request: ContentRequest)
    ensures
        request@ == request_spec(plan@, reference@),
{
    ContentRequest {
        owner: plan.repository.owner.clone(),
        repo: plan.repository.name.clone(),
        reference: reference.clone(),
        path: plan.path.clone(),
    }
}

/// Reads the arguments of a run.
pub fn plan(args: &Vec<String>, mode: Mode) -> (r: Result<Plan, Failure>)
    ensures
        match r {
            Ok(plan) => plan_spec(args.deep_view(), mode) == Ok::<PlanView, Cause>(plan@),
            Err(failure) => plan_spec(args.deep_view(), mode) == Err::<PlanView, Cause>(
                failure@,
            ),
        },
        r matches Ok(plan) ==> plan.repository.wf(),
{
    if args.len() < 5 {
        return Err(Failure::Usage);
    }
    let ghost texts = args.deep_view();
    assert(texts[1] == args[1]@);
    assert(texts[2] == args[2]@);
    assert(texts[3] == args[3]@);
    assert(texts[4] == args[4]@);
    match parse_repository(args[1].as_str()) {
        Err(_) => Err(Failure::InvalidRepository),
        Ok(repository) => Ok(
            Plan {
                repository,
                from_reference: args[2].clone(),
                to_reference: args[3].clone(),
                path: args[4].clone(),
                mode,
            },
        ),
    }
}

/// Begins a run on the arguments `args`, of which the first is the program's name.
pub fn start(args: &Vec<String>, mode: Mode) -> (step: Step)
    ensures
        step@ == start_spec(args.deep_view(), mode),
{
    match plan(args, mode) {
        Ok(plan) => {
            let first = request(&plan, &plan.from_reference);
            Step::Fetch(first, Pending::From(plan))
        },
        Err(Failure::Usage) => Step::Finish(
            Report::usage(program_of(args), " <owner/repo> <from-ref> <to-ref> <file-path>"),
        ),
        Err(failure) => Step::Finish(Report::failure(failure, no_lines())),
    }
}

/// Gives the verdict on the two versions that the files declare.
pub fn judge(mode: Mode, from_version: String, to_version: String) -> (report: Report)
    ensures
        report@ == judgement(mode, from_version@, to_version@),
{
    let read = match mode {
        Mode::Show => None,
        Mode::Validate => Some((parse(from_version.as_str()), parse(to_version.as_str()))),
    };
    let mut printed: Vec<String> = Vec::new();
    printed.push(from_version);
    printed.push(to_version);
    assert(printed.deep_view() =~= seq![from_version@, to_version@]);
    match read {
        None => Report::success(printed),
        Some((Err(e), _)) => Report::failure(Failure::Version(e), printed),
        Some((Ok(_), Err(e))) => Report::failure(Failure::Version(e), printed),
        Some((Ok(from), Ok(to))) => {
            if valid_version(from, to) {
                Report::success(printed)
            } else {
                Report::failure(Failure::InvalidVersionTransition, printed)
            }
        },
    }
}

/// Ends a run that has both files.
pub fn conclude(mode: Mode, from_text: &str, to_text: &str) -> (report: Report)
    ensures
        report@ == conclusion(mode, from_text@, to_text@),
{
    let from_version = match extract_version(from_text) {
        Ok(version) => version,
        Err(e) => {
            return Report::failure(Failure::Extract(e), no_lines());
        },
    };
    let to_version = match extract_version(to_text) {
        Ok(version) => version,
        Err(e) => {
            return Report::failure(Failure::Extract(e), no_lines());
        },
    };
    judge(mode, from_version, to_version)
}

/// Takes a run one step on, with the service's answer to the request of the step before:
/// the failure of the request, or the decoded text of each item that came back, `None` for
/// an item without any.
pub fn resume(pending: Pending, response: Result<Vec<Option<String>>, String>) -> (step: Step)
    ensures
        step@ == resume_spec(pending@, content_spec(response)),
{
    let text = match select_content(response) {
        Ok(text) => text,
        Err(e) => {
            return Step::Finish(Report::failure(Failure::Fetch(e), no_lines()));
        },
    };
    match pending {
        Pending::From(plan) => {
            let second = request(&plan, &plan.to_reference);
            Step::Fetch(second, Pending::To(plan, text))
        },
        Pending::To(plan, from_text) => Step::Finish(
            conclude(plan.mode, from_text.as_str(), text.as_str()),
        ),
    }
}

/// How a run on `args` ends when the service yields `from_content` for the first file and
/// `to_content` for the second.
pub open spec fn run_report(
    args: Seq<Seq<char>>,
    mode: Mode,
    from_content: Result<Seq<char>, FetchFault>,
    to_content: Result<Seq<char>, FetchFault>,
) -> ReportView {
    match (plan_spec(args, mode), from_content, to_content) {
        (Err(Cause::Usage), _, _) => misused(
            program_name(args),
            " <owner/repo> <from-ref> <to-ref> <file-path>"@,
        ),
        (Err(failure), _, _) => failed(failure, Seq::empty()),
        (Ok(_), Err(fault), _) => failed(Cause::Fetch(fault), Seq::empty()),
        (Ok(_), Ok(_), Err(fault)) => failed(Cause::Fetch(fault), Seq::empty()),
        (Ok(_), Ok(from_text), Ok(to_text)) => conclusion(mode, from_text, to_text),
    }
}

/// A run is at most two requests, one after the other. Arguments that name no repository
/// end it before anything is asked. Else the file at the reference that the change comes
/// from is asked for first; the file at the other reference is asked for only when the
/// first is there; and with the second answer the run ends.
pub proof fn lemma_run(
    args: Seq<Seq<char>>,
    mode: Mode,
    from_content: Result<Seq<char>, FetchFault>,
    to_content: Result<Seq<char>, FetchFault>,
)
    ensures
        match start_spec(args, mode) {
            StepView::Finish(report) => plan_spec(args, mode) is Err && report == run_report(
                args,
                mode,
                from_content,
                to_content,
            ),
            StepView::Fetch(first, waiting) => {
                &&& plan_spec(args, mode) matches Ok(plan)
                &&& first == request_spec(plan, args[2])
                &&& match resume_spec(waiting, from_content) {
                    StepView::Finish(report) => from_content is Err && report == run_report(
                        args,
                        mode,
                        from_content,
                        to_content,
                    ),
                    StepView::Fetch(second, waiting_again) => {
                        &&& from_content is Ok
                        &&& second == request_spec(plan, args[3])
                        &&& resume_spec(waiting_again, to_content) == StepView::Finish(
                            run_report(args, mode, from_content, to_content),
                        )
                    },
                }
            },
        },
{
}

/// However a run ends, it reports every failure once and nothing else; and it prints
/// the two versions, and only them, when it found both.
pub proof fn lemma_run_reports(
    args: Seq<Seq<char>>,
    mode: Mode,
    from_content: Result<Seq<char>, FetchFault>,
    to_content: Result<Seq<char>, FetchFault>,
)
    ensures
        run_report(args, mode, from_content, to_content).well_formed(),
        run_report(args, mode, from_content, to_content).printed.len() == 0 || run_report(
            args,
            mode,
            from_content,
            to_content,
        ).printed.len() == 2,
        run_report(args, mode, from_content, to_content).result == Err::<(), Cause>(
            Cause::Usage,
        ) <==> args.len() < 5,
{
    lemma_reports_well_formed(
        Cause::InvalidVersionTransition,
        Seq::empty(),
        program_name(args),
        " <owner/repo> <from-ref> <to-ref> <file-path>"@,
    );
}

/// Of two versions as they are written, the change is found valid exactly when the one it
/// comes from is strictly newer; a run that only shows them succeeds whatever they are.
pub proof fn lemma_judgement(from: Version, to: Version)
    ensures
        judgement(Mode::Validate, written(from), written(to)).result is Ok <==> precedes(to, from),
        !precedes(to, from) ==> judgement(Mode::Validate, written(from), written(to)).result == Err::<
            (),
            Cause,
        >(Cause::InvalidVersionTransition),
        judgement(Mode::Show, written(from), written(to)).result is Ok,
{
    lemma_round_trip(from);
    lemma_round_trip(to);
}

} // verus!
