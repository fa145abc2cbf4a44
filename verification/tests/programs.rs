use vercheck::fetch::{ContentRequest, FetchError};
use vercheck::manifest::ExtractError;
use vercheck::number::NumberError;
use vercheck::pairwise;
use vercheck::remote::{conclude, judge, plan, resume, start, Mode, Pending, Step};
use vercheck::report::{Failure, Report};
use vercheck::syntax::VersionError;

fn args(items: &[&str]) -> Vec<String> {
    items.iter().map(|s| s.to_string()).collect()
}

fn manifest(version: &str) -> String {
    format!("[package]\nname = \"demo\"\nversion = \"{}\"\n", version)
}

fn answer(text: &str) -> Result<Vec<Option<String>>, String> {
    Ok(vec![Some(text.to_string())])
}

fn request(reference: &str) -> ContentRequest {
    ContentRequest {
        owner: "owner".to_string(),
        repo: "repo".to_string(),
        reference: reference.to_string(),
        path: "Cargo.toml".to_string(),
    }
}

/// Runs the remote program to its end against a service that answers from `files`.
fn run_remote(
    arguments: &[&str],
    mode: Mode,
    files: &[(&str, Result<Vec<Option<String>>, String>)],
) -> (Report, Vec<ContentRequest>) {
    let mut asked = Vec::new();
    let mut step = start(&args(arguments), mode);
    loop {
        match step {
            Step::Finish(report) => return (report, asked),
            Step::Fetch(request, pending) => {
                let response = files
                    .iter()
                    .find(|(reference, _)| *reference == request.reference)
                    .map(|(_, response)| response.clone())
                    .unwrap_or(Ok(vec![]));
                asked.push(request);
                step = resume(pending, response);
            }
        }
    }
}

#[test]
fn pairwise_succeeds_when_the_first_version_precedes() {
    let report = pairwise::run(&args(&["prog", "1.0.0", "1.0.1"]));
    assert_eq!(report.exit_code(), 0);
    assert_eq!(report.result, Ok(()));
    assert_eq!(report.diagnostic, None);
    assert!(report.printed.is_empty());
}

#[test]
fn pairwise_fails_when_the_first_version_is_newer() {
    let report = pairwise::run(&args(&["prog", "1.0.1", "1.0.0"]));
    assert_eq!(report.exit_code(), 1);
    assert_eq!(report.result, Err(Failure::InvalidVersionTransition));
    assert_eq!(report.diagnostic, Some("Error: Invalid version transition".to_string()));
    assert!(report.printed.is_empty());
}

#[test]
fn pairwise_fails_on_equal_versions() {
    let report = pairwise::run(&args(&["prog", "1.2.3", "1.2.3"]));
    assert_eq!(report.exit_code(), 1);
    assert_eq!(report.result, Err(Failure::InvalidVersionTransition));
    assert_eq!(report.diagnostic, Some("Error: Invalid version transition".to_string()));
}

#[test]
fn pairwise_prints_usage_when_arguments_are_missing() {
    let report = pairwise::run(&args(&["prog", "1.0.0"]));
    assert_eq!(report.exit_code(), 1);
    assert_eq!(report.result, Err(Failure::Usage));
    assert_eq!(report.diagnostic, Some("Usage: prog <version1> <version2>".to_string()));
    let report = pairwise::run(&args(&["/usr/bin/vercheck"]));
    assert_eq!(report.exit_code(), 1);
    assert_eq!(
        report.diagnostic,
        Some("Usage: /usr/bin/vercheck <version1> <version2>".to_string())
    );
}

#[test]
fn usage_without_a_program_name() {
    let report = pairwise::run(&args(&[]));
    assert_eq!(report.exit_code(), 1);
    assert_eq!(report.result, Err(Failure::Usage));
    assert_eq!(report.diagnostic, Some("Usage:  <version1> <version2>".to_string()));
    let (report, asked) = run_remote(&[], Mode::Validate, &[]);
    assert_eq!(report.exit_code(), 1);
    assert_eq!(
        report.diagnostic,
        Some("Usage:  <owner/repo> <from-ref> <to-ref> <file-path>".to_string())
    );
    assert!(asked.is_empty());
}

#[test]
fn pairwise_ignores_further_arguments() {
    let report = pairwise::run(&args(&["prog", "1.0.0", "1.0.1", "0.0.1", "x"]));
    assert_eq!(report.exit_code(), 0);
}

#[test]
fn pairwise_reports_a_text_that_is_no_version() {
    let report = pairwise::run(&args(&["prog", "1.0", "1.0.1"]));
    assert_eq!(report.exit_code(), 1);
    assert_eq!(report.result, Err(Failure::Version(VersionError::InvalidFormat)));
    assert_eq!(report.diagnostic, Some("Error: Invalid version".to_string()));

    let report = pairwise::run(&args(&["prog", "1.0.0", "1.x.1"]));
    assert_eq!(report.exit_code(), 1);
    assert_eq!(
        report.result,
        Err(Failure::Version(VersionError::InvalidNumber {
            segment: "x".to_string(),
            reason: NumberError::InvalidDigit,
        }))
    );
    assert_eq!(report.diagnostic, Some("Error: invalid digit found in string".to_string()));
}

#[test]
fn pairwise_reports_the_first_argument_first() {
    let report = pairwise::run(&args(&["prog", "1..0", "1"]));
    assert_eq!(report.diagnostic, Some("Error: cannot parse integer from empty string".to_string()));
    let report = pairwise::run(&args(&["prog", "1", "1..0"]));
    assert_eq!(report.diagnostic, Some("Error: Invalid version".to_string()));
}

#[test]
fn remote_succeeds_when_from_is_newer() {
    let files = [("feature", answer(&manifest("2.0.0"))), ("main", answer(&manifest("1.0.0")))];
    let (report, asked) =
        run_remote(&["prog", "owner/repo", "feature", "main", "Cargo.toml"], Mode::Validate, &files);
    assert_eq!(report.exit_code(), 0);
    assert_eq!(report.result, Ok(()));
    assert_eq!(report.printed, vec!["2.0.0".to_string(), "1.0.0".to_string()]);
    assert_eq!(report.diagnostic, None);
    assert_eq!(asked, vec![request("feature"), request("main")]);
}

#[test]
fn remote_fails_when_from_is_older() {
    let files = [("feature", answer(&manifest("1.0.0"))), ("main", answer(&manifest("2.0.0")))];
    let (report, asked) =
        run_remote(&["prog", "owner/repo", "feature", "main", "Cargo.toml"], Mode::Validate, &files);
    assert_eq!(report.exit_code(), 1);
    assert_eq!(report.result, Err(Failure::InvalidVersionTransition));
    assert_eq!(report.printed, vec!["1.0.0".to_string(), "2.0.0".to_string()]);
    assert_eq!(report.diagnostic, Some("Error: Invalid version transition".to_string()));
    assert_eq!(asked.len(), 2);
}

#[test]
fn remote_fails_on_equal_versions() {
    let files = [("feature", answer(&manifest("1.5.0"))), ("main", answer(&manifest("1.5.0")))];
    let (report, _) =
        run_remote(&["prog", "owner/repo", "feature", "main", "Cargo.toml"], Mode::Validate, &files);
    assert_eq!(report.exit_code(), 1);
    assert_eq!(report.result, Err(Failure::InvalidVersionTransition));
}

#[test]
fn remote_prints_usage_when_arguments_are_missing() {
    let (report, asked) = run_remote(&["prog", "owner/repo", "feature", "main"], Mode::Validate, &[]);
    assert_eq!(report.exit_code(), 1);
    assert_eq!(report.result, Err(Failure::Usage));
    assert_eq!(
        report.diagnostic,
        Some("Usage: prog <owner/repo> <from-ref> <to-ref> <file-path>".to_string())
    );
    assert!(asked.is_empty());
}

#[test]
fn remote_rejects_a_repository_that_is_not_owner_and_name() {
    for bad in ["ownerrepo", "owner/", "/repo", "a/b/c"] {
        let (report, asked) =
            run_remote(&["prog", bad, "feature", "main", "Cargo.toml"], Mode::Validate, &[]);
        assert_eq!(report.exit_code(), 1);
        assert_eq!(report.result, Err(Failure::InvalidRepository));
        assert_eq!(report.diagnostic, Some("Error: Invalid repository".to_string()));
        assert!(asked.is_empty());
    }
}

#[test]
fn remote_stops_at_the_first_file_that_cannot_be_had() {
    let files = [("feature", Ok(vec![])), ("main", answer(&manifest("1.0.0")))];
    let (report, asked) =
        run_remote(&["prog", "owner/repo", "feature", "main", "Cargo.toml"], Mode::Validate, &files);
    assert_eq!(report.exit_code(), 1);
    assert_eq!(report.result, Err(Failure::Fetch(FetchError::NotFound)));
    assert_eq!(report.diagnostic, Some("Error: File not found".to_string()));
    assert_eq!(asked, vec![request("feature")]);
}

#[test]
fn remote_reports_each_fetch_failure() {
    let files = [("feature", answer(&manifest("2.0.0"))), ("main", Ok(vec![None]))];
    let (report, asked) =
        run_remote(&["prog", "owner/repo", "feature", "main", "Cargo.toml"], Mode::Validate, &files);
    assert_eq!(report.result, Err(Failure::Fetch(FetchError::NoContent)));
    assert_eq!(report.diagnostic, Some("Error: File has no content".to_string()));
    assert!(report.printed.is_empty());
    assert_eq!(asked.len(), 2);

    let files = [("feature", Err("HTTP 502".to_string()))];
    let (report, _) =
        run_remote(&["prog", "owner/repo", "feature", "main", "Cargo.toml"], Mode::Validate, &files);
    assert_eq!(report.result, Err(Failure::Fetch(FetchError::Request("HTTP 502".to_string()))));
    assert_eq!(report.diagnostic, Some("Error: HTTP 502".to_string()));
}

#[test]
fn remote_reports_a_file_without_a_version() {
    let files = [("feature", answer("[package]\nname = \"demo\"")), ("main", answer(&manifest("1.0.0")))];
    let (report, _) =
        run_remote(&["prog", "owner/repo", "feature", "main", "Cargo.toml"], Mode::Validate, &files);
    assert_eq!(report.exit_code(), 1);
    assert_eq!(report.result, Err(Failure::Extract(ExtractError::MissingVersion)));
    assert_eq!(report.diagnostic, Some("Error: Missing version field".to_string()));
    assert!(report.printed.is_empty());

    let files = [("feature", answer(&manifest("2.0.0"))), ("main", answer("[workspace]"))];
    let (report, _) =
        run_remote(&["prog", "owner/repo", "feature", "main", "Cargo.toml"], Mode::Validate, &files);
    assert_eq!(report.result, Err(Failure::Extract(ExtractError::MissingPackage)));
    assert_eq!(report.diagnostic, Some("Error: Missing package table".to_string()));
}

#[test]
fn remote_reports_a_file_that_is_no_document_with_the_parser_message() {
    let broken = "[package\nversion = \"1.0.0\"";
    let message = toml::from_str::<toml::Value>(broken).unwrap_err().to_string();
    assert!(message.contains('\n'));
    let files = [("feature", answer(broken)), ("main", answer(&manifest("1.0.0")))];
    let (report, asked) =
        run_remote(&["prog", "owner/repo", "feature", "main", "Cargo.toml"], Mode::Validate, &files);
    assert_eq!(report.exit_code(), 1);
    assert_eq!(report.result, Err(Failure::Extract(ExtractError::Parse(message.clone()))));
    assert_eq!(report.diagnostic, Some(format!("Error: {}", message)));
    assert!(report.printed.is_empty());
    assert_eq!(asked.len(), 2);
}

#[test]
fn remote_reports_a_declared_version_that_is_none() {
    let files = [("feature", answer(&manifest("2.0"))), ("main", answer(&manifest("1.0.0")))];
    let (report, _) =
        run_remote(&["prog", "owner/repo", "feature", "main", "Cargo.toml"], Mode::Validate, &files);
    assert_eq!(report.exit_code(), 1);
    assert_eq!(report.result, Err(Failure::Version(VersionError::InvalidFormat)));
    assert_eq!(report.printed, vec!["2.0".to_string(), "1.0.0".to_string()]);
    assert_eq!(report.diagnostic, Some("Error: Invalid version".to_string()));
}

#[test]
fn show_mode_prints_the_versions_and_stops() {
    let files = [("feature", answer(&manifest("1.0.0"))), ("main", answer(&manifest("not-a-version")))];
    let (report, asked) =
        run_remote(&["prog", "owner/repo", "feature", "main", "Cargo.toml"], Mode::Show, &files);
    assert_eq!(report.exit_code(), 0);
    assert_eq!(report.result, Ok(()));
    assert_eq!(report.printed, vec!["1.0.0".to_string(), "not-a-version".to_string()]);
    assert_eq!(asked, vec![request("feature"), request("main")]);
}

#[test]
fn plan_reads_the_arguments() {
    let made = plan(&args(&["prog", "owner/repo", "from", "to", "dir/Cargo.toml", "extra"]), Mode::Show)
        .unwrap();
    assert_eq!(made.repository.owner, "owner");
    assert_eq!(made.repository.name, "repo");
    assert_eq!(made.from_reference, "from");
    assert_eq!(made.to_reference, "to");
    assert_eq!(made.path, "dir/Cargo.toml");
    assert_eq!(made.mode, Mode::Show);
    assert_eq!(plan(&args(&[]), Mode::Show), Err(Failure::Usage));
    assert_eq!(plan(&args(&["prog", "x", "a", "b", "c"]), Mode::Show), Err(Failure::InvalidRepository));
}

#[test]
fn resume_keeps_the_first_file_while_it_asks_for_the_second() {
    let made = plan(&args(&["prog", "owner/repo", "from", "to", "Cargo.toml"]), Mode::Validate).unwrap();
    let step = resume(Pending::From(made.clone()), answer("first file"));
    assert_eq!(step, Step::Fetch(request("to"), Pending::To(made, "first file".to_string())));
}

#[test]
fn judge_and_conclude() {
    let report = judge(Mode::Validate, "2.0.0".to_string(), "1.5.0".to_string());
    assert_eq!(report.result, Ok(()));
    let report = judge(Mode::Validate, "1.5.0".to_string(), "1.5.0".to_string());
    assert_eq!(report.result, Err(Failure::InvalidVersionTransition));
    let report = judge(Mode::Validate, "1.5.0".to_string(), "2.0.0".to_string());
    assert_eq!(report.result, Err(Failure::InvalidVersionTransition));
    let report = judge(Mode::Validate, "1.5.0".to_string(), "2.0.x".to_string());
    assert_eq!(
        report.result,
        Err(Failure::Version(VersionError::InvalidNumber {
            segment: "x".to_string(),
            reason: NumberError::InvalidDigit,
        }))
    );
    let report = conclude(Mode::Validate, &manifest("0.2.0"), &manifest("0.1.9"));
    assert_eq!(report.result, Ok(()));
    assert_eq!(report.printed, vec!["0.2.0".to_string(), "0.1.9".to_string()]);
}

#[test]
fn failure_messages() {
    assert_eq!(Failure::Usage.message(), "Too few arguments");
    assert_eq!(Failure::InvalidRepository.message(), "Invalid repository");
    assert_eq!(Failure::InvalidVersionTransition.message(), "Invalid version transition");
    assert_eq!(Failure::Fetch(FetchError::NotFound).message(), "File not found");
    assert_eq!(Failure::Extract(ExtractError::MissingPackage).message(), "Missing package table");
    assert_eq!(Failure::Version(VersionError::InvalidFormat).message(), "Invalid version");
}
