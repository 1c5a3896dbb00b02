use node_evaluate::issue::{
    BuildDependencyIssue, DescriptionError, EvaluateEmittedErrorIssue, EvaluationIssue,
};
use node_evaluate::message::IssueSeverity;
use node_evaluate::path::{AssetIdent, FileSystemPath};

fn path(text: &str) -> FileSystemPath {
    FileSystemPath::new(text.to_string())
}

fn evaluation() -> EvaluationIssue<String> {
    EvaluationIssue {
        context_ident: AssetIdent::new(path("/app/module.js")),
        cwd: path("/app"),
        error: "boom".to_string(),
    }
}

fn emitted() -> EvaluateEmittedErrorIssue<String> {
    EvaluateEmittedErrorIssue {
        context: path("/app/module.js"),
        cwd: path("/app"),
        severity: IssueSeverity::Note,
        error: "careful".to_string(),
    }
}

fn build_dependency() -> BuildDependencyIssue {
    BuildDependencyIssue {
        context_ident: AssetIdent::new(path("/app/module.js")),
        path: path("/app").join("config.js"),
    }
}

#[test]
fn evaluation_issue_names_itself() {
    let issue = evaluation();
    assert_eq!(issue.title(), "Error evaluating Node.js code");
    assert_eq!(issue.category(), "build");
    assert_eq!(issue.context(), path("/app/module.js"));
}

#[test]
fn evaluation_issue_prints_its_error() {
    let issue = evaluation();
    let request = issue.description::<String>(Ok(Some("/disk".to_string()))).unwrap();
    assert_eq!(request.error, "boom");
    assert_eq!(request.root, "/disk");
    assert_eq!(request.printed::<String>(Ok("text".to_string())), Ok("text".to_string()));
}

#[test]
fn description_fails_off_disk() {
    let issue = evaluation();
    let error = issue.description::<String>(Ok(None)).err().unwrap();
    assert_eq!(error, DescriptionError::NotOnDisk);
    assert_eq!(error.message(), Some("Must have path on disk".to_string()));
    let issue = emitted();
    assert_eq!(issue.description::<String>(Ok(None)).err(), Some(DescriptionError::NotOnDisk));
}

#[test]
fn description_passes_failures_on() {
    let issue = evaluation();
    let error = issue.description(Err("io")).err().unwrap();
    assert_eq!(error, DescriptionError::Failed("io"));
    assert_eq!(error.message(), None);
    let request = issue.description::<&str>(Ok(Some("/disk".to_string()))).unwrap();
    assert_eq!(request.printed(Err("io")), Err(DescriptionError::Failed("io")));
}

#[test]
fn build_dependency_issue_names_itself() {
    let issue = build_dependency();
    assert_eq!(issue.severity(), IssueSeverity::Warning);
    assert_eq!(issue.title(), "Build dependencies are not yet supported");
    assert_eq!(issue.category(), "build");
    assert_eq!(issue.context(), path("/app/module.js"));
}

#[test]
fn build_dependency_issue_describes_its_file() {
    let issue = build_dependency();
    assert_eq!(
        issue.description::<String>(Ok("/app/config.js".to_string())),
        Ok("The file at /app/config.js is a build dependency, which is not yet implemented.
Changing this file or any dependency will not be recognized and might require restarting the server"
            .to_string())
    );
    assert_eq!(issue.description(Err("io")), Err("io"));
}

#[test]
fn emitted_error_issue_names_itself() {
    let issue = emitted();
    assert_eq!(issue.title(), "Issue while running loader");
    assert_eq!(issue.category(), "loaders");
    assert_eq!(issue.severity(), IssueSeverity::Note);
    assert_eq!(issue.context(), path("/app/module.js"));
}

#[test]
fn emitted_error_issue_prints_its_error() {
    let issue = emitted();
    let request = issue.description::<String>(Ok(Some("/disk".to_string()))).unwrap();
    assert_eq!(request.error, "careful");
    assert_eq!(request.root, "/disk");
}

#[test]
fn issues_name_the_paths_they_are_described_with() {
    assert_eq!(*evaluation().disk_root_of(), path("/app"));
    assert_eq!(*emitted().disk_root_of(), path("/app"));
    assert_eq!(*build_dependency().described_path(), path("/app").join("config.js"));
}
