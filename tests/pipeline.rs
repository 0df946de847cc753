use std::collections::HashMap;

use fileforge::authoring::AngularConfig;
use fileforge::config::{ConfigDocument, ConfigError, ProjectType};
use fileforge::generator::{generate, ArtifactKind, GenerationCause, GenerationError};
use fileforge::pipeline::{Pipeline, PipelineState};
use fileforge::writer::{plan_artifact, FsOp};

fn failure(kind: ArtifactKind) -> GenerationError {
    GenerationError { artifact: kind, cause: GenerationCause::Config(ConfigError::MissingField("port".to_string())) }
}

#[test]
fn angular_runs_five_generators_in_order() {
    let mut p = Pipeline::new(ProjectType::Angular);
    assert_eq!(p.state, PipelineState::Pending);
    assert_eq!(p.current(), None);
    p.start();
    let mut seen = Vec::new();
    while let Some(kind) = p.current() {
        seen.push(kind);
        p.record(Ok(()));
    }
    assert_eq!(
        seen,
        vec![
            ArtifactKind::BuildFile,
            ArtifactKind::ComposeFile,
            ArtifactKind::CiPipeline,
            ArtifactKind::DeploymentPlaybook,
            ArtifactKind::ReverseProxyConfig,
        ]
    );
    assert!(p.is_done());
    assert_eq!(p.failure(), None);
}

#[test]
fn dotnet_runs_four_generators() {
    let mut p = Pipeline::new(ProjectType::Dotnet);
    p.start();
    let mut n = 0;
    while p.current().is_some() {
        n += 1;
        p.record(Ok(()));
    }
    assert_eq!(n, 4);
    assert!(p.is_done());
}

#[test]
fn failure_of_the_second_stops_the_rest() {
    let mut p = Pipeline::new(ProjectType::Angular);
    p.start();
    let mut ran = Vec::new();
    while let Some(kind) = p.current() {
        ran.push(kind);
        if kind == ArtifactKind::ComposeFile {
            p.record(Err(failure(kind)));
        } else {
            p.record(Ok(()));
        }
    }
    assert_eq!(ran, vec![ArtifactKind::BuildFile, ArtifactKind::ComposeFile]);
    assert_eq!(p.failure(), Some(&failure(ArtifactKind::ComposeFile)));
    assert!(!p.is_done());
    p.record(Ok(()));
    assert_eq!(p.current(), None);
    assert_eq!(p.state, PipelineState::Failed(failure(ArtifactKind::ComposeFile)));
}

#[test]
fn recording_before_start_changes_nothing() {
    let mut p = Pipeline::new(ProjectType::Dotnet);
    p.record(Ok(()));
    assert_eq!(p.state, PipelineState::Pending);
}

fn apply(files: &mut HashMap<String, String>, ops: &[FsOp]) {
    for op in ops {
        match op {
            FsOp::CreateParentDirs { .. } => {}
            FsOp::Backup { from, to, .. } => {
                if let Some(c) = files.remove(from) {
                    files.insert(to.clone(), c);
                }
            }
            FsOp::Write { path, content } => {
                files.insert(path.clone(), content.clone());
            }
        }
    }
}

fn run(doc: &ConfigDocument, files: &mut HashMap<String, String>) -> Pipeline {
    let mut p = Pipeline::new(ProjectType::Angular);
    p.start();
    while let Some(kind) = p.current() {
        let outcome = generate(kind, ProjectType::Angular, doc, "out").map(|a| apply(files, &plan_artifact(&a)));
        p.record(outcome);
    }
    p
}

#[test]
fn nothing_after_a_failed_generator_is_written_or_backed_up() {
    let mut doc = AngularConfig {
        project_type: "angular".to_string(),
        node_version: "20.10.0".to_string(),
        service_name: "web".to_string(),
        image_name: "web-img".to_string(),
        container_name: "web-c".to_string(),
        port: 80,
        project_location: "/srv".to_string(),
        project_directory: "shop".to_string(),
    }
    .to_document();
    doc.fields.retain(|f| f.key != "port");
    let mut files = HashMap::new();
    files.insert("out/nginx.conf".to_string(), "old nginx".to_string());
    files.insert("out/.gitlab-ci.yml".to_string(), "old ci".to_string());
    let p = run(&doc, &mut files);
    let e = p.failure().unwrap();
    assert_eq!(e.artifact, ArtifactKind::ComposeFile);
    assert_eq!(e.cause, GenerationCause::Config(ConfigError::MissingField("port".to_string())));
    assert!(files.contains_key("out/Dockerfile"));
    assert!(!files.contains_key("out/compose.yaml"));
    assert_eq!(files["out/.gitlab-ci.yml"], "old ci");
    assert_eq!(files["out/nginx.conf"], "old nginx");
    assert!(!files.contains_key("out/.gitlab-ci.yml.backup"));
    assert!(!files.contains_key("out/nginx.conf.backup"));
    assert!(!files.contains_key("out/ansible/hosts.yml"));
    assert_eq!(files.len(), 3);
}

#[test]
fn second_run_keeps_first_run_as_backup() {
    let doc = AngularConfig {
        project_type: "angular".to_string(),
        node_version: "20.10.0".to_string(),
        service_name: "web".to_string(),
        image_name: "web-img".to_string(),
        container_name: "web-c".to_string(),
        port: 80,
        project_location: "/srv".to_string(),
        project_directory: "shop".to_string(),
    }
    .to_document();
    let mut files = HashMap::new();
    assert!(run(&doc, &mut files).is_done());
    let first = files.clone();
    assert_eq!(first.len(), 6);
    assert!(run(&doc, &mut files).is_done());
    for (path, content) in &first {
        assert_eq!(&files[path], content);
        assert_eq!(&files[&format!("{}.backup", path)], content);
    }
}
