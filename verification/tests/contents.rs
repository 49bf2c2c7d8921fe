use project_type_checker::analysis::aggregate;
use project_type_checker::fetch::{
    collect_contents, plan_fetch, status_is_success, FetchResult, HttpReply, LossReason, Transfer,
};
use project_type_checker::rules::{FileMappings, FileTypes, TypeRule};
use project_type_checker::tree::TreeEntry;

fn mappings() -> FileMappings {
    FileMappings {
        file_types: FileTypes {
            programming_languages: vec![
                TypeRule { name: "Rust".to_string(), patterns: vec!["*.rs".to_string()] },
                TypeRule { name: "Go".to_string(), patterns: vec!["*.go".to_string()] },
            ],
            web_files: vec![],
            config_files: vec![],
            documentation: vec![],
            images: vec![],
            video: vec![],
            audio: vec![],
            archives: vec![],
            fonts: vec![],
            other: vec![],
        },
    }
}

fn reply(path: &str, status: u16, body: &str) -> FetchResult {
    FetchResult {
        path: path.to_string(),
        transfer: Transfer::Reply(HttpReply { status, body: body.to_string() }),
    }
}

fn failed(path: &str, message: &str) -> FetchResult {
    FetchResult { path: path.to_string(), transfer: Transfer::Failed(message.to_string()) }
}

#[test]
fn success_is_the_two_hundreds() {
    assert!(status_is_success(200));
    assert!(status_is_success(204));
    assert!(status_is_success(299));
    assert!(!status_is_success(199));
    assert!(!status_is_success(300));
    assert!(!status_is_success(404));
    assert!(!status_is_success(500));
    assert!(!status_is_success(0));
    assert!(!status_is_success(u16::MAX));
}

#[test]
fn plan_asks_for_files_with_a_handle() {
    let entries = vec![
        TreeEntry::directory("src".to_string()),
        TreeEntry::file("src/main.rs".to_string(), Some("https://host/1".to_string())),
        TreeEntry::file("src/gone.rs".to_string(), None),
        TreeEntry::file("README.md".to_string(), Some("https://host/2".to_string())),
    ];
    let plan = plan_fetch(&entries);
    let asked: Vec<(&str, &str, &str)> =
        plan.requests.iter().map(|r| (r.path.as_str(), r.url.as_str(), r.user_agent)).collect();
    assert_eq!(
        asked,
        vec![
            ("src/main.rs", "https://host/1", "rust-tool"),
            ("README.md", "https://host/2", "rust-tool"),
        ]
    );
    assert_eq!(plan.skipped.len(), 1);
    assert_eq!(plan.skipped[0].path, "src/gone.rs");
    assert!(matches!(plan.skipped[0].reason, LossReason::MissingContentRef));
}

#[test]
fn plan_of_nothing_is_empty() {
    let plan = plan_fetch(&[]);
    assert!(plan.requests.is_empty());
    assert!(plan.skipped.is_empty());
    let plan = plan_fetch(&[TreeEntry::directory("d".to_string())]);
    assert!(plan.requests.is_empty());
    assert!(plan.skipped.is_empty());
}

#[test]
fn contents_that_came_are_kept_in_order() {
    let batch = collect_contents(vec![
        reply("a.rs", 200, "fn a() {}"),
        reply("b.rs", 404, "Not Found"),
        failed("c.rs", "timed out"),
        reply("d.go", 201, "package d"),
    ]);
    let had: Vec<(&str, &str)> =
        batch.files.iter().map(|f| (f.path.as_str(), f.text.as_str())).collect();
    assert_eq!(had, vec![("a.rs", "fn a() {}"), ("d.go", "package d")]);
    assert_eq!(batch.losses.len(), 2);
    assert_eq!(batch.losses[0].path, "b.rs");
    match &batch.losses[0].reason {
        LossReason::Refused { status, body } => {
            assert_eq!(*status, 404);
            assert_eq!(body, "Not Found");
        }
        other => panic!("{:?}", other),
    }
    assert_eq!(batch.losses[1].path, "c.rs");
    match &batch.losses[1].reason {
        LossReason::Unreachable { message } => assert_eq!(message, "timed out"),
        other => panic!("{:?}", other),
    }
}

#[test]
fn no_results_give_an_empty_batch() {
    let batch = collect_contents(vec![]);
    assert!(batch.files.is_empty());
    assert!(batch.losses.is_empty());
}

#[test]
fn five_failures_in_a_hundred_leave_ninety_five_files() {
    let mut results = Vec::new();
    for i in 0..100 {
        let path = if i % 2 == 0 { format!("src/f{}.rs", i) } else { format!("pkg/f{}.go", i) };
        if i % 20 == 7 {
            results.push(reply(&path, 500, "Internal Server Error"));
        } else {
            results.push(reply(&path, 200, "text"));
        }
    }
    let batch = collect_contents(results);
    assert_eq!(batch.files.len(), 95);
    assert_eq!(batch.losses.len(), 5);
    let lost: Vec<&str> = batch.losses.iter().map(|l| l.path.as_str()).collect();
    assert_eq!(lost, vec!["pkg/f7.go", "pkg/f27.go", "pkg/f47.go", "pkg/f67.go", "pkg/f87.go"]);
    for loss in &batch.losses {
        assert!(matches!(loss.reason, LossReason::Refused { status: 500, .. }));
        assert!(batch.files.iter().all(|f| f.path != loss.path));
    }
    let report = aggregate(&batch.files, &mappings());
    assert_eq!(report.per_type_counts.total_files(), 95);
    assert_eq!(report.per_type_counts.get("Rust"), 50);
    assert_eq!(report.per_type_counts.get("Go"), 45);
    assert_eq!(report.per_type_counts.len(), 2);
}

#[test]
fn a_failed_fetch_changes_nothing_but_its_own_file() {
    let with_failure = collect_contents(vec![
        reply("a.rs", 200, "fn a() {}"),
        reply("main.go", 503, "busy"),
        reply("b.rs", 200, "fn b() {}"),
    ]);
    let without = collect_contents(vec![reply("a.rs", 200, "fn a() {}"), reply("b.rs", 200, "fn b() {}")]);
    let first = aggregate(&with_failure.files, &mappings());
    let second = aggregate(&without.files, &mappings());
    assert_eq!(first.per_type_counts.get("Rust"), 2);
    assert_eq!(first.per_type_counts.get("Go"), 0);
    assert_eq!(first.per_type_counts.total_files(), second.per_type_counts.total_files());
    assert_eq!(first.per_type_counts.len(), second.per_type_counts.len());
    assert_eq!(first.detected_project_types, second.detected_project_types);
    assert_eq!(first.combined_project_type, second.combined_project_type);
    assert!(first.detected_project_types.is_empty());
}
