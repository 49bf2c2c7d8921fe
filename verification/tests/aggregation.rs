use project_type_checker::analysis::{add_labels, aggregate, analyze_files, FileContent};
use project_type_checker::rules::{FileMappings, FileTypes, TypeRule};
use project_type_checker::tally::{FileStats, TypeCounts};

fn rule(name: &str, patterns: &[&str]) -> TypeRule {
    TypeRule { name: name.to_string(), patterns: patterns.iter().map(|p| p.to_string()).collect() }
}

fn mappings() -> FileMappings {
    FileMappings {
        file_types: FileTypes {
            programming_languages: vec![rule("Rust", &["*.rs"]), rule("Go", &["*.go"])],
            web_files: vec![rule("HTML", &["*.html"]), rule("CSS", &["*.css"])],
            config_files: vec![rule("TOML", &["*.toml"]), rule("JSON", &["*.json"])],
            documentation: vec![rule("Markdown", &["*.md"])],
            images: vec![],
            video: vec![],
            audio: vec![],
            archives: vec![],
            fonts: vec![],
            other: vec![],
        },
    }
}

fn file(path: &str, text: &str) -> FileContent {
    FileContent { path: path.to_string(), text: text.to_string() }
}

fn strings(names: &[&str]) -> Vec<String> {
    names.iter().map(|n| n.to_string()).collect()
}

#[test]
fn new_stats_count_nothing() {
    assert_eq!(FileStats::new().files, 0);
}

#[test]
fn counts_start_empty() {
    let counts = TypeCounts::new();
    assert_eq!(counts.len(), 0);
    assert_eq!(counts.total_files(), 0);
    assert_eq!(counts.get("Rust"), 0);
    assert!(counts.entries().is_empty());
}

#[test]
fn recording_raises_one_count_by_one() {
    let counts = TypeCounts::new()
        .record("Rust".to_string())
        .record("Go".to_string())
        .record("Rust".to_string());
    assert_eq!(counts.get("Rust"), 2);
    assert_eq!(counts.get("Go"), 1);
    assert_eq!(counts.get("Unknown"), 0);
    assert_eq!(counts.len(), 2);
    assert_eq!(counts.total_files(), 3);
    let listed: Vec<(String, usize)> =
        counts.entries().iter().map(|e| (e.name().clone(), e.files())).collect();
    assert_eq!(listed, vec![("Rust".to_string(), 2), ("Go".to_string(), 1)]);
}

#[test]
fn every_file_is_counted_once_under_its_type() {
    let files = vec![
        file("src/main.rs", "fn main() {}"),
        file("src/lib.rs", ""),
        file("README.md", "# readme"),
        file("LICENSE", "MIT"),
        file("Cargo.toml", "[package]"),
        file("NOTICE", ""),
    ];
    let (counts, labels) = analyze_files(&files, &mappings());
    assert_eq!(counts.get("Rust"), 2);
    assert_eq!(counts.get("Markdown"), 1);
    assert_eq!(counts.get("TOML"), 1);
    assert_eq!(counts.get("Unknown"), 2);
    assert_eq!(counts.get("Go"), 0);
    assert_eq!(counts.len(), 4);
    assert_eq!(counts.total_files(), 6);
    assert_eq!(labels, strings(&["Rust CLI Tool"]));
}

#[test]
fn no_files_give_an_empty_analysis() {
    let (counts, labels) = analyze_files(&[], &mappings());
    assert_eq!(counts.len(), 0);
    assert_eq!(counts.total_files(), 0);
    assert!(labels.is_empty());
    let report = aggregate(&[], &mappings());
    assert_eq!(report.combined_project_type, "Unknown Project Type");
}

#[test]
fn labels_stand_once_in_order_of_first_appearance() {
    let files = vec![
        file("cmd/main.go", "package main"),
        file("web/index.html", "<html>"),
        file("web/site.css", ""),
        file("pkg/main.go", ""),
        file("web/about.html", ""),
        file("Makefile", ""),
    ];
    let (counts, labels) = analyze_files(&files, &mappings());
    assert_eq!(labels, strings(&["Go Backend", "Website", "Static website", "CLI Tool"]));
    assert_eq!(counts.get("Go"), 2);
    assert_eq!(counts.get("HTML"), 2);
    assert_eq!(counts.get("CSS"), 1);
    assert_eq!(counts.get("Unknown"), 1);
}

#[test]
fn report_combines_the_labels() {
    let files = vec![file("web/index.html", "<html>"), file("cmd/main.go", "package main")];
    let report = aggregate(&files, &mappings());
    assert_eq!(report.detected_project_types, strings(&["Website", "Static website", "Go Backend"]));
    assert_eq!(report.combined_project_type, "Website with Go Backend");
    assert_eq!(report.per_type_counts.total_files(), 2);
    assert_eq!(report.per_type_counts.get("HTML"), 1);
    assert_eq!(report.per_type_counts.get("Go"), 1);
}

#[test]
fn report_of_a_lone_page_is_a_static_website() {
    let report = aggregate(&[file("app/index.html", "<html></html>")], &mappings());
    assert_eq!(report.detected_project_types, strings(&["Website", "Static website"]));
    assert_eq!(report.combined_project_type, "Static website");
}

#[test]
fn website_label_names_the_framework_of_the_page() {
    let files = vec![file("docs/angular.json.html", ""), file("index.html", "")];
    let (_, labels) = analyze_files(&files, &mappings());
    assert_eq!(labels, strings(&["Website", "Website using Angular", "Static website"]));
}

#[test]
fn adding_labels_keeps_what_is_there_and_skips_repeats() {
    let mut detected = strings(&["a", "b"]);
    add_labels(&mut detected, &strings(&["b", "c", "c", "a", "d"]));
    assert_eq!(detected, strings(&["a", "b", "c", "d"]));
    add_labels(&mut detected, &[]);
    assert_eq!(detected, strings(&["a", "b", "c", "d"]));
    let mut empty: Vec<String> = Vec::new();
    add_labels(&mut empty, &strings(&["x", "x"]));
    assert_eq!(empty, strings(&["x"]));
}
