use project_type_checker::analysis::{classify, FileClassification};
use project_type_checker::rules::{detect_file_type, FileMappings, FileTypes, TypeRule};
use project_type_checker::signals::{
    detect_framework, detect_project_type_and_framework, framework_signal,
};

fn rule(name: &str, patterns: &[&str]) -> TypeRule {
    TypeRule { name: name.to_string(), patterns: patterns.iter().map(|p| p.to_string()).collect() }
}

fn empty_types() -> FileTypes {
    FileTypes {
        programming_languages: vec![],
        web_files: vec![],
        config_files: vec![],
        documentation: vec![],
        images: vec![],
        video: vec![],
        audio: vec![],
        archives: vec![],
        fonts: vec![],
        other: vec![],
    }
}

fn sample_mappings() -> FileMappings {
    FileMappings {
        file_types: FileTypes {
            programming_languages: vec![
                rule("Rust", &["*.rs"]),
                rule("Python", &["*.py"]),
                rule("JavaScript", &["*.js", "*.mjs"]),
            ],
            web_files: vec![rule("HTML", &["*.html", "*.htm"]), rule("CSS", &["*.css"])],
            config_files: vec![rule("JSON", &["*.json"]), rule("TOML", &["*.toml"])],
            documentation: vec![rule("Markdown", &["*.md"])],
            images: vec![rule("PNG", &["*.png"])],
            video: vec![rule("MP4", &["*.mp4"])],
            audio: vec![rule("MP3", &["*.mp3"])],
            archives: vec![rule("Zip", &["*.zip"])],
            fonts: vec![rule("TrueType", &["*.ttf"])],
            other: vec![rule("Lock", &["*.lock"])],
        },
    }
}

#[test]
fn rust_source_is_typed_rust() {
    assert_eq!(detect_file_type("src/main.rs", &sample_mappings()), "Rust");
}

#[test]
fn unmatched_path_is_unknown() {
    assert_eq!(detect_file_type("LICENSE", &sample_mappings()), "Unknown");
    assert_eq!(detect_file_type("", &sample_mappings()), "Unknown");
    assert_eq!(detect_file_type("src/main.rs", &FileMappings { file_types: empty_types() }), "Unknown");
}

#[test]
fn every_category_is_searched() {
    let m = sample_mappings();
    assert_eq!(detect_file_type("a/b.py", &m), "Python");
    assert_eq!(detect_file_type("index.htm", &m), "HTML");
    assert_eq!(detect_file_type("Cargo.toml", &m), "TOML");
    assert_eq!(detect_file_type("README.md", &m), "Markdown");
    assert_eq!(detect_file_type("logo.png", &m), "PNG");
    assert_eq!(detect_file_type("clip.mp4", &m), "MP4");
    assert_eq!(detect_file_type("song.mp3", &m), "MP3");
    assert_eq!(detect_file_type("all.zip", &m), "Zip");
    assert_eq!(detect_file_type("font.ttf", &m), "TrueType");
    assert_eq!(detect_file_type("Cargo.lock", &m), "Lock");
}

#[test]
fn second_pattern_of_a_rule_matches() {
    assert_eq!(detect_file_type("next.config.mjs", &sample_mappings()), "JavaScript");
}

#[test]
fn earlier_category_wins_over_later() {
    let mut types = empty_types();
    types.programming_languages = vec![rule("TypeScript", &["*.ts"])];
    types.video = vec![rule("Transport Stream", &["*.ts"])];
    let m = FileMappings { file_types: types };
    assert_eq!(detect_file_type("clip.ts", &m), "TypeScript");
}

#[test]
fn earlier_rule_wins_over_longer_match() {
    let mut types = empty_types();
    types.config_files = vec![rule("JSON", &["*.json"]), rule("Package manifest", &["package.json"])];
    let m = FileMappings { file_types: types };
    assert_eq!(detect_file_type("web/package.json", &m), "JSON");
    let mut swapped = empty_types();
    swapped.config_files = vec![rule("Package manifest", &["package.json"]), rule("JSON", &["*.json"])];
    let m = FileMappings { file_types: swapped };
    assert_eq!(detect_file_type("web/package.json", &m), "Package manifest");
    assert_eq!(detect_file_type("web/tsconfig.json", &m), "JSON");
}

#[test]
fn wildcard_markers_are_stripped_before_the_suffix_test() {
    let mut types = empty_types();
    types.other = vec![
        rule("Plain", &[".txt"]),
        rule("Starred", &["**.log"]),
        rule("Makefile", &["Makefile"]),
        rule("Inner star", &["*a*b"]),
    ];
    let m = FileMappings { file_types: types };
    assert_eq!(detect_file_type("notes.txt", &m), "Plain");
    assert_eq!(detect_file_type("run.log", &m), "Starred");
    assert_eq!(detect_file_type("sub/Makefile", &m), "Makefile");
    assert_eq!(detect_file_type("xa*b", &m), "Inner star");
    assert_eq!(detect_file_type("xab", &m), "Unknown");
    assert_eq!(detect_file_type("*.txt", &m), "Plain");
}

#[test]
fn bare_wildcard_matches_every_path() {
    let mut types = empty_types();
    types.fonts = vec![rule("Anything", &["*"])];
    types.other = vec![rule("Never", &["*.x"])];
    let m = FileMappings { file_types: types };
    assert_eq!(detect_file_type("a.x", &m), "Anything");
    assert_eq!(detect_file_type("", &m), "Anything");
}

#[test]
fn suffix_test_is_on_the_raw_path() {
    let m = sample_mappings();
    assert_eq!(detect_file_type("src/main.rs.bak", &m), "Unknown");
    assert_eq!(detect_file_type("rs", &m), "Unknown");
    assert_eq!(detect_file_type(".rs", &m), "Rust");
    assert_eq!(detect_file_type("é.rs", &m), "Rust");
}

#[test]
fn html_page_without_framework_is_static_website() {
    let (kind, built) = detect_project_type_and_framework("app/index.html", "<html></html>");
    assert_eq!(kind, Some("Website".to_string()));
    assert_eq!(built, Some("Static website".to_string()));
}

#[test]
fn style_sheet_is_a_website_signal() {
    let (kind, built) = detect_project_type_and_framework("static/site.css", "body {}");
    assert_eq!(kind, Some("Website".to_string()));
    assert_eq!(built, Some("Static website".to_string()));
}

#[test]
fn web_page_with_framework_names_it() {
    let (kind, built) = detect_project_type_and_framework("docs/next.config.js.html", "");
    assert_eq!(kind, Some("Website".to_string()));
    assert_eq!(built, Some("Website using Next.js".to_string()));
    let (kind, built) = detect_project_type_and_framework("package.json.html", "uses react");
    assert_eq!(kind, Some("Website".to_string()));
    assert_eq!(built, Some("Website using React".to_string()));
}

#[test]
fn web_page_is_a_website_whatever_markers_it_holds() {
    let (kind, built) = detect_project_type_and_framework("pom.xml.html", "Cargo.toml electron");
    assert_eq!(kind, Some("Website".to_string()));
    assert_eq!(built, Some("Static website".to_string()));
}

#[test]
fn project_markers_are_found_in_path_and_content() {
    let cases = [
        ("pom.xml", "", "Java CLI Tool"),
        ("config.ru", "", "Ruby Backend (Rails)"),
        ("cmd/main.go", "", "Go Backend"),
        ("public/index.php", "", "PHP Backend"),
        ("build.gradle", "", "Gradle (Java/Kotlin) CLI Tool"),
        ("build.sbt", "", "Scala Backend"),
        ("app/AndroidManifest.xml", "", "Mobile App"),
        ("ios/Info.plist", "", "Mobile App"),
        ("MainActivity.java", "", "Mobile App"),
        ("AppDelegate.swift", "", "Mobile App"),
        ("notes.txt", "built with electron", "Desktop App"),
        ("app.desktop", "", "Desktop App"),
        ("MainWindow.xaml", "", "Desktop App"),
        ("Cargo.toml", "", "Rust CLI Tool"),
        ("setup.py", "", "Python CLI Tool"),
        ("Makefile", "", "CLI Tool"),
        ("Program.cs", "", "C# CLI Tool"),
        ("Go.mod", "", "Go CLI Tool"),
        ("Rakefile", "", "Ruby CLI Tool"),
    ];
    for (path, content, label) in cases {
        let (kind, built) = detect_project_type_and_framework(path, content);
        assert_eq!(kind, Some(label.to_string()), "{}", path);
        assert_eq!(built, None);
    }
}

#[test]
fn first_marker_of_the_table_wins() {
    let (kind, _) = detect_project_type_and_framework("Makefile", "see pom.xml");
    assert_eq!(kind, Some("Java CLI Tool".to_string()));
    let (kind, _) = detect_project_type_and_framework("Rakefile", "Cargo.toml");
    assert_eq!(kind, Some("Rust CLI Tool".to_string()));
    let (kind, _) = detect_project_type_and_framework("src/main.go", "AndroidManifest.xml");
    assert_eq!(kind, Some("Go Backend".to_string()));
}

#[test]
fn file_without_marker_gives_no_signal() {
    assert_eq!(detect_project_type_and_framework("src/lib.rs", "fn main() {}"), (None, None));
    assert_eq!(detect_project_type_and_framework("", ""), (None, None));
    assert_eq!(detect_project_type_and_framework("go.mod", "module x"), (None, None));
}

#[test]
fn manifest_with_react_dependency_signals_react() {
    assert_eq!(detect_framework("package.json", "{\"dependencies\": {\"react\": \"18\"}}"), "React");
    let c: FileClassification =
        classify("package.json", "{\"dependencies\": {\"react\": \"18\"}}", &sample_mappings());
    assert_eq!(c.framework_signal, Some("React".to_string()));
    assert_eq!(c.file_type, "JSON");
    assert_eq!(c.project_type_signal, None);
    assert_eq!(c.path, "package.json");
}

#[test]
fn framework_is_read_off_the_path_first() {
    assert_eq!(detect_framework("next.config.js", ""), "Next.js");
    assert_eq!(detect_framework("web/next.config.mjs", ""), "Next.js");
    assert_eq!(detect_framework("vue.config.js", ""), "Vue.js");
    assert_eq!(detect_framework("angular.json", ""), "Angular");
    assert_eq!(detect_framework("angular.json", "react"), "Angular");
    assert_eq!(detect_framework("vue.config/package.json", "react"), "Vue.js");
}

#[test]
fn manifest_dependencies_are_tried_in_order() {
    assert_eq!(detect_framework("package.json", "vue angular"), "Vue.js");
    assert_eq!(detect_framework("package.json", "angular vue react"), "React");
    assert_eq!(detect_framework("package.json", "@angular/core"), "Angular");
    assert_eq!(detect_framework("sub/package.json", "preact"), "React");
}

#[test]
fn content_counts_for_a_manifest_only() {
    assert_eq!(detect_framework("README.md", "react vue angular"), "None");
    assert_eq!(detect_framework("package.json", "{}"), "None");
    assert_eq!(detect_framework("", ""), "None");
    assert_eq!(framework_signal("README.md", "react"), None);
    assert_eq!(framework_signal("package.json", "react"), Some("React"));
}

#[test]
fn classification_holds_all_three_findings() {
    let m = sample_mappings();
    let c = classify("app/index.html", "<html>", &m);
    assert_eq!(c.path, "app/index.html");
    assert_eq!(c.file_type, "HTML");
    assert_eq!(c.framework_signal, None);
    assert_eq!(c.project_type_signal, Some("Website".to_string()));
    assert_eq!(c.labels(), vec!["Website".to_string(), "Static website".to_string()]);

    let c = classify("Cargo.toml", "[package]", &m);
    assert_eq!(c.file_type, "TOML");
    assert_eq!(c.project_type_signal, Some("Rust CLI Tool".to_string()));
    assert_eq!(c.labels(), vec!["Rust CLI Tool".to_string()]);

    let c = classify("src/lib.rs", "", &m);
    assert_eq!(c.file_type, "Rust");
    assert_eq!(c.project_type_signal, None);
    assert!(c.labels().is_empty());
}

#[test]
fn classification_is_the_same_every_time() {
    let m = sample_mappings();
    let first = classify("web/package.json", "vue", &m);
    let second = classify("web/package.json", "vue", &sample_mappings());
    assert_eq!(first.path, second.path);
    assert_eq!(first.file_type, second.file_type);
    assert_eq!(first.framework_signal, second.framework_signal);
    assert_eq!(first.project_type_signal, second.project_type_signal);
}
