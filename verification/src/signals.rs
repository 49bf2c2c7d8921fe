//! Framework and project-type signals of a single file, read off fixed signature tables.

use vstd::prelude::*;
use crate::text::{contains, ends_with, occurs_in, text_of, view_of};

verus! {

/// One row of a signature table: a marker and the label it stands for.
#[derive(Clone, Copy, Debug)]
pub struct Signature {
    pub pattern: &'static str,
    pub label: &'static str,
}

impl View for Signature {
    type V = (Seq<char>, Seq<char>);

    open spec fn view(&self) -> (Seq<char>, Seq<char>) {
        (self.pattern@, self.label@)
    }
}

/// A table of signatures as rows of (marker, label).
pub open spec fn rows(table: Seq<Signature>) -> Seq<(Seq<char>, Seq<char>)> {
    table.map_values(|s: Signature| s@)
}

/// Config file names that give a framework away by the path alone, in order of precedence.
pub open spec fn framework_paths() -> Seq<(Seq<char>, Seq<char>)> {
    seq![
        ("next.config.js"@, "Next.js"@),
        ("next.config.mjs"@, "Next.js"@),
        ("vue.config"@, "Vue.js"@),
        ("angular.json"@, "Angular"@),
    ]
}

/// Dependency names looked for in a package manifest, in order of precedence.
pub open spec fn manifest_dependencies() -> Seq<(Seq<char>, Seq<char>)> {
    seq![("react"@, "React"@), ("vue"@, "Vue.js"@), ("angular"@, "Angular"@)]
}

/// Whether the marker `pattern` shows in `primary` or, where there is one, in `secondary`.
pub open spec fn shows(pattern: Seq<char>, primary: Seq<char>, secondary: Option<Seq<char>>) -> bool {
    occurs_in(pattern, primary) || (secondary matches Some(text) && occurs_in(pattern, text))
}

/// The label of the first row of `table` whose marker shows.
pub open spec fn first_signal(
    table: Seq<(Seq<char>, Seq<char>)>,
    primary: Seq<char>,
    secondary: Option<Seq<char>>,
) -> Option<Seq<char>>
    decreases table.len(),
{
    if table.len() == 0 {
        None
    } else if shows(table[0].0, primary, secondary) {
        Some(table[0].1)
    } else {
        first_signal(table.drop_first(), primary, secondary)
    }
}

/// The label of the first row of `table` whose marker shows in `primary` or in
/// `secondary`.
fn scan(table: &Vec<Signature>, primary: &str, secondary: Option<&str>) -> (found: Option<&'static str>)
    ensures
        match found {
            Some(label) => first_signal(rows(table@), primary@, view_of(secondary)) == Some(label@),
            None => first_signal(rows(table@), primary@, view_of(secondary)) is None,
        },
{
    let ghost all = rows(table@);
    let ghost second = view_of(secondary);
    let mut i: usize = 0;
    assert(all.skip(0) == all);
    while i < table.len()
        invariant
            i <= table.len(),
            all == rows(table@),
            second == view_of(secondary),
            first_signal(all, primary@, second) == first_signal(all.skip(i as int), primary@, second),
        decreases table.len() - i,
    {
        let row = table[i];
        let hit = contains(primary, row.pattern) || match secondary {
            Some(text) => contains(text, row.pattern),
            None => false,
        };
        proof {
            assert(all.skip(i as int)[0] == row@);
            assert(all.skip(i as int).drop_first() == all.skip(i as int + 1));
        }
        if hit {
            return Some(row.label);
        }
        i += 1;
    }
    None
}

/// Markers of a project's kind, looked for in a file's path and content, in order of
/// precedence. Every marker stands in the table once.
pub open spec fn project_markers() -> Seq<(Seq<char>, Seq<char>)> {
    seq![
        ("pom.xml"@, "Java CLI Tool"@),
        ("config.ru"@, "Ruby Backend (Rails)"@),
        ("main.go"@, "Go Backend"@),
        ("index.php"@, "PHP Backend"@),
        ("build.gradle"@, "Gradle (Java/Kotlin) CLI Tool"@),
        ("build.sbt"@, "Scala Backend"@),
        ("AndroidManifest.xml"@, "Mobile App"@),
        ("Info.plist"@, "Mobile App"@),
        ("MainActivity.java"@, "Mobile App"@),
        ("AppDelegate.swift"@, "Mobile App"@),
        ("electron"@, "Desktop App"@),
        (".desktop"@, "Desktop App"@),
        ("MainWindow.xaml"@, "Desktop App"@),
        ("Cargo.toml"@, "Rust CLI Tool"@),
        ("setup.py"@, "Python CLI Tool"@),
        ("Makefile"@, "CLI Tool"@),
        ("Program.cs"@, "C# CLI Tool"@),
        ("Go.mod"@, "Go CLI Tool"@),
        ("Rakefile"@, "Ruby CLI Tool"@),
    ]
}

/// The framework a file gives away: a config file name in its path first; failing that,
/// and only for a package manifest, a dependency name in its content.
pub open spec fn framework_of(path: Seq<char>, content: Seq<char>) -> Option<Seq<char>> {
    match first_signal(framework_paths(), path, None) {
        Some(framework) => Some(framework),
        None => if occurs_in("package.json"@, path) {
            first_signal(manifest_dependencies(), content, None)
        } else {
            None
        },
    }
}

/// The name `detect_framework` reports: the framework, or `"None"` where there is none.
pub open spec fn framework_name(path: Seq<char>, content: Seq<char>) -> Seq<char> {
    match framework_of(path, content) {
        Some(framework) => framework,
        None => "None"@,
    }
}

/// Whether the path is that of a web page or a style sheet.
pub open spec fn is_web_page(path: Seq<char>) -> bool {
    ".html"@.is_suffix_of(path) || ".css"@.is_suffix_of(path)
}

/// How a website is built: with the framework that was found, or as a static site.
pub open spec fn site_label(framework: Option<Seq<char>>) -> Seq<char> {
    match framework {
        Some(name) => "Website using "@ + name,
        None => "Static website"@,
    }
}

/// The project-type signal of a file and, for a web page, the label that says how the
/// site is built. A web page is a `"Website"` whatever else its path or content holds;
/// any other file takes the label of the first project marker that shows in its path
/// or content.
pub open spec fn project_signals(path: Seq<char>, content: Seq<char>) -> (
    Option<Seq<char>>,
    Option<Seq<char>>,
) {
    if is_web_page(path) {
        (Some("Website"@), Some(site_label(framework_of(path, content))))
    } else {
        (first_signal(project_markers(), path, Some(content)), None)
    }
}

/// A signal is the label of a row of the table.
pub proof fn lemma_first_signal_is_a_label(
    table: Seq<(Seq<char>, Seq<char>)>,
    primary: Seq<char>,
    secondary: Option<Seq<char>>,
)
    ensures
        first_signal(table, primary, secondary) matches Some(label) ==> exists|i: int|
            0 <= i < table.len() && (#[trigger] table[i]).1 == label,
    decreases table.len(),
{
    if table.len() > 0 && !shows(table[0].0, primary, secondary) {
        let rest = table.drop_first();
        lemma_first_signal_is_a_label(rest, primary, secondary);
        if first_signal(rest, primary, secondary) is Some {
            let label = first_signal(rest, primary, secondary)->0;
            let i = choose|i: int| 0 <= i < rest.len() && (#[trigger] rest[i]).1 == label;
            assert(table[i + 1] == rest[i]);
        }
    }
}

/// No project marker stands for a website: that label is kept for web pages.
pub proof fn lemma_markers_name_no_website()
    ensures
        forall|i: int| 0 <= i < project_markers().len() ==> (#[trigger] project_markers()[i]).1 != "Website"@,
{
    reveal_strlit("Website");
    reveal_strlit("Java CLI Tool");
    reveal_strlit("Ruby Backend (Rails)");
    reveal_strlit("Go Backend");
    reveal_strlit("PHP Backend");
    reveal_strlit("Gradle (Java/Kotlin) CLI Tool");
    reveal_strlit("Scala Backend");
    reveal_strlit("Mobile App");
    reveal_strlit("Desktop App");
    reveal_strlit("Rust CLI Tool");
    reveal_strlit("Python CLI Tool");
    reveal_strlit("CLI Tool");
    reveal_strlit("C# CLI Tool");
    reveal_strlit("Go CLI Tool");
    reveal_strlit("Ruby CLI Tool");
    assert forall|i: int| 0 <= i < project_markers().len() implies (#[trigger] project_markers()[i]).1
        != "Website"@ by {
        let label = project_markers()[i].1;
        assert(label.len() != 7 || label[0] != 'W');
    }
}

/// The table of `framework_paths`.
fn framework_path_table() -> (table: Vec<Signature>)
    ensures
        rows(table@) == framework_paths(),
{
    let table = vec![
        Signature { pattern: "next.config.js", label: "Next.js" },
        Signature { pattern: "next.config.mjs", label: "Next.js" },
        Signature { pattern: "vue.config", label: "Vue.js" },
        Signature { pattern: "angular.json", label: "Angular" },
    ];
    assert(rows(table@) =~= framework_paths());
    table
}

/// The table of `manifest_dependencies`.
fn manifest_dependency_table() -> (table: Vec<Signature>)
    ensures
        rows(table@) == manifest_dependencies(),
{
    let table = vec![
        Signature { pattern: "react", label: "React" },
        Signature { pattern: "vue", label: "Vue.js" },
        Signature { pattern: "angular", label: "Angular" },
    ];
    assert(rows(table@) =~= manifest_dependencies());
    table
}

/// The table of `project_markers`.
fn project_marker_table() -> (table: Vec<Signature>)
    ensures
        rows(table@) == project_markers(),
{
    let table = vec![
        Signature { pattern: "pom.xml", label: "Java CLI Tool" },
        Signature { pattern: "config.ru", label: "Ruby Backend (Rails)" },
        Signature { pattern: "main.go", label: "Go Backend" },
        Signature { pattern: "index.php", label: "PHP Backend" },
        Signature { pattern: "build.gradle", label: "Gradle (Java/Kotlin) CLI Tool" },
        Signature { pattern: "build.sbt", label: "Scala Backend" },
        Signature { pattern: "AndroidManifest.xml", label: "Mobile App" },
        Signature { pattern: "Info.plist", label: "Mobile App" },
        Signature { pattern: "MainActivity.java", label: "Mobile App" },
        Signature { pattern: "AppDelegate.swift", label: "Mobile App" },
        Signature { pattern: "electron", label: "Desktop App" },
        Signature { pattern: ".desktop", label: "Desktop App" },
        Signature { pattern: "MainWindow.xaml", label: "Desktop App" },
        Signature { pattern: "Cargo.toml", label: "Rust CLI Tool" },
        Signature { pattern: "setup.py", label: "Python CLI Tool" },
        Signature { pattern: "Makefile", label: "CLI Tool" },
        Signature { pattern: "Program.cs", label: "C# CLI Tool" },
        Signature { pattern: "Go.mod", label: "Go CLI Tool" },
        Signature { pattern: "Rakefile", label: "Ruby CLI Tool" },
    ];
    assert(rows(table@) =~= project_markers());
    table
}

/// The framework that `path` and `content` give away, if any.
pub fn framework_signal(path: &str, content: &str) -> (found: Option<&'static str>)
    ensures
        view_of(found) == framework_of(path@, content@),
{
    let by_path = scan(&framework_path_table(), path, None);
    if by_path.is_some() {
        by_path
    } else if contains(path, "package.json") {
        scan(&manifest_dependency_table(), content, None)
    } else {
        None
    }
}

/// The name of the framework that `path` and `content` give away, `"None"` where they
/// give none away.
pub fn detect_framework(path: &str, content: &str) -> (framework: String)
    ensures
        framework@ == framework_name(path@, content@),
{
    match framework_signal(path, content) {
        Some(name) => name.to_owned(),
        None => "None".to_owned(),
    }
}

/// The project-type signal of one file, and for a web page the label that says how the
/// site is built.
pub fn detect_project_type_and_framework(path: &str, content: &str) -> (signals: (
    Option<String>,
    Option<String>,
))
    ensures
        (text_of(signals.0), text_of(signals.1)) == project_signals(path@, content@),
{
    if ends_with(path, ".html") || ends_with(path, ".css") {
        let built = match framework_signal(path, content) {
            Some(name) => "Website using ".to_owned().concat(name),
            None => "Static website".to_owned(),
        };
        (Some("Website".to_owned()), Some(built))
    } else {
        match scan(&project_marker_table(), path, Some(content)) {
            Some(label) => (Some(label.to_owned()), None),
            None => (None, None),
        }
    }
}

} // verus!
