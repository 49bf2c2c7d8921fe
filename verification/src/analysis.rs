//! Classification of single files and the fold of the classifications into per-type
//! counts and the project-type labels that were detected.

use vstd::prelude::*;
use crate::combine::{combined_type, detect_combined_project_type, lemma_combined_type_by_membership};
use crate::rules::{detect_file_type, file_type, FileMappings, TypeRuleView};
use crate::signals::{
    detect_project_type_and_framework, framework_of, framework_signal, is_web_page,
    lemma_first_signal_is_a_label, lemma_markers_name_no_website, project_markers, project_signals,
    site_label,
};
use crate::tally::{count_in, TypeCounts};
use crate::text::{has_label, same_text, text_of, views};

verus! {

/// The text of a file whose content could be had.
#[derive(Debug)]
pub struct FileContent {
    pub path: String,
    pub text: String,
}

impl View for FileContent {
    type V = (Seq<char>, Seq<char>);

    open spec fn view(&self) -> (Seq<char>, Seq<char>) {
        (self.path@, self.text@)
    }
}

/// A list of files as pairs of (path, text).
pub open spec fn file_views(files: Seq<FileContent>) -> Seq<(Seq<char>, Seq<char>)> {
    files.map_values(|f: FileContent| f@)
}

/// What the rules say of one file.
#[derive(Debug)]
pub struct FileClassification {
    pub path: String,
    pub file_type: String,
    pub framework_signal: Option<String>,
    pub project_type_signal: Option<String>,
}

/// A classification as a plain value.
pub struct Classification {
    pub path: Seq<char>,
    pub file_type: Seq<char>,
    pub framework_signal: Option<Seq<char>>,
    pub project_type_signal: Option<Seq<char>>,
}

impl View for FileClassification {
    type V = Classification;

    open spec fn view(&self) -> Classification {
        Classification {
            path: self.path@,
            file_type: self.file_type@,
            framework_signal: text_of(self.framework_signal),
            project_type_signal: text_of(self.project_type_signal),
        }
    }
}

/// The classification of the file at `path` with the text `content` under `rules`. It is
/// a function of these three and of nothing else.
pub open spec fn classification(
    path: Seq<char>,
    content: Seq<char>,
    rules: Seq<TypeRuleView>,
) -> Classification {
    Classification {
        path,
        file_type: file_type(rules, path),
        framework_signal: framework_of(path, content),
        project_type_signal: project_signals(path, content).0,
    }
}

/// The classification rests on the path, the content and the rules and on nothing else:
/// two tables that hold the same rules in the same order classify every file alike, and
/// two classifications of one file under one table are the same.
pub proof fn lemma_classification_is_determined(
    first: FileMappings,
    second: FileMappings,
    path: Seq<char>,
    content: Seq<char>,
    a: FileClassification,
    b: FileClassification,
)
    requires
        first@ == second@,
        a@ == classification(path, content, first@),
        b@ == classification(path, content, second@),
    ensures
        a@ == b@,
{
}

/// The project-type labels that one classified file contributes: its project-type signal
/// and, for a website, the label that says how the site is built.
pub open spec fn labels_of(c: Classification) -> Seq<Seq<char>> {
    match c.project_type_signal {
        None => Seq::empty(),
        Some(kind) => if kind == "Website"@ {
            seq![kind, site_label(c.framework_signal)]
        } else {
            seq![kind]
        },
    }
}

/// The labels that a file contributes are the two signals that its path and content
/// give, as far as they are there.
pub proof fn lemma_labels_are_the_signals(path: Seq<char>, content: Seq<char>, rules: Seq<TypeRuleView>)
    ensures
        labels_of(classification(path, content, rules)) == match project_signals(path, content) {
            (Some(kind), Some(built)) => seq![kind, built],
            (Some(kind), None) => seq![kind],
            (None, _) => Seq::empty(),
        },
{
    if !is_web_page(path) {
        lemma_first_signal_is_a_label(project_markers(), path, Some(content));
        lemma_markers_name_no_website();
    }
}

/// `seen` with each of `labels` added at the end unless it is there already.
pub open spec fn add_new(seen: Seq<Seq<char>>, labels: Seq<Seq<char>>) -> Seq<Seq<char>>
    decreases labels.len(),
{
    if labels.len() == 0 {
        seen
    } else {
        let before = add_new(seen, labels.drop_last());
        if before.contains(labels.last()) {
            before
        } else {
            before.push(labels.last())
        }
    }
}

/// The labels of `labels`, each once, in the order of their first appearance.
pub open spec fn distinct(labels: Seq<Seq<char>>) -> Seq<Seq<char>> {
    add_new(Seq::empty(), labels)
}

/// How often `name` occurs in `names`.
pub open spec fn occurrences(names: Seq<Seq<char>>, name: Seq<char>) -> nat
    decreases names.len(),
{
    if names.len() == 0 {
        0
    } else {
        occurrences(names.drop_last(), name) + if names.last() == name {
            1nat
        } else {
            0nat
        }
    }
}

/// The counts of a list of file types: each type that occurs, with how often it occurs.
pub open spec fn tally(types: Seq<Seq<char>>) -> Map<Seq<char>, nat> {
    Map::new(|name: Seq<char>| types.contains(name), |name: Seq<char>| occurrences(types, name))
}

/// The file types of `files` under `rules`, file by file.
pub open spec fn types_of(files: Seq<(Seq<char>, Seq<char>)>, rules: Seq<TypeRuleView>) -> Seq<
    Seq<char>,
> {
    files.map_values(|f: (Seq<char>, Seq<char>)| file_type(rules, f.0))
}

/// The project-type labels that `files` contribute under `rules`, file by file.
pub open spec fn labels_of_files(
    files: Seq<(Seq<char>, Seq<char>)>,
    rules: Seq<TypeRuleView>,
) -> Seq<Seq<char>>
    decreases files.len(),
{
    if files.len() == 0 {
        Seq::empty()
    } else {
        labels_of_files(files.drop_last(), rules) + labels_of(
            classification(files.last().0, files.last().1, rules),
        )
    }
}

/// Adding new labels keeps what was seen, in its order, adds nothing but the labels, and
/// adds each of them unless it was there.
pub proof fn lemma_add_new_members(seen: Seq<Seq<char>>, labels: Seq<Seq<char>>)
    ensures
        seen.is_prefix_of(add_new(seen, labels)),
        forall|label: Seq<char>|
            add_new(seen, labels).contains(label) <==> seen.contains(label) || labels.contains(label),
        seen.no_duplicates() ==> add_new(seen, labels).no_duplicates(),
    decreases labels.len(),
{
    if labels.len() > 0 {
        let rest = labels.drop_last();
        let before = add_new(seen, rest);
        let after = add_new(seen, labels);
        lemma_add_new_members(seen, rest);
        assert forall|label: Seq<char>|
            after.contains(label) <==> seen.contains(label) || labels.contains(label) by {
            if labels.contains(label) {
                let k = choose|k: int| 0 <= k < labels.len() && labels[k] == label;
                if k < rest.len() {
                    assert(rest[k] == label);
                }
            }
            if rest.contains(label) {
                let k = choose|k: int| 0 <= k < rest.len() && rest[k] == label;
                assert(labels[k] == label);
            }
            assert(labels[labels.len() - 1] == labels.last());
            if !before.contains(labels.last()) {
                assert(after == before.push(labels.last()));
                if before.contains(label) {
                    let k = choose|k: int| 0 <= k < before.len() && before[k] == label;
                    assert(after[k] == label);
                }
                assert(after[before.len() as int] == labels.last());
            }
        }
    }
}

/// The detected labels hold each label once, and hold exactly the labels that the files
/// gave; so they combine to the same description as the labels as they came.
pub proof fn lemma_distinct_keeps_the_labels(labels: Seq<Seq<char>>)
    ensures
        distinct(labels).no_duplicates(),
        forall|label: Seq<char>| distinct(labels).contains(label) <==> labels.contains(label),
        combined_type(distinct(labels)) == combined_type(labels),
{
    lemma_add_new_members(Seq::empty(), labels);
    lemma_combined_type_by_membership(distinct(labels), labels);
}

/// Adding labels in two steps is adding them in one.
pub proof fn lemma_add_new_concat(seen: Seq<Seq<char>>, a: Seq<Seq<char>>, b: Seq<Seq<char>>)
    ensures
        add_new(add_new(seen, a), b) == add_new(seen, a + b),
    decreases b.len(),
{
    if b.len() == 0 {
        assert(a + b == a);
    } else {
        assert((a + b).drop_last() == a + b.drop_last());
        lemma_add_new_concat(seen, a, b.drop_last());
    }
}

/// Counting one more name raises its count by one and leaves the others.
pub proof fn lemma_tally_push(types: Seq<Seq<char>>, name: Seq<char>)
    ensures
        tally(types.push(name)) == tally(types).insert(name, count_in(tally(types), name) + 1),
{
    let more = types.push(name);
    assert(more.drop_last() == types);
    lemma_occurrences_absent(types, name);
    assert forall|other: Seq<char>| more.contains(other) <==> (types.contains(other) || other == name) by {
        if types.contains(other) {
            let k = choose|k: int| 0 <= k < types.len() && types[k] == other;
            assert(more[k] == other);
        }
        if other == name {
            assert(more[types.len() as int] == other);
        }
    }
    assert(tally(more) =~= tally(types).insert(name, count_in(tally(types), name) + 1));
}

/// A name that does not occur is counted zero times.
proof fn lemma_occurrences_absent(names: Seq<Seq<char>>, name: Seq<char>)
    ensures
        !names.contains(name) ==> occurrences(names, name) == 0,
    decreases names.len(),
{
    if names.len() > 0 {
        lemma_occurrences_absent(names.drop_last(), name);
        if !names.contains(name) {
            assert(names[names.len() - 1] != name);
            assert forall|k: int| 0 <= k < names.len() - 1 implies names.drop_last()[k] != name by {
                assert(names[k] == names.drop_last()[k]);
            }
        }
    }
}

/// The classification of one file.
pub fn classify(path: &str, content: &str, table: &FileMappings) -> (c: FileClassification)
    ensures
        c@ == classification(path@, content@, table@),
{
    let framework = match framework_signal(path, content) {
        Some(name) => Some(name.to_owned()),
        None => None,
    };
    let signals = detect_project_type_and_framework(path, content);
    FileClassification {
        path: path.to_owned(),
        file_type: detect_file_type(path, table),
        framework_signal: framework,
        project_type_signal: signals.0,
    }
}

impl FileClassification {
    /// The project-type labels that this file contributes.
    pub fn labels(&self) -> (labels: Vec<String>)
        ensures
            views(labels@) == labels_of(self@),
    {
        let mut labels: Vec<String> = Vec::new();
        match &self.project_type_signal {
            None => {
                assert(views(labels@) =~= labels_of(self@));
            },
            Some(kind) => {
                labels.push(kind.clone());
                if same_text(kind.as_str(), "Website") {
                    let built = match &self.framework_signal {
                        Some(name) => "Website using ".to_owned().concat(name.as_str()),
                        None => "Static website".to_owned(),
                    };
                    labels.push(built);
                }
                assert(views(labels@) =~= labels_of(self@));
            },
        }
        labels
    }
}

/// Adds each of `labels` to `detected` unless it is there already.
pub fn add_labels(detected: &mut Vec<String>, labels: &[String])
    ensures
        views(final(detected)@) == add_new(views(old(detected)@), views(labels@)),
{
    let ghost seen = views(detected@);
    let ghost all = views(labels@);
    let mut k: usize = 0;
    assert(all.take(0) == Seq::<Seq<char>>::empty());
    while k < labels.len()
        invariant
            k <= labels.len(),
            all == views(labels@),
            views(detected@) == add_new(seen, all.take(k as int)),
        decreases labels.len() - k,
    {
        proof {
            let next = all.take(k as int + 1);
            assert(next.drop_last() == all.take(k as int));
            assert(next.last() == labels@[k as int]@);
        }
        if !has_label(detected.as_slice(), labels[k].as_str()) {
            let ghost before = views(detected@);
            detected.push(labels[k].clone());
            assert(views(detected@) =~= before.push(labels@[k as int]@));
        }
        k += 1;
    }
    assert(all.take(k as int) == all);
}

/// The per-type counts and the detected project-type labels of `files`: every file is
/// counted once under its file type, and the labels stand in the order in which they
/// were first met.
pub fn analyze_files(files: &[FileContent], mappings: &FileMappings) -> (found: (
    TypeCounts,
    Vec<String>,
))
    ensures
        found.0@ == tally(types_of(file_views(files@), mappings@)),
        found.0.total() == files@.len(),
        views(found.1@) == distinct(labels_of_files(file_views(files@), mappings@)),
{
    let ghost all = file_views(files@);
    let ghost rules = mappings@;
    let mut counts = TypeCounts::new();
    let mut detected: Vec<String> = Vec::new();
    let mut i: usize = 0;
    proof {
        assert(all.take(0) == Seq::<(Seq<char>, Seq<char>)>::empty());
        assert(types_of(all.take(0), rules) =~= Seq::<Seq<char>>::empty());
        assert(tally(Seq::<Seq<char>>::empty()) =~= Map::<Seq<char>, nat>::empty());
        assert(views(detected@) =~= Seq::<Seq<char>>::empty());
    }
    while i < files.len()
        invariant
            i <= files.len(),
            all == file_views(files@),
            rules == mappings@,
            counts@ == tally(types_of(all.take(i as int), rules)),
            counts.total() == i,
            views(detected@) == distinct(labels_of_files(all.take(i as int), rules)),
        decreases files.len() - i,
    {
        let file = &files[i];
        let c = classify(file.path.as_str(), file.text.as_str(), mappings);
        let labels = c.labels();
        proof {
            let done = all.take(i as int);
            let next = all.take(i as int + 1);
            assert(next.drop_last() == done);
            assert(next.last() == file@);
            assert(types_of(next, rules) =~= types_of(done, rules).push(c@.file_type));
            lemma_tally_push(types_of(done, rules), c@.file_type);
            lemma_add_new_concat(Seq::empty(), labels_of_files(done, rules), labels_of(c@));
        }
        add_labels(&mut detected, labels.as_slice());
        counts = counts.record(c.file_type);
        i += 1;
    }
    assert(all.take(i as int) == all);
    (counts, detected)
}

/// What the files of a repository add up to.
#[derive(Debug)]
pub struct AggregateReport {
    pub per_type_counts: TypeCounts,
    pub detected_project_types: Vec<String>,
    pub combined_project_type: String,
}

/// The report on `files`: the per-type counts, the detected project-type labels, and the
/// description that the labels combine to.
pub fn aggregate(files: &[FileContent], mappings: &FileMappings) -> (report: AggregateReport)
    ensures
        report.per_type_counts@ == tally(types_of(file_views(files@), mappings@)),
        report.per_type_counts.total() == files@.len(),
        views(report.detected_project_types@) == distinct(
            labels_of_files(file_views(files@), mappings@),
        ),
        report.combined_project_type@ == combined_type(views(report.detected_project_types@)),
{
    let (counts, detected) = analyze_files(files, mappings);
    let combined = detect_combined_project_type(detected.as_slice());
    AggregateReport {
        per_type_counts: counts,
        detected_project_types: detected,
        combined_project_type: combined,
    }
}

} // verus!
