//! The overall project type, read off the project-type labels that the files gave.

use vstd::prelude::*;
use crate::text::{has_label, views};

verus! {

/// One row of the precedence list: the labels that must all be present, and the
/// description that their presence gives.
#[derive(Debug)]
pub struct Combination {
    pub required: Vec<&'static str>,
    pub description: &'static str,
}

/// The labels a row asks for, as plain values.
pub open spec fn label_views(labels: Seq<&'static str>) -> Seq<Seq<char>> {
    labels.map_values(|l: &'static str| l@)
}

impl View for Combination {
    type V = (Seq<Seq<char>>, Seq<char>);

    open spec fn view(&self) -> (Seq<Seq<char>>, Seq<char>) {
        (label_views(self.required@), self.description@)
    }
}

/// A precedence list as rows of (required labels, description).
pub open spec fn combination_rows(table: Seq<Combination>) -> Seq<(Seq<Seq<char>>, Seq<char>)> {
    table.map_values(|c: Combination| c@)
}

/// The precedence list. A website with a backend comes before the kinds that stand
/// alone; a static website is what is left when nothing else applies.
pub open spec fn combinations() -> Seq<(Seq<Seq<char>>, Seq<char>)> {
    seq![
        (seq!["Website"@, "Rust Backend"@], "Website with Rust Backend"@),
        (seq!["Website"@, "Python Backend"@], "Website with Python Backend"@),
        (seq!["Website"@, "C# Backend"@], "Website with .NET Backend"@),
        (seq!["Website"@, "Node.js Backend"@], "Website with Node.js Backend"@),
        (seq!["Website"@, "Java Backend"@], "Website with Java Backend"@),
        (seq!["Website"@, "Ruby Backend (Rails)"@], "Website with Ruby on Rails Backend"@),
        (seq!["Website"@, "Go Backend"@], "Website with Go Backend"@),
        (seq!["Website"@, "PHP Backend"@], "Website with PHP Backend"@),
        (seq!["Website"@, "Kotlin Backend"@], "Website with Kotlin Backend"@),
        (seq!["Website"@, "Scala Backend"@], "Website with Scala Backend"@),
        (seq!["Mobile App"@], "Mobile App"@),
        (seq!["Desktop App"@], "Desktop App"@),
        (seq!["CLI Tool"@], "CLI Tool"@),
        (seq!["Website"@, "Static website"@], "Static website"@),
    ]
}

/// Whether every label of `required` is among `detected`.
pub open spec fn satisfied(required: Seq<Seq<char>>, detected: Seq<Seq<char>>) -> bool {
    forall|k: int| 0 <= k < required.len() ==> detected.contains(#[trigger] required[k])
}

/// The description of the first row of `table` that `detected` satisfies.
pub open spec fn first_satisfied(
    table: Seq<(Seq<Seq<char>>, Seq<char>)>,
    detected: Seq<Seq<char>>,
) -> Option<Seq<char>>
    decreases table.len(),
{
    if table.len() == 0 {
        None
    } else if satisfied(table[0].0, detected) {
        Some(table[0].1)
    } else {
        first_satisfied(table.drop_first(), detected)
    }
}

/// The description of a project with the labels `detected`: that of the first
/// combination of the precedence list whose labels are all present, and
/// `"Unknown Project Type"` where there is none.
pub open spec fn combined_type(detected: Seq<Seq<char>>) -> Seq<char> {
    match first_satisfied(combinations(), detected) {
        Some(description) => description,
        None => "Unknown Project Type"@,
    }
}

/// The first satisfied row depends on which labels are present, not on their order or
/// on how often each occurs.
pub proof fn lemma_first_satisfied_by_membership(
    table: Seq<(Seq<Seq<char>>, Seq<char>)>,
    a: Seq<Seq<char>>,
    b: Seq<Seq<char>>,
)
    requires
        forall|label: Seq<char>| a.contains(label) <==> b.contains(label),
    ensures
        first_satisfied(table, a) == first_satisfied(table, b),
    decreases table.len(),
{
    if table.len() > 0 {
        assert(satisfied(table[0].0, a) == satisfied(table[0].0, b));
        lemma_first_satisfied_by_membership(table.drop_first(), a, b);
    }
}

/// Two label sequences that hold the same labels, in whatever order and however often,
/// are described alike.
pub proof fn lemma_combined_type_by_membership(a: Seq<Seq<char>>, b: Seq<Seq<char>>)
    requires
        forall|label: Seq<char>| a.contains(label) <==> b.contains(label),
    ensures
        combined_type(a) == combined_type(b),
{
    lemma_first_satisfied_by_membership(combinations(), a, b);
}

/// The row that asks for two labels.
fn pair(first: &'static str, second: &'static str, description: &'static str) -> (row: Combination)
    ensures
        row@ == (seq![first@, second@], description@),
{
    let row = Combination { required: vec![first, second], description };
    assert(label_views(row.required@) =~= seq![first@, second@]);
    row
}

/// The row that asks for one label.
fn single(label: &'static str, description: &'static str) -> (row: Combination)
    ensures
        row@ == (seq![label@], description@),
{
    let row = Combination { required: vec![label], description };
    assert(label_views(row.required@) =~= seq![label@]);
    row
}

/// The table of `combinations`.
fn combination_table() -> (table: Vec<Combination>)
    ensures
        combination_rows(table@) == combinations(),
{
    let table = vec![
        pair("Website", "Rust Backend", "Website with Rust Backend"),
        pair("Website", "Python Backend", "Website with Python Backend"),
        pair("Website", "C# Backend", "Website with .NET Backend"),
        pair("Website", "Node.js Backend", "Website with Node.js Backend"),
        pair("Website", "Java Backend", "Website with Java Backend"),
        pair("Website", "Ruby Backend (Rails)", "Website with Ruby on Rails Backend"),
        pair("Website", "Go Backend", "Website with Go Backend"),
        pair("Website", "PHP Backend", "Website with PHP Backend"),
        pair("Website", "Kotlin Backend", "Website with Kotlin Backend"),
        pair("Website", "Scala Backend", "Website with Scala Backend"),
        single("Mobile App", "Mobile App"),
        single("Desktop App", "Desktop App"),
        single("CLI Tool", "CLI Tool"),
        pair("Website", "Static website", "Static website"),
    ];
    assert(combination_rows(table@) =~= combinations());
    table
}

impl Combination {
    /// Whether every label this row asks for is among `detected`.
    pub fn is_satisfied(&self, detected: &[String]) -> (all: bool)
        ensures
            all == satisfied(self@.0, views(detected@)),
    {
        let mut k: usize = 0;
        while k < self.required.len()
            invariant
                k <= self.required.len(),
                forall|j: int| 0 <= j < k ==> views(detected@).contains(#[trigger] self@.0[j]),
            decreases self.required.len() - k,
        {
            if !has_label(detected, self.required[k]) {
                assert(!views(detected@).contains(self@.0[k as int]));
                return false;
            }
            k += 1;
        }
        true
    }
}

/// The description of a project whose files gave the labels `project_types`.
pub fn detect_combined_project_type(project_types: &[String]) -> (description: String)
    ensures
        description@ == combined_type(views(project_types@)),
{
    let table = combination_table();
    let ghost all = combination_rows(table@);
    let ghost detected = views(project_types@);
    let mut i: usize = 0;
    assert(all.skip(0) == all);
    while i < table.len()
        invariant
            i <= table.len(),
            all == combination_rows(table@),
            all == combinations(),
            detected == views(project_types@),
            first_satisfied(all, detected) == first_satisfied(all.skip(i as int), detected),
        decreases table.len() - i,
    {
        proof {
            assert(all.skip(i as int)[0] == table@[i as int]@);
            assert(all.skip(i as int).drop_first() == all.skip(i as int + 1));
        }
        if table[i].is_satisfied(project_types) {
            return table[i].description.to_owned();
        }
        i += 1;
    }
    "Unknown Project Type".to_owned()
}

} // verus!
