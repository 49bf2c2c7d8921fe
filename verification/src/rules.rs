//! The rule table that maps file paths to file types, and the lookup in it.

use vstd::prelude::*;
use crate::text::{ends_with_trimmed, strip_leading, views};

verus! {

/// One file type of the rule table: its name and the path patterns that belong to it.
/// A pattern is a path suffix, optionally written with leading `*` wildcard markers.
#[derive(Debug)]
pub struct TypeRule {
    pub name: String,
    pub patterns: Vec<String>,
}

/// A file type as a plain value.
pub struct TypeRuleView {
    pub name: Seq<char>,
    pub patterns: Seq<Seq<char>>,
}

impl View for TypeRule {
    type V = TypeRuleView;

    open spec fn view(&self) -> TypeRuleView {
        TypeRuleView { name: self.name@, patterns: views(self.patterns@) }
    }
}

/// The file types of every category, each category in the order of its document.
#[derive(Debug)]
pub struct FileTypes {
    pub programming_languages: Vec<TypeRule>,
    pub web_files: Vec<TypeRule>,
    pub config_files: Vec<TypeRule>,
    pub documentation: Vec<TypeRule>,
    pub images: Vec<TypeRule>,
    pub video: Vec<TypeRule>,
    pub audio: Vec<TypeRule>,
    pub archives: Vec<TypeRule>,
    pub fonts: Vec<TypeRule>,
    pub other: Vec<TypeRule>,
}

/// The rule table for file typing.
#[derive(Debug)]
pub struct FileMappings {
    pub file_types: FileTypes,
}

/// The plain values of a list of file types.
pub open spec fn rule_views(rules: Seq<TypeRule>) -> Seq<TypeRuleView> {
    rules.map_values(|r: TypeRule| r@)
}

impl FileTypes {
    /// The categories in the order in which they are searched.
    pub open spec fn categories(&self) -> Seq<Seq<TypeRuleView>> {
        seq![
            rule_views(self.programming_languages@),
            rule_views(self.web_files@),
            rule_views(self.config_files@),
            rule_views(self.documentation@),
            rule_views(self.images@),
            rule_views(self.video@),
            rule_views(self.audio@),
            rule_views(self.archives@),
            rule_views(self.fonts@),
            rule_views(self.other@),
        ]
    }
}

impl View for FileMappings {
    type V = Seq<TypeRuleView>;

    /// Every file type of the table, in order of precedence: category by category, and
    /// within a category in the order of the list.
    open spec fn view(&self) -> Seq<TypeRuleView> {
        self.file_types.categories().flatten()
    }
}

/// Whether `path` ends in `pattern`, the pattern taken without its wildcard markers.
pub open spec fn pattern_matches(pattern: Seq<char>, path: Seq<char>) -> bool {
    strip_leading(pattern, '*').is_suffix_of(path)
}

/// Whether one of the patterns of `rule` matches `path`.
pub open spec fn rule_matches(rule: TypeRuleView, path: Seq<char>) -> bool {
    exists|k: int| 0 <= k < rule.patterns.len() && pattern_matches(#[trigger] rule.patterns[k], path)
}

/// The name of the first of `rules` that matches `path`.
pub open spec fn first_rule(rules: Seq<TypeRuleView>, path: Seq<char>) -> Option<Seq<char>>
    decreases rules.len(),
{
    if rules.len() == 0 {
        None
    } else if rule_matches(rules[0], path) {
        Some(rules[0].name)
    } else {
        first_rule(rules.drop_first(), path)
    }
}

/// The file type of `path` under `rules`: the name of the first rule that matches, and
/// `"Unknown"` where none does.
pub open spec fn file_type(rules: Seq<TypeRuleView>, path: Seq<char>) -> Seq<char> {
    match first_rule(rules, path) {
        Some(name) => name,
        None => "Unknown"@,
    }
}

/// The first match in a list of rules followed by another is the first match in the
/// first list, and only where that has none the first match in the second.
pub proof fn lemma_first_rule_concat(a: Seq<TypeRuleView>, b: Seq<TypeRuleView>, path: Seq<char>)
    ensures
        first_rule(a + b, path) == match first_rule(a, path) {
            Some(name) => Some(name),
            None => first_rule(b, path),
        },
    decreases a.len(),
{
    if a.len() == 0 {
        assert(a + b == b);
    } else {
        assert((a + b)[0] == a[0]);
        assert((a + b).drop_first() == a.drop_first() + b);
        lemma_first_rule_concat(a.drop_first(), b, path);
    }
}

/// Tie-break: the first match is decided by position alone. If `first_rule` names a file
/// type, some rule with that name matches and no rule before it does; if it names none,
/// no rule matches.
pub proof fn lemma_first_rule_is_first(rules: Seq<TypeRuleView>, path: Seq<char>)
    ensures
        match first_rule(rules, path) {
            Some(name) => exists|i: int|
                0 <= i < rules.len() && #[trigger] rule_matches(rules[i], path) && rules[i].name
                    == name && forall|j: int| 0 <= j < i ==> !rule_matches(#[trigger] rules[j], path),
            None => forall|i: int| 0 <= i < rules.len() ==> !rule_matches(#[trigger] rules[i], path),
        },
    decreases rules.len(),
{
    if rules.len() == 0 {
    } else if rule_matches(rules[0], path) {
        assert(rule_matches(rules[0], path) && rules[0].name == rules[0].name);
    } else {
        let rest = rules.drop_first();
        lemma_first_rule_is_first(rest, path);
        assert(forall|k: int| 0 <= k < rest.len() ==> rest[k] == rules[k + 1]);
        match first_rule(rest, path) {
            Some(name) => {
                let i = choose|i: int|
                    0 <= i < rest.len() && #[trigger] rule_matches(rest[i], path) && rest[i].name
                        == name && forall|j: int| 0 <= j < i ==> !rule_matches(#[trigger] rest[j], path);
                assert(rules[i + 1] == rest[i]);
                assert forall|j: int| 0 <= j < i + 1 implies !rule_matches(#[trigger] rules[j], path) by {
                    if j > 0 {
                        assert(rules[j] == rest[j - 1]);
                    }
                }
                assert(rule_matches(rules[i + 1], path));
            },
            None => {
                assert forall|i: int| 0 <= i < rules.len() implies !rule_matches(#[trigger] rules[i], path) by {
                    if i > 0 {
                        assert(rules[i] == rest[i - 1]);
                    }
                }
            },
        }
    }
}

impl TypeRule {
    /// Whether one of the patterns of this file type matches `path`.
    pub fn matches(&self, path: &str) -> (hit: bool)
        ensures
            hit == rule_matches(self@, path@),
    {
        let mut k: usize = 0;
        while k < self.patterns.len()
            invariant
                k <= self.patterns.len(),
                forall|j: int| 0 <= j < k ==> !pattern_matches(#[trigger] self@.patterns[j], path@),
            decreases self.patterns.len() - k,
        {
            if ends_with_trimmed(path, self.patterns[k].as_str()) {
                assert(pattern_matches(self@.patterns[k as int], path@));
                return true;
            }
            k += 1;
        }
        false
    }
}

/// The name of the first file type of one category that matches `path`.
fn first_in_category<'a>(rules: &'a Vec<TypeRule>, path: &str) -> (found: Option<&'a String>)
    ensures
        match found {
            Some(name) => first_rule(rule_views(rules@), path@) == Some(name@),
            None => first_rule(rule_views(rules@), path@) is None,
        },
{
    let ghost all = rule_views(rules@);
    let mut i: usize = 0;
    assert(all.skip(0) == all);
    while i < rules.len()
        invariant
            i <= rules.len(),
            all == rule_views(rules@),
            first_rule(all, path@) == first_rule(all.skip(i as int), path@),
        decreases rules.len() - i,
    {
        proof {
            assert(all.skip(i as int)[0] == rules@[i as int]@);
            assert(all.skip(i as int).drop_first() == all.skip(i as int + 1));
        }
        if rules[i].matches(path) {
            return Some(&rules[i].name);
        }
        i += 1;
    }
    None
}

/// The file type of `path`: the name of the first file type of the table with a pattern
/// that `path` ends in, the categories searched in their fixed order, and `"Unknown"`
/// where no pattern matches.
pub fn detect_file_type(path: &str, mappings: &FileMappings) -> (name: String)
    ensures
        name@ == file_type(mappings@, path@),
{
    let types = &mappings.file_types;
    let categories: Vec<&Vec<TypeRule>> = vec![
        &types.programming_languages,
        &types.web_files,
        &types.config_files,
        &types.documentation,
        &types.images,
        &types.video,
        &types.audio,
        &types.archives,
        &types.fonts,
        &types.other,
    ];
    let ghost all = types.categories();
    assert(all.skip(0) == all);
    assert(forall|k: int| 0 <= k < 10 ==> rule_views(categories@[k]@) == all[k]);
    let mut c: usize = 0;
    while c < categories.len()
        invariant
            c <= categories.len() == all.len(),
            all == mappings.file_types.categories(),
            forall|k: int| 0 <= k < all.len() ==> rule_views(categories@[k]@) == all[k],
            first_rule(all.flatten(), path@) == first_rule(all.skip(c as int).flatten(), path@),
        decreases categories.len() - c,
    {
        proof {
            let rest = all.skip(c as int);
            assert(rest.drop_first() == all.skip(c as int + 1));
            assert(rest.first() == all[c as int]);
            assert(rest.flatten() == rest.first() + rest.drop_first().flatten());
            lemma_first_rule_concat(rest.first(), rest.drop_first().flatten(), path@);
        }
        match first_in_category(categories[c], path) {
            Some(name) => {
                return name.clone();
            },
            None => {},
        }
        c += 1;
    }
    assert(all.skip(c as int).flatten() == Seq::<TypeRuleView>::empty());
    "Unknown".to_owned()
}

} // verus!
