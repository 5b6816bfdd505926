//! Exclusion rules, and the filter a run builds from them once and asks
//! about every candidate path.

use crate::paths::{
    contains_char, covers, lemma_covers_transitive, lemma_prefix_transitive, path_covers,
    starts_with, to_chars,
};
use vstd::prelude::*;

verus! {

/// The character that makes a rule a glob pattern.
pub const WILDCARD: char = '*';

/// One entry of a run's exclusion list.
pub enum ExclusionRule {
    /// Excludes every path that this string is a prefix of.
    Literal(String),
    /// A glob pattern. It excludes what the paths it expands to cover;
    /// the expansion is made against the live filesystem.
    Glob(String),
}

/// The mathematical content of an [`ExclusionRule`].
pub enum RuleView {
    Literal(Seq<char>),
    Glob(Seq<char>),
}

impl View for ExclusionRule {
    type V = RuleView;

    open spec fn view(&self) -> RuleView {
        match self {
            ExclusionRule::Literal(prefix) => RuleView::Literal(prefix@),
            ExclusionRule::Glob(pattern) => RuleView::Glob(pattern@),
        }
    }
}

/// The rule that `text` stands for: a glob pattern where it holds a
/// wildcard, else a literal prefix.
pub open spec fn rule_of(text: Seq<char>) -> RuleView {
    if text.contains(WILDCARD) {
        RuleView::Glob(text)
    } else {
        RuleView::Literal(text)
    }
}

impl ExclusionRule {
    /// Reads one entry of an exclusion list.
    pub fn parse(text: &str) -> (rule: ExclusionRule)
        ensures
            rule@ == rule_of(text@),
    {
        if contains_char(text, WILDCARD) {
            ExclusionRule::Glob(text.to_owned())
        } else {
            ExclusionRule::Literal(text.to_owned())
        }
    }

    /// The pattern to expand, for a glob rule.
    pub fn glob_pattern(&self) -> (pattern: Option<&str>)
        ensures
            match self@ {
                RuleView::Literal(_) => pattern is None,
                RuleView::Glob(p) => pattern is Some && pattern->Some_0@ == p,
            },
    {
        match self {
            ExclusionRule::Literal(_) => None,
            ExclusionRule::Glob(pattern) => Some(pattern.as_str()),
        }
    }
}

/// A rule in the form in which candidates are held against it.
pub enum MatcherView {
    /// Excludes every path that this string is a prefix of.
    Literal(Seq<char>),
    /// The paths a glob pattern expanded to. Excludes each of them and
    /// everything below it.
    ExpandedGlobSet(Seq<Seq<char>>),
}

enum Matcher {
    Literal(Vec<char>),
    ExpandedGlobSet(Vec<Vec<char>>),
}

impl View for Matcher {
    type V = MatcherView;

    closed spec fn view(&self) -> MatcherView {
        match self {
            Matcher::Literal(prefix) => MatcherView::Literal(prefix@),
            Matcher::ExpandedGlobSet(paths) => MatcherView::ExpandedGlobSet(
                paths@.map_values(|p: Vec<char>| p@),
            ),
        }
    }
}

/// The matcher for `rule`, where `expansion` is what the pattern of a glob
/// rule expanded to. A literal rule has no use for an expansion.
pub open spec fn matcher_of(rule: RuleView, expansion: Seq<Seq<char>>) -> MatcherView {
    match rule {
        RuleView::Literal(prefix) => MatcherView::Literal(prefix),
        RuleView::Glob(_) => MatcherView::ExpandedGlobSet(expansion),
    }
}

/// The matchers for `rules`, where `expansions[i]` is what rule `i`
/// expanded to. A glob rule without an expansion matches nothing.
pub open spec fn matchers_of(rules: Seq<RuleView>, expansions: Seq<Seq<Seq<char>>>) -> Seq<
    MatcherView,
> {
    Seq::new(
        rules.len(),
        |i: int|
            matcher_of(
                rules[i],
                if i < expansions.len() {
                    expansions[i]
                } else {
                    Seq::empty()
                },
            ),
    )
}

/// Whether one of `paths` is `candidate` or lies above it.
pub open spec fn covered_by_any(paths: Seq<Seq<char>>, candidate: Seq<char>) -> bool {
    exists|i: int| 0 <= i < paths.len() && covers(#[trigger] paths[i], candidate)
}

/// Whether `matcher` excludes `candidate`.
pub open spec fn matcher_excludes(matcher: MatcherView, candidate: Seq<char>) -> bool {
    match matcher {
        MatcherView::Literal(prefix) => prefix.is_prefix_of(candidate),
        MatcherView::ExpandedGlobSet(paths) => covered_by_any(paths, candidate),
    }
}

/// Whether one of `matchers` excludes `candidate`.
pub open spec fn excluded(matchers: Seq<MatcherView>, candidate: Seq<char>) -> bool {
    exists|i: int| 0 <= i < matchers.len() && matcher_excludes(#[trigger] matchers[i], candidate)
}

/// The views of a list of strings.
pub open spec fn string_views(strings: Seq<String>) -> Seq<Seq<char>> {
    strings.map_values(|s: String| s@)
}

/// The views of a list of lists of strings.
pub open spec fn nested_string_views(lists: Seq<Vec<String>>) -> Seq<Seq<Seq<char>>> {
    lists.map_values(|l: Vec<String>| string_views(l@))
}

/// The views of a list of rules.
pub open spec fn rule_views(rules: Seq<ExclusionRule>) -> Seq<RuleView> {
    rules.map_values(|r: ExclusionRule| r@)
}

/// The exclusion rules of one run, with every glob pattern expanded.
pub struct PathFilter {
    matchers: Vec<Matcher>,
}

impl View for PathFilter {
    type V = Seq<MatcherView>;

    closed spec fn view(&self) -> Seq<MatcherView> {
        self.matchers@.map_values(|m: Matcher| m@)
    }
}

fn chars_of_all(strings: &Vec<String>) -> (all: Vec<Vec<char>>)
    ensures
        all@.map_values(|p: Vec<char>| p@) == string_views(strings@),
{
    let mut all: Vec<Vec<char>> = Vec::new();
    let mut i: usize = 0;
    while i < strings.len()
        invariant
            i <= strings.len(),
            all@.len() == i,
            forall|j: int| 0 <= j < i ==> (#[trigger] all@[j])@ == strings@[j]@,
        decreases strings.len() - i,
    {
        all.push(to_chars(strings[i].as_str()));
        i += 1;
    }
    all
}

impl PathFilter {
    /// The filter without rules, which excludes nothing.
    pub fn new() -> (filter: PathFilter)
        ensures
            filter@ == Seq::<MatcherView>::empty(),
    {
        PathFilter { matchers: Vec::new() }
    }

    /// Adds `rule`. For a glob rule, `expansion` holds the paths that its
    /// pattern matches at present.
    pub fn add_rule(&mut self, rule: &ExclusionRule, expansion: &Vec<String>)
        ensures
            final(self)@ == old(self)@.push(matcher_of(rule@, string_views(expansion@))),
    {
        let matcher = match rule {
            ExclusionRule::Literal(prefix) => Matcher::Literal(to_chars(prefix.as_str())),
            ExclusionRule::Glob(_) => Matcher::ExpandedGlobSet(chars_of_all(expansion)),
        };
        self.matchers.push(matcher);
    }

    /// The filter for `rules`, where `expansions[i]` holds the paths that
    /// rule `i` matches at present, if it is a glob rule. A glob rule
    /// without an expansion excludes nothing.
    pub fn build(rules: &Vec<ExclusionRule>, expansions: &Vec<Vec<String>>) -> (filter: PathFilter)
        ensures
            filter@ == matchers_of(rule_views(rules@), nested_string_views(expansions@)),
    {
        let mut filter = PathFilter::new();
        let none: Vec<String> = Vec::new();
        let mut i: usize = 0;
        while i < rules.len()
            invariant
                i <= rules.len(),
                none@.len() == 0,
                filter@ == matchers_of(
                    rule_views(rules@),
                    nested_string_views(expansions@),
                ).take(i as int),
            decreases rules.len() - i,
        {
            let expansion = if i < expansions.len() {
                &expansions[i]
            } else {
                &none
            };
            assert(string_views(expansion@) =~= if i < expansions.len() {
                nested_string_views(expansions@)[i as int]
            } else {
                Seq::empty()
            });
            filter.add_rule(&rules[i], expansion);
            assert(filter@ =~= matchers_of(
                rule_views(rules@),
                nested_string_views(expansions@),
            ).take(i + 1));
            i += 1;
        }
        filter
    }

    /// Whether a rule excludes `candidate`: a literal rule that is a
    /// prefix of it, or a glob rule with an expanded path that is
    /// `candidate` or lies above it.
    pub fn excludes(&self, candidate: &str) -> (result: bool)
        ensures
            result == excluded(self@, candidate@),
    {
        let path = to_chars(candidate);
        let mut i: usize = 0;
        while i < self.matchers.len()
            invariant
                i <= self.matchers.len(),
                path@ == candidate@,
                forall|j: int| 0 <= j < i ==> !matcher_excludes(#[trigger] self@[j], candidate@),
            decreases self.matchers.len() - i,
        {
            if Self::matches(&self.matchers[i], &path) {
                assert(matcher_excludes(self@[i as int], candidate@));
                return true;
            }
            i += 1;
        }
        false
    }

    fn matches(matcher: &Matcher, path: &Vec<char>) -> (result: bool)
        ensures
            result == matcher_excludes(matcher@, path@),
    {
        match matcher {
            Matcher::Literal(prefix) => starts_with(path, prefix),
            Matcher::ExpandedGlobSet(paths) => {
                let ghost views = paths@.map_values(|p: Vec<char>| p@);
                let mut j: usize = 0;
                while j < paths.len()
                    invariant
                        j <= paths.len(),
                        views == paths@.map_values(|p: Vec<char>| p@),
                        matcher@ == MatcherView::ExpandedGlobSet(views),
                        forall|k: int| 0 <= k < j ==> !covers(#[trigger] views[k], path@),
                    decreases paths.len() - j,
                {
                    if path_covers(&paths[j], path) {
                        assert(covers(views[j as int], path@));
                        return true;
                    }
                    j += 1;
                }
                false
            },
        }
    }
}

/// A filter that excludes a directory excludes everything below it.
pub proof fn lemma_exclusion_covers_subtree(
    matchers: Seq<MatcherView>,
    dir: Seq<char>,
    path: Seq<char>,
)
    requires
        excluded(matchers, dir),
        covers(dir, path),
    ensures
        excluded(matchers, path),
{
    let i = choose|i: int| 0 <= i < matchers.len() && matcher_excludes(#[trigger] matchers[i], dir);
    match matchers[i] {
        MatcherView::Literal(prefix) => {
            if dir != path {
                lemma_prefix_transitive(prefix, dir, path);
            }
        },
        MatcherView::ExpandedGlobSet(paths) => {
            let j = choose|j: int| 0 <= j < paths.len() && covers(#[trigger] paths[j], dir);
            lemma_covers_transitive(paths[j], dir, path);
        },
    }
}

/// Adding a rule never readmits a path: with the rule added, a path is
/// excluded exactly when it was excluded before or the new rule excludes
/// it.
pub proof fn lemma_more_rules_exclude_more(
    matchers: Seq<MatcherView>,
    extra: MatcherView,
    path: Seq<char>,
)
    ensures
        excluded(matchers.push(extra), path) <==> excluded(matchers, path) || matcher_excludes(
            extra,
            path,
        ),
{
    let more = matchers.push(extra);
    if excluded(matchers, path) {
        let i = choose|i: int|
            0 <= i < matchers.len() && matcher_excludes(#[trigger] matchers[i], path);
        assert(matcher_excludes(more[i], path));
    }
    if matcher_excludes(extra, path) {
        assert(matcher_excludes(more[matchers.len() as int], path));
    }
}

} // verus!
