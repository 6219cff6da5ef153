//! Guessing the account of a transaction from its description, by an
//! ordered table of rules: a rule names a pattern and an account, and the
//! first rule whose pattern the description contains decides.

use crate::text::{
    chars_of, contains, is_part_of, lines, lowercase, lowercased, split_at_first, split_lines,
    split_once, string_of, trim, trimmed, views,
};
use vstd::prelude::*;
use vstd::string::StringExecFns;

verus! {

/// A rule as a pair of texts: the pattern, then the account.
pub type Rule = (Seq<char>, Seq<char>);

/// The account of a description that no rule matches.
pub open spec fn unknown_account() -> Seq<char> {
    "Liabilities:Unknown"@
}

/// The description contains the pattern of the rule, both taken in lower case.
pub open spec fn rule_matches(rule: Rule, description: Seq<char>) -> bool {
    contains(lowercased(description), lowercased(rule.0))
}

/// The account of the first rule at or after index `from` that matches the
/// description; the unknown account if there is none.
pub open spec fn classify_from(rules: Seq<Rule>, description: Seq<char>, from: int) -> Seq<char>
    decreases rules.len() - from,
{
    if from < 0 || from >= rules.len() {
        unknown_account()
    } else if rule_matches(rules[from], description) {
        rules[from].1
    } else {
        classify_from(rules, description, from + 1)
    }
}

/// The account that a table gives to a description.
pub open spec fn classify(rules: Seq<Rule>, description: Seq<char>) -> Seq<char> {
    classify_from(rules, description, 0)
}

/// The rule that a line of a rule file writes: what stands before its first
/// comma and what stands after it, each without the white space at its ends.
/// A line without a comma writes no rule.
pub open spec fn rule_of(line: Seq<char>) -> Option<Rule> {
    match split_once(line, ',') {
        Some((pattern, account)) => Some((trim(pattern), trim(account))),
        None => None,
    }
}

/// The rules that the given lines write, in the order of the lines.
pub open spec fn rules_of(lines: Seq<Seq<char>>) -> Seq<Rule>
    decreases lines.len(),
{
    if lines.len() == 0 {
        Seq::empty()
    } else {
        let before = rules_of(lines.drop_last());
        match rule_of(lines.last()) {
            Some(rule) => before.push(rule),
            None => before,
        }
    }
}

/// The table that the text of a rule file writes.
pub open spec fn parse_rules(text: Seq<char>) -> Seq<Rule> {
    rules_of(lines(text))
}

/// The rules that pairs of strings hold.
pub open spec fn rule_views(rules: Seq<(String, String)>) -> Seq<Rule> {
    rules.map_values(|rule: (String, String)| (rule.0@, rule.1@))
}

/// A table without rules gives every description the unknown account.
pub proof fn empty_table_is_unknown(description: Seq<char>)
    ensures
        classify(Seq::empty(), description) == unknown_account(),
{
}

/// Where no rule before index `at` matches, the search may start at `at`.
pub proof fn classify_skips_non_matching(rules: Seq<Rule>, description: Seq<char>, at: int)
    requires
        0 <= at <= rules.len(),
        forall|j: int| 0 <= j < at ==> !rule_matches(#[trigger] rules[j], description),
    ensures
        classify(rules, description) == classify_from(rules, description, at),
    decreases at,
{
    if at > 0 {
        classify_skips_non_matching(rules, description, at - 1);
    }
}

/// The first rule that matches decides, whatever rules follow it.
pub proof fn first_match_wins(rules: Seq<Rule>, description: Seq<char>, at: int)
    requires
        0 <= at < rules.len(),
        rule_matches(rules[at], description),
        forall|j: int| 0 <= j < at ==> !rule_matches(#[trigger] rules[j], description),
    ensures
        classify(rules, description) == rules[at].1,
{
    classify_skips_non_matching(rules, description, at);
}

/// Where no rule matches, the account is the unknown account.
pub proof fn no_match_is_unknown(rules: Seq<Rule>, description: Seq<char>)
    requires
        forall|j: int| 0 <= j < rules.len() ==> !rule_matches(#[trigger] rules[j], description),
    ensures
        classify(rules, description) == unknown_account(),
{
    classify_skips_non_matching(rules, description, rules.len() as int);
}

/// Index of the first of `patterns` that is a part of `text`.
pub fn first_match(text: &Vec<char>, patterns: &Vec<Vec<char>>) -> (r: Option<usize>)
    ensures
        match r {
            Some(at) => {
                &&& at < patterns.len()
                &&& contains(text@, patterns[at as int]@)
                &&& forall|j: int| 0 <= j < at ==> !contains(text@, #[trigger] patterns[j]@)
            },
            None => forall|j: int|
                0 <= j < patterns.len() ==> !contains(text@, #[trigger] patterns[j]@),
        },
{
    let mut at: usize = 0;
    while at < patterns.len()
        invariant
            at <= patterns.len(),
            forall|j: int| 0 <= j < at ==> !contains(text@, #[trigger] patterns[j]@),
        decreases patterns.len() - at,
    {
        if is_part_of(&patterns[at], text) {
            return Some(at);
        }
        at += 1;
    }
    None
}

/// An ordered table of rules.
#[derive(Clone, Debug)]
pub struct AccountGuessing(Vec<(String, String)>);

impl View for AccountGuessing {
    type V = Seq<Rule>;

    closed spec fn view(&self) -> Seq<Rule> {
        rule_views(self.0@)
    }
}

impl Default for AccountGuessing {
    /// The table without rules.
    fn default() -> (table: Self)
        ensures
            table@ == Seq::<Rule>::empty(),
    {
        let table = AccountGuessing(Vec::new());
        assert(table@ =~= Seq::<Rule>::empty());
        table
    }
}

impl AccountGuessing {
    /// The table of the given rules, each a pattern and an account.
    pub fn new(rules: Vec<(String, String)>) -> (table: Self)
        ensures
            table@ == rule_views(rules@),
    {
        AccountGuessing(rules)
    }

    /// Number of rules.
    pub fn len(&self) -> (n: usize)
        ensures
            n == self@.len(),
    {
        self.0.len()
    }

    /// Reads a table from the text of a rule file: one rule a line, the
    /// pattern before the first comma and the account after it. Lines without
    /// a comma are passed over.
    pub fn load(data: &str) -> (table: Self)
        ensures
            table@ == parse_rules(data@),
    {
        let chars = chars_of(data);
        let all_lines = split_lines(&chars);
        let mut rules: Vec<(String, String)> = Vec::new();
        let mut i: usize = 0;
        assert(views(all_lines@).subrange(0, 0) =~= Seq::<Seq<char>>::empty());
        assert(rule_views(rules@) =~= Seq::<Rule>::empty());
        while i < all_lines.len()
            invariant
                i <= all_lines.len(),
                rule_views(rules@) == rules_of(views(all_lines@).subrange(0, i as int)),
            decreases all_lines.len() - i,
        {
            let ghost upto = views(all_lines@).subrange(0, i + 1);
            assert(upto.drop_last() =~= views(all_lines@).subrange(0, i as int));
            assert(upto.last() == all_lines[i as int]@);
            let ghost before = rules@;
            match split_at_first(&all_lines[i], ',') {
                Some((pattern, account)) => {
                    let rule = (
                        string_of(trimmed(&pattern).as_slice()),
                        string_of(trimmed(&account).as_slice()),
                    );
                    rules.push(rule);
                    assert(rule_views(rules@) =~= rule_views(before).push((rule.0@, rule.1@)));
                },
                None => {},
            }
            i += 1;
        }
        assert(views(all_lines@).subrange(0, i as int) =~= views(all_lines@));
        AccountGuessing(rules)
    }

    /// The account of a description: that of the first rule whose pattern the
    /// description contains, letter case set aside; the unknown account if
    /// there is no such rule.
    #[allow(clippy::wrong_self_convention)]
    pub fn from_merchant(&self, description: &str) -> (account: String)
        ensures
            account@ == classify(self@, description@),
    {
        let text = chars_of(lowercase(description).as_str());
        let mut patterns: Vec<Vec<char>> = Vec::new();
        let mut i: usize = 0;
        while i < self.0.len()
            invariant
                i <= self.0.len(),
                patterns.len() == i,
                forall|j: int|
                    0 <= j < i ==> (#[trigger] patterns[j])@ == lowercased(self.0[j].0@),
            decreases self.0.len() - i,
        {
            patterns.push(chars_of(lowercase(self.0[i].0.as_str()).as_str()));
            i += 1;
        }
        proof {
            assert forall|j: int| 0 <= j < self@.len() implies rule_matches(
                #[trigger] self@[j],
                description@,
            ) == contains(text@, patterns[j]@) by {
                assert(self@[j].0 == self.0[j].0@);
            }
        }
        match first_match(&text, &patterns) {
            Some(at) => {
                proof {
                    first_match_wins(self@, description@, at as int);
                }
                self.0[at].1.clone()
            },
            None => {
                proof {
                    no_match_is_unknown(self@, description@);
                }
                String::from_str("Liabilities:Unknown")
            },
        }
    }
}

} // verus!
