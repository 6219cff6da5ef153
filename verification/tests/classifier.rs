use beancount_statements::guessing::{first_match, AccountGuessing};

fn table_of(rules: &[(&str, &str)]) -> AccountGuessing {
    AccountGuessing::new(rules.iter().map(|(p, a)| (p.to_string(), a.to_string())).collect())
}

#[test]
fn classifier_order_sensitivity() {
    let table = table_of(&[("amazon", "Expenses:Shopping"), ("am", "Expenses:Other")]);
    assert_eq!(table.from_merchant("I bought at amazon"), "Expenses:Shopping");
}

#[test]
fn classifier_order_sensitivity_the_other_way() {
    let table = table_of(&[("am", "Expenses:Other"), ("amazon", "Expenses:Shopping")]);
    assert_eq!(table.from_merchant("I bought at amazon"), "Expenses:Other");
}

#[test]
fn classifier_fallback() {
    let table = AccountGuessing::default();
    assert_eq!(table.len(), 0);
    for description in ["", "I bought at amazon", "Coffee Shop", "Liabilities:Unknown", "é\"\n"] {
        assert_eq!(table.from_merchant(description), "Liabilities:Unknown");
    }
    let loaded = AccountGuessing::load("");
    assert_eq!(loaded.len(), 0);
    assert_eq!(loaded.from_merchant("Coffee Shop"), "Liabilities:Unknown");
}

#[test]
fn classifier_falls_back_where_no_rule_matches() {
    let table = table_of(&[("amazon", "Expenses:Shopping"), ("migros", "Expenses:Food")]);
    assert_eq!(table.from_merchant("Coffee Shop"), "Liabilities:Unknown");
    assert_eq!(table.from_merchant(""), "Liabilities:Unknown");
}

#[test]
fn classifier_sets_letter_case_aside() {
    let table = table_of(&[("amazon", "Expenses:Shopping")]);
    assert_eq!(table.from_merchant("I BOUGHT AT AMAZON"), "Expenses:Shopping");
    assert_eq!(table.from_merchant("AmAzOn.de"), "Expenses:Shopping");
    let upper = table_of(&[("AMAZON", "Expenses:Shopping")]);
    assert_eq!(upper.from_merchant("i bought at amazon"), "Expenses:Shopping");
    let accents = table_of(&[("CAFÉ", "Expenses:Coffee")]);
    assert_eq!(accents.from_merchant("Le café du coin"), "Expenses:Coffee");
}

#[test]
fn classifier_empty_pattern_matches_everything() {
    let table = table_of(&[("", "Expenses:Any"), ("amazon", "Expenses:Shopping")]);
    assert_eq!(table.from_merchant("amazon"), "Expenses:Any");
    assert_eq!(table.from_merchant(""), "Expenses:Any");
}

#[test]
fn classifier_matches_inside_and_at_the_ends() {
    let table = table_of(&[("shop", "Expenses:Shopping")]);
    assert_eq!(table.from_merchant("shop"), "Expenses:Shopping");
    assert_eq!(table.from_merchant("shopping"), "Expenses:Shopping");
    assert_eq!(table.from_merchant("Coffee Shop"), "Expenses:Shopping");
    assert_eq!(table.from_merchant("bishops"), "Expenses:Shopping");
    assert_eq!(table.from_merchant("sho p"), "Liabilities:Unknown");
    assert_eq!(table.from_merchant("sho"), "Liabilities:Unknown");
}

#[test]
fn load_reads_one_rule_a_line() {
    let table = AccountGuessing::load("amazon,Expenses:Shopping\nam,Expenses:Other\n");
    assert_eq!(table.len(), 2);
    assert_eq!(table.from_merchant("I bought at amazon"), "Expenses:Shopping");
    assert_eq!(table.from_merchant("ham"), "Expenses:Other");
    assert_eq!(table.from_merchant("xyz"), "Liabilities:Unknown");
}

#[test]
fn load_trims_both_fields() {
    let table = AccountGuessing::load("  coffee shop \t,  Expenses:Coffee  \r\n");
    assert_eq!(table.len(), 1);
    assert_eq!(table.from_merchant("The Coffee Shop"), "Expenses:Coffee");
    assert_eq!(table.from_merchant("coffee  shop"), "Liabilities:Unknown");
}

#[test]
fn load_passes_over_lines_without_comma() {
    let table = AccountGuessing::load("# rules\n\nno separator here\nmigros,Expenses:Food\n\n");
    assert_eq!(table.len(), 1);
    assert_eq!(table.from_merchant("MIGROS LAUSANNE"), "Expenses:Food");
}

#[test]
fn load_splits_at_the_first_comma() {
    let table = AccountGuessing::load("a,b,c");
    assert_eq!(table.len(), 1);
    assert_eq!(table.from_merchant("xax"), "b,c");
}

#[test]
fn load_keeps_rules_with_empty_fields() {
    let table = AccountGuessing::load(",\n");
    assert_eq!(table.len(), 1);
    assert_eq!(table.from_merchant("anything"), "");
}

#[test]
fn load_reads_a_last_line_without_line_feed() {
    let table = AccountGuessing::load("a,X\r\nb,Y");
    assert_eq!(table.len(), 2);
    assert_eq!(table.from_merchant("b"), "Y");
}

#[test]
fn first_match_gives_the_first_index() {
    let text: Vec<char> = "i bought at amazon".chars().collect();
    let patterns: Vec<Vec<char>> =
        ["migros", "am", "amazon"].iter().map(|p| p.chars().collect()).collect();
    assert_eq!(first_match(&text, &patterns), Some(1));
    let none: Vec<Vec<char>> = ["migros", "coop"].iter().map(|p| p.chars().collect()).collect();
    assert_eq!(first_match(&text, &none), None);
    assert_eq!(first_match(&text, &Vec::new()), None);
}
