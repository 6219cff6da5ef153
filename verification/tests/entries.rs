use beancount_statements::amount::Amount;
use beancount_statements::beancount::{
    anomalies, render_entries, BeancountEntry, BeancountEntryLine,
};
use beancount_statements::date::Date;

fn amount(h: i64) -> Amount {
    Amount::from_hundredths(h).unwrap()
}

fn coffee() -> BeancountEntry {
    BeancountEntry::two_legs(
        Date::from_ymd(2024, 1, 1).unwrap(),
        "Coffee Shop",
        "Expenses:Coffee",
        amount(450),
        "Liabilities:CreditCard",
    )
}

#[test]
fn line_new_keeps_account_and_amount() {
    let booked = BeancountEntryLine::new("Assets:Banks:BCV", Some(amount(-1250)));
    assert_eq!(booked.account(), "Assets:Banks:BCV");
    assert_eq!(booked.amount(), Some(amount(-1250)));
    let open = BeancountEntryLine::new("Expenses:Coffee", None);
    assert_eq!(open.account(), "Expenses:Coffee");
    assert_eq!(open.amount(), None);
}

#[test]
fn line_is_written_with_amount_and_currency() {
    assert_eq!(
        BeancountEntryLine::new("Assets:Banks:BCV", Some(amount(-1250))).render(),
        "Assets:Banks:BCV -12.50 CHF"
    );
    assert_eq!(BeancountEntryLine::new("A", Some(amount(5))).render(), "A 0.05 CHF");
    assert_eq!(BeancountEntryLine::new("Expenses:Coffee", None).render(), "Expenses:Coffee");
    assert_eq!(BeancountEntryLine::new("", None).render(), "");
}

#[test]
fn two_legs_books_then_balances() {
    let entry = coffee();
    assert_eq!(entry.description, "Coffee Shop");
    assert_eq!(entry.date, Date::from_ymd(2024, 1, 1).unwrap());
    assert_eq!(
        entry.lines,
        vec![
            BeancountEntryLine::new("Expenses:Coffee", Some(amount(450))),
            BeancountEntryLine::new("Liabilities:CreditCard", None),
        ]
    );
    assert!(entry.is_well_formed());
}

#[test]
fn entry_is_written_line_by_line() {
    assert_eq!(
        coffee().render(),
        "2024-01-01 * \"Coffee Shop\"\n Expenses:Coffee 4.50 CHF\n Liabilities:CreditCard\n"
    );
}

#[test]
fn formatter_limitation() {
    let entry = BeancountEntry::two_legs(
        Date::from_ymd(2024, 1, 1).unwrap(),
        "The \"Best\" Café \\ Bar",
        "Expenses:Coffee",
        amount(450),
        "Liabilities:CreditCard",
    );
    let text = entry.render();
    assert_eq!(
        text,
        "2024-01-01 * \"The \"Best\" Café \\ Bar\"\n Expenses:Coffee 4.50 CHF\n Liabilities:CreditCard\n"
    );
    assert!(text.contains("\"The \"Best\" Café \\ Bar\"\n"));
}

#[test]
fn entry_without_legs_is_written_as_its_first_line() {
    let entry = BeancountEntry {
        description: "Nothing".to_string(),
        date: Date::from_ymd(2024, 5, 6).unwrap(),
        lines: Vec::new(),
    };
    assert_eq!(entry.render(), "2024-05-06 * \"Nothing\"\n");
    assert!(!entry.is_well_formed());
}

#[test]
fn is_well_formed_wants_one_balancing_leg() {
    let date = Date::from_ymd(2024, 5, 6).unwrap();
    let with = |lines: Vec<BeancountEntryLine>| BeancountEntry {
        description: String::new(),
        date,
        lines,
    };
    let booked = || BeancountEntryLine::new("A", Some(amount(1)));
    let open = || BeancountEntryLine::new("B", None);
    assert!(with(vec![booked(), open()]).is_well_formed());
    assert!(with(vec![open(), booked()]).is_well_formed());
    assert!(with(vec![open()]).is_well_formed());
    assert!(!with(vec![]).is_well_formed());
    assert!(!with(vec![booked()]).is_well_formed());
    assert!(!with(vec![booked(), booked()]).is_well_formed());
    assert!(!with(vec![open(), open()]).is_well_formed());
    assert!(!with(vec![booked(), booked(), open()]).is_well_formed());
}

#[test]
fn entries_are_joined_by_one_line_feed() {
    let second = BeancountEntry::two_legs(
        Date::from_ymd(2023, 12, 31).unwrap(),
        "Salary",
        "Assets:Banks:BCV",
        amount(500000),
        "Income:Salary",
    );
    assert_eq!(render_entries(&vec![]), "");
    assert_eq!(render_entries(&vec![coffee()]), coffee().render());
    assert_eq!(
        render_entries(&vec![coffee(), second]),
        "2024-01-01 * \"Coffee Shop\"\n Expenses:Coffee 4.50 CHF\n Liabilities:CreditCard\n\n2023-12-31 * \"Salary\"\n Assets:Banks:BCV 5000.00 CHF\n Income:Salary\n"
    );
}

#[test]
fn entries_are_written_in_the_order_given() {
    let early = BeancountEntry::two_legs(
        Date::from_ymd(2020, 1, 1).unwrap(),
        "early",
        "A",
        amount(1),
        "B",
    );
    let late = BeancountEntry::two_legs(
        Date::from_ymd(2030, 1, 1).unwrap(),
        "late",
        "A",
        amount(1),
        "B",
    );
    let text = render_entries(&vec![late.clone(), early.clone(), late.clone()]);
    assert_eq!(text, format!("{}\n{}\n{}", late.render(), early.render(), late.render()));
}

#[test]
fn anomalies_are_the_entries_that_are_not_sound() {
    let empty = || BeancountEntry {
        description: "Nothing".to_string(),
        date: Date::from_ymd(2024, 5, 6).unwrap(),
        lines: Vec::new(),
    };
    assert_eq!(anomalies(&vec![]), Vec::<usize>::new());
    assert_eq!(anomalies(&vec![coffee(), coffee()]), Vec::<usize>::new());
    assert_eq!(anomalies(&vec![empty()]), vec![0]);
    assert_eq!(anomalies(&vec![coffee(), empty(), coffee(), empty(), empty()]), vec![1, 3, 4]);
}
