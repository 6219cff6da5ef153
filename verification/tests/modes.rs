use beancount_statements::beancount::render_entries;
use beancount_statements::error::MalformedInput;
use beancount_statements::guessing::AccountGuessing;
use beancount_statements::{bcv, cembra, revolut, BeancountParser, Mode};
use std::path::PathBuf;

fn mode_rules() -> AccountGuessing {
    AccountGuessing::load("coffee,Expenses:Coffee\n")
}

#[test]
fn mode_reads_with_the_reader_of_its_format() {
    let cembra = Mode::Cembra(cembra::Flags {
        pdf: PathBuf::from("s.pdf"),
        cc_account: "Liabilities:CreditCard".to_string(),
    });
    let raw = "<pdf2xml><page><text>01.01.2024</text><text>02.01.2024</text><text>Coffee Shop</text><text>4.50</text></page></pdf2xml>";
    assert_eq!(
        render_entries(&cembra.parse(raw, mode_rules()).unwrap()),
        "2024-01-01 * \"Coffee Shop\"\n Expenses:Coffee 4.50 CHF\n Liabilities:CreditCard\n"
    );
    let bcv = Mode::Bcv(bcv::Flags {
        xlsx: PathBuf::from("s.xlsx"),
        account: "Assets:Banks:BCV".to_string(),
    });
    let raw = "intro\n\"Date d'exécution\",x\n01.01.2024,Coffee Shop,4.50,,02.01.2024,\n";
    assert_eq!(
        render_entries(&bcv.parse(raw, mode_rules()).unwrap()),
        "2024-01-01 * \"Coffee Shop\"\n Assets:Banks:BCV -4.50 CHF\n Expenses:Coffee\n"
    );
    let revolut = Mode::Revolut(revolut::Flags {
        csv: PathBuf::from("s.csv"),
        account: "Assets:Banks:Revolut".to_string(),
    });
    let raw = "Type,Product,Started Date,Completed Date,Description,Amount,Fee,Currency,State,Balance\nCARD_PAYMENT,Current,2024-01-01 08:00:00,2024-01-02 08:00:00,Coffee Shop,-4.50,0,CHF,COMPLETED,1\n";
    assert_eq!(
        render_entries(&revolut.parse(raw, mode_rules()).unwrap()),
        "2024-01-01 * \"Coffee Shop\"\n Assets:Banks:Revolut -4.50 CHF\n Expenses:Coffee\n"
    );
}

#[test]
fn mode_hands_on_the_fault_of_its_reader() {
    let cembra = Mode::Cembra(cembra::Flags {
        pdf: PathBuf::from("s.pdf"),
        cc_account: "Liabilities:CreditCard".to_string(),
    });
    assert_eq!(cembra.parse("a,b\n1,2\n", mode_rules()), Err(MalformedInput::Document));
    let revolut = Mode::Revolut(revolut::Flags {
        csv: PathBuf::from("s.csv"),
        account: "Assets:Banks:Revolut".to_string(),
    });
    assert_eq!(revolut.parse("a,b\n1,2\n", mode_rules()), Err(MalformedInput::Header));
    assert_eq!(revolut.parse("a,b\n1\n", mode_rules()), Err(MalformedInput::Header));
}

#[test]
fn mode_parser_reads_as_the_mode_does() {
    let flags = || bcv::Flags {
        xlsx: PathBuf::from("s.xlsx"),
        account: "Assets:Banks:BCV".to_string(),
    };
    let raw = "intro\n\"Date d'exécution\",x\n01.01.2024,Coffee Shop,4.50,,02.01.2024,\n31.01.2024,Pay,,10,31.01.2024,\n";
    let by_parser = Mode::Bcv(flags()).parser().parse(raw, mode_rules());
    assert_eq!(by_parser, Mode::Bcv(flags()).parse(raw, mode_rules()));
    assert_eq!(by_parser.unwrap().len(), 2);
    let bad = Mode::Bcv(flags()).parser().parse("\"Date d'exécution\"\nx\n", mode_rules());
    assert_eq!(bad, Err(MalformedInput::Columns { row: 0 }));
}
