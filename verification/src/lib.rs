//! Turns monthly statements of several institutions into ledger entries.
//!
//! A statement comes as text: a delimited table, or a document of pages.
//! Every format has its own reader, and all readers give the same thing: the
//! entries of the statement in the order of the statement, or the first
//! fault that keeps the statement from being read.

use crate::beancount::{BeancountEntry, EntryModel};
use crate::error::MalformedInput;
use crate::guessing::{AccountGuessing, Rule};
use crate::text::views;
use vstd::prelude::*;

pub mod amount;
pub mod bcv;
pub mod beancount;
pub mod cembra;
pub mod date;
pub mod digits;
pub mod error;
pub mod guessing;
pub mod revolut;
pub mod table;
pub mod text;

verus! {

/// `std::path::PathBuf`, the path of a file: a value of it is carried as it
/// is, and nothing is known of what it holds.
#[verifier::external_type_specification]
#[verifier::external_body]
pub struct ExPathBuf(std::path::PathBuf);

/// A reader of statements of one format.
pub trait BeancountParser {
    /// The entries that the text of a statement gives under the given rules.
    spec fn parsed(&self, raw: Seq<char>, rules: Seq<Rule>) -> Result<
        Seq<EntryModel>,
        MalformedInput,
    >;

    /// Parse statement into a list of Beancount entries
    fn parse(&self, raw: &str, account_guess: AccountGuessing) -> (r: Result<
        Vec<BeancountEntry>,
        MalformedInput,
    >)
        ensures
            match r {
                Ok(entries) => self.parsed(raw@, account_guess@) == Ok::<
                    Seq<EntryModel>,
                    MalformedInput,
                >(views(entries@)),
                Err(e) => self.parsed(raw@, account_guess@) == Err::<
                    Seq<EntryModel>,
                    MalformedInput,
                >(e),
            },
    ;
}

/// The formats of statements, each with what its reader needs to know.
pub enum Mode {
    Cembra(cembra::Flags),
    Bcv(bcv::Flags),
    Revolut(revolut::Flags),
}

impl BeancountParser for Mode {
    open spec fn parsed(&self, raw: Seq<char>, rules: Seq<Rule>) -> Result<
        Seq<EntryModel>,
        MalformedInput,
    > {
        match self {
            Mode::Cembra(x) => x.parsed(raw, rules),
            Mode::Bcv(x) => x.parsed(raw, rules),
            Mode::Revolut(x) => x.parsed(raw, rules),
        }
    }

    /// The entries of a statement, read by the reader of its format.
    fn parse(&self, raw: &str, account_guess: AccountGuessing) -> (r: Result<
        Vec<BeancountEntry>,
        MalformedInput,
    >)
        ensures
            match r {
                Ok(entries) => self.parsed(raw@, account_guess@) == Ok::<
                    Seq<EntryModel>,
                    MalformedInput,
                >(views(entries@)),
                Err(e) => self.parsed(raw@, account_guess@) == Err::<
                    Seq<EntryModel>,
                    MalformedInput,
                >(e),
            },
    {
        match self {
            Mode::Cembra(x) => x.parse(raw, account_guess),
            Mode::Bcv(x) => x.parse(raw, account_guess),
            Mode::Revolut(x) => x.parse(raw, account_guess),
        }
    }
}

impl Mode {
    /// The reader of the format: what reads a statement as the format wants.
    pub fn parser(self) -> (parser: impl BeancountParser)
        ensures
            forall|raw: Seq<char>, rules: Seq<Rule>|
                #![trigger parser.parsed(raw, rules)]
                parser.parsed(raw, rules) == self.parsed(raw, rules),
    {
        self
    }
}

} // verus!
