//! Monthly statements of BCV: a delimited table behind a preamble. The
//! columns are the execution date, the description, the debit, the credit,
//! the value date and the balance.

use crate::amount::{amount_view, optional_amount, parse_optional_amount, Amount};
use crate::beancount::{well_formed, BeancountEntry, EntryModel, LineModel};
use crate::date::{dmy_date, Date, Ymd};
use crate::error::MalformedInput;
use crate::BeancountParser;
use crate::guessing::{classify, AccountGuessing, Rule};
use crate::table::{csv_table, read_table, table_view, Table};
use crate::text::{
    chars_of, has_prefix, join, join_all, lines, split_lines, starts_with, string_of, views,
    views_push,
};
use std::path::PathBuf;
use vstd::prelude::*;

verus! {

/// The start of the line that names the columns. The table begins on the
/// line after it.
pub open spec fn header_marker() -> Seq<char> {
    "\"Date d'exécution"@
}

/// Index of the first line at or after `from` that begins with the header
/// marker; the number of lines if there is none.
pub open spec fn header_index(lines: Seq<Seq<char>>, from: int) -> int
    decreases lines.len() - from,
{
    if from < 0 || from >= lines.len() {
        lines.len() as int
    } else if starts_with(lines[from], header_marker()) {
        from
    } else {
        header_index(lines, from + 1)
    }
}

/// The lines after the first line that begins with the header marker; no
/// lines if no line begins with it.
pub open spec fn after_header(lines: Seq<Seq<char>>) -> Seq<Seq<char>> {
    let at = header_index(lines, 0);
    if at < lines.len() {
        lines.subrange(at + 1, lines.len() as int)
    } else {
        Seq::empty()
    }
}

/// The text of the table of a statement: the lines after the header line,
/// a line feed between each two neighbours.
pub open spec fn table_text(raw: Seq<char>) -> Seq<char> {
    join(after_header(lines(raw)), "\n"@)
}

/// A row of the table.
pub struct RowModel {
    pub execution_date: Ymd,
    pub description: Seq<char>,
    pub debit: Option<int>,
    pub credit: Option<int>,
    pub value_date: Ymd,
    pub balance: Option<int>,
}

/// The field of the balance: the sixth, or an empty one where the record
/// ends before it.
pub open spec fn balance_field(fields: Seq<Seq<char>>) -> Seq<char> {
    if fields.len() > 5 {
        fields[5]
    } else {
        Seq::empty()
    }
}

/// The row that the record of index `index` writes, in a table whose records
/// have `width` fields. The record needs its first five fields, and fields
/// after the sixth do not count. Both dates are written as day, point, month,
/// point, year. The debit, the credit and the balance may be empty.
pub open spec fn row_of(fields: Seq<Seq<char>>, width: nat, index: usize) -> Result<
    RowModel,
    MalformedInput,
> {
    if fields.len() != width || fields.len() < 5 {
        Err(MalformedInput::Columns { row: index })
    } else {
        match (dmy_date(fields[0]), dmy_date(fields[4])) {
            (Some(execution_date), Some(value_date)) => match (
                optional_amount(fields[2]),
                optional_amount(fields[3]),
                optional_amount(balance_field(fields)),
            ) {
                (Some(debit), Some(credit), Some(balance)) => Ok(
                    RowModel {
                        execution_date,
                        description: fields[1],
                        debit,
                        credit,
                        value_date,
                        balance,
                    },
                ),
                _ => Err(MalformedInput::Number { row: index }),
            },
            _ => Err(MalformedInput::Date { row: index }),
        }
    }
}

/// The legs of the entry of a row. A debit leaves the account of the
/// statement, a credit enters it, and the balancing leg goes to `counter`. A
/// row with a debit is booked as a debit, whatever its credit. A row with
/// neither has no legs.
pub open spec fn row_lines(row: RowModel, account: Seq<char>, counter: Seq<char>) -> Seq<
    LineModel,
> {
    match row.debit {
        Some(debit) => seq![
            LineModel { account, amount: Some(-debit) },
            LineModel { account: counter, amount: None },
        ],
        None => match row.credit {
            Some(credit) => seq![
                LineModel { account, amount: Some(credit) },
                LineModel { account: counter, amount: None },
            ],
            None => Seq::empty(),
        },
    }
}

/// The entry of a row: dated by the execution date, described as the row is.
pub open spec fn row_entry(row: RowModel, account: Seq<char>, counter: Seq<char>) -> EntryModel {
    EntryModel {
        description: row.description,
        date: row.execution_date,
        lines: row_lines(row, account, counter),
    }
}

/// The entries of the given records of a table whose records have `width`
/// fields, in the order of the records, each balanced against the account
/// that the rules give to its description. The first record that cannot be
/// read makes the whole table an error.
pub open spec fn rows_entries(rows: Table, width: nat, account: Seq<char>, rules: Seq<Rule>)
    -> Result<Seq<EntryModel>, MalformedInput>
    decreases rows.len(),
{
    if rows.len() == 0 {
        Ok(Seq::empty())
    } else {
        match rows_entries(rows.drop_last(), width, account, rules) {
            Err(e) => Err(e),
            Ok(before) => match row_of(rows.last(), width, (rows.len() - 1) as usize) {
                Err(e) => Err(e),
                Ok(row) => Ok(
                    before.push(row_entry(row, account, classify(rules, row.description))),
                ),
            },
        }
    }
}

/// The entries of a table. All its records have to have as many fields as
/// the first.
pub open spec fn table_entries(rows: Table, account: Seq<char>, rules: Seq<Rule>) -> Result<
    Seq<EntryModel>,
    MalformedInput,
> {
    if rows.len() == 0 {
        Ok(Seq::empty())
    } else {
        rows_entries(rows, rows[0].len(), account, rules)
    }
}

/// The entries of a statement given as text.
pub open spec fn statement_entries(raw: Seq<char>, account: Seq<char>, rules: Seq<Rule>) -> Result<
    Seq<EntryModel>,
    MalformedInput,
> {
    match csv_table(table_text(raw)) {
        Some(rows) => table_entries(rows, account, rules),
        None => Err(MalformedInput::Table),
    }
}

/// An entry made of a row has the legs of a sound entry, or none at all; it
/// has none exactly where the row has neither debit nor credit.
pub proof fn row_entry_is_sound_or_empty(row: RowModel, account: Seq<char>, counter: Seq<char>)
    ensures
        row.debit is Some || row.credit is Some ==> well_formed(
            row_entry(row, account, counter).lines,
        ),
        row.debit is None && row.credit is None ==> row_entry(row, account, counter).lines.len()
            == 0,
{
    if row.debit is Some || row.credit is Some {
        let lines = row_entry(row, account, counter).lines;
        crate::beancount::booked_then_balancing_is_well_formed(lines[0], lines[1]);
        assert(lines =~= seq![lines[0], lines[1]]);
    }
}

/// Records that can be read give one entry each, and each entry has the
/// legs of a sound entry or none at all.
pub proof fn rows_give_one_entry_each(
    rows: Table,
    width: nat,
    account: Seq<char>,
    rules: Seq<Rule>,
)
    requires
        rows_entries(rows, width, account, rules) is Ok,
    ensures
        rows_entries(rows, width, account, rules)->Ok_0.len() == rows.len(),
        forall|i: int|
            0 <= i < rows.len() ==> {
                let lines = (#[trigger] rows_entries(rows, width, account, rules)->Ok_0[i]).lines;
                well_formed(lines) || lines.len() == 0
            },
    decreases rows.len(),
{
    if rows.len() > 0 {
        rows_give_one_entry_each(rows.drop_last(), width, account, rules);
        let row = row_of(rows.last(), width, (rows.len() - 1) as usize)->Ok_0;
        row_entry_is_sound_or_empty(row, account, classify(rules, row.description));
    }
}

/// A row of the table.
#[derive(Clone, Debug, PartialEq, Eq)]
pub struct Row {
    pub execution_date: Date,
    pub description: String,
    pub debit: Option<Amount>,
    pub credit: Option<Amount>,
    pub value_date: Date,
    pub solde: Option<Amount>,
}

impl View for Row {
    type V = RowModel;

    open spec fn view(&self) -> RowModel {
        RowModel {
            execution_date: self.execution_date@,
            description: self.description@,
            debit: amount_view(self.debit),
            credit: amount_view(self.credit),
            value_date: self.value_date@,
            balance: amount_view(self.solde),
        }
    }
}

impl Row {
    /// Reads the record of index `index`, in a table whose records have
    /// `width` fields.
    pub fn from_fields(fields: &Vec<String>, width: usize, index: usize) -> (r: Result<
        Row,
        MalformedInput,
    >)
        ensures
            match r {
                Ok(row) => row_of(views(fields@), width as nat, index) == Ok::<
                    RowModel,
                    MalformedInput,
                >(row@),
                Err(e) => row_of(views(fields@), width as nat, index) == Err::<
                    RowModel,
                    MalformedInput,
                >(e),
            },
    {
        if fields.len() != width || fields.len() < 5 {
            return Err(MalformedInput::Columns { row: index });
        }
        let ghost texts = views(fields@);
        assert(forall|k: int| 0 <= k < fields.len() ==> texts[k] == (#[trigger] fields[k])@);
        let execution_date = Date::parse_dmy(fields[0].as_str());
        let value_date = Date::parse_dmy(fields[4].as_str());
        let (execution_date, value_date) = match (execution_date, value_date) {
            (Some(execution_date), Some(value_date)) => (execution_date, value_date),
            _ => { return Err(MalformedInput::Date { row: index }); },
        };
        let debit = parse_optional_amount(fields[2].as_str());
        let credit = parse_optional_amount(fields[3].as_str());
        let solde = if fields.len() > 5 {
            parse_optional_amount(fields[5].as_str())
        } else {
            Ok(None)
        };
        match (debit, credit, solde) {
            (Ok(debit), Ok(credit), Ok(solde)) => Ok(
                Row {
                    execution_date,
                    description: fields[1].clone(),
                    debit,
                    credit,
                    value_date,
                    solde,
                },
            ),
            _ => Err(MalformedInput::Number { row: index }),
        }
    }

    /// The entry of the row, on the account `account` of the statement and
    /// balanced against `counter`.
    pub fn entry(&self, account: &str, counter: &str) -> (entry: BeancountEntry)
        ensures
            entry@ == row_entry(self@, account@, counter@),
    {
        let booked: Option<Amount> = match self.debit {
            Some(debit) => Some(debit.negated()),
            None => self.credit,
        };
        match booked {
            Some(amount) => BeancountEntry::two_legs(
                self.execution_date,
                self.description.as_str(),
                account,
                amount,
                counter,
            ),
            None => {
                let entry = BeancountEntry {
                    description: self.description.clone(),
                    date: self.execution_date,
                    lines: Vec::new(),
                };
                assert(entry@.lines =~= Seq::<LineModel>::empty());
                entry
            },
        }
    }
}

/// Where to find a statement, and the account that it is a statement of.
pub struct Flags {
    pub xlsx: PathBuf,
    pub account: String,
}

/// The lines of a statement after its header line, joined by line feeds.
pub fn strip_preamble(raw: &str) -> (table: String)
    ensures
        table@ == table_text(raw@),
{
    let chars = chars_of(raw);
    let all_lines = split_lines(&chars);
    let marker = chars_of("\"Date d'exécution");
    let mut at: usize = 0;
    while at < all_lines.len() && !has_prefix(&all_lines[at], &marker)
        invariant
            at <= all_lines.len(),
            marker@ == header_marker(),
            header_index(views(all_lines@), 0) == header_index(views(all_lines@), at as int),
        decreases all_lines.len() - at,
    {
        at += 1;
    }
    let mut rest: Vec<String> = Vec::new();
    if at < all_lines.len() {
        let mut i: usize = at + 1;
        while i < all_lines.len()
            invariant
                at < i <= all_lines.len(),
                views(rest@) == views(all_lines@).subrange(at + 1, i as int),
            decreases all_lines.len() - i,
        {
            let ghost before = rest@;
            rest.push(string_of(all_lines[i].as_slice()));
            proof {
                views_push(before, rest@.last());
            }
            i += 1;
            assert(views(rest@) =~= views(all_lines@).subrange(at + 1, i as int));
        }
    }
    assert(views(rest@) =~= after_header(lines(raw@)));
    join_all(&rest, "\n")
}

impl Flags {
    /// The entries of the records of the table of a statement.
    pub fn entries(&self, rows: &Vec<Vec<String>>, account_guess: &AccountGuessing) -> (r: Result<
        Vec<BeancountEntry>,
        MalformedInput,
    >)
        ensures
            match r {
                Ok(entries) => table_entries(table_view(rows@), self.account@, account_guess@)
                    == Ok::<Seq<EntryModel>, MalformedInput>(views(entries@)),
                Err(e) => table_entries(table_view(rows@), self.account@, account_guess@) == Err::<
                    Seq<EntryModel>,
                    MalformedInput,
                >(e),
            },
    {
        let ghost table = table_view(rows@);
        let mut entries: Vec<BeancountEntry> = Vec::new();
        assert(views(entries@) =~= Seq::<EntryModel>::empty());
        if rows.len() == 0 {
            return Ok(entries);
        }
        let width: usize = rows[0].len();
        let mut i: usize = 0;
        assert(table.subrange(0, 0) =~= Seq::<Seq<Seq<char>>>::empty());
        assert(table[0] == views(rows[0]@));
        while i < rows.len()
            invariant
                i <= rows.len(),
                0 < rows.len(),
                table == table_view(rows@),
                width == table[0].len(),
                rows_entries(
                    table.subrange(0, i as int),
                    width as nat,
                    self.account@,
                    account_guess@,
                ) == Ok::<Seq<EntryModel>, MalformedInput>(views(entries@)),
            decreases rows.len() - i,
        {
            let ghost upto = table.subrange(0, i + 1);
            assert(upto.drop_last() =~= table.subrange(0, i as int));
            assert(upto.last() == views(rows[i as int]@));
            let row = match Row::from_fields(&rows[i], width, i) {
                Ok(row) => row,
                Err(e) => {
                    proof {
                        rows_error_stays(
                            table,
                            width as nat,
                            self.account@,
                            account_guess@,
                            i + 1,
                        );
                    }
                    return Err(e);
                },
            };
            let counter = account_guess.from_merchant(row.description.as_str());
            let ghost before = entries@;
            entries.push(row.entry(self.account.as_str(), counter.as_str()));
            proof {
                views_push(before, entries@.last());
            }
            i += 1;
        }
        assert(table.subrange(0, i as int) =~= table);
        Ok(entries)
    }
}

/// An error among the first `upto` records is the error of all the records.
pub proof fn rows_error_stays(
    rows: Table,
    width: nat,
    account: Seq<char>,
    rules: Seq<Rule>,
    upto: int,
)
    requires
        0 <= upto <= rows.len(),
        rows_entries(rows.subrange(0, upto), width, account, rules) is Err,
    ensures
        rows_entries(rows, width, account, rules) == rows_entries(
            rows.subrange(0, upto),
            width,
            account,
            rules,
        ),
    decreases rows.len() - upto,
{
    if upto == rows.len() {
        assert(rows.subrange(0, upto) =~= rows);
    } else {
        assert(rows.drop_last().subrange(0, upto) =~= rows.subrange(0, upto));
        rows_error_stays(rows.drop_last(), width, account, rules, upto);
    }
}

impl BeancountParser for Flags {
    open spec fn parsed(&self, raw: Seq<char>, rules: Seq<Rule>) -> Result<
        Seq<EntryModel>,
        MalformedInput,
    > {
        statement_entries(raw, self.account@, rules)
    }

    /// The entries of a statement given as text: the preamble is dropped,
    /// the table is split into records, and every record gives an entry.
    fn parse(&self, raw: &str, account_guess: AccountGuessing) -> (r: Result<
        Vec<BeancountEntry>,
        MalformedInput,
    >)
        ensures
            match r {
                Ok(entries) => statement_entries(raw@, self.account@, account_guess@) == Ok::<
                    Seq<EntryModel>,
                    MalformedInput,
                >(views(entries@)),
                Err(e) => statement_entries(raw@, self.account@, account_guess@) == Err::<
                    Seq<EntryModel>,
                    MalformedInput,
                >(e),
            },
    {
        let table = strip_preamble(raw);
        match read_table(table.as_str()) {
            Ok(rows) => self.entries(&rows, &account_guess),
            Err(e) => Err(e),
        }
    }
}

} // verus!
