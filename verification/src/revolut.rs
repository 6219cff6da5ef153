//! Statements of Revolut: a delimited table whose first row names the
//! columns. Rows of money received from other people and rows of pending
//! transactions give no entry.

use crate::amount::{
    amount_view, decimal_amount, optional_amount, parse_optional_amount, representable, Amount,
};
use crate::beancount::{two_leg_entry, well_formed, BeancountEntry, EntryModel};
use crate::date::{timestamp_date, Date, Ymd};
use crate::error::MalformedInput;
use crate::BeancountParser;
use crate::guessing::{classify, AccountGuessing, Rule};
use crate::table::{csv_table, read_table, table_view, Table};
use crate::text::{chars_of, contains, is_part_of, views, views_push};
use std::path::PathBuf;
use vstd::prelude::*;
use vstd::string::StringExecFns;

verus! {

/// Index of the first field at or after `from` that is `name`; the number of
/// fields if there is none.
pub open spec fn first_named(header: Seq<Seq<char>>, name: Seq<char>, from: int) -> int
    decreases header.len() - from,
{
    if from < 0 || from >= header.len() {
        header.len() as int
    } else if header[from] == name {
        from
    } else {
        first_named(header, name, from + 1)
    }
}

/// The header names the column exactly once.
pub open spec fn named_once(header: Seq<Seq<char>>, name: Seq<char>) -> bool {
    let at = first_named(header, name, 0);
    at < header.len() && first_named(header, name, at + 1) >= header.len()
}

/// The header names the column once or not at all.
pub open spec fn named_at_most_once(header: Seq<Seq<char>>, name: Seq<char>) -> bool {
    let at = first_named(header, name, 0);
    at >= header.len() || first_named(header, name, at + 1) >= header.len()
}

/// Index of a column that the header need not name.
pub open spec fn optional_column(header: Seq<Seq<char>>, name: Seq<char>) -> Option<usize> {
    let at = first_named(header, name, 0);
    if at < header.len() {
        Some(at as usize)
    } else {
        None
    }
}

/// Where the columns of a row stand in a record.
#[derive(Clone, Debug, PartialEq, Eq)]
pub struct Columns {
    pub kind: usize,
    pub product: usize,
    pub started_date: usize,
    pub completed_date: Option<usize>,
    pub description: usize,
    pub amount: usize,
    pub fee: usize,
    pub currency: usize,
    pub state: usize,
    pub balance: Option<usize>,
}

/// The columns that a header row names. The header has to name each of
/// `Type`, `Product`, `Started Date`, `Description`, `Amount`, `Fee`,
/// `Currency` and `State` exactly once, and `Completed Date` and `Balance` at
/// most once. Other columns do not count.
pub open spec fn columns_of(header: Seq<Seq<char>>) -> Option<Columns> {
    if named_once(header, "Type"@) && named_once(header, "Product"@) && named_once(
        header,
        "Started Date"@,
    ) && named_at_most_once(header, "Completed Date"@) && named_once(header, "Description"@)
        && named_once(header, "Amount"@) && named_once(header, "Fee"@) && named_once(
        header,
        "Currency"@,
    ) && named_once(header, "State"@) && named_at_most_once(header, "Balance"@) {
        Some(
            Columns {
                kind: first_named(header, "Type"@, 0) as usize,
                product: first_named(header, "Product"@, 0) as usize,
                started_date: first_named(header, "Started Date"@, 0) as usize,
                completed_date: optional_column(header, "Completed Date"@),
                description: first_named(header, "Description"@, 0) as usize,
                amount: first_named(header, "Amount"@, 0) as usize,
                fee: first_named(header, "Fee"@, 0) as usize,
                currency: first_named(header, "Currency"@, 0) as usize,
                state: first_named(header, "State"@, 0) as usize,
                balance: optional_column(header, "Balance"@),
            },
        )
    } else {
        None
    }
}

/// A column that need not be there stands within a record of `len` fields.
pub open spec fn optional_fits(column: Option<usize>, len: nat) -> bool {
    match column {
        Some(at) => at < len,
        None => true,
    }
}

/// Every column stands within a record of `len` fields.
pub open spec fn fits(columns: Columns, len: nat) -> bool {
    &&& columns.kind < len
    &&& columns.product < len
    &&& columns.started_date < len
    &&& optional_fits(columns.completed_date, len)
    &&& columns.description < len
    &&& columns.amount < len
    &&& columns.fee < len
    &&& columns.currency < len
    &&& columns.state < len
    &&& optional_fits(columns.balance, len)
}

/// A row of the table.
pub struct RowModel {
    pub kind: Seq<char>,
    pub product: Seq<char>,
    pub started_date: Ymd,
    pub completed_date: Option<Seq<char>>,
    pub description: Seq<char>,
    pub amount: int,
    pub fee: int,
    pub currency: Seq<char>,
    pub state: Seq<char>,
    pub balance: Option<int>,
}

/// The field of a column that need not be there; an empty field where the
/// column is not there.
pub open spec fn optional_field(fields: Seq<Seq<char>>, column: Option<usize>) -> Seq<char> {
    match column {
        Some(at) => fields[at as int],
        None => Seq::empty(),
    }
}

/// The completion marker that a field holds: none for an empty field.
pub open spec fn completion_marker(field: Seq<char>) -> Option<Seq<char>> {
    if field.len() == 0 {
        None
    } else {
        Some(field)
    }
}

/// The row that the record of index `index` writes, under a header of
/// `width` fields. The record has to have as many fields as the header. The
/// start is a moment written as year, hyphen, month, hyphen, day, blank,
/// hour, colon, minute, colon, second, of which the day is kept. The amount
/// and the fee are amounts; the completion marker and the balance may be
/// empty.
pub open spec fn row_of(fields: Seq<Seq<char>>, columns: Columns, width: nat, index: usize)
    -> Result<RowModel, MalformedInput> {
    if fields.len() != width || !fits(columns, fields.len()) {
        Err(MalformedInput::Columns { row: index })
    } else {
        match timestamp_date(fields[columns.started_date as int]) {
            Some(started_date) => match (
                decimal_amount(fields[columns.amount as int]),
                decimal_amount(fields[columns.fee as int]),
                optional_amount(optional_field(fields, columns.balance)),
            ) {
                (Some(amount), Some(fee), Some(balance)) => Ok(
                    RowModel {
                        kind: fields[columns.kind as int],
                        product: fields[columns.product as int],
                        started_date,
                        completed_date: completion_marker(
                            optional_field(fields, columns.completed_date),
                        ),
                        description: fields[columns.description as int],
                        amount,
                        fee,
                        currency: fields[columns.currency as int],
                        state: fields[columns.state as int],
                        balance,
                    },
                ),
                _ => Err(MalformedInput::Number { row: index }),
            },
            None => Err(MalformedInput::Date { row: index }),
        }
    }
}

/// What marks a row as money received from another person.
pub open spec fn payment_marker() -> Seq<char> {
    "Payment from"@
}

/// The row gives an entry: it is completed, and its description does not
/// contain the payment marker.
pub open spec fn retained(row: RowModel) -> bool {
    !contains(row.description, payment_marker()) && row.completed_date is Some
}

/// The entry of a row: the amount less the fee on the account of the
/// statement, balanced against `counter`, dated by the day of the start. An
/// error where the amount less the fee lies outside the range of amounts.
pub open spec fn row_entry(row: RowModel, account: Seq<char>, counter: Seq<char>, index: usize)
    -> Result<EntryModel, MalformedInput> {
    if representable(row.amount - row.fee) {
        Ok(
            two_leg_entry(
                row.started_date,
                row.description,
                account,
                row.amount - row.fee,
                counter,
            ),
        )
    } else {
        Err(MalformedInput::Number { row: index })
    }
}

/// The entries of the data rows of a table, in the order of the rows, each
/// balanced against the account that the rules give to its description. Rows
/// that are not retained give no entry. The first row that cannot be read
/// makes the whole table an error, retained or not.
pub open spec fn rows_entries(
    rows: Table,
    columns: Columns,
    width: nat,
    account: Seq<char>,
    rules: Seq<Rule>,
) -> Result<Seq<EntryModel>, MalformedInput>
    decreases rows.len(),
{
    if rows.len() == 0 {
        Ok(Seq::empty())
    } else {
        match rows_entries(rows.drop_last(), columns, width, account, rules) {
            Err(e) => Err(e),
            Ok(before) => match row_of(rows.last(), columns, width, (rows.len() - 1) as usize) {
                Err(e) => Err(e),
                Ok(row) => if retained(row) {
                    match row_entry(
                        row,
                        account,
                        classify(rules, row.description),
                        (rows.len() - 1) as usize,
                    ) {
                        Ok(entry) => Ok(before.push(entry)),
                        Err(e) => Err(e),
                    }
                } else {
                    Ok(before)
                },
            },
        }
    }
}

/// The entries of a table whose first row names the columns. Every data row
/// has to have as many fields as the header. A table without data rows has no
/// entries, whatever its header.
pub open spec fn table_entries(table: Table, account: Seq<char>, rules: Seq<Rule>) -> Result<
    Seq<EntryModel>,
    MalformedInput,
> {
    if table.len() <= 1 {
        Ok(Seq::empty())
    } else {
        match columns_of(table[0]) {
            Some(columns) => rows_entries(
                table.subrange(1, table.len() as int),
                columns,
                table[0].len(),
                account,
                rules,
            ),
            None => Err(MalformedInput::Header),
        }
    }
}

/// The entries of a statement given as text.
pub open spec fn statement_entries(raw: Seq<char>, account: Seq<char>, rules: Seq<Rule>) -> Result<
    Seq<EntryModel>,
    MalformedInput,
> {
    match csv_table(raw) {
        Some(table) => table_entries(table, account, rules),
        None => Err(MalformedInput::Table),
    }
}

/// A row whose description contains the payment marker is not retained,
/// whatever its amount and its completion marker; a row without a completion
/// marker is not retained, whatever its description.
pub proof fn filtered_rows_are_not_retained(row: RowModel)
    ensures
        contains(row.description, payment_marker()) ==> !retained(row),
        row.completed_date is None ==> !retained(row),
{
}

/// A row that can be read and is not retained adds nothing to the entries of
/// the rows before it.
pub proof fn dropped_row_adds_no_entry(
    rows: Table,
    fields: Seq<Seq<char>>,
    columns: Columns,
    width: nat,
    account: Seq<char>,
    rules: Seq<Rule>,
)
    requires
        row_of(fields, columns, width, rows.len() as usize) is Ok,
        !retained(row_of(fields, columns, width, rows.len() as usize)->Ok_0),
    ensures
        rows_entries(rows.push(fields), columns, width, account, rules) == rows_entries(
            rows,
            columns,
            width,
            account,
            rules,
        ),
{
    assert(rows.push(fields).drop_last() =~= rows);
}

/// The entry of a retained row has the legs of a sound entry.
pub proof fn row_entry_is_sound(row: RowModel, account: Seq<char>, counter: Seq<char>, index: usize)
    requires
        row_entry(row, account, counter, index) is Ok,
    ensures
        well_formed(row_entry(row, account, counter, index)->Ok_0.lines),
{
    let lines = row_entry(row, account, counter, index)->Ok_0.lines;
    crate::beancount::booked_then_balancing_is_well_formed(lines[0], lines[1]);
    assert(lines =~= seq![lines[0], lines[1]]);
}

/// Rows that can be read give at most one entry each, and every entry has
/// the legs of a sound entry.
pub proof fn rows_give_sound_entries(
    rows: Table,
    columns: Columns,
    width: nat,
    account: Seq<char>,
    rules: Seq<Rule>,
)
    requires
        rows_entries(rows, columns, width, account, rules) is Ok,
    ensures
        rows_entries(rows, columns, width, account, rules)->Ok_0.len() <= rows.len(),
        forall|i: int|
            0 <= i < rows_entries(rows, columns, width, account, rules)->Ok_0.len() ==> well_formed(
                (#[trigger] rows_entries(rows, columns, width, account, rules)->Ok_0[i]).lines,
            ),
    decreases rows.len(),
{
    if rows.len() > 0 {
        rows_give_sound_entries(rows.drop_last(), columns, width, account, rules);
        let index = (rows.len() - 1) as usize;
        let row = row_of(rows.last(), columns, width, index)->Ok_0;
        if retained(row) {
            row_entry_is_sound(row, account, classify(rules, row.description), index);
        }
    }
}

/// An error among the first `upto` rows is the error of all the rows.
pub proof fn rows_error_stays(
    rows: Table,
    columns: Columns,
    width: nat,
    account: Seq<char>,
    rules: Seq<Rule>,
    upto: int,
)
    requires
        0 <= upto <= rows.len(),
        rows_entries(rows.subrange(0, upto), columns, width, account, rules) is Err,
    ensures
        rows_entries(rows, columns, width, account, rules) == rows_entries(
            rows.subrange(0, upto),
            columns,
            width,
            account,
            rules,
        ),
    decreases rows.len() - upto,
{
    if upto == rows.len() {
        assert(rows.subrange(0, upto) =~= rows);
    } else {
        assert(rows.drop_last().subrange(0, upto) =~= rows.subrange(0, upto));
        rows_error_stays(rows.drop_last(), columns, width, account, rules, upto);
    }
}

/// Index of the first field at or after `from` that is `name`; the number of
/// fields if there is none.
pub fn find_column(header: &Vec<String>, name: &String, from: usize) -> (at: usize)
    ensures
        at == first_named(views(header@), name@, from as int),
        at <= header.len(),
{
    let mut at: usize = from;
    while at < header.len() && header[at] != *name
        invariant
            first_named(views(header@), name@, from as int) == first_named(
                views(header@),
                name@,
                at as int,
            ),
        decreases header.len() - at,
    {
        at += 1;
    }
    if at >= header.len() {
        header.len()
    } else {
        at
    }
}

/// Where the header names a column: `Ok(None)` where it does not name it,
/// `Err` where it names it twice.
pub fn locate(header: &Vec<String>, name: &str) -> (r: Result<Option<usize>, ()>)
    ensures
        r is Ok <==> named_at_most_once(views(header@), name@),
        r matches Ok(column) ==> column == optional_column(views(header@), name@),
        r matches Ok(Some(at)) ==> named_once(views(header@), name@) && at == first_named(
            views(header@),
            name@,
            0,
        ) && at < header.len(),
        r matches Ok(None) ==> !named_once(views(header@), name@),
{
    let name = String::from_str(name);
    let at = find_column(header, &name, 0);
    if at >= header.len() {
        Ok(None)
    } else if find_column(header, &name, at + 1) >= header.len() {
        Ok(Some(at))
    } else {
        Err(())
    }
}

/// Where the header names a column that it has to name.
pub fn locate_required(header: &Vec<String>, name: &str) -> (r: Option<usize>)
    ensures
        r is Some <==> named_once(views(header@), name@),
        r matches Some(at) ==> at == first_named(views(header@), name@, 0) && at < header.len(),
{
    match locate(header, name) {
        Ok(Some(at)) => Some(at),
        _ => None,
    }
}

impl Columns {
    /// The columns that a header row names.
    pub fn of_header(header: &Vec<String>) -> (r: Option<Columns>)
        ensures
            r == columns_of(views(header@)),
    {
        let kind = locate_required(header, "Type");
        let product = locate_required(header, "Product");
        let started_date = locate_required(header, "Started Date");
        let completed_date = locate(header, "Completed Date");
        let description = locate_required(header, "Description");
        let amount = locate_required(header, "Amount");
        let fee = locate_required(header, "Fee");
        let currency = locate_required(header, "Currency");
        let state = locate_required(header, "State");
        let balance = locate(header, "Balance");
        match (kind, product, started_date, completed_date, description) {
            (Some(kind), Some(product), Some(started_date), Ok(completed_date), Some(description)) => {
                match (amount, fee, currency, state, balance) {
                    (Some(amount), Some(fee), Some(currency), Some(state), Ok(balance)) => Some(
                        Columns {
                            kind,
                            product,
                            started_date,
                            completed_date,
                            description,
                            amount,
                            fee,
                            currency,
                            state,
                            balance,
                        },
                    ),
                    _ => None,
                }
            },
            _ => None,
        }
    }

    /// Whether every column stands within a record of `len` fields.
    pub fn fits_in(&self, len: usize) -> (b: bool)
        ensures
            b == fits(*self, len as nat),
    {
        let completed: bool = match self.completed_date {
            Some(at) => at < len,
            None => true,
        };
        let balance: bool = match self.balance {
            Some(at) => at < len,
            None => true,
        };
        self.kind < len && self.product < len && self.started_date < len && completed
            && self.description < len && self.amount < len && self.fee < len && self.currency < len
            && self.state < len && balance
    }
}

/// A row of the table.
#[derive(Clone, Debug, PartialEq, Eq)]
pub struct Row {
    pub kind: String,
    pub product: String,
    pub started_date: Date,
    pub completed_date: Option<String>,
    pub description: String,
    pub amount: Amount,
    pub fee: Amount,
    pub currency: String,
    pub state: String,
    pub balance: Option<Amount>,
}

/// The text that an optional string holds.
pub open spec fn text_view(text: Option<String>) -> Option<Seq<char>> {
    match text {
        Some(text) => Some(text@),
        None => None,
    }
}

impl View for Row {
    type V = RowModel;

    open spec fn view(&self) -> RowModel {
        RowModel {
            kind: self.kind@,
            product: self.product@,
            started_date: self.started_date@,
            completed_date: text_view(self.completed_date),
            description: self.description@,
            amount: self.amount@,
            fee: self.fee@,
            currency: self.currency@,
            state: self.state@,
            balance: amount_view(self.balance),
        }
    }
}

impl Row {
    /// Reads the record of index `index`, whose columns stand as `columns`
    /// says, under a header of `width` fields.
    pub fn from_fields(fields: &Vec<String>, columns: &Columns, width: usize, index: usize) -> (r:
        Result<Row, MalformedInput>)
        ensures
            match r {
                Ok(row) => row_of(views(fields@), *columns, width as nat, index) == Ok::<
                    RowModel,
                    MalformedInput,
                >(row@),
                Err(e) => row_of(views(fields@), *columns, width as nat, index) == Err::<
                    RowModel,
                    MalformedInput,
                >(e),
            },
    {
        if fields.len() != width || !columns.fits_in(fields.len()) {
            return Err(MalformedInput::Columns { row: index });
        }
        let ghost texts = views(fields@);
        assert(forall|k: int| 0 <= k < fields.len() ==> texts[k] == (#[trigger] fields[k])@);
        let started_date = match Date::parse_timestamp(fields[columns.started_date].as_str()) {
            Some(started_date) => started_date,
            None => { return Err(MalformedInput::Date { row: index }); },
        };
        let amount = Amount::parse(fields[columns.amount].as_str());
        let fee = Amount::parse(fields[columns.fee].as_str());
        let balance = match columns.balance {
            Some(at) => parse_optional_amount(fields[at].as_str()),
            None => Ok(None),
        };
        let completed_date: Option<String> = match columns.completed_date {
            Some(at) => if fields[at].as_str().is_empty() {
                None
            } else {
                Some(fields[at].clone())
            },
            None => None,
        };
        match (amount, fee, balance) {
            (Some(amount), Some(fee), Ok(balance)) => Ok(
                Row {
                    kind: fields[columns.kind].clone(),
                    product: fields[columns.product].clone(),
                    started_date,
                    completed_date,
                    description: fields[columns.description].clone(),
                    amount,
                    fee,
                    currency: fields[columns.currency].clone(),
                    state: fields[columns.state].clone(),
                    balance,
                },
            ),
            _ => Err(MalformedInput::Number { row: index }),
        }
    }

    /// Whether the row gives an entry.
    pub fn is_retained(&self) -> (b: bool)
        ensures
            b == retained(self@),
    {
        let description = chars_of(self.description.as_str());
        let marker = chars_of("Payment from");
        !is_part_of(&marker, &description) && self.completed_date.is_some()
    }

    /// The entry of the row of index `index`, on the account `account` of the
    /// statement and balanced against `counter`.
    pub fn entry(&self, account: &str, counter: &str, index: usize) -> (r: Result<
        BeancountEntry,
        MalformedInput,
    >)
        ensures
            match r {
                Ok(entry) => row_entry(self@, account@, counter@, index) == Ok::<
                    EntryModel,
                    MalformedInput,
                >(entry@),
                Err(e) => row_entry(self@, account@, counter@, index) == Err::<
                    EntryModel,
                    MalformedInput,
                >(e),
            },
    {
        match self.amount.checked_sub(&self.fee) {
            Some(net) => Ok(
                BeancountEntry::two_legs(
                    self.started_date,
                    self.description.as_str(),
                    account,
                    net,
                    counter,
                ),
            ),
            None => Err(MalformedInput::Number { row: index }),
        }
    }
}

/// Where to find a statement, and the account that it is a statement of.
pub struct Flags {
    pub csv: PathBuf,
    pub account: String,
}

impl Flags {
    /// The entries of the records of a table whose first record names the
    /// columns.
    pub fn entries(&self, table: &Vec<Vec<String>>, account_guess: &AccountGuessing) -> (r: Result<
        Vec<BeancountEntry>,
        MalformedInput,
    >)
        ensures
            match r {
                Ok(entries) => table_entries(table_view(table@), self.account@, account_guess@)
                    == Ok::<Seq<EntryModel>, MalformedInput>(views(entries@)),
                Err(e) => table_entries(table_view(table@), self.account@, account_guess@) == Err::<
                    Seq<EntryModel>,
                    MalformedInput,
                >(e),
            },
    {
        let mut entries: Vec<BeancountEntry> = Vec::new();
        assert(views(entries@) =~= Seq::<EntryModel>::empty());
        if table.len() <= 1 {
            return Ok(entries);
        }
        let columns = match Columns::of_header(&table[0]) {
            Some(columns) => columns,
            None => { return Err(MalformedInput::Header); },
        };
        let width: usize = table[0].len();
        let ghost rows = table_view(table@).subrange(1, table.len() as int);
        let mut i: usize = 1;
        assert(rows.subrange(0, 0) =~= Seq::<Seq<Seq<char>>>::empty());
        assert(table_view(table@)[0] == views(table[0]@));
        while i < table.len()
            invariant
                1 <= i <= table.len(),
                rows == table_view(table@).subrange(1, table.len() as int),
                columns_of(table_view(table@)[0]) == Some(columns),
                width == table_view(table@)[0].len(),
                rows_entries(
                    rows.subrange(0, i - 1),
                    columns,
                    width as nat,
                    self.account@,
                    account_guess@,
                ) == Ok::<Seq<EntryModel>, MalformedInput>(views(entries@)),
            decreases table.len() - i,
        {
            let ghost upto = rows.subrange(0, i as int);
            assert(upto.drop_last() =~= rows.subrange(0, i - 1));
            assert(upto.last() == views(table[i as int]@));
            let row = match Row::from_fields(&table[i], &columns, width, i - 1) {
                Ok(row) => row,
                Err(e) => {
                    proof {
                        rows_error_stays(
                            rows,
                            columns,
                            width as nat,
                            self.account@,
                            account_guess@,
                            i as int,
                        );
                    }
                    return Err(e);
                },
            };
            if row.is_retained() {
                let counter = account_guess.from_merchant(row.description.as_str());
                let entry = match row.entry(self.account.as_str(), counter.as_str(), i - 1) {
                    Ok(entry) => entry,
                    Err(e) => {
                        proof {
                            rows_error_stays(
                                rows,
                                columns,
                                width as nat,
                                self.account@,
                                account_guess@,
                                i as int,
                            );
                        }
                        return Err(e);
                    },
                };
                let ghost before = entries@;
                entries.push(entry);
                proof {
                    views_push(before, entries@.last());
                }
            }
            i += 1;
        }
        assert(rows.subrange(0, i - 1) =~= rows);
        Ok(entries)
    }
}

impl BeancountParser for Flags {
    open spec fn parsed(&self, raw: Seq<char>, rules: Seq<Rule>) -> Result<
        Seq<EntryModel>,
        MalformedInput,
    > {
        statement_entries(raw, self.account@, rules)
    }

    /// The entries of a statement given as text.
    fn parse(&self, raw: &str, account_guess: AccountGuessing) -> (r: Result<
        Vec<BeancountEntry>,
        MalformedInput,
    >)
        ensures
            match r {
                Ok(entries) => statement_entries(raw@, self.account@, account_guess@) == Ok::<
                    Seq<EntryModel>,
                    MalformedInput,
                >(views(entries@)),
                Err(e) => statement_entries(raw@, self.account@, account_guess@) == Err::<
                    Seq<EntryModel>,
                    MalformedInput,
                >(e),
            },
    {
        match read_table(raw) {
            Ok(table) => self.entries(&table, &account_guess),
            Err(e) => Err(e),
        }
    }
}

} // verus!
