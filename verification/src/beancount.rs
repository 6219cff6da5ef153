//! Ledger entries, and their text:
//!
//! ```text
//! {YYYY-MM-DD} * "{description}"
//!  {account} {amount} CHF
//!  {account}
//! ```

use crate::amount::{amount_text, Amount};
use crate::date::{iso_text, Date, Ymd};
use crate::text::{join, join_all, occurs_at, views};
use vstd::prelude::*;
use vstd::string::StringExecFns;

verus! {

/// A leg of an entry: an account, and the amount booked on it in hundredths.
/// A leg without an amount is a balancing leg: its amount is left to the
/// reader of the ledger.
pub struct LineModel {
    pub account: Seq<char>,
    pub amount: Option<int>,
}

/// An entry: the day, the description, and the legs in order.
pub struct EntryModel {
    pub description: Seq<char>,
    pub date: Ymd,
    pub lines: Seq<LineModel>,
}

/// The text of a leg: the account, and after it, where the leg has an amount,
/// a blank, the amount with two digits after the point, a blank and the
/// currency.
pub open spec fn line_text(line: LineModel) -> Seq<char> {
    match line.amount {
        Some(amount) => line.account + " "@ + amount_text(amount) + " CHF"@,
        None => line.account,
    }
}

/// The text of the legs of an entry: each leg on a line of its own, one blank
/// in front of it.
pub open spec fn lines_text(lines: Seq<LineModel>) -> Seq<char>
    decreases lines.len(),
{
    if lines.len() == 0 {
        Seq::empty()
    } else {
        lines_text(lines.drop_last()) + " "@ + line_text(lines.last()) + "\n"@
    }
}

/// The text of an entry: the day, a star, the description between double
/// quotes exactly as it stands, and the legs.
pub open spec fn entry_text(entry: EntryModel) -> Seq<char> {
    iso_text(entry.date.year, entry.date.month, entry.date.day) + " * \""@ + entry.description
        + "\"\n"@ + lines_text(entry.lines)
}

/// The text of a ledger: the texts of its entries in order, a line feed
/// between each two neighbours.
pub open spec fn ledger_text(entries: Seq<EntryModel>) -> Seq<char> {
    join(entries.map_values(|entry: EntryModel| entry_text(entry)), "\n"@)
}

/// Number of legs without an amount.
pub open spec fn balancing_legs(lines: Seq<LineModel>) -> nat
    decreases lines.len(),
{
    if lines.len() == 0 {
        0
    } else {
        balancing_legs(lines.drop_last()) + if lines.last().amount is None {
            1nat
        } else {
            0nat
        }
    }
}

/// The legs are those of a sound entry: exactly one of them is a balancing
/// leg, and at most one has an amount.
pub open spec fn well_formed(lines: Seq<LineModel>) -> bool {
    balancing_legs(lines) == 1 && lines.len() <= 2
}

/// An entry without legs is not sound.
pub proof fn no_legs_are_not_well_formed()
    ensures
        !well_formed(Seq::empty()),
{
}

/// Two legs, the first with an amount and the second without, are those of a
/// sound entry.
pub proof fn booked_then_balancing_is_well_formed(first: LineModel, second: LineModel)
    requires
        first.amount is Some,
        second.amount is None,
    ensures
        well_formed(seq![first, second]),
{
    let lines = seq![first, second];
    assert(lines.drop_last() =~= seq![first]);
    assert(seq![first].drop_last() =~= Seq::<LineModel>::empty());
    assert(balancing_legs(Seq::<LineModel>::empty()) == 0);
    assert(seq![first].last() == first);
    assert(balancing_legs(seq![first]) == 0);
    assert(lines.last() == second);
}

/// The description stands in the text of an entry exactly as it is, between
/// the double quote that follows the star and the double quote that ends the
/// first line. A double quote inside the description is not escaped.
pub proof fn description_is_not_escaped(entry: EntryModel)
    ensures
        occurs_at(
            entry_text(entry),
            seq!['"'] + entry.description + seq!['"', '\n'],
            iso_text(entry.date.year, entry.date.month, entry.date.day).len() as int + 3,
        ),
{
    reveal_strlit(" * \"");
    reveal_strlit("\"\n");
    let day = iso_text(entry.date.year, entry.date.month, entry.date.day);
    let quoted = seq!['"'] + entry.description + seq!['"', '\n'];
    let text = entry_text(entry);
    assert(" * \""@ =~= seq![' ', '*', ' ', '"']);
    assert("\"\n"@ =~= seq!['"', '\n']);
    let at = day.len() as int + 3;
    assert(text.subrange(at, at + quoted.len()) =~= quoted);
}

/// A leg of an entry.
#[derive(Clone, Debug, PartialEq, Eq)]
pub struct BeancountEntryLine {
    account: String,
    amount: Option<Amount>,
}

impl View for BeancountEntryLine {
    type V = LineModel;

    closed spec fn view(&self) -> LineModel {
        LineModel {
            account: self.account@,
            amount: match self.amount {
                Some(amount) => Some(amount@),
                None => None,
            },
        }
    }
}

impl BeancountEntryLine {
    /// A leg on `account`; a balancing leg where `amount` is `None`.
    pub fn new(account: &str, amount: Option<Amount>) -> (line: Self)
        ensures
            line@.account == account@,
            line@.amount == match amount {
                Some(amount) => Some(amount@),
                None => None,
            },
    {
        Self { account: String::from_str(account), amount }
    }

    /// The account.
    pub fn account(&self) -> (account: &String)
        ensures
            account@ == self@.account,
    {
        &self.account
    }

    /// The amount; `None` for a balancing leg.
    pub fn amount(&self) -> (amount: Option<Amount>)
        ensures
            self@.amount == match amount {
                Some(amount) => Some(amount@),
                None => None,
            },
    {
        self.amount
    }

    /// The text of the leg.
    pub fn render(&self) -> (text: String)
        ensures
            text@ == line_text(self@),
    {
        let mut text = self.account.clone();
        if let Some(amount) = self.amount {
            text.append(" ");
            text.append(amount.render().as_str());
            text.append(" CHF");
        }
        text
    }
}

/// An entry of the ledger.
#[derive(Clone, Debug, PartialEq, Eq)]
pub struct BeancountEntry {
    pub description: String,
    pub date: Date,
    pub lines: Vec<BeancountEntryLine>,
}

impl View for BeancountEntry {
    type V = EntryModel;

    open spec fn view(&self) -> EntryModel {
        EntryModel { description: self.description@, date: self.date@, lines: views(self.lines@) }
    }
}

impl BeancountEntry {
    /// The entry of two legs: `amount` booked on `booked`, and a balancing
    /// leg on `balancing`.
    pub fn two_legs(
        date: Date,
        description: &str,
        booked: &str,
        amount: Amount,
        balancing: &str,
    ) -> (entry: Self)
        ensures
            entry@ == two_leg_entry(date@, description@, booked@, amount@, balancing@),
            well_formed(entry@.lines),
    {
        let first = BeancountEntryLine::new(booked, Some(amount));
        let second = BeancountEntryLine::new(balancing, None);
        let mut lines: Vec<BeancountEntryLine> = Vec::new();
        lines.push(first);
        lines.push(second);
        proof {
            assert(views(lines@) =~= seq![first@, second@]);
            booked_then_balancing_is_well_formed(first@, second@);
        }
        BeancountEntry { description: String::from_str(description), date, lines }
    }

    /// Whether the legs are those of a sound entry: one balancing leg, and at
    /// most one leg with an amount. An entry without legs is not sound.
    pub fn is_well_formed(&self) -> (b: bool)
        ensures
            b == well_formed(self@.lines),
    {
        let mut open: usize = 0;
        let mut i: usize = 0;
        assert(views(self.lines@).subrange(0, 0) =~= Seq::<LineModel>::empty());
        while i < self.lines.len()
            invariant
                i <= self.lines.len(),
                open == balancing_legs(views(self.lines@).subrange(0, i as int)),
                open <= i,
            decreases self.lines.len() - i,
        {
            let ghost upto = views(self.lines@).subrange(0, i + 1);
            assert(upto.drop_last() =~= views(self.lines@).subrange(0, i as int));
            assert(upto.last() == self.lines[i as int]@);
            if self.lines[i].amount().is_none() {
                open += 1;
            }
            i += 1;
        }
        assert(views(self.lines@).subrange(0, i as int) =~= views(self.lines@));
        open == 1 && self.lines.len() <= 2
    }

    /// The text of the entry.
    pub fn render(&self) -> (text: String)
        ensures
            text@ == entry_text(self@),
    {
        let mut text = self.date.render();
        text.append(" * \"");
        text.append(self.description.as_str());
        text.append("\"\n");
        let ghost head = text@;
        let mut i: usize = 0;
        assert(views(self.lines@).subrange(0, 0) =~= Seq::<LineModel>::empty());
        while i < self.lines.len()
            invariant
                i <= self.lines.len(),
                text@ == head + lines_text(views(self.lines@).subrange(0, i as int)),
            decreases self.lines.len() - i,
        {
            let ghost upto = views(self.lines@).subrange(0, i + 1);
            assert(upto.drop_last() =~= views(self.lines@).subrange(0, i as int));
            assert(upto.last() == self.lines[i as int]@);
            text.append(" ");
            text.append(self.lines[i].render().as_str());
            text.append("\n");
            i += 1;
            assert(text@ =~= head + lines_text(upto));
        }
        assert(views(self.lines@).subrange(0, i as int) =~= views(self.lines@));
        text
    }
}

/// The entry of two legs: `amount` booked on `booked`, and a balancing leg on
/// `balancing`.
pub open spec fn two_leg_entry(
    date: Ymd,
    description: Seq<char>,
    booked: Seq<char>,
    amount: int,
    balancing: Seq<char>,
) -> EntryModel {
    EntryModel {
        description,
        date,
        lines: seq![
            LineModel { account: booked, amount: Some(amount) },
            LineModel { account: balancing, amount: None },
        ],
    }
}

/// Indices of those among the first `count` entries whose legs are not those
/// of a sound entry, in rising order.
pub open spec fn flagged(entries: Seq<EntryModel>, count: int) -> Seq<usize>
    decreases count,
{
    if count <= 0 || count > entries.len() {
        Seq::empty()
    } else if well_formed(entries[count - 1].lines) {
        flagged(entries, count - 1)
    } else {
        flagged(entries, count - 1).push((count - 1) as usize)
    }
}

/// Indices of the entries whose legs are not those of a sound entry, in
/// rising order. Such an entry is an anomaly of the statement it was read
/// from, and is to be looked at by hand.
pub fn anomalies(entries: &Vec<BeancountEntry>) -> (found: Vec<usize>)
    ensures
        found@ == flagged(views(entries@), entries.len() as int),
{
    let mut found: Vec<usize> = Vec::new();
    let mut i: usize = 0;
    while i < entries.len()
        invariant
            i <= entries.len(),
            found@ == flagged(views(entries@), i as int),
        decreases entries.len() - i,
    {
        assert(views(entries@)[i as int] == entries[i as int]@);
        if !entries[i].is_well_formed() {
            found.push(i);
        }
        i += 1;
    }
    found
}

/// The text of a ledger: the texts of its entries in order, a line feed
/// between each two neighbours.
pub fn render_entries(entries: &Vec<BeancountEntry>) -> (text: String)
    ensures
        text@ == ledger_text(views(entries@)),
{
    let mut texts: Vec<String> = Vec::new();
    let mut i: usize = 0;
    while i < entries.len()
        invariant
            i <= entries.len(),
            texts.len() == i,
            forall|j: int| 0 <= j < i ==> (#[trigger] texts[j])@ == entry_text(entries[j]@),
        decreases entries.len() - i,
    {
        texts.push(entries[i].render());
        i += 1;
    }
    assert(views(texts@) =~= views(entries@).map_values(|entry: EntryModel| entry_text(entry)));
    join_all(&texts, "\n")
}

} // verus!
