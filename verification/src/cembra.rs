//! Monthly credit card statements of Cembra: a document of pages, read by
//! `xmltree`. A page is a run of elements that each wrap one piece of text,
//! and a transaction is four pieces in a row: the transaction date, the
//! accounting date, the merchant and the amount. Nothing marks where a
//! transaction begins, so every run of four neighbouring elements is tried.

use crate::amount::{decimal_amount, Amount};
use crate::beancount::{two_leg_entry, well_formed, BeancountEntry, EntryModel};
use crate::date::{dmy_date, Date, Ymd};
use crate::error::MalformedInput;
use crate::BeancountParser;
use crate::guessing::{classify, AccountGuessing, Rule};
use crate::text::{views, views_push};
use std::path::PathBuf;
use vstd::prelude::*;

verus! {

/// `xmltree::ParseError`, the error of `Element::parse`: a value of it is carried as it
/// is, and nothing is known of what it holds.
#[verifier::external_type_specification]
#[verifier::external_body]
pub struct ExXmlParseError(xmltree::ParseError);

/// A child of a child of a page: a piece of text, or anything else.
#[derive(Clone, Debug, PartialEq, Eq)]
pub enum Span {
    Text(String),
    Other,
}

/// A child of a page: an element with its children, or anything else.
#[derive(Clone, Debug, PartialEq, Eq)]
pub enum PageNode {
    Element(Vec<Span>),
    Other,
}

/// A child of the root of a document: an element with its children, or
/// anything else.
#[derive(Clone, Debug, PartialEq, Eq)]
pub enum Page {
    Element(Vec<PageNode>),
    Other,
}

/// The children of the root element that `Element::parse` of `xmltree` reads
/// from a text, three levels deep; `None` where it reports an error. A child
/// that is an element is given with its children, any other child as `Other`;
/// on the third level a child that is text is given with its text, any other
/// as `Other`.
pub uninterp spec fn document_pages(text: Seq<char>) -> Option<Seq<Page>>;

/// `Element::parse` of `xmltree` on the bytes of the text, and the children
/// of the root it returns, told apart by `XMLNode::as_element` on the first
/// two levels and by `XMLNode::as_text` on the third. The result depends on
/// the text alone. `xmltree` builds the tree by recursion, so a document has
/// to be nested no deeper than the stack allows.
#[verifier::external_body]
fn xmltree_pages(text: &str) -> (r: Result<Vec<Page>, xmltree::ParseError>)
    ensures
        match r {
            Ok(pages) => document_pages(text@) == Some(pages@),
            Err(_) => document_pages(text@) is None,
        },
{
    let root = xmltree::Element::parse(text.as_bytes())?;
    Ok(root.children.iter().map(|page| match page.as_element() {
        Some(page) => Page::Element(page.children.iter().map(|node| match node.as_element() {
            Some(element) => PageNode::Element(element.children.iter().map(|span| match span.as_text() {
                Some(text) => Span::Text(text.to_string()),
                None => Span::Other,
            }).collect()),
            None => PageNode::Other,
        }).collect()),
        None => Page::Other,
    }).collect())
}

/// The pages of a document given as text.
pub fn read_pages(text: &str) -> (r: Result<Vec<Page>, MalformedInput>)
    ensures
        match r {
            Ok(pages) => document_pages(text@) == Some(pages@),
            Err(e) => document_pages(text@) is None && e == MalformedInput::Document,
        },
{
    match xmltree_pages(text) {
        Ok(pages) => Ok(pages),
        Err(_) => Err(MalformedInput::Document),
    }
}

/// The texts among the first `count` of the given children, in order.
pub open spec fn span_texts(spans: Seq<Span>, count: int) -> Seq<Seq<char>>
    decreases count,
{
    if count <= 0 || count > spans.len() {
        Seq::empty()
    } else {
        match spans[count - 1] {
            Span::Text(text) => span_texts(spans, count - 1).push(text@),
            Span::Other => span_texts(spans, count - 1),
        }
    }
}

/// The fragments of a child of a page: the texts that are its children. A
/// child that is no element has none.
pub open spec fn node_fragments(node: PageNode) -> Seq<Seq<char>> {
    match node {
        PageNode::Element(spans) => span_texts(spans@, spans@.len() as int),
        PageNode::Other => Seq::empty(),
    }
}

/// The fragments of the window of four children that begins at index `at`.
pub open spec fn window_fragments(nodes: Seq<PageNode>, at: int) -> Seq<Seq<char>> {
    node_fragments(nodes[at]) + node_fragments(nodes[at + 1]) + node_fragments(nodes[at + 2])
        + node_fragments(nodes[at + 3])
}

/// A transaction read from four fragments.
pub struct GroupModel {
    pub transaction_date: Ymd,
    pub accounting_date: Ymd,
    pub merchant: Seq<char>,
    pub amount: int,
}

/// The transaction that the fragments of a window write, if they write one:
/// there are four of them, the first and the second each write a date as
/// day, point, month, point, year, and the fourth writes an amount. The third
/// is the merchant, whatever it holds. The two dates need not agree.
pub open spec fn group_of(fragments: Seq<Seq<char>>) -> Option<GroupModel> {
    if fragments.len() != 4 {
        None
    } else {
        match (dmy_date(fragments[0]), dmy_date(fragments[1]), decimal_amount(fragments[3])) {
            (Some(transaction_date), Some(accounting_date), Some(amount)) => Some(
                GroupModel { transaction_date, accounting_date, merchant: fragments[2], amount },
            ),
            _ => None,
        }
    }
}

/// The transactions of the first `count` windows of a page, in the order of
/// the windows. Windows overlap: each begins one child after the one before.
pub open spec fn window_groups(nodes: Seq<PageNode>, count: int) -> Seq<GroupModel>
    decreases count,
{
    if count <= 0 {
        Seq::empty()
    } else {
        match group_of(window_fragments(nodes, count - 1)) {
            Some(group) => window_groups(nodes, count - 1).push(group),
            None => window_groups(nodes, count - 1),
        }
    }
}

/// Number of windows of four children in a page of `len` children.
pub open spec fn window_count(len: nat) -> int {
    if len < 4 {
        0
    } else {
        len - 3
    }
}

/// The transactions of a page.
pub open spec fn page_groups(nodes: Seq<PageNode>) -> Seq<GroupModel> {
    window_groups(nodes, window_count(nodes.len()))
}

/// Index of the first child at or after `from` that is no element; the
/// number of children if there is none.
pub open spec fn first_other(nodes: Seq<PageNode>, from: int) -> int
    decreases nodes.len() - from,
{
    if from < 0 || from >= nodes.len() {
        nodes.len() as int
    } else if nodes[from] is Other {
        from
    } else {
        first_other(nodes, from + 1)
    }
}

/// The entry of a transaction: the amount booked on `merchant_account`,
/// balanced against the account of the card, dated by the transaction date
/// and described by the merchant.
pub open spec fn group_entry(group: GroupModel, cc_account: Seq<char>, merchant_account: Seq<char>)
    -> EntryModel {
    two_leg_entry(
        group.transaction_date,
        group.merchant,
        merchant_account,
        group.amount,
        cc_account,
    )
}

/// The entries of the given transactions, each booked on the account that
/// the rules give to its merchant.
pub open spec fn groups_entries(groups: Seq<GroupModel>, cc_account: Seq<char>, rules: Seq<Rule>)
    -> Seq<EntryModel> {
    groups.map_values(
        |group: GroupModel| group_entry(group, cc_account, classify(rules, group.merchant)),
    )
}

/// The entries of the page of index `index`. A page with windows has to
/// consist of elements: its first child that is no element is the error. A
/// page of fewer than four children has no windows and no entries, whatever
/// its children are.
pub open spec fn page_entries(page: Page, index: usize, cc_account: Seq<char>, rules: Seq<Rule>)
    -> Result<Seq<EntryModel>, MalformedInput> {
    match page {
        Page::Other => Err(MalformedInput::Page { page: index }),
        Page::Element(nodes) => if nodes@.len() >= 4 && first_other(nodes@, 0) < nodes@.len() {
            Err(MalformedInput::Node { page: index, node: first_other(nodes@, 0) as usize })
        } else {
            Ok(groups_entries(page_groups(nodes@), cc_account, rules))
        },
    }
}

/// The entries of the pages of a document, page after page. The first page
/// that cannot be read makes the whole document an error.
pub open spec fn pages_entries(pages: Seq<Page>, cc_account: Seq<char>, rules: Seq<Rule>)
    -> Result<Seq<EntryModel>, MalformedInput>
    decreases pages.len(),
{
    if pages.len() == 0 {
        Ok(Seq::empty())
    } else {
        match pages_entries(pages.drop_last(), cc_account, rules) {
            Err(e) => Err(e),
            Ok(before) => match page_entries(
                pages.last(),
                (pages.len() - 1) as usize,
                cc_account,
                rules,
            ) {
                Err(e) => Err(e),
                Ok(entries) => Ok(before + entries),
            },
        }
    }
}

/// The entries of a statement given as the text of its document.
pub open spec fn statement_entries(raw: Seq<char>, cc_account: Seq<char>, rules: Seq<Rule>)
    -> Result<Seq<EntryModel>, MalformedInput> {
    match document_pages(raw) {
        Some(pages) => pages_entries(pages, cc_account, rules),
        None => Err(MalformedInput::Document),
    }
}

/// Fragments write a transaction exactly where there are four of them, the
/// first two write dates and the fourth writes an amount; the transaction
/// then has the first date, the third fragment as merchant and that amount.
pub proof fn window_is_accepted_or_passed_over(fragments: Seq<Seq<char>>)
    ensures
        group_of(fragments) is Some <==> fragments.len() == 4 && dmy_date(fragments[0]) is Some
            && dmy_date(fragments[1]) is Some && decimal_amount(fragments[3]) is Some,
        group_of(fragments) matches Some(group) ==> dmy_date(fragments[0]) == Some(
            group.transaction_date,
        ) && group.merchant == fragments[2] && decimal_amount(fragments[3]) == Some(group.amount),
{
}

/// A page gives at most one transaction for each of its windows, and none
/// where it has fewer than four children.
pub proof fn at_most_one_group_a_window(nodes: Seq<PageNode>, count: int)
    requires
        0 <= count,
    ensures
        window_groups(nodes, count).len() <= count,
        nodes.len() < 4 ==> page_groups(nodes).len() == 0,
    decreases count,
{
    if count > 0 {
        at_most_one_group_a_window(nodes, count - 1);
    }
}

/// The entry of a transaction has the legs of a sound entry.
pub proof fn group_entry_is_sound(
    group: GroupModel,
    cc_account: Seq<char>,
    merchant_account: Seq<char>,
)
    ensures
        well_formed(group_entry(group, cc_account, merchant_account).lines),
{
    let lines = group_entry(group, cc_account, merchant_account).lines;
    crate::beancount::booked_then_balancing_is_well_formed(lines[0], lines[1]);
    assert(lines =~= seq![lines[0], lines[1]]);
}

/// Every entry of a document that can be read has the legs of a sound entry.
pub proof fn pages_give_sound_entries(pages: Seq<Page>, cc_account: Seq<char>, rules: Seq<Rule>)
    requires
        pages_entries(pages, cc_account, rules) is Ok,
    ensures
        forall|i: int|
            0 <= i < pages_entries(pages, cc_account, rules)->Ok_0.len() ==> well_formed(
                (#[trigger] pages_entries(pages, cc_account, rules)->Ok_0[i]).lines,
            ),
    decreases pages.len(),
{
    if pages.len() > 0 {
        pages_give_sound_entries(pages.drop_last(), cc_account, rules);
        let before = pages_entries(pages.drop_last(), cc_account, rules)->Ok_0;
        let added = page_entries(pages.last(), (pages.len() - 1) as usize, cc_account, rules)->Ok_0;
        let nodes = pages.last()->Element_0;
        let groups = page_groups(nodes@);
        assert forall|i: int| 0 <= i < added.len() implies well_formed(
            (#[trigger] added[i]).lines,
        ) by {
            group_entry_is_sound(groups[i], cc_account, classify(rules, groups[i].merchant));
        }
        assert forall|i: int| 0 <= i < (before + added).len() implies well_formed(
            (#[trigger] (before + added)[i]).lines,
        ) by {
            if i >= before.len() {
                assert((before + added)[i] == added[i - before.len()]);
            }
        }
    }
}

/// An error among the first `upto` pages is the error of the document.
pub proof fn pages_error_stays(
    pages: Seq<Page>,
    cc_account: Seq<char>,
    rules: Seq<Rule>,
    upto: int,
)
    requires
        0 <= upto <= pages.len(),
        pages_entries(pages.subrange(0, upto), cc_account, rules) is Err,
    ensures
        pages_entries(pages, cc_account, rules) == pages_entries(
            pages.subrange(0, upto),
            cc_account,
            rules,
        ),
    decreases pages.len() - upto,
{
    if upto == pages.len() {
        assert(pages.subrange(0, upto) =~= pages);
    } else {
        assert(pages.drop_last().subrange(0, upto) =~= pages.subrange(0, upto));
        pages_error_stays(pages.drop_last(), cc_account, rules, upto);
    }
}

/// The children of a child of a page, if it is an element.
pub fn get_element(node: &PageNode) -> (r: Option<&Vec<Span>>)
    ensures
        match r {
            Some(spans) => *node == PageNode::Element(*spans),
            None => *node is Other,
        },
{
    match node {
        PageNode::Element(spans) => Some(spans),
        PageNode::Other => None,
    }
}

/// Appends the fragments of a child of a page to `out`.
pub fn push_fragments(node: &PageNode, out: &mut Vec<String>)
    ensures
        views(final(out)@) == views(old(out)@) + node_fragments(*node),
{
    let ghost start = out@;
    match get_element(node) {
        Some(spans) => {
            let mut i: usize = 0;
            assert(views(out@) =~= views(start) + span_texts(spans@, 0));
            while i < spans.len()
                invariant
                    i <= spans.len(),
                    views(out@) == views(start) + span_texts(spans@, i as int),
                decreases spans.len() - i,
            {
                match &spans[i] {
                    Span::Text(text) => {
                        let ghost before = out@;
                        out.push(text.clone());
                        proof {
                            views_push(before, out@.last());
                        }
                        assert(views(out@) =~= views(start) + span_texts(spans@, i + 1));
                    },
                    Span::Other => {},
                }
                i += 1;
            }
        },
        None => {
            assert(views(out@) =~= views(start) + node_fragments(*node));
        },
    }
}

/// A transaction read from four fragments.
#[derive(Clone, Debug, PartialEq, Eq)]
pub struct FragmentGroup {
    pub transaction_date: Date,
    pub accounting_date: Date,
    pub merchant: String,
    pub amount: Amount,
}

impl View for FragmentGroup {
    type V = GroupModel;

    open spec fn view(&self) -> GroupModel {
        GroupModel {
            transaction_date: self.transaction_date@,
            accounting_date: self.accounting_date@,
            merchant: self.merchant@,
            amount: self.amount@,
        }
    }
}

impl FragmentGroup {
    /// The transaction that the fragments of a window write, if they write
    /// one. Fragments that write none are passed over: that is no error.
    pub fn from_fragments(fragments: &Vec<String>) -> (r: Option<FragmentGroup>)
        ensures
            match r {
                Some(group) => group_of(views(fragments@)) == Some(group@),
                None => group_of(views(fragments@)) is None,
            },
    {
        if fragments.len() != 4 {
            return None;
        }
        let ghost texts = views(fragments@);
        assert(forall|k: int| 0 <= k < 4 ==> texts[k] == (#[trigger] fragments[k])@);
        let transaction_date = Date::parse_dmy(fragments[0].as_str());
        let accounting_date = Date::parse_dmy(fragments[1].as_str());
        match (transaction_date, accounting_date) {
            (Some(transaction_date), Some(accounting_date)) => {
                match Amount::parse(fragments[3].as_str()) {
                    Some(amount) => Some(
                        FragmentGroup {
                            transaction_date,
                            accounting_date,
                            merchant: fragments[2].clone(),
                            amount,
                        },
                    ),
                    None => None,
                }
            },
            _ => None,
        }
    }

    /// The entry of the transaction, booked on `merchant_account` and
    /// balanced against the account of the card.
    pub fn entry(&self, cc_account: &str, merchant_account: &str) -> (entry: BeancountEntry)
        ensures
            entry@ == group_entry(self@, cc_account@, merchant_account@),
    {
        BeancountEntry::two_legs(
            self.transaction_date,
            self.merchant.as_str(),
            merchant_account,
            self.amount,
            cc_account,
        )
    }
}

/// Index of the first child that is no element; the number of children if
/// there is none.
pub fn find_other(nodes: &Vec<PageNode>) -> (at: usize)
    ensures
        at == first_other(nodes@, 0),
        at <= nodes.len(),
{
    let mut at: usize = 0;
    while at < nodes.len() && get_element(&nodes[at]).is_some()
        invariant
            first_other(nodes@, 0) == first_other(nodes@, at as int),
        decreases nodes.len() - at,
    {
        at += 1;
    }
    if at >= nodes.len() {
        nodes.len()
    } else {
        at
    }
}

/// The transactions of a page, in the order of its windows.
pub fn groups_of_page(nodes: &Vec<PageNode>) -> (groups: Vec<FragmentGroup>)
    ensures
        views(groups@) == page_groups(nodes@),
{
    let mut groups: Vec<FragmentGroup> = Vec::new();
    assert(views(groups@) =~= Seq::<GroupModel>::empty());
    if nodes.len() < 4 {
        return groups;
    }
    let count: usize = nodes.len() - 3;
    let mut at: usize = 0;
    while at < count
        invariant
            at <= count,
            count == nodes.len() - 3,
            views(groups@) == window_groups(nodes@, at as int),
        decreases count - at,
    {
        let mut fragments: Vec<String> = Vec::new();
        assert(views(fragments@) =~= Seq::<Seq<char>>::empty());
        push_fragments(&nodes[at], &mut fragments);
        push_fragments(&nodes[at + 1], &mut fragments);
        push_fragments(&nodes[at + 2], &mut fragments);
        push_fragments(&nodes[at + 3], &mut fragments);
        assert(views(fragments@) =~= window_fragments(nodes@, at as int));
        match FragmentGroup::from_fragments(&fragments) {
            Some(group) => {
                let ghost before = groups@;
                groups.push(group);
                proof {
                    views_push(before, groups@.last());
                }
            },
            None => {},
        }
        at += 1;
    }
    groups
}

/// Where to find a statement, and the account of the card.
pub struct Flags {
    pub pdf: PathBuf,
    pub cc_account: String,
}

impl Flags {
    /// Appends the entries of the page of index `index` to `out`. On an error
    /// `out` is left as it was.
    pub fn push_page_entries(
        &self,
        page: &Page,
        index: usize,
        account_guess: &AccountGuessing,
        out: &mut Vec<BeancountEntry>,
    ) -> (r: Result<(), MalformedInput>)
        ensures
            match r {
                Ok(_) => page_entries(*page, index, self.cc_account@, account_guess@) is Ok
                    && views(final(out)@) == views(old(out)@) + page_entries(
                    *page,
                    index,
                    self.cc_account@,
                    account_guess@,
                )->Ok_0,
                Err(e) => page_entries(*page, index, self.cc_account@, account_guess@) == Err::<
                    Seq<EntryModel>,
                    MalformedInput,
                >(e) && final(out)@ == old(out)@,
            },
    {
        let nodes = match page {
            Page::Element(nodes) => nodes,
            Page::Other => { return Err(MalformedInput::Page { page: index }); },
        };
        if nodes.len() >= 4 {
            let other = find_other(nodes);
            if other < nodes.len() {
                return Err(MalformedInput::Node { page: index, node: other });
            }
        }
        let groups = groups_of_page(nodes);
        let ghost start = out@;
        let ghost wanted = groups_entries(views(groups@), self.cc_account@, account_guess@);
        let mut i: usize = 0;
        assert(views(out@) =~= views(start) + wanted.subrange(0, 0));
        while i < groups.len()
            invariant
                i <= groups.len(),
                wanted == groups_entries(views(groups@), self.cc_account@, account_guess@),
                views(out@) == views(start) + wanted.subrange(0, i as int),
            decreases groups.len() - i,
        {
            let merchant_account = account_guess.from_merchant(groups[i].merchant.as_str());
            let ghost before = out@;
            out.push(groups[i].entry(self.cc_account.as_str(), merchant_account.as_str()));
            proof {
                views_push(before, out@.last());
                assert(wanted[i as int] == out@.last()@);
            }
            i += 1;
            assert(views(out@) =~= views(start) + wanted.subrange(0, i as int));
        }
        assert(wanted.subrange(0, i as int) =~= wanted);
        Ok(())
    }

    /// The entries of the pages of a document.
    pub fn entries(&self, pages: &Vec<Page>, account_guess: &AccountGuessing) -> (r: Result<
        Vec<BeancountEntry>,
        MalformedInput,
    >)
        ensures
            match r {
                Ok(entries) => pages_entries(pages@, self.cc_account@, account_guess@) == Ok::<
                    Seq<EntryModel>,
                    MalformedInput,
                >(views(entries@)),
                Err(e) => pages_entries(pages@, self.cc_account@, account_guess@) == Err::<
                    Seq<EntryModel>,
                    MalformedInput,
                >(e),
            },
    {
        let mut entries: Vec<BeancountEntry> = Vec::new();
        let mut i: usize = 0;
        assert(pages@.subrange(0, 0) =~= Seq::<Page>::empty());
        assert(views(entries@) =~= Seq::<EntryModel>::empty());
        while i < pages.len()
            invariant
                i <= pages.len(),
                pages_entries(pages@.subrange(0, i as int), self.cc_account@, account_guess@)
                    == Ok::<Seq<EntryModel>, MalformedInput>(views(entries@)),
            decreases pages.len() - i,
        {
            let ghost upto = pages@.subrange(0, i + 1);
            assert(upto.drop_last() =~= pages@.subrange(0, i as int));
            assert(upto.last() == pages[i as int]);
            match self.push_page_entries(&pages[i], i, account_guess, &mut entries) {
                Ok(_) => {},
                Err(e) => {
                    proof {
                        pages_error_stays(pages@, self.cc_account@, account_guess@, i + 1);
                    }
                    return Err(e);
                },
            }
            i += 1;
        }
        assert(pages@.subrange(0, i as int) =~= pages@);
        Ok(entries)
    }
}

impl BeancountParser for Flags {
    open spec fn parsed(&self, raw: Seq<char>, rules: Seq<Rule>) -> Result<
        Seq<EntryModel>,
        MalformedInput,
    > {
        statement_entries(raw, self.cc_account@, rules)
    }

    /// The entries of a statement given as the text of its document.
    fn parse(&self, raw: &str, account_guess: AccountGuessing) -> (r: Result<
        Vec<BeancountEntry>,
        MalformedInput,
    >)
        ensures
            match r {
                Ok(entries) => statement_entries(raw@, self.cc_account@, account_guess@) == Ok::<
                    Seq<EntryModel>,
                    MalformedInput,
                >(views(entries@)),
                Err(e) => statement_entries(raw@, self.cc_account@, account_guess@) == Err::<
                    Seq<EntryModel>,
                    MalformedInput,
                >(e),
            },
    {
        match read_pages(raw) {
            Ok(pages) => self.entries(&pages, &account_guess),
            Err(e) => Err(e),
        }
    }
}

} // verus!
