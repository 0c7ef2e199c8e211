use vstd::prelude::*;
use crate::stats::Transaction;
use crate::text::{char_is_space, chars_of, has_prefix, is_space};

verus! {

/// Number of transactions the block-transactions endpoint returns per page.
pub const PAGE_SIZE: usize = 25;

/// Whether a page body consists of white space only (or nothing).
pub open spec fn is_blank(b: Seq<char>) -> bool {
    forall|i: int| 0 <= i < b.len() ==> is_space(#[trigger] b[i])
}

/// The body the upstream service sends for a block it does not know.
pub open spec fn not_found_body() -> Seq<char> {
    "Block not found"@
}

/// What a page response meant for pagination.
#[derive(PartialEq, Eq, Structural, Clone, Copy, Debug)]
pub enum PageOutcome {
    /// The body was empty or white space only.
    Blank,
    /// The body was the not-found message.
    NotFound,
    /// The body did not parse as a list of transactions.
    Unparsed,
    /// The body parsed as an empty list.
    NoTransactions,
    /// The page's transactions were appended.
    Appended,
}

/// How a page classifies, given its body and the result of parsing it.
pub open spec fn classify(body: Seq<char>, parsed: Option<Seq<Transaction>>) -> PageOutcome {
    if is_blank(body) {
        PageOutcome::Blank
    } else if body == not_found_body() {
        PageOutcome::NotFound
    } else {
        match parsed {
            None => PageOutcome::Unparsed,
            Some(p) => if p.len() == 0 {
                PageOutcome::NoTransactions
            } else {
                PageOutcome::Appended
            },
        }
    }
}

/// The progress of paginating through a block's transactions.
pub struct Pager {
    /// Offset of the next page to request.
    pub offset: usize,
    /// Set once a page has ended pagination.
    pub finished: bool,
    /// The transactions gathered so far, in order.
    pub transactions: Vec<Transaction>,
}

/// The mathematical state of a `Pager`.
pub struct PagerModel {
    pub offset: nat,
    pub finished: bool,
    pub transactions: Seq<Transaction>,
}

impl View for Pager {
    type V = PagerModel;

    open spec fn view(&self) -> PagerModel {
        PagerModel {
            offset: self.offset as nat,
            finished: self.finished,
            transactions: self.transactions@,
        }
    }
}

/// A page: its body and what parsing it gave.
pub struct PageModel {
    pub body: Seq<char>,
    pub parsed: Option<Seq<Transaction>>,
}

/// One step of pagination: a page that brings transactions appends them and
/// moves the offset on by a page; any other page ends pagination; once ended,
/// nothing changes.
pub open spec fn step_spec(s: PagerModel, page: PageModel) -> PagerModel {
    if s.finished {
        s
    } else if classify(page.body, page.parsed) == PageOutcome::Appended {
        PagerModel {
            offset: (s.offset + PAGE_SIZE) as nat,
            finished: false,
            transactions: s.transactions + page.parsed->0,
        }
    } else {
        PagerModel { finished: true, ..s }
    }
}

/// Pagination over a sequence of pages, from the start.
pub open spec fn run_pages(pages: Seq<PageModel>) -> PagerModel
    decreases pages.len(),
{
    if pages.len() == 0 {
        PagerModel { offset: 0, finished: false, transactions: Seq::empty() }
    } else {
        step_spec(run_pages(pages.drop_last()), pages.last())
    }
}

/// The transactions of the pages, concatenated in order.
pub open spec fn concat_pages(pages: Seq<PageModel>) -> Seq<Transaction>
    decreases pages.len(),
{
    if pages.len() == 0 {
        Seq::empty()
    } else {
        concat_pages(pages.drop_last()) + pages.last().parsed->0
    }
}

/// Pages that each parse to a non-empty list of transactions.
pub open spec fn all_full(pages: Seq<PageModel>) -> bool {
    forall|i: int|
        0 <= i < pages.len() ==> classify(pages[i].body, pages[i].parsed)
            == PageOutcome::Appended
}

/// Whether a page body is empty, white space only, or the not-found message:
/// each of these ends pagination before any parsing.
pub fn is_end_body(body: &str) -> (r: Option<PageOutcome>)
    ensures
        r == (if is_blank(body@) {
            Some(PageOutcome::Blank)
        } else if body@ == not_found_body() {
            Some(PageOutcome::NotFound)
        } else {
            None::<PageOutcome>
        }),
{
    let cs = chars_of(body);
    let mut i: usize = 0;
    while i < cs.len()
        invariant
            cs@ == body@,
            i <= cs@.len(),
            forall|j: int| 0 <= j < i ==> is_space(#[trigger] cs@[j]),
        decreases cs@.len() - i,
    {
        if !char_is_space(cs[i]) {
            let nf = chars_of("Block not found");
            if cs.len() == nf.len() && has_prefix(&cs, &nf) {
                assert(cs@.take(nf@.len() as int) =~= cs@);
                return Some(PageOutcome::NotFound);
            }
            proof {
                if body@ == not_found_body() {
                    assert(cs@.take(nf@.len() as int) =~= cs@);
                }
            }
            return None;
        }
        i = i + 1;
    }
    Some(PageOutcome::Blank)
}

impl Pager {
    /// Pagination that has not yet fetched anything.
    pub fn new() -> (r: Pager)
        ensures
            r@ == run_pages(Seq::empty()),
    {
        Pager { offset: 0, finished: false, transactions: Vec::new() }
    }

    /// Takes in one page: its body and, where the body was parsed, the list of
    /// transactions it held (`None` where it did not parse). Returns what the
    /// page meant; a page offered after pagination has ended changes nothing.
    pub fn on_page(&mut self, body: &str, parsed: Option<Vec<Transaction>>) -> (r: PageOutcome)
        requires
            old(self).offset + PAGE_SIZE <= usize::MAX,
        ensures
            old(self).finished ==> *final(self) == *old(self),
            !old(self).finished ==> r == classify(
                body@,
                match parsed {
                    Some(v) => Some(v@),
                    None => None,
                },
            ),
            final(self)@ == step_spec(
                old(self)@,
                PageModel {
                    body: body@,
                    parsed: match parsed {
                        Some(v) => Some(v@),
                        None => None,
                    },
                },
            ),
    {
        if self.finished {
            return PageOutcome::Blank;
        }
        let outcome = match is_end_body(body) {
            Some(o) => o,
            None => match parsed {
                None => PageOutcome::Unparsed,
                Some(mut page) => {
                    if page.len() == 0 {
                        PageOutcome::NoTransactions
                    } else {
                        self.transactions.append(&mut page);
                        self.offset = self.offset + PAGE_SIZE;
                        PageOutcome::Appended
                    }
                },
            },
        };
        if outcome != PageOutcome::Appended {
            self.finished = true;
        }
        outcome
    }
}

/// Pagination over full pages followed by one page that ends it gathers
/// exactly the transactions of the full pages, in order, with the offset moved
/// on by one page per full page; pages after the end change nothing.
pub proof fn lemma_pagination_gathers_pages(full: Seq<PageModel>, last: PageModel, rest: Seq<PageModel>)
    requires
        all_full(full),
        classify(last.body, last.parsed) != PageOutcome::Appended,
    ensures
        run_pages(full.push(last) + rest).transactions == concat_pages(full),
        run_pages(full.push(last) + rest).transactions.len() == concat_pages(full).len(),
        run_pages(full.push(last) + rest).offset == PAGE_SIZE * full.len(),
        run_pages(full.push(last) + rest).finished,
    decreases rest.len(),
{
    if rest.len() == 0 {
        assert(full.push(last) + rest =~= full.push(last));
        assert(full.push(last).drop_last() =~= full);
        lemma_full_pages(full);
    } else {
        let all = full.push(last) + rest;
        assert(all.drop_last() =~= full.push(last) + rest.drop_last());
        lemma_pagination_gathers_pages(full, last, rest.drop_last());
    }
}

proof fn lemma_full_pages(full: Seq<PageModel>)
    requires
        all_full(full),
    ensures
        run_pages(full).transactions == concat_pages(full),
        run_pages(full).offset == PAGE_SIZE * full.len(),
        !run_pages(full).finished,
    decreases full.len(),
{
    if full.len() > 0 {
        let prefix = full.drop_last();
        assert(all_full(prefix)) by {
            assert forall|i: int| 0 <= i < prefix.len() implies classify(
                prefix[i].body,
                prefix[i].parsed,
            ) == PageOutcome::Appended by {
                assert(prefix[i] == full[i]);
            }
        }
        lemma_full_pages(prefix);
        assert(classify(full.last().body, full.last().parsed) == PageOutcome::Appended);
    }
}

} // verus!
