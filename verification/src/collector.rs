//! Gathering the pages of a search into one list.
//!
//! The collector decides; the caller fetches. A run starts with
//! [`Collector::begin`]. The caller executes the query and hands each outcome
//! to [`Collector::on_fetch`], which either asks for the next page or ends the
//! run with what was gathered.

use crate::item::Item;
use vstd::prelude::*;

verus! {

/// One fetched batch: the number of matches that the server reports for the
/// whole search, and the items of this page in the order received.
#[derive(Clone, Debug, PartialEq, Eq)]
pub struct Page {
    pub total_count: u64,
    pub items: Vec<Item>,
}

/// The outcome of one fetch.
#[derive(Clone, Debug, PartialEq, Eq)]
pub enum Fetched {
    Page(Page),
    Failed,
}

/// How a run ended.
#[derive(Clone, Debug, PartialEq, Eq)]
pub enum Collected {
    /// The budget was met: every expected item has been gathered.
    Complete(Vec<Item>),
    /// A page after the first could not be fetched. The items of the pages
    /// before it are kept.
    Partial(Vec<Item>),
    /// The first page could not be fetched. Nothing was gathered.
    Fatal,
}

/// [`Collected`] over sequences.
pub enum Gathered {
    Complete(Seq<Item>),
    Partial(Seq<Item>),
    Fatal,
}

impl View for Collected {
    type V = Gathered;

    open spec fn view(&self) -> Gathered {
        match self {
            Collected::Complete(items) => Gathered::Complete(items@),
            Collected::Partial(items) => Gathered::Partial(items@),
            Collected::Fatal => Gathered::Fatal,
        }
    }
}

/// The state of a run between two fetches.
#[derive(Debug)]
pub struct Collector {
    cap: Option<u64>,
    awaiting_first: bool,
    budget: u64,
    items: Vec<Item>,
}

/// What a [`Collector`] holds.
pub struct Progress {
    /// The limit on the budget, if one was chosen.
    pub cap: Option<u64>,
    /// No page has been handed in yet.
    pub awaiting_first: bool,
    /// The number of items still expected. Meaningful once the first page
    /// has been seen.
    pub budget: u64,
    /// The items gathered so far, in fetch order.
    pub items: Seq<Item>,
}

impl Progress {
    /// Nothing is gathered before the first page has been seen, and a run
    /// that goes on after it still expects items.
    pub open spec fn well_formed(self) -> bool {
        if self.awaiting_first {
            self.items.len() == 0
        } else {
            self.budget > 0
        }
    }
}

impl View for Collector {
    type V = Progress;

    closed spec fn view(&self) -> Progress {
        Progress {
            cap: self.cap,
            awaiting_first: self.awaiting_first,
            budget: self.budget,
            items: self.items@,
        }
    }
}

/// What the collector answers to a fetch.
#[derive(Debug)]
pub enum Step {
    /// More items are expected: advance the query to its next page, execute
    /// it, and hand the outcome to the collector returned here.
    NextPage(Collector),
    /// The run is over.
    Done(Collected),
}

/// [`Step`] over views.
pub enum StepView {
    NextPage(Progress),
    Done(Gathered),
}

impl View for Step {
    type V = StepView;

    open spec fn view(&self) -> StepView {
        match self {
            Step::NextPage(collector) => StepView::NextPage(collector@),
            Step::Done(collected) => StepView::Done(collected@),
        }
    }
}

/// The budget that a run starts with: the total that the first page
/// reports, or the cap where that is smaller.
pub open spec fn initial_budget(cap: Option<u64>, total_count: u64) -> u64 {
    match cap {
        Some(limit) if limit < total_count => limit,
        _ => total_count,
    }
}

/// The budget that is left of `budget` once `taken` items have been
/// gathered: it stops at zero.
pub open spec fn budget_after(budget: u64, taken: nat) -> u64 {
    if taken >= budget {
        0
    } else {
        (budget - taken) as u64
    }
}

/// The state that a run starts in.
pub open spec fn initial_progress(cap: Option<u64>) -> Progress {
    Progress { cap, awaiting_first: true, budget: 0, items: Seq::empty() }
}

/// The collector's answer to one fetch.
///
/// A failed fetch ends the run: fatally when it was the first, else with the
/// items gathered before it. A page is appended whole. The first page also
/// sets the budget. The run is complete once the budget is used up, and
/// otherwise asks for the next page.
pub open spec fn step(state: Progress, outcome: Fetched) -> StepView {
    match outcome {
        Fetched::Failed => StepView::Done(
            if state.awaiting_first {
                Gathered::Fatal
            } else {
                Gathered::Partial(state.items)
            },
        ),
        Fetched::Page(page) => {
            let budget = if state.awaiting_first {
                initial_budget(state.cap, page.total_count)
            } else {
                state.budget
            };
            let left = budget_after(budget, page.items@.len());
            let items = state.items + page.items@;
            if left == 0 {
                StepView::Done(Gathered::Complete(items))
            } else {
                StepView::NextPage(
                    Progress { cap: state.cap, awaiting_first: false, budget: left, items },
                )
            }
        },
    }
}

impl Collector {
    /// Starts a run. With `cap` of `Some(limit)` the run expects at most
    /// `limit` items, whatever total the server reports. With `None` it
    /// expects the reported total.
    pub fn begin(cap: Option<u64>) -> (collector: Collector)
        ensures
            collector@ == initial_progress(cap),
    {
        Collector { cap, awaiting_first: true, budget: 0, items: Vec::new() }
    }

    /// Takes the outcome of the fetch that the collector was waiting for and
    /// says what to do next.
    pub fn on_fetch(self, outcome: Fetched) -> (next: Step)
        ensures
            next@ == step(self@, outcome),
    {
        let Collector { cap, awaiting_first, budget, items } = self;
        match outcome {
            Fetched::Failed => {
                if awaiting_first {
                    Step::Done(Collected::Fatal)
                } else {
                    Step::Done(Collected::Partial(items))
                }
            },
            Fetched::Page(page) => {
                let Page { total_count, items: fetched } = page;
                let budget: u64 = if awaiting_first {
                    match cap {
                        Some(limit) if limit < total_count => limit,
                        _ => total_count,
                    }
                } else {
                    budget
                };
                let taken: usize = fetched.len();
                let left: u64 = if taken as u64 >= budget {
                    0
                } else {
                    budget - taken as u64
                };
                let mut items = items;
                let mut fetched = fetched;
                items.append(&mut fetched);
                if left == 0 {
                    Step::Done(Collected::Complete(items))
                } else {
                    Step::NextPage(Collector { cap, awaiting_first: false, budget: left, items })
                }
            },
        }
    }
}

/// The items that a fetch brought: those of its page, none where it failed.
pub open spec fn items_of(outcome: Fetched) -> Seq<Item> {
    match outcome {
        Fetched::Page(page) => page.items@,
        Fetched::Failed => Seq::empty(),
    }
}

/// The items of the first `n` fetches of a script, in fetch order.
pub open spec fn gathered(script: Seq<Fetched>, n: int) -> Seq<Item>
    decreases n,
{
    if n <= 0 {
        Seq::empty()
    } else {
        gathered(script, n - 1) + items_of(script[n - 1])
    }
}

/// The budget of a run over `script`: set by its first fetch.
pub open spec fn budget_of(script: Seq<Fetched>, cap: Option<u64>) -> u64
    recommends
        script.len() > 0,
{
    match script[0] {
        Fetched::Page(page) => initial_budget(cap, page.total_count),
        Fetched::Failed => 0,
    }
}

/// A run that gets as far as its `n`-th fetch ends there: that fetch failed,
/// or with it the items gathered reach the budget.
pub open spec fn halts_at(script: Seq<Fetched>, cap: Option<u64>, n: int) -> bool {
    &&& 1 <= n <= script.len()
    &&& script[n - 1] is Failed || gathered(script, n).len() >= budget_of(script, cap)
}

/// The run over `script` makes exactly `n` fetches.
pub open spec fn run_ends_at(script: Seq<Fetched>, cap: Option<u64>, n: int) -> bool {
    &&& halts_at(script, cap, n)
    &&& forall|earlier: int| 1 <= earlier < n ==> !halts_at(script, cap, earlier)
}

/// What a run that ends with its `n`-th fetch has gathered.
pub open spec fn outcome_at(script: Seq<Fetched>, n: int) -> Gathered
    recommends
        1 <= n <= script.len(),
{
    if script[n - 1] is Failed {
        if n == 1 {
            Gathered::Fatal
        } else {
            Gathered::Partial(gathered(script, n - 1))
        }
    } else {
        Gathered::Complete(gathered(script, n))
    }
}

/// The state of a run over `script` that has made `n` fetches and has not
/// ended: it holds the items of those fetches, and expects what they left
/// of the budget.
pub open spec fn progress_after(script: Seq<Fetched>, cap: Option<u64>, n: int) -> Progress {
    if n <= 0 {
        initial_progress(cap)
    } else {
        Progress {
            cap,
            awaiting_first: false,
            budget: (budget_of(script, cap) - gathered(script, n).len()) as u64,
            items: gathered(script, n),
        }
    }
}

/// Stepping follows the script. A collector that has taken the first `n`
/// fetches of a script without ending answers the next one by ending the
/// run, with the outcome of a run of `n + 1` fetches, exactly when the run
/// halts there; otherwise it asks for another page and has taken `n + 1`
/// fetches.
pub proof fn lemma_step_follows_script(script: Seq<Fetched>, cap: Option<u64>, n: int)
    requires
        0 <= n < script.len(),
        forall|earlier: int| 1 <= earlier <= n ==> !halts_at(script, cap, earlier),
    ensures
        progress_after(script, cap, n).well_formed(),
        step(progress_after(script, cap, n), script[n]) == if halts_at(script, cap, n + 1) {
            StepView::Done(outcome_at(script, n + 1))
        } else {
            StepView::NextPage(progress_after(script, cap, n + 1))
        },
{
    if n > 0 {
        assert(!halts_at(script, cap, n));
    }
}

/// A finished run: what it gathered and how many fetches it made.
#[derive(Clone, Debug, PartialEq, Eq)]
pub struct Run {
    pub collected: Collected,
    pub fetches: usize,
}

/// Runs a collector over a recorded source: `script[k]` is what the source
/// answers to the fetch of page `k + 1`.
///
/// The run makes its fetches in order and ends with the first that fails or
/// that brings the gathered items up to the budget. The rest of the script is
/// not looked at. `None` when the script gives out before the run has ended.
pub fn collect_all(script: Vec<Fetched>, cap: Option<u64>) -> (r: Option<Run>)
    ensures
        match r {
            Some(run) => {
                &&& run_ends_at(script@, cap, run.fetches as int)
                &&& run.collected@ == outcome_at(script@, run.fetches as int)
            },
            None => forall|n: int| !halts_at(script@, cap, n),
        },
{
    let ghost whole = script@;
    assert(whole.len() == script.len());
    let mut collector = Collector::begin(cap);
    let mut fetches: usize = 0;
    for outcome in it: script.into_iter()
        invariant
            it.seq() == whole,
            whole.len() <= usize::MAX,
            fetches == it.index(),
            collector@ == progress_after(whole, cap, fetches as int),
            forall|earlier: int| 1 <= earlier <= fetches ==> !halts_at(whole, cap, earlier),
    {
        proof {
            lemma_step_follows_script(whole, cap, fetches as int);
        }
        fetches = fetches + 1;
        match collector.on_fetch(outcome) {
            Step::Done(collected) => {
                return Some(Run { collected, fetches });
            },
            Step::NextPage(next) => {
                collector = next;
            },
        }
    }
    None
}

/// A run starts well formed, and every state in which the collector asks
/// for another page is well formed.
pub proof fn lemma_progress_stays_well_formed(cap: Option<u64>, state: Progress, outcome: Fetched)
    ensures
        initial_progress(cap).well_formed(),
        step(state, outcome) matches StepView::NextPage(next) ==> next.well_formed()
            && !next.awaiting_first && next.cap == state.cap,
{
}

/// A run has one length: if it ends with its `m`-th fetch and with its
/// `n`-th, then `m == n`.
pub proof fn lemma_run_length_is_unique(script: Seq<Fetched>, cap: Option<u64>, m: int, n: int)
    requires
        run_ends_at(script, cap, m),
        run_ends_at(script, cap, n),
    ensures
        m == n,
{
}

/// When the first fetch fails the run ends there, fatally, with nothing
/// gathered.
pub proof fn lemma_first_failure_is_fatal(script: Seq<Fetched>, cap: Option<u64>)
    requires
        script.len() > 0,
        script[0] is Failed,
    ensures
        run_ends_at(script, cap, 1),
        outcome_at(script, 1) == Gathered::Fatal,
{
}

/// When a run gets as far as fetch `k > 1` and that fetch fails, the run ends
/// there, not fatally, and keeps the items of the `k - 1` pages before it,
/// each of which was fetched.
pub proof fn lemma_later_failure_keeps_earlier_pages(
    script: Seq<Fetched>,
    cap: Option<u64>,
    k: int,
)
    requires
        1 < k <= script.len(),
        script[k - 1] is Failed,
        forall|earlier: int| 1 <= earlier < k ==> !halts_at(script, cap, earlier),
    ensures
        run_ends_at(script, cap, k),
        outcome_at(script, k) == Gathered::Partial(gathered(script, k - 1)),
        forall|i: int| 0 <= i < k - 1 ==> script[i] is Page,
{
    assert forall|i: int| 0 <= i < k - 1 implies script[i] is Page by {
        assert(!halts_at(script, cap, i + 1));
    }
}

/// The number of pages of `page_size` items that it takes to hold `count`
/// items: `count / page_size`, rounded up.
pub open spec fn pages_needed(count: nat, page_size: nat) -> nat
    recommends
        page_size > 0,
{
    ((count + page_size - 1) / (page_size as int)) as nat
}

/// The number of items on page `index`, counted from 0, of a source that
/// holds `total` matches and serves them `page_size` to a page.
pub open spec fn page_len(total: nat, page_size: nat, index: int) -> nat {
    let before = index * page_size;
    if before >= total {
        0
    } else if total - before < page_size {
        (total - before) as nat
    } else {
        page_size
    }
}

/// `script` is what a source with `total` matches answers, page by page,
/// when every fetch succeeds: as many pages as it takes, each reporting
/// `total`, each full but, where `total` is no multiple of `page_size`, the
/// last.
pub open spec fn serves_all(script: Seq<Fetched>, total: u64, page_size: nat) -> bool {
    &&& script.len() == pages_needed(total as nat, page_size)
    &&& forall|i: int|
        0 <= i < script.len() ==> {
            &&& (#[trigger] script[i]) matches Fetched::Page(page)
            &&& page.total_count == total
            &&& page.items@.len() == page_len(total as nat, page_size, i)
        }
}

/// The least of two numbers.
pub open spec fn least(a: int, b: int) -> int {
    if a <= b {
        a
    } else {
        b
    }
}

proof fn lemma_pages_needed_bounds(count: nat, page_size: nat)
    requires
        count > 0,
        page_size > 0,
    ensures
        pages_needed(count, page_size) >= 1,
        (pages_needed(count, page_size) - 1) * page_size < count,
        count <= pages_needed(count, page_size) * page_size,
{
    let x = count + page_size - 1;
    let d = page_size as int;
    let k = x / d;
    vstd::arithmetic::div_mod::lemma_fundamental_div_mod(x, d);
    vstd::arithmetic::div_mod::lemma_mod_bound(x, d);
    assert((k - 1) * d == k * d - d) by (nonlinear_arith);
    assert(k >= 1) by (nonlinear_arith)
        requires
            d * k >= count,
            count > 0,
            d > 0,
    ;
}

proof fn lemma_gathered_len(script: Seq<Fetched>, total: u64, page_size: nat, n: int)
    requires
        total > 0,
        page_size > 0,
        serves_all(script, total, page_size),
        0 <= n <= script.len(),
    ensures
        gathered(script, n).len() == least(total as int, n * page_size),
    decreases n,
{
    if n > 0 {
        lemma_gathered_len(script, total, page_size, n - 1);
        lemma_pages_needed_bounds(total as nat, page_size);
        let k = pages_needed(total as nat, page_size) as int;
        let p = page_size as int;
        assert((n - 1) * p <= (k - 1) * p) by (nonlinear_arith)
            requires
                n <= k,
                p > 0,
        ;
        assert(n * p == (n - 1) * p + p) by (nonlinear_arith);
    } else {
        assert(n * page_size == 0) by (nonlinear_arith)
            requires
                n == 0,
        ;
    }
}

/// Exhaustion. A source with `total > 0` matches that serves `page_size`
/// items to a page and never fails is read in `budget / page_size` fetches,
/// rounded up, where `budget` is `total`, or the cap where that is smaller.
/// The run is complete and has gathered the whole of each page fetched.
/// Without a cap that is `total / page_size` fetches, rounded up, and
/// exactly `total` items.
pub proof fn lemma_exhaustion(
    script: Seq<Fetched>,
    cap: Option<u64>,
    total: u64,
    page_size: nat,
)
    requires
        total > 0,
        page_size > 0,
        cap != Some(0u64),
        serves_all(script, total, page_size),
    ensures
        ({
            let fetches = pages_needed(initial_budget(cap, total) as nat, page_size) as int;
            &&& run_ends_at(script, cap, fetches)
            &&& outcome_at(script, fetches) == Gathered::Complete(gathered(script, fetches))
            &&& gathered(script, fetches).len() == least(total as int, fetches * page_size)
            &&& cap is None ==> {
                &&& fetches == pages_needed(total as nat, page_size)
                &&& gathered(script, fetches).len() == total
            }
        }),
{
    let budget = initial_budget(cap, total);
    let p = page_size as int;
    let k = pages_needed(budget as nat, page_size) as int;
    let all = pages_needed(total as nat, page_size) as int;
    lemma_pages_needed_bounds(budget as nat, page_size);
    lemma_pages_needed_bounds(total as nat, page_size);
    assert(k <= all) by (nonlinear_arith)
        requires
            (k - 1) * p < budget,
            budget <= total,
            total <= all * p,
            p > 0,
    ;
    lemma_gathered_len(script, total, page_size, k);
    assert forall|earlier: int| 1 <= earlier < k implies !halts_at(script, cap, earlier) by {
        lemma_gathered_len(script, total, page_size, earlier);
        assert(earlier * p <= (k - 1) * p) by (nonlinear_arith)
            requires
                earlier <= k - 1,
                p > 0,
        ;
    }
}

} // verus!
