//! Choosing, among the papers that a search gave, those published in a window
//! of time.

use crate::model::config::Config;
use crate::model::paper::{papers_view, PaperModel, PaperView};
use crate::model::time::{rfc3339_instant, Instant, TimeWindow};
use std::sync::Arc;
use vstd::prelude::*;
use vstd::string::StringExecFns;

verus! {

/// How many papers one run takes.
pub const MAX_PAPERS: usize = 2;

/// The window opens this many days before the run.
pub const WINDOW_OPENS_DAYS_AGO: u32 = 6;

/// The window closes this many days before the run.
pub const WINDOW_CLOSES_DAYS_AGO: u32 = 5;

/// Why the papers of a search could not be chosen from.
#[derive(Clone, Copy, Debug, PartialEq, Eq, Structural)]
pub enum PaperError {
    /// The paper at `index` carries a publication time that cannot be read.
    MalformedInput { index: usize },
}

/// A publication time that was read and lies in the window.
pub open spec fn qualifies(stamp: Option<Instant>, window: TimeWindow) -> bool {
    stamp is Some && window.covers(stamp->0)
}

/// The places, among the first `n`, of the papers that are taken: going through
/// them in order, a paper is taken where its time lies in the window and fewer
/// than `cap` were taken before it.
pub open spec fn selection(
    stamps: Seq<Option<Instant>>,
    window: TimeWindow,
    cap: nat,
    n: nat,
) -> Seq<int>
    decreases n,
{
    if n == 0 {
        Seq::empty()
    } else {
        let earlier = selection(stamps, window, cap, (n - 1) as nat);
        if earlier.len() < cap && qualifies(stamps[n - 1], window) {
            earlier.push(n - 1)
        } else {
            earlier
        }
    }
}

/// The paper at `i` is looked at, since fewer than `cap` were taken before it,
/// and its publication time cannot be read.
pub open spec fn fatal_at(stamps: Seq<Option<Instant>>, window: TimeWindow, cap: nat, i: int) -> bool {
    0 <= i < stamps.len() && stamps[i] is None && selection(stamps, window, cap, i as nat).len()
        < cap
}

/// A selection never holds more than `cap` places, each of them is below `n`, and
/// they stand in rising order.
pub proof fn lemma_selection_bounds(
    stamps: Seq<Option<Instant>>,
    window: TimeWindow,
    cap: nat,
    n: nat,
)
    ensures
        selection(stamps, window, cap, n).len() <= cap,
        selection(stamps, window, cap, n).len() <= n,
        forall|j: int|
            0 <= j < selection(stamps, window, cap, n).len() ==> 0 <= #[trigger] selection(
                stamps,
                window,
                cap,
                n,
            )[j] < n,
        forall|j: int, k: int|
            0 <= j < k < selection(stamps, window, cap, n).len() ==> selection(
                stamps,
                window,
                cap,
                n,
            )[j] < selection(stamps, window, cap, n)[k],
    decreases n,
{
    if n > 0 {
        lemma_selection_bounds(stamps, window, cap, (n - 1) as nat);
    }
}

/// Once `cap` papers are taken, going on takes no more.
pub proof fn lemma_selection_full(
    stamps: Seq<Option<Instant>>,
    window: TimeWindow,
    cap: nat,
    n: nat,
    m: nat,
)
    requires
        n <= m,
        selection(stamps, window, cap, n).len() >= cap,
    ensures
        selection(stamps, window, cap, m) == selection(stamps, window, cap, n),
    decreases m,
{
    if n < m {
        lemma_selection_full(stamps, window, cap, n, (m - 1) as nat);
    }
}

/// Goes through the publication times in order and takes the places of those that
/// lie in `window`, until `cap` are taken or the times run out. A time that could
/// not be read, met on the way, ends the search with an error that names its
/// place; one that stands behind the place where the search stops is never
/// looked at.
pub fn select(stamps: &Vec<Option<Instant>>, window: &TimeWindow, cap: usize) -> (r: Result<
    Vec<usize>,
    PaperError,
>)
    ensures
        r is Err <==> exists|i: int| fatal_at(stamps@, *window, cap as nat, i),
        match r {
            Ok(places) => places@.map_values(|p: usize| p as int) == selection(
                stamps@,
                *window,
                cap as nat,
                stamps@.len(),
            ),
            Err(PaperError::MalformedInput { index }) => fatal_at(
                stamps@,
                *window,
                cap as nat,
                index as int,
            ) && forall|j: int| 0 <= j < index ==> !fatal_at(stamps@, *window, cap as nat, j),
        },
{
    let mut places: Vec<usize> = Vec::new();
    let mut i: usize = 0;
    while i < stamps.len() && places.len() < cap
        invariant
            i <= stamps@.len(),
            places@.map_values(|p: usize| p as int) == selection(
                stamps@,
                *window,
                cap as nat,
                i as nat,
            ),
            forall|j: int| 0 <= j < i ==> !fatal_at(stamps@, *window, cap as nat, j),
        decreases stamps@.len() - i,
    {
        match stamps[i] {
            None => {
                assert(places@.map_values(|p: usize| p as int).len() == places@.len());
                assert(fatal_at(stamps@, *window, cap as nat, i as int));
                return Err(PaperError::MalformedInput { index: i });
            },
            Some(instant) => {
                if window.contains(&instant) {
                    places.push(i);
                    assert(places@.map_values(|p: usize| p as int) =~= selection(
                        stamps@,
                        *window,
                        cap as nat,
                        i as nat,
                    ).push(i as int));
                }
            },
        }
        i += 1;
    }
    proof {
        let taken = selection(stamps@, *window, cap as nat, i as nat);
        assert(taken.len() == places@.len());
        if i < stamps@.len() {
            lemma_selection_full(stamps@, *window, cap as nat, i as nat, stamps@.len());
            assert forall|j: int| i <= j < stamps@.len() implies !fatal_at(
                stamps@,
                *window,
                cap as nat,
                j,
            ) by {
                lemma_selection_full(stamps@, *window, cap as nat, i as nat, j as nat);
            }
        }
    }
    Ok(places)
}

/// Every place of a selection holds a time that was read and lies in the window.
pub proof fn lemma_selection_in_window(
    stamps: Seq<Option<Instant>>,
    window: TimeWindow,
    cap: nat,
    n: nat,
)
    requires
        n <= stamps.len(),
    ensures
        forall|j: int|
            0 <= j < selection(stamps, window, cap, n).len() ==> qualifies(
                stamps[#[trigger] selection(stamps, window, cap, n)[j]],
                window,
            ),
    decreases n,
{
    if n > 0 {
        let earlier = selection(stamps, window, cap, (n - 1) as nat);
        let taken = selection(stamps, window, cap, n);
        lemma_selection_in_window(stamps, window, cap, (n - 1) as nat);
        assert forall|j: int| 0 <= j < taken.len() implies qualifies(
            stamps[#[trigger] taken[j]],
            window,
        ) by {
            if j < earlier.len() {
                assert(taken[j] == earlier[j]);
            }
        }
    }
}

/// A place below `n` is taken exactly where its time lies in the window and fewer
/// than `cap` places before it were taken.
pub proof fn lemma_selection_exact(
    stamps: Seq<Option<Instant>>,
    window: TimeWindow,
    cap: nat,
    n: nat,
    i: int,
)
    requires
        0 <= i < n <= stamps.len(),
    ensures
        selection(stamps, window, cap, n).contains(i) <==> qualifies(stamps[i], window)
            && selection(stamps, window, cap, i as nat).len() < cap,
    decreases n,
{
    let earlier = selection(stamps, window, cap, (n - 1) as nat);
    let taken = selection(stamps, window, cap, n);
    lemma_selection_bounds(stamps, window, cap, (n - 1) as nat);
    if i < n - 1 {
        lemma_selection_exact(stamps, window, cap, (n - 1) as nat, i);
        if earlier.contains(i) {
            let j = choose|j: int| 0 <= j < earlier.len() && earlier[j] == i;
            assert(taken[j] == i);
        }
        if taken.contains(i) {
            let j = choose|j: int| 0 <= j < taken.len() && taken[j] == i;
            assert(earlier[j] == i);
        }
    } else {
        if taken.contains(i) {
            let j = choose|j: int| 0 <= j < taken.len() && taken[j] == i;
            if j < earlier.len() {
                assert(earlier[j] == i);
            }
        }
        if qualifies(stamps[i], window) && earlier.len() < cap {
            assert(taken[earlier.len() as int] == i);
        }
    }
}

/// The publication times of `papers`, each read as an RFC 3339 time stamp.
pub open spec fn stamps_of(papers: Seq<PaperModel>) -> Seq<Option<Instant>> {
    papers.map_values(|p: PaperModel| rfc3339_instant(p.published@))
}

/// The papers of `papers` at `places`, in the order of the places.
pub open spec fn chosen(papers: Seq<PaperModel>, places: Seq<int>) -> Seq<PaperView> {
    places.map_values(|k: int| papers[k]@)
}

/// Reads the publication time of every paper.
pub fn published_instants(papers: &Vec<PaperModel>) -> (r: Vec<Option<Instant>>)
    ensures
        r@ == stamps_of(papers@),
{
    let mut stamps: Vec<Option<Instant>> = Vec::new();
    let mut i: usize = 0;
    while i < papers.len()
        invariant
            i <= papers@.len(),
            stamps@.len() == i,
            forall|k: int| 0 <= k < i ==> #[trigger] stamps@[k] == rfc3339_instant(papers@[k].published@),
        decreases papers@.len() - i,
    {
        stamps.push(Instant::parse_rfc3339(papers[i].published.as_str()));
        i += 1;
    }
    assert(stamps@ =~= stamps_of(papers@));
    stamps
}

/// Takes from `candidates`, in the order in which they come, the papers published
/// within `window`, and stops at `cap` of them. The order is expected to run from
/// the newest paper to the oldest; where it does not, the papers taken are still the
/// first `cap` in the window, not the newest. A paper whose time cannot be read,
/// met before the search stops, is an error, and no paper is returned.
pub fn filter(candidates: &Vec<PaperModel>, window: &TimeWindow, cap: usize) -> (r: Result<
    Vec<PaperModel>,
    PaperError,
>)
    ensures
        r is Err <==> exists|i: int| fatal_at(stamps_of(candidates@), *window, cap as nat, i),
        match r {
            Ok(batch) => {
                &&& papers_view(batch@) == chosen(
                    candidates@,
                    selection(stamps_of(candidates@), *window, cap as nat, candidates@.len()),
                )
                &&& batch@.len() <= cap
                &&& forall|j: int|
                    0 <= j < batch@.len() ==> qualifies(
                        rfc3339_instant((#[trigger] batch@[j]).published@),
                        *window,
                    )
            },
            Err(PaperError::MalformedInput { index }) => fatal_at(
                stamps_of(candidates@),
                *window,
                cap as nat,
                index as int,
            ) && forall|j: int|
                0 <= j < index ==> !fatal_at(stamps_of(candidates@), *window, cap as nat, j),
        },
{
    let stamps = published_instants(candidates);
    let places = match select(&stamps, window, cap) {
        Ok(places) => places,
        Err(error) => {
            return Err(error);
        },
    };
    let ghost taken = selection(stamps@, *window, cap as nat, stamps@.len());
    proof {
        lemma_selection_bounds(stamps@, *window, cap as nat, stamps@.len());
        lemma_selection_in_window(stamps@, *window, cap as nat, stamps@.len());
        assert(places@.len() == taken.len());
        assert(forall|j: int| 0 <= j < places@.len() ==> places@[j] as int == #[trigger] taken[j]);
    }
    let mut batch: Vec<PaperModel> = Vec::new();
    let mut j: usize = 0;
    while j < places.len()
        invariant
            j <= places@.len(),
            places@.len() == taken.len(),
            batch@.len() == j,
            forall|k: int| 0 <= k < places@.len() ==> places@[k] as int == #[trigger] taken[k],
            forall|k: int| 0 <= k < taken.len() ==> 0 <= #[trigger] taken[k] < candidates@.len(),
            forall|k: int| 0 <= k < j ==> (#[trigger] batch@[k])@ == candidates@[taken[k]]@,
        decreases places@.len() - j,
    {
        assert(taken[j as int] == places@[j as int]);
        batch.push(candidates[places[j]].copy());
        j += 1;
    }
    proof {
        assert(papers_view(batch@) =~= chosen(candidates@, taken));
        assert forall|k: int| 0 <= k < batch@.len() implies qualifies(
            rfc3339_instant((#[trigger] batch@[k]).published@),
            *window,
        ) by {
            assert(batch@[k]@ == candidates@[taken[k]]@);
            assert(qualifies(stamps@[taken[k]], *window));
        }
    }
    Ok(batch)
}

/// The window that a run at `now` looks at: the day that ends five days before.
pub open spec fn search_window(now: Instant) -> TimeWindow {
    TimeWindow { start: now.days_earlier(6)->0, end: now.days_earlier(5)->0 }
}

/// How many papers a search is asked for.
pub const MAX_RESULTS: i32 = 100;

/// What the search service is asked: the query, the place of the first result,
/// how many results, and what to sort them by.
#[derive(Debug, Clone, PartialEq, Eq)]
pub struct SearchRequest {
    pub search_query: String,
    pub start: i32,
    pub max_results: i32,
    pub sort_by: String,
}

/// The search client, as far as it computes: it holds the settings and chooses
/// among what a search gave.
pub struct ArxivClient {
    pub config: Arc<Config>,
}

impl ArxivClient {
    pub fn new(config: Arc<Config>) -> (r: Self)
        ensures
            r.config == config,
    {
        Self { config }
    }

    /// The search to make: the first hundred papers that match the query of the
    /// settings, sorted by the date on which they were handed in.
    pub fn search_request(&self) -> (r: SearchRequest)
        ensures
            r.search_query@ == self.config.arxiv_query@,
            r.start == 0,
            r.max_results == MAX_RESULTS,
            r.sort_by@ == "submittedDate"@,
    {
        SearchRequest {
            search_query: self.config.arxiv_query.clone(),
            start: 0,
            max_results: MAX_RESULTS,
            sort_by: String::from_str("submittedDate"),
        }
    }

    /// Of the papers `found` by a search that lists the newest first, takes the
    /// first two that were published in the day that ended five days before `now`,
    /// each as it was found. An unreadable publication time, met before two
    /// papers are taken, is an error.
    pub fn search_past_5_to_6_days(&self, found: &Vec<PaperModel>, now: Instant) -> (r: Result<
        Vec<PaperModel>,
        PaperError,
    >)
        requires
            now.days_earlier(6) is Some,
        ensures
            r is Err <==> exists|i: int|
                fatal_at(stamps_of(found@), search_window(now), MAX_PAPERS as nat, i),
            match r {
                Ok(papers) => {
                    &&& papers_view(papers@) == chosen(
                        found@,
                        selection(
                            stamps_of(found@),
                            search_window(now),
                            MAX_PAPERS as nat,
                            found@.len(),
                        ),
                    )
                    &&& papers@.len() <= MAX_PAPERS
                    &&& forall|j: int|
                        0 <= j < papers@.len() ==> qualifies(
                            rfc3339_instant((#[trigger] papers@[j]).published@),
                            search_window(now),
                        )
                },
                Err(PaperError::MalformedInput { index }) => fatal_at(
                    stamps_of(found@),
                    search_window(now),
                    MAX_PAPERS as nat,
                    index as int,
                ) && forall|j: int|
                    0 <= j < index ==> !fatal_at(
                        stamps_of(found@),
                        search_window(now),
                        MAX_PAPERS as nat,
                        j,
                    ),
            },
    {
        let window = TimeWindow::days_ago(
            now,
            WINDOW_OPENS_DAYS_AGO,
            WINDOW_CLOSES_DAYS_AGO,
        ).unwrap();
        assert(window == search_window(now));
        filter(found, &window, MAX_PAPERS)
    }
}

} // verus!
