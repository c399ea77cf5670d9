//! What holds of every reconciliation: each entry goes one way, rows and
//! clips keep the visiting order, and a second run over the grown ledger
//! adds nothing.

use vstd::prelude::*;
use crate::ledger::{row_of, LedgerRow, UNSET};
use crate::reconcile::{
    adding_positions, adds, clips_to_download, fetches, fetching_positions, in_ledger,
    lemma_at_most_one_match, lemma_filter_next, lemma_match_exists, matches_first, outcome,
    ready, row_for, rows_to_add, undated_at, visit_order, DownloadWorkItem, Outcome,
};
use crate::timestamp::rfc3339_utc_year;
use crate::title::without;
use crate::youtube::CatalogItem;

verus! {

proof fn lemma_kept_positions(len: nat, k: int, keep: spec_fn(int) -> bool)
    requires
        0 <= k <= len,
    ensures
        ({
            let kept = visit_order(len).take(k).filter(keep);
            &&& forall|i: int|
                0 <= i < kept.len() ==> len - k <= #[trigger] kept[i] < len && keep(kept[i])
            &&& forall|i: int, j: int| 0 <= i < j < kept.len() ==> kept[i] > kept[j]
            &&& forall|at: int| len - k <= at < len && keep(at) ==> kept.contains(at)
        }),
    decreases k,
{
    let order = visit_order(len);
    let kept = order.take(k).filter(keep);
    if k == 0 {
        reveal(Seq::filter);
    } else {
        let before = order.take(k - 1).filter(keep);
        lemma_kept_positions(len, k - 1, keep);
        lemma_filter_next(order, k - 1, keep);
        assert forall|at: int| len - k <= at < len && keep(at) implies kept.contains(at) by {
            if at == len - k {
                assert(kept[kept.len() - 1] == at);
            } else {
                assert(before.contains(at));
                let i = choose|i: int| 0 <= i < before.len() && before[i] == at;
                assert(kept[i] == at);
            }
        }
    }
}

/// Every catalog entry goes exactly one way. Its position is among those
/// that become new rows exactly if it has a video identifier, no ledger row
/// stores its title and its year is known; it is among those that become
/// clips exactly if it has a video identifier and the first row that stores
/// its title asks for a download; and it is never among both.
pub proof fn lemma_partition(
    catalog: Seq<CatalogItem>,
    ledger: Seq<LedgerRow>,
    marker: Seq<char>,
    at: int,
)
    requires
        0 <= at < catalog.len(),
    ensures
        ({
            let item = catalog[at];
            let title = without(item.title, marker);
            let adding = adding_positions(catalog, ledger, marker).contains(at);
            let fetching = fetching_positions(catalog, ledger, marker).contains(at);
            &&& adding <==> outcome(item, ledger, marker) is Untracked
            &&& adding <==> item.video_id is Some && !in_ledger(ledger, title) && rfc3339_utc_year(
                item.publish_time,
            ) is Some
            &&& fetching <==> outcome(item, ledger, marker) is Ready
            &&& fetching <==> item.video_id is Some && in_ledger(ledger, title) && ready(
                ledger[row_for(ledger, title)],
            )
            &&& !(adding && fetching)
        }),
{
    let order = visit_order(catalog.len());
    assert(order.take(catalog.len() as int) =~= order);
    lemma_kept_positions(catalog.len(), catalog.len() as int, adds(catalog, ledger, marker));
    lemma_kept_positions(catalog.len(), catalog.len() as int, fetches(catalog, ledger, marker));
}

/// Rows and clips come out in visiting order, oldest entry first: the
/// positions that they come from fall strictly from one to the next, so no
/// entry gives two rows or two clips, and each row and each clip is the one
/// of the entry at its position.
pub proof fn lemma_order_preserved(
    catalog: Seq<CatalogItem>,
    ledger: Seq<LedgerRow>,
    marker: Seq<char>,
)
    ensures
        ({
            let from = adding_positions(catalog, ledger, marker);
            let rows = rows_to_add(catalog, ledger, marker);
            &&& rows.len() == from.len()
            &&& forall|i: int, j: int| 0 <= i < j < from.len() ==> from[i] > from[j]
            &&& forall|i: int|
                0 <= i < from.len() ==> 0 <= #[trigger] from[i] < catalog.len() && outcome(
                    catalog[from[i]],
                    ledger,
                    marker,
                ) == (Outcome::Untracked { row: rows[i] })
        }),
        ({
            let from = fetching_positions(catalog, ledger, marker);
            let clips = clips_to_download(catalog, ledger, marker);
            &&& clips.len() == from.len()
            &&& forall|i: int, j: int| 0 <= i < j < from.len() ==> from[i] > from[j]
            &&& forall|i: int|
                0 <= i < from.len() ==> 0 <= #[trigger] from[i] < catalog.len() && outcome(
                    catalog[from[i]],
                    ledger,
                    marker,
                ) == (Outcome::Ready { clip: clips[i] })
        }),
{
    let order = visit_order(catalog.len());
    assert(order.take(catalog.len() as int) =~= order);
    lemma_kept_positions(catalog.len(), catalog.len() as int, adds(catalog, ledger, marker));
    lemma_kept_positions(catalog.len(), catalog.len() as int, fetches(catalog, ledger, marker));
}

/// An empty catalog gives neither rows nor clips, and stops no run.
pub proof fn lemma_empty_catalog(ledger: Seq<LedgerRow>, marker: Seq<char>)
    ensures
        rows_to_add(Seq::empty(), ledger, marker) == Seq::<Seq<Seq<char>>>::empty(),
        clips_to_download(Seq::empty(), ledger, marker) == Seq::<DownloadWorkItem>::empty(),
        forall|at: int| !undated_at(Seq::empty(), ledger, marker, at),
{
}

/// Over an empty ledger no clip is due, and every entry with a video
/// identifier and a known year becomes a new row.
pub proof fn lemma_empty_ledger(catalog: Seq<CatalogItem>, marker: Seq<char>)
    ensures
        clips_to_download(catalog, Seq::empty(), marker) == Seq::<DownloadWorkItem>::empty(),
        forall|at: int|
            0 <= at < catalog.len() ==> (#[trigger] adding_positions(
                catalog,
                Seq::empty(),
                marker,
            ).contains(at) <==> catalog[at].video_id is Some && rfc3339_utc_year(
                catalog[at].publish_time,
            ) is Some),
{
    let ledger = Seq::<LedgerRow>::empty();
    lemma_filter_none(visit_order(catalog.len()), fetches(catalog, ledger, marker));
    assert forall|at: int| 0 <= at < catalog.len() implies (#[trigger] adding_positions(
        catalog,
        ledger,
        marker,
    ).contains(at) <==> catalog[at].video_id is Some && rfc3339_utc_year(
        catalog[at].publish_time,
    ) is Some) by {
        lemma_partition(catalog, ledger, marker, at);
    }
}

/// The ledger once the rows of a run have been appended to it and read
/// back.
pub open spec fn grown(ledger: Seq<LedgerRow>, rows: Seq<Seq<Seq<char>>>) -> Seq<LedgerRow> {
    ledger + rows.map_values(|cells: Seq<Seq<char>>| row_of(cells))
}

proof fn lemma_filter_agrees<A>(s: Seq<A>, p: spec_fn(A) -> bool, q: spec_fn(A) -> bool)
    requires
        forall|i: int| 0 <= i < s.len() ==> p(s[i]) == q(s[i]),
    ensures
        s.filter(p) == s.filter(q),
    decreases s.len(),
{
    reveal(Seq::filter);
    if s.len() > 0 {
        lemma_filter_agrees(s.drop_last(), p, q);
    }
}

proof fn lemma_filter_none<A>(s: Seq<A>, p: spec_fn(A) -> bool)
    requires
        forall|i: int| 0 <= i < s.len() ==> !p(s[i]),
    ensures
        s.filter(p) == Seq::<A>::empty(),
    decreases s.len(),
{
    reveal(Seq::filter);
    if s.len() > 0 {
        lemma_filter_none(s.drop_last(), p);
    }
}

/// What becomes of an entry in a second run over the grown ledger: an entry
/// that gave a new row now has its row, which asks for nothing; every other
/// entry goes the way it went.
pub proof fn lemma_outcome_after(
    catalog: Seq<CatalogItem>,
    ledger: Seq<LedgerRow>,
    marker: Seq<char>,
    at: int,
)
    requires
        0 <= at < catalog.len(),
        !undated_at(catalog, ledger, marker, at),
    ensures
        outcome(catalog[at], grown(ledger, rows_to_add(catalog, ledger, marker)), marker) == (
        match outcome(catalog[at], ledger, marker) {
            Outcome::Untracked { .. } => Outcome::Settled,
            other => other,
        }),
{
    let rows = rows_to_add(catalog, ledger, marker);
    let from = adding_positions(catalog, ledger, marker);
    let after = grown(ledger, rows);
    let item = catalog[at];
    lemma_order_preserved(catalog, ledger, marker);
    if let Some(id) = item.video_id {
        let title = without(item.title, marker);
        if in_ledger(ledger, title) {
            // The first row that stores the title stays the first.
            let j = row_for(ledger, title);
            lemma_match_exists(ledger, title);
            assert(matches_first(after, title, j));
            lemma_at_most_one_match(after, title, j, row_for(after, title));
        } else {
            lemma_partition(catalog, ledger, marker, at);
            // The entry gave a row, and that row now stores its title.
            let i = choose|i: int| 0 <= i < from.len() && from[i] == at;
            assert(after[ledger.len() + i] == row_of(rows[i]));
            assert(in_ledger(after, title));
            lemma_match_exists(after, title);
            let j = row_for(after, title);
            // No row of the old ledger stores the title, so the match is one
            // of the appended rows, and their clip windows are unset.
            let k = j - ledger.len();
            assert(after[j] == row_of(rows[k]));
            assert(outcome(catalog[from[k]], ledger, marker) == (Outcome::Untracked {
                row: rows[k],
            }));
            assert(row_of(rows[k]).start_time == UNSET@);
        }
    }
}

/// A second run over the grown ledger adds nothing. Where a run has come to
/// its end and its rows have been appended, the next run over the same
/// catalog comes to its end too, gives no row, and gives the same clips.
pub proof fn lemma_second_run_adds_nothing(
    catalog: Seq<CatalogItem>,
    ledger: Seq<LedgerRow>,
    marker: Seq<char>,
)
    requires
        forall|at: int| !undated_at(catalog, ledger, marker, at),
    ensures
        ({
            let after = grown(ledger, rows_to_add(catalog, ledger, marker));
            &&& forall|at: int| !undated_at(catalog, after, marker, at)
            &&& rows_to_add(catalog, after, marker) == Seq::<Seq<Seq<char>>>::empty()
            &&& clips_to_download(catalog, after, marker) == clips_to_download(
                catalog,
                ledger,
                marker,
            )
        }),
{
    let after = grown(ledger, rows_to_add(catalog, ledger, marker));
    let order = visit_order(catalog.len());
    assert forall|at: int| 0 <= at < catalog.len() implies outcome(catalog[at], after, marker) == (
    match outcome(catalog[at], ledger, marker) {
        Outcome::Untracked { .. } => Outcome::Settled,
        other => other,
    }) by {
        lemma_outcome_after(catalog, ledger, marker, at);
    }
    assert forall|at: int| !undated_at(catalog, after, marker, at) by {
        assert(!undated_at(catalog, ledger, marker, at));
    }
    lemma_filter_none(order, adds(catalog, after, marker));
    lemma_filter_agrees(
        order,
        fetches(catalog, after, marker),
        fetches(catalog, ledger, marker),
    );
    lemma_order_preserved(catalog, ledger, marker);
}

} // verus!
