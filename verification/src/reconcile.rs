//! The reconciliation: which catalog entries become new ledger rows, and
//! which become clips to download.

use vstd::prelude::*;
use crate::error::SyncError;
use crate::ledger::{LedgerRow, SpreadsheetTuple, NO, UNSET};
use crate::text::{decimal, decimal_string, same_text};
use crate::timestamp::{extract_year, rfc3339_utc_year};
use crate::title::{normalize, without};
use crate::youtube::{watch_address, watch_url, CatalogItem, VideoItem, VideoListResponse};

verus! {

/// A clip that is ready to be fetched and trimmed.
#[derive(Debug, PartialEq, Eq)]
pub struct VideoToDownload {
    pub id: String,
    pub title: String,
    pub start_time: String,
    pub end_time: String,
}

/// A clip to download, as the contracts speak of it. Title and clip window
/// are the ledger's.
pub struct DownloadWorkItem {
    pub id: Seq<char>,
    pub title: Seq<char>,
    pub start_time: Seq<char>,
    pub end_time: Seq<char>,
}

impl View for VideoToDownload {
    type V = DownloadWorkItem;

    open spec fn view(&self) -> DownloadWorkItem {
        DownloadWorkItem {
            id: self.id@,
            title: self.title@,
            start_time: self.start_time@,
            end_time: self.end_time@,
        }
    }
}

impl DeepView for VideoToDownload {
    type V = DownloadWorkItem;

    open spec fn deep_view(&self) -> DownloadWorkItem {
        self@
    }
}

/// What a run hands out: the rows to append to the ledger, and the clips to
/// download.
#[derive(Debug)]
pub struct MainResult {
    pub items_to_add: Vec<Vec<String>>,
    pub items_to_download: Vec<VideoToDownload>,
}

/// Whether the row at `at` is the one that a title is matched with: the
/// first row of the ledger that stores exactly this title.
pub open spec fn matches_first(ledger: Seq<LedgerRow>, title: Seq<char>, at: int) -> bool {
    &&& 0 <= at < ledger.len()
    &&& ledger[at].title == title
    &&& forall|before: int| 0 <= before < at ==> ledger[before].title != title
}

/// Whether some row of the ledger stores exactly this title.
pub open spec fn in_ledger(ledger: Seq<LedgerRow>, title: Seq<char>) -> bool {
    exists|at: int| 0 <= at < ledger.len() && ledger[at].title == title
}

/// The position of the row that a title of the ledger is matched with.
pub open spec fn row_for(ledger: Seq<LedgerRow>, title: Seq<char>) -> int {
    choose|at: int| matches_first(ledger, title, at)
}

/// A title, and so a catalog entry, is matched with at most one row.
pub proof fn lemma_at_most_one_match(ledger: Seq<LedgerRow>, title: Seq<char>, a: int, b: int)
    requires
        matches_first(ledger, title, a),
        matches_first(ledger, title, b),
    ensures
        a == b,
{
}

proof fn lemma_first_before(ledger: Seq<LedgerRow>, title: Seq<char>, at: int)
    requires
        0 <= at < ledger.len(),
        ledger[at].title == title,
    ensures
        exists|first: int| matches_first(ledger, title, first),
    decreases at,
{
    if forall|before: int| 0 <= before < at ==> ledger[before].title != title {
        assert(matches_first(ledger, title, at));
    } else {
        let before = choose|before: int| 0 <= before < at && ledger[before].title == title;
        lemma_first_before(ledger, title, before);
    }
}

/// A title that the ledger stores is matched with a row: the one at
/// `row_for`.
pub proof fn lemma_match_exists(ledger: Seq<LedgerRow>, title: Seq<char>)
    requires
        in_ledger(ledger, title),
    ensures
        matches_first(ledger, title, row_for(ledger, title)),
{
    let at = choose|at: int| 0 <= at < ledger.len() && ledger[at].title == title;
    lemma_first_before(ledger, title, at);
}

/// The position of the first row that stores `title`, if there is one.
pub fn find_row(spreadsheet_list: &Vec<SpreadsheetTuple>, title: &str) -> (found: Option<usize>)
    ensures
        match found {
            Some(at) => matches_first(spreadsheet_list.deep_view(), title@, at as int)
                && row_for(spreadsheet_list.deep_view(), title@) == at,
            None => !in_ledger(spreadsheet_list.deep_view(), title@),
        },
{
    let ghost ledger = spreadsheet_list.deep_view();
    let mut at: usize = 0;
    while at < spreadsheet_list.len()
        invariant
            at <= spreadsheet_list.len(),
            ledger == spreadsheet_list.deep_view(),
            forall|before: int| 0 <= before < at ==> ledger[before].title != title@,
        decreases spreadsheet_list.len() - at,
    {
        if same_text(spreadsheet_list[at].title.as_str(), title) {
            assert(matches_first(ledger, title@, at as int));
            return Some(at);
        }
        at += 1;
    }
    None
}

/// Whether a row asks for a download: it is neither online nor downloaded,
/// and both ends of its clip window are set.
pub open spec fn ready(row: LedgerRow) -> bool {
    &&& !row.is_online
    &&& !row.is_downloaded
    &&& row.start_time != UNSET@
    &&& row.end_time != UNSET@
}

/// Whether this row asks for a download.
pub fn is_ready(row: &SpreadsheetTuple) -> (yes: bool)
    ensures
        yes == ready(row@),
{
    !row.is_online && !row.is_downloaded && !same_text(row.start_time.as_str(), UNSET)
        && !same_text(row.end_time.as_str(), UNSET)
}

/// The cells of the row that records a newly found video: year, title and
/// link, then three unset times and "no" for both flags.
pub open spec fn new_row(year: int, title: Seq<char>, link: Seq<char>) -> Seq<Seq<char>> {
    seq![decimal(year), title, link, UNSET@, UNSET@, UNSET@, NO@, NO@]
}

/// Builds the row that records a newly found video.
pub fn new_ledger_row(year: i32, title: String, link: String) -> (cells: Vec<String>)
    ensures
        cells.deep_view() == new_row(year as int, title@, link@),
{
    let mut cells: Vec<String> = Vec::new();
    cells.push(decimal_string(year));
    cells.push(title);
    cells.push(link);
    cells.push(String::from_str(UNSET));
    cells.push(String::from_str(UNSET));
    cells.push(String::from_str(UNSET));
    cells.push(String::from_str(NO));
    cells.push(String::from_str(NO));
    cells
}

/// What becomes of one catalog entry.
pub enum Outcome {
    /// The entry has no video identifier: it is passed over.
    NotAVideo,
    /// No row stores its title: this row is appended to the ledger.
    Untracked { row: Seq<Seq<char>> },
    /// No row stores its title, and its publish time gives no year: the run
    /// stops.
    Undated,
    /// Its row asks for a download: this clip is fetched.
    Ready { clip: DownloadWorkItem },
    /// Its row asks for nothing.
    Settled,
}

/// What becomes of `item`, given the ledger and the channel's marker.
pub open spec fn outcome(item: CatalogItem, ledger: Seq<LedgerRow>, marker: Seq<char>) -> Outcome {
    match item.video_id {
        None => Outcome::NotAVideo,
        Some(id) => {
            let title = without(item.title, marker);
            if in_ledger(ledger, title) {
                let row = ledger[row_for(ledger, title)];
                if ready(row) {
                    Outcome::Ready {
                        clip: DownloadWorkItem {
                            id,
                            title: row.title,
                            start_time: row.start_time,
                            end_time: row.end_time,
                        },
                    }
                } else {
                    Outcome::Settled
                }
            } else {
                match rfc3339_utc_year(item.publish_time) {
                    Some(year) => Outcome::Untracked {
                        row: new_row(year, title, watch_address(id)),
                    },
                    None => Outcome::Undated,
                }
            }
        },
    }
}

/// What becomes of one catalog entry, as a value.
#[derive(Debug)]
pub enum Classification {
    NotAVideo,
    Untracked(Vec<String>),
    Undated,
    Ready(VideoToDownload),
    Settled,
}

impl View for Classification {
    type V = Outcome;

    open spec fn view(&self) -> Outcome {
        match self {
            Classification::NotAVideo => Outcome::NotAVideo,
            Classification::Untracked(cells) => Outcome::Untracked { row: cells.deep_view() },
            Classification::Undated => Outcome::Undated,
            Classification::Ready(clip) => Outcome::Ready { clip: clip@ },
            Classification::Settled => Outcome::Settled,
        }
    }
}

/// Decides what becomes of one catalog entry.
pub fn classify(
    item: &VideoItem,
    spreadsheet_list: &Vec<SpreadsheetTuple>,
    channel_suffix: &str,
) -> (class: Classification)
    ensures
        class@ == outcome(item@, spreadsheet_list.deep_view(), channel_suffix@),
{
    match &item.id.videoId {
        None => Classification::NotAVideo,
        Some(video_id) => {
            let title = normalize(item.snippet.title.as_str(), channel_suffix);
            match find_row(spreadsheet_list, title.as_str()) {
                Some(at) => {
                    let row = &spreadsheet_list[at];
                    if is_ready(row) {
                        Classification::Ready(
                            VideoToDownload {
                                id: video_id.clone(),
                                title: row.title.clone(),
                                start_time: row.start_time.clone(),
                                end_time: row.end_time.clone(),
                            },
                        )
                    } else {
                        Classification::Settled
                    }
                },
                None => match extract_year(item.snippet.publishTime.as_str()) {
                    Some(year) => Classification::Untracked(
                        new_ledger_row(year, title, watch_url(video_id.as_str())),
                    ),
                    None => Classification::Undated,
                },
            }
        },
    }
}

/// The catalog positions in the order in which a run visits them: from the
/// last entry, the oldest, to the first.
pub open spec fn visit_order(len: nat) -> Seq<int> {
    Seq::new(len, |k: int| len - 1 - k)
}

/// Whether the entry at a position becomes a new row.
pub open spec fn adds(catalog: Seq<CatalogItem>, ledger: Seq<LedgerRow>, marker: Seq<char>)
    -> spec_fn(int) -> bool {
    |at: int| outcome(catalog[at], ledger, marker) is Untracked
}

/// Whether the entry at a position becomes a clip to download.
pub open spec fn fetches(catalog: Seq<CatalogItem>, ledger: Seq<LedgerRow>, marker: Seq<char>)
    -> spec_fn(int) -> bool {
    |at: int| outcome(catalog[at], ledger, marker) is Ready
}

/// The new row of the entry at a position.
pub open spec fn row_at(catalog: Seq<CatalogItem>, ledger: Seq<LedgerRow>, marker: Seq<char>)
    -> spec_fn(int) -> Seq<Seq<char>> {
    |at: int| outcome(catalog[at], ledger, marker)->row
}

/// The clip of the entry at a position.
pub open spec fn clip_at(catalog: Seq<CatalogItem>, ledger: Seq<LedgerRow>, marker: Seq<char>)
    -> spec_fn(int) -> DownloadWorkItem {
    |at: int| outcome(catalog[at], ledger, marker)->clip
}

/// The positions of the entries that become new rows, in visiting order.
pub open spec fn adding_positions(
    catalog: Seq<CatalogItem>,
    ledger: Seq<LedgerRow>,
    marker: Seq<char>,
) -> Seq<int> {
    visit_order(catalog.len()).filter(adds(catalog, ledger, marker))
}

/// The positions of the entries that become clips, in visiting order.
pub open spec fn fetching_positions(
    catalog: Seq<CatalogItem>,
    ledger: Seq<LedgerRow>,
    marker: Seq<char>,
) -> Seq<int> {
    visit_order(catalog.len()).filter(fetches(catalog, ledger, marker))
}

/// The rows to append: one for each entry that becomes a new row, in
/// visiting order.
pub open spec fn rows_to_add(catalog: Seq<CatalogItem>, ledger: Seq<LedgerRow>, marker: Seq<char>)
    -> Seq<Seq<Seq<char>>> {
    adding_positions(catalog, ledger, marker).map_values(row_at(catalog, ledger, marker))
}

/// The clips to download: one for each entry whose row asks for it, in
/// visiting order.
pub open spec fn clips_to_download(
    catalog: Seq<CatalogItem>,
    ledger: Seq<LedgerRow>,
    marker: Seq<char>,
) -> Seq<DownloadWorkItem> {
    fetching_positions(catalog, ledger, marker).map_values(clip_at(catalog, ledger, marker))
}

/// Whether the entry at `at` stops the run: it would become a new row, but
/// its publish time gives no year.
pub open spec fn undated_at(
    catalog: Seq<CatalogItem>,
    ledger: Seq<LedgerRow>,
    marker: Seq<char>,
    at: int,
) -> bool {
    0 <= at < catalog.len() && outcome(catalog[at], ledger, marker) is Undated
}

pub(crate) proof fn lemma_filter_next<A>(s: Seq<A>, k: int, keep: spec_fn(A) -> bool)
    requires
        0 <= k < s.len(),
    ensures
        s.take(k + 1).filter(keep) == if keep(s[k]) {
            s.take(k).filter(keep).push(s[k])
        } else {
            s.take(k).filter(keep)
        },
{
    reveal(Seq::filter);
    assert(s.take(k + 1).drop_last() =~= s.take(k));
}

/// Reconciles the catalog with the ledger. The entries are visited from the
/// last to the first, so that older videos are recorded before newer ones.
/// Each entry with a video identifier is matched, by its normalized title,
/// with the first ledger row that stores this title. An entry without a row
/// becomes a new row; an entry whose row asks for a download becomes a clip;
/// every other entry is passed over. The run stops at the first entry
/// visited that needs a year and has none, and then hands out nothing.
pub fn get_result(
    youtube_list: &VideoListResponse,
    spreadsheet_list: &Vec<SpreadsheetTuple>,
    channel_suffix: &str,
) -> (result: Result<MainResult, SyncError>)
    ensures
        match result {
            Ok(lists) => {
                &&& forall|at: int|
                    !undated_at(youtube_list@, spreadsheet_list.deep_view(), channel_suffix@, at)
                &&& lists.items_to_add.deep_view() == rows_to_add(
                    youtube_list@,
                    spreadsheet_list.deep_view(),
                    channel_suffix@,
                )
                &&& lists.items_to_download.deep_view() == clips_to_download(
                    youtube_list@,
                    spreadsheet_list.deep_view(),
                    channel_suffix@,
                )
            },
            Err(e) => {
                &&& e matches SyncError::UnparseableTimestamp { item }
                &&& undated_at(
                    youtube_list@,
                    spreadsheet_list.deep_view(),
                    channel_suffix@,
                    item as int,
                )
                &&& forall|after: int|
                    after > item ==> !undated_at(
                        youtube_list@,
                        spreadsheet_list.deep_view(),
                        channel_suffix@,
                        after,
                    )
            },
        },
{
    let mut items_to_add: Vec<Vec<String>> = Vec::new();
    let mut items_to_download: Vec<VideoToDownload> = Vec::new();
    let n: usize = youtube_list.items.len();
    let ghost catalog = youtube_list@;
    let ghost ledger = spreadsheet_list.deep_view();
    let ghost marker = channel_suffix@;
    let ghost order = visit_order(n as nat);
    let mut visited: usize = 0;
    while visited < n
        invariant
            visited <= n,
            n == youtube_list.items.len(),
            catalog == youtube_list@,
            ledger == spreadsheet_list.deep_view(),
            marker == channel_suffix@,
            order == visit_order(n as nat),
            forall|at: int| n - visited <= at ==> !undated_at(catalog, ledger, marker, at),
            items_to_add.deep_view() == order.take(visited as int).filter(
                adds(catalog, ledger, marker),
            ).map_values(row_at(catalog, ledger, marker)),
            items_to_download.deep_view() == order.take(visited as int).filter(
                fetches(catalog, ledger, marker),
            ).map_values(clip_at(catalog, ledger, marker)),
        decreases n - visited,
    {
        let at: usize = n - 1 - visited;
        let item = &youtube_list.items[at];
        proof {
            lemma_filter_next(order, visited as int, adds(catalog, ledger, marker));
            lemma_filter_next(order, visited as int, fetches(catalog, ledger, marker));
        }
        match classify(item, spreadsheet_list, channel_suffix) {
            Classification::Untracked(cells) => {
                items_to_add.push(cells);
            },
            Classification::Ready(clip) => {
                items_to_download.push(clip);
            },
            Classification::Undated => {
                return Err(SyncError::UnparseableTimestamp { item: at });
            },
            _ => {},
        }
        proof {
            let kept = order.take(visited as int).filter(adds(catalog, ledger, marker));
            assert(kept.push(at as int).map_values(row_at(catalog, ledger, marker))
                =~= kept.map_values(row_at(catalog, ledger, marker)).push(
                row_at(catalog, ledger, marker)(at as int),
            ));
            let got = order.take(visited as int).filter(fetches(catalog, ledger, marker));
            assert(got.push(at as int).map_values(clip_at(catalog, ledger, marker))
                =~= got.map_values(clip_at(catalog, ledger, marker)).push(
                clip_at(catalog, ledger, marker)(at as int),
            ));
        }
        visited += 1;
    }
    proof {
        assert(order.take(n as int) =~= order);
    }
    Ok(MainResult { items_to_add, items_to_download })
}

} // verus!
