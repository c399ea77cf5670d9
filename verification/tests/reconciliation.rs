use youtube_to_podcast::error::SyncError;
use youtube_to_podcast::ledger::SpreadsheetTuple;
use youtube_to_podcast::reconcile::{get_result, VideoToDownload};
use youtube_to_podcast::youtube::{
    Thumbnail, Thumbnails, VideoId, VideoItem, VideoListResponse, VideoSnippet,
};

const SUFFIX: &str = " - Luterana Biguaçu";

fn thumbnail() -> Thumbnail {
    Thumbnail { url: String::from("https://i.ytimg.com/vi/x/default.jpg"), width: Some(120), height: None }
}

fn entry(id: Option<&str>, title: &str, publish_time: &str) -> VideoItem {
    VideoItem {
        id: VideoId { videoId: id.map(String::from) },
        snippet: VideoSnippet {
            title: String::from(title),
            description: String::new(),
            thumbnails: Thumbnails { default: thumbnail(), medium: thumbnail(), high: thumbnail() },
            publishTime: String::from(publish_time),
        },
    }
}

fn catalog(items: Vec<VideoItem>) -> VideoListResponse {
    VideoListResponse { items }
}

fn row(title: &str, start: &str, end: &str, downloaded: bool, online: bool) -> SpreadsheetTuple {
    SpreadsheetTuple {
        year: String::from("2024"),
        title: String::from(title),
        link: String::from("https://www.youtube.com/watch?v=old"),
        start_time: String::from(start),
        end_time: String::from(end),
        is_downloaded: downloaded,
        is_online: online,
    }
}

fn strings(cells: &[&str]) -> Vec<String> {
    cells.iter().map(|c| String::from(*c)).collect()
}

fn clip(id: &str, title: &str, start: &str, end: &str) -> VideoToDownload {
    VideoToDownload {
        id: String::from(id),
        title: String::from(title),
        start_time: String::from(start),
        end_time: String::from(end),
    }
}

#[test]
fn unknown_video_becomes_a_new_row() {
    let videos = catalog(vec![entry(Some("v1"), "Talk - Luterana Biguaçu", "2024-03-01T00:00:00Z")]);
    let result = get_result(&videos, &vec![], SUFFIX).unwrap();
    assert_eq!(
        result.items_to_add,
        vec![strings(&[
            "2024",
            "Talk",
            "https://www.youtube.com/watch?v=v1",
            "00:00:00",
            "00:00:00",
            "00:00:00",
            "Não",
            "Não",
        ])]
    );
    assert!(result.items_to_download.is_empty());
}

#[test]
fn row_with_a_clip_window_becomes_a_download() {
    let videos = catalog(vec![entry(Some("v2"), "Talk - Luterana Biguaçu", "2024-03-01T00:00:00Z")]);
    let ledger = vec![row("Talk", "00:10:00", "00:40:00", false, false)];
    let result = get_result(&videos, &ledger, SUFFIX).unwrap();
    assert!(result.items_to_add.is_empty());
    assert_eq!(result.items_to_download, vec![clip("v2", "Talk", "00:10:00", "00:40:00")]);
}

#[test]
fn online_row_gives_nothing() {
    let videos = catalog(vec![entry(Some("v2"), "Talk - Luterana Biguaçu", "2024-03-01T00:00:00Z")]);
    let ledger = vec![row("Talk", "00:10:00", "00:40:00", false, true)];
    let result = get_result(&videos, &ledger, SUFFIX).unwrap();
    assert!(result.items_to_add.is_empty());
    assert!(result.items_to_download.is_empty());
}

#[test]
fn row_without_a_clip_window_gives_nothing() {
    let videos = catalog(vec![entry(Some("v2"), "Talk - Luterana Biguaçu", "2024-03-01T00:00:00Z")]);
    let ledger = vec![row("Talk", "00:00:00", "00:00:00", false, false)];
    let result = get_result(&videos, &ledger, SUFFIX).unwrap();
    assert!(result.items_to_add.is_empty());
    assert!(result.items_to_download.is_empty());
}

#[test]
fn entry_without_a_video_identifier_is_passed_over() {
    let videos = catalog(vec![entry(None, "Talk - Luterana Biguaçu", "2024-03-01T00:00:00Z")]);
    let with_row = vec![row("Talk", "00:10:00", "00:40:00", false, false)];
    let result = get_result(&videos, &with_row, SUFFIX).unwrap();
    assert!(result.items_to_add.is_empty());
    assert!(result.items_to_download.is_empty());
    let result = get_result(&videos, &vec![], SUFFIX).unwrap();
    assert!(result.items_to_add.is_empty());
    assert!(result.items_to_download.is_empty());
    // Not even an unreadable publish time matters for such an entry.
    let videos = catalog(vec![entry(None, "Talk", "yesterday")]);
    assert!(get_result(&videos, &vec![], SUFFIX).is_ok());
}

#[test]
fn downloaded_row_gives_nothing() {
    let videos = catalog(vec![entry(Some("v2"), "Talk - Luterana Biguaçu", "2024-03-01T00:00:00Z")]);
    let ledger = vec![row("Talk", "00:10:00", "00:40:00", true, false)];
    let result = get_result(&videos, &ledger, SUFFIX).unwrap();
    assert!(result.items_to_add.is_empty());
    assert!(result.items_to_download.is_empty());
}

#[test]
fn row_with_one_bound_unset_gives_nothing() {
    let videos = catalog(vec![entry(Some("v2"), "Talk - Luterana Biguaçu", "2024-03-01T00:00:00Z")]);
    for (start, end) in [("00:00:00", "00:40:00"), ("00:10:00", "00:00:00")] {
        let ledger = vec![row("Talk", start, end, false, false)];
        let result = get_result(&videos, &ledger, SUFFIX).unwrap();
        assert!(result.items_to_add.is_empty());
        assert!(result.items_to_download.is_empty());
    }
}

#[test]
fn empty_catalog_gives_nothing() {
    let ledger = vec![row("Talk", "00:10:00", "00:40:00", false, false)];
    let result = get_result(&catalog(vec![]), &ledger, SUFFIX).unwrap();
    assert!(result.items_to_add.is_empty());
    assert!(result.items_to_download.is_empty());
}

#[test]
fn empty_ledger_makes_every_video_a_new_row_oldest_first() {
    let videos = catalog(vec![
        entry(Some("c"), "Third - Luterana Biguaçu", "2024-03-03T10:00:00Z"),
        entry(None, "Playlist", "2024-03-02T12:00:00Z"),
        entry(Some("b"), "Second - Luterana Biguaçu", "2023-12-31T23:59:59Z"),
        entry(Some("a"), "First", "2022-01-01T00:00:00+00:00"),
    ]);
    let result = get_result(&videos, &vec![], SUFFIX).unwrap();
    let titles: Vec<(&str, &str, &str)> = result
        .items_to_add
        .iter()
        .map(|r| (r[0].as_str(), r[1].as_str(), r[2].as_str()))
        .collect();
    assert_eq!(
        titles,
        vec![
            ("2022", "First", "https://www.youtube.com/watch?v=a"),
            ("2023", "Second", "https://www.youtube.com/watch?v=b"),
            ("2024", "Third", "https://www.youtube.com/watch?v=c"),
        ]
    );
    for added in &result.items_to_add {
        assert_eq!(added.len(), 8);
        assert_eq!(&added[3..], &strings(&["00:00:00", "00:00:00", "00:00:00", "Não", "Não"])[..]);
    }
    assert!(result.items_to_download.is_empty());
}

#[test]
fn downloads_come_out_oldest_first_with_the_ledgers_values() {
    let videos = catalog(vec![
        entry(Some("n3"), "C - Luterana Biguaçu", "2024-03-03T10:00:00Z"),
        entry(Some("n2"), "B - Luterana Biguaçu", "2024-03-02T10:00:00Z"),
        entry(Some("n1"), "A - Luterana Biguaçu", "2024-03-01T10:00:00Z"),
    ]);
    let ledger = vec![
        row("C", "00:01:00", "00:02:00", false, false),
        row("A", "00:03:00", "00:04:00", false, false),
        row("B", "00:05:00", "00:06:00", true, false),
    ];
    let result = get_result(&videos, &ledger, SUFFIX).unwrap();
    assert!(result.items_to_add.is_empty());
    assert_eq!(
        result.items_to_download,
        vec![clip("n1", "A", "00:03:00", "00:04:00"), clip("n3", "C", "00:01:00", "00:02:00")]
    );
}

#[test]
fn each_video_goes_exactly_one_way() {
    let videos = catalog(vec![
        entry(Some("new"), "New - Luterana Biguaçu", "2024-05-01T00:00:00Z"),
        entry(Some("ready"), "Ready - Luterana Biguaçu", "2024-04-01T00:00:00Z"),
        entry(Some("done"), "Done - Luterana Biguaçu", "2024-03-01T00:00:00Z"),
        entry(None, "Channel", "2024-02-01T00:00:00Z"),
    ]);
    let ledger = vec![
        row("Done", "00:10:00", "00:40:00", true, true),
        row("Ready", "00:10:00", "00:40:00", false, false),
    ];
    let result = get_result(&videos, &ledger, SUFFIX).unwrap();
    assert_eq!(result.items_to_add.len(), 1);
    assert_eq!(result.items_to_add[0][1], "New");
    assert_eq!(result.items_to_add[0][2], "https://www.youtube.com/watch?v=new");
    assert_eq!(result.items_to_download, vec![clip("ready", "Ready", "00:10:00", "00:40:00")]);
}

#[test]
fn first_of_two_rows_with_one_title_wins() {
    let videos = catalog(vec![entry(Some("v"), "Talk - Luterana Biguaçu", "2024-03-01T00:00:00Z")]);
    let ledger = vec![
        row("Other", "00:01:00", "00:02:00", false, false),
        row("Talk", "00:00:00", "00:00:00", false, false),
        row("Talk", "00:10:00", "00:40:00", false, false),
    ];
    let result = get_result(&videos, &ledger, SUFFIX).unwrap();
    assert!(result.items_to_add.is_empty());
    assert!(result.items_to_download.is_empty());

    let ledger = vec![
        row("Talk", "00:10:00", "00:40:00", false, false),
        row("Talk", "00:20:00", "00:50:00", false, false),
    ];
    let result = get_result(&videos, &ledger, SUFFIX).unwrap();
    assert_eq!(result.items_to_download, vec![clip("v", "Talk", "00:10:00", "00:40:00")]);
}

#[test]
fn titles_are_matched_exactly() {
    let videos = catalog(vec![entry(Some("v"), "Talk - Luterana Biguaçu", "2024-03-01T00:00:00Z")]);
    for stored in ["talk", "Talk ", " Talk", "TALK", "Talk - Luterana Biguaçu"] {
        let ledger = vec![row(stored, "00:10:00", "00:40:00", false, false)];
        let result = get_result(&videos, &ledger, SUFFIX).unwrap();
        assert_eq!(result.items_to_add.len(), 1, "{stored:?}");
        assert_eq!(result.items_to_add[0][1], "Talk");
        assert!(result.items_to_download.is_empty());
    }
}

#[test]
fn unreadable_publish_time_of_an_unknown_video_stops_the_run() {
    let videos = catalog(vec![
        entry(Some("good"), "Good", "2024-03-02T00:00:00Z"),
        entry(Some("bad"), "Bad", "2024-03-01"),
    ]);
    assert_eq!(
        get_result(&videos, &vec![], SUFFIX).err(),
        Some(SyncError::UnparseableTimestamp { item: 1 })
    );
}

#[test]
fn the_entry_visited_first_is_the_one_reported() {
    let videos = catalog(vec![
        entry(Some("a"), "A", "not a date"),
        entry(Some("b"), "B", "2024-03-01T00:00:00Z"),
        entry(Some("c"), "C", ""),
        entry(Some("d"), "D", "2024-03-01T00:00:00Z"),
    ]);
    assert_eq!(
        get_result(&videos, &vec![], SUFFIX).err(),
        Some(SyncError::UnparseableTimestamp { item: 2 })
    );
}

#[test]
fn unreadable_publish_time_of_a_known_video_does_not_matter() {
    let videos = catalog(vec![entry(Some("v"), "Talk - Luterana Biguaçu", "soon")]);
    let ledger = vec![row("Talk", "00:10:00", "00:40:00", false, false)];
    let result = get_result(&videos, &ledger, SUFFIX).unwrap();
    assert_eq!(result.items_to_download, vec![clip("v", "Talk", "00:10:00", "00:40:00")]);
}

#[test]
fn a_second_run_over_the_grown_ledger_adds_nothing() {
    let videos = catalog(vec![
        entry(Some("b"), "B - Luterana Biguaçu", "2024-03-02T00:00:00Z"),
        entry(Some("a"), "A - Luterana Biguaçu", "2024-03-01T00:00:00Z"),
    ]);
    let first = get_result(&videos, &vec![], SUFFIX).unwrap();
    let grown: Vec<SpreadsheetTuple> = first
        .items_to_add
        .iter()
        .map(|cells| SpreadsheetTuple {
            year: cells[0].clone(),
            title: cells[1].clone(),
            link: cells[2].clone(),
            start_time: cells[3].clone(),
            end_time: cells[4].clone(),
            is_downloaded: false,
            is_online: false,
        })
        .collect();
    let second = get_result(&videos, &grown, SUFFIX).unwrap();
    assert!(second.items_to_add.is_empty());
    assert!(second.items_to_download.is_empty());
}
