//! The ledger as the sheet service hands it out, and the requests with which
//! it is read and rows are appended to it.

use vstd::prelude::*;
use crate::request::{Origin, Source};

verus! {

/// A range of the sheet: its rows, and in each row its cells.
#[derive(Debug)]
pub struct SheetsResponse {
    pub values: Vec<Vec<String>>,
}

impl View for SheetsResponse {
    type V = Seq<Seq<Seq<char>>>;

    open spec fn view(&self) -> Seq<Seq<Seq<char>>> {
        self.values.deep_view()
    }
}

/// What is needed to reach the sheet.
pub struct Config {
    pub api_key: String,
    pub spreadsheet_id: String,
    pub credentials: String,
    pub sample_file: String,
}

/// The permission that appending rows asks for.
pub const SCOPE: &'static str = "https://www.googleapis.com/auth/spreadsheets";

/// The address at which a range of a sheet is read.
pub open spec fn values_address(
    spreadsheet_id: Seq<char>,
    sheet_name: Seq<char>,
    range: Seq<char>,
    api_key: Seq<char>,
) -> Seq<char> {
    "https://sheets.googleapis.com/v4/spreadsheets/"@ + spreadsheet_id + "/values/"@ + sheet_name
        + "!"@ + range + "?key="@ + api_key
}

/// The address to which new rows of a sheet are sent.
pub open spec fn append_address(spreadsheet_id: Seq<char>, sheet_name: Seq<char>) -> Seq<char> {
    "https://sheets.googleapis.com/v4/spreadsheets/"@ + spreadsheet_id + "/values/"@ + sheet_name
        + ":append?valueInputOption=RAW&"@
}

/// Where the ledger is read from: the sample file when `debug` is set, else
/// the given range of the given sheet.
pub fn list(config: &Config, debug: bool, sheet_name: &str, range: &str) -> (source: Source)
    ensures
        debug ==> source@ == (Origin::Sample { file: config.sample_file@ }),
        !debug ==> source@ == (Origin::Remote {
            url: values_address(config.spreadsheet_id@, sheet_name@, range@, config.api_key@),
        }),
{
    if debug {
        Source::Sample { file: config.sample_file.clone() }
    } else {
        let mut url = String::from_str("https://sheets.googleapis.com/v4/spreadsheets/");
        url.append(config.spreadsheet_id.as_str());
        url.append("/values/");
        url.append(sheet_name);
        url.append("!");
        url.append(range);
        url.append("?key=");
        url.append(config.api_key.as_str());
        Source::Remote { url }
    }
}

/// One call that appends rows to a sheet.
#[derive(Debug)]
pub struct AppendRequest {
    pub url: String,
    pub values: Vec<Vec<String>>,
}

/// The call that appends all of `value` to the sheet at once. The rows are
/// sent as they are, in their order. The debug mode changes nothing here:
/// rows are appended to the sheet in either mode.
pub fn add(config: &Config, _debug: bool, sheet_name: &str, value: Vec<Vec<String>>) -> (request:
    AppendRequest)
    ensures
        request.url@ == append_address(config.spreadsheet_id@, sheet_name@),
        request.values == value,
{
    let mut url = String::from_str("https://sheets.googleapis.com/v4/spreadsheets/");
    url.append(config.spreadsheet_id.as_str());
    url.append("/values/");
    url.append(sheet_name);
    url.append(":append?valueInputOption=RAW&");
    AppendRequest { url, values: value }
}

} // verus!
