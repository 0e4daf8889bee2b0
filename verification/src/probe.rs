//! Setting up a download from the answer to a HEAD request.

use crate::decimal::{parse_u64, parsed_u64};
use crate::partition::{count_parts, plan_parts, planned_connections, planned_parts};
use crate::session::{DownloadSession, DownloadState, SessionView, StateView};
use crate::text::{
    after_last, before_first, find, find_str, index_of_char, last_segment_index, prefix, same_text,
    suffix, trim_char, trim_matches,
};
use vstd::prelude::*;
use vstd::string::*;

verus! {

/// The header values of a HEAD response that the download depends on, each
/// as the text that the server sent, or `None` where the header is missing
/// or is no text.
#[derive(Debug, Clone)]
pub struct HeadInfo {
    pub content_length: Option<String>,
    pub accept_ranges: Option<String>,
    pub content_disposition: Option<String>,
}

/// Size of the file as `Content-Length` gives it.
pub open spec fn reported_size(content_length: Option<Seq<char>>) -> Option<u64> {
    match content_length {
        Some(value) => parsed_u64(value),
        None => None,
    }
}

/// The server takes range requests: `Accept-Ranges` is exactly `bytes`.
pub open spec fn range_capable(accept_ranges: Option<Seq<char>>) -> bool {
    accept_ranges == Some("bytes"@)
}

/// File name that a `Content-Disposition` value gives: what follows the
/// first `filename=`, up to the first `;`, without surrounding double quotes.
pub open spec fn header_filename(value: Seq<char>) -> Option<Seq<char>> {
    match find(value, "filename="@) {
        Some(i) => Some(
            trim_matches(before_first(value.skip(i + "filename="@.len()), ';'), '"'),
        ),
        None => None,
    }
}

/// File name that a URL gives: its last `/`-separated segment up to the
/// first `?`, or `download.bin` where that is empty.
pub open spec fn url_filename(url: Seq<char>) -> Seq<char> {
    let name = before_first(after_last(url, '/'), '?');
    if name.len() == 0 {
        "download.bin"@
    } else {
        name
    }
}

/// File name of a download without an explicit output path: the one from
/// `Content-Disposition` where there is one, else the one from the URL.
pub open spec fn resolved_filename(content_disposition: Option<Seq<char>>, url: Seq<char>) -> Seq<
    char,
> {
    match content_disposition {
        Some(value) => match header_filename(value) {
            Some(name) => name,
            None => url_filename(url),
        },
        None => url_filename(url),
    }
}

/// The text of an optional string.
pub open spec fn text_of(value: Option<String>) -> Option<Seq<char>> {
    match value {
        Some(text) => Some(text@),
        None => None,
    }
}

/// Name of the session file that belongs to an output file.
pub open spec fn sidecar_path(output_path: Seq<char>) -> Seq<char> {
    output_path + ".kitsune"@
}

/// Size of the file as a `Content-Length` value gives it.
pub fn content_length(value: Option<&str>) -> (size: Option<u64>)
    ensures
        size == reported_size(
            match value {
                Some(text) => Some(text@),
                None => None,
            },
        ),
{
    match value {
        Some(text) => parse_u64(text),
        None => None,
    }
}

/// Whether an `Accept-Ranges` value says that the server takes range
/// requests.
pub fn accepts_ranges(value: Option<&str>) -> (capable: bool)
    ensures
        capable == range_capable(
            match value {
                Some(text) => Some(text@),
                None => None,
            },
        ),
{
    match value {
        Some(text) => same_text(text, "bytes"),
        None => false,
    }
}

/// File name that a `Content-Disposition` value gives.
pub fn filename_from_header(value: &str) -> (name: Option<String>)
    ensures
        text_of(name) == header_filename(value@),
{
    match find_str(value, "filename=") {
        None => None,
        Some(i) => {
            let marker = "filename=".unicode_len();
            let rest = suffix(value, i + marker);
            let token = prefix(rest, index_of_char(rest, ';'));
            Some(String::from_str(trim_char(token, '"')))
        },
    }
}

/// File name that a URL gives.
pub fn filename_from_url(url: &str) -> (name: String)
    ensures
        name@ == url_filename(url@),
{
    let segment = suffix(url, last_segment_index(url, '/'));
    let name = prefix(segment, index_of_char(segment, '?'));
    if name.unicode_len() == 0 {
        String::from_str("download.bin")
    } else {
        String::from_str(name)
    }
}

/// File name of a download without an explicit output path.
pub fn resolve_filename(content_disposition: Option<&str>, url: &str) -> (name: String)
    ensures
        name@ == resolved_filename(
            match content_disposition {
                Some(text) => Some(text@),
                None => None,
            },
            url@,
        ),
{
    match content_disposition {
        Some(value) => match filename_from_header(value) {
            Some(name) => name,
            None => filename_from_url(url),
        },
        None => filename_from_url(url),
    }
}

/// Name of the session file that belongs to an output file.
pub fn session_file_path(output_path: &str) -> (path: String)
    ensures
        path@ == sidecar_path(output_path@),
{
    let mut path = String::from_str(output_path);
    path.append(".kitsune");
    path
}

/// Directory that downloads go to by default: the downloads directory of
/// the user where there is one, else the working directory, else `.`.
pub fn downloads_dir(user_downloads: Option<String>, working_dir: Option<String>) -> (dir: String)
    ensures
        dir@ == match (user_downloads, working_dir) {
            (Some(d), _) => d@,
            (None, Some(w)) => w@,
            (None, None) => "."@,
        },
{
    match user_downloads {
        Some(dir) => dir,
        None => match working_dir {
            Some(dir) => dir,
            None => String::from_str("."),
        },
    }
}

/// Starts the session of a download to `output_path`, given the size that
/// the server reported and whether it takes range requests: the parts are
/// laid out and the session is marked as downloading.
pub fn new_download(
    url: &str,
    output_path: String,
    connections: u8,
    total_size: Option<u64>,
    range_capable: bool,
) -> (session: DownloadSession)
    ensures
        session@ == (SessionView {
            url: url@,
            output_path: output_path@,
            total_size,
            state: StateView::Downloading,
            parts: planned_parts(total_size, range_capable, connections),
            connections: planned_connections(total_size, range_capable, connections),
        }),
        session.well_formed(),
{
    let parts = plan_parts(total_size, range_capable, connections);
    let effective: u8 = match total_size {
        Some(total) => {
            let count = count_parts(total, range_capable, connections);
            if count > 1 {
                count
            } else {
                1
            }
        },
        None => 1,
    };
    DownloadSession {
        url: String::from_str(url),
        output_path,
        total_size,
        state: DownloadState::Downloading,
        parts,
        connections: effective,
    }
}

/// Joins a file name to a directory with `std::path::Path::join`.
///
/// The separator, and what becomes of a name that is itself an absolute
/// path, depend on the platform, so nothing is claimed of the result.
#[verifier::external_body]
fn join_path(dir: &str, name: &str) -> (path: String) {
    std::path::Path::new(dir).join(name).to_string_lossy().into_owned()
}

/// The text of an optional string, borrowed.
fn borrowed(value: &Option<String>) -> (text: Option<&str>)
    ensures
        match text {
            Some(t) => value matches Some(v) && t@ == v@,
            None => value is None,
        },
{
    match value {
        Some(v) => Some(v.as_str()),
        None => None,
    }
}

/// Starts the session of a download from the answer to its HEAD request.
///
/// The size comes from `Content-Length` and the ability to take range
/// requests from `Accept-Ranges`. An explicit `output_path` is taken as it
/// is; without one the file goes to `downloads_dir` under the name that
/// [`resolve_filename`] gives, joined as the platform joins paths.
pub fn init_download(
    url: &str,
    output_path: Option<String>,
    connections: u8,
    head: &HeadInfo,
    downloads_dir: &str,
) -> (session: DownloadSession)
    ensures
        session.url@ == url@,
        output_path matches Some(path) ==> session.output_path@ == path@,
        session.total_size == reported_size(text_of(head.content_length)),
        session.state@ == StateView::Downloading,
        session.parts@ == planned_parts(
            session.total_size,
            range_capable(text_of(head.accept_ranges)),
            connections,
        ),
        session.connections == planned_connections(
            session.total_size,
            range_capable(text_of(head.accept_ranges)),
            connections,
        ),
        session.well_formed(),
{
    let total_size = content_length(borrowed(&head.content_length));
    let capable = accepts_ranges(borrowed(&head.accept_ranges));
    let path = match output_path {
        Some(path) => path,
        None => {
            let name = resolve_filename(borrowed(&head.content_disposition), url);
            join_path(downloads_dir, name.as_str())
        },
    };
    new_download(url, path, connections, total_size, capable)
}

} // verus!
