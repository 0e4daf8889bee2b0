//! The list of downloads that the graphical front end keeps between runs.

use crate::json::{
    lookup, member, member_from, member_of, parse_document, parsed, pretty_text, render_pretty,
    writable, Json, JsonTree, Member,
};
use crate::store::{number_of, tree_of};
use vstd::prelude::*;
use vstd::string::*;

verus! {

/// What the front end shows of a download before it starts.
#[derive(Debug, Clone)]
pub struct DownloadMetadata {
    pub filename: String,
    pub size: u64,
    pub url: String,
}

/// One download as the front end remembers it.
#[derive(Debug, Clone)]
pub struct PersistedDownload {
    pub id: String,
    pub url: String,
    pub filename: String,
    pub path: String,
    pub total_size: u64,
    pub downloaded_bytes: u64,
    pub status: String,
    pub connections: u8,
    pub started_at: u64,
}

/// Mathematical value of a [`PersistedDownload`].
pub struct PersistedView {
    pub id: Seq<char>,
    pub url: Seq<char>,
    pub filename: Seq<char>,
    pub path: Seq<char>,
    pub total_size: u64,
    pub downloaded_bytes: u64,
    pub status: Seq<char>,
    pub connections: u8,
    pub started_at: u64,
}

impl View for PersistedDownload {
    type V = PersistedView;

    open spec fn view(&self) -> PersistedView {
        PersistedView {
            id: self.id@,
            url: self.url@,
            filename: self.filename@,
            path: self.path@,
            total_size: self.total_size,
            downloaded_bytes: self.downloaded_bytes,
            status: self.status@,
            connections: self.connections,
            started_at: self.started_at,
        }
    }
}

/// The values of a list of downloads.
pub open spec fn views(downloads: Seq<PersistedDownload>) -> Seq<PersistedView> {
    downloads.map_values(|d: PersistedDownload| d@)
}

/// The document of a download.
pub open spec fn download_document(download: PersistedView) -> JsonTree {
    JsonTree::Object(
        seq![
            ("id"@, JsonTree::Text(download.id)),
            ("url"@, JsonTree::Text(download.url)),
            ("filename"@, JsonTree::Text(download.filename)),
            ("path"@, JsonTree::Text(download.path)),
            ("total_size"@, JsonTree::Number(download.total_size)),
            ("downloaded_bytes"@, JsonTree::Number(download.downloaded_bytes)),
            ("status"@, JsonTree::Text(download.status)),
            ("connections"@, JsonTree::Number(download.connections as u64)),
            ("started_at"@, JsonTree::Number(download.started_at)),
        ],
    )
}

/// The document of a list of downloads.
pub open spec fn list_document(downloads: Seq<PersistedView>) -> JsonTree {
    JsonTree::List(downloads.map_values(|d: PersistedView| download_document(d)))
}

/// The text that a member holds.
pub open spec fn text_in(value: Option<JsonTree>) -> Option<Seq<char>> {
    match value {
        Some(JsonTree::Text(text)) => Some(text),
        _ => None,
    }
}

/// The download that a document holds.
pub open spec fn download_of(tree: JsonTree) -> Option<PersistedView> {
    match tree {
        JsonTree::Object(members) => match (
            text_in(member_of(members, "id"@)),
            text_in(member_of(members, "url"@)),
            text_in(member_of(members, "filename"@)),
            text_in(member_of(members, "path"@)),
            number_of(member_of(members, "total_size"@), u64::MAX),
            number_of(member_of(members, "downloaded_bytes"@), u64::MAX),
            text_in(member_of(members, "status"@)),
            number_of(member_of(members, "connections"@), u8::MAX as u64),
            number_of(member_of(members, "started_at"@), u64::MAX),
        ) {
            (
                Some(id),
                Some(url),
                Some(filename),
                Some(path),
                Some(total_size),
                Some(downloaded_bytes),
                Some(status),
                Some(connections),
                Some(started_at),
            ) => Some(
                PersistedView {
                    id,
                    url,
                    filename,
                    path,
                    total_size,
                    downloaded_bytes,
                    status,
                    connections: connections as u8,
                    started_at,
                },
            ),
            _ => None,
        },
        _ => None,
    }
}

/// The downloads that a document holds: it has to be a list of downloads.
pub open spec fn list_of(tree: JsonTree) -> Option<Seq<PersistedView>> {
    match tree {
        JsonTree::List(items) => if forall|i: int|
            0 <= i < items.len() ==> download_of(#[trigger] items[i]) is Some {
            Some(Seq::new(items.len(), |i: int| download_of(items[i])->Some_0))
        } else {
            None
        },
        _ => None,
    }
}

/// The downloads that a state file of the given contents holds: none where
/// there is no file or the file holds no list of downloads.
pub open spec fn remembered(contents: Option<Seq<char>>) -> Seq<PersistedView> {
    match contents {
        Some(text) => match parsed(text) {
            Some(tree) => match list_of(tree) {
                Some(downloads) => downloads,
                None => Seq::empty(),
            },
            None => Seq::empty(),
        },
        None => Seq::empty(),
    }
}

proof fn lemma_names()
    ensures
        "id"@.len() == 2,
        "url"@.len() == 3,
        "filename"@.len() == 8,
        "path"@.len() == 4,
        "total_size"@.len() == 10 && "total_size"@[0] == 't',
        "downloaded_bytes"@.len() == 16,
        "status"@.len() == 6,
        "connections"@.len() == 11,
        "started_at"@.len() == 10 && "started_at"@[0] == 's',
{
    reveal_strlit("id");
    reveal_strlit("url");
    reveal_strlit("filename");
    reveal_strlit("path");
    reveal_strlit("total_size");
    reveal_strlit("downloaded_bytes");
    reveal_strlit("status");
    reveal_strlit("connections");
    reveal_strlit("started_at");
}

/// A download is read back from its document.
pub proof fn lemma_download_round_trip(download: PersistedView)
    ensures
        download_of(download_document(download)) == Some(download),
        writable(download_document(download)),
{
    lemma_names();
    reveal_with_fuel(member_from, 10);
    let members = download_document(download)->Object_0;
    assert(members[0].0 == "id"@ && members[1].0 == "url"@ && members[2].0 == "filename"@
        && members[3].0 == "path"@ && members[4].0 == "total_size"@ && members[5].0
        == "downloaded_bytes"@ && members[6].0 == "status"@ && members[7].0 == "connections"@
        && members[8].0 == "started_at"@);
    assert(writable(members[0].1) && writable(members[1].1) && writable(members[2].1) && writable(
        members[3].1,
    ) && writable(members[4].1) && writable(members[5].1) && writable(members[6].1) && writable(
        members[7].1,
    ) && writable(members[8].1));
}

/// A list of downloads is read back from its document.
pub proof fn lemma_list_round_trip(downloads: Seq<PersistedView>)
    ensures
        list_of(list_document(downloads)) == Some(downloads),
        writable(list_document(downloads)),
{
    let items = downloads.map_values(|d: PersistedView| download_document(d));
    assert forall|i: int| 0 <= i < items.len() implies download_of(#[trigger] items[i]) == Some(
        downloads[i],
    ) && writable(items[i]) by {
        lemma_download_round_trip(downloads[i]);
    }
    assert(list_of(list_document(downloads))->Some_0 =~= downloads);
}

/// What the front end shows of a download, given the name and the size that
/// the server reported. An unknown size is shown as `0`.
pub fn metadata(filename: String, size: Option<u64>, url: String) -> (shown: DownloadMetadata)
    ensures
        shown.filename == filename,
        shown.url == url,
        shown.size == match size {
            Some(bytes) => bytes,
            None => 0,
        },
{
    let size = match size {
        Some(bytes) => bytes,
        None => 0,
    };
    DownloadMetadata { filename, size, url }
}

/// The document of a download.
pub fn encode_download(download: &PersistedDownload) -> (doc: Json)
    ensures
        doc@ == download_document(download@),
{
    let mut members: Vec<Member> = Vec::new();
    members.push(member("id", Json::Text(download.id.clone())));
    members.push(member("url", Json::Text(download.url.clone())));
    members.push(member("filename", Json::Text(download.filename.clone())));
    members.push(member("path", Json::Text(download.path.clone())));
    members.push(member("total_size", Json::Number(download.total_size)));
    members.push(member("downloaded_bytes", Json::Number(download.downloaded_bytes)));
    members.push(member("status", Json::Text(download.status.clone())));
    members.push(member("connections", Json::Number(download.connections as u64)));
    members.push(member("started_at", Json::Number(download.started_at)));
    let doc = Json::Object(members);
    proof {
        reveal_with_fuel(Json::tree, 2);
        assert(doc@->Object_0 =~= download_document(download@)->Object_0);
    }
    doc
}

/// The text that a member holds.
fn text_below(value: Option<&Json>) -> (text: Option<String>)
    ensures
        match text {
            Some(t) => text_in(tree_of(value)) == Some(t@),
            None => text_in(tree_of(value)) is None,
        },
{
    match value {
        Some(Json::Text(text)) => Some(text.clone()),
        _ => None,
    }
}

/// The number up to `limit` that a member holds.
fn number_below(value: Option<&Json>, limit: u64) -> (number: Option<u64>)
    ensures
        number == number_of(tree_of(value), limit),
{
    match value {
        Some(Json::Number(n)) => if *n <= limit {
            Some(*n)
        } else {
            None
        },
        _ => None,
    }
}

/// The download that a document holds.
pub fn decode_download(doc: &Json) -> (download: Option<PersistedDownload>)
    ensures
        match download {
            Some(d) => download_of(doc@) == Some(d@),
            None => download_of(doc@) is None,
        },
{
    let members = match doc {
        Json::Object(members) => members,
        _ => {
            return None;
        },
    };
    let id = text_below(lookup(members, "id"));
    let url = text_below(lookup(members, "url"));
    let filename = text_below(lookup(members, "filename"));
    let path = text_below(lookup(members, "path"));
    let total_size = number_below(lookup(members, "total_size"), u64::MAX);
    let downloaded_bytes = number_below(lookup(members, "downloaded_bytes"), u64::MAX);
    let status = text_below(lookup(members, "status"));
    let connections = number_below(lookup(members, "connections"), 255);
    let started_at = number_below(lookup(members, "started_at"), u64::MAX);
    match (id, url, filename, path, total_size, downloaded_bytes, status, connections, started_at) {
        (
            Some(id),
            Some(url),
            Some(filename),
            Some(path),
            Some(total_size),
            Some(downloaded_bytes),
            Some(status),
            Some(connections),
            Some(started_at),
        ) => Some(
            PersistedDownload {
                id,
                url,
                filename,
                path,
                total_size,
                downloaded_bytes,
                status,
                connections: connections as u8,
                started_at,
            },
        ),
        _ => None,
    }
}

/// The text of the state file that remembers `downloads`.
pub fn save_state(downloads: &Vec<PersistedDownload>) -> (text: String)
    ensures
        text@ == pretty_text(list_document(views(downloads@))),
{
    let mut items: Vec<Json> = Vec::new();
    let mut i: usize = 0;
    while i < downloads.len()
        invariant
            i <= downloads.len(),
            items@.len() == i,
            forall|k: int|
                0 <= k < i ==> (#[trigger] items@[k])@ == download_document(downloads@[k]@),
        decreases downloads.len() - i,
    {
        items.push(encode_download(&downloads[i]));
        i = i + 1;
    }
    let doc = Json::List(items);
    proof {
        assert(doc@->List_0 =~= views(downloads@).map_values(
            |d: PersistedView| download_document(d),
        ));
        lemma_list_round_trip(views(downloads@));
    }
    render_pretty(&doc)
}

/// The downloads that a state file remembers: `contents` is the text of the
/// file, `None` where there is no file. A file that holds no list of
/// downloads remembers none.
pub fn load_state(contents: Option<&str>) -> (downloads: Vec<PersistedDownload>)
    ensures
        views(downloads@) == remembered(
            match contents {
                Some(text) => Some(text@),
                None => None,
            },
        ),
{
    let empty: Vec<PersistedDownload> = Vec::new();
    assert(views(empty@) =~= Seq::<PersistedView>::empty());
    let text = match contents {
        Some(text) => text,
        None => {
            return empty;
        },
    };
    let doc = match parse_document(text) {
        Some(doc) => doc,
        None => {
            return empty;
        },
    };
    let items = match &doc {
        Json::List(items) => items,
        _ => {
            return empty;
        },
    };
    let ghost trees = doc@->List_0;
    let mut downloads: Vec<PersistedDownload> = Vec::new();
    let mut i: usize = 0;
    while i < items.len()
        invariant
            i <= items.len(),
            downloads@.len() == i,
            doc@ == JsonTree::List(trees),
            contents == Some(text),
            parsed(text@) == Some(doc@),
            trees == Json::List(*items)@->List_0,
            trees.len() == items@.len(),
            views(empty@) == Seq::<PersistedView>::empty(),
            forall|k: int| 0 <= k < i ==> download_of(#[trigger] trees[k]) == Some(downloads@[k]@),
        decreases items.len() - i,
    {
        assert(trees[i as int] == items@[i as int]@);
        match decode_download(&items[i]) {
            Some(download) => {
                downloads.push(download);
            },
            None => {
                return empty;
            },
        }
        i = i + 1;
    }
    proof {
        assert(list_of(doc@) is Some);
        assert(list_of(doc@)->Some_0 =~= views(downloads@));
    }
    downloads
}

} // verus!
