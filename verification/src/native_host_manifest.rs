//! The manifest that registers the native messaging host with a browser.

use crate::json::{member, pretty_text, render_pretty, writable, Json, JsonTree, Member};
use vstd::prelude::*;
use vstd::string::*;

verus! {

/// Name under which the host is registered.
pub const NATIVE_HOST_NAME: &'static str = "com.kitsune.dm";

/// Description of the host in its manifest.
pub const NATIVE_HOST_DESCRIPTION: &'static str = "Kitsune Download Manager Native Host";

/// Number of characters of an extension id.
pub const EXTENSION_ID_LENGTH: usize = 32;

/// Why no manifest can be made.
#[derive(Debug, Clone)]
pub enum ManifestError {
    /// The extension id is not made of exactly 32 characters in `a..=p`.
    InvalidExtensionId,
    /// The path of the executable, given here, is not absolute.
    RelativePath(String),
}

/// `c` is a character of the alphabet of extension ids, `a` to `p`.
pub open spec fn is_id_char(c: char) -> bool {
    'a' <= c <= 'p'
}

/// `id` is an extension id: exactly 32 characters, each in `a..=p`.
pub open spec fn valid_extension_id(id: Seq<char>) -> bool {
    &&& id.len() == EXTENSION_ID_LENGTH
    &&& forall|i: int| 0 <= i < id.len() ==> is_id_char(#[trigger] id[i])
}

/// The origin of the extension with id `id`, with its trailing slash.
pub open spec fn origin_of(id: Seq<char>) -> Seq<char> {
    "chrome-extension://"@ + id + "/"@
}

/// The text of an error.
pub open spec fn error_text(error: ManifestError) -> Seq<char> {
    match error {
        ManifestError::InvalidExtensionId => "extension ID must be exactly 32 chars in [a-p]"@,
        ManifestError::RelativePath(path) => "native host executable path must be absolute: "@
            + path@,
    }
}

impl ManifestError {
    /// The text of the error.
    pub fn to_string(&self) -> (text: String)
        ensures
            text@ == error_text(*self),
    {
        match self {
            ManifestError::InvalidExtensionId => String::from_str(
                "extension ID must be exactly 32 chars in [a-p]",
            ),
            ManifestError::RelativePath(path) => {
                let mut text = String::from_str("native host executable path must be absolute: ");
                text.append(path.as_str());
                text
            },
        }
    }
}

/// Checks that `extension_id` is an extension id.
pub fn validate_extension_id(extension_id: &str) -> (result: Result<(), ManifestError>)
    ensures
        result is Ok <==> valid_extension_id(extension_id@),
        result matches Err(error) ==> error is InvalidExtensionId,
{
    let n = extension_id.unicode_len();
    if n != EXTENSION_ID_LENGTH {
        return Err(ManifestError::InvalidExtensionId);
    }
    let mut i: usize = 0;
    while i < n
        invariant
            n == extension_id@.len(),
            i <= n,
            forall|k: int| 0 <= k < i ==> is_id_char(#[trigger] extension_id@[k]),
        decreases n - i,
    {
        let c = extension_id.get_char(i);
        if c < 'a' || c > 'p' {
            return Err(ManifestError::InvalidExtensionId);
        }
        i = i + 1;
    }
    Ok(())
}

/// The origin of the extension with id `extension_id`, or an error where
/// that is no extension id.
pub fn extension_origin(extension_id: &str) -> (result: Result<String, ManifestError>)
    ensures
        match result {
            Ok(origin) => valid_extension_id(extension_id@) && origin@ == origin_of(
                extension_id@,
            ),
            Err(error) => !valid_extension_id(extension_id@) && error is InvalidExtensionId,
        },
{
    match validate_extension_id(extension_id) {
        Err(error) => Err(error),
        Ok(()) => {
            let mut origin = String::from_str("chrome-extension://");
            origin.append(extension_id);
            origin.append("/");
            Ok(origin)
        },
    }
}

/// The manifest of the host at `executable_path`, open to the extension
/// with id `extension_id` and to no other origin.
pub open spec fn manifest_document(extension_id: Seq<char>, executable_path: Seq<char>) -> JsonTree {
    JsonTree::Object(
        seq![
            ("name"@, JsonTree::Text(NATIVE_HOST_NAME@)),
            ("description"@, JsonTree::Text(NATIVE_HOST_DESCRIPTION@)),
            ("path"@, JsonTree::Text(executable_path)),
            ("type"@, JsonTree::Text("stdio"@)),
            ("allowed_origins"@, JsonTree::List(seq![JsonTree::Text(origin_of(extension_id))])),
        ],
    )
}

/// The manifest can be written as it is.
pub proof fn lemma_manifest_writable(extension_id: Seq<char>, executable_path: Seq<char>)
    ensures
        writable(manifest_document(extension_id, executable_path)),
{
    reveal_strlit("name");
    reveal_strlit("description");
    reveal_strlit("path");
    reveal_strlit("type");
    reveal_strlit("allowed_origins");
    let members = manifest_document(extension_id, executable_path)->Object_0;
    assert(members[0].0 == "name"@ && members[1].0 == "description"@ && members[2].0 == "path"@
        && members[3].0 == "type"@ && members[4].0 == "allowed_origins"@);
    assert("name"@[0] == 'n' && "path"@[0] == 'p' && "type"@[0] == 't');
    let origins = seq![JsonTree::Text(origin_of(extension_id))];
    assert(members[4].1 == JsonTree::List(origins));
    assert forall|i: int| 0 <= i < origins.len() implies writable(#[trigger] origins[i]) by {}
    assert(writable(members[0].1) && writable(members[1].1) && writable(members[2].1) && writable(
        members[3].1,
    ) && writable(members[4].1));
}

/// Asks `std::path::Path::is_absolute` whether a path is absolute. What
/// counts as absolute depends on the platform, so nothing is claimed of the
/// answer.
#[verifier::external_body]
fn is_absolute_path(path: &str) -> (absolute: bool) {
    std::path::Path::new(path).is_absolute()
}

/// The text of the manifest, given whether the path of the executable is
/// absolute on this platform. The extension id is checked first, then the
/// path.
pub fn manifest_json(extension_id: &str, executable_path: &str, path_is_absolute: bool) -> (result:
    Result<String, ManifestError>)
    ensures
        match result {
            Ok(text) => {
                &&& valid_extension_id(extension_id@)
                &&& path_is_absolute
                &&& text@ == pretty_text(manifest_document(extension_id@, executable_path@))
            },
            Err(ManifestError::InvalidExtensionId) => !valid_extension_id(extension_id@),
            Err(ManifestError::RelativePath(path)) => {
                &&& valid_extension_id(extension_id@)
                &&& !path_is_absolute
                &&& path@ == executable_path@
            },
        },
{
    let origin = match extension_origin(extension_id) {
        Ok(origin) => origin,
        Err(error) => {
            return Err(ManifestError::InvalidExtensionId);
        },
    };
    if !path_is_absolute {
        return Err(ManifestError::RelativePath(executable_path.to_owned()));
    }
    let mut origins: Vec<Json> = Vec::new();
    origins.push(Json::Text(origin));
    let list = Json::List(origins);
    let mut members: Vec<Member> = Vec::new();
    members.push(member("name", Json::Text(NATIVE_HOST_NAME.to_owned())));
    members.push(member("description", Json::Text(NATIVE_HOST_DESCRIPTION.to_owned())));
    members.push(member("path", Json::Text(executable_path.to_owned())));
    members.push(member("type", Json::Text("stdio".to_owned())));
    members.push(member("allowed_origins", list));
    let doc = Json::Object(members);
    proof {
        reveal_with_fuel(Json::tree, 3);
        assert(list@->List_0 =~= seq![JsonTree::Text(origin_of(extension_id@))]);
        assert(doc@->Object_0 =~= manifest_document(extension_id@, executable_path@)->Object_0);
        lemma_manifest_writable(extension_id@, executable_path@);
    }
    Ok(render_pretty(&doc))
}

/// The text of the manifest of the host at `executable_path`, open to the
/// extension with id `extension_id`. The id has to be an extension id and
/// the path has to be absolute on this platform.
pub fn generate_native_host_manifest_json(extension_id: &str, executable_path: &str) -> (result:
    Result<String, ManifestError>)
    ensures
        match result {
            Ok(text) => {
                &&& valid_extension_id(extension_id@)
                &&& text@ == pretty_text(manifest_document(extension_id@, executable_path@))
            },
            Err(ManifestError::InvalidExtensionId) => !valid_extension_id(extension_id@),
            Err(ManifestError::RelativePath(path)) => {
                &&& valid_extension_id(extension_id@)
                &&& path@ == executable_path@
            },
        },
{
    let absolute = is_absolute_path(executable_path);
    manifest_json(extension_id, executable_path, absolute)
}

} // verus!
