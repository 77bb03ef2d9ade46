//! Where the Reference FMUs of the Modelica Association are downloaded from.
use vstd::prelude::*;

verus! {

/// The URL of the release archive of the Reference FMUs of a version.
pub open spec fn reference_fmus_url_text(version: Seq<char>) -> Seq<char> {
    "https://github.com/modelica/Reference-FMUs/releases/download/v"@ + version + "/Reference-FMUs-"@
        + version + ".zip"@
}

/// The file name of the release archive of the Reference FMUs of a version.
pub open spec fn reference_fmus_archive_text(version: Seq<char>) -> Seq<char> {
    "Reference-FMUs-"@ + version + ".zip"@
}

/// The archive is stored under the last segment of its URL: the URL is the
/// release directory of the version followed by the archive's file name.
pub proof fn lemma_archive_name_ends_url(version: Seq<char>)
    ensures
        reference_fmus_url_text(version) == "https://github.com/modelica/Reference-FMUs/releases/download/v"@
            + version + "/"@ + reference_fmus_archive_text(version),
{
    reveal_strlit("/Reference-FMUs-");
    reveal_strlit("/");
    reveal_strlit("Reference-FMUs-");
    assert(reference_fmus_url_text(version) =~= "https://github.com/modelica/Reference-FMUs/releases/download/v"@
        + version + "/"@ + reference_fmus_archive_text(version));
}

/// The URL of the release archive of the Reference FMUs of `version`.
pub fn reference_fmus_url(version: &str) -> (url: String)
    ensures
        url@ == reference_fmus_url_text(version@),
{
    let mut url = String::from_str("https://github.com/modelica/Reference-FMUs/releases/download/v");
    url.append(version);
    url.append("/Reference-FMUs-");
    url.append(version);
    url.append(".zip");
    url
}

/// The file name under which the release archive of `version` is stored.
pub fn reference_fmus_archive_name(version: &str) -> (name: String)
    ensures
        name@ == reference_fmus_archive_text(version@),
{
    let mut name = String::from_str("Reference-FMUs-");
    name.append(version);
    name.append(".zip");
    name
}

} // verus!
