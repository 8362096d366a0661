//! Counting a project once its format is known: where its JSON lies, and which counter
//! reads it.

use vstd::prelude::*;

use crate::archive::{count_zip_audio_files, read_zip_entry, zip_audio_count, zip_member, ZipReadError};
use crate::cdc::{self, cdc_model};
use crate::detect::{detect_format, detection, json_format, json_project_format, Detection, FormatError};
use crate::json::{parse_json, parsed_json, Json};
use crate::kitten::{self, kitten_model};
use crate::model::{fitting, result_view, view_fits, AnalyzeError, Format, ProjectStats, StatsView};
use crate::scratch::{self, scratch_model};

verus! {

/// The zip member that holds a project's JSON, or `None` where the file itself is the JSON.
pub open spec fn spec_json_member(format: Format) -> Option<Seq<char>> {
    match format {
        Format::Scratch => Some("project.json"@),
        Format::TencentCdc => Some("project.json"@),
        Format::Kitten => None,
    }
}

/// The zip member that holds a project's JSON (`project.json` in a Scratch or Tencent
/// Coding archive), or `None` for a Kitten file, which is the JSON itself.
pub fn json_member(format: Format) -> (r: Option<&'static str>)
    ensures
        match r {
            Some(m) => spec_json_member(format) == Some(m@),
            None => spec_json_member(format) is None,
        },
{
    match format {
        Format::Scratch => Some("project.json"),
        Format::TencentCdc => Some("project.json"),
        Format::Kitten => None,
    }
}

/// What counting a project of the given format gives, from its parsed JSON (and, for
/// Tencent Coding, the number of audio members of its archive).
pub open spec fn project_model(path: Seq<char>, format: Format, root: Json, zip_audio: nat) -> Result<
    StatsView,
    AnalyzeError,
> {
    match format {
        Format::Scratch => scratch_model(path, root),
        Format::TencentCdc => Ok(cdc_model(path, root, zip_audio)),
        Format::Kitten => kitten_model(path, root),
    }
}

/// Counts a project by the counter of its format; `zip_audio` (the audio members of its
/// archive) is read for Tencent Coding only.
pub fn analyze_project(path: &str, format: Format, root: &Json, zip_audio: u64) -> (r: Result<
    ProjectStats,
    AnalyzeError,
>)
    ensures
        result_view(r) == fitting(project_model(path@, format, *root, zip_audio as nat)),
        r matches Ok(s) ==> view_fits(s@),
{
    match format {
        Format::Scratch => scratch::analyze(path, root),
        Format::TencentCdc => cdc::analyze(path, root, zip_audio),
        Format::Kitten => kitten::analyze(path, root),
    }
}

/// Why a project file could not be counted.
#[derive(Clone, PartialEq, Eq, Debug)]
pub enum ProjectError {
    /// Its format could not be told.
    Format(FormatError),
    /// Its `project.json` member could not be read from the zip.
    Zip(ZipReadError),
    /// The JSON of a project of this format is not valid JSON.
    Json(Format),
    /// The counter of its format refused it.
    Analyze(AnalyzeError),
}

/// The format of the file at `path` with bytes `content`: by its extension, else by its
/// zip member `project.json`, else, for text starting with `{`, by its parsed JSON.
pub open spec fn content_format(path: Seq<char>, content: Seq<u8>) -> Result<Format, FormatError> {
    match detection(path, content) {
        Detection::Found(f) => Ok(f),
        Detection::CheckJson => json_format(parsed_json(content)),
        Detection::Failed(e) => Err(e),
    }
}

/// The parsed JSON of a project of the given format: its zip member `project.json`, or
/// the whole file for Kitten.
pub open spec fn project_json(format: Format, content: Seq<u8>) -> Result<Json, ProjectError> {
    let text = match spec_json_member(format) {
        Some(m) => match zip_member(content, m) {
            Ok(body) => Ok(body),
            Err(e) => Err(e),
        },
        None => Ok(content),
    };
    match text {
        Err(e) => Err(ProjectError::Zip(e)),
        Ok(t) => match parsed_json(t) {
            Some(j) => Ok(j),
            None => Err(ProjectError::Json(format)),
        },
    }
}

/// What counting the file at `path` with bytes `content` gives.
pub open spec fn content_model(path: Seq<char>, content: Seq<u8>) -> Result<StatsView, ProjectError> {
    match content_format(path, content) {
        Err(e) => Err(ProjectError::Format(e)),
        Ok(f) => match project_json(f, content) {
            Err(e) => Err(e),
            Ok(root) => match fitting(project_model(path, f, root, zip_audio_count(content))) {
                Ok(s) => Ok(s),
                Err(e) => Err(ProjectError::Analyze(e)),
            },
        },
    }
}

/// Counts the project file at `path` whose bytes are `content`: tells its format, reads
/// its JSON (from the zip member `project.json`, or the whole Kitten file), and counts it
/// by the counter of its format, the zip's audio members included for Tencent Coding.
pub fn analyze_content(path: &str, content: &[u8]) -> (r: Result<ProjectStats, ProjectError>)
    ensures
        match r {
            Ok(s) => content_model(path@, content@) == Ok::<StatsView, ProjectError>(s@)
                && view_fits(s@),
            Err(e) => content_model(path@, content@) == Err::<StatsView, ProjectError>(e),
        },
{
    let mut parsed: Option<Json> = None;
    let format = match detect_format(path, content) {
        Detection::Found(f) => f,
        Detection::CheckJson => {
            let p = parse_json(content);
            let f = match &p {
                Some(j) => json_project_format(Some(j)),
                None => json_project_format(None),
            };
            match f {
                Ok(f) => {
                    parsed = p;
                    f
                },
                Err(e) => {
                    return Err(ProjectError::Format(e));
                },
            }
        },
        Detection::Failed(e) => {
            return Err(ProjectError::Format(e));
        },
    };
    assert(content_format(path@, content@) == Ok::<Format, FormatError>(format));
    assert(parsed matches Some(j) ==> parsed == parsed_json(content@));
    let root = match json_member(format) {
        Some(m) => match read_zip_entry(content, m) {
            Err(e) => {
                return Err(ProjectError::Zip(e));
            },
            Ok(body) => match parse_json(body.as_slice()) {
                Some(j) => j,
                None => {
                    return Err(ProjectError::Json(format));
                },
            },
        },
        None => match parsed {
            Some(j) => j,
            None => match parse_json(content) {
                Some(j) => j,
                None => {
                    return Err(ProjectError::Json(format));
                },
            },
        },
    };
    assert(project_json(format, content@) == Ok::<Json, ProjectError>(root));
    let zip_audio: u64 = match format {
        Format::TencentCdc => count_zip_audio_files(content),
        _ => 0,
    };
    let ghost all_audio = zip_audio_count(content@);
    assert(project_model(path@, format, root, zip_audio as nat) == project_model(
        path@,
        format,
        root,
        all_audio,
    ));
    match analyze_project(path, format, &root, zip_audio) {
        Ok(s) => Ok(s),
        Err(e) => Err(ProjectError::Analyze(e)),
    }
}

} // verus!
