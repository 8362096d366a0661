//! Telling the project format of a file: by extension, else by its leading bytes.

use vstd::prelude::*;

use crate::archive::{read_zip_entry, zip_member, ZipReadError};
use crate::json::{spec_get, Json};
use crate::model::Format;
use crate::paths::{extension, path_extension};
use crate::text::{lower, lower_code};
use vstd::string::StringSliceAdditionalSpecFns;

verus! {

/// Why the format of a file could not be told.
#[derive(Clone, PartialEq, Eq, Debug)]
pub enum FormatError {
    /// A zip whose `project.json` shows neither Scratch nor cdc markers.
    UnknownZip,
    /// A JSON text without the Kitten markers.
    UnknownJson,
    /// Text that starts with `{` but is no valid JSON.
    InvalidJson,
    /// Neither a known extension nor a zip or JSON file.
    UnknownFile,
    /// The `project.json` member of a zip could not be read.
    Zip(ZipReadError),
}

/// The outcome of looking at a file's name and bytes.
#[derive(Clone, PartialEq, Eq, Debug)]
pub enum Detection {
    /// The format is known.
    Found(Format),
    /// The file starts with `{`: its JSON decides (see `json_project_format`).
    CheckJson,
    /// The format cannot be told.
    Failed(FormatError),
}

/// `a` and `b` are equal once ASCII upper case is mapped to lower case.
pub open spec fn eq_ignoring_ascii_case(a: Seq<char>, b: Seq<char>) -> bool {
    &&& a.len() == b.len()
    &&& forall|k: int| 0 <= k < a.len() ==> lower_code(#[trigger] a[k]) == lower_code(b[k])
}

/// The format named by an extension: sb3, cdc or bcm4, in any ASCII case.
pub open spec fn format_of_extension(ext: Seq<char>) -> Option<Format> {
    if eq_ignoring_ascii_case(ext, "sb3"@) {
        Some(Format::Scratch)
    } else if eq_ignoring_ascii_case(ext, "cdc"@) {
        Some(Format::TencentCdc)
    } else if eq_ignoring_ascii_case(ext, "bcm4"@) {
        Some(Format::Kitten)
    } else {
        None
    }
}

/// The format named by the extension of `path`.
pub open spec fn format_of_path(path: Seq<char>) -> Option<Format> {
    match path_extension(path) {
        Some(ext) => format_of_extension(ext),
        None => None,
    }
}

/// `pat` occurs somewhere in `s`.
pub open spec fn bytes_contain(s: Seq<u8>, pat: Seq<u8>) -> bool {
    exists|i: int| 0 <= i <= s.len() - pat.len() && #[trigger] s.subrange(i, i + pat.len()) == pat
}

/// At most the first 4096 bytes of a `project.json`.
pub open spec fn json_head(body: Seq<u8>) -> Seq<u8> {
    if body.len() <= 4096 {
        body
    } else {
        body.take(4096)
    }
}

/// The format shown by the head of a zip project's `project.json`: a `"targets"` key
/// means Scratch, else a `"scenes"` or `"blockType"` key means cdc.
pub open spec fn zip_json_format(body: Seq<u8>) -> Option<Format> {
    let h = json_head(body);
    if bytes_contain(h, "\"targets\"".spec_bytes()) {
        Some(Format::Scratch)
    } else if bytes_contain(h, "\"scenes\"".spec_bytes()) || bytes_contain(
        h,
        "\"blockType\"".spec_bytes(),
    ) {
        Some(Format::TencentCdc)
    } else {
        None
    }
}

/// What the name and the bytes of a file tell of its format.
pub open spec fn detection(path: Seq<char>, content: Seq<u8>) -> Detection {
    match format_of_path(path) {
        Some(f) => Detection::Found(f),
        None => if content.len() >= 2 && content[0] == 0x50 && content[1] == 0x4B {
            match zip_member(content, "project.json"@) {
                Err(e) => Detection::Failed(FormatError::Zip(e)),
                Ok(body) => match zip_json_format(body) {
                    Some(f) => Detection::Found(f),
                    None => Detection::Failed(FormatError::UnknownZip),
                },
            }
        } else if content.len() >= 1 && content[0] == 0x7B {
            Detection::CheckJson
        } else {
            Detection::Failed(FormatError::UnknownFile)
        },
    }
}

/// The format a file's JSON shows: Kitten when it has a `theatre` or `work_type` member.
pub open spec fn json_format(root: Option<Json>) -> Result<Format, FormatError> {
    match root {
        None => Err(FormatError::InvalidJson),
        Some(v) => if spec_get(v, "theatre"@) is Some || spec_get(v, "work_type"@) is Some {
            Ok(Format::Kitten)
        } else {
            Err(FormatError::UnknownJson)
        },
    }
}

fn eq_ci(a: &Vec<char>, b: &str) -> (r: bool)
    ensures
        r == eq_ignoring_ascii_case(a@, b@),
{
    let bs = crate::text::str_chars(b);
    if a.len() != bs.len() {
        return false;
    }
    let mut k: usize = 0;
    while k < a.len()
        invariant
            k <= a.len(),
            a.len() == bs.len(),
            bs@ == b@,
            forall|j: int| 0 <= j < k ==> lower_code(#[trigger] a@[j]) == lower_code(bs@[j]),
        decreases a.len() - k,
    {
        if lower(a[k]) != lower(bs[k]) {
            return false;
        }
        k += 1;
    }
    true
}

/// The format named by the extension of `path` (sb3, cdc, bcm4, in any ASCII case).
pub fn format_by_extension(path: &str) -> (r: Option<Format>)
    ensures
        r == format_of_path(path@),
{
    match extension(path) {
        Some(ext) => {
            if eq_ci(&ext, "sb3") {
                Some(Format::Scratch)
            } else if eq_ci(&ext, "cdc") {
                Some(Format::TencentCdc)
            } else if eq_ci(&ext, "bcm4") {
                Some(Format::Kitten)
            } else {
                None
            }
        },
        None => None,
    }
}

/// Whether `pat` occurs in `s`.
pub fn contains_bytes(s: &[u8], pat: &[u8]) -> (r: bool)
    ensures
        r == bytes_contain(s@, pat@),
{
    if pat.len() > s.len() {
        assert(!bytes_contain(s@, pat@));
        return false;
    }
    if pat.len() == 0 {
        assert(s@.subrange(0, 0 + pat.len()) =~= pat@);
        assert(bytes_contain(s@, pat@));
        return true;
    }
    let last = s.len() - pat.len();
    let mut i: usize = 0;
    while i <= last
        invariant
            last == s.len() - pat.len(),
            i <= last + 1,
            forall|j: int| 0 <= j < i ==> #[trigger] s@.subrange(j, j + pat.len()) != pat@,
        decreases last + 1 - i,
    {
        let mut k: usize = 0;
        let mut same = true;
        while k < pat.len()
            invariant
                k <= pat.len(),
                i + pat.len() <= s.len(),
                same == (forall|m: int| 0 <= m < k ==> s@[i + m] == pat@[m]),
            decreases pat.len() - k,
        {
            if s[i + k] != pat[k] {
                same = false;
            }
            k += 1;
        }
        if same {
            assert(s@.subrange(i as int, i + pat.len()) =~= pat@);
            return true;
        }
        assert(s@.subrange(i as int, i + pat.len()) != pat@) by {
            let m = choose|m: int| 0 <= m < pat.len() && s@[i + m] != pat@[m];
            assert(s@.subrange(i as int, i + pat.len())[m] == s@[i + m]);
        }
        i += 1;
    }
    assert forall|j: int| 0 <= j <= s@.len() - pat@.len() implies #[trigger] s@.subrange(
        j,
        j + pat.len(),
    ) != pat@ by {
        assert(j <= last);
    }
    false
}

/// The format shown by the head (at most 4096 bytes) of a zip project's `project.json`:
/// a `"targets"` key means Scratch, else a `"scenes"` or `"blockType"` key means cdc.
/// The bytes are searched as they are: an ASCII key occurs in the (lossily decoded) text
/// exactly where its bytes occur.
pub fn zip_project_format(body: &[u8]) -> (r: Option<Format>)
    ensures
        r == zip_json_format(body@),
{
    let head: &[u8] = if body.len() <= 4096 {
        body
    } else {
        vstd::slice::slice_subrange(body, 0, 4096)
    };
    assert(head@ == json_head(body@));
    if contains_bytes(head, "\"targets\"".as_bytes()) {
        Some(Format::Scratch)
    } else if contains_bytes(head, "\"scenes\"".as_bytes()) || contains_bytes(
        head,
        "\"blockType\"".as_bytes(),
    ) {
        Some(Format::TencentCdc)
    } else {
        None
    }
}

/// Tells the format of the file at `path` whose bytes are `content`: by the extension
/// first; else a zip (leading `PK`) is told by its `project.json`, and a file starting
/// with `{` is left to its JSON (`Detection::CheckJson`).
pub fn detect_format(path: &str, content: &[u8]) -> (r: Detection)
    ensures
        r == detection(path@, content@),
{
    if let Some(f) = format_by_extension(path) {
        return Detection::Found(f);
    }
    if content.len() >= 2 && content[0] == 0x50 && content[1] == 0x4B {
        match read_zip_entry(content, "project.json") {
            Err(e) => Detection::Failed(FormatError::Zip(e)),
            Ok(body) => match zip_project_format(body.as_slice()) {
                Some(f) => Detection::Found(f),
                None => Detection::Failed(FormatError::UnknownZip),
            },
        }
    } else if content.len() >= 1 && content[0] == 0x7B {
        Detection::CheckJson
    } else {
        Detection::Failed(FormatError::UnknownFile)
    }
}

/// The format a file's parsed JSON shows (`None` when the text did not parse): Kitten
/// when it has a `theatre` or `work_type` member.
pub fn json_project_format(root: Option<&Json>) -> (r: Result<Format, FormatError>)
    ensures
        r == json_format(
            match root {
                Some(v) => Some(*v),
                None => None,
            },
        ),
{
    match root {
        None => Err(FormatError::InvalidJson),
        Some(v) => {
            if v.get("theatre").is_some() || v.get("work_type").is_some() {
                Ok(Format::Kitten)
            } else {
                Err(FormatError::UnknownJson)
            }
        },
    }
}


/// A known extension decides the format, whatever the file holds.
pub proof fn extension_decides_format(path: Seq<char>, content: Seq<u8>)
    requires
        format_of_path(path) is Some,
    ensures
        detection(path, content) == Detection::Found(format_of_path(path)->Some_0),
{
}

} // verus!
