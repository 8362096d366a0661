//! Reading zip projects held in memory, and recognising audio members.

use vstd::prelude::*;

use crate::text::{lower, lower_code, str_chars};

verus! {

/// Why a member of a zip archive could not be read; each variant carries the message of
/// the underlying error.
#[derive(Clone, PartialEq, Eq, Debug)]
pub enum ZipReadError {
    /// The bytes are no readable zip archive.
    NotZip(String),
    /// The archive has no member of that name.
    MissingEntry(String),
    /// The member could not be decompressed.
    Read(String),
}

/// The bytes of member `name` of the zip archive `archive`, or why they could not be read.
pub uninterp spec fn zip_member(archive: Seq<u8>, name: Seq<char>) -> Result<Seq<u8>, ZipReadError>;

/// The names of the members of the zip archive `archive`, in archive order, each `None`
/// where the stored name could not be decoded; `None` when the archive cannot be read.
pub uninterp spec fn zip_member_names(archive: Seq<u8>) -> Option<Seq<Option<Seq<char>>>>;

/// What a single read of at most 16 bytes yields from the start of member `name`;
/// empty when the archive or the member cannot be opened or the read fails.
pub uninterp spec fn zip_member_head(archive: Seq<u8>, name: Seq<char>) -> Seq<u8>;

/// Opens the archive with `zip::ZipArchive::new` over an in-memory cursor, finds the member
/// with `ZipArchive::by_name` and reads it whole with `Read::read_to_end` on the
/// `zip::read::ZipFile`. The contract only names the outcome: a function of the archive
/// bytes and the member name.
#[verifier::external_body]
fn read_member(archive: &[u8], name: &str) -> (r: Result<Vec<u8>, ZipReadError>)
    ensures
        match r {
            Ok(b) => zip_member(archive@, name@) == Ok::<Seq<u8>, ZipReadError>(b@),
            Err(e) => zip_member(archive@, name@) == Err::<Seq<u8>, ZipReadError>(e),
        },
{
    let mut zip = match zip::ZipArchive::new(std::io::Cursor::new(archive)) {
        Ok(z) => z,
        Err(e) => return Err(ZipReadError::NotZip(e.to_string())),
    };
    let mut entry = match zip.by_name(name) {
        Ok(f) => f,
        Err(e) => return Err(ZipReadError::MissingEntry(e.to_string())),
    };
    let mut buf = Vec::new();
    match std::io::Read::read_to_end(&mut entry, &mut buf) {
        Ok(_) => Ok(buf),
        Err(e) => Err(ZipReadError::Read(e.to_string())),
    }
}

/// The view of an optional member name.
pub open spec fn opt_name_view(n: Option<String>) -> Option<Seq<char>> {
    match n {
        Some(s) => Some(s@),
        None => None,
    }
}

/// Opens the archive with `zip::ZipArchive::new` over an in-memory cursor and lists
/// `ZipArchive::file_names`, each decoded name kept and each name that failed to decode
/// turned into `None`. The contract only names the outcome.
#[verifier::external_body]
fn member_names(archive: &[u8]) -> (r: Option<Vec<Option<String>>>)
    ensures
        match r {
            Some(v) => zip_member_names(archive@) == Some(
                v@.map_values(|n: Option<String>| opt_name_view(n)),
            ),
            None => zip_member_names(archive@) is None,
        },
{
    match zip::ZipArchive::new(std::io::Cursor::new(archive)) {
        Ok(z) => Some(z.file_names().map(|n| n.ok().map(|s| s.to_string())).collect()),
        Err(_) => None,
    }
}

/// Opens the archive with `zip::ZipArchive::new` over an in-memory cursor, finds the member
/// with `ZipArchive::by_name` and makes one `Read::read` call into a 16-byte buffer,
/// keeping the bytes it reports (none on any error). The contract names the outcome and
/// states the bound that `Read::read` documents: it reports at most the buffer's length.
#[verifier::external_body]
fn member_head(archive: &[u8], name: &str) -> (r: Vec<u8>)
    ensures
        r@ == zip_member_head(archive@, name@),
        r@.len() <= 16,
{
    let mut buf = [0u8; 16];
    let n = match zip::ZipArchive::new(std::io::Cursor::new(archive)) {
        Ok(mut z) => match z.by_name(name) {
            Ok(mut e) => std::io::Read::read(&mut e, &mut buf).unwrap_or(0),
            Err(_) => 0,
        },
        Err(_) => 0,
    };
    buf[..n].to_vec()
}

/// Reads the whole member `name` of a zip project held in memory.
pub fn read_zip_entry(archive: &[u8], name: &str) -> (r: Result<Vec<u8>, ZipReadError>)
    ensures
        match r {
            Ok(b) => zip_member(archive@, name@) == Ok::<Seq<u8>, ZipReadError>(b@),
            Err(e) => zip_member(archive@, name@) == Err::<Seq<u8>, ZipReadError>(e),
        },
{
    read_member(archive, name)
}

// ---------------------------------------------------------------- audio members

/// Whether `name`, in ASCII lower case, ends with `suffix` in ASCII lower case.
pub open spec fn ends_with_ignoring_ascii_case(name: Seq<char>, suffix: Seq<char>) -> bool {
    &&& suffix.len() <= name.len()
    &&& forall|k: int|
        0 <= k < suffix.len() ==> lower_code(#[trigger] name[name.len() - suffix.len() + k])
            == lower_code(suffix[k])
}

/// A member name with an audio extension: .mp3 .wav .ogg .m4a .aac .flac, in any ASCII case.
pub open spec fn is_audio_name(name: Seq<char>) -> bool {
    ||| ends_with_ignoring_ascii_case(name, ".mp3"@)
    ||| ends_with_ignoring_ascii_case(name, ".wav"@)
    ||| ends_with_ignoring_ascii_case(name, ".ogg"@)
    ||| ends_with_ignoring_ascii_case(name, ".m4a"@)
    ||| ends_with_ignoring_ascii_case(name, ".aac"@)
    ||| ends_with_ignoring_ascii_case(name, ".flac"@)
}

fn ends_with_ci(name: &Vec<char>, suffix: &str) -> (r: bool)
    ensures
        r == ends_with_ignoring_ascii_case(name@, suffix@),
{
    let suf = str_chars(suffix);
    if suf.len() > name.len() {
        return false;
    }
    let base = name.len() - suf.len();
    let mut k: usize = 0;
    while k < suf.len()
        invariant
            k <= suf.len(),
            suf@ == suffix@,
            base == name.len() - suf.len(),
            forall|j: int|
                0 <= j < k ==> lower_code(#[trigger] name@[name.len() - suf.len() + j])
                    == lower_code(suf@[j]),
        decreases suf.len() - k,
    {
        if lower(name[base + k]) != lower(suf[k]) {
            assert(lower_code(name@[name.len() - suf.len() + k]) != lower_code(suf@[k as int]));
            return false;
        }
        k += 1;
    }
    true
}

/// Whether a member name has an audio extension (.mp3 .wav .ogg .m4a .aac .flac, any ASCII case).
pub fn is_audio_file_name(name: &str) -> (r: bool)
    ensures
        r == is_audio_name(name@),
{
    let cs = str_chars(name);
    ends_with_ci(&cs, ".mp3") || ends_with_ci(&cs, ".wav") || ends_with_ci(&cs, ".ogg")
        || ends_with_ci(&cs, ".m4a") || ends_with_ci(&cs, ".aac") || ends_with_ci(&cs, ".flac")
}

/// Leading bytes of a WAV ("RIFF"...."WAVE"), an MP3 (an "ID3" tag or a frame sync
/// 0xFF 0xE0-mask) or an Ogg ("OggS") file.
pub open spec fn is_audio_head(b: Seq<u8>) -> bool {
    ||| b.len() >= 12 && b.take(4) == seq![0x52u8, 0x49, 0x46, 0x46] && b.subrange(8, 12) == seq![
        0x57u8,
        0x41,
        0x56,
        0x45,
    ]
    ||| b.len() >= 3 && b.take(3) == seq![0x49u8, 0x44, 0x33]
    ||| b.len() >= 2 && b[0] == 0xFF && b[1] & 0xE0 == 0xE0
    ||| b.len() >= 4 && b.take(4) == seq![0x4Fu8, 0x67, 0x67, 0x53]
}

/// Which leading bytes mark audio: exactly a WAV header ("RIFF", four size bytes,
/// "WAVE"), an ID3 tag, an MPEG frame sync (0xFF, then a byte whose top three bits are
/// set: 0xFF Ex/Fx) or an Ogg page ("OggS").
pub proof fn audio_heads(b: Seq<u8>)
    ensures
        is_audio_head(b) <==> ({
        ||| (b.len() >= 12 && b[0] == 0x52 && b[1] == 0x49 && b[2] == 0x46 && b[3] == 0x46
            && b[8] == 0x57 && b[9] == 0x41 && b[10] == 0x56 && b[11] == 0x45)
        ||| (b.len() >= 3 && b[0] == 0x49 && b[1] == 0x44 && b[2] == 0x33)
        ||| (b.len() >= 2 && b[0] == 0xFF && b[1] >= 0xE0)
        ||| (b.len() >= 4 && b[0] == 0x4F && b[1] == 0x67 && b[2] == 0x67 && b[3] == 0x53)
        }),
{
    if b.len() >= 2 {
        let x = b[1];
        assert((x & 0xE0 == 0xE0) <==> (x >= 0xE0)) by (bit_vector);
    }
    if b.len() >= 12 {
        if b.take(4) == seq![0x52u8, 0x49, 0x46, 0x46] {
            assert(b.take(4)[0] == b[0] && b.take(4)[1] == b[1]);
            assert(b.take(4)[2] == b[2] && b.take(4)[3] == b[3]);
        }
        if b.subrange(8, 12) == seq![0x57u8, 0x41, 0x56, 0x45] {
            assert(b.subrange(8, 12)[0] == b[8] && b.subrange(8, 12)[1] == b[9]);
            assert(b.subrange(8, 12)[2] == b[10] && b.subrange(8, 12)[3] == b[11]);
        }
        if b[0] == 0x52 && b[1] == 0x49 && b[2] == 0x46 && b[3] == 0x46 {
            assert(b.take(4) =~= seq![0x52u8, 0x49, 0x46, 0x46]);
        }
        if b[8] == 0x57 && b[9] == 0x41 && b[10] == 0x56 && b[11] == 0x45 {
            assert(b.subrange(8, 12) =~= seq![0x57u8, 0x41, 0x56, 0x45]);
        }
    }
    if b.len() >= 3 {
        if b.take(3) == seq![0x49u8, 0x44, 0x33] {
            assert(b.take(3)[0] == b[0] && b.take(3)[1] == b[1] && b.take(3)[2] == b[2]);
        }
        if b[0] == 0x49 && b[1] == 0x44 && b[2] == 0x33 {
            assert(b.take(3) =~= seq![0x49u8, 0x44, 0x33]);
        }
    }
    if b.len() >= 4 {
        if b.take(4) == seq![0x4Fu8, 0x67, 0x67, 0x53] {
            assert(b.take(4)[0] == b[0] && b.take(4)[1] == b[1]);
            assert(b.take(4)[2] == b[2] && b.take(4)[3] == b[3]);
        }
        if b[0] == 0x4F && b[1] == 0x67 && b[2] == 0x67 && b[3] == 0x53 {
            assert(b.take(4) =~= seq![0x4Fu8, 0x67, 0x67, 0x53]);
        }
    }
}

/// Whether the leading bytes of a file mark it as WAV, MP3 or Ogg audio.
pub fn is_audio_magic(b: &[u8]) -> (r: bool)
    ensures
        r == is_audio_head(b@),
{
    if b.len() >= 12 && b[0] == 0x52 && b[1] == 0x49 && b[2] == 0x46 && b[3] == 0x46 && b[8]
        == 0x57 && b[9] == 0x41 && b[10] == 0x56 && b[11] == 0x45 {
        assert(b@.take(4) =~= seq![0x52u8, 0x49, 0x46, 0x46]);
        assert(b@.subrange(8, 12) =~= seq![0x57u8, 0x41, 0x56, 0x45]);
        return true;
    }
    if b.len() >= 3 && b[0] == 0x49 && b[1] == 0x44 && b[2] == 0x33 {
        assert(b@.take(3) =~= seq![0x49u8, 0x44, 0x33]);
        return true;
    }
    if b.len() >= 2 && b[0] == 0xFF && (b[1] & 0xE0) == 0xE0 {
        return true;
    }
    if b.len() >= 4 && b[0] == 0x4F && b[1] == 0x67 && b[2] == 0x67 && b[3] == 0x53 {
        assert(b@.take(4) =~= seq![0x4Fu8, 0x67, 0x67, 0x53]);
        return true;
    }
    proof {
        if b@.len() >= 12 && b@.take(4) == seq![0x52u8, 0x49, 0x46, 0x46] {
            assert(b@.take(4)[0] == b@[0] && b@.take(4)[1] == b@[1]);
            assert(b@.take(4)[2] == b@[2] && b@.take(4)[3] == b@[3]);
            assert(b@.subrange(8, 12)[0] == b@[8] && b@.subrange(8, 12)[1] == b@[9]);
            assert(b@.subrange(8, 12)[2] == b@[10] && b@.subrange(8, 12)[3] == b@[11]);
        }
        if b@.len() >= 3 && b@.take(3) == seq![0x49u8, 0x44, 0x33] {
            assert(b@.take(3)[0] == b@[0] && b@.take(3)[1] == b@[1] && b@.take(3)[2] == b@[2]);
        }
        if b@.len() >= 4 && b@.take(4) == seq![0x4Fu8, 0x67, 0x67, 0x53] {
            assert(b@.take(4)[0] == b@[0] && b@.take(4)[1] == b@[1]);
            assert(b@.take(4)[2] == b@[2] && b@.take(4)[3] == b@[3]);
        }
    }
    false
}

/// Whether member `name` is audio: by its extension, else by its leading bytes.
pub open spec fn is_audio_member(archive: Seq<u8>, name: Seq<char>) -> bool {
    is_audio_name(name) || is_audio_head(zip_member_head(archive, name))
}

/// The number of audio members among `names` (names that could not be decoded count not).
pub open spec fn count_audio_members(archive: Seq<u8>, names: Seq<Option<Seq<char>>>) -> nat
    decreases names.len(),
{
    if names.len() == 0 {
        0
    } else {
        count_audio_members(archive, names.drop_last()) + match names.last() {
            Some(n) => if is_audio_member(archive, n) {
                1nat
            } else {
                0nat
            },
            None => 0nat,
        }
    }
}

/// The number of audio members of a zip archive; 0 when it cannot be read.
pub open spec fn zip_audio_count(archive: Seq<u8>) -> nat {
    match zip_member_names(archive) {
        Some(names) => count_audio_members(archive, names),
        None => 0,
    }
}

proof fn lemma_count_audio_le_len(archive: Seq<u8>, names: Seq<Option<Seq<char>>>)
    ensures
        count_audio_members(archive, names) <= names.len(),
    decreases names.len(),
{
    if names.len() > 0 {
        lemma_count_audio_le_len(archive, names.drop_last());
    }
}

/// Counts the audio members of a zip project: those with an audio extension, and the
/// others whose leading bytes are WAV, MP3 or Ogg; never more than the archive's members.
pub fn count_zip_audio_files(archive: &[u8]) -> (n: u64)
    ensures
        n == zip_audio_count(archive@),
        zip_member_names(archive@) matches Some(ns) ==> n <= ns.len(),
{
    let names = match member_names(archive) {
        Some(v) => v,
        None => {
            return 0;
        },
    };
    let ghost ns = names@.map_values(|n: Option<String>| opt_name_view(n));
    let mut n: u64 = 0;
    let mut i: usize = 0;
    while i < names.len()
        invariant
            i <= names.len(),
            ns == names@.map_values(|n: Option<String>| opt_name_view(n)),
            zip_member_names(archive@) == Some(ns),
            n == count_audio_members(archive@, ns.take(i as int)),
            n <= i,
        decreases names.len() - i,
    {
        assert(ns.take(i + 1).drop_last() =~= ns.take(i as int));
        assert(ns.take(i + 1).last() == opt_name_view(names@[i as int]));
        proof {
            lemma_count_audio_le_len(archive@, ns.take(i as int));
        }
        match &names[i] {
            Some(name) => {
                if is_audio_file_name(name.as_str()) {
                    n = n + 1;
                } else {
                    let head = member_head(archive, name.as_str());
                    if is_audio_magic(head.as_slice()) {
                        n = n + 1;
                    }
                }
            },
            None => {},
        }
        i += 1;
    }
    assert(ns.take(names.len() as int) =~= ns);
    n
}

} // verus!
