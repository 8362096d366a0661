use bounting::archive::{count_zip_audio_files, is_audio_file_name, is_audio_magic, read_zip_entry, ZipReadError};
use bounting::detect::{detect_format, format_by_extension, json_project_format, zip_project_format, Detection, FormatError};
use bounting::json::Json;
use bounting::model::{AnalyzeError, Format};
use bounting::paths::{extension, file_name};
use bounting::project::{analyze_content, analyze_project, json_member, ProjectError};
use bounting::{cdc, kitten, scratch};
use std::io::Write;

fn tree(v: &serde_json::Value) -> Json {
    match v {
        serde_json::Value::Null => Json::Null,
        serde_json::Value::Bool(b) => Json::Bool(*b),
        serde_json::Value::Number(_) => Json::Number,
        serde_json::Value::String(s) => Json::Str(s.clone()),
        serde_json::Value::Array(a) => Json::Array(a.iter().map(tree).collect()),
        serde_json::Value::Object(o) => {
            Json::Object(o.iter().map(|(k, x)| (k.clone(), tree(x))).collect())
        }
    }
}

fn json(text: &str) -> Json {
    tree(&serde_json::from_str::<serde_json::Value>(text).unwrap())
}

fn zip_of(members: &[(&str, &[u8])]) -> Vec<u8> {
    let mut w = zip::ZipWriter::new(std::io::Cursor::new(Vec::new()));
    for (name, data) in members {
        let opts = zip::write::SimpleFileOptions::default()
            .compression_method(zip::CompressionMethod::Stored);
        w.start_file(*name, opts).unwrap();
        w.write_all(data).unwrap();
    }
    w.finish().unwrap().into_inner()
}

fn zip_deflated(members: &[(&str, &[u8])]) -> Vec<u8> {
    let mut w = zip::ZipWriter::new(std::io::Cursor::new(Vec::new()));
    for (name, data) in members {
        let opts = zip::write::SimpleFileOptions::default()
            .compression_method(zip::CompressionMethod::Deflated);
        w.start_file(*name, opts).unwrap();
        w.write_all(data).unwrap();
    }
    w.finish().unwrap().into_inner()
}

const SCRATCH: &str = r#"{"targets":[
  {"isStage":true,"name":"Stage","blocks":{},"costumes":[{"name":"backdrop1"}],"sounds":[{"name":"pop"}]},
  {"name":"Cat","blocks":{"a":{"opcode":"x","shadow":false},"b":{"opcode":"y","shadow":true},"c":[12,"v"],"d":{"opcode":"z"}},
   "costumes":[{"name":"c1"},{"name":"c2"},{}],"sounds":[]},
  {"blocks":{"e":{"shadow":true}}}
]}"#;

#[test]
fn scratch_project_counts() {
    let s = scratch::analyze("作品.sb3", &json(SCRATCH)).unwrap();
    assert_eq!(s.path, "作品.sb3");
    assert_eq!(s.format, Format::Scratch);
    assert_eq!(s.actors, 3);
    assert_eq!(s.blocks, 2);
    assert_eq!(s.shadow_blocks, 2);
    assert_eq!(s.costumes, 4);
    assert_eq!(s.sounds, 1);
    assert_eq!(s.total(), 7);
    let groups: Vec<(String, u64, u64, u64)> =
        s.groups.iter().map(|g| (g.name.clone(), g.blocks, g.costumes, g.sounds)).collect();
    assert_eq!(
        groups,
        vec![
            ("Stage".to_string(), 0, 1, 1),
            ("Cat".to_string(), 2, 3, 0),
            ("<未命名>".to_string(), 0, 0, 0),
        ]
    );
    assert!(s.costume_groups.is_empty());
}

#[test]
fn scratch_totals_are_sums_of_groups() {
    let s = scratch::analyze("p.sb3", &json(SCRATCH)).unwrap();
    assert_eq!(s.groups.len() as u64, s.actors);
    assert_eq!(s.groups.iter().map(|g| g.blocks).sum::<u64>(), s.blocks);
    assert_eq!(s.groups.iter().map(|g| g.costumes).sum::<u64>(), s.costumes);
    assert_eq!(s.groups.iter().map(|g| g.sounds).sum::<u64>(), s.sounds);
}

#[test]
fn scratch_without_targets_is_refused() {
    assert_eq!(scratch::analyze("p.sb3", &json(r#"{"meta":{}}"#)).unwrap_err(), AnalyzeError::MissingTargets);
    assert_eq!(scratch::analyze("p.sb3", &json(r#"{"targets":{}}"#)).unwrap_err(), AnalyzeError::MissingTargets);
    let empty = scratch::analyze("p.sb3", &json(r#"{"targets":[]}"#)).unwrap();
    assert_eq!((empty.actors, empty.total(), empty.groups.len()), (0, 0, 0));
}

const KITTEN: &str = r#"{"theatre":{
  "actors":{"a1":{"styles":["s1","s2"],"block_data_json":{"blocks":{"b1":{"is_shadow":false},"b2":{"is_shadow":true},"b3":{}}},"audios":["x"]},
            "a2":{"styles":[]}},
  "scenes":{"sc":{"styles":["bg"],"block_data_json":{"blocks":{"b4":{}}}}}},
 "audio":{"m1":{},"m2":{}},"audio_order":[1,2,3,4]}"#;

#[test]
fn kitten_project_counts() {
    let s = kitten::analyze("新的作品.bcm4", &json(KITTEN)).unwrap();
    assert_eq!(s.format, Format::Kitten);
    assert_eq!((s.actors, s.blocks, s.shadow_blocks, s.costumes, s.sounds), (2, 3, 1, 3, 3));
    assert!(s.groups.is_empty());
    assert!(s.costume_groups.is_empty());
}

#[test]
fn kitten_audio_order_counts_only_without_other_sounds() {
    let s = kitten::analyze("k.bcm4", &json(r#"{"theatre":{},"audio_order":["a","b"]}"#)).unwrap();
    assert_eq!(s.sounds, 2);
    let s = kitten::analyze("k.bcm4", &json(r#"{"theatre":{},"audio":["x"],"audio_order":["a","b"]}"#)).unwrap();
    assert_eq!(s.sounds, 1);
    let s = kitten::analyze("k.bcm4", &json(r#"{"theatre":{},"audio":5}"#)).unwrap();
    assert_eq!(s.sounds, 0);
}

#[test]
fn kitten_without_theatre_is_refused() {
    assert_eq!(kitten::analyze("k.bcm4", &json(r#"{"work_type":1}"#)).unwrap_err(), AnalyzeError::MissingTheatre);
}

const CDC: &str = r#"{"scenes":[
  {"sprites":[{"blocks":"<xml><block type=\"a\"><shadow type=\"b\"></shadow></block><block/></xml>"},{"name":"s2"}],"audios":["a"]},
  {"sprites":[]}],
 "animates":[{"animName":"cat","images":[{"name":"f1"},{"name":"f2"}]},{"images":[{"x":1}]},{"animName":"none"}]}"#;

#[test]
fn cdc_project_counts() {
    let s = cdc::analyze("战争.cdc", &json(CDC), 4).unwrap();
    assert_eq!(s.format, Format::TencentCdc);
    assert_eq!((s.actors, s.blocks, s.shadow_blocks, s.costumes, s.sounds), (2, 2, 1, 3, 5));
    assert!(s.groups.is_empty());
    assert_eq!(
        s.costume_groups,
        vec![
            ("cat".to_string(), vec!["f1".to_string(), "f2".to_string()]),
            ("<未命名>".to_string(), vec![]),
        ]
    );
}

#[test]
fn cdc_project_of_empty_json() {
    let s = cdc::analyze("x.cdc", &json("{}"), 0).unwrap();
    assert_eq!((s.actors, s.blocks, s.shadow_blocks, s.costumes, s.sounds), (0, 0, 0, 0, 0));
}

#[test]
fn zip_members_are_read_back() {
    let archive = zip_deflated(&[("project.json", b"{\"targets\":[]}"), ("other", b"abc")]);
    assert_eq!(read_zip_entry(&archive, "project.json").unwrap(), b"{\"targets\":[]}".to_vec());
    assert_eq!(read_zip_entry(&archive, "other").unwrap(), b"abc".to_vec());
    assert!(matches!(read_zip_entry(&archive, "missing"), Err(ZipReadError::MissingEntry(_))));
    assert!(matches!(read_zip_entry(b"PK not a zip", "project.json"), Err(ZipReadError::NotZip(_))));
}

#[test]
fn damaged_zip_member_is_a_read_error() {
    let data = b"hello hello hello hello hello hello".to_vec();
    let mut archive = zip_of(&[("m", &data)]);
    // The stored data follows the 30-byte local header and the 1-byte name.
    archive[31] ^= 0xFF;
    assert!(matches!(read_zip_entry(&archive, "m"), Err(ZipReadError::Read(_))));
}

#[test]
fn audio_names_and_magic() {
    assert!(is_audio_file_name("a.mp3"));
    assert!(is_audio_file_name("DIR/A.WAV"));
    assert!(is_audio_file_name("x.Flac"));
    assert!(is_audio_file_name(".ogg"));
    assert!(!is_audio_file_name("mp3"));
    assert!(!is_audio_file_name("a.mp4"));
    assert!(is_audio_magic(b"RIFF\x00\x00\x00\x00WAVEfmt "));
    assert!(!is_audio_magic(b"RIFF\x00\x00\x00\x00AVI "));
    assert!(is_audio_magic(b"ID3\x04"));
    assert!(is_audio_magic(&[0xFF, 0xFB, 0x90]));
    assert!(!is_audio_magic(&[0xFF, 0x1B]));
    assert!(is_audio_magic(b"OggS\x00"));
    assert!(!is_audio_magic(b"\x89PNG"));
    assert!(!is_audio_magic(b""));
}

#[test]
fn zip_audio_members_are_counted() {
    let archive = zip_of(&[
        ("project.json", b"{}"),
        ("sound.MP3", b"not really audio"),
        ("h1", b"RIFF\x24\x00\x00\x00WAVEfmt \x10\x00\x00\x00"),
        ("h2", b"ID3\x03\x00"),
        ("h3", &[0xFF, 0xFB, 0x90, 0x00]),
        ("h4", b"OggS\x00\x02"),
        ("img", b"\x89PNG\r\n\x1a\n"),
    ]);
    assert_eq!(count_zip_audio_files(&archive), 5);
    assert_eq!(count_zip_audio_files(b"no zip here"), 0);
}

#[test]
fn paths_file_names_and_extensions() {
    assert_eq!(file_name("dir/作品.sb3"), Some("作品.sb3".to_string()));
    assert_eq!(file_name("a/b/"), Some("b".to_string()));
    assert_eq!(file_name(".."), None);
    assert_eq!(extension("dir/a.SB3").map(|e| e.into_iter().collect::<String>()), Some("SB3".to_string()));
    assert_eq!(extension("a.tar.gz").map(|e| e.into_iter().collect::<String>()), Some("gz".to_string()));
    assert_eq!(extension(".sb3"), None);
    assert_eq!(extension("noext"), None);
    assert_eq!(extension("a.").map(|e| e.into_iter().collect::<String>()), Some(String::new()));
}

#[test]
fn extension_decides_format() {
    assert_eq!(format_by_extension("x/a.sb3"), Some(Format::Scratch));
    assert_eq!(format_by_extension("a.CDC"), Some(Format::TencentCdc));
    assert_eq!(format_by_extension("a.Bcm4"), Some(Format::Kitten));
    assert_eq!(format_by_extension("a.zip"), None);
    assert_eq!(detect_format("a.sb3", b"garbage"), Detection::Found(Format::Scratch));
    assert_eq!(detect_format("a.bcm4", b"PK"), Detection::Found(Format::Kitten));
}

#[test]
fn unknown_extension_is_sniffed() {
    let scratch = zip_of(&[("project.json", b"{\"targets\":[],\"meta\":{}}")]);
    let cdc = zip_of(&[("project.json", b"{\"scenes\":[]}")]);
    let cdc2 = zip_of(&[("project.json", b"{\"x\":{\"blockType\":1}}")]);
    let other = zip_of(&[("project.json", b"{\"x\":1}")]);
    let no_project = zip_of(&[("a.txt", b"hi")]);
    assert_eq!(detect_format("p", &scratch), Detection::Found(Format::Scratch));
    assert_eq!(detect_format("p.zip", &cdc), Detection::Found(Format::TencentCdc));
    assert_eq!(detect_format("p", &cdc2), Detection::Found(Format::TencentCdc));
    assert_eq!(detect_format("p", &other), Detection::Failed(FormatError::UnknownZip));
    assert!(matches!(
        detect_format("p", &no_project),
        Detection::Failed(FormatError::Zip(ZipReadError::MissingEntry(_)))
    ));
    assert!(matches!(detect_format("p", b"PK\x03\x04junk"), Detection::Failed(FormatError::Zip(ZipReadError::NotZip(_)))));
    assert_eq!(detect_format("p", b"{\"theatre\":{}}"), Detection::CheckJson);
    assert_eq!(detect_format("p", b"hello"), Detection::Failed(FormatError::UnknownFile));
    assert_eq!(detect_format("p", b""), Detection::Failed(FormatError::UnknownFile));
}

#[test]
fn zip_project_json_markers() {
    assert_eq!(zip_project_format(b"{\"targets\":[]}"), Some(Format::Scratch));
    assert_eq!(zip_project_format(b"{\"scenes\":[],\"targets\":[]}"), Some(Format::Scratch));
    assert_eq!(zip_project_format(b"{\"blockType\":1}"), Some(Format::TencentCdc));
    assert_eq!(zip_project_format(b"{targets}"), None);
    let mut late = vec![b' '; 5000];
    late.extend_from_slice(b"\"targets\"");
    assert_eq!(zip_project_format(&late), None);
}

#[test]
fn json_markers_tell_kitten() {
    assert_eq!(json_project_format(Some(&json(r#"{"theatre":{}}"#))), Ok(Format::Kitten));
    assert_eq!(json_project_format(Some(&json(r#"{"work_type":3}"#))), Ok(Format::Kitten));
    assert_eq!(json_project_format(Some(&json(r#"{"targets":[]}"#))), Err(FormatError::UnknownJson));
    assert_eq!(json_project_format(None), Err(FormatError::InvalidJson));
}

#[test]
fn json_lookups() {
    let v = json(r#"{"a":{"b":[1,2]},"s":"x","t":true}"#);
    assert!(v.get("a").is_some());
    assert!(v.get("z").is_none());
    assert_eq!(v.get("a").unwrap().get_array("b").map(|a| a.len()), Some(2));
    assert_eq!(v.get_str("s").map(|s| s.as_str()), Some("x"));
    assert_eq!(v.get_bool("t"), Some(true));
    assert_eq!(v.get_bool("s"), None);
    assert!(v.get_object("s").is_none());
    assert!(Json::Array(vec![]).get("a").is_none());
}

#[test]
fn projects_are_counted_by_their_format() {
    assert_eq!(json_member(Format::Scratch), Some("project.json"));
    assert_eq!(json_member(Format::TencentCdc), Some("project.json"));
    assert_eq!(json_member(Format::Kitten), None);

    let s = analyze_project("作品.sb3", Format::Scratch, &json(SCRATCH), 9).unwrap();
    assert_eq!((s.format, s.actors, s.blocks, s.costumes, s.sounds), (Format::Scratch, 3, 2, 4, 1));
    let c = analyze_project("战争.cdc", Format::TencentCdc, &json(CDC), 4).unwrap();
    assert_eq!((c.format, c.sounds), (Format::TencentCdc, 5));
    let k = analyze_project("新的作品.bcm4", Format::Kitten, &json(KITTEN), 9).unwrap();
    assert_eq!(k.format, Format::Kitten);
    assert_eq!(analyze_project("x.sb3", Format::Scratch, &json("{}"), 0).err(), Some(AnalyzeError::MissingTargets));
    assert_eq!(analyze_project("x.bcm4", Format::Kitten, &json("{}"), 0).err(), Some(AnalyzeError::MissingTheatre));
}

#[test]
fn project_files_are_counted_from_their_bytes() {
    let sb3 = zip_deflated(&[("project.json", SCRATCH.as_bytes())]);
    let s = analyze_content("作品.sb3", &sb3).unwrap();
    assert_eq!((s.format, s.actors, s.blocks, s.shadow_blocks, s.costumes, s.sounds), (Format::Scratch, 3, 2, 2, 4, 1));
    assert_eq!(s.groups.len(), 3);

    let cdc = zip_of(&[("project.json", CDC.as_bytes()), ("voice.mp3", b"ID3\x03\x00")]);
    let c = analyze_content("战争.cdc", &cdc).unwrap();
    assert_eq!((c.format, c.actors, c.blocks, c.shadow_blocks, c.costumes, c.sounds), (Format::TencentCdc, 2, 2, 1, 3, 2));
    // Without the extension the zip's project.json tells the format.
    assert_eq!(analyze_content("战争", &cdc).unwrap().format, Format::TencentCdc);

    let k = analyze_content("新的作品.bcm4", KITTEN.as_bytes()).unwrap();
    let k2 = analyze_content("新的作品", KITTEN.as_bytes()).unwrap();
    assert_eq!(k.format, Format::Kitten);
    assert_eq!((k2.format, k2.blocks, k2.sounds), (k.format, k.blocks, k.sounds));
}

#[test]
fn project_file_errors() {
    assert_eq!(analyze_content("a.txt", b"hello").err(), Some(ProjectError::Format(FormatError::UnknownFile)));
    assert_eq!(analyze_content("a", b"{not json").err(), Some(ProjectError::Format(FormatError::InvalidJson)));
    assert_eq!(analyze_content("a", b"{\"x\":1}").err(), Some(ProjectError::Format(FormatError::UnknownJson)));
    assert_eq!(analyze_content("a.bcm4", b"{not json").err(), Some(ProjectError::Json(Format::Kitten)));
    let bad = zip_of(&[("project.json", b"{oops")]);
    assert_eq!(analyze_content("a.sb3", &bad).err(), Some(ProjectError::Json(Format::Scratch)));
    let none = zip_of(&[("a.txt", b"hi")]);
    assert!(matches!(analyze_content("a.sb3", &none), Err(ProjectError::Zip(ZipReadError::MissingEntry(_)))));
    let empty = zip_of(&[("project.json", b"{}")]);
    assert_eq!(analyze_content("a.sb3", &empty).err(), Some(ProjectError::Analyze(AnalyzeError::MissingTargets)));
    assert_eq!(analyze_content("a.bcm4", b"{}").err(), Some(ProjectError::Analyze(AnalyzeError::MissingTheatre)));
}

#[test]
fn counts_beyond_u64_are_refused() {
    let root = json(r#"{"scenes":[{"audios":[1]}]}"#);
    assert_eq!(cdc::analyze("x.cdc", &root, u64::MAX).err(), Some(AnalyzeError::TooLarge));
    assert_eq!(cdc::analyze("x.cdc", &root, u64::MAX - 1).unwrap().sounds, u64::MAX);
}
