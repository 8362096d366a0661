use bounting::model::{Format, GroupStat, ProjectStats};
use bounting::json_out::{json_report, to_json, JsonOut};
use bounting::report::{csv_escape, detail, render_table, summary_table, to_csv};
use bounting::text::{count_xml_tag, decimal_string, display_width};

fn stats(
    path: &str,
    format: Format,
    counts: [u64; 5],
    groups: Vec<(&str, u64, u64, u64)>,
    costume_groups: Vec<(&str, Vec<&str>)>,
) -> ProjectStats {
    ProjectStats {
        path: path.to_string(),
        format,
        actors: counts[0],
        blocks: counts[1],
        shadow_blocks: counts[2],
        costumes: counts[3],
        sounds: counts[4],
        groups: groups
            .into_iter()
            .map(|(n, b, c, s)| GroupStat { name: n.to_string(), blocks: b, costumes: c, sounds: s })
            .collect(),
        costume_groups: costume_groups
            .into_iter()
            .map(|(o, ns)| (o.to_string(), ns.into_iter().map(|n| n.to_string()).collect()))
            .collect(),
    }
}

fn scratch_sample() -> ProjectStats {
    stats(
        "projects/作品 (1).sb3",
        Format::Scratch,
        [2, 5, 3, 2, 1],
        vec![("Stage", 0, 1, 1), ("小猫", 5, 1, 0)],
        vec![],
    )
}

fn cdc_sample() -> ProjectStats {
    let walk: Vec<String> = (1..=15).map(|i| format!("走路{i}")).collect();
    let long = "x".repeat(100);
    let mut s = stats("全面战争模拟器.cdc", Format::TencentCdc, [72, 8022, 0, 209, 0], vec![], vec![]);
    s.costume_groups = vec![
        ("hero".to_string(), walk),
        ("空".to_string(), vec![]),
        ("a".to_string(), vec![long, "y".to_string()]),
    ];
    s
}

fn kitten_sample() -> ProjectStats {
    stats("a,\"b\".bcm4", Format::Kitten, [1, 7, 1, 6, 0], vec![("g,1", 1, 2, 3)], vec![])
}

#[test]
fn format_names() {
    assert_eq!(Format::Scratch.name(), "Scratch");
    assert_eq!(Format::TencentCdc.name(), "腾讯扣叮");
    assert_eq!(Format::Kitten.name(), "Kitten");
}

#[test]
fn total_is_blocks_costumes_sounds() {
    let s = stats("p", Format::Kitten, [1, 7, 100, 6, 2], vec![], vec![]);
    assert_eq!(s.total(), 15);
}

#[test]
fn display_width_counts_cjk_twice() {
    assert_eq!(display_width(""), 0);
    assert_eq!(display_width("abc"), 3);
    assert_eq!(display_width("积木"), 4);
    assert_eq!(display_width("a积b"), 4);
    assert_eq!(display_width("ＡＢ"), 4);
    assert_eq!(display_width("、 "), 3);
    assert_eq!(display_width("é"), 1);
}

#[test]
fn xml_tags_are_counted_at_name_boundaries() {
    let xml = "<xml><block type=\"a\"><shadow type=\"b\"></shadow></block><block/><blockly></blockly><block>";
    assert_eq!(count_xml_tag(xml, "block"), 3);
    assert_eq!(count_xml_tag(xml, "shadow"), 1);
    assert_eq!(count_xml_tag("<block", "block"), 0);
    assert_eq!(count_xml_tag("<block\n<block\t", "block"), 2);
    assert_eq!(count_xml_tag("no tags", "block"), 0);
}

#[test]
fn decimal_strings() {
    assert_eq!(decimal_string(0), "0");
    assert_eq!(decimal_string(7), "7");
    assert_eq!(decimal_string(8231), "8231");
    assert_eq!(decimal_string(u64::MAX), u64::MAX.to_string());
}

#[test]
fn csv_fields_are_quoted_when_needed() {
    assert_eq!(csv_escape("plain"), "plain");
    assert_eq!(csv_escape("a,b"), "\"a,b\"");
    assert_eq!(csv_escape("say \"hi\""), "\"say \"\"hi\"\"\"");
    assert_eq!(csv_escape("two\nlines"), "\"two\nlines\"");
    assert_eq!(csv_escape(""), "");
}

#[test]
fn csv_field_reads_back_to_its_text() {
    for text in ["plain", "a,b", "say \"hi\"", "\"", "x\ny", ""] {
        let f = csv_escape(text);
        let back = if f.len() >= 2 && f.starts_with('"') && f.ends_with('"') {
            f[1..f.len() - 1].replace("\"\"", "\"")
        } else {
            f.clone()
        };
        assert_eq!(back, text);
    }
}

#[test]
fn csv_report() {
    let out = to_csv(&[scratch_sample(), cdc_sample(), kitten_sample()]);
    assert_eq!(
        out,
        "file,format,group,actors,blocks,shadow_blocks,costumes,sounds,total\nprojects/作品 (1).sb3,Scratch,,2,5,3,2,1,8\nprojects/作品 (1).sb3,Scratch,Stage,2,0,3,1,1,2\nprojects/作品 (1).sb3,Scratch,小猫,2,5,3,1,0,6\n全面战争模拟器.cdc,腾讯扣叮,,72,8022,0,209,0,8231\n\"a,\"\"b\"\".bcm4\",Kitten,,1,7,1,6,0,13\n\"a,\"\"b\"\".bcm4\",Kitten,\"g,1\",1,1,1,2,3,6\n"
    );
}

#[test]
fn csv_report_of_nothing_is_the_header() {
    assert_eq!(to_csv(&[]), "file,format,group,actors,blocks,shadow_blocks,costumes,sounds,total\n");
}

#[test]
fn summary_table_aligns_cjk() {
    let out = summary_table(&[scratch_sample(), cdc_sample()]);
    assert_eq!(
        out,
        "文件                格式      角色  积木  造型  音频  总量\n──────────────────  ────────  ────  ────  ────  ────  ────\n作品 (1).sb3        Scratch   2     5     2     1     8\n全面战争模拟器.cdc  腾讯扣叮  72    8022  209   0     8231\n"
    );
}

#[test]
fn summary_table_of_nothing_is_empty() {
    assert_eq!(summary_table(&[]), "");
}

#[test]
fn table_columns_line_up() {
    let headers = vec!["名".to_string(), "n".to_string()];
    let rows = vec![
        vec!["长长的名字".to_string(), "1".to_string()],
        vec!["a".to_string(), "12345".to_string()],
    ];
    let out = render_table(&headers, &rows);
    assert_eq!(out, "名          n\n──────────  ─────\n长长的名字  1\na           12345\n");
    for line in out.lines().filter(|l| !l.starts_with('─')) {
        let second = line.split(' ').filter(|p| !p.is_empty()).nth(1);
        if let Some(cell) = second {
            let start = line.find(cell).unwrap();
            assert_eq!(display_width(&line[..start]), 12);
        }
    }
}

#[test]
fn detail_of_scratch_project() {
    assert_eq!(
        detail(&scratch_sample()),
        "\n══ projects/作品 (1).sb3 [Scratch] ══\n角色/目标: 2   积木: 5   造型: 2   音频: 1   总量: 8\n（另含影子/输入积木 3 个，未计入积木总量）\n\n分组(角色/舞台)  积木  造型  音频\n───────────────  ────  ────  ────\nStage            0     1     1\n小猫             5     1     0\n"
    );
}

#[test]
fn detail_wraps_costume_names() {
    assert_eq!(
        detail(&cdc_sample()),
        "\n══ 全面战争模拟器.cdc [腾讯扣叮] ══\n角色/目标: 72   积木: 8022   造型: 209   音频: 0   总量: 8231\n\n造型名（按角色/动画分组）:\n  hero  走路1、 走路2、 走路3、 走路4、 走路5、 走路6、 走路7、 走路8、 走路9、 走路10、 走路11\n  hero  走路12、 走路13、 走路14、 走路15\n  空    （无）\n  a     xxxxxxxxxxxxxxxxxxxxxxxxxxxxxxxxxxxxxxxxxxxxxxxxxxxxxxxxxxxxxxxxxxxxxxxxxxxxxxxxxxxxxxxxxxxxxxxxxxxx\n  a     y\n"
    );
}

#[test]
fn detail_without_costume_names() {
    assert_eq!(
        detail(&kitten_sample()),
        "\n══ a,\"b\".bcm4 [Kitten] ══\n角色/目标: 1   积木: 7   造型: 6   音频: 0   总量: 13\n（另含影子/输入积木 1 个，未计入积木总量）\n\n分组(角色/舞台)  积木  造型  音频\n───────────────  ────  ────  ────\ng,1              1     2     3\n"
    );
}

#[test]
fn costume_names_start_at_one_column() {
    let mut s = stats("x.cdc", Format::TencentCdc, [0, 0, 0, 2, 0], vec![], vec![]);
    s.costume_groups = vec![
        ("ab".to_string(), vec!["x".to_string()]),
        ("角色".to_string(), vec!["y".to_string()]),
    ];
    let out = detail(&s);
    assert_eq!(out, DETAIL_D);
    assert!(out.contains("\n  ab    x\n"));
    assert!(out.contains("\n  角色  y\n"));
}

const DETAIL_D: &str = "\n══ x.cdc [腾讯扣叮] ══\n角色/目标: 0   积木: 0   造型: 2   音频: 0   总量: 2\n\n造型名（按角色/动画分组）:\n  ab    x\n  角色  y\n";

#[test]
fn csv_project_row_comes_before_its_groups() {
    let p = stats(
        "a,b.sb3",
        Format::Scratch,
        [2, 3, 1, 2, 0],
        vec![("Stage", 1, 1, 0), ("Cat", 2, 1, 0)],
        vec![],
    );
    let out = to_csv(&[p]);
    let lines: Vec<&str> = out.lines().collect();
    assert_eq!(
        lines,
        vec![
            "file,format,group,actors,blocks,shadow_blocks,costumes,sounds,total",
            "\"a,b.sb3\",Scratch,,2,3,1,2,0,5",
            "\"a,b.sb3\",Scratch,Stage,2,1,1,1,0,2",
            "\"a,b.sb3\",Scratch,Cat,2,2,1,1,0,3",
        ]
    );
    assert!(out.ends_with('\n'));
}

#[test]
fn json_report_tree() {
    let tree = json_report(&[scratch_sample(), kitten_sample()]);
    let JsonOut::Array(items) = tree else { panic!("not an array") };
    assert_eq!(items.len(), 2);
    let JsonOut::Object(first) = &items[0] else { panic!("not an object") };
    let keys: Vec<&str> = first.iter().map(|(k, _)| k.as_str()).collect();
    assert_eq!(
        keys,
        vec!["file", "format", "actors", "blocks", "shadow_blocks", "costumes", "sounds", "total", "groups"]
    );
    assert!(matches!(&first[7].1, JsonOut::Number(8)));
    let JsonOut::Object(second) = &items[1] else { panic!("not an object") };
    assert_eq!(second.len(), 9);
    let empty = json_report(&[cdc_sample()]);
    let JsonOut::Array(items) = empty else { panic!("not an array") };
    let JsonOut::Object(only) = &items[0] else { panic!("not an object") };
    assert_eq!(only.len(), 8);
}

#[test]
fn json_report_text() {
    let text = to_json(&[scratch_sample(), cdc_sample()]);
    let v: serde_json::Value = serde_json::from_str(&text).unwrap();
    let a = v.as_array().unwrap();
    assert_eq!(a.len(), 2);
    assert_eq!(a[0]["file"], "projects/作品 (1).sb3");
    assert_eq!(a[0]["format"], "Scratch");
    assert_eq!(a[0]["total"], 8);
    assert_eq!(a[0]["shadow_blocks"], 3);
    assert_eq!(a[0]["groups"][1]["name"], "小猫");
    assert_eq!(a[0]["groups"][1]["blocks"], 5);
    assert_eq!(a[1]["format"], "腾讯扣叮");
    assert_eq!(a[1]["total"], 8231);
    assert!(a[1].get("groups").is_none());
    assert!(text.starts_with("[\n  {\n    \""));
    assert_eq!(to_json(&[]), "[]");
}

/// Splits CSV text into records (RFC 4180: quoted fields with doubled quotes inside).
fn read_csv(text: &str) -> Vec<Vec<String>> {
    let mut records = Vec::new();
    let mut record = Vec::new();
    let mut field = String::new();
    let mut chars = text.chars().peekable();
    let mut quoted = false;
    while let Some(c) = chars.next() {
        if quoted {
            if c == '"' {
                if chars.peek() == Some(&'"') {
                    chars.next();
                    field.push('"');
                } else {
                    quoted = false;
                }
            } else {
                field.push(c);
            }
        } else if c == '"' && field.is_empty() {
            quoted = true;
        } else if c == ',' {
            record.push(std::mem::take(&mut field));
        } else if c == '\n' {
            record.push(std::mem::take(&mut field));
            records.push(std::mem::take(&mut record));
        } else {
            field.push(c);
        }
    }
    assert!(field.is_empty() && record.is_empty());
    records
}

#[test]
fn csv_report_reads_back_as_records() {
    let all = [scratch_sample(), cdc_sample(), kitten_sample()];
    let records = read_csv(&to_csv(&all));
    assert_eq!(records.len(), 1 + 3 + 1 + 2);
    assert!(records.iter().all(|r| r.len() == 9));
    assert_eq!(
        records[0],
        vec!["file", "format", "group", "actors", "blocks", "shadow_blocks", "costumes", "sounds", "total"]
    );
    assert_eq!(records[1][..3], ["projects/作品 (1).sb3", "Scratch", ""]);
    assert_eq!(records[3][..3], ["projects/作品 (1).sb3", "Scratch", "小猫"]);
    assert_eq!(records[4][..3], ["全面战争模拟器.cdc", "腾讯扣叮", ""]);
    assert_eq!(records[5], vec!["a,\"b\".bcm4", "Kitten", "", "1", "7", "1", "6", "0", "13"]);
    assert_eq!(records[6], vec!["a,\"b\".bcm4", "Kitten", "g,1", "1", "1", "1", "2", "3", "6"]);
}

#[test]
fn joining_never_loses_xml_tags() {
    let a = "<block type=\"x\"><bl";
    let b = "ock/><shadow></shadow>";
    let joined = format!("{a}{b}");
    assert_eq!(count_xml_tag(a, "block"), 1);
    assert_eq!(count_xml_tag(b, "block"), 0);
    assert_eq!(count_xml_tag(&joined, "block"), 2);
    assert_eq!(count_xml_tag(&joined, "shadow"), count_xml_tag(a, "shadow") + count_xml_tag(b, "shadow"));
}
