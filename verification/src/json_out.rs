//! The JSON report: a JSON value built from the statistics, and its pretty text.

use vstd::prelude::*;

use crate::model::{counts_fit, view_total, GroupStat, GroupView, ProjectStats, StatsView, stats_views};

verus! {

/// A JSON value, as a mathematical value.
pub enum JsonValue {
    Null,
    Bool(bool),
    Number(nat),
    Str(Seq<char>),
    Array(Seq<JsonValue>),
    Object(Seq<(Seq<char>, JsonValue)>),
}

/// A JSON value to be written out.
#[derive(Debug)]
pub enum JsonOut {
    Null,
    Bool(bool),
    Number(u64),
    Str(String),
    Array(Vec<JsonOut>),
    Object(Vec<(String, JsonOut)>),
}

/// The mathematical value of a `JsonOut`.
pub open spec fn json_out_view(v: JsonOut) -> JsonValue
    decreases v,
{
    match v {
        JsonOut::Null => JsonValue::Null,
        JsonOut::Bool(b) => JsonValue::Bool(b),
        JsonOut::Number(n) => JsonValue::Number(n as nat),
        JsonOut::Str(s) => JsonValue::Str(s@),
        JsonOut::Array(items) => JsonValue::Array(
            Seq::new(
                items@.len(),
                |i: int|
                    if 0 <= i < items@.len() {
                        json_out_view(items@[i])
                    } else {
                        JsonValue::Null
                    },
            ),
        ),
        JsonOut::Object(members) => JsonValue::Object(
            Seq::new(
                members@.len(),
                |i: int|
                    if 0 <= i < members@.len() {
                        (members@[i].0@, json_out_view(members@[i].1))
                    } else {
                        (Seq::empty(), JsonValue::Null)
                    },
            ),
        ),
    }
}

impl View for JsonOut {
    type V = JsonValue;

    open spec fn view(&self) -> JsonValue {
        json_out_view(*self)
    }
}

/// The JSON object of one group.
pub open spec fn group_tree(g: GroupView) -> JsonValue {
    JsonValue::Object(
        seq![
            ("name"@, JsonValue::Str(g.name)),
            ("blocks"@, JsonValue::Number(g.blocks)),
            ("costumes"@, JsonValue::Number(g.costumes)),
            ("sounds"@, JsonValue::Number(g.sounds)),
        ],
    )
}

/// The members every project object has.
pub open spec fn project_members(s: StatsView) -> Seq<(Seq<char>, JsonValue)> {
    seq![
        ("file"@, JsonValue::Str(s.path)),
        ("format"@, JsonValue::Str(s.format.spec_name())),
        ("actors"@, JsonValue::Number(s.actors)),
        ("blocks"@, JsonValue::Number(s.blocks)),
        ("shadow_blocks"@, JsonValue::Number(s.shadow_blocks)),
        ("costumes"@, JsonValue::Number(s.costumes)),
        ("sounds"@, JsonValue::Number(s.sounds)),
        ("total"@, JsonValue::Number(view_total(s))),
    ]
}

/// The JSON object of one project: its counts and total, then its groups when it has any.
pub open spec fn project_tree(s: StatsView) -> JsonValue {
    if s.groups.len() == 0 {
        JsonValue::Object(project_members(s))
    } else {
        JsonValue::Object(
            project_members(s).push(
                ("groups"@, JsonValue::Array(s.groups.map_values(|g: GroupView| group_tree(g)))),
            ),
        )
    }
}

/// The JSON report: an array with one object per project.
pub open spec fn report_tree(all: Seq<StatsView>) -> JsonValue {
    JsonValue::Array(all.map_values(|s: StatsView| project_tree(s)))
}

fn member(key: &str, v: JsonOut) -> (r: (String, JsonOut))
    ensures
        r.0@ == key@,
        r.1 == v,
{
    (key.to_owned(), v)
}

fn group_json(g: &GroupStat) -> (r: JsonOut)
    ensures
        r@ == group_tree(g@),
{
    let mut m: Vec<(String, JsonOut)> = Vec::new();
    m.push(member("name", JsonOut::Str(g.name.clone())));
    m.push(member("blocks", JsonOut::Number(g.blocks)));
    m.push(member("costumes", JsonOut::Number(g.costumes)));
    m.push(member("sounds", JsonOut::Number(g.sounds)));
    let ghost base = m@;
    assert(Seq::new(base.len(), |i: int| (base[i].0@, json_out_view(base[i].1))) =~= seq![
        ("name"@, JsonValue::Str(g@.name)),
        ("blocks"@, JsonValue::Number(g@.blocks)),
        ("costumes"@, JsonValue::Number(g@.costumes)),
        ("sounds"@, JsonValue::Number(g@.sounds)),
    ]);
    let r = JsonOut::Object(m);
    assert(json_out_view(r) == group_tree(g@)) by {
        if let JsonValue::Object(ms) = json_out_view(r) {
            assert(ms =~= seq![
                ("name"@, JsonValue::Str(g@.name)),
                ("blocks"@, JsonValue::Number(g@.blocks)),
                ("costumes"@, JsonValue::Number(g@.costumes)),
                ("sounds"@, JsonValue::Number(g@.sounds)),
            ]);
        }
    }
    r
}

fn project_json(s: &ProjectStats) -> (r: JsonOut)
    requires
        counts_fit(s@),
    ensures
        r@ == project_tree(s@),
{
    let mut m: Vec<(String, JsonOut)> = Vec::new();
    m.push(member("file", JsonOut::Str(s.path.clone())));
    m.push(member("format", JsonOut::Str(s.format.name().to_owned())));
    m.push(member("actors", JsonOut::Number(s.actors)));
    m.push(member("blocks", JsonOut::Number(s.blocks)));
    m.push(member("shadow_blocks", JsonOut::Number(s.shadow_blocks)));
    m.push(member("costumes", JsonOut::Number(s.costumes)));
    m.push(member("sounds", JsonOut::Number(s.sounds)));
    m.push(member("total", JsonOut::Number(s.total())));
    let ghost base = m@;
    assert(Seq::new(base.len(), |i: int| (base[i].0@, json_out_view(base[i].1))) =~= project_members(
        s@,
    ));
    if s.groups.len() > 0 {
        let ghost gv = s@.groups;
        let mut items: Vec<JsonOut> = Vec::new();
        let mut j: usize = 0;
        while j < s.groups.len()
            invariant
                j <= s.groups.len(),
                gv == s.groups@.map_values(|g: GroupStat| g@),
                items@.len() == j,
                forall|k: int| 0 <= k < j ==> json_out_view(#[trigger] items@[k]) == group_tree(gv[k]),
            decreases s.groups.len() - j,
        {
            let gj = group_json(&s.groups[j]);
            items.push(gj);
            j += 1;
        }
        let arr = JsonOut::Array(items);
        assert(json_out_view(arr) == JsonValue::Array(gv.map_values(|g: GroupView| group_tree(g))))
            by {
            if let JsonValue::Array(vs) = json_out_view(arr) {
                assert(vs =~= gv.map_values(|g: GroupView| group_tree(g)));
            }
        }
        m.push(member("groups", arr));
    }
    let r = JsonOut::Object(m);
    assert(json_out_view(r) == project_tree(s@)) by {
        if let JsonValue::Object(ms) = json_out_view(r) {
            if s.groups.len() > 0 {
                assert(ms =~= project_members(s@).push(
                    (
                        "groups"@,
                        JsonValue::Array(s@.groups.map_values(|g: GroupView| group_tree(g))),
                    ),
                ));
            } else {
                assert(ms =~= project_members(s@));
            }
        }
    }
    r
}

/// The JSON report as a value: an array with, for each project, an object of its file,
/// format, counts and total, plus its groups when it has any.
pub fn json_report(all: &[ProjectStats]) -> (r: JsonOut)
    requires
        forall|i: int| 0 <= i < all@.len() ==> counts_fit(#[trigger] all@[i]@),
    ensures
        r@ == report_tree(stats_views(all@)),
{
    let ghost views = stats_views(all@);
    let mut items: Vec<JsonOut> = Vec::new();
    let mut i: usize = 0;
    while i < all.len()
        invariant
            i <= all.len(),
            views == stats_views(all@),
            forall|k: int| 0 <= k < all@.len() ==> counts_fit(#[trigger] all@[k]@),
            items@.len() == i,
            forall|k: int| 0 <= k < i ==> json_out_view(#[trigger] items@[k]) == project_tree(views[k]),
        decreases all.len() - i,
    {
        assert(counts_fit(all@[i as int]@));
        let p = project_json(&all[i]);
        items.push(p);
        i += 1;
    }
    let r = JsonOut::Array(items);
    assert(json_out_view(r) == report_tree(views)) by {
        if let JsonValue::Array(vs) = json_out_view(r) {
            assert(vs =~= views.map_values(|s: StatsView| project_tree(s)));
        }
    }
    r
}

/// The text `serde_json::to_string_pretty` writes for the `serde_json::Value` that holds
/// `v` (`None` when it reports an error).
pub uninterp spec fn pretty_json(v: JsonValue) -> Option<Seq<char>>;

#[verifier::external_type_specification]
#[verifier::external_body]
pub struct ExSerdeValue(serde_json::Value);

/// Turns a `JsonOut` into the `serde_json::Value` of the same shape, one variant for one
/// (a number as `Value::from(u64)`, an object as a `serde_json::Map` of its members).
/// Nothing is stated of the result: `to_string_pretty` below states what is written.
#[verifier::external_body]
fn serde_value(v: &JsonOut) -> serde_json::Value {
    match v {
        JsonOut::Null => serde_json::Value::Null,
        JsonOut::Bool(b) => serde_json::Value::Bool(*b),
        JsonOut::Number(n) => serde_json::Value::from(*n),
        JsonOut::Str(s) => serde_json::Value::String(s.clone()),
        JsonOut::Array(a) => serde_json::Value::Array(a.iter().map(serde_value).collect()),
        JsonOut::Object(o) => serde_json::Value::Object(
            o.iter().map(|(k, x)| (k.clone(), serde_value(x))).collect(),
        ),
    }
}

/// Writes `v` with `serde_json::to_string_pretty` (two-space indentation). The contract
/// names the outcome, a function of the value alone; the layout serde_json chooses (member
/// order included) is left unsaid.
#[verifier::external_body]
fn to_string_pretty(v: &JsonOut) -> (r: Option<String>)
    ensures
        match r {
            Some(t) => pretty_json(v@) == Some(t@),
            None => pretty_json(v@) is None,
        },
{
    serde_json::to_string_pretty(&serde_value(v)).ok()
}

/// The JSON report as pretty text, `[]` if serde_json reports an error.
pub open spec fn json_text(all: Seq<StatsView>) -> Seq<char> {
    match pretty_json(report_tree(all)) {
        Some(t) => t,
        None => "[]"@,
    }
}

/// The JSON report as pretty text: an array with, for each project, an object of its file,
/// format, counts and total, plus its groups when it has any.
pub fn to_json(all: &[ProjectStats]) -> (r: String)
    requires
        forall|i: int| 0 <= i < all@.len() ==> counts_fit(#[trigger] all@[i]@),
    ensures
        r@ == json_text(stats_views(all@)),
{
    let tree = json_report(all);
    match to_string_pretty(&tree) {
        Some(t) => t,
        None => "[]".to_owned(),
    }
}

/// The value of the first member named `key` among `ms`.
pub open spec fn lookup_member(ms: Seq<(Seq<char>, JsonValue)>, key: Seq<char>) -> Option<JsonValue>
    decreases ms.len(),
{
    if ms.len() == 0 {
        None
    } else if ms[0].0 == key {
        Some(ms[0].1)
    } else {
        lookup_member(ms.drop_first(), key)
    }
}

/// `v[key]` when `v` is an object with such a member.
pub open spec fn member_value(v: JsonValue, key: Seq<char>) -> Option<JsonValue> {
    match v {
        JsonValue::Object(ms) => lookup_member(ms, key),
        _ => None,
    }
}

/// The items of `v` when it is an array.
pub open spec fn array_items(v: JsonValue) -> Option<Seq<JsonValue>> {
    match v {
        JsonValue::Array(xs) => Some(xs),
        _ => None,
    }
}

proof fn lemma_keys_distinct()
    ensures
        "name"@ != "blocks"@,
        "name"@ != "costumes"@,
        "name"@ != "sounds"@,
        "blocks"@ != "costumes"@,
        "blocks"@ != "sounds"@,
        "costumes"@ != "sounds"@,
        "file"@ != "format"@,
        "file"@ != "actors"@,
        "file"@ != "blocks"@,
        "file"@ != "shadow_blocks"@,
        "file"@ != "costumes"@,
        "file"@ != "sounds"@,
        "file"@ != "total"@,
        "file"@ != "groups"@,
        "format"@ != "actors"@,
        "format"@ != "blocks"@,
        "format"@ != "shadow_blocks"@,
        "format"@ != "costumes"@,
        "format"@ != "sounds"@,
        "format"@ != "total"@,
        "format"@ != "groups"@,
        "actors"@ != "blocks"@,
        "actors"@ != "shadow_blocks"@,
        "actors"@ != "costumes"@,
        "actors"@ != "sounds"@,
        "actors"@ != "total"@,
        "actors"@ != "groups"@,
        "blocks"@ != "shadow_blocks"@,
        "blocks"@ != "total"@,
        "blocks"@ != "groups"@,
        "shadow_blocks"@ != "costumes"@,
        "shadow_blocks"@ != "sounds"@,
        "shadow_blocks"@ != "total"@,
        "shadow_blocks"@ != "groups"@,
        "costumes"@ != "total"@,
        "costumes"@ != "groups"@,
        "sounds"@ != "total"@,
        "sounds"@ != "groups"@,
        "total"@ != "groups"@,
{
    reveal_strlit("name");
    reveal_strlit("blocks");
    reveal_strlit("costumes");
    reveal_strlit("sounds");
    reveal_strlit("file");
    reveal_strlit("format");
    reveal_strlit("actors");
    reveal_strlit("shadow_blocks");
    reveal_strlit("total");
    reveal_strlit("groups");
    assert("blocks"@[0] != "sounds"@[0]);
    assert("format"@[0] != "actors"@[0]);
    assert("format"@[0] != "blocks"@[0]);
    assert("format"@[0] != "sounds"@[0]);
    assert("format"@[0] != "groups"@[0]);
    assert("actors"@[0] != "blocks"@[0]);
    assert("actors"@[0] != "sounds"@[0]);
    assert("actors"@[0] != "groups"@[0]);
    assert("blocks"@[0] != "groups"@[0]);
    assert("sounds"@[0] != "groups"@[0]);
    assert("name"@[0] != "file"@[0]);
    assert("file"@[1] != "format"@[1]);
    assert("shadow_blocks"@[0] != "costumes"@[0]);
    assert("shadow_blocks"@[1] != "sounds"@[1]);
}

/// Each member of a group's JSON object carries the group's field of the same name: its
/// `name`, `blocks`, `costumes` and `sounds` members are the group's name, block count,
/// costume count and sound count.
pub proof fn group_object_members(g: GroupView)
    ensures
        member_value(group_tree(g), "name"@) == Some(JsonValue::Str(g.name)),
        member_value(group_tree(g), "blocks"@) == Some(JsonValue::Number(g.blocks)),
        member_value(group_tree(g), "costumes"@) == Some(JsonValue::Number(g.costumes)),
        member_value(group_tree(g), "sounds"@) == Some(JsonValue::Number(g.sounds)),
{
    lemma_keys_distinct();
    reveal_with_fuel(lookup_member, 5);
}

/// Each member of a project's JSON object carries the project's field of the same name,
/// `total` is blocks + costumes + sounds, and `groups` is there exactly when the project
/// has groups: an array holding, in order, one object per group.
pub proof fn project_object_members(s: StatsView)
    ensures
        member_value(project_tree(s), "file"@) == Some(JsonValue::Str(s.path)),
        member_value(project_tree(s), "format"@) == Some(JsonValue::Str(s.format.spec_name())),
        member_value(project_tree(s), "actors"@) == Some(JsonValue::Number(s.actors)),
        member_value(project_tree(s), "blocks"@) == Some(JsonValue::Number(s.blocks)),
        member_value(project_tree(s), "shadow_blocks"@) == Some(JsonValue::Number(s.shadow_blocks)),
        member_value(project_tree(s), "costumes"@) == Some(JsonValue::Number(s.costumes)),
        member_value(project_tree(s), "sounds"@) == Some(JsonValue::Number(s.sounds)),
        member_value(project_tree(s), "total"@) == Some(
            JsonValue::Number(s.blocks + s.costumes + s.sounds),
        ),
        s.groups.len() == 0 <==> member_value(project_tree(s), "groups"@) is None,
        s.groups.len() > 0 ==> ({
            let gs = array_items(member_value(project_tree(s), "groups"@)->Some_0);
            &&& gs is Some
            &&& gs->Some_0.len() == s.groups.len()
            &&& forall|j: int| 0 <= j < s.groups.len() ==> #[trigger] gs->Some_0[j] == group_tree(s.groups[j])
        }),
{
    lemma_keys_distinct();
    reveal_with_fuel(lookup_member, 10);
}

/// The JSON report is an array with, in order, one object per project.
pub proof fn report_items(all: Seq<StatsView>)
    ensures
        array_items(report_tree(all)) is Some,
        array_items(report_tree(all))->Some_0.len() == all.len(),
        forall|i: int| 0 <= i < all.len() ==> #[trigger] array_items(report_tree(all))->Some_0[i]
            == project_tree(all[i]),
{
}

} // verus!
