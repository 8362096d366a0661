//! Kitten 4 (.bcm4) counting.
//!
//! A bcm4 is plain JSON:
//! - `theatre.actors{}` maps actor ids to actors, each with a `styles[]` list of costume
//!   ids and its blocks in `block_data_json.blocks{}`;
//! - `theatre.scenes{}` holds the scenes (the stage), built the same way;
//! - top-level `audio{}` / `audio_order[]` list the global sounds, and an actor or
//!   scene may carry an `audios` array of its own (older layout).

use vstd::prelude::*;
use vstd::arithmetic::overflow::CheckedU64;

use crate::json::{opt_len, spec_get, spec_get_array, spec_get_bool, spec_get_object, Json};
use crate::model::{fitting, result_view, view_fits, AnalyzeError, Format, ProjectStats, StatsView};

verus! {

/// A block whose `is_shadow` member is `true`.
pub open spec fn is_kitten_shadow(b: Json) -> bool {
    match spec_get_bool(b, "is_shadow"@) {
        Some(x) => x,
        None => false,
    }
}

/// (real blocks, shadow blocks) among the values of a `blocks` dictionary.
pub open spec fn kitten_block_tally(es: Seq<(String, Json)>) -> (nat, nat)
    decreases es.len(),
{
    if es.len() == 0 {
        (0, 0)
    } else {
        let prev = kitten_block_tally(es.drop_last());
        if is_kitten_shadow(es.last().1) {
            (prev.0, prev.1 + 1)
        } else {
            (prev.0 + 1, prev.1)
        }
    }
}

/// The entries of a node's `block_data_json.blocks` dictionary; none when absent.
pub open spec fn node_block_entries(n: Json) -> Seq<(String, Json)> {
    match spec_get(n, "block_data_json"@) {
        Some(bd) => match spec_get_object(bd, "blocks"@) {
            Some(es) => es,
            None => seq![],
        },
        None => seq![],
    }
}

/// (blocks, shadow blocks, costumes, sounds) of one actor or scene.
pub open spec fn node_tally(n: Json) -> (nat, nat, nat, nat) {
    let b = kitten_block_tally(node_block_entries(n));
    (b.0, b.1, opt_len(spec_get_array(n, "styles"@)), opt_len(spec_get_array(n, "audios"@)))
}

/// `node_tally` summed over the values of a dictionary.
pub open spec fn nodes_tally(es: Seq<(String, Json)>) -> (nat, nat, nat, nat)
    decreases es.len(),
{
    if es.len() == 0 {
        (0, 0, 0, 0)
    } else {
        let prev = nodes_tally(es.drop_last());
        let t = node_tally(es.last().1);
        (prev.0 + t.0, prev.1 + t.1, prev.2 + t.2, prev.3 + t.3)
    }
}

/// The entries of `v[key]` when it is an object; none otherwise.
pub open spec fn object_entries(v: Json, key: Seq<char>) -> Seq<(String, Json)> {
    match spec_get_object(v, key) {
        Some(es) => es,
        None => seq![],
    }
}

/// The number of global sounds listed under `audio`, a dictionary or an array.
pub open spec fn global_audio(root: Json) -> nat {
    match spec_get(root, "audio"@) {
        Some(Json::Object(o)) => o@.len(),
        Some(Json::Array(a)) => a@.len(),
        _ => 0,
    }
}

/// The statistics of a Kitten project whose JSON text parses to `root`.
pub open spec fn kitten_model(path: Seq<char>, root: Json) -> Result<StatsView, AnalyzeError> {
    match spec_get(root, "theatre"@) {
        None => Err(AnalyzeError::MissingTheatre),
        Some(theatre) => {
            let actors = object_entries(theatre, "actors"@);
            let a = nodes_tally(actors);
            let s = nodes_tally(object_entries(theatre, "scenes"@));
            let sounds = a.3 + s.3 + global_audio(root);
            Ok(
                StatsView {
                    path,
                    format: Format::Kitten,
                    actors: actors.len(),
                    blocks: a.0 + s.0,
                    shadow_blocks: a.1 + s.1,
                    costumes: a.2 + s.2,
                    sounds: if sounds == 0 {
                        opt_len(spec_get_array(root, "audio_order"@))
                    } else {
                        sounds
                    },
                    groups: seq![],
                    costume_groups: seq![],
                },
            )
        },
    }
}

/// Counts the real and shadow blocks of one `blocks` dictionary.
fn tally_blocks(es: &Vec<(String, Json)>) -> (r: (u64, u64))
    ensures
        r.0 == kitten_block_tally(es@).0,
        r.1 == kitten_block_tally(es@).1,
{
    let mut blocks: u64 = 0;
    let mut shadows: u64 = 0;
    let mut j: usize = 0;
    while j < es.len()
        invariant
            j <= es.len(),
            blocks == kitten_block_tally(es@.take(j as int)).0,
            shadows == kitten_block_tally(es@.take(j as int)).1,
        decreases es.len() - j,
    {
        assert(es@.take(j + 1).drop_last() =~= es@.take(j as int));
        proof {
            kitten_blocks_and_shadows_partition(es@.take(j + 1));
        }
        let is_shadow = match es[j].1.get_bool("is_shadow") {
            Some(x) => x,
            None => false,
        };
        if is_shadow {
            shadows = shadows + 1;
        } else {
            blocks = blocks + 1;
        }
        j += 1;
    }
    assert(es@.take(es.len() as int) =~= es@);
    (blocks, shadows)
}

/// The blocks, shadow blocks, costumes and in-node sounds of one actor or scene.
fn node_counts(node: &Json) -> (r: (u64, u64, u64, u64))
    ensures
        r.0 == node_tally(*node).0,
        r.1 == node_tally(*node).1,
        r.2 == node_tally(*node).2,
        r.3 == node_tally(*node).3,
{
    let blocks = match node.get("block_data_json") {
        Some(bd) => bd.get_object("blocks"),
        None => None,
    };
    let (b, sh) = match blocks {
        Some(es) => tally_blocks(es),
        None => (0, 0),
    };
    let c: u64 = match node.get_array("styles") {
        Some(styles) => styles.len() as u64,
        None => 0,
    };
    let a: u64 = match node.get_array("audios") {
        Some(audios) => audios.len() as u64,
        None => 0,
    };
    (b, sh, c, a)
}

/// The counts of every node (the values) of a dictionary, summed.
fn tally_nodes(es: &Vec<(String, Json)>) -> (r: (CheckedU64, CheckedU64, CheckedU64, CheckedU64))
    ensures
        r.0@ == nodes_tally(es@).0,
        r.1@ == nodes_tally(es@).1,
        r.2@ == nodes_tally(es@).2,
        r.3@ == nodes_tally(es@).3,
{
    let mut blocks = CheckedU64::new(0);
    let mut shadows = CheckedU64::new(0);
    let mut costumes = CheckedU64::new(0);
    let mut sounds = CheckedU64::new(0);
    let mut j: usize = 0;
    while j < es.len()
        invariant
            j <= es.len(),
            blocks@ == nodes_tally(es@.take(j as int)).0,
            shadows@ == nodes_tally(es@.take(j as int)).1,
            costumes@ == nodes_tally(es@.take(j as int)).2,
            sounds@ == nodes_tally(es@.take(j as int)).3,
        decreases es.len() - j,
    {
        assert(es@.take(j + 1).drop_last() =~= es@.take(j as int));
        let (b, sh, c, a) = node_counts(&es[j].1);
        blocks = blocks.add_value(b);
        shadows = shadows.add_value(sh);
        costumes = costumes.add_value(c);
        sounds = sounds.add_value(a);
        j += 1;
    }
    assert(es@.take(es.len() as int) =~= es@);
    (blocks, shadows, costumes, sounds)
}

/// Counts a Kitten project from its parsed JSON: actors, then the blocks, costumes and
/// sounds of every actor and scene, then the global sounds (`audio`, or `audio_order`
/// when nothing else was found). `TooLarge` when a count or the total does not fit in a
/// `u64`.
pub fn analyze(path: &str, root: &Json) -> (r: Result<ProjectStats, AnalyzeError>)
    ensures
        result_view(r) == fitting(kitten_model(path@, *root)),
        r matches Ok(s) ==> view_fits(s@),
{
    let theatre = match root.get("theatre") {
        Some(t) => t,
        None => {
            return Err(AnalyzeError::MissingTheatre);
        },
    };
    let (actors, a) = match theatre.get_object("actors") {
        Some(es) => (es.len() as u64, tally_nodes(es)),
        None => (
            0,
            (CheckedU64::new(0), CheckedU64::new(0), CheckedU64::new(0), CheckedU64::new(0)),
        ),
    };
    let s = match theatre.get_object("scenes") {
        Some(es) => tally_nodes(es),
        None => (CheckedU64::new(0), CheckedU64::new(0), CheckedU64::new(0), CheckedU64::new(0)),
    };
    let global: u64 = match root.get("audio") {
        Some(Json::Object(o)) => o.len() as u64,
        Some(Json::Array(x)) => x.len() as u64,
        _ => 0,
    };
    let mut sounds = a.3.add_checked(&s.3).add_value(global);
    if !sounds.is_overflowed() && sounds.unwrap() == 0 {
        if let Some(order) = root.get_array("audio_order") {
            sounds = CheckedU64::new(order.len() as u64);
        }
    }
    let blocks = a.0.add_checked(&s.0);
    let shadows = a.1.add_checked(&s.1);
    let costumes = a.2.add_checked(&s.2);
    let total = blocks.add_checked(&costumes).add_checked(&sounds);
    if total.is_overflowed() || shadows.is_overflowed() {
        return Err(AnalyzeError::TooLarge);
    }
    let stats = ProjectStats {
        path: path.to_owned(),
        format: Format::Kitten,
        actors,
        blocks: blocks.unwrap(),
        shadow_blocks: shadows.unwrap(),
        costumes: costumes.unwrap(),
        sounds: sounds.unwrap(),
        groups: Vec::new(),
        costume_groups: Vec::new(),
    };
    assert(stats@.groups =~= Seq::<crate::model::GroupView>::empty());
    assert(stats@.costume_groups =~= Seq::<(Seq<char>, Seq<Seq<char>>)>::empty());
    Ok(stats)
}

/// Every entry of a `blocks` dictionary is counted exactly once: as a real block or as a
/// shadow block.
pub proof fn kitten_blocks_and_shadows_partition(es: Seq<(String, Json)>)
    ensures
        kitten_block_tally(es).0 + kitten_block_tally(es).1 == es.len(),
    decreases es.len(),
{
    if es.len() > 0 {
        kitten_blocks_and_shadows_partition(es.drop_last());
    }
}

/// Kitten block counting is additive over a `blocks` dictionary, and one entry counts as a
/// shadow block when its `is_shadow` member is `true`, as a real block otherwise.
pub proof fn kitten_block_counts_per_entry(es: Seq<(String, Json)>, fs: Seq<(String, Json)>, e: (String, Json))
    ensures
        kitten_block_tally(es + fs).0 == kitten_block_tally(es).0 + kitten_block_tally(fs).0,
        kitten_block_tally(es + fs).1 == kitten_block_tally(es).1 + kitten_block_tally(fs).1,
        kitten_block_tally(seq![e]) == (if spec_get_bool(e.1, "is_shadow"@) == Some(true) {
            (0nat, 1nat)
        } else {
            (1nat, 0nat)
        }),
    decreases fs.len(),
{
    if fs.len() == 0 {
        assert(es + fs =~= es);
    } else {
        kitten_block_counts_per_entry(es, fs.drop_last(), e);
        assert((es + fs).drop_last() =~= es + fs.drop_last());
        assert((es + fs).last() == fs.last());
    }
    assert(seq![e].drop_last() =~= Seq::<(String, Json)>::empty());
    assert(kitten_block_tally(Seq::<(String, Json)>::empty()) == (0nat, 0nat));
    assert(seq![e].last() == e);
}

/// Kitten counts are sums over every node: the counts of dictionaries `es + fs` are those
/// of `es` plus those of `fs`, and one node (actor or scene) contributes the real and
/// shadow blocks of its `block_data_json.blocks` dictionary, the length of its `styles`
/// array and the length of its `audios` array.
pub proof fn kitten_counts_per_node(es: Seq<(String, Json)>, fs: Seq<(String, Json)>, e: (String, Json))
    ensures
        nodes_tally(es + fs).0 == nodes_tally(es).0 + nodes_tally(fs).0,
        nodes_tally(es + fs).1 == nodes_tally(es).1 + nodes_tally(fs).1,
        nodes_tally(es + fs).2 == nodes_tally(es).2 + nodes_tally(fs).2,
        nodes_tally(es + fs).3 == nodes_tally(es).3 + nodes_tally(fs).3,
        ({
            let blocks = match spec_get(e.1, "block_data_json"@) {
                Some(bd) => match spec_get_object(bd, "blocks"@) {
                    Some(bs) => bs,
                    None => seq![],
                },
                None => seq![],
            };
            nodes_tally(seq![e]) == (
                kitten_block_tally(blocks).0,
                kitten_block_tally(blocks).1,
                opt_len(spec_get_array(e.1, "styles"@)),
                opt_len(spec_get_array(e.1, "audios"@)),
            )
        }),
    decreases fs.len(),
{
    if fs.len() == 0 {
        assert(es + fs =~= es);
    } else {
        kitten_counts_per_node(es, fs.drop_last(), e);
        assert((es + fs).drop_last() =~= es + fs.drop_last());
        assert((es + fs).last() == fs.last());
    }
    assert(seq![e].drop_last() =~= Seq::<(String, Json)>::empty());
    assert(nodes_tally(Seq::<(String, Json)>::empty()) == (0nat, 0nat, 0nat, 0nat));
    assert(seq![e].last() == e);
}

/// A Kitten project's counts are those of every actor and every scene of its `theatre`:
/// blocks, shadow blocks and costumes are the node sums; its actors are the entries of
/// `theatre.actors`.
pub proof fn kitten_counts_are_node_counts(path: Seq<char>, root: Json)
    requires
        kitten_model(path, root) is Ok,
    ensures
        ({
            let m = kitten_model(path, root)->Ok_0;
            let th = spec_get(root, "theatre"@)->Some_0;
            let a = nodes_tally(object_entries(th, "actors"@));
            let s = nodes_tally(object_entries(th, "scenes"@));
            &&& m.actors == object_entries(th, "actors"@).len()
            &&& m.blocks == a.0 + s.0
            &&& m.shadow_blocks == a.1 + s.1
            &&& m.costumes == a.2 + s.2
            &&& m.sounds == if a.3 + s.3 + match spec_get(root, "audio"@) {
                Some(Json::Object(o)) => o@.len(),
                Some(Json::Array(x)) => x@.len(),
                _ => 0nat,
            } == 0 {
                opt_len(spec_get_array(root, "audio_order"@))
            } else {
                a.3 + s.3 + match spec_get(root, "audio"@) {
                    Some(Json::Object(o)) => o@.len(),
                    Some(Json::Array(x)) => x@.len(),
                    _ => 0nat,
                }
            }
            &&& m.format == Format::Kitten
            &&& m.groups.len() == 0
        }),
{
}

} // verus!
