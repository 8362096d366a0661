//! Scratch 3.0 (.sb3) counting.
//!
//! An sb3 is a zip whose `project.json` holds a `targets` array; each element is a
//! sprite or the stage, with its blocks in a `blocks` dictionary (block id to block
//! object, or to a compressed field reference, which is no block).

use vstd::prelude::*;
use vstd::arithmetic::overflow::CheckedU64;

use crate::json::{opt_len, spec_get_array, spec_get_bool, spec_get_object, spec_get_str, Json};
use crate::model::{fitting, result_view, view_fits, AnalyzeError, Format, GroupStat, GroupView, ProjectStats, StatsView};

verus! {

/// A block whose `shadow` member is `true`.
pub open spec fn is_shadow_block(b: Json) -> bool {
    match spec_get_bool(b, "shadow"@) {
        Some(x) => x,
        None => false,
    }
}

/// (real blocks, shadow blocks) among the values of a `blocks` dictionary; values that
/// are not objects are compressed references and count as neither.
pub open spec fn block_tally(es: Seq<(String, Json)>) -> (nat, nat)
    decreases es.len(),
{
    if es.len() == 0 {
        (0, 0)
    } else {
        let prev = block_tally(es.drop_last());
        let v = es.last().1;
        if v is Object {
            if is_shadow_block(v) {
                (prev.0, prev.1 + 1)
            } else {
                (prev.0 + 1, prev.1)
            }
        } else {
            prev
        }
    }
}

/// The entries of a target's `blocks` dictionary; none when it has no such dictionary.
pub open spec fn target_block_entries(t: Json) -> Seq<(String, Json)> {
    match spec_get_object(t, "blocks"@) {
        Some(es) => es,
        None => seq![],
    }
}

/// The name of a target, `<未命名>` when it has no string name.
pub open spec fn target_name(t: Json) -> Seq<char> {
    match spec_get_str(t, "name"@) {
        Some(n) => n,
        None => "<未命名>"@,
    }
}

/// The counts of one target.
pub open spec fn target_group(t: Json) -> GroupView {
    GroupView {
        name: target_name(t),
        blocks: block_tally(target_block_entries(t)).0,
        costumes: opt_len(spec_get_array(t, "costumes"@)),
        sounds: opt_len(spec_get_array(t, "sounds"@)),
    }
}

/// (blocks, shadow blocks, costumes, sounds) summed over the targets.
pub open spec fn scratch_totals(ts: Seq<Json>) -> (nat, nat, nat, nat)
    decreases ts.len(),
{
    if ts.len() == 0 {
        (0, 0, 0, 0)
    } else {
        let prev = scratch_totals(ts.drop_last());
        let t = ts.last();
        let g = target_group(t);
        (
            prev.0 + g.blocks,
            prev.1 + block_tally(target_block_entries(t)).1,
            prev.2 + g.costumes,
            prev.3 + g.sounds,
        )
    }
}

/// The statistics of a Scratch project whose `project.json` is `root`.
pub open spec fn scratch_model(path: Seq<char>, root: Json) -> Result<StatsView, AnalyzeError> {
    match spec_get_array(root, "targets"@) {
        None => Err(AnalyzeError::MissingTargets),
        Some(ts) => {
            let tot = scratch_totals(ts);
            Ok(
                StatsView {
                    path,
                    format: Format::Scratch,
                    actors: ts.len(),
                    blocks: tot.0,
                    shadow_blocks: tot.1,
                    costumes: tot.2,
                    sounds: tot.3,
                    groups: ts.map_values(|t: Json| target_group(t)),
                    // The costume-name list belongs to cdc projects only.
                    costume_groups: seq![],
                },
            )
        },
    }
}

proof fn lemma_block_tally_le_len(es: Seq<(String, Json)>)
    ensures
        block_tally(es).0 + block_tally(es).1 <= es.len(),
    decreases es.len(),
{
    if es.len() > 0 {
        lemma_block_tally_le_len(es.drop_last());
    }
}

/// Counts the real and shadow blocks of one `blocks` dictionary.
fn tally_blocks(es: &Vec<(String, Json)>) -> (r: (u64, u64))
    ensures
        r.0 == block_tally(es@).0,
        r.1 == block_tally(es@).1,
{
    let mut blocks: u64 = 0;
    let mut shadows: u64 = 0;
    let mut j: usize = 0;
    while j < es.len()
        invariant
            j <= es.len(),
            blocks == block_tally(es@.take(j as int)).0,
            shadows == block_tally(es@.take(j as int)).1,
        decreases es.len() - j,
    {
        assert(es@.take(j + 1).drop_last() =~= es@.take(j as int));
        proof {
            lemma_block_tally_le_len(es@.take(j + 1));
        }
        let b = &es[j].1;
        if let Json::Object(_) = b {
            let shadow = match b.get_bool("shadow") {
                Some(x) => x,
                None => false,
            };
            if shadow {
                shadows = shadows + 1;
            } else {
                blocks = blocks + 1;
            }
        }
        j += 1;
    }
    assert(es@.take(es.len() as int) =~= es@);
    (blocks, shadows)
}

/// Counts a Scratch project from its parsed `project.json`: one group per target
/// (sprite or stage), with its real blocks, costumes and sounds; shadow blocks are
/// counted apart and left out of the block total. `TooLarge` when a count or the total
/// does not fit in a `u64`.
pub fn analyze(path: &str, root: &Json) -> (r: Result<ProjectStats, AnalyzeError>)
    ensures
        result_view(r) == fitting(scratch_model(path@, *root)),
        r matches Ok(s) ==> view_fits(s@),
{
    let targets = match root.get_array("targets") {
        Some(t) => t,
        None => {
            return Err(AnalyzeError::MissingTargets);
        },
    };
    let ghost ts = targets@;
    let mut blocks = CheckedU64::new(0);
    let mut shadows = CheckedU64::new(0);
    let mut costumes = CheckedU64::new(0);
    let mut sounds = CheckedU64::new(0);
    let mut groups: Vec<GroupStat> = Vec::new();
    let mut i: usize = 0;
    while i < targets.len()
        invariant
            i <= targets.len(),
            ts == targets@,
            blocks@ == scratch_totals(ts.take(i as int)).0,
            shadows@ == scratch_totals(ts.take(i as int)).1,
            costumes@ == scratch_totals(ts.take(i as int)).2,
            sounds@ == scratch_totals(ts.take(i as int)).3,
            groups@.map_values(|g: GroupStat| g@) == ts.take(i as int).map_values(
                |t: Json| target_group(t),
            ),
        decreases targets.len() - i,
    {
        let t = &targets[i];
        assert(ts.take(i + 1).drop_last() =~= ts.take(i as int));
        assert(ts.take(i + 1).last() == ts[i as int]);
        let name: String = match t.get_str("name") {
            Some(n) => n.clone(),
            None => "<未命名>".to_owned(),
        };
        let (gb, gsh) = match t.get_object("blocks") {
            Some(es) => tally_blocks(es),
            None => (0, 0),
        };
        let gc: u64 = match t.get_array("costumes") {
            Some(a) => a.len() as u64,
            None => 0,
        };
        let gs: u64 = match t.get_array("sounds") {
            Some(a) => a.len() as u64,
            None => 0,
        };
        blocks = blocks.add_value(gb);
        shadows = shadows.add_value(gsh);
        costumes = costumes.add_value(gc);
        sounds = sounds.add_value(gs);
        let ghost before_groups = groups@;
        groups.push(GroupStat { name, blocks: gb, costumes: gc, sounds: gs });
        assert(groups@.map_values(|g: GroupStat| g@) =~= before_groups.map_values(
            |g: GroupStat| g@,
        ).push(target_group(ts[i as int])));
        assert(ts.take(i + 1).map_values(|t: Json| target_group(t)) =~= ts.take(i as int).map_values(
            |t: Json| target_group(t),
        ).push(target_group(ts[i as int])));
        i += 1;
    }
    assert(ts.take(ts.len() as int) =~= ts);
    let total = blocks.add_checked(&costumes).add_checked(&sounds);
    if total.is_overflowed() || shadows.is_overflowed() {
        return Err(AnalyzeError::TooLarge);
    }
    let stats = ProjectStats {
        path: path.to_owned(),
        format: Format::Scratch,
        actors: targets.len() as u64,
        blocks: blocks.unwrap(),
        shadow_blocks: shadows.unwrap(),
        costumes: costumes.unwrap(),
        sounds: sounds.unwrap(),
        groups,
        costume_groups: Vec::new(),
    };
    assert(stats@.costume_groups =~= Seq::<(Seq<char>, Seq<Seq<char>>)>::empty());
    proof {
        assert forall|k: int| 0 <= k < stats@.groups.len() implies #[trigger] stats@.groups[k].blocks
            + stats@.groups[k].costumes + stats@.groups[k].sounds <= u64::MAX by {
            lemma_group_le_totals(ts, k);
        }
    }
    Ok(stats)
}

proof fn lemma_group_le_totals(ts: Seq<Json>, k: int)
    requires
        0 <= k < ts.len(),
    ensures
        target_group(ts[k]).blocks <= scratch_totals(ts).0,
        target_group(ts[k]).costumes <= scratch_totals(ts).2,
        target_group(ts[k]).sounds <= scratch_totals(ts).3,
    decreases ts.len(),
{
    if k < ts.len() - 1 {
        lemma_group_le_totals(ts.drop_last(), k);
    }
}

/// (blocks, costumes, sounds) summed over groups.
pub open spec fn groups_sum(gs: Seq<GroupView>) -> (nat, nat, nat)
    decreases gs.len(),
{
    if gs.len() == 0 {
        (0, 0, 0)
    } else {
        let prev = groups_sum(gs.drop_last());
        let g = gs.last();
        (prev.0 + g.blocks, prev.1 + g.costumes, prev.2 + g.sounds)
    }
}

proof fn lemma_totals_match_groups(ts: Seq<Json>)
    ensures
        groups_sum(ts.map_values(|t: Json| target_group(t))) == (
            scratch_totals(ts).0,
            scratch_totals(ts).2,
            scratch_totals(ts).3,
        ),
    decreases ts.len(),
{
    if ts.len() > 0 {
        lemma_totals_match_groups(ts.drop_last());
        assert(ts.map_values(|t: Json| target_group(t)).drop_last() =~= ts.drop_last().map_values(
            |t: Json| target_group(t),
        ));
    }
}

/// A Scratch project has one group per target (sprite or stage), and its blocks,
/// costumes and sounds are the sums of those of its groups.
pub proof fn scratch_totals_are_group_sums(path: Seq<char>, root: Json)
    requires
        scratch_model(path, root) is Ok,
    ensures
        ({
            let m = scratch_model(path, root)->Ok_0;
            &&& m.groups.len() == m.actors
            &&& groups_sum(m.groups) == (m.blocks, m.costumes, m.sounds)
        }),
{
    let ts = spec_get_array(root, "targets"@)->Some_0;
    lemma_totals_match_groups(ts);
}


/// The number of object values in a `blocks` dictionary.
pub open spec fn object_values(es: Seq<(String, Json)>) -> nat
    decreases es.len(),
{
    if es.len() == 0 {
        0
    } else {
        object_values(es.drop_last()) + if es.last().1 is Object {
            1nat
        } else {
            0nat
        }
    }
}

/// Every block object of a dictionary is counted exactly once: as a real block or as a
/// shadow block.
pub proof fn blocks_and_shadows_partition(es: Seq<(String, Json)>)
    ensures
        block_tally(es).0 + block_tally(es).1 == object_values(es),
    decreases es.len(),
{
    if es.len() > 0 {
        blocks_and_shadows_partition(es.drop_last());
    }
}

/// Block counting is additive over a `blocks` dictionary, and one entry counts as a real
/// block when its value is an object whose `shadow` member is not `true` (whatever its other
/// members, `topLevel` included), as a shadow block when that member is `true`, and as
/// nothing when its value is no object.
pub proof fn block_counts_per_entry(es: Seq<(String, Json)>, fs: Seq<(String, Json)>, e: (String, Json))
    ensures
        block_tally(es + fs).0 == block_tally(es).0 + block_tally(fs).0,
        block_tally(es + fs).1 == block_tally(es).1 + block_tally(fs).1,
        block_tally(seq![e]).0 == (if e.1 is Object && spec_get_bool(e.1, "shadow"@) != Some(true) {
            1nat
        } else {
            0nat
        }),
        block_tally(seq![e]).1 == (if e.1 is Object && spec_get_bool(e.1, "shadow"@) == Some(true) {
            1nat
        } else {
            0nat
        }),
    decreases fs.len(),
{
    if fs.len() == 0 {
        assert(es + fs =~= es);
    } else {
        block_counts_per_entry(es, fs.drop_last(), e);
        assert((es + fs).drop_last() =~= es + fs.drop_last());
        assert((es + fs).last() == fs.last());
    }
    assert(seq![e].drop_last() =~= Seq::<(String, Json)>::empty());
    assert(block_tally(Seq::<(String, Json)>::empty()) == (0nat, 0nat));
    assert(seq![e].last() == e);
    assert(is_shadow_block(e.1) == (spec_get_bool(e.1, "shadow"@) == Some(true)));
}

/// The Scratch totals are additive over targets, and one target contributes its real and
/// shadow blocks (as `block_tally` counts them over its `blocks` dictionary), the length
/// of its `costumes` array and the length of its `sounds` array.
pub proof fn scratch_totals_per_target(ts: Seq<Json>, us: Seq<Json>, t: Json)
    ensures
        scratch_totals(ts + us).0 == scratch_totals(ts).0 + scratch_totals(us).0,
        scratch_totals(ts + us).1 == scratch_totals(ts).1 + scratch_totals(us).1,
        scratch_totals(ts + us).2 == scratch_totals(ts).2 + scratch_totals(us).2,
        scratch_totals(ts + us).3 == scratch_totals(ts).3 + scratch_totals(us).3,
        scratch_totals(seq![t]) == (
            block_tally(
                match spec_get_object(t, "blocks"@) {
                    Some(es) => es,
                    None => seq![],
                },
            ).0,
            block_tally(
                match spec_get_object(t, "blocks"@) {
                    Some(es) => es,
                    None => seq![],
                },
            ).1,
            opt_len(spec_get_array(t, "costumes"@)),
            opt_len(spec_get_array(t, "sounds"@)),
        ),
    decreases us.len(),
{
    if us.len() == 0 {
        assert(ts + us =~= ts);
    } else {
        scratch_totals_per_target(ts, us.drop_last(), t);
        assert((ts + us).drop_last() =~= ts + us.drop_last());
        assert((ts + us).last() == us.last());
    }
    assert(seq![t].drop_last() =~= Seq::<Json>::empty());
    assert(scratch_totals(Seq::<Json>::empty()) == (0nat, 0nat, 0nat, 0nat));
    assert(seq![t].last() == t);
}

/// Each group of a counted Scratch project is its target: the target's string `name` (or
/// `<未命名>`), the real blocks of its `blocks` dictionary, and the lengths of its
/// `costumes` and `sounds` arrays; the project has as many actors as targets.
pub proof fn scratch_groups_are_targets(path: Seq<char>, root: Json, i: int)
    requires
        scratch_model(path, root) is Ok,
        0 <= i < scratch_model(path, root)->Ok_0.groups.len(),
    ensures
        ({
            let m = scratch_model(path, root)->Ok_0;
            let t = spec_get_array(root, "targets"@)->Some_0[i];
            let tot = scratch_totals(spec_get_array(root, "targets"@)->Some_0);
            &&& m.actors == spec_get_array(root, "targets"@)->Some_0.len()
            &&& m.groups.len() == m.actors
            &&& (m.blocks, m.shadow_blocks, m.costumes, m.sounds) == tot
            &&& m.format == Format::Scratch
            &&& m.groups[i].name == match spec_get_str(t, "name"@) {
                Some(n) => n,
                None => "<未命名>"@,
            }
            &&& m.groups[i].blocks == block_tally(
                match spec_get_object(t, "blocks"@) {
                    Some(es) => es,
                    None => seq![],
                },
            ).0
            &&& m.groups[i].costumes == opt_len(spec_get_array(t, "costumes"@))
            &&& m.groups[i].sounds == opt_len(spec_get_array(t, "sounds"@))
        }),
{
}

} // verus!
