//! Tencent Coding (.cdc) counting.
//!
//! A cdc is a zip whose `project.json` has:
//! - `scenes[].sprites[]`: the sprites and the stage, each with its blocks as an XML text
//!   in `blocks` (nested `<block .../>` elements);
//! - top-level `animates[]`: the costume animations, each with its frames in `images[]`;
//! - `scenes[].audios[]`: the scene sounds (sounds may also sit in the zip as plain audio
//!   members, counted apart by `archive::count_zip_audio_files`).

use vstd::prelude::*;
use vstd::arithmetic::overflow::CheckedU64;

use crate::json::{collect_names, named_items, opt_len, spec_get_array, spec_get_str, Json};
use crate::model::{costume_group_view, fitting, result_view, view_fits, AnalyzeError, Format, ProjectStats, StatsView};
use crate::text::{count_xml_tag, spec_count_xml_tag};

verus! {

/// (`<block` elements, `<shadow` elements) in the XML blocks of one sprite.
pub open spec fn sprite_tally(sprite: Json) -> (nat, nat) {
    match spec_get_str(sprite, "blocks"@) {
        Some(xml) => (spec_count_xml_tag(xml, "block"@), spec_count_xml_tag(xml, "shadow"@)),
        None => (0, 0),
    }
}

/// `sprite_tally` summed over sprites.
pub open spec fn sprites_tally(sprites: Seq<Json>) -> (nat, nat)
    decreases sprites.len(),
{
    if sprites.len() == 0 {
        (0, 0)
    } else {
        let prev = sprites_tally(sprites.drop_last());
        let t = sprite_tally(sprites.last());
        (prev.0 + t.0, prev.1 + t.1)
    }
}

/// The items of an optional array; none when absent.
pub open spec fn items_of(a: Option<Seq<Json>>) -> Seq<Json> {
    match a {
        Some(items) => items,
        None => seq![],
    }
}

/// (sprites, blocks, shadow blocks, sounds) of one scene.
pub open spec fn scene_tally(scene: Json) -> (nat, nat, nat, nat) {
    let sprites = spec_get_array(scene, "sprites"@);
    let t = sprites_tally(items_of(sprites));
    (opt_len(sprites), t.0, t.1, opt_len(spec_get_array(scene, "audios"@)))
}

/// `scene_tally` summed over scenes.
pub open spec fn scenes_tally(scenes: Seq<Json>) -> (nat, nat, nat, nat)
    decreases scenes.len(),
{
    if scenes.len() == 0 {
        (0, 0, 0, 0)
    } else {
        let prev = scenes_tally(scenes.drop_last());
        let t = scene_tally(scenes.last());
        (prev.0 + t.0, prev.1 + t.1, prev.2 + t.2, prev.3 + t.3)
    }
}

/// The name of an animation, `<未命名>` when it has no string `animName`.
pub open spec fn anim_owner(anim: Json) -> Seq<char> {
    match spec_get_str(anim, "animName"@) {
        Some(n) => n,
        None => "<未命名>"@,
    }
}

/// The number of costume frames over all animations.
pub open spec fn anims_costumes(anims: Seq<Json>) -> nat
    decreases anims.len(),
{
    if anims.len() == 0 {
        0
    } else {
        anims_costumes(anims.drop_last()) + opt_len(spec_get_array(anims.last(), "images"@))
    }
}

/// The frame names of each animation that has an `images` array, in order.
pub open spec fn anim_groups(anims: Seq<Json>) -> Seq<(Seq<char>, Seq<Seq<char>>)>
    decreases anims.len(),
{
    if anims.len() == 0 {
        seq![]
    } else {
        let prev = anim_groups(anims.drop_last());
        let a = anims.last();
        match spec_get_array(a, "images"@) {
            Some(images) => prev.push((anim_owner(a), named_items(images))),
            None => prev,
        }
    }
}

/// The statistics of a cdc project whose `project.json` is `root` and whose zip holds
/// `zip_audio` audio members.
pub open spec fn cdc_model(path: Seq<char>, root: Json, zip_audio: nat) -> StatsView {
    let sc = scenes_tally(items_of(spec_get_array(root, "scenes"@)));
    let anims = items_of(spec_get_array(root, "animates"@));
    StatsView {
        path,
        format: Format::TencentCdc,
        actors: sc.0,
        blocks: sc.1,
        shadow_blocks: sc.2,
        costumes: anims_costumes(anims),
        sounds: sc.3 + zip_audio,
        groups: seq![],
        costume_groups: anim_groups(anims),
    }
}

/// Counts the `<block` and `<shadow` elements of the sprites of one scene.
fn tally_sprites(sprites: &Vec<Json>) -> (r: (CheckedU64, CheckedU64))
    ensures
        r.0@ == sprites_tally(sprites@).0,
        r.1@ == sprites_tally(sprites@).1,
{
    let mut blocks = CheckedU64::new(0);
    let mut shadows = CheckedU64::new(0);
    let mut j: usize = 0;
    while j < sprites.len()
        invariant
            j <= sprites.len(),
            blocks@ == sprites_tally(sprites@.take(j as int)).0,
            shadows@ == sprites_tally(sprites@.take(j as int)).1,
        decreases sprites.len() - j,
    {
        assert(sprites@.take(j + 1).drop_last() =~= sprites@.take(j as int));
        if let Some(xml) = sprites[j].get_str("blocks") {
            blocks = blocks.add_value(count_xml_tag(xml.as_str(), "block"));
            shadows = shadows.add_value(count_xml_tag(xml.as_str(), "shadow"));
        }
        j += 1;
    }
    assert(sprites@.take(sprites.len() as int) =~= sprites@);
    (blocks, shadows)
}

/// Counts a cdc project from its parsed `project.json` and the number of audio members
/// of its zip (see `archive::count_zip_audio_files`): sprites and their XML blocks per
/// scene, scene sounds, and the costume frames of every animation with their names.
/// `TooLarge` when a count or the total does not fit in a `u64`.
pub fn analyze(path: &str, root: &Json, zip_audio: u64) -> (r: Result<ProjectStats, AnalyzeError>)
    ensures
        result_view(r) == fitting(Ok(cdc_model(path@, *root, zip_audio as nat))),
        r matches Ok(s) ==> view_fits(s@),
{
    let ghost m = cdc_model(path@, *root, zip_audio as nat);
    let mut actors = CheckedU64::new(0);
    let mut blocks = CheckedU64::new(0);
    let mut shadows = CheckedU64::new(0);
    let mut sounds = CheckedU64::new(0);
    let mut costumes = CheckedU64::new(0);
    let mut costume_groups: Vec<(String, Vec<String>)> = Vec::new();
    if let Some(scenes) = root.get_array("scenes") {
        let mut i: usize = 0;
        while i < scenes.len()
            invariant
                i <= scenes.len(),
                actors@ == scenes_tally(scenes@.take(i as int)).0,
                blocks@ == scenes_tally(scenes@.take(i as int)).1,
                shadows@ == scenes_tally(scenes@.take(i as int)).2,
                sounds@ == scenes_tally(scenes@.take(i as int)).3,
            decreases scenes.len() - i,
        {
            assert(scenes@.take(i + 1).drop_last() =~= scenes@.take(i as int));
            let scene = &scenes[i];
            if let Some(sprites) = scene.get_array("sprites") {
                actors = actors.add_value(sprites.len() as u64);
                let (b, sh) = tally_sprites(sprites);
                blocks = blocks.add_checked(&b);
                shadows = shadows.add_checked(&sh);
            }
            if let Some(audios) = scene.get_array("audios") {
                sounds = sounds.add_value(audios.len() as u64);
            }
            i += 1;
        }
        assert(scenes@.take(scenes.len() as int) =~= scenes@);
    }
    if let Some(anims) = root.get_array("animates") {
        let mut i: usize = 0;
        while i < anims.len()
            invariant
                i <= anims.len(),
                costumes@ == anims_costumes(anims@.take(i as int)),
                costume_groups@.map_values(|p: (String, Vec<String>)| costume_group_view(p))
                    == anim_groups(anims@.take(i as int)),
            decreases anims.len() - i,
        {
            assert(anims@.take(i + 1).drop_last() =~= anims@.take(i as int));
            let anim = &anims[i];
            if let Some(images) = anim.get_array("images") {
                costumes = costumes.add_value(images.len() as u64);
                let names = collect_names(images);
                let owner: String = match anim.get_str("animName") {
                    Some(n) => n.clone(),
                    None => "<未命名>".to_owned(),
                };
                let ghost before = costume_groups@;
                costume_groups.push((owner, names));
                assert(costume_groups@.map_values(
                    |p: (String, Vec<String>)| costume_group_view(p),
                ) =~= before.map_values(|p: (String, Vec<String>)| costume_group_view(p)).push(
                    (anim_owner(anims@[i as int]), named_items(images@)),
                ));
            }
            i += 1;
        }
        assert(anims@.take(anims.len() as int) =~= anims@);
    }
    sounds = sounds.add_value(zip_audio);
    let total = blocks.add_checked(&costumes).add_checked(&sounds);
    if total.is_overflowed() || shadows.is_overflowed() || actors.is_overflowed() {
        return Err(AnalyzeError::TooLarge);
    }
    let stats = ProjectStats {
        path: path.to_owned(),
        format: Format::TencentCdc,
        actors: actors.unwrap(),
        blocks: blocks.unwrap(),
        shadow_blocks: shadows.unwrap(),
        costumes: costumes.unwrap(),
        sounds: sounds.unwrap(),
        groups: Vec::new(),
        costume_groups,
    };
    assert(stats@.groups =~= Seq::<crate::model::GroupView>::empty());
    assert(stats@ == m);
    Ok(stats)
}

/// Per-sprite groups are a Scratch matter: cdc and Kitten statistics have none.
pub proof fn only_scratch_has_groups(path: Seq<char>, root: Json, zip_audio: nat)
    ensures
        cdc_model(path, root, zip_audio).groups.len() == 0,
        crate::kitten::kitten_model(path, root) matches Ok(m) ==> m.groups.len() == 0,
{
}

/// Tag counting is additive over sprites, and one sprite contributes the `<block` and the
/// `<shadow` openings of its string `blocks` member (nothing without one).
pub proof fn sprite_counts_per_sprite(ss: Seq<Json>, us: Seq<Json>, sp: Json)
    ensures
        sprites_tally(ss + us).0 == sprites_tally(ss).0 + sprites_tally(us).0,
        sprites_tally(ss + us).1 == sprites_tally(ss).1 + sprites_tally(us).1,
        sprites_tally(seq![sp]) == match spec_get_str(sp, "blocks"@) {
            Some(xml) => (spec_count_xml_tag(xml, "block"@), spec_count_xml_tag(xml, "shadow"@)),
            None => (0nat, 0nat),
        },
    decreases us.len(),
{
    if us.len() == 0 {
        assert(ss + us =~= ss);
    } else {
        sprite_counts_per_sprite(ss, us.drop_last(), sp);
        assert((ss + us).drop_last() =~= ss + us.drop_last());
        assert((ss + us).last() == us.last());
    }
    assert(seq![sp].drop_last() =~= Seq::<Json>::empty());
    assert(sprites_tally(Seq::<Json>::empty()) == (0nat, 0nat));
    assert(seq![sp].last() == sp);
}

/// The scene counts are additive over scenes: (sprites, blocks, shadow blocks, sounds) of
/// `ss + us` are those of `ss` plus those of `us`; one scene contributes the length of its
/// `sprites` array, the tags of those sprites, and the length of its `audios` array.
pub proof fn scene_counts_per_scene(ss: Seq<Json>, us: Seq<Json>, sc: Json)
    ensures
        scenes_tally(ss + us).0 == scenes_tally(ss).0 + scenes_tally(us).0,
        scenes_tally(ss + us).1 == scenes_tally(ss).1 + scenes_tally(us).1,
        scenes_tally(ss + us).2 == scenes_tally(ss).2 + scenes_tally(us).2,
        scenes_tally(ss + us).3 == scenes_tally(ss).3 + scenes_tally(us).3,
        scenes_tally(seq![sc]) == (
            opt_len(spec_get_array(sc, "sprites"@)),
            sprites_tally(items_of(spec_get_array(sc, "sprites"@))).0,
            sprites_tally(items_of(spec_get_array(sc, "sprites"@))).1,
            opt_len(spec_get_array(sc, "audios"@)),
        ),
        items_of(spec_get_array(sc, "sprites"@)).len() == opt_len(spec_get_array(sc, "sprites"@)),
    decreases us.len(),
{
    if us.len() == 0 {
        assert(ss + us =~= ss);
    } else {
        scene_counts_per_scene(ss, us.drop_last(), sc);
        assert((ss + us).drop_last() =~= ss + us.drop_last());
        assert((ss + us).last() == us.last());
    }
    assert(seq![sc].drop_last() =~= Seq::<Json>::empty());
    assert(scenes_tally(Seq::<Json>::empty()) == (0nat, 0nat, 0nat, 0nat));
    assert(seq![sc].last() == sc);
}

/// Costume frames are additive over animations, one animation contributing the length of
/// its `images` array.
pub proof fn costumes_per_animation(xs: Seq<Json>, ys: Seq<Json>, a: Json)
    ensures
        anims_costumes(xs + ys) == anims_costumes(xs) + anims_costumes(ys),
        anims_costumes(seq![a]) == opt_len(spec_get_array(a, "images"@)),
    decreases ys.len(),
{
    if ys.len() == 0 {
        assert(xs + ys =~= xs);
    } else {
        costumes_per_animation(xs, ys.drop_last(), a);
        assert((xs + ys).drop_last() =~= xs + ys.drop_last());
        assert((xs + ys).last() == ys.last());
    }
    assert(seq![a].drop_last() =~= Seq::<Json>::empty());
    assert(anims_costumes(Seq::<Json>::empty()) == 0);
    assert(seq![a].last() == a);
}

/// A cdc project's counts are those of its `scenes` and `animates` arrays: its actors,
/// blocks and shadow blocks are the scene counts, its sounds the scene sounds plus the
/// zip's audio members, its costumes the frames of every animation.
pub proof fn cdc_counts_are_scene_counts(path: Seq<char>, root: Json, zip_audio: nat)
    ensures
        ({
            let m = cdc_model(path, root, zip_audio);
            let sc = scenes_tally(items_of(spec_get_array(root, "scenes"@)));
            &&& m.actors == sc.0
            &&& m.blocks == sc.1
            &&& m.shadow_blocks == sc.2
            &&& m.sounds == sc.3 + zip_audio
            &&& m.costumes == anims_costumes(items_of(spec_get_array(root, "animates"@)))
            &&& m.costume_groups == anim_groups(items_of(spec_get_array(root, "animates"@)))
            &&& m.format == Format::TencentCdc
            &&& m.path == path
        }),
{
}

/// The costume-name groups are additive over animations, and one animation with an
/// `images` array gives one group: its string `animName` (or `<未命名>`) and the names of
/// its frames; one without gives none.
pub proof fn costume_groups_per_animation(xs: Seq<Json>, ys: Seq<Json>, a: Json)
    ensures
        anim_groups(xs + ys) == anim_groups(xs) + anim_groups(ys),
        anim_groups(seq![a]) == match spec_get_array(a, "images"@) {
            Some(images) => seq![
                (
                    match spec_get_str(a, "animName"@) {
                        Some(n) => n,
                        None => "<未命名>"@,
                    },
                    named_items(images),
                ),
            ],
            None => Seq::<(Seq<char>, Seq<Seq<char>>)>::empty(),
        },
    decreases ys.len(),
{
    if ys.len() == 0 {
        assert(xs + ys =~= xs);
        assert(anim_groups(xs) + anim_groups(ys) =~= anim_groups(xs));
    } else {
        costume_groups_per_animation(xs, ys.drop_last(), a);
        assert((xs + ys).drop_last() =~= xs + ys.drop_last());
        assert((xs + ys).last() == ys.last());
        let n = anim_groups(xs);
        let m = anim_groups(ys.drop_last());
        let l = ys.last();
        match spec_get_array(l, "images"@) {
            Some(images) => {
                assert(n + m.push((anim_owner(l), named_items(images))) =~= (n + m).push(
                    (anim_owner(l), named_items(images)),
                ));
            },
            None => {},
        }
    }
    assert(seq![a].drop_last() =~= Seq::<Json>::empty());
    assert(anim_groups(Seq::<Json>::empty()) =~= Seq::<(Seq<char>, Seq<Seq<char>>)>::empty());
    assert(seq![a].last() == a);
    match spec_get_array(a, "images"@) {
        Some(images) => {
            assert(Seq::<(Seq<char>, Seq<Seq<char>>)>::empty().push((anim_owner(a), named_items(images)))
                =~= seq![(anim_owner(a), named_items(images))]);
        },
        None => {},
    }
}

} // verus!
