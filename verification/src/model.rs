//! The statistics of one project, and their mathematical view.

use vstd::prelude::*;

use crate::text::strings_view;

verus! {

/// The project formats that can be counted.
#[derive(Clone, Copy, PartialEq, Eq, Debug, Structural)]
pub enum Format {
    /// Scratch 3.0 (.sb3)
    Scratch,
    /// Tencent Coding (.cdc)
    TencentCdc,
    /// Kitten 4 (.bcm4)
    Kitten,
}

impl Format {
    /// The display name of the format.
    pub open spec fn spec_name(self) -> Seq<char> {
        match self {
            Format::Scratch => "Scratch"@,
            Format::TencentCdc => "腾讯扣叮"@,
            Format::Kitten => "Kitten"@,
        }
    }

    /// The display name of the format.
    pub fn name(&self) -> (r: &'static str)
        ensures
            r@ == self.spec_name(),
    {
        match self {
            Format::Scratch => "Scratch",
            Format::TencentCdc => "腾讯扣叮",
            Format::Kitten => "Kitten",
        }
    }
}

/// Counts of one sprite or stage (Scratch only).
#[derive(Clone, Debug)]
pub struct GroupStat {
    pub name: String,
    pub blocks: u64,
    pub costumes: u64,
    pub sounds: u64,
}

/// The counts of one group, as mathematical values.
#[verifier::ext_equal]
pub struct GroupView {
    pub name: Seq<char>,
    pub blocks: nat,
    pub costumes: nat,
    pub sounds: nat,
}

impl View for GroupStat {
    type V = GroupView;

    open spec fn view(&self) -> GroupView {
        GroupView {
            name: self.name@,
            blocks: self.blocks as nat,
            costumes: self.costumes as nat,
            sounds: self.sounds as nat,
        }
    }
}

/// The statistics of one project.
#[derive(Clone, Debug)]
pub struct ProjectStats {
    pub path: String,
    pub format: Format,
    /// Sprites / targets, the stage included.
    pub actors: u64,
    /// Real blocks, shadow (input placeholder) blocks excluded.
    pub blocks: u64,
    /// Shadow blocks, where the format lets them be told apart.
    pub shadow_blocks: u64,
    pub costumes: u64,
    pub sounds: u64,
    /// Per-sprite counts (Scratch only).
    pub groups: Vec<GroupStat>,
    /// Costume names by owner (cdc only): (animation name, [costume names...]).
    pub costume_groups: Vec<(String, Vec<String>)>,
}

/// The statistics of one project, as mathematical values.
#[verifier::ext_equal]
pub struct StatsView {
    pub path: Seq<char>,
    pub format: Format,
    pub actors: nat,
    pub blocks: nat,
    pub shadow_blocks: nat,
    pub costumes: nat,
    pub sounds: nat,
    pub groups: Seq<GroupView>,
    pub costume_groups: Seq<(Seq<char>, Seq<Seq<char>>)>,
}

/// The view of one costume-name group.
pub open spec fn costume_group_view(p: (String, Vec<String>)) -> (Seq<char>, Seq<Seq<char>>) {
    (p.0@, strings_view(p.1@))
}

impl View for ProjectStats {
    type V = StatsView;

    open spec fn view(&self) -> StatsView {
        StatsView {
            path: self.path@,
            format: self.format,
            actors: self.actors as nat,
            blocks: self.blocks as nat,
            shadow_blocks: self.shadow_blocks as nat,
            costumes: self.costumes as nat,
            sounds: self.sounds as nat,
            groups: self.groups@.map_values(|g: GroupStat| g@),
            costume_groups: self.costume_groups@.map_values(
                |p: (String, Vec<String>)| costume_group_view(p),
            ),
        }
    }
}

/// Total = blocks + costumes + sounds.
pub open spec fn view_total(s: StatsView) -> nat {
    s.blocks + s.costumes + s.sounds
}

/// Every count of the statistics, the total and each group's total included, fits in a `u64`.
pub open spec fn view_fits(s: StatsView) -> bool {
    &&& view_total(s) <= u64::MAX
    &&& s.actors <= u64::MAX
    &&& s.shadow_blocks <= u64::MAX
    &&& forall|i: int|
        0 <= i < s.groups.len() ==> #[trigger] s.groups[i].blocks + s.groups[i].costumes
            + s.groups[i].sounds <= u64::MAX
}

/// The blocks, costumes, sounds and their total fit in a `u64`, and so do the shadow blocks.
pub open spec fn counts_fit(s: StatsView) -> bool {
    &&& view_total(s) <= u64::MAX
    &&& s.shadow_blocks <= u64::MAX
}

/// Why an analysis refused a project.
#[derive(Clone, Copy, PartialEq, Eq, Debug, Structural)]
pub enum AnalyzeError {
    /// A Scratch `project.json` without a `targets` array.
    MissingTargets,
    /// A Kitten project without a `theatre` member.
    MissingTheatre,
    /// A project whose counts (or their total) do not fit in a `u64`.
    TooLarge,
}

/// An analysis outcome as the analyzers give it: the statistics when every count fits in
/// a `u64`, `TooLarge` when one does not.
pub open spec fn fitting(m: Result<StatsView, AnalyzeError>) -> Result<StatsView, AnalyzeError> {
    match m {
        Ok(s) => if view_fits(s) {
            Ok(s)
        } else {
            Err(AnalyzeError::TooLarge)
        },
        Err(e) => Err(e),
    }
}

/// The view of an analysis result.
pub open spec fn result_view(r: Result<ProjectStats, AnalyzeError>) -> Result<StatsView, AnalyzeError> {
    match r {
        Ok(s) => Ok(s@),
        Err(e) => Err(e),
    }
}

/// The views of the given statistics.
pub open spec fn stats_views(all: Seq<ProjectStats>) -> Seq<StatsView> {
    all.map_values(|s: ProjectStats| s@)
}

impl ProjectStats {
    /// Total = blocks + costumes + sounds.
    pub fn total(&self) -> (t: u64)
        requires
            self.blocks + self.costumes + self.sounds <= u64::MAX,
        ensures
            t == self.blocks + self.costumes + self.sounds,
    {
        self.blocks + self.costumes + self.sounds
    }
}

} // verus!
