//! Reports: aligned text tables (CJK counted two cells wide), per-project details, CSV.

use vstd::prelude::*;

use crate::model::{counts_fit, view_fits, view_total, GroupStat, GroupView, ProjectStats, StatsView, stats_views};
use crate::paths::{file_name, path_file_name};
use crate::text::{
    char_is_whitespace, decimal, display_width, is_white_space, push_char, push_chars, push_decimal,
    push_str, spec_display_width, str_chars, strings_view,
};

verus! {

// ---------------------------------------------------------------- tables

/// `s` without its trailing characters that have the Unicode `White_Space` property.
pub open spec fn trim_end(s: Seq<char>) -> Seq<char>
    decreases s.len(),
{
    if s.len() > 0 && is_white_space(s.last()) {
        trim_end(s.drop_last())
    } else {
        s
    }
}

/// `n` copies of `c`.
pub open spec fn repeat_char(c: char, n: nat) -> Seq<char> {
    Seq::new(n, |_i: int| c)
}

/// The larger of two numbers.
pub open spec fn max_nat(a: nat, b: nat) -> nat {
    if a >= b {
        a
    } else {
        b
    }
}

/// The widest cell of column `i` over the rows; a row without that column adds nothing.
pub open spec fn rows_col_width(rows: Seq<Seq<Seq<char>>>, i: int) -> nat
    decreases rows.len(),
{
    if rows.len() == 0 {
        0
    } else {
        let r = rows.last();
        max_nat(
            rows_col_width(rows.drop_last(), i),
            if i < r.len() {
                spec_display_width(r[i])
            } else {
                0
            },
        )
    }
}

/// The width of each column: its widest cell, header included.
pub open spec fn col_widths(headers: Seq<Seq<char>>, rows: Seq<Seq<Seq<char>>>) -> Seq<nat> {
    Seq::new(
        headers.len(),
        |i: int| max_nat(spec_display_width(headers[i]), rows_col_width(rows, i)),
    )
}

/// A cell followed by the spaces that fill it to width `w`.
pub open spec fn padded(c: Seq<char>, w: nat) -> Seq<char> {
    c + repeat_char(
        ' ',
        if w >= spec_display_width(c) {
            (w - spec_display_width(c)) as nat
        } else {
            0
        },
    )
}

/// The padded cells, two spaces apart.
pub open spec fn joined_cells(cells: Seq<Seq<char>>, widths: Seq<nat>) -> Seq<char>
    decreases cells.len(),
{
    if cells.len() == 0 {
        seq![]
    } else {
        joined_cells(cells.drop_last(), widths) + (if cells.len() > 1 {
            seq![' ', ' ']
        } else {
            seq![]
        }) + padded(cells.last(), widths[cells.len() - 1])
    }
}

/// One table line: the padded cells with the trailing whitespace trimmed.
pub open spec fn table_line(cells: Seq<Seq<char>>, widths: Seq<nat>) -> Seq<char> {
    trim_end(joined_cells(cells, widths)) + seq!['\n']
}

/// A rule of `─` under each column, two spaces apart.
pub open spec fn rule_parts(widths: Seq<nat>) -> Seq<char>
    decreases widths.len(),
{
    if widths.len() == 0 {
        seq![]
    } else {
        rule_parts(widths.drop_last()) + (if widths.len() > 1 {
            seq![' ', ' ']
        } else {
            seq![]
        }) + repeat_char('─', widths.last())
    }
}

/// The lines of the given rows.
pub open spec fn table_rows(rows: Seq<Seq<Seq<char>>>, widths: Seq<nat>) -> Seq<char>
    decreases rows.len(),
{
    if rows.len() == 0 {
        seq![]
    } else {
        table_rows(rows.drop_last(), widths) + table_line(rows.last(), widths)
    }
}

/// A table aligned by display width: the header line, a rule, then one line per row.
pub open spec fn table_text(headers: Seq<Seq<char>>, rows: Seq<Seq<Seq<char>>>) -> Seq<char> {
    let w = col_widths(headers, rows);
    table_line(headers, w) + rule_parts(w) + seq!['\n'] + table_rows(rows, w)
}

/// The characters of each cell of each row.
pub open spec fn rows_view(rows: Seq<Vec<String>>) -> Seq<Seq<Seq<char>>> {
    rows.map_values(|r: Vec<String>| strings_view(r@))
}

/// Appends `cs` without its trailing whitespace, then a newline.
fn push_trimmed_line(out: &mut String, cs: &Vec<char>)
    ensures
        final(out)@ == old(out)@ + trim_end(cs@) + seq!['\n'],
{
    let mut end: usize = cs.len();
    assert(cs@.take(end as int) =~= cs@);
    while end > 0 && char_is_whitespace(cs[end - 1])
        invariant
            end <= cs.len(),
            trim_end(cs@) == trim_end(cs@.take(end as int)),
        decreases end,
    {
        assert(cs@.take(end as int).drop_last() =~= cs@.take(end - 1));
        end -= 1;
    }
    let mut kept: Vec<char> = Vec::new();
    let mut k: usize = 0;
    while k < end
        invariant
            k <= end <= cs.len(),
            kept@ == cs@.take(k as int),
        decreases end - k,
    {
        kept.push(cs[k]);
        k += 1;
        assert(kept@ =~= cs@.take(k as int));
    }
    assert(trim_end(cs@.take(end as int)) == cs@.take(end as int));
    push_chars(out, &kept);
    push_char(out, '\n');
}

/// Appends one table line: the cells padded to the column widths, two spaces apart,
/// with the trailing whitespace trimmed.
fn push_table_line(out: &mut String, cells: &Vec<String>, widths: &Vec<usize>)
    requires
        cells.len() <= widths.len(),
    ensures
        final(out)@ == old(out)@ + table_line(
            strings_view(cells@),
            widths@.map_values(|w: usize| w as nat),
        ),
{
    let ghost cv = strings_view(cells@);
    let ghost wv = widths@.map_values(|w: usize| w as nat);
    let mut line: Vec<char> = Vec::new();
    let mut i: usize = 0;
    while i < cells.len()
        invariant
            i <= cells.len() <= widths.len(),
            cv == strings_view(cells@),
            wv == widths@.map_values(|w: usize| w as nat),
            line@ == joined_cells(cv.take(i as int), wv),
        decreases cells.len() - i,
    {
        assert(cv.take(i + 1).drop_last() =~= cv.take(i as int));
        assert(cv.take(i + 1).last() == cells@[i as int]@);
        let ghost before = line@;
        if i > 0 {
            line.push(' ');
            line.push(' ');
        }
        let cell = str_chars(cells[i].as_str());
        let mut k: usize = 0;
        let ghost mid = line@;
        while k < cell.len()
            invariant
                k <= cell.len(),
                line@ == mid + cell@.take(k as int),
            decreases cell.len() - k,
        {
            line.push(cell[k]);
            k += 1;
            assert(line@ =~= mid + cell@.take(k as int));
        }
        assert(cell@.take(cell.len() as int) =~= cell@);
        let dw = display_width(cells[i].as_str());
        let pad: usize = if widths[i] >= dw {
            widths[i] - dw
        } else {
            0
        };
        let ghost filled = line@;
        let mut p: usize = 0;
        while p < pad
            invariant
                p <= pad,
                line@ == filled + repeat_char(' ', p as nat),
            decreases pad - p,
        {
            line.push(' ');
            p += 1;
            assert(line@ =~= filled + repeat_char(' ', p as nat));
        }
        assert(line@ =~= before + (if i + 1 > 1 {
            seq![' ', ' ']
        } else {
            seq![]
        }) + padded(cv[i as int], wv[i as int]));
        i += 1;
    }
    assert(cv.take(cv.len() as int) =~= cv);
    push_trimmed_line(out, &line);
}

/// Renders a table aligned by display width (CJK counted two cells wide): the header
/// line, a rule of `─`, then one line per row; every cell is left-aligned and padded to
/// its column's widest cell, columns two spaces apart, trailing whitespace trimmed.
pub fn render_table(headers: &Vec<String>, rows: &Vec<Vec<String>>) -> (r: String)
    requires
        forall|k: int| 0 <= k < rows@.len() ==> #[trigger] rows@[k].len() <= headers.len(),
    ensures
        r@ == table_text(strings_view(headers@), rows_view(rows@)),
{
    let ghost hv = strings_view(headers@);
    let ghost rv = rows_view(rows@);
    let ncols = headers.len();
    let mut widths: Vec<usize> = Vec::new();
    let mut i: usize = 0;
    while i < ncols
        invariant
            i <= ncols == headers.len(),
            hv == strings_view(headers@),
            widths@.len() == i,
            forall|j: int| 0 <= j < i ==> #[trigger] widths@[j] == spec_display_width(hv[j]),
        decreases ncols - i,
    {
        widths.push(display_width(headers[i].as_str()));
        i += 1;
    }
    let mut k: usize = 0;
    while k < rows.len()
        invariant
            k <= rows.len(),
            ncols == headers.len(),
            hv == strings_view(headers@),
            rv == rows_view(rows@),
            forall|m: int| 0 <= m < rows@.len() ==> #[trigger] rows@[m].len() <= ncols,
            widths@.len() == ncols,
            hv.len() == ncols,
            forall|j: int|
                0 <= j < ncols ==> #[trigger] widths@[j] == max_nat(
                    spec_display_width(hv[j]),
                    rows_col_width(rv.take(k as int), j),
                ),
        decreases rows.len() - k,
    {
        let row = &rows[k];
        assert(rv.take(k + 1).drop_last() =~= rv.take(k as int));
        assert(rv.take(k + 1).last() == strings_view(row@));
        let mut c: usize = 0;
        while c < row.len()
            invariant
                c <= row.len() <= ncols,
                widths@.len() == ncols,
                hv.len() == ncols,
                k < rv.len(),
                rv.take(k + 1).drop_last() == rv.take(k as int),
                rv.take(k + 1).last() == strings_view(row@),
                forall|j: int|
                    0 <= j < ncols ==> #[trigger] widths@[j] == if j < c {
                        max_nat(spec_display_width(hv[j]), rows_col_width(rv.take(k + 1), j))
                    } else {
                        max_nat(spec_display_width(hv[j]), rows_col_width(rv.take(k as int), j))
                    },
            decreases row.len() - c,
        {
            let w = display_width(row[c].as_str());
            assert(strings_view(row@)[c as int] == row@[c as int]@);
            assert(strings_view(row@).len() == row.len());
            assert(rows_col_width(rv.take(k + 1), c as int) == max_nat(
                rows_col_width(rv.take(k as int), c as int),
                w as nat,
            ));
            if w > widths[c] {
                widths.set(c, w);
            }
            c += 1;
        }
        assert forall|j: int| 0 <= j < ncols implies #[trigger] widths@[j] == max_nat(
            spec_display_width(hv[j]),
            rows_col_width(rv.take(k + 1), j),
        ) by {
            if j >= row.len() {
                assert(rows_col_width(rv.take(k + 1), j) == rows_col_width(rv.take(k as int), j));
            }
        }
        k += 1;
    }
    assert(rv.take(rows.len() as int) =~= rv);
    let ghost wv = widths@.map_values(|w: usize| w as nat);
    assert(wv =~= col_widths(hv, rv));
    let mut out = String::new();
    push_table_line(&mut out, headers, &widths);
    let mut j: usize = 0;
    let ghost head = out@;
    while j < ncols
        invariant
            j <= ncols == widths.len(),
            wv == widths@.map_values(|w: usize| w as nat),
            out@ == head + rule_parts(wv.take(j as int)),
        decreases ncols - j,
    {
        assert(wv.take(j + 1).drop_last() =~= wv.take(j as int));
        let ghost before = out@;
        if j > 0 {
            push_char(&mut out, ' ');
            push_char(&mut out, ' ');
        }
        let mut p: usize = 0;
        let ghost mid = out@;
        while p < widths[j]
            invariant
                j < widths.len(),
                p <= widths[j as int],
                out@ == mid + repeat_char('─', p as nat),
            decreases widths[j as int] - p,
        {
            push_char(&mut out, '─');
            p += 1;
            assert(out@ =~= mid + repeat_char('─', p as nat));
        }
        assert(out@ =~= before + (if j + 1 > 1 {
            seq![' ', ' ']
        } else {
            seq![]
        }) + repeat_char('─', wv[j as int]));
        j += 1;
    }
    assert(wv.take(ncols as int) =~= wv);
    push_char(&mut out, '\n');
    let ghost ruled = out@;
    let mut k: usize = 0;
    while k < rows.len()
        invariant
            k <= rows.len(),
            rv == rows_view(rows@),
            wv == widths@.map_values(|w: usize| w as nat),
            widths@.len() == ncols,
            forall|m: int| 0 <= m < rows@.len() ==> #[trigger] rows@[m].len() <= ncols,
            out@ == ruled + table_rows(rv.take(k as int), wv),
        decreases rows.len() - k,
    {
        assert(rv.take(k + 1).drop_last() =~= rv.take(k as int));
        assert(rv.take(k + 1).last() == strings_view(rows@[k as int]@));
        assert(rows@[k as int].len() <= ncols);
        push_table_line(&mut out, &rows[k], &widths);
        k += 1;
    }
    assert(rv.take(rows.len() as int) =~= rv);
    out
}

// ---------------------------------------------------------------- summary

/// The headers of the summary table.
pub open spec fn summary_headers() -> Seq<Seq<char>> {
    seq!["文件"@, "格式"@, "角色"@, "积木"@, "造型"@, "音频"@, "总量"@]
}

/// The file name of a path, or the whole path when it has none.
pub open spec fn file_label(path: Seq<char>) -> Seq<char> {
    match path_file_name(path) {
        Some(n) => n,
        None => path,
    }
}

/// The summary row of one project.
pub open spec fn summary_row(s: StatsView) -> Seq<Seq<char>> {
    seq![
        file_label(s.path),
        s.format.spec_name(),
        decimal(s.actors),
        decimal(s.blocks),
        decimal(s.costumes),
        decimal(s.sounds),
        decimal(view_total(s)),
    ]
}

/// The summary table of several projects; nothing when there is none.
pub open spec fn summary_text(all: Seq<StatsView>) -> Seq<char> {
    if all.len() == 0 {
        seq![]
    } else {
        table_text(summary_headers(), all.map_values(|s: StatsView| summary_row(s)))
    }
}

/// Turns string slices into owned strings.
fn owned_strings(v: &[&str]) -> (r: Vec<String>)
    ensures
        strings_view(r@) == v@.map_values(|s: &str| s@),
{
    let mut r: Vec<String> = Vec::new();
    let mut i: usize = 0;
    while i < v.len()
        invariant
            i <= v.len(),
            strings_view(r@) == v@.take(i as int).map_values(|s: &str| s@),
        decreases v.len() - i,
    {
        let ghost before = r@;
        let o = v[i].to_owned();
        r.push(o);
        assert(strings_view(r@) =~= strings_view(before).push(v@[i as int]@));
        assert(v@.take(i + 1) =~= v@.take(i as int).push(v@[i as int]));
        i += 1;
        assert(strings_view(r@) =~= v@.take(i as int).map_values(|s: &str| s@));
    }
    assert(v@.take(v.len() as int) =~= v@);
    r
}

/// The summary table of several projects (one row each: file name, format, actors,
/// blocks, costumes, sounds, total); empty when there is no project.
pub fn summary_table(all: &[ProjectStats]) -> (r: String)
    requires
        forall|i: int| 0 <= i < all@.len() ==> counts_fit(#[trigger] all@[i]@),
    ensures
        r@ == summary_text(stats_views(all@)),
{
    if all.len() == 0 {
        return String::new();
    }
    let headers = owned_strings(&["文件", "格式", "角色", "积木", "造型", "音频", "总量"]);
    assert(strings_view(headers@) =~= summary_headers());
    let ghost views = stats_views(all@);
    let mut rows: Vec<Vec<String>> = Vec::new();
    let mut i: usize = 0;
    while i < all.len()
        invariant
            i <= all.len(),
            views == stats_views(all@),
            forall|k: int| 0 <= k < all@.len() ==> counts_fit(#[trigger] all@[k]@),
            rows_view(rows@) == views.take(i as int).map_values(|s: StatsView| summary_row(s)),
            forall|k: int| 0 <= k < rows@.len() ==> #[trigger] rows@[k].len() == 7,
        decreases all.len() - i,
    {
        let s = &all[i];
        assert(counts_fit(all@[i as int]@));
        let label = match file_name(s.path.as_str()) {
            Some(n) => n,
            None => s.path.clone(),
        };
        let mut row: Vec<String> = Vec::new();
        row.push(label);
        row.push(s.format.name().to_owned());
        row.push(crate::text::decimal_string(s.actors));
        row.push(crate::text::decimal_string(s.blocks));
        row.push(crate::text::decimal_string(s.costumes));
        row.push(crate::text::decimal_string(s.sounds));
        row.push(crate::text::decimal_string(s.total()));
        assert(strings_view(row@) =~= summary_row(s@));
        assert(views[i as int] == s@);
        let ghost before = rows@;
        rows.push(row);
        assert(rows_view(rows@) =~= rows_view(before).push(summary_row(s@)));
        assert(views.take(i + 1) =~= views.take(i as int).push(views[i as int]));
        i += 1;
        assert(rows_view(rows@) =~= views.take(i as int).map_values(|s: StatsView| summary_row(s)));
    }
    assert(views.take(all.len() as int) =~= views);
    render_table(&headers, &rows)
}

// ---------------------------------------------------------------- details

/// The widest owner name of the costume groups (by display width).
pub open spec fn owner_width(groups: Seq<(Seq<char>, Seq<Seq<char>>)>) -> nat
    decreases groups.len(),
{
    if groups.len() == 0 {
        0
    } else {
        max_nat(owner_width(groups.drop_last()), spec_display_width(groups.last().0))
    }
}

/// The separator put before a costume name: none at the start of a line.
pub open spec fn names_sep(line: Seq<char>) -> Seq<char> {
    if line.len() == 0 {
        seq![]
    } else {
        "、 "@
    }
}

/// Lays costume names out after `lead`, as many per line as fit in 96 cells
/// (counting `prefix` cells for the lead): the finished lines, and the open line.
pub open spec fn wrap_names(names: Seq<Seq<char>>, lead: Seq<char>, prefix: nat) -> (
    Seq<char>,
    Seq<char>,
)
    decreases names.len(),
{
    if names.len() == 0 {
        (seq![], seq![])
    } else {
        let prev = wrap_names(names.drop_last(), lead, prefix);
        let name = names.last();
        let line = prev.1;
        let sep = names_sep(line);
        if prefix + spec_display_width(line) + spec_display_width(sep) + spec_display_width(name)
            > 96 && line.len() > 0 {
            (prev.0 + lead + line + seq!['\n'], name)
        } else {
            (prev.0, line + sep + name)
        }
    }
}

/// The lead of an owner's lines: two spaces, the owner padded with spaces to `ow`
/// display cells, two spaces; so the names of every owner start at the same column.
pub open spec fn owner_lead(owner: Seq<char>, ow: nat) -> Seq<char> {
    seq![' ', ' '] + padded(owner, ow) + seq![' ', ' ']
}

/// The lines listing one owner's costume names.
pub open spec fn owner_lines(owner: Seq<char>, names: Seq<Seq<char>>, ow: nat) -> Seq<char> {
    let lead = owner_lead(owner, ow);
    if names.len() == 0 {
        lead + "（无）"@ + seq!['\n']
    } else {
        let w = wrap_names(names, lead, ow + 4);
        w.0 + lead + w.1 + seq!['\n']
    }
}

/// The lines of the given costume groups.
pub open spec fn groups_lines(groups: Seq<(Seq<char>, Seq<Seq<char>>)>, ow: nat) -> Seq<char>
    decreases groups.len(),
{
    if groups.len() == 0 {
        seq![]
    } else {
        groups_lines(groups.drop_last(), ow) + owner_lines(groups.last().0, groups.last().1, ow)
    }
}

/// The costume-name section; nothing without costume groups.
pub open spec fn costume_section(groups: Seq<(Seq<char>, Seq<Seq<char>>)>) -> Seq<char> {
    if groups.len() == 0 {
        seq![]
    } else {
        seq!['\n'] + "造型名（按角色/动画分组）:"@ + seq!['\n'] + groups_lines(
            groups,
            owner_width(groups),
        )
    }
}

/// The headers of the group table.
pub open spec fn group_headers() -> Seq<Seq<char>> {
    seq!["分组(角色/舞台)"@, "积木"@, "造型"@, "音频"@]
}

/// The row of one group.
pub open spec fn group_row(g: GroupView) -> Seq<Seq<char>> {
    seq![g.name, decimal(g.blocks), decimal(g.costumes), decimal(g.sounds)]
}

/// The group table; nothing without groups.
pub open spec fn group_section(groups: Seq<GroupView>) -> Seq<char> {
    if groups.len() == 0 {
        seq![]
    } else {
        seq!['\n'] + table_text(group_headers(), groups.map_values(|g: GroupView| group_row(g)))
    }
}

/// The title line of a project's details.
pub open spec fn title_line(s: StatsView) -> Seq<char> {
    seq!['\n'] + "══ "@ + s.path + " ["@ + s.format.spec_name() + "] ══"@ + seq!['\n']
}

/// The counts line of a project's details.
pub open spec fn counts_line(s: StatsView) -> Seq<char> {
    "角色/目标: "@ + decimal(s.actors) + "   积木: "@ + decimal(s.blocks) + "   造型: "@ + decimal(
        s.costumes,
    ) + "   音频: "@ + decimal(s.sounds) + "   总量: "@ + decimal(view_total(s)) + seq!['\n']
}

/// The shadow-block line of a project's details; nothing without shadow blocks.
pub open spec fn shadow_line(s: StatsView) -> Seq<char> {
    if s.shadow_blocks > 0 {
        "（另含影子/输入积木 "@ + decimal(s.shadow_blocks) + " 个，未计入积木总量）"@ + seq!['\n']
    } else {
        seq![]
    }
}

/// The title line, the counts line and, when there are shadow blocks, their line.
pub open spec fn detail_head(s: StatsView) -> Seq<char> {
    title_line(s) + counts_line(s) + shadow_line(s)
}

/// The detail report of one project.
pub open spec fn detail_text(s: StatsView) -> Seq<char> {
    detail_head(s) + costume_section(s.costume_groups) + group_section(s.groups)
}

/// Appends the lines listing one owner's costume names.
fn push_owner_lines(out: &mut String, owner: &String, names: &Vec<String>, ow: usize)
    ensures
        final(out)@ == old(out)@ + owner_lines(owner@, strings_view(names@), ow as nat),
{
    let ghost nv = strings_view(names@);
    let ghost lead_v = owner_lead(owner@, ow as nat);
    let odw = display_width(owner.as_str());
    let mut lead = String::new();
    push_char(&mut lead, ' ');
    push_char(&mut lead, ' ');
    push_str(&mut lead, owner.as_str());
    let pad: usize = if ow >= odw {
        ow - odw
    } else {
        0
    };
    let mut p: usize = 0;
    let ghost base = lead@;
    while p < pad
        invariant
            p <= pad,
            lead@ == base + repeat_char(' ', p as nat),
        decreases pad - p,
    {
        push_char(&mut lead, ' ');
        p += 1;
        assert(lead@ =~= base + repeat_char(' ', p as nat));
    }
    push_char(&mut lead, ' ');
    push_char(&mut lead, ' ');
    assert(lead@ =~= lead_v);
    if names.len() == 0 {
        push_str(out, lead.as_str());
        push_str(out, "（无）");
        push_char(out, '\n');
        return;
    }
    let prefix: u128 = ow as u128 + 4;
    let sep_width = display_width("、 ");
    let ghost start = out@;
    let mut line = String::new();
    let mut i: usize = 0;
    while i < names.len()
        invariant
            i <= names.len(),
            nv == strings_view(names@),
            lead@ == lead_v,
            prefix == ow + 4,
            sep_width == spec_display_width("、 "@),
            out@ == start + wrap_names(nv.take(i as int), lead_v, ow as nat + 4).0,
            line@ == wrap_names(nv.take(i as int), lead_v, ow as nat + 4).1,
        decreases names.len() - i,
    {
        assert(nv.take(i + 1).drop_last() =~= nv.take(i as int));
        assert(nv.take(i + 1).last() == names@[i as int]@);
        let name = &names[i];
        let open = !line.as_str().is_empty();
        let sw: usize = if open {
            sep_width
        } else {
            0
        };
        assert(sw == spec_display_width(names_sep(line@)));
        let total: u128 = prefix + display_width(line.as_str()) as u128 + sw as u128
            + display_width(name.as_str()) as u128;
        if total > 96 && open {
            push_str(out, lead.as_str());
            push_str(out, line.as_str());
            push_char(out, '\n');
            line = String::new();
        }
        if !line.as_str().is_empty() {
            push_str(&mut line, "、 ");
        }
        push_str(&mut line, name.as_str());
        i += 1;
    }
    assert(nv.take(names.len() as int) =~= nv);
    push_str(out, lead.as_str());
    push_str(out, line.as_str());
    push_char(out, '\n');
}

fn push_title_line(out: &mut String, stats: &ProjectStats)
    ensures
        final(out)@ == old(out)@ + title_line(stats@),
{
    let ghost start = out@;
    push_char(out, '\n');
    push_str(out, "══ ");
    push_str(out, stats.path.as_str());
    push_str(out, " [");
    push_str(out, stats.format.name());
    push_str(out, "] ══");
    push_char(out, '\n');
    assert(out@ =~= start + title_line(stats@));
}

fn push_labeled(out: &mut String, label: &str, n: u64)
    ensures
        final(out)@ == old(out)@ + label@ + decimal(n as nat),
{
    let ghost start = out@;
    push_str(out, label);
    push_decimal(out, n);
    assert(out@ =~= start + label@ + decimal(n as nat));
}

fn push_counts_line(out: &mut String, stats: &ProjectStats)
    requires
        counts_fit(stats@),
    ensures
        final(out)@ == old(out)@ + counts_line(stats@),
{
    let ghost start = out@;
    push_labeled(out, "角色/目标: ", stats.actors);
    push_labeled(out, "   积木: ", stats.blocks);
    push_labeled(out, "   造型: ", stats.costumes);
    push_labeled(out, "   音频: ", stats.sounds);
    push_labeled(out, "   总量: ", stats.total());
    push_char(out, '\n');
    assert(out@ =~= start + counts_line(stats@));
}

fn push_shadow_line(out: &mut String, stats: &ProjectStats)
    ensures
        final(out)@ == old(out)@ + shadow_line(stats@),
{
    let ghost start = out@;
    if stats.shadow_blocks > 0 {
        push_labeled(out, "（另含影子/输入积木 ", stats.shadow_blocks);
        push_str(out, " 个，未计入积木总量）");
        push_char(out, '\n');
    }
    assert(out@ =~= start + shadow_line(stats@));
}

fn push_costume_section(out: &mut String, stats: &ProjectStats)
    ensures
        final(out)@ == old(out)@ + costume_section(stats@.costume_groups),
{
    let ghost head = out@;
    let ghost cg = stats@.costume_groups;
    if stats.costume_groups.len() == 0 {
        assert(out@ =~= head + costume_section(cg));
        return;
    }
    push_char(out, '\n');
    push_str(out, "造型名（按角色/动画分组）:");
    push_char(out, '\n');
    let mut ow: usize = 0;
    let mut i: usize = 0;
    while i < stats.costume_groups.len()
        invariant
            i <= stats.costume_groups.len(),
            cg == stats@.costume_groups,
            ow == owner_width(cg.take(i as int)),
        decreases stats.costume_groups.len() - i,
    {
        assert(cg.take(i + 1).drop_last() =~= cg.take(i as int));
        assert(cg.take(i + 1).last().0 == stats.costume_groups@[i as int].0@);
        let w = display_width(stats.costume_groups[i].0.as_str());
        if w > ow {
            ow = w;
        }
        i += 1;
    }
    assert(cg.take(cg.len() as int) =~= cg);
    let ghost titled = out@;
    let mut k: usize = 0;
    while k < stats.costume_groups.len()
        invariant
            k <= stats.costume_groups.len(),
            cg == stats@.costume_groups,
            ow == owner_width(cg),
            out@ == titled + groups_lines(cg.take(k as int), ow as nat),
        decreases stats.costume_groups.len() - k,
    {
        assert(cg.take(k + 1).drop_last() =~= cg.take(k as int));
        assert(cg.take(k + 1).last() == cg[k as int]);
        let group = &stats.costume_groups[k];
        assert(cg[k as int] == (group.0@, strings_view(group.1@)));
        push_owner_lines(out, &group.0, &group.1, ow);
        k += 1;
    }
    assert(cg.take(cg.len() as int) =~= cg);
    assert(out@ =~= head + costume_section(cg));
}

fn push_group_section(out: &mut String, stats: &ProjectStats)
    ensures
        final(out)@ == old(out)@ + group_section(stats@.groups),
{
    let ghost start = out@;
    let ghost gv = stats@.groups;
    if stats.groups.len() == 0 {
        assert(out@ =~= start + group_section(gv));
        return;
    }
    push_char(out, '\n');
    let headers = owned_strings(&["分组(角色/舞台)", "积木", "造型", "音频"]);
    assert(strings_view(headers@) =~= group_headers());
    let mut rows: Vec<Vec<String>> = Vec::new();
    let mut i: usize = 0;
    while i < stats.groups.len()
        invariant
            i <= stats.groups.len(),
            gv == stats@.groups,
            gv == stats.groups@.map_values(|g: GroupStat| g@),
            rows_view(rows@) == gv.take(i as int).map_values(|g: GroupView| group_row(g)),
            forall|k: int| 0 <= k < rows@.len() ==> #[trigger] rows@[k].len() == 4,
        decreases stats.groups.len() - i,
    {
        let g = &stats.groups[i];
        let mut row: Vec<String> = Vec::new();
        row.push(g.name.clone());
        row.push(crate::text::decimal_string(g.blocks));
        row.push(crate::text::decimal_string(g.costumes));
        row.push(crate::text::decimal_string(g.sounds));
        assert(strings_view(row@) =~= group_row(g@));
        assert(gv[i as int] == g@);
        let ghost before = rows@;
        rows.push(row);
        assert(rows_view(rows@) =~= rows_view(before).push(group_row(g@)));
        assert(gv.take(i + 1) =~= gv.take(i as int).push(gv[i as int]));
        i += 1;
    }
    assert(gv.take(gv.len() as int) =~= gv);
    let table = render_table(&headers, &rows);
    push_str(out, table.as_str());
    assert(out@ =~= start + group_section(gv));
}

/// The detail report of one project: a title line, the counts (with the shadow blocks
/// apart), the costume names by owner wrapped to 96 cells, and the table of groups.
pub fn detail(stats: &ProjectStats) -> (r: String)
    requires
        counts_fit(stats@),
    ensures
        r@ == detail_text(stats@),
{
    let mut out = String::new();
    push_title_line(&mut out, stats);
    push_counts_line(&mut out, stats);
    push_shadow_line(&mut out, stats);
    push_costume_section(&mut out, stats);
    push_group_section(&mut out, stats);
    assert(out@ =~= detail_text(stats@));
    out
}

// ---------------------------------------------------------------- CSV

/// A CSV field must be quoted when it holds a comma, a double quote or a newline.
pub open spec fn needs_quoting(s: Seq<char>) -> bool {
    s.contains(',') || s.contains('"') || s.contains('\n')
}

/// `s` with every double quote doubled.
pub open spec fn double_quotes(s: Seq<char>) -> Seq<char>
    decreases s.len(),
{
    if s.len() == 0 {
        seq![]
    } else {
        double_quotes(s.drop_last()) + if s.last() == '"' {
            seq!['"', '"']
        } else {
            seq![s.last()]
        }
    }
}

/// `s` as a CSV field: quoted, with inner quotes doubled, when it needs quoting.
pub open spec fn csv_field(s: Seq<char>) -> Seq<char> {
    if needs_quoting(s) {
        seq!['"'] + double_quotes(s) + seq!['"']
    } else {
        s
    }
}

/// Quotes `s` as a CSV field when it holds a comma, a double quote or a newline.
pub fn csv_escape(s: &str) -> (r: String)
    ensures
        r@ == csv_field(s@),
{
    let cs = str_chars(s);
    let mut quote = false;
    let mut i: usize = 0;
    while i < cs.len()
        invariant
            i <= cs.len(),
            cs@ == s@,
            quote == (exists|j: int|
                0 <= j < i && (cs@[j] == ',' || cs@[j] == '"' || cs@[j] == '\n')),
        decreases cs.len() - i,
    {
        if cs[i] == ',' || cs[i] == '"' || cs[i] == '\n' {
            quote = true;
        }
        i += 1;
    }
    assert(quote == needs_quoting(s@)) by {
        if quote {
            let j = choose|j: int| 0 <= j < i && (cs@[j] == ',' || cs@[j] == '"' || cs@[j] == '\n');
            assert(s@[j] == cs@[j]);
        }
        if s@.contains(',') {
            let j = choose|j: int| 0 <= j < s@.len() && s@[j] == ',';
            assert(cs@[j] == ',');
        }
        if s@.contains('"') {
            let j = choose|j: int| 0 <= j < s@.len() && s@[j] == '"';
            assert(cs@[j] == '"');
        }
        if s@.contains('\n') {
            let j = choose|j: int| 0 <= j < s@.len() && s@[j] == '\n';
            assert(cs@[j] == '\n');
        }
    }
    let mut out = String::new();
    if !quote {
        push_chars(&mut out, &cs);
        return out;
    }
    push_char(&mut out, '"');
    let mut k: usize = 0;
    while k < cs.len()
        invariant
            k <= cs.len(),
            cs@ == s@,
            out@ == seq!['"'] + double_quotes(cs@.take(k as int)),
        decreases cs.len() - k,
    {
        assert(cs@.take(k + 1).drop_last() =~= cs@.take(k as int));
        let ghost before = out@;
        if cs[k] == '"' {
            push_char(&mut out, '"');
            push_char(&mut out, '"');
            assert(out@ =~= before + seq!['"', '"']);
        } else {
            push_char(&mut out, cs[k]);
            assert(out@ =~= before + seq![cs@[k as int]]);
        }
        k += 1;
    }
    assert(cs@.take(cs.len() as int) =~= cs@);
    push_char(&mut out, '"');
    assert(out@ =~= seq!['"'] + double_quotes(s@) + seq!['"']);
    out
}

/// The column names of the CSV report.
pub open spec fn csv_header_fields() -> Seq<Seq<char>> {
    seq![
        "file"@,
        "format"@,
        "group"@,
        "actors"@,
        "blocks"@,
        "shadow_blocks"@,
        "costumes"@,
        "sounds"@,
        "total"@,
    ]
}

/// The header line of the CSV report: the column names, comma-separated.
pub open spec fn csv_header() -> Seq<char> {
    "file"@ + seq![','] + "format"@ + seq![','] + "group"@ + seq![','] + "actors"@ + seq![',']
        + "blocks"@ + seq![','] + "shadow_blocks"@ + seq![','] + "costumes"@ + seq![','] + "sounds"@
        + seq![','] + "total"@ + seq!['\n']
}

fn push_csv_header(out: &mut String)
    ensures
        final(out)@ == old(out)@ + csv_header(),
{
    let ghost start = out@;
    push_str(out, "file");
    push_char(out, ',');
    push_str(out, "format");
    push_char(out, ',');
    push_str(out, "group");
    push_char(out, ',');
    push_str(out, "actors");
    push_char(out, ',');
    push_str(out, "blocks");
    push_char(out, ',');
    push_str(out, "shadow_blocks");
    push_char(out, ',');
    push_str(out, "costumes");
    push_char(out, ',');
    push_str(out, "sounds");
    push_char(out, ',');
    push_str(out, "total");
    push_char(out, '\n');
    assert(out@ =~= start + csv_header());
}

/// The counts of a CSV line, each after a comma, then the line end.
pub open spec fn csv_counts(n: Seq<nat>) -> Seq<char>
    decreases n.len(),
{
    if n.len() == 0 {
        seq!['\n']
    } else {
        seq![','] + decimal(n[0]) + csv_counts(n.drop_first())
    }
}

/// One CSV line: file, format, group, then the counts.
pub open spec fn csv_row(file: Seq<char>, fmt: Seq<char>, group: Seq<char>, n: Seq<nat>) -> Seq<
    char,
> {
    file + seq![','] + fmt + seq![','] + group + csv_counts(n)
}

/// The CSV lines of the given groups of a project.
pub open spec fn csv_group_rows(s: StatsView, gs: Seq<GroupView>) -> Seq<char>
    decreases gs.len(),
{
    if gs.len() == 0 {
        seq![]
    } else {
        let g = gs.last();
        csv_group_rows(s, gs.drop_last()) + csv_row(
            csv_field(s.path),
            s.format.spec_name(),
            csv_field(g.name),
            seq![
                s.actors,
                g.blocks,
                s.shadow_blocks,
                g.costumes,
                g.sounds,
                g.blocks + g.costumes + g.sounds,
            ],
        )
    }
}

/// The CSV line of a project as a whole (its group field empty).
pub open spec fn csv_project_row(s: StatsView) -> Seq<char> {
    csv_row(
        csv_field(s.path),
        s.format.spec_name(),
        seq![],
        seq![s.actors, s.blocks, s.shadow_blocks, s.costumes, s.sounds, view_total(s)],
    )
}

/// The CSV lines of one project: its own line, followed by one line per group.
pub open spec fn csv_project_rows(s: StatsView) -> Seq<char> {
    csv_project_row(s) + csv_group_rows(s, s.groups)
}

/// The CSV lines of the given projects, in order.
pub open spec fn csv_rows(all: Seq<StatsView>) -> Seq<char>
    decreases all.len(),
{
    if all.len() == 0 {
        seq![]
    } else {
        csv_rows(all.drop_last()) + csv_project_rows(all.last())
    }
}

/// The CSV report.
pub open spec fn csv_text(all: Seq<StatsView>) -> Seq<char> {
    csv_header() + csv_rows(all)
}

fn push_csv_row(out: &mut String, file: &String, fmt: &str, group: &String, n: [u64; 6])
    ensures
        final(out)@ == old(out)@ + csv_row(file@, fmt@, group@, n@.map_values(|x: u64| x as nat)),
{
    let ghost start = out@;
    let ghost ns = n@.map_values(|x: u64| x as nat);
    push_str(out, file.as_str());
    push_char(out, ',');
    push_str(out, fmt);
    push_char(out, ',');
    push_str(out, group.as_str());
    let ghost lead = out@;
    assert(lead =~= start + file@ + seq![','] + fmt@ + seq![','] + group@);
    let mut k: usize = 0;
    assert(ns.skip(0) =~= ns);
    while k < 6
        invariant
            k <= 6,
            ns == n@.map_values(|x: u64| x as nat),
            out@ + csv_counts(ns.skip(k as int)) == lead + csv_counts(ns),
        decreases 6 - k,
    {
        let ghost before = out@;
        assert(ns.skip(k as int).drop_first() =~= ns.skip(k + 1));
        assert(ns.skip(k as int)[0] == n[k as int] as nat);
        push_char(out, ',');
        push_decimal(out, n[k]);
        assert(out@ =~= before + seq![','] + decimal(n[k as int] as nat));
        k += 1;
    }
    assert(csv_counts(ns.skip(6)) =~= seq!['\n']);
    push_char(out, '\n');
    assert(out@ =~= lead + csv_counts(ns));
}

/// The CSV report (UTF-8, header first): for each project its own line, followed by
/// one line per group of that project.
pub fn to_csv(all: &[ProjectStats]) -> (r: String)
    requires
        forall|i: int| 0 <= i < all@.len() ==> view_fits(#[trigger] all@[i]@),
    ensures
        r@ == csv_text(stats_views(all@)),
{
    let mut out = String::new();
    push_csv_header(&mut out);
    let ghost views = stats_views(all@);
    let mut i: usize = 0;
    while i < all.len()
        invariant
            i <= all.len(),
            views == stats_views(all@),
            forall|k: int| 0 <= k < all@.len() ==> view_fits(#[trigger] all@[k]@),
            out@ == csv_header() + csv_rows(views.take(i as int)),
        decreases all.len() - i,
    {
        let s = &all[i];
        assert(views.take(i + 1).drop_last() =~= views.take(i as int));
        assert(views.take(i + 1).last() == s@);
        assert(view_fits(all@[i as int]@));
        let file = csv_escape(s.path.as_str());
        let fmt = s.format.name();
        let empty = String::new();
        let total = s.total();
        let ghost arr = [s.actors, s.blocks, s.shadow_blocks, s.costumes, s.sounds, total];
        assert(arr@.map_values(|x: u64| x as nat) =~= seq![
            s@.actors,
            s@.blocks,
            s@.shadow_blocks,
            s@.costumes,
            s@.sounds,
            view_total(s@),
        ]);
        push_csv_row(
            &mut out,
            &file,
            fmt,
            &empty,
            [s.actors, s.blocks, s.shadow_blocks, s.costumes, s.sounds, total],
        );
        let ghost gviews = s@.groups;
        let ghost before = out@;
        let mut j: usize = 0;
        while j < s.groups.len()
            invariant
                j <= s.groups.len(),
                gviews == s@.groups,
                gviews == s.groups@.map_values(|g: GroupStat| g@),
                view_fits(s@),
                file@ == csv_field(s@.path),
                fmt@ == s@.format.spec_name(),
                out@ == before + csv_group_rows(s@, gviews.take(j as int)),
            decreases s.groups.len() - j,
        {
            let g = &s.groups[j];
            assert(gviews.take(j + 1).drop_last() =~= gviews.take(j as int));
            assert(gviews.take(j + 1).last() == g@);
            assert(gviews[j as int] == g@);
            assert(s@.groups[j as int].blocks + s@.groups[j as int].costumes
                + s@.groups[j as int].sounds <= u64::MAX);
            let gname = csv_escape(g.name.as_str());
            push_csv_row(
                &mut out,
                &file,
                fmt,
                &gname,
                [s.actors, g.blocks, s.shadow_blocks, g.costumes, g.sounds, g.blocks + g.costumes
                    + g.sounds],
            );
            let ghost arr = [s.actors, g.blocks, s.shadow_blocks, g.costumes, g.sounds, (g.blocks + g.costumes + g.sounds) as u64];
            assert(arr@.map_values(|x: u64| x as nat) =~= seq![
                s@.actors,
                g@.blocks,
                s@.shadow_blocks,
                g@.costumes,
                g@.sounds,
                g@.blocks + g@.costumes + g@.sounds,
            ]);
            assert(out@ =~= before + csv_group_rows(s@, gviews.take(j + 1)));
            j += 1;
        }
        assert(gviews.take(gviews.len() as int) =~= gviews);
        assert(out@ =~= csv_header() + csv_rows(views.take(i as int)) + csv_project_rows(s@));
        i += 1;
    }
    assert(views.take(views.len() as int) =~= views);
    out
}


/// `s` with each doubled double quote read back as one.
pub open spec fn undouble_quotes(s: Seq<char>) -> Seq<char>
    decreases s.len(),
{
    if s.len() >= 2 && s.last() == '"' && s[s.len() - 2] == '"' {
        undouble_quotes(s.take(s.len() - 2)).push('"')
    } else if s.len() == 0 {
        seq![]
    } else {
        undouble_quotes(s.drop_last()).push(s.last())
    }
}

/// The text of a CSV field: a quoted field is unquoted and its doubled quotes undone.
pub open spec fn csv_unfield(f: Seq<char>) -> Seq<char> {
    if f.len() >= 2 && f[0] == '"' && f.last() == '"' {
        undouble_quotes(f.subrange(1, f.len() - 1))
    } else {
        f
    }
}

proof fn lemma_undouble_double(s: Seq<char>)
    ensures
        undouble_quotes(double_quotes(s)) == s,
    decreases s.len(),
{
    if s.len() > 0 {
        lemma_undouble_double(s.drop_last());
        let d = double_quotes(s);
        let p = double_quotes(s.drop_last());
        if s.last() == '"' {
            assert(d == p + seq!['"', '"']);
            assert(d.take(d.len() - 2) =~= p);
        } else {
            assert(d == p + seq![s.last()]);
            assert(d.drop_last() =~= p);
        }
        assert(s.drop_last().push(s.last()) =~= s);
    }
}

/// A CSV field unquotes back to the text it was made from: what `csv_escape` writes,
/// stripped of its surrounding quotes and with each doubled quote made single again, is
/// the text it was given.
pub proof fn csv_field_reads_back(s: Seq<char>)
    ensures
        csv_unfield(csv_field(s)) == s,
{
    if needs_quoting(s) {
        let f = seq!['"'] + double_quotes(s) + seq!['"'];
        assert(f.subrange(1, f.len() - 1) =~= double_quotes(s));
        lemma_undouble_double(s);
    } else {
        if s.len() >= 2 && s[0] == '"' {
            assert(s.contains('"'));
        }
    }
}

proof fn lemma_rows_col_width_bounds_cell(rows: Seq<Seq<Seq<char>>>, k: int, i: int)
    requires
        0 <= k < rows.len(),
        0 <= i < rows[k].len(),
    ensures
        spec_display_width(rows[k][i]) <= rows_col_width(rows, i),
    decreases rows.len(),
{
    if k < rows.len() - 1 {
        lemma_rows_col_width_bounds_cell(rows.drop_last(), k, i);
    }
}

proof fn lemma_width_of_padded(c: Seq<char>, w: nat)
    requires
        spec_display_width(c) <= w,
    ensures
        spec_display_width(padded(c, w)) == w,
{
    let n = (w - spec_display_width(c)) as nat;
    crate::text::display_width_concat(c, repeat_char(' ', n));
    lemma_width_of_spaces(n);
}

proof fn lemma_width_of_spaces(n: nat)
    ensures
        spec_display_width(repeat_char(' ', n)) == n,
    decreases n,
{
    if n > 0 {
        lemma_width_of_spaces((n - 1) as nat);
        assert(repeat_char(' ', n).drop_first() =~= repeat_char(' ', (n - 1) as nat));
    }
}

/// Tables line up: in a rendered table every header and every cell is padded to exactly
/// its column's width, which is at least the display width of each of them.
pub proof fn table_cells_line_up(headers: Seq<Seq<char>>, rows: Seq<Seq<Seq<char>>>, i: int)
    requires
        0 <= i < headers.len(),
    ensures
        spec_display_width(headers[i]) <= col_widths(headers, rows)[i],
        spec_display_width(padded(headers[i], col_widths(headers, rows)[i])) == col_widths(
            headers,
            rows,
        )[i],
        forall|k: int|
            0 <= k < rows.len() && i < rows[k].len() ==> spec_display_width(#[trigger] rows[k][i])
                <= col_widths(headers, rows)[i] && spec_display_width(
                padded(rows[k][i], col_widths(headers, rows)[i]),
            ) == col_widths(headers, rows)[i],
{
    let w = col_widths(headers, rows)[i];
    lemma_width_of_padded(headers[i], w);
    assert forall|k: int| 0 <= k < rows.len() && i < rows[k].len() implies spec_display_width(
        #[trigger] rows[k][i],
    ) <= w && spec_display_width(padded(rows[k][i], w)) == w by {
        lemma_rows_col_width_bounds_cell(rows, k, i);
        lemma_width_of_padded(rows[k][i], w);
    }
}


proof fn lemma_owner_width_bounds(groups: Seq<(Seq<char>, Seq<Seq<char>>)>, k: int)
    requires
        0 <= k < groups.len(),
    ensures
        spec_display_width(groups[k].0) <= owner_width(groups),
    decreases groups.len(),
{
    if k < groups.len() - 1 {
        lemma_owner_width_bounds(groups.drop_last(), k);
    }
}

/// Costume names line up: the lead of every owner's lines (two spaces, the padded owner,
/// two spaces) takes exactly the widest owner's width plus 4 cells, so the names start at
/// the same display column on every line.
pub proof fn costume_names_line_up(groups: Seq<(Seq<char>, Seq<Seq<char>>)>, k: int)
    requires
        0 <= k < groups.len(),
    ensures
        spec_display_width(owner_lead(groups[k].0, owner_width(groups))) == owner_width(groups)
            + 4,
{
    let ow = owner_width(groups);
    lemma_owner_width_bounds(groups, k);
    lemma_width_of_padded(groups[k].0, ow);
    let two = seq![' ', ' '];
    assert(spec_display_width(two) == 2) by {
        assert(two.drop_first() =~= seq![' ']);
        let one = seq![' '];
        assert(spec_display_width(one) == 1) by {
            assert(one[0] == ' ');
            assert(spec_display_width(one.drop_first()) == 0) by {
                assert(one.drop_first() =~= Seq::<char>::empty());
            }
            assert((' ' as u32) == 32);
            assert(!crate::text::is_wide(' '));
        }
    }
    crate::text::display_width_concat(two, padded(groups[k].0, ow));
    crate::text::display_width_concat(two + padded(groups[k].0, ow), two);
}

} // verus!
