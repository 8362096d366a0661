//! Reading the CSV report back, field by field (RFC 4180: a field is either quoted, with
//! doubled quotes inside, or runs up to the next comma or line end).

use vstd::prelude::*;

use crate::model::{view_total, Format, GroupView, StatsView};
use crate::report::{csv_field, csv_group_rows, csv_header, csv_header_fields, csv_rows, csv_text, double_quotes, needs_quoting};
use crate::text::decimal;

verus! {

/// Reads an unquoted field: up to the next comma or line end.
pub open spec fn read_plain(s: Seq<char>) -> (Seq<char>, Seq<char>)
    decreases s.len(),
{
    if s.len() == 0 || s[0] == ',' || s[0] == '\n' {
        (seq![], s)
    } else {
        let r = read_plain(s.drop_first());
        (seq![s[0]] + r.0, r.1)
    }
}

/// Reads the inside of a quoted field, after its opening quote: up to the closing quote
/// (which is consumed), a doubled quote standing for one quote.
pub open spec fn read_quoted(s: Seq<char>) -> (Seq<char>, Seq<char>)
    decreases s.len(),
{
    if s.len() == 0 {
        (seq![], s)
    } else if s[0] == '"' {
        if s.len() >= 2 && s[1] == '"' {
            let r = read_quoted(s.skip(2));
            (seq!['"'] + r.0, r.1)
        } else {
            (seq![], s.drop_first())
        }
    } else {
        let r = read_quoted(s.drop_first());
        (seq![s[0]] + r.0, r.1)
    }
}

/// Reads one field: its text, and what follows it.
pub open spec fn read_field(s: Seq<char>) -> (Seq<char>, Seq<char>) {
    if s.len() > 0 && s[0] == '"' {
        read_quoted(s.drop_first())
    } else {
        read_plain(s)
    }
}

/// Reads a record of exactly `n` fields (`n` at least 1): fields separated by commas, the
/// last one ended by a line end. `None` when the text holds no such record.
pub open spec fn read_record(s: Seq<char>, n: nat) -> Option<(Seq<Seq<char>>, Seq<char>)>
    decreases n,
{
    let (f, r) = read_field(s);
    if n <= 1 {
        if r.len() > 0 && r[0] == '\n' {
            Some((seq![f], r.drop_first()))
        } else {
            None
        }
    } else if r.len() > 0 && r[0] == ',' {
        match read_record(r.drop_first(), (n - 1) as nat) {
            Some((fs, rest)) => Some((seq![f] + fs, rest)),
            None => None,
        }
    } else {
        None
    }
}

/// Reads `k` records of 9 fields each.
pub open spec fn read_records(s: Seq<char>, k: nat) -> Option<(Seq<Seq<Seq<char>>>, Seq<char>)>
    decreases k,
{
    if k == 0 {
        Some((seq![], s))
    } else {
        match read_record(s, 9) {
            Some((r, rest)) => match read_records(rest, (k - 1) as nat) {
                Some((rs, rest2)) => Some((seq![r] + rs, rest2)),
                None => None,
            },
            None => None,
        }
    }
}

/// `x` holds no comma, double quote or line end.
pub open spec fn plain_text(x: Seq<char>) -> bool {
    forall|i: int| 0 <= i < x.len() ==> x[i] != ',' && x[i] != '"' && x[i] != '\n'
}

proof fn lemma_read_plain(x: Seq<char>, rest: Seq<char>)
    requires
        plain_text(x),
        rest.len() > 0,
        rest[0] == ',' || rest[0] == '\n',
    ensures
        read_plain(x + rest) == (x, rest),
    decreases x.len(),
{
    if x.len() == 0 {
        assert(x + rest =~= rest);
    } else {
        assert((x + rest).drop_first() =~= x.drop_first() + rest);
        lemma_read_plain(x.drop_first(), rest);
        assert(seq![x[0]] + x.drop_first() =~= x);
    }
}

proof fn lemma_double_quotes_concat(a: Seq<char>, b: Seq<char>)
    ensures
        double_quotes(a + b) == double_quotes(a) + double_quotes(b),
    decreases b.len(),
{
    if b.len() == 0 {
        assert(a + b =~= a);
        assert(double_quotes(a) + double_quotes(b) =~= double_quotes(a));
    } else {
        lemma_double_quotes_concat(a, b.drop_last());
        assert((a + b).drop_last() =~= a + b.drop_last());
        assert((a + b).last() == b.last());
        let tail = if b.last() == '"' {
            seq!['"', '"']
        } else {
            seq![b.last()]
        };
        assert(double_quotes(a) + double_quotes(b.drop_last()) + tail =~= double_quotes(a) + (
        double_quotes(b.drop_last()) + tail));
    }
}

proof fn lemma_read_quoted(x: Seq<char>, rest: Seq<char>)
    requires
        rest.len() > 0,
        rest[0] != '"',
    ensures
        read_quoted(double_quotes(x) + seq!['"'] + rest) == (x, rest),
    decreases x.len(),
{
    let s = double_quotes(x) + seq!['"'] + rest;
    if x.len() == 0 {
        assert(double_quotes(x) =~= Seq::<char>::empty());
        assert(s =~= seq!['"'] + rest);
        assert(s[1] == rest[0]);
        assert(s.drop_first() =~= rest);
    } else {
        let c = x[0];
        let t = x.drop_first();
        assert(x =~= seq![c] + t);
        lemma_double_quotes_concat(seq![c], t);
        lemma_read_quoted(t, rest);
        let dc = double_quotes(seq![c]);
        assert(seq![c].drop_last() =~= Seq::<char>::empty());
        assert(seq![c].last() == c);
        assert(double_quotes(Seq::<char>::empty()) =~= Seq::<char>::empty());
        assert(dc == double_quotes(seq![c].drop_last()) + if c == '"' {
            seq!['"', '"']
        } else {
            seq![c]
        });
        if c == '"' {
            assert(dc =~= seq!['"', '"']);
            assert(s =~= seq!['"', '"'] + (double_quotes(t) + seq!['"'] + rest));
            assert(s.skip(2) =~= double_quotes(t) + seq!['"'] + rest);
        } else {
            assert(dc =~= seq![c]);
            assert(s =~= seq![c] + (double_quotes(t) + seq!['"'] + rest));
            assert(s.drop_first() =~= double_quotes(t) + seq!['"'] + rest);
        }
    }
}

/// Reading a CSV field gives back its text, whatever separator follows it.
pub proof fn read_field_of_csv_field(x: Seq<char>, rest: Seq<char>)
    requires
        rest.len() > 0,
        rest[0] == ',' || rest[0] == '\n',
    ensures
        read_field(csv_field(x) + rest) == (x, rest),
{
    if needs_quoting(x) {
        let s = seq!['"'] + double_quotes(x) + seq!['"'] + rest;
        assert(csv_field(x) + rest =~= s);
        assert(s.drop_first() =~= double_quotes(x) + seq!['"'] + rest);
        lemma_read_quoted(x, rest);
    } else {
        assert(plain_text(x)) by {
            assert forall|i: int| 0 <= i < x.len() implies x[i] != ',' && x[i] != '"' && x[i]
                != '\n' by {
                if x[i] == ',' {
                    assert(x.contains(','));
                }
                if x[i] == '"' {
                    assert(x.contains('"'));
                }
                if x[i] == '\n' {
                    assert(x.contains('\n'));
                }
            }
        }
        if x.len() > 0 {
            assert((x + rest)[0] == x[0]);
        } else {
            assert(x + rest =~= rest);
        }
        lemma_read_plain(x, rest);
    }
}

/// A line of plain fields: comma-separated, ended by a line end.
pub open spec fn line_of(fs: Seq<Seq<char>>) -> Seq<char>
    decreases fs.len(),
{
    if fs.len() <= 1 {
        (if fs.len() == 1 {
            fs[0]
        } else {
            seq![]
        }) + seq!['\n']
    } else {
        fs[0] + seq![','] + line_of(fs.drop_first())
    }
}

proof fn lemma_plain_field(x: Seq<char>)
    requires
        plain_text(x),
    ensures
        csv_field(x) == x,
{
    if needs_quoting(x) {
        if x.contains(',') {
            let i = choose|i: int| 0 <= i < x.len() && x[i] == ',';
        }
        if x.contains('"') {
            let i = choose|i: int| 0 <= i < x.len() && x[i] == '"';
        }
        if x.contains('\n') {
            let i = choose|i: int| 0 <= i < x.len() && x[i] == '\n';
        }
    }
}

proof fn lemma_read_line(fs: Seq<Seq<char>>, rest: Seq<char>)
    requires
        fs.len() >= 1,
        forall|i: int| 0 <= i < fs.len() ==> plain_text(#[trigger] fs[i]),
    ensures
        read_record(line_of(fs) + rest, fs.len()) == Some((fs, rest)),
    decreases fs.len(),
{
    let f = fs[0];
    lemma_plain_field(f);
    if fs.len() == 1 {
        assert(line_of(fs) + rest =~= f + (seq!['\n'] + rest));
        read_field_of_csv_field(f, seq!['\n'] + rest);
        assert((seq!['\n'] + rest).drop_first() =~= rest);
        assert(seq![f] =~= fs);
    } else {
        let tail = fs.drop_first();
        assert(line_of(fs) + rest =~= f + (seq![','] + (line_of(tail) + rest)));
        read_field_of_csv_field(f, seq![','] + (line_of(tail) + rest));
        assert((seq![','] + (line_of(tail) + rest)).drop_first() =~= line_of(tail) + rest);
        lemma_read_line(tail, rest);
        assert(seq![f] + tail =~= fs);
    }
}

proof fn lemma_decimal_plain(n: nat)
    ensures
        plain_text(crate::text::decimal(n)),
        csv_field(crate::text::decimal(n)) == crate::text::decimal(n),
{
    crate::text::decimal_reads_back(n);
    let d = crate::text::decimal(n);
    let digits = seq!['0', '1', '2', '3', '4', '5', '6', '7', '8', '9'];
    assert forall|i: int| 0 <= i < d.len() implies d[i] != ',' && d[i] != '"' && d[i] != '\n' by {
        assert(crate::text::is_digit(d[i]));
        let j = choose|j: int| 0 <= j < digits.len() && digits[j] == d[i];
    }
    lemma_plain_field(d);
}

proof fn lemma_read_counts(n: Seq<nat>, rest: Seq<char>)
    requires
        n.len() >= 1,
    ensures
        read_record(
            (crate::report::csv_counts(n) + rest).drop_first(),
            n.len(),
        ) == Some((n.map_values(|x: nat| crate::text::decimal(x)), rest)),
    decreases n.len(),
{
    let d = crate::text::decimal(n[0]);
    let tail = n.drop_first();
    let after = crate::report::csv_counts(tail) + rest;
    assert((crate::report::csv_counts(n) + rest).drop_first() =~= d + after);
    lemma_decimal_plain(n[0]);
    if tail.len() == 0 {
        assert(crate::report::csv_counts(tail) =~= seq!['\n']);
    } else {
        assert(crate::report::csv_counts(tail)[0] == ',');
    }
    read_field_of_csv_field(d, after);
    if tail.len() == 0 {
        assert(after.drop_first() =~= rest);
        assert(n.map_values(|x: nat| crate::text::decimal(x)) =~= seq![d]);
    } else {
        lemma_read_counts(tail, rest);
        assert(n.map_values(|x: nat| crate::text::decimal(x)) =~= seq![d] + tail.map_values(
            |x: nat| crate::text::decimal(x),
        ));
    }
}

/// Reading a row of the report back gives its file, format and group texts, then its counts.
proof fn lemma_read_row(file: Seq<char>, fmt: Seq<char>, group: Seq<char>, n: Seq<nat>, rest: Seq<char>)
    requires
        plain_text(fmt),
        n.len() == 6,
    ensures
        read_record(
            crate::report::csv_row(csv_field(file), fmt, csv_field(group), n) + rest,
            9,
        ) == Some((seq![file, fmt, group] + n.map_values(|x: nat| crate::text::decimal(x)), rest)),
{
    let counts = crate::report::csv_counts(n) + rest;
    let g_part = csv_field(group) + counts;
    let f_part = fmt + (seq![','] + g_part);
    let s = csv_field(file) + (seq![','] + f_part);
    assert(crate::report::csv_row(csv_field(file), fmt, csv_field(group), n) + rest =~= s);
    read_field_of_csv_field(file, seq![','] + f_part);
    assert((seq![','] + f_part).drop_first() =~= f_part);
    lemma_plain_field(fmt);
    read_field_of_csv_field(fmt, seq![','] + g_part);
    assert((seq![','] + g_part).drop_first() =~= g_part);
    assert(crate::report::csv_counts(n)[0] == ',');
    read_field_of_csv_field(group, counts);
    lemma_read_counts(n, rest);
    let tail6 = n.map_values(|x: nat| crate::text::decimal(x));
    assert(read_field(g_part) == (group, counts));
    assert(read_record(counts.drop_first(), 6) == Some((tail6, rest)));
    assert(read_record(g_part, 7) == Some((seq![group] + tail6, rest)));
    assert(read_field(f_part) == (fmt, seq![','] + g_part));
    assert(read_record(f_part, 8) == Some((seq![fmt] + (seq![group] + tail6), rest)));
    assert(read_field(s) == (file, seq![','] + f_part));
    assert(read_record(s, 9) == Some((seq![file] + (seq![fmt] + (seq![group] + tail6)), rest)));
    assert(seq![file] + (seq![fmt] + (seq![group] + tail6)) =~= seq![file, fmt, group] + tail6);
}

proof fn lemma_read_records_append(s: Seq<char>, k1: nat, k2: nat)
    requires
        read_records(s, k1) is Some,
        read_records(read_records(s, k1)->Some_0.1, k2) is Some,
    ensures
        read_records(s, k1 + k2) == Some(
            (
                read_records(s, k1)->Some_0.0 + read_records(read_records(s, k1)->Some_0.1, k2)->Some_0.0,
                read_records(read_records(s, k1)->Some_0.1, k2)->Some_0.1,
            ),
        ),
    decreases k1,
{
    if k1 == 0 {
        let r2 = read_records(s, k2)->Some_0.0;
        assert(Seq::<Seq<Seq<char>>>::empty() + r2 =~= r2);
    } else {
        let (r, rest) = read_record(s, 9)->Some_0;
        lemma_read_records_append(rest, (k1 - 1) as nat, k2);
        assert((k1 + k2 - 1) as nat == ((k1 - 1) as nat + k2) as nat);
        let a = read_records(rest, (k1 - 1) as nat)->Some_0.0;
        let b = read_records(read_records(rest, (k1 - 1) as nat)->Some_0.1, k2)->Some_0.0;
        assert(seq![r] + (a + b) =~= (seq![r] + a) + b);
    }
}


/// The record that the report's line for group `g` of project `s` reads back as.
pub open spec fn csv_group_record(s: StatsView, g: GroupView) -> Seq<Seq<char>> {
    seq![
        s.path,
        s.format.spec_name(),
        g.name,
        decimal(s.actors),
        decimal(g.blocks),
        decimal(s.shadow_blocks),
        decimal(g.costumes),
        decimal(g.sounds),
        decimal(g.blocks + g.costumes + g.sounds),
    ]
}

/// The records of the given groups of project `s`, in order.
pub open spec fn csv_group_records(s: StatsView, gs: Seq<GroupView>) -> Seq<Seq<Seq<char>>>
    decreases gs.len(),
{
    if gs.len() == 0 {
        seq![]
    } else {
        csv_group_records(s, gs.drop_last()).push(csv_group_record(s, gs.last()))
    }
}

/// The record that the report's line for project `s` as a whole reads back as.
pub open spec fn csv_project_record(s: StatsView) -> Seq<Seq<char>> {
    seq![
        s.path,
        s.format.spec_name(),
        seq![],
        decimal(s.actors),
        decimal(s.blocks),
        decimal(s.shadow_blocks),
        decimal(s.costumes),
        decimal(s.sounds),
        decimal(view_total(s)),
    ]
}

/// The records of the report after its header: for each project its own record, then one
/// per group.
pub open spec fn csv_records(all: Seq<StatsView>) -> Seq<Seq<Seq<char>>>
    decreases all.len(),
{
    if all.len() == 0 {
        seq![]
    } else {
        let s = all.last();
        csv_records(all.drop_last()) + seq![csv_project_record(s)] + csv_group_records(s, s.groups)
    }
}

/// How many records follow the header.
pub open spec fn csv_record_count(all: Seq<StatsView>) -> nat
    decreases all.len(),
{
    if all.len() == 0 {
        0
    } else {
        csv_record_count(all.drop_last()) + 1 + all.last().groups.len()
    }
}

proof fn lemma_format_plain(f: Format)
    ensures
        plain_text(f.spec_name()),
{
    reveal_strlit("Scratch");
    reveal_strlit("腾讯扣叮");
    reveal_strlit("Kitten");
}

proof fn lemma_read_one(x: Seq<char>, rec: Seq<Seq<char>>, rest: Seq<char>)
    requires
        read_record(x + rest, 9) == Some((rec, rest)),
    ensures
        read_records(x + rest, 1) == Some((seq![rec], rest)),
{
    assert(read_records(rest, 0) == Some((Seq::<Seq<Seq<char>>>::empty(), rest)));
    assert(seq![rec] + Seq::<Seq<Seq<char>>>::empty() =~= seq![rec]);
}

proof fn lemma_read_concat(
    a: Seq<char>,
    b: Seq<char>,
    rest: Seq<char>,
    k1: nat,
    k2: nat,
    r1: Seq<Seq<Seq<char>>>,
    r2: Seq<Seq<Seq<char>>>,
)
    requires
        read_records(a + (b + rest), k1) == Some((r1, b + rest)),
        read_records(b + rest, k2) == Some((r2, rest)),
    ensures
        read_records((a + b) + rest, k1 + k2) == Some((r1 + r2, rest)),
{
    assert((a + b) + rest =~= a + (b + rest));
    lemma_read_records_append(a + (b + rest), k1, k2);
}

proof fn lemma_read_group_rows(s: StatsView, gs: Seq<GroupView>, rest: Seq<char>)
    ensures
        read_records(csv_group_rows(s, gs) + rest, gs.len()) == Some(
            (csv_group_records(s, gs), rest),
        ),
    decreases gs.len(),
{
    if gs.len() == 0 {
        assert(csv_group_rows(s, gs) + rest =~= rest);
    } else {
        let init = gs.drop_last();
        let g = gs.last();
        let n = seq![s.actors, g.blocks, s.shadow_blocks, g.costumes, g.sounds, g.blocks + g.costumes + g.sounds];
        let row = crate::report::csv_row(csv_field(s.path), s.format.spec_name(), csv_field(g.name), n);
        lemma_read_group_rows(s, init, row + rest);
        lemma_format_plain(s.format);
        lemma_read_row(s.path, s.format.spec_name(), g.name, n, rest);
        assert(seq![s.path, s.format.spec_name(), g.name] + n.map_values(|x: nat| decimal(x))
            =~= csv_group_record(s, g));
        lemma_read_one(row, csv_group_record(s, g), rest);
        lemma_read_concat(csv_group_rows(s, init), row, rest, init.len(), 1, csv_group_records(s, init), seq![csv_group_record(s, g)]);
        assert(csv_group_records(s, init) + seq![csv_group_record(s, g)] =~= csv_group_records(s, gs));
    }
}

proof fn lemma_read_project_rows(s: StatsView, rest: Seq<char>)
    ensures
        read_records(crate::report::csv_project_rows(s) + rest, 1 + s.groups.len()) == Some(
            (seq![csv_project_record(s)] + csv_group_records(s, s.groups), rest),
        ),
{
    let n = seq![s.actors, s.blocks, s.shadow_blocks, s.costumes, s.sounds, view_total(s)];
    let row = crate::report::csv_project_row(s);
    let groups = csv_group_rows(s, s.groups);
    lemma_format_plain(s.format);
    assert(csv_field(seq![]) == Seq::<char>::empty()) by {
        lemma_plain_field(seq![]);
    }
    lemma_read_row(s.path, s.format.spec_name(), seq![], n, groups + rest);
    assert(seq![s.path, s.format.spec_name(), seq![]] + n.map_values(|x: nat| decimal(x))
        =~= csv_project_record(s));
    lemma_read_one(row, csv_project_record(s), groups + rest);
    lemma_read_group_rows(s, s.groups, rest);
    lemma_read_concat(row, groups, rest, 1, s.groups.len(), seq![csv_project_record(s)], csv_group_records(s, s.groups));
}

proof fn lemma_read_rows(all: Seq<StatsView>, rest: Seq<char>)
    ensures
        read_records(csv_rows(all) + rest, csv_record_count(all)) == Some((csv_records(all), rest)),
    decreases all.len(),
{
    if all.len() == 0 {
        assert(csv_rows(all) + rest =~= rest);
    } else {
        let init = all.drop_last();
        let s = all.last();
        let tail = crate::report::csv_project_rows(s);
        lemma_read_rows(init, tail + rest);
        lemma_read_project_rows(s, rest);
        lemma_read_concat(csv_rows(init), tail, rest, csv_record_count(init), 1 + s.groups.len(), csv_records(init), seq![csv_project_record(s)] + csv_group_records(s, s.groups));
        assert(csv_records(init) + (seq![csv_project_record(s)] + csv_group_records(s, s.groups)) =~= csv_records(all));
        assert(csv_record_count(init) + (1 + s.groups.len()) == csv_record_count(all));
    }
}

proof fn lemma_header_line()
    ensures
        csv_header() == line_of(csv_header_fields()),
        forall|i: int| 0 <= i < csv_header_fields().len() ==> plain_text(#[trigger] csv_header_fields()[i]),
{
    reveal_strlit("file");
    reveal_strlit("format");
    reveal_strlit("group");
    reveal_strlit("actors");
    reveal_strlit("blocks");
    reveal_strlit("shadow_blocks");
    reveal_strlit("costumes");
    reveal_strlit("sounds");
    reveal_strlit("total");
    reveal_with_fuel(line_of, 10);
    assert(csv_header() =~= line_of(csv_header_fields()));
}

/// Reading the CSV report back as records of 9 fields gives the header's column names, then
/// for each project a record of its path, format name, an empty group field and its counts
/// in decimal, followed by one such record per group with the group's name; nothing is left
/// over.
pub proof fn csv_report_reads_back(all: Seq<StatsView>)
    ensures
        read_records(csv_text(all), 1 + csv_record_count(all)) == Some(
            (seq![csv_header_fields()] + csv_records(all), Seq::<char>::empty()),
        ),
{
    let rows = csv_rows(all);
    let empty = Seq::<char>::empty();
    lemma_header_line();
    lemma_read_line(csv_header_fields(), rows + empty);
    lemma_read_one(csv_header(), csv_header_fields(), rows + empty);
    lemma_read_rows(all, empty);
    lemma_read_concat(csv_header(), rows, empty, 1, csv_record_count(all), seq![csv_header_fields()], csv_records(all));
    assert(csv_header() + rows + empty =~= csv_text(all));
}

} // verus!
