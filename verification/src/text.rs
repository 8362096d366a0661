//! Character-level helpers: strings as character sequences, terminal widths,
//! decimal numbers and XML tag counting.

use vstd::prelude::*;

verus! {

/// The characters of `s`, in order.
pub fn str_chars(s: &str) -> (v: Vec<char>)
    ensures
        v@ == s@,
{
    let mut v: Vec<char> = Vec::new();
    for c in it: s.chars()
        invariant
            v@ == it.seq().take(it.index()),
    {
        v.push(c);
    }
    v
}

/// Appends one character with `String::push`.
#[verifier::external_body]
pub(crate) fn push_char(s: &mut String, c: char)
    ensures
        final(s)@ == old(s)@.push(c),
{
    s.push(c);
}

/// Appends a string slice.
pub fn push_str(s: &mut String, t: &str)
    ensures
        final(s)@ == old(s)@ + t@,
{
    s.append(t);
}

/// Appends a sequence of characters.
pub fn push_chars(s: &mut String, cs: &Vec<char>)
    ensures
        final(s)@ == old(s)@ + cs@,
{
    let ghost start = s@;
    let mut i: usize = 0;
    while i < cs.len()
        invariant
            i <= cs.len(),
            s@ == start + cs@.take(i as int),
        decreases cs.len() - i,
    {
        assert(cs@.take(i + 1) =~= cs@.take(i as int).push(cs@[i as int]));
        push_char(s, cs[i]);
        i += 1;
    }
    assert(cs@.take(cs.len() as int) =~= cs@);
}

/// The characters of each string.
pub open spec fn strings_view(v: Seq<String>) -> Seq<Seq<char>> {
    v.map_values(|s: String| s@)
}

/// The code of a character once ASCII upper case is mapped to lower case.
pub open spec fn lower_code(c: char) -> u32 {
    let u = c as u32;
    if 65 <= u <= 90 {
        (u + 32) as u32
    } else {
        u
    }
}

/// The code of `c` once ASCII upper case is mapped to lower case.
pub fn lower(c: char) -> (u: u32)
    ensures
        u == lower_code(c),
{
    let u = c as u32;
    if 65 <= u && u <= 90 {
        u + 32
    } else {
        u
    }
}

/// The code points that carry the Unicode `White_Space` property.
pub open spec fn is_white_space(c: char) -> bool {
    let u = c as u32;
    ||| 0x09 <= u <= 0x0D
    ||| u == 0x20
    ||| u == 0x85
    ||| u == 0xA0
    ||| u == 0x1680
    ||| 0x2000 <= u <= 0x200A
    ||| u == 0x2028
    ||| u == 0x2029
    ||| u == 0x202F
    ||| u == 0x205F
    ||| u == 0x3000
}

/// Whether `c` has the Unicode `White_Space` property (the test `char::is_whitespace` makes).
pub fn char_is_whitespace(c: char) -> (r: bool)
    ensures
        r == is_white_space(c),
{
    let u = c as u32;
    (0x09 <= u && u <= 0x0D) || u == 0x20 || u == 0x85 || u == 0xA0 || u == 0x1680 || (0x2000 <= u
        && u <= 0x200A) || u == 0x2028 || u == 0x2029 || u == 0x202F || u == 0x205F || u == 0x3000
}

// ---------------------------------------------------------------- widths

/// Whether a character is drawn two cells wide (CJK and full-width forms).
pub open spec fn is_wide(c: char) -> bool {
    let u = c as u32;
    ||| 0x1100 <= u <= 0x115F
    ||| 0x2E80 <= u <= 0x303E
    ||| 0x3041 <= u <= 0x33FF
    ||| 0x3400 <= u <= 0x4DBF
    ||| 0x4E00 <= u <= 0x9FFF
    ||| 0xA000 <= u <= 0xA4CF
    ||| 0xAC00 <= u <= 0xD7A3
    ||| 0xF900 <= u <= 0xFAFF
    ||| 0xFE30 <= u <= 0xFE4F
    ||| 0xFF00 <= u <= 0xFF60
    ||| 0xFFE0 <= u <= 0xFFE6
}

/// Terminal cells taken by one character.
pub open spec fn spec_char_width(c: char) -> nat {
    if is_wide(c) { 2 } else { 1 }
}

/// Terminal cells taken by a character sequence.
pub open spec fn spec_display_width(cs: Seq<char>) -> nat
    decreases cs.len(),
{
    if cs.len() == 0 {
        0
    } else {
        spec_char_width(cs[0]) + spec_display_width(cs.drop_first())
    }
}

/// Terminal cells taken by one character: 2 for CJK and full-width forms, else 1.
pub fn char_width(c: char) -> (w: usize)
    ensures
        w == spec_char_width(c),
{
    let u = c as u32;
    let wide = (0x1100 <= u && u <= 0x115F) || (0x2E80 <= u && u <= 0x303E) || (0x3041 <= u
        && u <= 0x33FF) || (0x3400 <= u && u <= 0x4DBF) || (0x4E00 <= u && u <= 0x9FFF) || (0xA000
        <= u && u <= 0xA4CF) || (0xAC00 <= u && u <= 0xD7A3) || (0xF900 <= u && u <= 0xFAFF) || (
    0xFE30 <= u && u <= 0xFE4F) || (0xFF00 <= u && u <= 0xFF60) || (0xFFE0 <= u && u <= 0xFFE6);
    if wide {
        2
    } else {
        1
    }
}

/// A wide character needs at least two bytes in UTF-8, so the width of a text never
/// exceeds the length of its UTF-8 encoding.
pub proof fn lemma_width_le_utf8_len(cs: Seq<char>)
    ensures
        spec_display_width(cs) <= vstd::utf8::encode_utf8(cs).len(),
    decreases cs.len(),
{
    if cs.len() > 0 {
        lemma_width_le_utf8_len(cs.drop_first());
        let c = cs[0];
        vstd::utf8::char_is_scalar(c);
        assert(is_wide(c) ==> vstd::utf8::encode_scalar(c as u32).len() >= 2);
    }
}

/// Terminal display width of `s`, counting CJK and full-width characters as 2 cells.
pub fn display_width(s: &str) -> (w: usize)
    ensures
        w == spec_display_width(s@),
{
    let cs = str_chars(s);
    let bytes = s.as_bytes();
    let nbytes = bytes.len();
    proof {
        lemma_width_le_utf8_len(s@);
    }
    let mut total: usize = 0;
    let mut i: usize = 0;
    assert(cs@.skip(0) =~= cs@);
    while i < cs.len()
        invariant
            i <= cs.len(),
            cs@ == s@,
            spec_display_width(s@) <= nbytes,
            total + spec_display_width(cs@.skip(i as int)) == spec_display_width(s@),
        decreases cs.len() - i,
    {
        assert(cs@.skip(i as int).drop_first() =~= cs@.skip(i + 1));
        total = total + char_width(cs[i]);
        i += 1;
    }
    total
}

// ---------------------------------------------------------------- numbers

/// The decimal digit `d` as a character.
pub open spec fn digit_char(d: nat) -> char {
    seq!['0', '1', '2', '3', '4', '5', '6', '7', '8', '9'][d as int]
}

/// The decimal notation of `n`, without leading zeros.
pub open spec fn decimal(n: nat) -> Seq<char>
    decreases n,
{
    if n < 10 {
        seq![digit_char(n)]
    } else {
        decimal(n / 10).push(digit_char(n % 10))
    }
}

fn digit(d: u64) -> (c: char)
    requires
        d < 10,
    ensures
        c == digit_char(d as nat),
{
    if d == 0 {
        '0'
    } else if d == 1 {
        '1'
    } else if d == 2 {
        '2'
    } else if d == 3 {
        '3'
    } else if d == 4 {
        '4'
    } else if d == 5 {
        '5'
    } else if d == 6 {
        '6'
    } else if d == 7 {
        '7'
    } else if d == 8 {
        '8'
    } else {
        '9'
    }
}

/// Appends the decimal notation of `n`.
pub fn push_decimal(s: &mut String, n: u64)
    ensures
        final(s)@ == old(s)@ + decimal(n as nat),
    decreases n,
{
    if n >= 10 {
        push_decimal(s, n / 10);
    }
    push_char(s, digit(n % 10));
}

/// The decimal notation of `n`, as `u64::to_string` writes it.
pub fn decimal_string(n: u64) -> (s: String)
    ensures
        s@ == decimal(n as nat),
{
    let mut s = String::new();
    push_decimal(&mut s, n);
    s
}

// ---------------------------------------------------------------- XML tags

/// Whether the text right after a tag name ends that name: whitespace, `>` or `/`.
pub open spec fn ends_tag_name(rest: Seq<char>) -> bool {
    rest.len() > 0 && (is_white_space(rest[0]) || rest[0] == '>' || rest[0] == '/')
}

/// Scanning `s` from the left, each occurrence of `pat` is skipped over as a whole;
/// the count is of the occurrences that are followed by the end of a tag name.
pub open spec fn count_tag_from(s: Seq<char>, pat: Seq<char>) -> nat
    decreases s.len(),
{
    if pat.len() == 0 || s.len() < pat.len() {
        0
    } else if s.take(pat.len() as int) == pat {
        (if ends_tag_name(s.skip(pat.len() as int)) { 1nat } else { 0nat }) + count_tag_from(
            s.skip(pat.len() as int),
            pat,
        )
    } else {
        count_tag_from(s.drop_first(), pat)
    }
}

/// The number of `<tag` openings in `s`.
pub open spec fn spec_count_xml_tag(s: Seq<char>, tag: Seq<char>) -> nat {
    count_tag_from(s, seq!['<'] + tag)
}

proof fn lemma_count_tag_le_len(s: Seq<char>, pat: Seq<char>)
    ensures
        count_tag_from(s, pat) <= s.len(),
    decreases s.len(),
{
    if pat.len() == 0 || s.len() < pat.len() {
    } else if s.take(pat.len() as int) == pat {
        lemma_count_tag_le_len(s.skip(pat.len() as int), pat);
    } else {
        lemma_count_tag_le_len(s.drop_first(), pat);
    }
}

/// Whether `pat` occurs in `cs` at position `i`.
fn occurs_at(cs: &Vec<char>, i: usize, pat: &Vec<char>) -> (r: bool)
    requires
        i <= cs.len(),
    ensures
        r == (pat.len() <= cs.len() - i && cs@.skip(i as int).take(pat.len() as int) == pat@),
{
    if pat.len() > cs.len() - i {
        return false;
    }
    let mut j: usize = 0;
    while j < pat.len()
        invariant
            j <= pat.len(),
            pat.len() <= cs.len() - i,
            forall|k: int| 0 <= k < j ==> cs@[i + k] == pat@[k],
        decreases pat.len() - j,
    {
        if cs[i + j] != pat[j] {
            assert(cs@.skip(i as int).take(pat.len() as int)[j as int] != pat@[j as int]);
            return false;
        }
        j += 1;
    }
    assert(cs@.skip(i as int).take(pat.len() as int) =~= pat@);
    true
}

/// Counts the `<tag` openings in `s` (a tag name followed by whitespace, `>` or `/`),
/// scanning left to right and skipping over each `<tag` found.
pub fn count_xml_tag(s: &str, tag: &str) -> (n: u64)
    ensures
        n == spec_count_xml_tag(s@, tag@),
{
    let cs = str_chars(s);
    let mut pat: Vec<char> = Vec::new();
    pat.push('<');
    let tag_chars = str_chars(tag);
    let mut t: usize = 0;
    while t < tag_chars.len()
        invariant
            t <= tag_chars.len(),
            pat@ == seq!['<'] + tag_chars@.take(t as int),
        decreases tag_chars.len() - t,
    {
        assert(tag_chars@.take(t + 1) =~= tag_chars@.take(t as int).push(tag_chars@[t as int]));
        pat.push(tag_chars[t]);
        t += 1;
    }
    assert(tag_chars@.take(tag_chars.len() as int) =~= tag_chars@);
    let plen = pat.len();
    let mut n: u64 = 0;
    let mut i: usize = 0;
    proof {
        assert(cs@.skip(0) =~= cs@);
        lemma_count_tag_le_len(cs@, pat@);
    }
    while i < cs.len()
        invariant
            i <= cs.len(),
            plen == pat.len(),
            plen >= 1,
            cs@ == s@,
            pat@ == seq!['<'] + tag@,
            n + count_tag_from(cs@.skip(i as int), pat@) == count_tag_from(cs@, pat@),
            count_tag_from(cs@, pat@) <= cs.len(),
        decreases cs.len() - i,
    {
        let ghost rest = cs@.skip(i as int);
        if occurs_at(&cs, i, &pat) {
            let after = i + plen;
            assert(rest.skip(plen as int) =~= cs@.skip(after as int));
            let ok = if after < cs.len() {
                let c = cs[after];
                assert(rest.skip(plen as int)[0] == c);
                char_is_whitespace(c) || c == '>' || c == '/'
            } else {
                false
            };
            proof {
                lemma_count_tag_le_len(cs@.skip(after as int), pat@);
            }
            if ok {
                n = n + 1;
            }
            i = after;
        } else {
            proof {
                if rest.len() >= plen {
                    assert(rest.drop_first() =~= cs@.skip(i + 1));
                } else {
                    assert(count_tag_from(cs@.skip(i + 1), pat@) == 0);
                }
            }
            i += 1;
        }
    }
    assert(cs@.skip(i as int).len() == 0);
    n
}


/// The value of a decimal digit character.
pub open spec fn digit_value(c: char) -> int {
    if c == '0' {
        0
    } else if c == '1' {
        1
    } else if c == '2' {
        2
    } else if c == '3' {
        3
    } else if c == '4' {
        4
    } else if c == '5' {
        5
    } else if c == '6' {
        6
    } else if c == '7' {
        7
    } else if c == '8' {
        8
    } else {
        9
    }
}

/// Whether `c` is one of the ten decimal digits.
pub open spec fn is_digit(c: char) -> bool {
    seq!['0', '1', '2', '3', '4', '5', '6', '7', '8', '9'].contains(c)
}

/// The number a string of decimal digits denotes.
pub open spec fn digits_value(ds: Seq<char>) -> int
    decreases ds.len(),
{
    if ds.len() == 0 {
        0
    } else {
        digits_value(ds.drop_last()) * 10 + digit_value(ds.last())
    }
}

/// The decimal notation of a number is made of digits, starts with a nonzero digit unless
/// the number is 0, and reads back as the number.
pub proof fn decimal_reads_back(n: nat)
    ensures
        decimal(n).len() > 0,
        forall|i: int| 0 <= i < decimal(n).len() ==> is_digit(#[trigger] decimal(n)[i]),
        n > 0 ==> decimal(n)[0] != '0',
        digits_value(decimal(n)) == n,
    decreases n,
{
    let ds = seq!['0', '1', '2', '3', '4', '5', '6', '7', '8', '9'];
    assert(forall|d: int| 0 <= d < 10 ==> ds.contains(#[trigger] ds[d]));
    if n < 10 {
        assert(decimal(n) == seq![digit_char(n)]);
        assert(digits_value(decimal(n)) == digits_value(decimal(n).drop_last()) * 10 + digit_value(
            digit_char(n),
        ));
        assert(decimal(n).drop_last() =~= Seq::<char>::empty());
    } else {
        decimal_reads_back(n / 10);
        let d = decimal(n);
        assert(d.drop_last() =~= decimal(n / 10));
        assert(d.last() == digit_char(n % 10));
        assert(forall|i: int| 0 <= i < d.len() - 1 ==> d[i] == decimal(n / 10)[i]);
    }
}

/// Each character takes one or two cells, so a text is at least as wide as it is long and
/// at most twice as wide.
pub proof fn display_width_bounds(cs: Seq<char>)
    ensures
        cs.len() <= spec_display_width(cs) <= 2 * cs.len(),
    decreases cs.len(),
{
    if cs.len() > 0 {
        display_width_bounds(cs.drop_first());
    }
}

/// The width of a concatenation is the sum of the widths.
pub proof fn display_width_concat(a: Seq<char>, b: Seq<char>)
    ensures
        spec_display_width(a + b) == spec_display_width(a) + spec_display_width(b),
    decreases a.len(),
{
    if a.len() > 0 {
        display_width_concat(a.drop_first(), b);
        assert((a + b).drop_first() =~= a.drop_first() + b);
    } else {
        assert(a + b =~= b);
    }
}


/// `pat` opens with `<` and has no other `<`.
pub open spec fn single_open(pat: Seq<char>) -> bool {
    &&& pat.len() >= 1
    &&& pat[0] == '<'
    &&& forall|i: int| 1 <= i < pat.len() ==> pat[i] != '<'
}

proof fn lemma_skip_without_open(y: Seq<char>, pat: Seq<char>, k: int)
    requires
        single_open(pat),
        0 <= k <= y.len(),
        forall|i: int| 0 <= i < k ==> y[i] != '<',
    ensures
        count_tag_from(y, pat) == count_tag_from(y.skip(k), pat),
    decreases k,
{
    if k == 0 {
        assert(y.skip(0) =~= y);
    } else {
        if y.len() >= pat.len() {
            assert(y.take(pat.len() as int)[0] == y[0]);
            assert(y.take(pat.len() as int) != pat);
        }
        assert(y.drop_first().skip(k - 1) =~= y.skip(k));
        lemma_skip_without_open(y.drop_first(), pat, k - 1);
        if y.len() < pat.len() {
            lemma_count_tag_le_len(y.skip(k), pat);
            assert(count_tag_from(y.skip(k), pat) == 0);
        }
    }
}

proof fn lemma_prefix_keeps_count(x: Seq<char>, y: Seq<char>, pat: Seq<char>)
    requires
        single_open(pat),
    ensures
        count_tag_from(x + y, pat) >= count_tag_from(y, pat),
    decreases x.len(),
{
    let s = x + y;
    let n = pat.len() as int;
    if x.len() == 0 {
        assert(s =~= y);
    } else if s.len() < n {
        lemma_count_tag_le_len(y, pat);
        if y.len() >= n {
        }
    } else if s.take(n) == pat {
        if n <= x.len() {
            assert(s.skip(n) =~= x.skip(n) + y);
            lemma_prefix_keeps_count(x.skip(n), y, pat);
        } else {
            let k = n - x.len();
            assert(s.skip(n) =~= y.skip(k));
            assert forall|i: int| 0 <= i < k implies y[i] != '<' by {
                assert(y[i] == s[x.len() + i]);
                assert(s[x.len() + i] == s.take(n)[x.len() + i]);
            }
            lemma_skip_without_open(y, pat, k);
        }
    } else {
        assert(s.drop_first() =~= x.drop_first() + y);
        lemma_prefix_keeps_count(x.drop_first(), y, pat);
    }
}

proof fn lemma_join_keeps_counts(a: Seq<char>, b: Seq<char>, pat: Seq<char>)
    requires
        single_open(pat),
    ensures
        count_tag_from(a + b, pat) >= count_tag_from(a, pat) + count_tag_from(b, pat),
    decreases a.len(),
{
    let s = a + b;
    let n = pat.len() as int;
    if a.len() < n {
        lemma_prefix_keeps_count(a, b, pat);
    } else if a.take(n) == pat {
        assert(s.take(n) =~= a.take(n));
        assert(s.skip(n) =~= a.skip(n) + b);
        if a.skip(n).len() > 0 {
            assert(s.skip(n)[0] == a.skip(n)[0]);
        }
        lemma_join_keeps_counts(a.skip(n), b, pat);
    } else {
        assert(s.take(n) =~= a.take(n));
        assert(s.drop_first() =~= a.drop_first() + b);
        lemma_join_keeps_counts(a.drop_first(), b, pat);
    }
}

/// Joining two texts never loses a counted tag (and may complete one cut off at the end of
/// the first): for a tag name without `<`, the `<tag` openings of `a + b` are at least
/// those of `a` and those of `b` together.
pub proof fn joining_keeps_tag_counts(a: Seq<char>, b: Seq<char>, tag: Seq<char>)
    requires
        !tag.contains('<'),
    ensures
        spec_count_xml_tag(a + b, tag) >= spec_count_xml_tag(a, tag) + spec_count_xml_tag(b, tag),
{
    let pat = seq!['<'] + tag;
    assert forall|i: int| 1 <= i < pat.len() implies pat[i] != '<' by {
        assert(pat[i] == tag[i - 1]);
    }
    lemma_join_keeps_counts(a, b, pat);
}

} // verus!
