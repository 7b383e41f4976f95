use vstd::prelude::*;

use crate::bindings::{percent_encoded, regex_captures, regex_captures_of, url_encode};
use crate::sorting::{
    alike, is_total_preorder, lemma_sort_stable, lemma_insert_at, lemma_sort_permutes, lemma_sort_sorted,
    sorted_by, stable_sort_by,
};
use crate::text::{char_pos, lemma_char_pos_at, lines, lines_of, to_chars, trim, trimmed};

verus! {

/// The pattern of a timed lyric line: `[minutes:seconds]text`.
pub const LRC_PATTERN: &'static str = r"\[(\d+):(\d+\.?\d*)\](.+)";

/// An ASCII decimal digit.
pub open spec fn is_ascii_digit(c: char) -> bool {
    '0' <= c && c <= '9'
}

/// The value of an ASCII digit.
pub open spec fn digit_value(c: char) -> int {
    c as int - 0x30
}

/// Every character is an ASCII digit.
pub open spec fn all_digits(s: Seq<char>) -> bool {
    forall|i: int| 0 <= i < s.len() ==> is_ascii_digit(#[trigger] s[i])
}

/// A non-empty run of ASCII digits.
pub open spec fn is_numeral(s: Seq<char>) -> bool {
    s.len() > 0 && all_digits(s)
}

/// The value of a run of ASCII digits.
pub open spec fn numeral_value(s: Seq<char>) -> int
    decreases s.len(),
{
    if s.len() == 0 {
        0
    } else {
        numeral_value(s.drop_last()) * 10 + digit_value(s.last())
    }
}

/// A seconds field: digits, then optionally `.` and more digits.
pub open spec fn is_seconds_numeral(s: Seq<char>) -> bool {
    let p = char_pos(s, '.');
    if p >= s.len() {
        is_numeral(s)
    } else {
        is_numeral(s.take(p)) && all_digits(s.skip(p + 1))
    }
}

/// The `i`-th fractional digit of `f`, 0 past its end.
pub open spec fn frac_digit(f: Seq<char>, i: int) -> int {
    if i < f.len() {
        digit_value(f[i])
    } else {
        0
    }
}

/// Every character is the digit `0`.
pub open spec fn all_zeros(s: Seq<char>) -> bool {
    forall|i: int| 0 <= i < s.len() ==> #[trigger] s[i] == '0'
}

/// Whether the fractional digits `f` reach past the whole milliseconds: some
/// digit after the third is not `0`.
pub open spec fn past_millis(f: Seq<char>) -> bool {
    f.len() > 3 && !all_zeros(f.skip(3))
}

/// A seconds field in milliseconds, rounded up to a whole millisecond. At a
/// playback position of `p` whole milliseconds a line is due exactly when its
/// time in milliseconds is at most `p`, and that holds of the rounded time
/// exactly when it holds of the exact one.
pub open spec fn seconds_millis(s: Seq<char>) -> int {
    let p = char_pos(s, '.');
    if p >= s.len() {
        numeral_value(s) * 1000
    } else {
        let f = s.skip(p + 1);
        numeral_value(s.take(p)) * 1000 + frac_digit(f, 0) * 100 + frac_digit(f, 1) * 10
            + frac_digit(f, 2) + (if past_millis(f) {
            1int
        } else {
            0int
        })
    }
}

/// `n`, or `u64::MAX` when `n` is larger.
pub open spec fn saturate(n: int) -> u64 {
    if n <= u64::MAX {
        n as u64
    } else {
        u64::MAX
    }
}

/// The time and text that the capture groups of `LRC_PATTERN` give: group 1
/// is the minutes, group 2 the seconds, group 3 the text, which is trimmed
/// and must not be empty.
pub open spec fn lrc_line_from_groups(groups: Seq<Option<Seq<char>>>) -> Option<(u64, Seq<char>)> {
    if groups.len() >= 4 && groups[1] is Some && groups[2] is Some && groups[3] is Some {
        let mins = groups[1]->0;
        let secs = groups[2]->0;
        let text = trimmed(groups[3]->0);
        if is_numeral(mins) && is_seconds_numeral(secs) && text.len() > 0 {
            Some((saturate(numeral_value(mins) * 60000 + seconds_millis(secs)), text))
        } else {
            None
        }
    } else {
        None
    }
}

/// The time (in milliseconds) and text of one line of an LRC file, if it is a
/// timed lyric line.
pub open spec fn lrc_line_of(line: Seq<char>) -> Option<(u64, Seq<char>)> {
    match regex_captures_of(LRC_PATTERN@, line) {
        Some(groups) => lrc_line_from_groups(groups),
        None => None,
    }
}

proof fn lemma_numeral_nonneg(s: Seq<char>)
    requires
        all_digits(s),
    ensures
        numeral_value(s) >= 0,
    decreases s.len(),
{
    if s.len() > 0 {
        assert(all_digits(s.drop_last())) by {
            assert forall|i: int| 0 <= i < s.drop_last().len() implies is_ascii_digit(
                #[trigger] s.drop_last()[i],
            ) by {
                assert(s.drop_last()[i] == s[i]);
            }
        }
        lemma_numeral_nonneg(s.drop_last());
        assert(is_ascii_digit(s[s.len() - 1]));
    }
}

proof fn lemma_saturate_compose(x: int, m: int, y: int)
    requires
        x >= 0,
        y >= 0,
        m >= 1,
    ensures
        saturate(saturate(x) * m + saturate(y)) == saturate(x * m + y),
{
    if x > u64::MAX {
        assert((u64::MAX as int) * m >= u64::MAX) by (nonlinear_arith)
            requires
                m >= 1,
        ;
        assert(x * m >= x) by (nonlinear_arith)
            requires
                x >= 0,
                m >= 1,
        ;
    }
    if y > u64::MAX {
        assert((saturate(x) as int) * m >= 0) by (nonlinear_arith)
            requires
                m >= 1,
        ;
        assert(x * m >= 0) by (nonlinear_arith)
            requires
                x >= 0,
                m >= 1,
        ;
    }
}

/// `saturate(a * m + b)`.
fn mul_add_saturating(a: u64, m: u64, b: u64) -> (r: u64)
    ensures
        r == saturate(a * m + b),
{
    assert((a as int) * (m as int) <= (u64::MAX as int) * (u64::MAX as int)) by (nonlinear_arith)
        requires
            a <= u64::MAX,
            m <= u64::MAX,
    ;
    let x: u128 = (a as u128) * (m as u128) + (b as u128);
    if x > u64::MAX as u128 {
        u64::MAX
    } else {
        x as u64
    }
}

/// The value of the digits `v[lo..hi]`, saturated.
fn numeral_saturating(v: &Vec<char>, lo: usize, hi: usize) -> (r: u64)
    requires
        lo <= hi <= v.len(),
        all_digits(v@.subrange(lo as int, hi as int)),
    ensures
        r == saturate(numeral_value(v@.subrange(lo as int, hi as int))),
{
    let mut acc: u64 = 0;
    let mut i: usize = lo;
    proof {
        assert(v@.subrange(lo as int, lo as int) =~= Seq::<char>::empty());
    }
    while i < hi
        invariant
            lo <= i <= hi <= v.len(),
            all_digits(v@.subrange(lo as int, hi as int)),
            acc == saturate(numeral_value(v@.subrange(lo as int, i as int))),
        decreases hi - i,
    {
        let ghost prev = v@.subrange(lo as int, i as int);
        let ghost next = v@.subrange(lo as int, i + 1);
        proof {
            assert(next.drop_last() =~= prev);
            assert(v@.subrange(lo as int, hi as int)[i - lo] == v@[i as int]);
        }
        let d = (v[i] as u32 - 0x30) as u64;
        proof {
            assert(all_digits(prev)) by {
                assert forall|k: int| 0 <= k < prev.len() implies is_ascii_digit(
                    #[trigger] prev[k],
                ) by {
                    assert(prev[k] == v@.subrange(lo as int, hi as int)[k]);
                }
            }
            lemma_numeral_nonneg(prev);
            lemma_saturate_compose(numeral_value(prev), 10, digit_value(v@[i as int]));
        }
        acc = mul_add_saturating(acc, 10, d);
        i = i + 1;
    }
    acc
}

/// Whether `v[lo..hi]` are all ASCII digits.
fn digits_between(v: &Vec<char>, lo: usize, hi: usize) -> (b: bool)
    requires
        lo <= hi <= v.len(),
    ensures
        b == all_digits(v@.subrange(lo as int, hi as int)),
{
    let mut i: usize = lo;
    while i < hi
        invariant
            lo <= i <= hi <= v.len(),
            forall|k: int| lo <= k < i ==> is_ascii_digit(#[trigger] v@[k]),
        decreases hi - i,
    {
        if !('0' <= v[i] && v[i] <= '9') {
            proof {
                assert(v@.subrange(lo as int, hi as int)[i - lo] == v@[i as int]);
            }
            return false;
        }
        i = i + 1;
    }
    proof {
        assert forall|k: int| 0 <= k < hi - lo implies is_ascii_digit(
            #[trigger] v@.subrange(lo as int, hi as int)[k],
        ) by {
            assert(v@.subrange(lo as int, hi as int)[k] == v@[lo + k]);
        }
    }
    true
}

/// Whether `v[lo..hi]` are all the digit `0`.
fn zeros_between(v: &Vec<char>, lo: usize, hi: usize) -> (b: bool)
    requires
        lo <= hi <= v.len(),
    ensures
        b == all_zeros(v@.subrange(lo as int, hi as int)),
{
    let mut i: usize = lo;
    while i < hi
        invariant
            lo <= i <= hi <= v.len(),
            forall|k: int| lo <= k < i ==> #[trigger] v@[k] == '0',
        decreases hi - i,
    {
        if v[i] != '0' {
            proof {
                assert(v@.subrange(lo as int, hi as int)[i - lo] == v@[i as int]);
            }
            return false;
        }
        i = i + 1;
    }
    proof {
        assert forall|k: int| 0 <= k < hi - lo implies #[trigger] v@.subrange(
            lo as int,
            hi as int,
        )[k] == '0' by {
            assert(v@.subrange(lo as int, hi as int)[k] == v@[lo + k]);
        }
    }
    true
}

/// The `i`-th fractional digit of `v[lo..hi]` (0 past its end).
fn frac_digit_at(v: &Vec<char>, lo: usize, hi: usize, i: usize) -> (d: u64)
    requires
        lo <= hi <= v.len(),
        i < 3,
        all_digits(v@.subrange(lo as int, hi as int)),
    ensures
        d == frac_digit(v@.subrange(lo as int, hi as int), i as int),
        d <= 9,
{
    if i < hi - lo {
        proof {
            assert(v@.subrange(lo as int, hi as int)[i as int] == v@[lo + i]);
        }
        (v[lo + i] as u32 - 0x30) as u64
    } else {
        0
    }
}

/// The time in milliseconds of a minutes field and a seconds field, or `None`
/// when they are not numerals of the pattern's shape.
fn lrc_time(mins: &str, secs: &str) -> (r: Option<u64>)
    ensures
        r == (if is_numeral(mins@) && is_seconds_numeral(secs@) {
            Some(saturate(numeral_value(mins@) * 60000 + seconds_millis(secs@)))
        } else {
            None
        }),
{
    let m = to_chars(mins);
    let s = to_chars(secs);
    proof {
        assert(m@.subrange(0, m.len() as int) =~= m@);
        assert(s@.subrange(0, s.len() as int) =~= s@);
    }
    if m.len() == 0 || !digits_between(&m, 0, m.len()) {
        return None;
    }
    let n = s.len();
    let mut p: usize = 0;
    while p < n && s[p] != '.'
        invariant
            n == s.len(),
            p <= n,
            forall|k: int| 0 <= k < p ==> #[trigger] s@[k] != '.',
        decreases n - p,
    {
        p = p + 1;
    }
    proof {
        lemma_char_pos_at(s@, '.', p as int);
        assert(s@.take(p as int) =~= s@.subrange(0, p as int));
        assert(s@.skip(p + 1) =~= s@.subrange(p + 1, n as int));
    }
    if p == 0 || !digits_between(&s, 0, p) {
        return None;
    }
    let whole = numeral_saturating(&s, 0, p);
    let mut frac: u64 = 0;
    if p < n {
        if !digits_between(&s, p + 1, n) {
            return None;
        }
        let d0 = frac_digit_at(&s, p + 1, n, 0);
        let d1 = frac_digit_at(&s, p + 1, n, 1);
        let d2 = frac_digit_at(&s, p + 1, n, 2);
        let mut up: u64 = 0;
        if n - p - 1 > 3 {
            proof {
                assert(s@.skip(p + 1).skip(3) =~= s@.subrange(p + 4, n as int));
            }
            if !zeros_between(&s, p + 4, n) {
                up = 1;
            }
        }
        frac = d0 * 100 + d1 * 10 + d2 + up;
    }
    let minutes = numeral_saturating(&m, 0, m.len());
    proof {
        let wv = numeral_value(s@.subrange(0, p as int));
        lemma_numeral_nonneg(s@.subrange(0, p as int));
        lemma_numeral_nonneg(m@);
        lemma_saturate_compose(wv, 1000, frac as int);
        lemma_saturate_compose(numeral_value(m@), 60000, wv * 1000 + frac);
    }
    let secs_ms = mul_add_saturating(whole, 1000, frac);
    Some(mul_add_saturating(minutes, 60000, secs_ms))
}

/// The time and text of a lyric line from the capture groups of
/// `LRC_PATTERN` (as `regex_captures` gives them).
pub fn lrc_line_from_captures(groups: &Vec<Option<String>>) -> (r: Option<(u64, String)>)
    ensures
        match r {
            Some((t, text)) => lrc_line_from_groups(groups.deep_view()) == Some((t, text@)),
            None => lrc_line_from_groups(groups.deep_view()) is None,
        },
{
    if groups.len() < 4 {
        return None;
    }
    let ghost g = groups.deep_view();
    proof {
        assert(g[1] == groups@[1].deep_view());
        assert(g[2] == groups@[2].deep_view());
        assert(g[3] == groups@[3].deep_view());
    }
    match (&groups[1], &groups[2], &groups[3]) {
        (Some(mins), Some(secs), Some(text)) => {
            let time = lrc_time(mins.as_str(), secs.as_str());
            let text = trim(text.as_str());
            match time {
                Some(t) => {
                    if text.as_str().is_empty() {
                        None
                    } else {
                        Some((t, text))
                    }
                },
                None => None,
            }
        },
        _ => None,
    }
}

/// The time (in milliseconds) and text of a timed lyric line, or `None` for
/// any other line.
pub fn parse_lrc_line(line: &str) -> (r: Option<(u64, String)>)
    ensures
        match r {
            Some((t, text)) => lrc_line_of(line@) == Some((t, text@)),
            None => lrc_line_of(line@) is None,
        },
{
    match regex_captures(LRC_PATTERN, line) {
        Some(groups) => lrc_line_from_captures(&groups),
        None => None,
    }
}


/// One timed line of lyrics.
#[derive(Clone, Debug)]
pub struct LrcLine {
    pub time_ms: u64,
    pub text: String,
}

/// What an `LrcLine` holds, as plain values.
pub struct LyricView {
    pub time_ms: u64,
    pub text: Seq<char>,
}

impl View for LrcLine {
    type V = LyricView;

    open spec fn view(&self) -> LyricView {
        LyricView { time_ms: self.time_ms, text: self.text@ }
    }
}

/// The views of a sequence of lyric lines.
pub open spec fn lyric_views(s: Seq<LrcLine>) -> Seq<LyricView> {
    s.map_values(|l: LrcLine| l@)
}

/// The timed lyric lines among `lines`, in the order given.
pub open spec fn timed_lines(lines: Seq<Seq<char>>) -> Seq<LyricView>
    decreases lines.len(),
{
    if lines.len() == 0 {
        seq![]
    } else {
        let rest = timed_lines(lines.drop_last());
        match lrc_line_of(lines.last()) {
            Some((t, text)) => rest.push(LyricView { time_ms: t, text }),
            None => rest,
        }
    }
}

/// Lyric lines are ordered by their time.
pub open spec fn lyric_le() -> spec_fn(LyricView, LyricView) -> bool {
    |a: LyricView, b: LyricView| a.time_ms <= b.time_ms
}

/// The lyrics of an LRC file: its timed lines, stably sorted by time.
pub open spec fn parsed_lrc(content: Seq<char>) -> Seq<LyricView> {
    stable_sort_by(lyric_le(), timed_lines(lines_of(content)))
}

/// Sorts lyric lines by time, stably.
pub fn sort_lyrics(lines: Vec<LrcLine>) -> (r: Vec<LrcLine>)
    ensures
        lyric_views(r@) == stable_sort_by(lyric_le(), lyric_views(lines@)),
{
    let ghost orig = lyric_views(lines@);
    let mut rest = lines;
    let mut out: Vec<LrcLine> = Vec::new();
    proof {
        assert(orig.skip(orig.len() as int) =~= Seq::<LyricView>::empty());
        assert(lyric_views(out@) =~= Seq::<LyricView>::empty());
    }
    while rest.len() > 0
        invariant
            orig.len() == lines@.len(),
            rest.len() <= orig.len(),
            forall|k: int| 0 <= k < rest.len() ==> #[trigger] rest@[k]@ == orig[k],
            lyric_views(out@) == stable_sort_by(lyric_le(), orig.skip(rest.len() as int)),
        decreases rest.len(),
    {
        let ghost m = rest.len() - 1;
        let l = rest.pop().unwrap();
        let mut j: usize = 0;
        while j < out.len() && !(l.time_ms <= out[j].time_ms)
            invariant
                j <= out.len(),
                forall|k: int| 0 <= k < j ==> !(l.time_ms <= (#[trigger] out@[k]).time_ms),
            decreases out.len() - j,
        {
            j = j + 1;
        }
        proof {
            let ov = lyric_views(out@);
            assert forall|k: int| 0 <= k < j implies !lyric_le()(l@, #[trigger] ov[k]) by {
                assert(ov[k] == out@[k]@);
            }
            if j < out.len() {
                assert(ov[j as int] == out@[j as int]@);
            }
            lemma_insert_at(lyric_le(), l@, ov, j as int);
            assert(orig.skip(m) =~= seq![orig[m]] + orig.skip(m + 1));
            assert(orig.skip(m).drop_first() =~= orig.skip(m + 1));
        }
        let ghost old_out = out@;
        out.insert(j, l);
        proof {
            assert(lyric_views(out@) =~= lyric_views(old_out).take(j as int) + seq![l@]
                + lyric_views(old_out).skip(j as int));
        }
    }
    proof {
        assert(orig.skip(0) =~= orig);
    }
    out
}

/// The lyrics of an LRC file: each line that is a timed lyric line, sorted by
/// time.
pub fn parse_lrc(content: &str) -> (r: Vec<LrcLine>)
    ensures
        lyric_views(r@) == parsed_lrc(content@),
{
    let ls = lines(content);
    let mut found: Vec<LrcLine> = Vec::new();
    let n = ls.len();
    for i in 0..n
        invariant
            n == ls.len(),
            ls.deep_view() == lines_of(content@),
            lyric_views(found@) == timed_lines(ls.deep_view().take(i as int)),
    {
        let ghost prefix = ls.deep_view().take(i + 1);
        proof {
            assert(prefix.drop_last() =~= ls.deep_view().take(i as int));
            assert(prefix.last() == ls@[i as int]@);
        }
        match parse_lrc_line(ls[i].as_str()) {
            Some((t, text)) => {
                let ghost before = found@;
                found.push(LrcLine { time_ms: t, text });
                proof {
                    assert(lyric_views(found@) =~= lyric_views(before).push(found@.last()@));
                }
            },
            None => {},
        }
    }
    proof {
        assert(ls.deep_view().take(n as int) =~= ls.deep_view());
    }
    sort_lyrics(found)
}

/// The order by time is total and transitive.
pub proof fn lemma_lyric_order_total_preorder()
    ensures
        is_total_preorder(lyric_le()),
{
}

/// Parsed lyrics come out in time order.
pub proof fn lemma_parsed_lrc_sorted(content: Seq<char>)
    ensures
        sorted_by(lyric_le(), parsed_lrc(content)),
{
    lemma_sort_sorted(lyric_le(), timed_lines(lines_of(content)));
}

/// Lines with the same time keep the order they have in the file.
pub proof fn lemma_parsed_lrc_keeps_file_order(content: Seq<char>, y: LyricView)
    ensures
        alike(lyric_le(), parsed_lrc(content), y) == alike(
            lyric_le(),
            timed_lines(lines_of(content)),
            y,
        ),
{
    lemma_sort_stable(lyric_le(), timed_lines(lines_of(content)), y);
}

/// Parsing keeps each timed line once and adds none.
pub proof fn lemma_parsed_lrc_permutes(content: Seq<char>)
    ensures
        parsed_lrc(content).to_multiset() == timed_lines(lines_of(content)).to_multiset(),
{
    lemma_sort_permutes(lyric_le(), timed_lines(lines_of(content)));
}

/// A line with nothing but whitespace.
pub open spec fn is_blank(line: Seq<char>) -> bool {
    trimmed(line).len() == 0
}

/// The lines that are not blank, in order.
pub open spec fn non_blank_lines(lines: Seq<Seq<char>>) -> Seq<Seq<char>>
    decreases lines.len(),
{
    if lines.len() == 0 {
        seq![]
    } else {
        let rest = non_blank_lines(lines.drop_last());
        if is_blank(lines.last()) {
            rest
        } else {
            rest.push(lines.last())
        }
    }
}

/// Untimed lyrics made timed: each non-blank line, the `i`-th at `i * 5`
/// seconds.
pub open spec fn plain_lyrics(text: Seq<char>) -> Seq<LyricView> {
    let ls = non_blank_lines(lines_of(text));
    Seq::new(ls.len(), |i: int| LyricView { time_ms: saturate(i * 5000), text: ls[i] })
}

/// The lyrics of a lyrics-service answer: its synced (LRC) lyrics when they
/// are there and not empty, else its plain lyrics when they are there and not
/// empty, else none.
pub open spec fn response_lyrics(synced: Option<Seq<char>>, plain: Option<Seq<char>>) -> Seq<
    LyricView,
> {
    if synced is Some && synced->0.len() > 0 {
        parsed_lrc(synced->0)
    } else if plain is Some && plain->0.len() > 0 {
        plain_lyrics(plain->0)
    } else {
        seq![]
    }
}

/// Makes plain lyrics timed.
pub fn timed_plain_lyrics(text: &str) -> (r: Vec<LrcLine>)
    ensures
        lyric_views(r@) == plain_lyrics(text@),
{
    let ls = lines(text);
    let mut out: Vec<LrcLine> = Vec::new();
    let n = ls.len();
    for i in 0..n
        invariant
            n == ls.len(),
            ls.deep_view() == lines_of(text@),
            lyric_views(out@) == ({
                let kept = non_blank_lines(ls.deep_view().take(i as int));
                Seq::new(
                    kept.len(),
                    |k: int| LyricView { time_ms: saturate(k * 5000), text: kept[k] },
                )
            }),
    {
        let ghost prefix = ls.deep_view().take(i + 1);
        let ghost kept = non_blank_lines(ls.deep_view().take(i as int));
        proof {
            assert(prefix.drop_last() =~= ls.deep_view().take(i as int));
            assert(prefix.last() == ls@[i as int]@);
        }
        let trimmed_line = trim(ls[i].as_str());
        if !trimmed_line.as_str().is_empty() {
            let k = out.len();
            assert((k as int) * 5000 <= (usize::MAX as int) * 5000) by (nonlinear_arith)
                requires
                    k <= usize::MAX,
            ;
            let t: u128 = (k as u128) * 5000;
            let time: u64 = if t > u64::MAX as u128 {
                u64::MAX
            } else {
                t as u64
            };
            let ghost before = out@;
            proof {
                assert(lyric_views(before).len() == before.len());
                assert(k == kept.len());
            }
            out.push(LrcLine { time_ms: time, text: ls[i].clone() });
            proof {
                let kept2 = kept.push(ls@[i as int]@);
                assert(!is_blank(prefix.last()));
                assert(non_blank_lines(prefix) == kept2);
                assert(time == saturate(k * 5000));
                assert(out@.last()@.text == ls@[i as int]@);
                assert(lyric_views(out@).last() == LyricView {
                    time_ms: saturate(k * 5000),
                    text: kept2[k as int],
                });
                let old_seq = Seq::new(
                    kept.len(),
                    |q: int| LyricView { time_ms: saturate(q * 5000), text: kept[q] },
                );
                assert forall|q: int| 0 <= q < k implies lyric_views(out@)[q] == LyricView {
                    time_ms: saturate(q * 5000),
                    text: kept2[q],
                } by {
                    assert(lyric_views(out@)[q] == lyric_views(before)[q]);
                    assert(lyric_views(before)[q] == old_seq[q]);
                }
                assert(lyric_views(out@) =~= Seq::new(
                    kept2.len(),
                    |q: int| LyricView { time_ms: saturate(q * 5000), text: kept2[q] },
                ));
            }
        }
    }
    proof {
        assert(ls.deep_view().take(n as int) =~= ls.deep_view());
    }
    out
}

/// The lyrics of a lyrics-service answer, given its `syncedLyrics` and
/// `plainLyrics` fields where they are strings.
pub fn lyrics_from_response(synced: Option<&str>, plain: Option<&str>) -> (r: Vec<LrcLine>)
    ensures
        lyric_views(r@) == response_lyrics(
            match synced {
                Some(s) => Some(s@),
                None => None,
            },
            match plain {
                Some(s) => Some(s@),
                None => None,
            },
        ),
{
    if let Some(s) = synced {
        if !s.is_empty() {
            return parse_lrc(s);
        }
    }
    if let Some(p) = plain {
        if !p.is_empty() {
            return timed_plain_lyrics(p);
        }
    }
    let r: Vec<LrcLine> = Vec::new();
    proof {
        assert(lyric_views(r@) =~= Seq::<LyricView>::empty());
    }
    r
}

/// How many lines, from the first on, have come due at `pos` (their time is
/// at most `pos`); the count stops at the first line not yet due.
pub open spec fn due_count(lines: Seq<LyricView>, pos: u64) -> int
    decreases lines.len(),
{
    if lines.len() == 0 {
        0
    } else if lines[0].time_ms <= pos {
        1 + due_count(lines.drop_first(), pos)
    } else {
        0
    }
}

/// The line shown as current at `pos`: the last of the lines due, or the
/// first line when none is due.
pub open spec fn current_lyric(lines: Seq<LyricView>, pos: u64) -> int {
    let c = due_count(lines, pos);
    if c == 0 {
        0
    } else {
        c - 1
    }
}

proof fn lemma_due_count_at(lines: Seq<LyricView>, pos: u64, c: int)
    requires
        0 <= c <= lines.len(),
        forall|k: int| 0 <= k < c ==> (#[trigger] lines[k]).time_ms <= pos,
        c == lines.len() || lines[c].time_ms > pos,
    ensures
        due_count(lines, pos) == c,
    decreases c,
{
    if c > 0 {
        let t = lines.drop_first();
        assert forall|k: int| 0 <= k < c - 1 implies (#[trigger] t[k]).time_ms <= pos by {
            assert(t[k] == lines[k + 1]);
        }
        lemma_due_count_at(t, pos, c - 1);
    }
}

/// The index of the current lyric line at position `pos` (milliseconds).
pub fn current_lyric_index(lines: &Vec<LrcLine>, pos: u64) -> (r: usize)
    requires
        lines.len() > 0,
    ensures
        r == current_lyric(lyric_views(lines@), pos),
        r < lines.len(),
{
    let mut c: usize = 0;
    while c < lines.len() && lines[c].time_ms <= pos
        invariant
            c <= lines.len(),
            forall|k: int| 0 <= k < c ==> (#[trigger] lines@[k]).time_ms <= pos,
        decreases lines.len() - c,
    {
        c = c + 1;
    }
    proof {
        let v = lyric_views(lines@);
        assert forall|k: int| 0 <= k < c implies (#[trigger] v[k]).time_ms <= pos by {
            assert(v[k] == lines@[k]@);
        }
        if c < lines.len() {
            assert(v[c as int] == lines@[c as int]@);
        }
        lemma_due_count_at(v, pos, c as int);
    }
    if c == 0 {
        0
    } else {
        c - 1
    }
}

/// The texts shown at `pos`: the line before the current one (empty at the
/// start), the current line, and the line after it (empty at the end).
pub open spec fn lyric_window(lines: Seq<LyricView>, pos: u64) -> (Seq<char>, Seq<char>, Seq<char>) {
    let i = current_lyric(lines, pos);
    (
        if i > 0 {
            lines[i - 1].text
        } else {
            seq![]
        },
        lines[i].text,
        if i + 1 < lines.len() {
            lines[i + 1].text
        } else {
            seq![]
        },
    )
}

/// The three lyric texts to show at `pos`, or `None` when there are no lyrics.
pub fn lyric_window_texts(lines: &Vec<LrcLine>, pos: u64) -> (r: Option<(String, String, String)>)
    ensures
        match r {
            Some((a, b, c)) => lines.len() > 0 && lyric_window(lyric_views(lines@), pos) == (
                a@,
                b@,
                c@,
            ),
            None => lines.len() == 0,
        },
{
    if lines.len() == 0 {
        return None;
    }
    let i = current_lyric_index(lines, pos);
    let prev = if i > 0 {
        lines[i - 1].text.clone()
    } else {
        String::new()
    };
    let next = if i + 1 < lines.len() {
        lines[i + 1].text.clone()
    } else {
        String::new()
    };
    let cur = lines[i].text.clone();
    proof {
        let v = lyric_views(lines@);
        assert(v[i as int] == lines@[i as int]@);
        if i > 0 {
            assert(v[i - 1] == lines@[i - 1]@);
        }
        if i + 1 < lines.len() {
            assert(v[i + 1] == lines@[i + 1]@);
        }
    }
    Some((prev, cur, next))
}

/// Index of the last `'.'` in `s`, or -1 when there is none.
pub open spec fn last_dot(s: Seq<char>) -> int
    decreases s.len(),
{
    if s.len() == 0 {
        -1
    } else if s.last() == '.' {
        s.len() - 1
    } else {
        last_dot(s.drop_last())
    }
}

/// The LRC file looked for beside an audio file: the path up to its last
/// `'.'` (the whole path when there is none), then `.lrc`.
pub open spec fn lrc_path_of(path: Seq<char>) -> Seq<char> {
    let d = last_dot(path);
    (if d >= 0 {
        path.take(d)
    } else {
        path
    }) + ".lrc"@
}

proof fn lemma_last_dot_at(s: Seq<char>, d: int)
    requires
        -1 <= d < s.len(),
        d >= 0 ==> s[d] == '.',
        forall|k: int| d < k < s.len() ==> #[trigger] s[k] != '.',
    ensures
        last_dot(s) == d,
    decreases s.len(),
{
    if s.len() > 0 && d != s.len() - 1 {
        let t = s.drop_last();
        assert forall|k: int| d < k < t.len() implies #[trigger] t[k] != '.' by {
            assert(t[k] == s[k]);
        }
        if d >= 0 {
            assert(t[d] == s[d]);
        }
        lemma_last_dot_at(t, d);
    }
}

/// Only the last extension is replaced: a path made of `p`, a `'.'` and an
/// extension `e` without dots has its LRC file at `p` then `.lrc`, whatever
/// dots `p` itself holds (in the file name or in a directory); a path without
/// any dot gets `.lrc` appended.
pub proof fn lemma_lrc_path_replaces_last_extension(p: Seq<char>, e: Seq<char>)
    requires
        forall|k: int| 0 <= k < e.len() ==> #[trigger] e[k] != '.',
    ensures
        lrc_path_of(p + seq!['.'] + e) == p + ".lrc"@,
        (forall|k: int| 0 <= k < p.len() ==> #[trigger] p[k] != '.') ==> lrc_path_of(p) == p
            + ".lrc"@,
{
    let s = p + seq!['.'] + e;
    assert forall|k: int| p.len() < k < s.len() implies #[trigger] s[k] != '.' by {
        assert(s[k] == e[k - p.len() - 1]);
    }
    lemma_last_dot_at(s, p.len() as int);
    assert(s.take(p.len() as int) =~= p);
    if forall|k: int| 0 <= k < p.len() ==> #[trigger] p[k] != '.' {
        lemma_last_dot_at(p, -1);
    }
}

/// The path of the LRC file beside an audio file.
pub fn lrc_path_for(path: &str) -> (r: String)
    ensures
        r@ == lrc_path_of(path@),
{
    let v = to_chars(path);
    let mut j: usize = v.len();
    while j > 0 && v[j - 1] != '.'
        invariant
            j <= v.len(),
            forall|k: int| j <= k < v.len() ==> #[trigger] v@[k] != '.',
        decreases j,
    {
        j = j - 1;
    }
    proof {
        lemma_last_dot_at(path@, j - 1);
    }
    let mut r = if j > 0 {
        String::from_str(path.substring_char(0, j - 1))
    } else {
        String::from_str(path)
    };
    r.append(".lrc");
    r
}

/// The lyrics-service query for a track: the search address with the
/// percent-encoded artist and title.
pub open spec fn lyrics_search_url_of(artist: Seq<char>, title: Seq<char>) -> Seq<char> {
    "https://lrclib.net/api/search?artist_name="@ + percent_encoded(
        vstd::utf8::encode_utf8(artist),
    ) + "&track_name="@ + percent_encoded(vstd::utf8::encode_utf8(title))
}

/// The lyrics-service query for a track.
pub fn lyrics_search_url(artist: &str, title: &str) -> (r: String)
    ensures
        r@ == lyrics_search_url_of(artist@, title@),
{
    let mut r = String::from_str("https://lrclib.net/api/search?artist_name=");
    let a = url_encode(artist);
    r.append(a.as_str());
    r.append("&track_name=");
    let t = url_encode(title);
    r.append(t.as_str());
    r
}

/// `due_count` counts only lines that are due, and stops at one that is not.
proof fn lemma_due_count_props(lines: Seq<LyricView>, pos: u64)
    ensures
        0 <= due_count(lines, pos) <= lines.len(),
        forall|k: int| 0 <= k < due_count(lines, pos) ==> (#[trigger] lines[k]).time_ms <= pos,
        due_count(lines, pos) < lines.len() ==> lines[due_count(lines, pos)].time_ms > pos,
    decreases lines.len(),
{
    if lines.len() > 0 && lines[0].time_ms <= pos {
        let t = lines.drop_first();
        lemma_due_count_props(t, pos);
        assert forall|k: int| 0 <= k < due_count(lines, pos) implies (#[trigger] lines[k]).time_ms
            <= pos by {
            if k > 0 {
                assert(lines[k] == t[k - 1]);
            }
        }
        if due_count(lines, pos) < lines.len() {
            assert(lines[due_count(lines, pos)] == t[due_count(t, pos)]);
        }
    }
}

/// With lyrics in time order, the line shown as current is the latest line
/// whose time has come: it is due, and no later line is. Before the first
/// line is due, the first line is shown.
pub proof fn lemma_current_lyric_is_latest_due(lines: Seq<LyricView>, pos: u64)
    requires
        sorted_by(lyric_le(), lines),
        lines.len() > 0,
    ensures
        0 <= current_lyric(lines, pos) < lines.len(),
        lines[0].time_ms <= pos ==> lines[current_lyric(lines, pos)].time_ms <= pos,
        lines[0].time_ms <= pos ==> forall|k: int|
            current_lyric(lines, pos) < k < lines.len() ==> (#[trigger] lines[k]).time_ms > pos,
        lines[0].time_ms > pos ==> current_lyric(lines, pos) == 0,
{
    lemma_due_count_props(lines, pos);
    let c = due_count(lines, pos);
    if lines[0].time_ms <= pos {
        assert(c >= 1);
        assert forall|k: int| c - 1 < k < lines.len() implies (#[trigger] lines[k]).time_ms
            > pos by {
            if k > c {
                assert(lyric_le()(lines[c], lines[k]));
            }
        }
    }
}

} // verus!
