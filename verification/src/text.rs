use vstd::prelude::*;

verus! {

/// The characters of `s`, in order.
pub fn to_chars(s: &str) -> (v: Vec<char>)
    ensures
        v@ == s@,
{
    let mut v: Vec<char> = Vec::new();
    for c in it: s.chars()
        invariant
            it.seq() == s@,
            v@ == it.seq().take(it.index() as int),
    {
        v.push(c);
    }
    v
}

/// Unicode's `White_Space` property: the characters that `char::is_whitespace`
/// and `str::trim` treat as whitespace.
pub open spec fn is_white_space(c: char) -> bool {
    let n = c as u32;
    ||| 0x9 <= n <= 0xd
    ||| n == 0x20
    ||| n == 0x85
    ||| n == 0xa0
    ||| n == 0x1680
    ||| 0x2000 <= n <= 0x200a
    ||| n == 0x2028
    ||| n == 0x2029
    ||| n == 0x202f
    ||| n == 0x205f
    ||| n == 0x3000
}

/// Decides `is_white_space`.
pub fn is_white_space_char(c: char) -> (b: bool)
    ensures
        b == is_white_space(c),
{
    let n = c as u32;
    (0x9 <= n && n <= 0xd) || n == 0x20 || n == 0x85 || n == 0xa0 || n == 0x1680 || (0x2000
        <= n && n <= 0x200a) || n == 0x2028 || n == 0x2029 || n == 0x202f || n == 0x205f || n
        == 0x3000
}

/// `s` without its leading whitespace.
pub open spec fn strip_leading(s: Seq<char>) -> Seq<char>
    decreases s.len(),
{
    if s.len() > 0 && is_white_space(s[0]) {
        strip_leading(s.drop_first())
    } else {
        s
    }
}

/// `s` without its trailing whitespace.
pub open spec fn strip_trailing(s: Seq<char>) -> Seq<char>
    decreases s.len(),
{
    if s.len() > 0 && is_white_space(s.last()) {
        strip_trailing(s.drop_last())
    } else {
        s
    }
}

/// `s` without leading and trailing whitespace, as `str::trim` gives it.
pub open spec fn trimmed(s: Seq<char>) -> Seq<char> {
    strip_trailing(strip_leading(s))
}

proof fn lemma_strip_leading_at(s: Seq<char>, i: int)
    requires
        0 <= i <= s.len(),
        forall|k: int| 0 <= k < i ==> is_white_space(#[trigger] s[k]),
        i == s.len() || !is_white_space(s[i]),
    ensures
        strip_leading(s) == s.subrange(i, s.len() as int),
    decreases i,
{
    if i == 0 {
        assert(s.subrange(0, s.len() as int) =~= s);
    } else {
        let t = s.drop_first();
        assert forall|k: int| 0 <= k < i - 1 implies is_white_space(#[trigger] t[k]) by {
            assert(t[k] == s[k + 1]);
        }
        lemma_strip_leading_at(t, i - 1);
        assert(t.subrange(i - 1, t.len() as int) =~= s.subrange(i, s.len() as int));
    }
}

proof fn lemma_strip_trailing_at(s: Seq<char>, j: int)
    requires
        0 <= j <= s.len(),
        forall|k: int| j <= k < s.len() ==> is_white_space(#[trigger] s[k]),
        j == 0 || !is_white_space(s[j - 1]),
    ensures
        strip_trailing(s) == s.subrange(0, j),
    decreases s.len() - j,
{
    if j == s.len() {
        assert(s.subrange(0, j) =~= s);
    } else {
        let t = s.drop_last();
        assert forall|k: int| j <= k < t.len() implies is_white_space(#[trigger] t[k]) by {
            assert(t[k] == s[k]);
        }
        lemma_strip_trailing_at(t, j);
        assert(t.subrange(0, j) =~= s.subrange(0, j));
    }
}

/// `s` without leading and trailing whitespace (`str::trim`).
pub fn trim(s: &str) -> (r: String)
    ensures
        r@ == trimmed(s@),
{
    let v = to_chars(s);
    let n = v.len();
    let mut i: usize = 0;
    while i < n && is_white_space_char(v[i])
        invariant
            v@ == s@,
            n == v.len(),
            i <= n,
            forall|k: int| 0 <= k < i ==> is_white_space(#[trigger] v@[k]),
        decreases n - i,
    {
        i = i + 1;
    }
    let mut j: usize = n;
    while j > i && is_white_space_char(v[j - 1])
        invariant
            v@ == s@,
            n == v.len(),
            i <= j <= n,
            forall|k: int| j <= k < n ==> is_white_space(#[trigger] v@[k]),
        decreases j - i,
    {
        j = j - 1;
    }
    proof {
        lemma_strip_leading_at(s@, i as int);
        let t = s@.subrange(i as int, n as int);
        assert forall|k: int| j - i <= k < t.len() implies is_white_space(#[trigger] t[k]) by {
            assert(t[k] == s@[k + i]);
        }
        if j > i {
            assert(t[j - i - 1] == s@[j - 1]);
        }
        lemma_strip_trailing_at(t, j - i);
        assert(t.subrange(0, j - i) =~= s@.subrange(i as int, j as int));
    }
    String::from_str(s.substring_char(i, j))
}


/// Index of the first `c` in `s`, or `s.len()` when there is none.
pub open spec fn char_pos(s: Seq<char>, c: char) -> int
    decreases s.len(),
{
    if s.len() == 0 {
        0
    } else if s[0] == c {
        0
    } else {
        1 + char_pos(s.drop_first(), c)
    }
}

pub proof fn lemma_char_pos_bounds(s: Seq<char>, c: char)
    ensures
        0 <= char_pos(s, c) <= s.len(),
    decreases s.len(),
{
    if s.len() > 0 && s[0] != c {
        lemma_char_pos_bounds(s.drop_first(), c);
    }
}

/// `char_pos` is the index of the first `c`.
pub proof fn lemma_char_pos_at(s: Seq<char>, c: char, p: int)
    requires
        0 <= p <= s.len(),
        forall|k: int| 0 <= k < p ==> #[trigger] s[k] != c,
        p == s.len() || s[p] == c,
    ensures
        char_pos(s, c) == p,
    decreases p,
{
    if p > 0 {
        let t = s.drop_first();
        assert forall|k: int| 0 <= k < p - 1 implies #[trigger] t[k] != c by {
            assert(t[k] == s[k + 1]);
        }
        lemma_char_pos_at(t, c, p - 1);
    }
}

/// A line's text without the `'\r'` of a `"\r\n"` ending.
pub open spec fn without_cr(line: Seq<char>) -> Seq<char> {
    if line.len() > 0 && line.last() == '\r' {
        line.drop_last()
    } else {
        line
    }
}

/// The lines of `s` as `str::lines` yields them: `s` is split at each `'\n'`,
/// a `'\r'` just before a `'\n'` is dropped, and a final line ending adds no
/// empty line.
pub open spec fn lines_of(s: Seq<char>) -> Seq<Seq<char>>
    decreases s.len(),
{
    if s.len() == 0 {
        seq![]
    } else {
        let p = char_pos(s, '\n');
        proof {
            lemma_char_pos_bounds(s, '\n');
        }
        if p >= s.len() {
            seq![s]
        } else {
            seq![without_cr(s.subrange(0, p))] + lines_of(s.subrange(p + 1, s.len() as int))
        }
    }
}

/// The lines of `s` (`str::lines`).
pub fn lines(s: &str) -> (r: Vec<String>)
    ensures
        r.deep_view() == lines_of(s@),
{
    let v = to_chars(s);
    let n = v.len();
    let mut out: Vec<String> = Vec::new();
    let mut start: usize = 0;
    proof {
        assert(s@.subrange(0, n as int) =~= s@);
        assert(out.deep_view() + lines_of(s@) =~= lines_of(s@));
    }
    while start < n
        invariant
            v@ == s@,
            n == v.len(),
            start <= n,
            lines_of(s@) == out.deep_view() + lines_of(s@.subrange(start as int, n as int)),
        decreases n - start,
    {
        let ghost rest = s@.subrange(start as int, n as int);
        let mut p: usize = start;
        while p < n && v[p] != '\n'
            invariant
                v@ == s@,
                n == v.len(),
                start <= p <= n,
                forall|k: int| start <= k < p ==> #[trigger] v@[k] != '\n',
            decreases n - p,
        {
            p = p + 1;
        }
        proof {
            assert forall|k: int| 0 <= k < p - start implies #[trigger] rest[k] != '\n' by {
                assert(rest[k] == s@[k + start]);
            }
            if p < n {
                assert(rest[p - start] == s@[p as int]);
            }
            lemma_char_pos_at(rest, '\n', p - start);
        }
        let ghost old_out = out.deep_view();
        if p == n {
            out.push(String::from_str(s.substring_char(start, n)));
            proof {
                assert(out.deep_view() =~= old_out.push(rest));
                assert(s@.subrange(n as int, n as int) =~= Seq::<char>::empty());
                assert(lines_of(rest) == seq![rest]);
                assert(old_out + seq![rest] =~= old_out.push(rest));
            }
            start = n;
        } else {
            let mut e: usize = p;
            if e > start && v[e - 1] == '\r' {
                e = e - 1;
            }
            out.push(String::from_str(s.substring_char(start, e)));
            proof {
                let line = rest.subrange(0, p - start);
                assert(rest.subrange(p - start + 1, rest.len() as int) =~= s@.subrange(
                    p + 1,
                    n as int,
                ));
                if p > start && v@[p - 1] == '\r' {
                    assert(line.last() == s@[p - 1]);
                    assert(without_cr(line) =~= s@.subrange(start as int, e as int));
                } else {
                    if p > start {
                        assert(line.last() == s@[p - 1]);
                    }
                    assert(without_cr(line) =~= s@.subrange(start as int, e as int));
                }
                assert(out.deep_view() =~= old_out.push(without_cr(line)));
                assert(old_out + lines_of(rest) =~= out.deep_view() + lines_of(
                    s@.subrange(p + 1, n as int),
                ));
            }
            start = p + 1;
        }
    }
    proof {
        assert(s@.subrange(n as int, n as int) =~= Seq::<char>::empty());
        assert(out.deep_view() + Seq::<Seq<char>>::empty() =~= out.deep_view());
    }
    out
}


/// `pat` occurs in `h` starting at index `i`.
pub open spec fn occurs_at(h: Seq<char>, pat: Seq<char>, i: int) -> bool {
    0 <= i && i + pat.len() <= h.len() && h.subrange(i, i + pat.len()) == pat
}

/// `pat` occurs somewhere in `h` (`str::contains`; the empty pattern occurs in
/// every string).
pub open spec fn contains_seq(h: Seq<char>, pat: Seq<char>) -> bool {
    exists|i: int| occurs_at(h, pat, i)
}

/// `i` is where `pat` first occurs in `h`.
pub open spec fn first_occurrence(h: Seq<char>, pat: Seq<char>, i: int) -> bool {
    occurs_at(h, pat, i) && forall|j: int| 0 <= j < i ==> !occurs_at(h, pat, j)
}

/// There is at most one first occurrence.
pub proof fn lemma_first_occurrence_unique(h: Seq<char>, pat: Seq<char>, i: int, j: int)
    requires
        first_occurrence(h, pat, i),
        first_occurrence(h, pat, j),
    ensures
        i == j,
{
}

/// Where `pat` occurs, it has a first occurrence.
pub proof fn lemma_first_occurrence_exists(h: Seq<char>, pat: Seq<char>, k: int)
    requires
        occurs_at(h, pat, k),
    ensures
        exists|i: int| first_occurrence(h, pat, i),
    decreases k,
{
    if forall|j: int| 0 <= j < k ==> !occurs_at(h, pat, j) {
        assert(first_occurrence(h, pat, k));
    } else {
        let j = choose|j: int| 0 <= j < k && occurs_at(h, pat, j);
        lemma_first_occurrence_exists(h, pat, j);
    }
}

fn matches_at(h: &Vec<char>, pat: &Vec<char>, i: usize) -> (b: bool)
    requires
        i + pat.len() <= h.len(),
    ensures
        b == occurs_at(h@, pat@, i as int),
{
    let m = pat.len();
    let mut k: usize = 0;
    while k < m
        invariant
            m == pat.len(),
            i + m <= h.len(),
            k <= m,
            forall|q: int| 0 <= q < k ==> h@[i + q] == pat@[q],
        decreases m - k,
    {
        if h[i + k] != pat[k] {
            proof {
                assert(h@.subrange(i as int, i + m)[k as int] != pat@[k as int]);
            }
            return false;
        }
        k = k + 1;
    }
    assert(h@.subrange(i as int, i + m) =~= pat@);
    true
}

/// Where `pat` first occurs in `h`, if it occurs.
pub fn find_first(h: &Vec<char>, pat: &Vec<char>) -> (r: Option<usize>)
    ensures
        match r {
            Some(i) => first_occurrence(h@, pat@, i as int),
            None => !contains_seq(h@, pat@),
        },
{
    if pat.len() > h.len() {
        return None;
    }
    let last = h.len() - pat.len();
    let mut i: usize = 0;
    while i <= last
        invariant
            last == h.len() - pat.len(),
            pat.len() <= h.len(),
            i <= last + 1,
            forall|j: int| 0 <= j < i ==> !occurs_at(h@, pat@, j),
        decreases last + 1 - i,
    {
        if matches_at(h, pat, i) {
            return Some(i);
        }
        if i == last {
            return None;
        }
        i = i + 1;
    }
    None
}

/// The character of decimal digit `d` (`d < 10`).
pub open spec fn digit_char(d: nat) -> char {
    (0x30 + d) as char
}

/// The decimal numeral of `n`, as `{}` formats an unsigned integer.
pub open spec fn decimal(n: nat) -> Seq<char>
    decreases n,
{
    if n < 10 {
        seq![digit_char(n)]
    } else {
        decimal(n / 10) + seq![digit_char(n % 10)]
    }
}

/// The numeral of `n` padded with a leading zero to two digits (`{:02}`).
pub open spec fn two_digits(n: nat) -> Seq<char> {
    if n < 10 {
        seq!['0'] + decimal(n)
    } else {
        decimal(n)
    }
}

/// A number below 100 is written with exactly two digits.
pub proof fn lemma_two_digits_len(n: nat)
    requires
        n < 100,
    ensures
        two_digits(n).len() == 2,
{
    if n >= 10 {
        assert(decimal(n / 10) == seq![digit_char(n / 10)]);
    }
}

fn digit_str(d: u64) -> (r: &'static str)
    requires
        d < 10,
    ensures
        r@ == seq![digit_char(d as nat)],
{
    let digits = "0123456789";
    proof {
        reveal_strlit("0123456789");
    }
    let r = digits.substring_char(d as usize, d as usize + 1);
    proof {
        assert(r@ =~= seq![digit_char(d as nat)]);
    }
    r
}

/// Appends the decimal numeral of `n` to `out`.
pub fn push_decimal(out: &mut String, n: u64)
    ensures
        final(out)@ == old(out)@ + decimal(n as nat),
    decreases n,
{
    if n >= 10 {
        push_decimal(out, n / 10);
    }
    out.append(digit_str(n % 10));
    proof {
        if n >= 10 {
            assert(old(out)@ + decimal(n as nat) =~= old(out)@ + decimal((n / 10) as nat) + seq![
                digit_char((n % 10) as nat),
            ]);
        } else {
            assert(decimal(n as nat) == seq![digit_char(n as nat)]);
        }
    }
}

/// Appends `n` padded to two digits to `out`.
pub fn push_two_digits(out: &mut String, n: u64)
    ensures
        final(out)@ == old(out)@ + two_digits(n as nat),
{
    if n < 10 {
        out.append("0");
        proof {
            reveal_strlit("0");
        }
    }
    push_decimal(out, n);
    proof {
        if n < 10 {
            assert(old(out)@ + two_digits(n as nat) =~= old(out)@ + seq!['0'] + decimal(n as nat));
        }
    }
}

/// The decimal numeral of `n` as a string.
pub fn decimal_string(n: u64) -> (r: String)
    ensures
        r@ == decimal(n as nat),
{
    let mut s = String::new();
    push_decimal(&mut s, n);
    proof {
        assert(Seq::<char>::empty() + decimal(n as nat) =~= decimal(n as nat));
    }
    s
}

/// Lexicographic order of strings by code point, as `str`'s `Ord` compares
/// them (UTF-8 byte order agrees with code point order).
pub open spec fn lex_le(a: Seq<char>, b: Seq<char>) -> bool
    decreases a.len(),
{
    if a.len() == 0 {
        true
    } else if b.len() == 0 {
        false
    } else if a[0] < b[0] {
        true
    } else if a[0] > b[0] {
        false
    } else {
        lex_le(a.drop_first(), b.drop_first())
    }
}

/// `lex_le` is total.
pub proof fn lemma_lex_total(a: Seq<char>, b: Seq<char>)
    ensures
        lex_le(a, b) || lex_le(b, a),
    decreases a.len(),
{
    if a.len() > 0 && b.len() > 0 && a[0] == b[0] {
        lemma_lex_total(a.drop_first(), b.drop_first());
    }
}

/// `lex_le` is transitive.
pub proof fn lemma_lex_transitive(a: Seq<char>, b: Seq<char>, c: Seq<char>)
    requires
        lex_le(a, b),
        lex_le(b, c),
    ensures
        lex_le(a, c),
    decreases a.len(),
{
    if a.len() > 0 && b.len() > 0 && c.len() > 0 && a[0] == b[0] && b[0] == c[0] {
        lemma_lex_transitive(a.drop_first(), b.drop_first(), c.drop_first());
    }
}

/// `lex_le` is antisymmetric.
pub proof fn lemma_lex_antisymmetric(a: Seq<char>, b: Seq<char>)
    requires
        lex_le(a, b),
        lex_le(b, a),
    ensures
        a == b,
    decreases a.len(),
{
    if a.len() > 0 && b.len() > 0 {
        lemma_lex_antisymmetric(a.drop_first(), b.drop_first());
        assert(a =~= seq![a[0]] + a.drop_first());
        assert(b =~= seq![b[0]] + b.drop_first());
    }
}

/// Decides `lex_le`.
pub fn lex_le_chars(a: &Vec<char>, b: &Vec<char>) -> (r: bool)
    ensures
        r == lex_le(a@, b@),
{
    let mut i: usize = 0;
    proof {
        assert(a@.skip(0) =~= a@);
        assert(b@.skip(0) =~= b@);
    }
    while i < a.len() && i < b.len() && a[i] == b[i]
        invariant
            i <= a.len(),
            i <= b.len(),
            lex_le(a@, b@) == lex_le(a@.skip(i as int), b@.skip(i as int)),
        decreases a.len() - i,
    {
        proof {
            let sa = a@.skip(i as int);
            let sb = b@.skip(i as int);
            assert(sa.drop_first() =~= a@.skip(i + 1));
            assert(sb.drop_first() =~= b@.skip(i + 1));
            assert(sa[0] == a@[i as int]);
            assert(sb[0] == b@[i as int]);
        }
        i = i + 1;
    }
    proof {
        let sa = a@.skip(i as int);
        let sb = b@.skip(i as int);
        if i < a.len() {
            assert(sa[0] == a@[i as int]);
        }
        if i < b.len() {
            assert(sb[0] == b@[i as int]);
        }
    }
    if i == a.len() {
        true
    } else if i == b.len() {
        false
    } else {
        a[i] < b[i]
    }
}

} // verus!
