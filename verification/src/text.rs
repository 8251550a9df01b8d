//! Character-level text handling: whitespace trimming, line splitting,
//! splitting on a separator, substring search and decimal parsing, each
//! with the meaning the corresponding `str` method has.
use vstd::prelude::*;

verus! {

/// The Unicode `White_Space` characters: the set that `char::is_whitespace` accepts.
pub open spec fn is_space(c: char) -> bool {
    let u = c as u32;
    ||| 0x09 <= u <= 0x0D
    ||| u == 0x20
    ||| u == 0x85
    ||| u == 0xA0
    ||| u == 0x1680
    ||| 0x2000 <= u <= 0x200A
    ||| u == 0x2028
    ||| u == 0x2029
    ||| u == 0x202F
    ||| u == 0x205F
    ||| u == 0x3000
}

/// `s` without its leading whitespace.
pub open spec fn trim_start(s: Seq<char>) -> Seq<char>
    decreases s.len(),
{
    if s.len() > 0 && is_space(s[0]) {
        trim_start(s.drop_first())
    } else {
        s
    }
}

/// `s` without its trailing whitespace.
pub open spec fn trim_end(s: Seq<char>) -> Seq<char>
    decreases s.len(),
{
    if s.len() > 0 && is_space(s.last()) {
        trim_end(s.drop_last())
    } else {
        s
    }
}

/// `s` without leading and trailing whitespace, as `str::trim` gives it.
pub open spec fn trimmed(s: Seq<char>) -> Seq<char> {
    trim_end(trim_start(s))
}

/// Index of the first occurrence of `c` in `s`, or `s.len()` when there is none.
pub open spec fn first_index(s: Seq<char>, c: char) -> nat
    decreases s.len(),
{
    if s.len() == 0 {
        0
    } else if s[0] == c {
        0
    } else {
        1 + first_index(s.drop_first(), c)
    }
}

/// The pieces of `s` between occurrences of `sep`, as `str::split` yields them
/// for a character pattern.
pub open spec fn split_pieces(s: Seq<char>, sep: char) -> Seq<Seq<char>>
    decreases s.len(),
{
    let k = first_index(s, sep);
    if k < s.len() {
        seq![s.take(k as int)] + split_pieces(s.skip(k as int + 1), sep)
    } else {
        seq![s]
    }
}

/// The second piece of `s` split at `sep` (`s.split(sep).nth(1)`).
pub open spec fn second_piece(s: Seq<char>, sep: char) -> Option<Seq<char>> {
    let pieces = split_pieces(s, sep);
    if pieces.len() > 1 {
        Some(pieces[1])
    } else {
        None
    }
}

/// A line as `str::lines` hands it out: one trailing carriage return removed.
pub open spec fn strip_carriage_return(line: Seq<char>) -> Seq<char> {
    if line.len() > 0 && line.last() == '\r' {
        line.drop_last()
    } else {
        line
    }
}

/// The lines of `s` as `str::lines` yields them: split at `\n`, a `\r`
/// before the `\n` removed, no empty line after a final `\n`.
pub open spec fn lines_of(s: Seq<char>) -> Seq<Seq<char>>
    decreases s.len(),
{
    if s.len() == 0 {
        seq![]
    } else {
        let k = first_index(s, '\n');
        if k < s.len() {
            seq![strip_carriage_return(s.take(k as int))] + lines_of(s.skip(k as int + 1))
        } else {
            seq![s]
        }
    }
}

/// `pat` occurs in `s` starting at position `i`.
pub open spec fn occurs_at(s: Seq<char>, pat: Seq<char>, i: int) -> bool {
    0 <= i && i + pat.len() <= s.len() && s.subrange(i, i + pat.len()) == pat
}

/// `pat` occurs somewhere in `s` (`str::contains`).
pub open spec fn contains_seq(s: Seq<char>, pat: Seq<char>) -> bool {
    exists|i: int| occurs_at(s, pat, i)
}

/// The first of `lines` that contains `pat`.
pub open spec fn first_line_containing(lines: Seq<Seq<char>>, pat: Seq<char>) -> Option<Seq<char>>
    decreases lines.len(),
{
    if lines.len() == 0 {
        None
    } else if contains_seq(lines[0], pat) {
        Some(lines[0])
    } else {
        first_line_containing(lines.drop_first(), pat)
    }
}

/// An ASCII decimal digit.
pub open spec fn is_digit(c: char) -> bool {
    48 <= (c as u32) <= 57
}

/// All characters of `s` are ASCII decimal digits.
pub open spec fn all_digits(s: Seq<char>) -> bool {
    forall|i: int| 0 <= i < s.len() ==> is_digit(#[trigger] s[i])
}

/// The value of the decimal numeral `s`.
pub open spec fn decimal_value(s: Seq<char>) -> nat
    decreases s.len(),
{
    if s.len() == 0 {
        0
    } else {
        decimal_value(s.drop_last()) * 10 + ((s.last() as u32) - 48) as nat
    }
}

/// What `str::parse::<i64>` gives: an optional sign (`+` or `-`), then one or
/// more decimal digits and nothing else, whose value fits in an `i64`.
pub open spec fn parse_i64_spec(s: Seq<char>) -> Option<i64> {
    let negative = s.len() > 0 && s[0] == '-';
    let body = if s.len() > 0 && (s[0] == '-' || s[0] == '+') {
        s.drop_first()
    } else {
        s
    };
    if body.len() == 0 || !all_digits(body) {
        None
    } else {
        let v: int = if negative {
            -(decimal_value(body) as int)
        } else {
            decimal_value(body) as int
        };
        if i64::MIN <= v <= i64::MAX {
            Some(v as i64)
        } else {
            None
        }
    }
}

proof fn lemma_first_index(s: Seq<char>, c: char, k: int)
    requires
        0 <= k <= s.len(),
        forall|j: int| 0 <= j < k ==> s[j] != c,
        k < s.len() ==> s[k] == c,
    ensures
        first_index(s, c) == k,
    decreases k,
{
    if k > 0 {
        lemma_first_index(s.drop_first(), c, k - 1);
    }
}

proof fn lemma_first_index_bound(s: Seq<char>, c: char)
    ensures
        first_index(s, c) <= s.len(),
        first_index(s, c) < s.len() ==> s[first_index(s, c) as int] == c,
        forall|j: int| 0 <= j < first_index(s, c) ==> s[j] != c,
    decreases s.len(),
{
    if s.len() > 0 && s[0] != c {
        lemma_first_index_bound(s.drop_first(), c);
        assert forall|j: int| 0 <= j < first_index(s, c) implies s[j] != c by {
            if j > 0 {
                assert(s[j] == s.drop_first()[j - 1]);
            }
        }
    }
}

/// Number of characters of `s`.
fn char_count(s: &str) -> (n: usize)
    ensures
        n == s@.len(),
{
    s.unicode_len()
}

/// Position of the first `c` in `s` at or after `from`, or `s@.len()`.
fn find_char_from(s: &str, n: usize, from: usize, c: char) -> (k: usize)
    requires
        n == s@.len(),
        from <= n,
    ensures
        from <= k <= n,
        k - from == first_index(s@.subrange(from as int, n as int), c),
{
    let mut k = from;
    while k < n && s.get_char(k) != c
        invariant
            n == s@.len(),
            from <= k <= n,
            forall|j: int| from <= j < k ==> s@[j] != c,
        decreases n - k,
    {
        k = k + 1;
    }
    proof {
        let t = s@.subrange(from as int, n as int);
        assert forall|j: int| 0 <= j < k - from implies t[j] != c by {
            assert(t[j] == s@[from + j]);
        }
        if k < n {
            assert(t[k - from] == s@[k as int]);
        }
        lemma_first_index(t, c, k - from);
    }
    k
}

/// Whether `c` is whitespace (`char::is_whitespace`).
pub fn is_whitespace(c: char) -> (b: bool)
    ensures
        b == is_space(c),
{
    let u = c as u32;
    (0x09 <= u && u <= 0x0D) || u == 0x20 || u == 0x85 || u == 0xA0 || u == 0x1680 || (0x2000
        <= u && u <= 0x200A) || u == 0x2028 || u == 0x2029 || u == 0x202F || u == 0x205F || u
        == 0x3000
}

proof fn lemma_trim_start_skip(s: Seq<char>, k: int)
    requires
        0 <= k <= s.len(),
        forall|j: int| 0 <= j < k ==> is_space(s[j]),
    ensures
        trim_start(s) == trim_start(s.skip(k)),
    decreases k,
{
    if k > 0 {
        assert(is_space(s[0]));
        assert(s.skip(k) =~= s.drop_first().skip(k - 1));
        assert forall|j: int| 0 <= j < k - 1 implies is_space(s.drop_first()[j]) by {
            assert(s.drop_first()[j] == s[j + 1]);
        }
        lemma_trim_start_skip(s.drop_first(), k - 1);
    } else {
        assert(s.skip(k) =~= s);
    }
}

proof fn lemma_trim_end_take(s: Seq<char>, k: int)
    requires
        0 <= k <= s.len(),
        forall|j: int| k <= j < s.len() ==> is_space(s[j]),
    ensures
        trim_end(s) == trim_end(s.take(k)),
    decreases s.len() - k,
{
    if k < s.len() {
        assert(is_space(s.last()));
        assert(s.take(k) =~= s.drop_last().take(k));
        assert forall|j: int| k <= j < s.drop_last().len() implies is_space(s.drop_last()[j]) by {
            assert(s.drop_last()[j] == s[j]);
        }
        lemma_trim_end_take(s.drop_last(), k);
    } else {
        assert(s.take(k) =~= s);
    }
}

/// `s` without leading and trailing whitespace (`str::trim`).
pub fn trim(s: &str) -> (t: &str)
    ensures
        t@ == trimmed(s@),
{
    let n = char_count(s);
    let mut lo: usize = 0;
    while lo < n && is_whitespace(s.get_char(lo))
        invariant
            n == s@.len(),
            lo <= n,
            forall|j: int| 0 <= j < lo ==> is_space(s@[j]),
        decreases n - lo,
    {
        lo = lo + 1;
    }
    let mut hi: usize = n;
    while hi > lo && is_whitespace(s.get_char(hi - 1))
        invariant
            n == s@.len(),
            lo <= hi <= n,
            forall|j: int| hi <= j < n ==> is_space(s@[j]),
        decreases hi - lo,
    {
        hi = hi - 1;
    }
    proof {
        lemma_trim_start_skip(s@, lo as int);
        let rest = s@.skip(lo as int);
        if lo < n {
            assert(!is_space(rest[0]));
        }
        assert(trim_start(rest) == rest);
        assert forall|j: int| hi - lo <= j < rest.len() implies is_space(rest[j]) by {
            assert(rest[j] == s@[lo + j]);
        }
        lemma_trim_end_take(rest, hi - lo);
        let core = rest.take(hi - lo);
        if hi > lo {
            assert(core.last() == s@[hi - 1]);
        }
        assert(trim_end(core) == core);
        assert(core =~= s@.subrange(lo as int, hi as int));
    }
    s.substring_char(lo, hi)
}

proof fn lemma_split_two(s: Seq<char>, sep: char, k: int, m: int)
    requires
        0 <= k < s.len(),
        k + 1 <= m <= s.len(),
        first_index(s, sep) == k,
        first_index(s.skip(k + 1), sep) == m - k - 1,
    ensures
        second_piece(s, sep) == Some(s.subrange(k + 1, m)),
{
    let rest = s.skip(k + 1);
    let pieces_rest = split_pieces(rest, sep);
    assert(split_pieces(s, sep) == seq![s.take(k)] + pieces_rest);
    if m < s.len() {
        assert(pieces_rest == seq![rest.take(m - k - 1)] + split_pieces(rest.skip(m - k), sep));
    } else {
        assert(pieces_rest == seq![rest]);
    }
    assert(pieces_rest[0] =~= s.subrange(k + 1, m));
}

/// The second piece of `s` split at `sep` (`s.split(sep).nth(1)`).
pub fn second_piece_of(s: &str, sep: char) -> (r: Option<&str>)
    ensures
        match r {
            Some(p) => second_piece(s@, sep) == Some(p@),
            None => second_piece(s@, sep) is None,
        },
{
    let n = char_count(s);
    let k = find_char_from(s, n, 0, sep);
    assert(s@.subrange(0, n as int) =~= s@);
    if k == n {
        proof {
            assert(split_pieces(s@, sep) == seq![s@]);
        }
        return None;
    }
    let m = find_char_from(s, n, k + 1, sep);
    proof {
        assert(s@.skip(k + 1) =~= s@.subrange(k + 1, n as int));
        lemma_split_two(s@, sep, k as int, m as int);
    }
    Some(s.substring_char(k + 1, m))
}

/// Whether `pat` occurs in `s` (`str::contains`).
pub fn contains(s: &str, pat: &str) -> (b: bool)
    ensures
        b == contains_seq(s@, pat@),
{
    let n = char_count(s);
    let m = char_count(pat);
    if m > n {
        proof {
            assert forall|i: int| !occurs_at(s@, pat@, i) by {}
        }
        return false;
    }
    let mut i: usize = 0;
    while i <= n - m
        invariant
            n == s@.len(),
            m == pat@.len(),
            m <= n,
            i <= n - m + 1,
            forall|p: int| 0 <= p < i ==> !occurs_at(s@, pat@, p),
        decreases n - m + 1 - i,
    {
        let mut j: usize = 0;
        while j < m && s.get_char(i + j) == pat.get_char(j)
            invariant
                n == s@.len(),
                m == pat@.len(),
                i + m <= n,
                j <= m,
                forall|q: int| 0 <= q < j ==> s@[i + q] == pat@[q],
            decreases m - j,
        {
            j = j + 1;
        }
        if j == m {
            proof {
                assert(s@.subrange(i as int, i + m) =~= pat@);
                assert(occurs_at(s@, pat@, i as int));
            }
            return true;
        }
        proof {
            if occurs_at(s@, pat@, i as int) {
                assert(s@.subrange(i as int, i + m)[j as int] == s@[i + j]);
            }
        }
        i = i + 1;
    }
    proof {
        assert forall|p: int| !occurs_at(s@, pat@, p) by {
            if 0 <= p < i {
            }
        }
    }
    false
}

proof fn lemma_lines_step(s: Seq<char>, k: int)
    requires
        s.len() > 0,
        first_index(s, '\n') == k,
        k < s.len(),
    ensures
        lines_of(s) == seq![strip_carriage_return(s.take(k))] + lines_of(s.skip(k + 1)),
{
}

/// The lines of `s` (`str::lines`).
pub fn lines(s: &str) -> (v: Vec<&str>)
    ensures
        v@.map_values(|l: &str| l@) == lines_of(s@),
{
    let n = char_count(s);
    let mut out: Vec<&str> = Vec::new();
    let mut pos: usize = 0;
    proof {
        assert(s@.subrange(0, n as int) =~= s@);
        assert(out@.map_values(|l: &str| l@) + lines_of(s@) =~= lines_of(s@));
    }
    while pos < n
        invariant
            n == s@.len(),
            pos <= n,
            out@.map_values(|l: &str| l@) + lines_of(s@.subrange(pos as int, n as int)) == lines_of(
                s@,
            ),
        decreases n - pos,
    {
        let ghost rest = s@.subrange(pos as int, n as int);
        let k = find_char_from(s, n, pos, '\n');
        let ghost old_out = out@.map_values(|l: &str| l@);
        if k == n {
            let line = s.substring_char(pos, n);
            out.push(line);
            proof {
                assert(lines_of(rest) == seq![rest]);
                assert(out@.map_values(|l: &str| l@) =~= old_out.push(rest));
                assert(s@.subrange(n as int, n as int) =~= Seq::<char>::empty());
                assert(old_out + lines_of(rest) =~= out@.map_values(|l: &str| l@) + lines_of(
                    s@.subrange(n as int, n as int),
                ));
            }
            pos = n;
        } else {
            let mut end = k;
            if k > pos && s.get_char(k - 1) == '\r' {
                end = k - 1;
            }
            let line = s.substring_char(pos, end);
            out.push(line);
            proof {
                let kk = k - pos;
                lemma_lines_step(rest, kk);
                assert(rest.skip(kk + 1) =~= s@.subrange(k + 1, n as int));
                assert(strip_carriage_return(rest.take(kk)) =~= s@.subrange(pos as int, end as int));
                assert(out@.map_values(|l: &str| l@) =~= old_out.push(
                    s@.subrange(pos as int, end as int),
                ));
                assert(old_out + lines_of(rest) =~= out@.map_values(|l: &str| l@) + lines_of(
                    s@.subrange(k + 1, n as int),
                ));
            }
            pos = k + 1;
        }
    }
    proof {
        assert(s@.subrange(n as int, n as int) =~= Seq::<char>::empty());
        assert(out@.map_values(|l: &str| l@) + Seq::<Seq<char>>::empty() =~= out@.map_values(
            |l: &str| l@,
        ));
    }
    out
}

/// The first of `lines` that contains `pat`.
pub fn find_line_containing<'a>(lines: &Vec<&'a str>, pat: &str) -> (r: Option<&'a str>)
    ensures
        match r {
            Some(l) => first_line_containing(lines@.map_values(|l: &str| l@), pat@) == Some(l@),
            None => first_line_containing(lines@.map_values(|l: &str| l@), pat@) is None,
        },
{
    let ghost all = lines@.map_values(|l: &str| l@);
    let mut i: usize = 0;
    assert(all.skip(0) =~= all);
    while i < lines.len()
        invariant
            i <= lines.len(),
            all == lines@.map_values(|l: &str| l@),
            first_line_containing(all, pat@) == first_line_containing(all.skip(i as int), pat@),
        decreases lines.len() - i,
    {
        let line = lines[i];
        proof {
            assert(all.skip(i as int)[0] == line@);
            assert(all.skip(i as int).drop_first() =~= all.skip(i + 1));
        }
        if contains(line, pat) {
            return Some(line);
        }
        i = i + 1;
    }
    proof {
        assert(all.skip(i as int).len() == 0);
    }
    None
}

proof fn lemma_decimal_cap(x: nat, d: nat, cap: nat)
    requires
        d <= 9,
    ensures
        (if x < cap { x } else { cap }) * 10 + d >= cap ==> (x * 10 + d >= cap),
        ((if x < cap { x } else { cap }) * 10 + d < cap) ==> x * 10 + d == (if x < cap { x } else { cap }) * 10 + d,
{
}

/// Parses `s` as `str::parse::<i64>` does.
pub fn parse_i64(s: &str) -> (r: Option<i64>)
    ensures
        r == parse_i64_spec(s@),
{
    let n = char_count(s);
    if n == 0 {
        return None;
    }
    let first = s.get_char(0);
    let negative = first == '-';
    let start: usize = if first == '-' || first == '+' { 1 } else { 0 };
    let ghost body = if s@[0] == '-' || s@[0] == '+' { s@.drop_first() } else { s@ };
    proof {
        assert(body =~= s@.subrange(start as int, n as int));
    }
    if start == n {
        return None;
    }
    // Values above `cap` are all out of range; `acc` is the value so far, capped there.
    let cap: u64 = 9223372036854775809;
    let mut acc: u64 = 0;
    let mut i: usize = start;
    while i < n
        invariant
            n == s@.len(),
            start <= i <= n,
            body == s@.subrange(start as int, n as int),
            n > 0,
            body == (if s@[0] == '-' || s@[0] == '+' {
                s@.drop_first()
            } else {
                s@
            }),
            cap == 9223372036854775809,
            all_digits(body.take(i - start)),
            acc == (if decimal_value(body.take(i - start)) < cap {
                decimal_value(body.take(i - start))
            } else {
                cap as nat
            }),
        decreases n - i,
    {
        let c = s.get_char(i);
        let u = c as u32;
        if u < 48 || u > 57 {
            proof {
                assert(body[i - start] == c);
                assert(!is_digit(body[i - start]));
                assert(!all_digits(body));
                assert(body == (if s@.len() > 0 && (s@[0] == '-' || s@[0] == '+') {
                    s@.drop_first()
                } else {
                    s@
                }));
            }
            return None;
        }
        let d: u64 = (u - 48) as u64;
        let ghost prev = body.take(i - start);
        let ghost next = body.take(i - start + 1);
        proof {
            assert(next.drop_last() =~= prev);
            assert(next.last() == c);
            assert(decimal_value(next) == decimal_value(prev) * 10 + d);
            lemma_decimal_cap(decimal_value(prev), d as nat, cap as nat);
            assert forall|j: int| 0 <= j < next.len() implies is_digit(#[trigger] next[j]) by {
                if j < prev.len() {
                    assert(next[j] == prev[j]);
                }
            }
        }
        let wide: u128 = (acc as u128) * 10 + (d as u128);
        if wide >= cap as u128 {
            acc = cap;
        } else {
            acc = wide as u64;
        }
        i = i + 1;
    }
    proof {
        assert(body.take(n - start) =~= body);
    }
    if negative {
        if acc > 9223372036854775808 {
            None
        } else {
            let v: i128 = -(acc as i128);
            Some(v as i64)
        }
    } else {
        if acc > 9223372036854775807 {
            None
        } else {
            Some(acc as i64)
        }
    }
}

} // verus!
