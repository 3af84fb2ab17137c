//! Character-level helpers shared by the parsers: Unicode whitespace,
//! trimming, and conversions between `&str` and `Vec<char>`.
use vstd::prelude::*;

verus! {

/// `String::push` appends one character.
pub assume_specification[ String::push ](s: &mut String, ch: char)
    ensures
        final(s)@ == old(s)@.push(ch),
;

/// The characters with the Unicode `White_Space` property.
pub open spec fn is_ws(c: char) -> bool {
    ||| ('\u{9}' <= c && c <= '\u{d}')
    ||| c == ' '
    ||| c == '\u{85}'
    ||| c == '\u{a0}'
    ||| c == '\u{1680}'
    ||| ('\u{2000}' <= c && c <= '\u{200a}')
    ||| c == '\u{2028}'
    ||| c == '\u{2029}'
    ||| c == '\u{202f}'
    ||| c == '\u{205f}'
    ||| c == '\u{3000}'
}

/// Whether `c` is Unicode whitespace.
pub fn is_whitespace(c: char) -> (r: bool)
    ensures
        r == is_ws(c),
{
    ('\u{9}' <= c && c <= '\u{d}') || c == ' ' || c == '\u{85}' || c == '\u{a0}'
        || c == '\u{1680}' || ('\u{2000}' <= c && c <= '\u{200a}') || c == '\u{2028}'
        || c == '\u{2029}' || c == '\u{202f}' || c == '\u{205f}' || c == '\u{3000}'
}

/// The characters of `s`, in order.
pub fn chars_of(s: &str) -> (v: Vec<char>)
    ensures
        v@ == s@,
{
    let mut v: Vec<char> = Vec::new();
    for c in it: s.chars()
        invariant
            v@ == it.seq().take(it.index() as int),
            it.seq() == s@,
    {
        v.push(c);
    }
    v
}

/// `l` without one trailing carriage return.
pub open spec fn strip_cr(l: Seq<char>) -> Seq<char> {
    if l.len() > 0 && l.last() == '\r' {
        l.drop_last()
    } else {
        l
    }
}

/// The first line of `s`, as `str::lines` gives it: up to the first `\n`, without
/// a `\r` just before that `\n`.
pub open spec fn first_line(s: Seq<char>) -> Seq<char> {
    match find_seq(s, seq!['\n']) {
        Some(k) => strip_cr(s.take(k)),
        None => s,
    }
}

/// What follows the first line of `s` and its line ending.
pub open spec fn line_rest(s: Seq<char>) -> Seq<char> {
    match find_seq(s, seq!['\n']) {
        Some(k) => s.skip(k + 1),
        None => seq![],
    }
}

/// Removing the first line makes the text shorter.
pub proof fn lemma_line_rest_shorter(s: Seq<char>)
    requires
        s.len() > 0,
    ensures
        line_rest(s).len() < s.len(),
{
    lemma_find_seq(s, seq!['\n']);
}

/// The lines of `s`, as `str::lines` gives them.
pub open spec fn lines_of(s: Seq<char>) -> Seq<Seq<char>>
    decreases s.len(),
{
    if s.len() == 0 {
        seq![]
    } else {
        proof {
            lemma_line_rest_shorter(s);
        }
        seq![first_line(s)] + lines_of(line_rest(s))
    }
}

/// The lines of `s`, as `str::lines` gives them.
pub fn split_lines(s: &str) -> (r: Vec<String>)
    ensures
        r@.len() == lines_of(s@).len(),
        forall|i: int| 0 <= i < r@.len() ==> (#[trigger] r@[i])@ == lines_of(s@)[i],
{
    let v = chars_of(s);
    let n = v.len();
    let nl: [char; 1] = ['\n'];
    assert(nl@ =~= seq!['\n']);
    let mut r: Vec<String> = Vec::new();
    let mut pos: usize = 0;
    assert(v@.subrange(0, n as int) =~= v@);
    while pos < n
        invariant
            pos <= n == v@.len(),
            v@ == s@,
            nl@ == seq!['\n'],
            r@.len() + lines_of(v@.subrange(pos as int, n as int)).len() == lines_of(s@).len(),
            forall|i: int| 0 <= i < r@.len() ==> (#[trigger] r@[i])@ == lines_of(s@)[i],
            forall|i: int|
                0 <= i < lines_of(v@.subrange(pos as int, n as int)).len() ==> #[trigger] lines_of(
                    v@.subrange(pos as int, n as int),
                )[i] == lines_of(s@)[r@.len() + i],
        decreases n - pos,
    {
        let ghost sub = v@.subrange(pos as int, n as int);
        let (line_end, next) = match find_seq_in(&v, pos, n, &nl) {
            Some(k) => {
                proof {
                    lemma_find_seq(sub, seq!['\n']);
                    assert(sub.take(k - pos) =~= v@.subrange(pos as int, k as int));
                    assert(sub.skip(k - pos + 1) =~= v@.subrange(k + 1, n as int));
                }
                if k > pos && v[k - 1] == '\r' {
                    assert(v@.subrange(pos as int, k as int).drop_last() =~= v@.subrange(
                        pos as int,
                        k - 1,
                    ));
                    (k - 1, k + 1)
                } else {
                    (k, k + 1)
                }
            },
            None => {
                assert(v@.subrange(n as int, n as int) =~= Seq::<char>::empty());
                (n, n)
            },
        };
        assert(first_line(sub) == v@.subrange(pos as int, line_end as int));
        assert(line_rest(sub) == v@.subrange(next as int, n as int));
        let line = string_of(&v, pos, line_end);
        let ghost rest = lines_of(v@.subrange(next as int, n as int));
        assert(lines_of(sub) == seq![first_line(sub)] + rest);
        assert(lines_of(sub)[0] == line@);
        r.push(line);
        assert forall|i: int| 0 <= i < rest.len() implies #[trigger] rest[i] == lines_of(s@)[r@.len()
            + i] by {
            assert(rest[i] == lines_of(sub)[i + 1]);
        }
        pos = next;
    }
    r
}

/// The decimal digit `d`.
pub open spec fn digit_char(d: nat) -> char {
    ((48 + d) as u8) as char
}

/// The decimal representation of `n`, as `format!("{}", n)` writes it.
pub open spec fn decimal_chars(n: nat) -> Seq<char>
    decreases n,
{
    if n < 10 {
        seq![digit_char(n)]
    } else {
        decimal_chars(n / 10).push(digit_char(n % 10))
    }
}

/// Appends the decimal representation of `n` to `s`.
pub fn push_decimal(s: &mut String, n: u64)
    ensures
        final(s)@ == old(s)@ + decimal_chars(n as nat),
    decreases n,
{
    if n >= 10 {
        push_decimal(s, n / 10);
    }
    let d = (48u8 + (n % 10) as u8) as char;
    s.push(d);
    assert(final(s)@ =~= old(s)@ + decimal_chars(n as nat));
}

/// Whether the characters `v` are those of `s`.
pub fn chars_eq_str(v: &Vec<char>, s: &str) -> (r: bool)
    ensures
        r == (v@ == s@),
{
    let w = chars_of(s);
    if v.len() != w.len() {
        return false;
    }
    let mut i: usize = 0;
    while i < v.len()
        invariant
            v@.len() == w@.len(),
            w@ == s@,
            i <= v@.len(),
            forall|j: int| 0 <= j < i ==> v@[j] == w@[j],
        decreases v@.len() - i,
    {
        if v[i] != w[i] {
            return false;
        }
        i += 1;
    }
    assert(v@ =~= w@);
    true
}

/// A `String` holding the characters `v[from..to]`.
pub fn string_of(v: &Vec<char>, from: usize, to: usize) -> (s: String)
    requires
        from <= to <= v.len(),
    ensures
        s@ == v@.subrange(from as int, to as int),
{
    let mut s = String::new();
    let mut i = from;
    while i < to
        invariant
            from <= i <= to <= v.len(),
            s@ == v@.subrange(from as int, i as int),
        decreases to - i,
    {
        s.push(v[i]);
        i += 1;
    }
    s
}

/// `s` without its leading whitespace.
pub open spec fn trim_start_chars(s: Seq<char>) -> Seq<char>
    decreases s.len(),
{
    if s.len() > 0 && is_ws(s[0]) {
        trim_start_chars(s.drop_first())
    } else {
        s
    }
}

/// `s` without its trailing whitespace.
pub open spec fn trim_end_chars(s: Seq<char>) -> Seq<char>
    decreases s.len(),
{
    if s.len() > 0 && is_ws(s.last()) {
        trim_end_chars(s.drop_last())
    } else {
        s
    }
}

/// `s` without its leading and trailing whitespace (what `str::trim` gives).
pub open spec fn trim_chars(s: Seq<char>) -> Seq<char> {
    trim_end_chars(trim_start_chars(s))
}

/// Every character of `s` is whitespace (so `s.trim()` is empty).
pub open spec fn blank_chars(s: Seq<char>) -> bool {
    forall|i: int| 0 <= i < s.len() ==> is_ws(#[trigger] s[i])
}

/// Trimming gives the empty sequence exactly on blank sequences.
pub proof fn lemma_trim_empty_iff_blank(s: Seq<char>)
    ensures
        (trim_chars(s).len() == 0) == blank_chars(s),
    decreases s.len(),
{
    if s.len() > 0 && is_ws(s[0]) {
        lemma_trim_empty_iff_blank(s.drop_first());
        assert(trim_chars(s) == trim_chars(s.drop_first()));
        if blank_chars(s.drop_first()) {
            assert forall|i: int| 0 <= i < s.len() implies is_ws(#[trigger] s[i]) by {
                if i > 0 {
                    assert(s[i] == s.drop_first()[i - 1]);
                }
            }
        }
        if blank_chars(s) {
            assert forall|i: int| 0 <= i < s.drop_first().len() implies is_ws(
                #[trigger] s.drop_first()[i],
            ) by {
                assert(s.drop_first()[i] == s[i + 1]);
            }
        }
    } else if s.len() > 0 {
        assert(trim_start_chars(s) == s);
        lemma_trim_end_nonempty(s);
    } else {
        assert(trim_start_chars(s) == s);
    }
}

/// What is left after trimming the start is empty or starts with a non-whitespace character.
pub proof fn lemma_trim_start_shape(s: Seq<char>)
    ensures
        trim_start_chars(s).len() == 0 || !is_ws(trim_start_chars(s)[0]),
    decreases s.len(),
{
    if s.len() > 0 && is_ws(s[0]) {
        lemma_trim_start_shape(s.drop_first());
    }
}

/// Trimming the end leaves a prefix that is empty or ends with a non-whitespace character.
pub proof fn lemma_trim_end_shape(s: Seq<char>)
    ensures
        trim_end_chars(s).len() <= s.len(),
        trim_end_chars(s) == s.take(trim_end_chars(s).len() as int),
        trim_end_chars(s).len() == 0 || !is_ws(trim_end_chars(s).last()),
    decreases s.len(),
{
    if s.len() > 0 && is_ws(s.last()) {
        lemma_trim_end_shape(s.drop_last());
        let r = trim_end_chars(s.drop_last());
        assert(s.drop_last().take(r.len() as int) =~= s.take(r.len() as int));
    } else {
        assert(s.take(s.len() as int) =~= s);
    }
}

/// Trimming a trimmed sequence changes nothing.
pub proof fn lemma_trim_idempotent(s: Seq<char>)
    ensures
        trim_chars(trim_chars(s)) == trim_chars(s),
{
    let u = trim_start_chars(s);
    let t = trim_chars(s);
    lemma_trim_start_shape(s);
    lemma_trim_end_shape(u);
    if t.len() > 0 {
        assert(t[0] == u[0]);
        assert(trim_start_chars(t) == t);
        assert(trim_end_chars(t) == t);
    } else {
        assert(trim_start_chars(t) == t);
        assert(trim_end_chars(t) == t);
    }
}

/// Trimming the end of a sequence that starts with a non-whitespace character keeps it non-empty.
proof fn lemma_trim_end_nonempty(s: Seq<char>)
    requires
        s.len() > 0,
        !is_ws(s[0]),
    ensures
        trim_end_chars(s).len() > 0,
    decreases s.len(),
{
    if is_ws(s.last()) {
        assert(s.len() > 1);
        lemma_trim_end_nonempty(s.drop_last());
    }
}

/// The bounds `(a, b)` of the trimmed part of `v[from..to]`.
pub fn trim_range(v: &Vec<char>, from: usize, to: usize) -> (r: (usize, usize))
    requires
        from <= to <= v.len(),
    ensures
        from <= r.0 <= r.1 <= to,
        v@.subrange(r.0 as int, r.1 as int) == trim_chars(v@.subrange(from as int, to as int)),
{
    let ghost whole = v@.subrange(from as int, to as int);
    let mut a = from;
    while a < to && is_whitespace(v[a])
        invariant
            from <= a <= to <= v.len(),
            trim_start_chars(whole) == trim_start_chars(v@.subrange(a as int, to as int)),
        decreases to - a,
    {
        assert(v@.subrange(a as int, to as int).drop_first() =~= v@.subrange(
            a + 1,
            to as int,
        ));
        a += 1;
    }
    assert(trim_start_chars(v@.subrange(a as int, to as int)) == v@.subrange(a as int, to as int));
    let mut b = to;
    while b > a && is_whitespace(v[b - 1])
        invariant
            from <= a <= b <= to <= v.len(),
            trim_chars(whole) == trim_end_chars(v@.subrange(a as int, b as int)),
        decreases b - a,
    {
        assert(v@.subrange(a as int, b as int).drop_last() =~= v@.subrange(
            a as int,
            b - 1,
        ));
        b -= 1;
    }
    (a, b)
}

/// `s.trim()`: `s` without leading and trailing Unicode whitespace.
pub fn trim_str(s: &str) -> (r: &str)
    ensures
        r@ == trim_chars(s@),
{
    let v = chars_of(s);
    let (a, b) = trim_range(&v, 0, v.len());
    assert(v@.subrange(0, v@.len() as int) =~= v@);
    s.substring_char(a, b)
}

/// Whether `s.trim()` is empty, that is, whether `s` holds only whitespace.
pub fn is_blank(s: &str) -> (r: bool)
    ensures
        r == blank_chars(s@),
        r == (trim_chars(s@).len() == 0),
{
    proof {
        lemma_trim_empty_iff_blank(s@);
    }
    let v = chars_of(s);
    let mut i: usize = 0;
    while i < v.len()
        invariant
            i <= v.len(),
            v@ == s@,
            forall|j: int| 0 <= j < i ==> is_ws(#[trigger] v@[j]),
        decreases v.len() - i,
    {
        if !is_whitespace(v[i]) {
            assert(!is_ws(s@[i as int]));
            proof {
                lemma_trim_empty_iff_blank(s@);
            }
            return false;
        }
        i += 1;
    }
    true
}

/// `p` is a prefix of `s`.
pub open spec fn starts_with(s: Seq<char>, p: Seq<char>) -> bool {
    p.len() <= s.len() && s.take(p.len() as int) == p
}

/// The first index at which `p` occurs in `s`.
pub open spec fn find_seq(s: Seq<char>, p: Seq<char>) -> Option<int>
    decreases s.len(),
{
    if s.len() < p.len() {
        None
    } else if starts_with(s, p) {
        Some(0)
    } else if s.len() == 0 {
        None
    } else {
        match find_seq(s.drop_first(), p) {
            Some(k) => Some(k + 1),
            None => None,
        }
    }
}

/// What `find_seq` returns is an occurrence, and the first one.
pub proof fn lemma_find_seq(s: Seq<char>, p: Seq<char>)
    ensures
        find_seq(s, p) matches Some(k) ==> 0 <= k && k + p.len() <= s.len() && starts_with(
            s.skip(k),
            p,
        ),
    decreases s.len(),
{
    if s.len() < p.len() {
    } else if starts_with(s, p) {
        assert(s.skip(0) =~= s);
    } else if s.len() == 0 {
    } else {
        lemma_find_seq(s.drop_first(), p);
        if let Some(k) = find_seq(s.drop_first(), p) {
            assert(s.skip(k + 1) =~= s.drop_first().skip(k));
        }
    }
}

/// When `find_seq` finds nothing, the pattern occurs nowhere.
pub proof fn lemma_find_seq_none(s: Seq<char>, p: Seq<char>)
    requires
        find_seq(s, p) is None,
    ensures
        forall|k: int| 0 <= k && k + p.len() <= s.len() ==> !starts_with(#[trigger] s.skip(k), p),
    decreases s.len(),
{
    if s.len() >= p.len() && s.len() > 0 {
        lemma_find_seq_none(s.drop_first(), p);
        assert forall|k: int| 0 <= k && k + p.len() <= s.len() implies !starts_with(
            #[trigger] s.skip(k),
            p,
        ) by {
            if k > 0 {
                assert(s.skip(k) =~= s.drop_first().skip(k - 1));
            } else {
                assert(s.skip(0) =~= s);
            }
        }
    } else if p.len() == 0 {
        assert(s.take(0) =~= p);
    }
}

/// The index in `v[from..to]` where its leading whitespace ends.
pub fn skip_ws(v: &Vec<char>, from: usize, to: usize) -> (r: usize)
    requires
        from <= to <= v@.len(),
    ensures
        from <= r <= to,
        v@.subrange(r as int, to as int) == trim_start_chars(v@.subrange(from as int, to as int)),
{
    let ghost whole = v@.subrange(from as int, to as int);
    let mut a = from;
    while a < to && is_whitespace(v[a])
        invariant
            from <= a <= to <= v@.len(),
            whole == v@.subrange(from as int, to as int),
            trim_start_chars(whole) == trim_start_chars(v@.subrange(a as int, to as int)),
        decreases to - a,
    {
        assert(v@.subrange(a as int, to as int).drop_first() =~= v@.subrange(a + 1, to as int));
        a += 1;
    }
    a
}

/// Whether `p` occurs in `v[at..limit]` at its start.
pub fn starts_with_at(v: &Vec<char>, at: usize, limit: usize, p: &[char]) -> (r: bool)
    requires
        at <= limit <= v@.len(),
    ensures
        r == starts_with(v@.subrange(at as int, limit as int), p@),
{
    let ghost s = v@.subrange(at as int, limit as int);
    if limit - at < p.len() {
        return false;
    }
    let mut j: usize = 0;
    while j < p.len()
        invariant
            at <= limit <= v@.len(),
            s == v@.subrange(at as int, limit as int),
            p@.len() <= s.len(),
            j <= p@.len(),
            forall|q: int| 0 <= q < j ==> s[q] == p@[q],
        decreases p@.len() - j,
    {
        if v[at + j] != p[j] {
            assert(s.take(p@.len() as int)[j as int] != p@[j as int]);
            return false;
        }
        j += 1;
    }
    assert(s.take(p@.len() as int) =~= p@);
    true
}

/// An optional index moved by `d`.
pub open spec fn shift(o: Option<int>, d: int) -> Option<int> {
    match o {
        Some(k) => Some(k + d),
        None => None,
    }
}

/// The first occurrence of `p` in `v[from..limit]`, as an index into `v`.
pub fn find_seq_in(v: &Vec<char>, from: usize, limit: usize, p: &[char]) -> (r: Option<usize>)
    requires
        from <= limit <= v@.len(),
    ensures
        r matches Some(j) ==> from <= j <= limit && find_seq(
            v@.subrange(from as int, limit as int),
            p@,
        ) == Some(j - from),
        r is None ==> find_seq(v@.subrange(from as int, limit as int), p@) is None,
{
    let ghost whole = v@.subrange(from as int, limit as int);
    let mut i = from;
    proof {
        assert(v@.subrange(i as int, limit as int) == whole);
        assert(shift(find_seq(whole, p@), 0) == find_seq(whole, p@));
    }
    while i <= limit
        invariant
            from <= i <= limit <= v@.len(),
            whole == v@.subrange(from as int, limit as int),
            find_seq(whole, p@) == shift(find_seq(v@.subrange(i as int, limit as int), p@), i - from),
        decreases limit - i,
    {
        let ghost s = v@.subrange(i as int, limit as int);
        if limit - i < p.len() {
            return None;
        }
        if starts_with_at(v, i, limit, p) {
            return Some(i);
        }
        if i == limit {
            return None;
        }
        assert(s.drop_first() =~= v@.subrange(i + 1, limit as int));
        assert(find_seq(s, p@) == shift(find_seq(s.drop_first(), p@), 1));
        assert(shift(shift(find_seq(s.drop_first(), p@), 1), i - from) == shift(
            find_seq(s.drop_first(), p@),
            i + 1 - from,
        ));
        i += 1;
    }
    None
}

} // verus!
