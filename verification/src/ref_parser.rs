//! `[[card reference]]` links in card content.
//!
//! Offsets are byte offsets into the UTF-8 encoding of the content, as in
//! `str` indexing; the specifications work on `s.spec_bytes()`.
use vstd::prelude::*;
use vstd::string::StringSliceAdditionalSpecFns;
use vstd::utf8::*;
use crate::text::{blank_chars, chars_of, is_blank, trim_chars, trim_range};
use crate::utf8_facts::{lemma_ascii_boundaries, lemma_str_bytes_valid, str_slice};

verus! {

/// The byte `[`.
pub open spec fn open_byte() -> u8 {
    0x5bu8
}

/// The byte `]`.
pub open spec fn close_byte() -> u8 {
    0x5du8
}

/// `b[j..j + 2]` is the pair `xx`.
pub open spec fn pair_at(b: Seq<u8>, j: int, x: u8) -> bool {
    0 <= j && j + 1 < b.len() && b[j] == x && b[j + 1] == x
}

/// The first `j >= from` at which the pair `xx` occurs in `b`.
pub open spec fn find_pair(b: Seq<u8>, from: int, x: u8) -> Option<int>
    decreases b.len() - from,
{
    if from < 0 || from + 1 >= b.len() {
        None
    } else if pair_at(b, from, x) {
        Some(from)
    } else {
        find_pair(b, from + 1, x)
    }
}

/// The last `j` at which the pair `xx` occurs in `b`.
pub open spec fn last_pair(b: Seq<u8>, x: u8) -> Option<int>
    decreases b.len(),
{
    if b.len() < 2 {
        None
    } else if pair_at(b, b.len() - 2, x) {
        Some(b.len() - 2)
    } else {
        last_pair(b.drop_last(), x)
    }
}

/// What `find_pair` returns is the first occurrence at or after `from`.
pub proof fn lemma_find_pair(b: Seq<u8>, from: int, x: u8)
    requires
        0 <= from,
    ensures
        find_pair(b, from, x) matches Some(j) ==> from <= j && pair_at(b, j, x),
        find_pair(b, from, x) matches Some(j) ==> forall|k: int|
            from <= k < j ==> !#[trigger] pair_at(b, k, x),
        find_pair(b, from, x) is None ==> forall|k: int|
            from <= k ==> !#[trigger] pair_at(b, k, x),
    decreases b.len() - from,
{
    if from < 0 || from + 1 >= b.len() {
    } else if pair_at(b, from, x) {
    } else {
        lemma_find_pair(b, from + 1, x);
    }
}

/// What `last_pair` returns is the last occurrence.
pub proof fn lemma_last_pair(b: Seq<u8>, x: u8)
    ensures
        last_pair(b, x) matches Some(j) ==> pair_at(b, j, x) && forall|k: int|
            j < k ==> !#[trigger] pair_at(b, k, x),
        last_pair(b, x) is None ==> forall|k: int| !#[trigger] pair_at(b, k, x),
    decreases b.len(),
{
    if b.len() < 2 {
    } else if pair_at(b, b.len() - 2, x) {
    } else {
        lemma_last_pair(b.drop_last(), x);
        assert forall|k: int| pair_at(b, k, x) implies k != b.len() - 2 && pair_at(
            b.drop_last(),
            k,
            x,
        ) by {}
    }
}

/// The text between the brackets of the reference spanning `b[start..end]`.
pub open spec fn span_text(b: Seq<u8>, span: (int, int)) -> Seq<char> {
    decode_utf8(b.subrange(span.0 + 2, span.1 - 2))
}

/// The `[[...]]` references of `b` found by scanning from `i`: the byte range of
/// each, from its `[[` to just past its `]]`. A `[[` is closed by the next `]]`;
/// a reference whose inner text is blank is skipped, and scanning resumes after
/// its `]]`; a `[[` with no `]]` after it is not a reference.
pub open spec fn refs_from(b: Seq<u8>, i: int) -> Seq<(int, int)>
    decreases b.len() - i,
{
    if i < 0 || i + 1 >= b.len() {
        seq![]
    } else if pair_at(b, i, open_byte()) && find_pair(b, i + 2, close_byte()) is Some {
        let c = find_pair(b, i + 2, close_byte())->0;
        proof {
            lemma_find_pair(b, i + 2, close_byte());
        }
        if blank_chars(decode_utf8(b.subrange(i + 2, c))) {
            refs_from(b, c + 2)
        } else {
            seq![(i, c + 2)] + refs_from(b, c + 2)
        }
    } else {
        refs_from(b, i + 1)
    }
}

/// The byte ranges of the references in `s`.
pub open spec fn ref_spans(s: &str) -> Seq<(int, int)> {
    refs_from(s.spec_bytes(), 0)
}

/// Each reference found from `i` opens with `[[` at or after `i`, closes with the
/// first `]]` after it, has non-blank text, and the references come in order
/// without overlapping.
pub proof fn lemma_refs_from_shape(b: Seq<u8>, i: int)
    ensures
        forall|k: int|
            0 <= k < refs_from(b, i).len() ==> {
                let sp = #[trigger] refs_from(b, i)[k];
                &&& i <= sp.0
                &&& sp.0 + 4 <= sp.1 <= b.len()
                &&& pair_at(b, sp.0, open_byte())
                &&& find_pair(b, sp.0 + 2, close_byte()) == Some(sp.1 - 2)
                &&& !blank_chars(span_text(b, sp))
            },
        forall|k: int|
            0 <= k < refs_from(b, i).len() - 1 ==> (#[trigger] refs_from(b, i)[k]).1 <= refs_from(
                b,
                i,
            )[k + 1].0,
    decreases b.len() - i,
{
    if i < 0 || i + 1 >= b.len() {
    } else if pair_at(b, i, open_byte()) && find_pair(b, i + 2, close_byte()) is Some {
        let c = find_pair(b, i + 2, close_byte())->0;
        lemma_find_pair(b, i + 2, close_byte());
        lemma_refs_from_shape(b, c + 2);
        let rest = refs_from(b, c + 2);
        if !blank_chars(decode_utf8(b.subrange(i + 2, c))) {
            let all = refs_from(b, i);
            assert(all == seq![(i, c + 2)] + rest);
            assert forall|k: int| 0 <= k < all.len() - 1 implies (#[trigger] all[k]).1 <= all[k
                + 1].0 by {
                if k > 0 {
                    assert(all[k] == rest[k - 1]);
                    assert(all[k + 1] == rest[k]);
                } else {
                    assert(all[1] == rest[0]);
                }
            }
            assert forall|k: int| 0 <= k < all.len() implies {
                let sp = #[trigger] all[k];
                &&& i <= sp.0
                &&& sp.0 + 4 <= sp.1 <= b.len()
                &&& pair_at(b, sp.0, open_byte())
                &&& find_pair(b, sp.0 + 2, close_byte()) == Some(sp.1 - 2)
                &&& !blank_chars(span_text(b, sp))
            } by {
                if k > 0 {
                    assert(all[k] == rest[k - 1]);
                }
            }
        }
    } else {
        lemma_refs_from_shape(b, i + 1);
    }
}

/// The first `]]` at or after `from`, searching `bytes[..limit]`.
fn find_pair_exec(bytes: &[u8], from: usize, limit: usize, x: u8) -> (r: Option<usize>)
    requires
        limit <= bytes@.len(),
    ensures
        r matches Some(j) ==> find_pair(bytes@.subrange(0, limit as int), from as int, x) == Some(
            j as int,
        ),
        r is None ==> find_pair(bytes@.subrange(0, limit as int), from as int, x) is None,
{
    let ghost p = bytes@.subrange(0, limit as int);
    let mut j = from;
    while j < limit && j + 1 < limit
        invariant
            limit <= bytes@.len(),
            p == bytes@.subrange(0, limit as int),
            from <= j,
            find_pair(p, from as int, x) == find_pair(p, j as int, x),
        decreases limit - j,
    {
        if bytes[j] == x && bytes[j + 1] == x {
            return Some(j);
        }
        j += 1;
    }
    None
}

/// Parse all `[[...]]` references from `content`.
/// Returns `(byte_start, byte_end, ref_text)` for each occurrence.
pub fn parse_refs<'a>(content: &'a str) -> (r: Vec<(usize, usize, &'a str)>)
    ensures
        r@.len() == ref_spans(content).len(),
        forall|k: int|
            0 <= k < r@.len() ==> {
                &&& #[trigger] r@[k].0 == ref_spans(content)[k].0
                &&& r@[k].1 == ref_spans(content)[k].1
                &&& r@[k].2@ == span_text(content.spec_bytes(), ref_spans(content)[k])
            },
{
    let ghost b = content.spec_bytes();
    let bytes = content.as_bytes();
    let len = bytes.len();
    proof {
        lemma_str_bytes_valid(content);
        assert(b.subrange(0, len as int) =~= b);
    }
    let ghost total = refs_from(b, 0);
    let mut result: Vec<(usize, usize, &'a str)> = Vec::new();
    let mut i: usize = 0;
    while i < len && i + 1 < len
        invariant
            b == content.spec_bytes(),
            bytes@ == b,
            len == b.len(),
            valid_utf8(b),
            b.subrange(0, len as int) == b,
            total == refs_from(b, 0),
            i <= len,
            result@.len() + refs_from(b, i as int).len() == total.len(),
            forall|k: int|
                0 <= k < refs_from(b, i as int).len() ==> #[trigger] refs_from(b, i as int)[k]
                    == total[result@.len() + k],
            forall|k: int|
                0 <= k < result@.len() ==> {
                    &&& (#[trigger] result@[k]).0 == total[k].0
                    &&& result@[k].1 == total[k].1
                    &&& result@[k].2@ == span_text(b, total[k])
                },
        decreases len - i,
    {
        if bytes[i] == 0x5bu8 && bytes[i + 1] == 0x5bu8 {
            let inner_start = i + 2;
            match find_pair_exec(bytes, inner_start, len, 0x5du8) {
                Some(close) => {
                    proof {
                        assert(find_pair(b, inner_start as int, 0x5du8) == Some(close as int));
                        lemma_find_pair(b, inner_start as int, close_byte());
                        assert(pair_at(b, close as int, close_byte()));
                        assert(inner_start <= close);
                        lemma_ascii_boundaries(b, i as int + 1);
                        lemma_ascii_boundaries(b, close as int);
                        lemma_ascii_boundaries(b, close as int + 1);
                    }
                    let end = close + 2;
                    let ref_text = str_slice(content, inner_start, close);
                    let ghost before = refs_from(b, i as int);
                    let ghost after = refs_from(b, end as int);
                    if !is_blank(ref_text) {
                        result.push((i, end, ref_text));
                        proof {
                            assert(before == seq![(i as int, end as int)] + after);
                            assert(before[0] == total[result@.len() - 1]);
                            assert(end - 2 == close);
                            assert(span_text(b, (i as int, end as int)) == ref_text@);
                            assert forall|k: int| 0 <= k < after.len() implies #[trigger] after[k]
                                == total[result@.len() + k] by {
                                assert(after[k] == before[k + 1]);
                            }
                        }
                    } else {
                        assert(before == after);
                    }
                    i = end;
                    continue ;
                },
                None => {},
            }
        }
        assert(refs_from(b, i as int) == refs_from(b, i + 1));
        i += 1;
    }
    result
}

/// The last `[[` in `bytes[..limit]`.
fn last_pair_exec(bytes: &[u8], limit: usize, x: u8) -> (r: Option<usize>)
    requires
        limit <= bytes@.len(),
    ensures
        r matches Some(j) ==> last_pair(bytes@.subrange(0, limit as int), x) == Some(j as int),
        r is None ==> last_pair(bytes@.subrange(0, limit as int), x) is None,
{
    let ghost p = bytes@.subrange(0, limit as int);
    let mut j = limit;
    while j >= 2
        invariant
            j <= limit <= bytes@.len(),
            p == bytes@.subrange(0, limit as int),
            last_pair(p, x) == last_pair(bytes@.subrange(0, j as int), x),
        decreases j,
    {
        if bytes[j - 2] == x && bytes[j - 1] == x {
            return Some(j - 2);
        }
        assert(bytes@.subrange(0, j as int).drop_last() =~= bytes@.subrange(0, j - 1));
        j -= 1;
    }
    None
}

/// The reference being typed when the cursor is at byte offset `m`: the last
/// `[[` before `m` and the text from it to `m`, provided no `]]` follows that `[[`
/// before `m`.
pub open spec fn ref_query(b: Seq<u8>, m: int) -> Option<(int, Seq<char>)> {
    let p = b.subrange(0, m);
    match last_pair(p, open_byte()) {
        Some(o) => if find_pair(p, o + 2, close_byte()) is None {
            Some((o, decode_utf8(b.subrange(o + 2, m))))
        } else {
            None
        },
        None => None,
    }
}

/// The cursor offset clamped to the length of `s` in bytes.
pub open spec fn clamp_cursor(s: &str, cursor: usize) -> int {
    if cursor < s.spec_bytes().len() {
        cursor as int
    } else {
        s.spec_bytes().len() as int
    }
}

/// If the cursor (byte offset) is inside an incomplete `[[...` pattern,
/// return `(byte_pos_of_[[, query_string_so_far)`.
pub fn ref_query_at_cursor(content: &str, cursor: usize) -> (r: Option<(usize, String)>)
    requires
        is_char_boundary(content.spec_bytes(), clamp_cursor(content, cursor)),
    ensures
        r is Some == ref_query(content.spec_bytes(), clamp_cursor(content, cursor)) is Some,
        r matches Some(q) ==> ref_query(content.spec_bytes(), clamp_cursor(content, cursor))
            == Some((q.0 as int, q.1@)),
{
    let ghost b = content.spec_bytes();
    let bytes = content.as_bytes();
    let len = bytes.len();
    let m = if cursor < len {
        cursor
    } else {
        len
    };
    proof {
        lemma_str_bytes_valid(content);
    }
    match last_pair_exec(bytes, m, 0x5bu8) {
        Some(open) => {
            let ghost p = b.subrange(0, m as int);
            proof {
                lemma_last_pair(p, open_byte());
                assert(p[open as int + 1] == b[open as int + 1]);
                lemma_ascii_boundaries(b, open as int + 1);
            }
            match find_pair_exec(bytes, open + 2, m, 0x5du8) {
                Some(_) => None,
                None => {
                    let after = str_slice(content, open + 2, m);
                    let q = after.to_string();
                    proof {
                        vstd::string::to_string_from_display_ensures_for_str(after, q);
                    }
                    Some((open, q))
                },
            }
        },
        None => None,
    }
}

/// `s[k..k + 3]` is ` / `.
pub open spec fn sep_at(s: Seq<char>, k: int) -> bool {
    0 <= k && k + 3 <= s.len() && s[k] == ' ' && s[k + 1] == '/' && s[k + 2] == ' '
}

/// The first `k >= from` at which ` / ` occurs in `s`.
pub open spec fn find_sep(s: Seq<char>, from: int) -> Option<int>
    decreases s.len() - from,
{
    if from < 0 || from + 3 > s.len() {
        None
    } else if sep_at(s, from) {
        Some(from)
    } else {
        find_sep(s, from + 1)
    }
}

/// The board and title parts of a reference text: split at the first ` / `,
/// each part trimmed; without a ` / ` the whole text (trimmed) is the title.
pub open spec fn ref_parts(s: Seq<char>) -> (Option<Seq<char>>, Seq<char>) {
    match find_sep(s, 0) {
        Some(k) => (Some(trim_chars(s.take(k))), trim_chars(s.skip(k + 3))),
        None => (None, trim_chars(s)),
    }
}

/// Split a ref string `"board / title"` → `(Some("board"), "title")`
/// or `"title"` → `(None, "title")`.
pub fn parse_ref_parts(ref_text: &str) -> (r: (Option<&str>, &str))
    ensures
        r.0 is Some == ref_parts(ref_text@).0 is Some,
        r.0 matches Some(board) ==> ref_parts(ref_text@).0 == Some(board@),
        r.1@ == ref_parts(ref_text@).1,
{
    let v = chars_of(ref_text);
    let n = v.len();
    let mut k: usize = 0;
    while k < n && n - k >= 3
        invariant
            v@ == ref_text@,
            n == v@.len(),
            find_sep(v@, 0) == find_sep(v@, k as int),
        decreases n - k,
    {
        if v[k] == ' ' && v[k + 1] == '/' && v[k + 2] == ' ' {
            let (a, b) = trim_range(&v, 0, k);
            let (c, d) = trim_range(&v, k + 3, n);
            assert(v@.subrange(0, k as int) =~= v@.take(k as int));
            assert(v@.subrange(k + 3, n as int) =~= v@.skip(k + 3));
            return (Some(ref_text.substring_char(a, b)), ref_text.substring_char(c, d));
        }
        k += 1;
    }
    let (a, b) = trim_range(&v, 0, n);
    assert(v@.subrange(0, n as int) =~= v@);
    (None, ref_text.substring_char(a, b))
}

/// A character that ends a bare link target in Markdown: a space or an ASCII
/// control character.
pub open spec fn breaks_target(c: char) -> bool {
    c <= '\u{1f}' || c == ' ' || c == '\u{7f}'
}

/// The reference text holds a character that a bare link target cannot.
pub open spec fn needs_angle(t: Seq<char>) -> bool {
    exists|i: int| 0 <= i < t.len() && breaks_target(#[trigger] t[i])
}

/// The target of the link that replaces the reference `t`: `card-ref:t`,
/// written between `<` and `>` when `t` holds a space or a control character,
/// so that it still makes a link.
pub open spec fn link_target(t: Seq<char>) -> Seq<char> {
    if needs_angle(t) {
        seq!['<'] + card_ref_url(t) + seq!['>']
    } else {
        card_ref_url(t)
    }
}

/// The Markdown form of `b` from byte `last` on, given the references `spans`
/// that remain: each `[[text]]` becomes `[text](card-ref:text)` (with the
/// target between `<` and `>` where `link_target` says).
pub open spec fn rewrite_refs(b: Seq<u8>, spans: Seq<(int, int)>, last: int) -> Seq<char>
    decreases spans.len(),
{
    if spans.len() == 0 {
        decode_utf8(b.subrange(last, b.len() as int))
    } else {
        let sp = spans[0];
        let t = span_text(b, sp);
        decode_utf8(b.subrange(last, sp.0)) + seq!['['] + t + seq![']', '('] + link_target(t)
            + seq![')'] + rewrite_refs(b, spans.drop_first(), sp.1)
    }
}

/// The span list satisfies what `lemma_refs_from_shape` shows of `refs_from`.
#[verifier::opaque]
pub open spec fn spans_well_formed(b: Seq<u8>, spans: Seq<(int, int)>) -> bool {
    &&& forall|j: int|
        0 <= j < spans.len() ==> {
            let sp = #[trigger] spans[j];
            &&& 0 <= sp.0
            &&& sp.0 + 4 <= sp.1 <= b.len()
            &&& pair_at(b, sp.0, open_byte())
            &&& find_pair(b, sp.0 + 2, close_byte()) == Some(sp.1 - 2)
        }
    &&& forall|j: int| 0 <= j < spans.len() - 1 ==> (#[trigger] spans[j]).1 <= spans[j + 1].0
}

/// The piece of the rewritten text contributed by reference `sp` after byte `last`.
pub open spec fn rewrite_piece(b: Seq<u8>, sp: (int, int), last: int) -> Seq<char> {
    let t = span_text(b, sp);
    decode_utf8(b.subrange(last, sp.0)) + seq!['['] + t + seq![']', '('] + link_target(t) + seq![
        ')',
    ]
}

/// The references found in `b` are well formed.
pub proof fn lemma_spans_well_formed(b: Seq<u8>)
    ensures
        spans_well_formed(b, refs_from(b, 0)),
{
    lemma_refs_from_shape(b, 0);
    reveal(spans_well_formed);
}

/// What a well-formed span list says of its `k`-th span.
pub proof fn lemma_span_facts(b: Seq<u8>, spans: Seq<(int, int)>, k: int)
    requires
        spans_well_formed(b, spans),
        0 <= k < spans.len(),
    ensures
        0 <= spans[k].0,
        spans[k].0 + 4 <= spans[k].1 <= b.len(),
        pair_at(b, spans[k].0, open_byte()),
        find_pair(b, spans[k].0 + 2, close_byte()) == Some(spans[k].1 - 2),
        pair_at(b, spans[k].1 - 2, close_byte()),
        k + 1 < spans.len() ==> spans[k].1 <= spans[k + 1].0,
{
    reveal(spans_well_formed);
    lemma_find_pair(b, spans[k].0 + 2, close_byte());
}

proof fn lemma_rewrite_step(b: Seq<u8>, spans: Seq<(int, int)>, k: int, last: int)
    requires
        0 <= k < spans.len(),
    ensures
        rewrite_refs(b, spans.skip(k), last) == rewrite_piece(b, spans[k], last) + rewrite_refs(
            b,
            spans.skip(k + 1),
            spans[k].1,
        ),
{
    assert(spans.skip(k)[0] == spans[k]);
    assert(spans.skip(k).drop_first() =~= spans.skip(k + 1));
}

/// Whether the reference text `t` holds a space or a control character.
fn needs_angle_brackets(t: &str) -> (r: bool)
    ensures
        r == needs_angle(t@),
{
    let v = chars_of(t);
    let mut i: usize = 0;
    while i < v.len()
        invariant
            i <= v@.len(),
            v@ == t@,
            forall|j: int| 0 <= j < i ==> !breaks_target(#[trigger] v@[j]),
        decreases v@.len() - i,
    {
        let c = v[i];
        if c <= '\u{1f}' || c == ' ' || c == '\u{7f}' {
            assert(breaks_target(t@[i as int]));
            return true;
        }
        i += 1;
    }
    false
}

/// Preprocess content for Markdown rendering: replace `[[ref text]]` with
/// `[ref text](card-ref:ref text)` so the existing markdown link renderer handles it
/// (a target holding a space or a control character is written between `<` and `>`,
/// else it would make no link).
pub fn preprocess_refs_for_markdown(content: &str) -> (r: String)
    ensures
        r@ == rewrite_refs(content.spec_bytes(), ref_spans(content), 0),
        ref_spans(content).len() == 0 ==> r@ == content@,
{
    let ghost b = content.spec_bytes();
    let ghost spans = ref_spans(content);
    let refs = parse_refs(content);
    let len = content.as_bytes().len();
    proof {
        lemma_str_bytes_valid(content);
        lemma_spans_well_formed(b);
    }
    if refs.len() == 0 {
        let whole = content.to_string();
        proof {
            vstd::string::to_string_from_display_ensures_for_str(content, whole);
            assert(b.subrange(0, b.len() as int) =~= b);
        }
        return whole;
    }
    let mut result = String::new();
    let mut last: usize = 0;
    let mut k: usize = 0;
    proof {
        reveal_strlit("card-ref:");
        lemma_span_facts(b, spans, 0);
        assert(spans.skip(0) =~= spans);
        assert(result@ + rewrite_refs(b, spans.skip(0), 0) =~= rewrite_refs(b, spans, 0));
    }
    while k < refs.len()
        invariant
            b == content.spec_bytes(),
            len == b.len(),
            valid_utf8(b),
            refs@.len() == spans.len(),
            forall|j: int|
                0 <= j < refs@.len() ==> {
                    &&& (#[trigger] refs@[j]).0 == spans[j].0
                    &&& refs@[j].1 == spans[j].1
                    &&& refs@[j].2@ == span_text(b, spans[j])
                },
            spans_well_formed(b, spans),
            k <= refs@.len(),
            last <= len,
            is_char_boundary(b, last as int),
            k < refs@.len() ==> last <= spans[k as int].0,
            "card-ref:"@ == card_ref_prefix(),
            result@ + rewrite_refs(b, spans.skip(k as int), last as int) == rewrite_refs(
                b,
                spans,
                0,
            ),
        decreases refs@.len() - k,
    {
        let (start, end, ref_text) = refs[k];
        let ghost sp = spans[k as int];
        let ghost old_result = result@;
        proof {
            assert(start == sp.0 && end == sp.1 && ref_text@ == span_text(b, sp));
            lemma_span_facts(b, spans, k as int);
            lemma_ascii_boundaries(b, start as int);
            lemma_ascii_boundaries(b, end - 1);
            lemma_rewrite_step(b, spans, k as int, last as int);
        }
        let before = str_slice(content, last, start);
        result.append(before);
        let angle = needs_angle_brackets(ref_text);
        result.push('[');
        result.append(ref_text);
        result.push(']');
        result.push('(');
        if angle {
            result.push('<');
        }
        result.append("card-ref:");
        result.append(ref_text);
        if angle {
            result.push('>');
        }
        result.push(')');
        proof {
            assert(result@ =~= old_result + rewrite_piece(b, sp, last as int));
        }
        last = end;
        k += 1;
    }
    let tail = str_slice(content, last, len);
    result.append(tail);
    proof {
        assert(spans.skip(k as int).len() == 0);
    }
    result
}

/// The `card-ref:` prefix of reference URLs.
pub open spec fn card_ref_prefix() -> Seq<char> {
    seq!['c', 'a', 'r', 'd', '-', 'r', 'e', 'f', ':']
}

/// The URL that links to the reference text `t`.
pub open spec fn card_ref_url(t: Seq<char>) -> Seq<char> {
    card_ref_prefix() + t
}

/// The reference text of a `card-ref:` URL, if it is one.
pub open spec fn card_ref_text(url: Seq<char>) -> Option<Seq<char>> {
    if url.len() >= 9 && url.take(9) == card_ref_prefix() {
        Some(url.skip(9))
    } else {
        None
    }
}

/// Encode a ref text into a "card-ref:" URL.
pub fn encode_card_ref(ref_text: &str) -> (r: String)
    ensures
        r@ == card_ref_url(ref_text@),
{
    let mut r = String::new();
    proof {
        reveal_strlit("card-ref:");
    }
    r.append("card-ref:");
    r.append(ref_text);
    r
}

/// Decode a "card-ref:" URL back to the ref text.
pub fn decode_card_ref(url: &str) -> (r: Option<&str>)
    ensures
        r is Some == card_ref_text(url@) is Some,
        r matches Some(t) ==> card_ref_text(url@) == Some(t@),
{
    let v = chars_of(url);
    let n = v.len();
    if n < 9 {
        return None;
    }
    let p: [char; 9] = ['c', 'a', 'r', 'd', '-', 'r', 'e', 'f', ':'];
    assert(p@ == card_ref_prefix());
    let mut i: usize = 0;
    while i < 9
        invariant
            v@ == url@,
            n == v@.len(),
            n >= 9,
            p@ == card_ref_prefix(),
            i <= 9,
            forall|j: int| 0 <= j < i ==> v@[j] == p@[j],
        decreases 9 - i,
    {
        if v[i] != p[i] {
            assert(url@.take(9)[i as int] != card_ref_prefix()[i as int]);
            return None;
        }
        i += 1;
    }
    assert(url@.take(9) =~= card_ref_prefix());
    Some(url.substring_char(9, n))
}

/// The completion inserted for a reference to `title`, on board `board` when it
/// is another board: `[[board / title]]` or `[[title]]`.
pub open spec fn ref_completion(board: Option<Seq<char>>, title: Seq<char>) -> Seq<char> {
    match board {
        Some(bd) => seq!['[', '['] + bd + seq![' ', '/', ' '] + title + seq![']', ']'],
        None => seq!['[', '['] + title + seq![']', ']'],
    }
}

/// Format an autocomplete completion string.
/// If same board, returns `[[title]]`; if cross-board, returns `[[board / title]]`.
pub fn format_ref(board_name: Option<&str>, title: &str) -> (r: String)
    ensures
        r@ == ref_completion(
            match board_name {
                Some(bd) => Some(bd@),
                None => None,
            },
            title@,
        ),
{
    let mut r = String::new();
    r.push('[');
    r.push('[');
    match board_name {
        Some(board) => {
            r.append(board);
            r.push(' ');
            r.push('/');
            r.push(' ');
        },
        None => {},
    }
    r.append(title);
    r.push(']');
    r.push(']');
    r
}

/// Decoding the URL made for a reference text gives that text back.
pub proof fn law_card_ref_roundtrip(t: Seq<char>)
    ensures
        card_ref_text(card_ref_url(t)) == Some(t),
{
    assert(card_ref_url(t).take(9) =~= card_ref_prefix());
    assert(card_ref_url(t).skip(9) =~= t);
}

/// Each reference rewritten for Markdown becomes a link whose target is the
/// URL `encode_card_ref` makes for its text (between `<` and `>` where that is
/// needed), so that `decode_card_ref` reads the reference text back from the
/// link.
pub proof fn law_rewritten_link_decodes(b: Seq<u8>, sp: (int, int), last: int)
    ensures
        rewrite_piece(b, sp, last) == decode_utf8(b.subrange(last, sp.0)) + seq!['['] + span_text(
            b,
            sp,
        ) + seq![']', '('] + link_target(span_text(b, sp)) + seq![')'],
        link_target(span_text(b, sp)) == card_ref_url(span_text(b, sp)) || link_target(
            span_text(b, sp),
        ) == seq!['<'] + card_ref_url(span_text(b, sp)) + seq!['>'],
        card_ref_text(card_ref_url(span_text(b, sp))) == Some(span_text(b, sp)),
{
    law_card_ref_roundtrip(span_text(b, sp));
}

/// The text inside the brackets of a completion.
pub open spec fn completion_text(board: Option<Seq<char>>, title: Seq<char>) -> Seq<char> {
    match board {
        Some(bd) => bd + seq![' ', '/', ' '] + title,
        None => title,
    }
}

/// A completion is `[[`, its text, `]]`; splitting that text gives back the board
/// and the title, trimmed, when the board holds no `/` and a title without a board
/// holds no ` / `.
pub proof fn law_completion_parts(board: Option<Seq<char>>, title: Seq<char>)
    requires
        board matches Some(bd) ==> forall|i: int| 0 <= i < bd.len() ==> bd[i] != '/',
        board is None ==> find_sep(title, 0) is None,
    ensures
        ref_completion(board, title) == seq!['[', '['] + completion_text(board, title) + seq![
            ']',
            ']',
        ],
        ref_parts(completion_text(board, title)) == (
            match board {
                Some(bd) => Some(trim_chars(bd)),
                None => None,
            },
            trim_chars(title),
        ),
{
    match board {
        Some(bd) => {
            let s = completion_text(board, title);
            let n = bd.len() as int;
            assert forall|k: int| 0 <= k < n implies !sep_at(s, k) by {
                assert(s[k + 1] == '/' ==> k + 1 >= n);
            }
            lemma_find_sep_skips(s, 0, n);
            assert(sep_at(s, n));
            assert(s.take(n) =~= bd);
            assert(s.skip(n + 3) =~= title);
        },
        None => {},
    }
}

/// `find_sep` passes over a stretch without separators.
proof fn lemma_find_sep_skips(s: Seq<char>, from: int, to: int)
    requires
        0 <= from <= to,
        to + 3 <= s.len(),
        forall|k: int| from <= k < to ==> !sep_at(s, k),
    ensures
        find_sep(s, from) == find_sep(s, to),
    decreases to - from,
{
    if from < to {
        lemma_find_sep_skips(s, from + 1, to);
    }
}

/// The UTF-8 encoding of a concatenation is the concatenation of the encodings.
pub proof fn lemma_encode_concat(a: Seq<char>, b: Seq<char>)
    ensures
        encode_utf8(a + b) == encode_utf8(a) + encode_utf8(b),
    decreases a.len(),
{
    if a.len() > 0 {
        assert((a + b).drop_first() =~= a.drop_first() + b);
        lemma_encode_concat(a.drop_first(), b);
        assert(encode_utf8(a + b) =~= encode_utf8(a) + encode_utf8(b));
    } else {
        assert(a + b =~= b);
        assert(encode_utf8(a) + encode_utf8(b) =~= encode_utf8(b));
    }
}

proof fn lemma_ascii_scalar(v: u32)
    requires
        v <= 0x7f,
    ensures
        leading_byte_width_1(v) == v as u8,
{
    assert(v <= 0x7f ==> (v & 0x7f) as u8 == v as u8) by (bit_vector);
}

proof fn lemma_high_bytes(v: u32)
    ensures
        leading_byte_width_2(v) >= 0x80,
        leading_byte_width_3(v) >= 0x80,
        leading_byte_width_4(v) >= 0x80,
        last_continuation_byte(v) >= 0x80,
        second_last_continuation_byte(v) >= 0x80,
        third_last_continuation_byte(v) >= 0x80,
{
    assert(0xC0u8 | ((v >> 6u32) & 0x1Fu32) as u8 >= 0x80u8) by (bit_vector);
    assert(0xE0u8 | ((v >> 12u32) & 0x0Fu32) as u8 >= 0x80u8) by (bit_vector);
    assert(0xF0u8 | ((v >> 18u32) & 0x7u32) as u8 >= 0x80u8) by (bit_vector);
    assert(0x80u8 | (v & 0x3Fu32) as u8 >= 0x80u8) by (bit_vector);
    assert(0x80u8 | ((v >> 6u32) & 0x3Fu32) as u8 >= 0x80u8) by (bit_vector);
    assert(0x80u8 | ((v >> 12u32) & 0x3Fu32) as u8 >= 0x80u8) by (bit_vector);
}

/// An ASCII character is encoded as its own code.
proof fn lemma_encode_ascii_char(c: char)
    requires
        (c as u32) <= 0x7f,
    ensures
        encode_utf8(seq![c]) == seq![(c as u32) as u8],
{
    lemma_ascii_scalar(c as u32);
    assert(seq![c].drop_first() =~= Seq::<char>::empty());
    assert(seq![c][0] == c);
    assert(encode_utf8(Seq::<char>::empty()) =~= Seq::<u8>::empty());
    assert(encode_scalar(c as u32) =~= seq![(c as u32) as u8]);
    assert(encode_utf8(seq![c]) =~= seq![(c as u32) as u8]);
}

/// A text without `]` has no `]` byte in its encoding.
proof fn lemma_no_close_byte(s: Seq<char>)
    requires
        forall|i: int| 0 <= i < s.len() ==> s[i] != ']',
    ensures
        forall|k: int| 0 <= k < encode_utf8(s).len() ==> encode_utf8(s)[k] != close_byte(),
    decreases s.len(),
{
    if s.len() > 0 {
        let rest = s.drop_first();
        lemma_no_close_byte(rest);
        let v = s[0] as u32;
        lemma_high_bytes(v);
        if v <= 0x7f {
            lemma_ascii_scalar(v);
            assert(s[0] != ']');
            vstd::utf8::char_u32_cast(s[0], v);
            assert(v != 0x5d);
        }
        let e = encode_utf8(s);
        let h = encode_scalar(v);
        assert(e == h + encode_utf8(rest));
        assert forall|k: int| 0 <= k < e.len() implies e[k] != close_byte() by {
            if k >= h.len() {
                assert(e[k] == encode_utf8(rest)[k - h.len()]);
            }
        }
    }
}

/// `find_pair` passes over a stretch without the pair.
proof fn lemma_find_pair_skips(b: Seq<u8>, from: int, to: int, x: u8)
    requires
        0 <= from <= to,
        to + 1 < b.len(),
        forall|k: int| from <= k < to ==> !pair_at(b, k, x),
    ensures
        find_pair(b, from, x) == find_pair(b, to, x),
    decreases to - from,
{
    if from < to {
        lemma_find_pair_skips(b, from + 1, to, x);
    }
}

/// A completion inserted in card text is read back as one reference spanning all
/// of it, whose text is the completion's text, when board and title hold no `]`
/// and a title without a board is not blank.
pub proof fn law_completion_is_reference(board: Option<Seq<char>>, title: Seq<char>)
    requires
        forall|i: int| 0 <= i < title.len() ==> title[i] != ']',
        board matches Some(bd) ==> forall|i: int| 0 <= i < bd.len() ==> bd[i] != ']',
        board is None ==> !blank_chars(title),
    ensures
        refs_from(encode_utf8(ref_completion(board, title)), 0) == seq![
            (0int, encode_utf8(ref_completion(board, title)).len() as int),
        ],
        span_text(
            encode_utf8(ref_completion(board, title)),
            (0int, encode_utf8(ref_completion(board, title)).len() as int),
        ) == completion_text(board, title),
{
    let inner = completion_text(board, title);
    law_completion_parts_shape(board, title);
    let c = ref_completion(board, title);
    assert(c == seq!['[', '['] + inner + seq![']', ']']);
    assert forall|i: int| 0 <= i < inner.len() implies inner[i] != ']' by {
        if let Some(bd) = board {
            if i >= bd.len() + 3 {
                assert(inner[i] == title[i - bd.len() - 3]);
            } else if i < bd.len() {
                assert(inner[i] == bd[i]);
            }
        }
    }
    lemma_no_close_byte(inner);
    lemma_encode_concat(seq!['[', '['] + inner, seq![']', ']']);
    lemma_encode_concat(seq!['[', '['], inner);
    lemma_encode_concat(seq!['['], seq!['[']);
    lemma_encode_concat(seq![']'], seq![']']);
    assert(seq!['['] + seq!['['] =~= seq!['[', '[']);
    assert(seq![']'] + seq![']'] =~= seq![']', ']']);
    lemma_encode_ascii_char('[');
    lemma_encode_ascii_char(']');
    let ei = encode_utf8(inner);
    let m = ei.len() as int;
    let b = encode_utf8(c);
    assert(b == seq![0x5bu8, 0x5bu8] + ei + seq![0x5du8, 0x5du8]);
    assert(b.len() == m + 4);
    assert(pair_at(b, 0, open_byte()));
    assert forall|k: int| 2 <= k < m + 2 implies !pair_at(b, k, close_byte()) by {
        assert(b[k] == ei[k - 2]);
    }
    lemma_find_pair_skips(b, 2, m + 2, close_byte());
    assert(pair_at(b, m + 2, close_byte()));
    assert(find_pair(b, 2, close_byte()) == Some(m + 2));
    assert(b.subrange(2, m + 2) =~= ei);
    encode_utf8_decode_utf8(inner);
    if let Some(bd) = board {
        assert(inner[bd.len() as int + 1] == '/');
        assert(!crate::text::is_ws(inner[bd.len() as int + 1]));
    }
    assert(!blank_chars(inner));
    assert(refs_from(b, m + 4) == Seq::<(int, int)>::empty());
}

/// A completion is `[[`, its text, then `]]`.
proof fn law_completion_parts_shape(board: Option<Seq<char>>, title: Seq<char>)
    ensures
        ref_completion(board, title) == seq!['[', '['] + completion_text(board, title) + seq![
            ']',
            ']',
        ],
{
    match board {
        Some(bd) => {
            assert(ref_completion(board, title) =~= seq!['[', '['] + completion_text(board, title)
                + seq![']', ']']);
        },
        None => {
            assert(ref_completion(board, title) =~= seq!['[', '['] + completion_text(board, title)
                + seq![']', ']']);
        },
    }
}


/// While a reference is being typed, the query is the whole text typed since
/// its `[[`: when the last `[[` before the cursor `m` is at `o` and no `]]`
/// follows it before `m`, the query is `o` and exactly the text from `o + 2`
/// to `m`, whatever it holds (spaces and ` / ` included).
pub proof fn law_open_reference_is_queried(b: Seq<u8>, m: int, o: int)
    requires
        0 <= o,
        o + 2 <= m <= b.len(),
        b[o] == open_byte() && b[o + 1] == open_byte(),
        forall|j: int| o < j && j + 1 < m ==> !(b[j] == open_byte() && #[trigger] b[j + 1] == open_byte()),
        forall|j: int|
            o + 2 <= j && j + 1 < m ==> !(b[j] == close_byte() && #[trigger] b[j + 1] == close_byte()),
    ensures
        ref_query(b, m) == Some((o, decode_utf8(b.subrange(o + 2, m)))),
{
    let p = b.subrange(0, m);
    lemma_last_pair(p, open_byte());
    assert(pair_at(p, o, open_byte()));
    let j = last_pair(p, open_byte())->0;
    if j != o {
        assert(pair_at(p, j, open_byte()));
        assert(p[j] == b[j] && p[j + 1] == b[j + 1]);
        assert(o < j);
    }
    assert(last_pair(p, open_byte()) == Some(o));
    lemma_find_pair(p, o + 2, close_byte());
    if let Some(k) = find_pair(p, o + 2, close_byte()) {
        assert(pair_at(p, k, close_byte()));
        assert(p[k] == b[k] && p[k + 1] == b[k + 1]);
    }
}

/// No query is open before the first `[[`.
pub proof fn law_no_query_without_brackets(b: Seq<u8>, m: int)
    requires
        0 <= m <= b.len(),
        forall|j: int| 0 <= j && j + 1 < m ==> !(b[j] == open_byte() && #[trigger] b[j + 1] == open_byte()),
    ensures
        ref_query(b, m) is None,
{
    let p = b.subrange(0, m);
    lemma_last_pair(p, open_byte());
    if let Some(j) = last_pair(p, open_byte()) {
        assert(pair_at(p, j, open_byte()));
        assert(p[j] == b[j] && p[j + 1] == b[j + 1]);
    }
}

/// No query is open once a `]]` at `c` has closed the last `[[` (at `o`)
/// before the cursor.
pub proof fn law_closed_reference_has_no_query(b: Seq<u8>, m: int, o: int, c: int)
    requires
        0 <= o,
        o + 2 <= c,
        c + 1 < m <= b.len(),
        b[o] == open_byte() && b[o + 1] == open_byte(),
        b[c] == close_byte() && b[c + 1] == close_byte(),
        forall|j: int| o < j && j + 1 < m ==> !(b[j] == open_byte() && #[trigger] b[j + 1] == open_byte()),
    ensures
        ref_query(b, m) is None,
{
    let p = b.subrange(0, m);
    lemma_last_pair(p, open_byte());
    assert(pair_at(p, o, open_byte()));
    let j = last_pair(p, open_byte())->0;
    if j != o {
        assert(pair_at(p, j, open_byte()));
        assert(p[j] == b[j] && p[j + 1] == b[j + 1]);
    }
    lemma_find_pair(p, o + 2, close_byte());
    assert(pair_at(p, c, close_byte()));
}

} // verus!
