//! Toggling task-list checkboxes in card text.
//!
//! A checkbox line is a list item (marked `-`, `*` or `+`, or by one to nine
//! digits and `.` or `)`) whose text starts with a box ` [ ]`, ` [x]` or
//! ` [X]`, after any leading whitespace. Checkboxes are numbered in the order
//! of their lines, as the Markdown renderer numbers the task items it draws
//! when each is written on a line of its own; toggling checkbox `k` flips the
//! box of that line between unticked and ticked.
use vstd::prelude::*;
use crate::text::{
    chars_of, find_seq, find_seq_in, first_line, lemma_find_seq, lemma_find_seq_none,
    lemma_line_rest_shorter, line_rest, skip_ws, string_of, trim_start_chars,
};

verus! {

/// `<md>`
pub open spec fn md_open() -> Seq<char> {
    seq!['<', 'm', 'd', '>']
}

/// `</md>`
pub open spec fn md_close() -> Seq<char> {
    seq!['<', '/', 'm', 'd', '>']
}

/// An ASCII digit.
pub open spec fn is_digit(c: char) -> bool {
    '0' <= c && c <= '9'
}

/// The number of digits `t` starts with.
pub open spec fn digits_len(t: Seq<char>) -> nat
    decreases t.len(),
{
    if t.len() > 0 && is_digit(t[0]) {
        1 + digits_len(t.drop_first())
    } else {
        0
    }
}

/// The length of the list marker `t` starts with: 1 for `-`, `*` or `+`, the
/// digits and the `.` or `)` of an ordered item (one to nine digits), and 0
/// when `t` starts with no marker.
pub open spec fn marker_len(t: Seq<char>) -> nat {
    if t.len() > 0 && (t[0] == '-' || t[0] == '*' || t[0] == '+') {
        1
    } else {
        let d = digits_len(t);
        if 1 <= d <= 9 && d < t.len() && (t[d as int] == '.' || t[d as int] == ')') {
            d + 1
        } else {
            0
        }
    }
}

/// A box character: a space (unticked), `x` or `X` (ticked).
pub open spec fn box_char(c: char) -> bool {
    c == ' ' || c == 'x' || c == 'X'
}

/// `t` starts with a list marker followed by a space and a box `[c]`.
pub open spec fn has_box(t: Seq<char>) -> bool {
    let m = marker_len(t) as int;
    &&& m > 0
    &&& m + 4 <= t.len()
    &&& t[m] == ' '
    &&& t[m + 1] == '['
    &&& box_char(t[m + 2])
    &&& t[m + 3] == ']'
}

/// The line, with its leading whitespace removed, is a list item starting
/// with a box.
pub open spec fn is_checkbox_line(l: Seq<char>) -> bool {
    has_box(trim_start_chars(l))
}

/// The index of the box character in a checkbox line.
pub open spec fn box_pos(l: Seq<char>) -> int {
    l.len() - trim_start_chars(l).len() + marker_len(trim_start_chars(l)) + 2
}

/// A checkbox line whose box is ticked.
pub open spec fn is_checked_line(l: Seq<char>) -> bool {
    is_checkbox_line(l) && l[box_pos(l)] != ' '
}

/// A checkbox line with its box flipped: unticked becomes `x`, ticked (`x` or
/// `X`) becomes unticked.
pub open spec fn toggle_line(l: Seq<char>) -> Seq<char> {
    l.update(
        box_pos(l),
        if l[box_pos(l)] == ' ' {
            'x'
        } else {
            ' '
        },
    )
}

/// The lines of `s`, each followed by `\n`, with the checkbox line numbered `idx`
/// toggled; `counter` is the number of checkbox lines before `s`.
pub open spec fn toggle_lines(s: Seq<char>, idx: int, counter: int) -> Seq<char>
    decreases s.len(),
{
    if s.len() == 0 {
        seq![]
    } else {
        let l = first_line(s);
        let out = if is_checkbox_line(l) && counter == idx {
            toggle_line(l)
        } else {
            l
        };
        proof {
            lemma_line_rest_shorter(s);
        }
        out + seq!['\n'] + toggle_lines(
            line_rest(s),
            idx,
            if is_checkbox_line(l) {
                counter + 1
            } else {
                counter
            },
        )
    }
}

/// The number of checkbox lines in `s`.
pub open spec fn count_checkbox_lines(s: Seq<char>) -> int
    decreases s.len(),
{
    if s.len() == 0 {
        0
    } else {
        proof {
            lemma_line_rest_shorter(s);
        }
        (if is_checkbox_line(first_line(s)) {
            1int
        } else {
            0int
        }) + count_checkbox_lines(line_rest(s))
    }
}

/// `r` without its final `\n` when `body` does not end with one.
pub open spec fn match_final_newline(r: Seq<char>, body: Seq<char>) -> Seq<char> {
    if !(body.len() > 0 && body.last() == '\n') && r.len() > 0 && r.last() == '\n' {
        r.drop_last()
    } else {
        r
    }
}

/// A Markdown card's text with its checkbox numbered `idx` toggled.
pub open spec fn toggled_markdown(text: Seq<char>, idx: int) -> Seq<char> {
    match_final_newline(toggle_lines(text, idx, 0), text)
}

/// Text whose Markdown stands in `<md>...</md>` blocks, with the checkbox numbered
/// `idx` across all blocks toggled; `counter` checkboxes come before `s`. A
/// `<md>` without a closing `</md>` is written twice, then the rest unchanged.
pub open spec fn toggled_md_blocks(s: Seq<char>, idx: int, counter: int) -> Seq<char>
    decreases s.len(),
{
    match find_seq(s, md_open()) {
        None => s,
        Some(a) => match find_seq(s.skip(a + 4), md_close()) {
            None => s.take(a) + md_open() + s.skip(a),
            Some(e) => {
                let body = s.subrange(a + 4, a + 4 + e);
                proof {
                    lemma_find_seq(s, md_open());
                    lemma_find_seq(s.skip(a + 4), md_close());
                }
                s.take(a) + md_open() + match_final_newline(
                    toggle_lines(body, idx, counter),
                    body,
                ) + md_close() + toggled_md_blocks(
                    s.skip(a + 4 + e + 5),
                    idx,
                    counter + count_checkbox_lines(body),
                )
            },
        },
    }
}

/// The digits of an ordered-item marker: `v[t..to]` starts with `d` digits,
/// which is what `digits_len` counts.
proof fn lemma_digits_skip(t: Seq<char>, d: int)
    requires
        0 <= d <= t.len(),
        forall|j: int| 0 <= j < d ==> is_digit(#[trigger] t[j]),
    ensures
        digits_len(t) == d + digits_len(t.skip(d)),
    decreases d,
{
    if d == 0 {
        assert(t.skip(0) =~= t);
    } else {
        let u = t.drop_first();
        assert forall|j: int| 0 <= j < d - 1 implies is_digit(#[trigger] u[j]) by {
            assert(u[j] == t[j + 1]);
        }
        lemma_digits_skip(u, d - 1);
        assert(u.skip(d - 1) =~= t.skip(d));
    }
}

/// The box position of the line `v[from..to]`, when it is a checkbox line.
fn checkbox_line_at(v: &Vec<char>, from: usize, to: usize) -> (r: Option<usize>)
    requires
        from <= to <= v@.len(),
    ensures
        r is Some == is_checkbox_line(v@.subrange(from as int, to as int)),
        r matches Some(p) ==> p == from + box_pos(v@.subrange(from as int, to as int)) && p < to,
{
    let ghost l = v@.subrange(from as int, to as int);
    let t0 = skip_ws(v, from, to);
    let ghost t = v@.subrange(t0 as int, to as int);
    assert(t == trim_start_chars(l));
    let m: usize = if t0 < to && (v[t0] == '-' || v[t0] == '*' || v[t0] == '+') {
        1
    } else {
        let mut d: usize = 0;
        while t0 + d < to && '0' <= v[t0 + d] && v[t0 + d] <= '9'
            invariant
                t0 <= to <= v@.len(),
                t0 + d <= to,
                t == v@.subrange(t0 as int, to as int),
                forall|j: int| 0 <= j < d ==> is_digit(#[trigger] t[j]),
            decreases to - t0 - d,
        {
            assert(t[d as int] == v@[t0 + d]);
            d += 1;
        }
        proof {
            lemma_digits_skip(t, d as int);
            if t0 + d < to {
                assert(t.skip(d as int)[0] == v@[t0 + d]);
            }
            assert(digits_len(t.skip(d as int)) == 0);
        }
        if 1 <= d && d <= 9 && t0 + d < to && (v[t0 + d] == '.' || v[t0 + d] == ')') {
            d + 1
        } else {
            0
        }
    };
    assert(m == marker_len(t));
    if m == 0 || to - t0 < m + 4 {
        return None;
    }
    let b = v[t0 + m + 2];
    if v[t0 + m] == ' ' && v[t0 + m + 1] == '[' && (b == ' ' || b == 'x' || b == 'X') && v[t0 + m + 3] == ']' {
        Some(t0 + m + 2)
    } else {
        None
    }
}

/// The box character of a checkbox line and what lies around it.
proof fn lemma_box_pos(l: Seq<char>)
    requires
        is_checkbox_line(l),
    ensures
        0 <= l.len() - trim_start_chars(l).len(),
        l.len() - trim_start_chars(l).len() + 3 <= box_pos(l) < l.len(),
        l[box_pos(l)] == trim_start_chars(l)[marker_len(trim_start_chars(l)) + 2int],
{
    lemma_trim_start_split(l);
    let t = trim_start_chars(l);
    let k = l.len() - t.len();
    assert(t[marker_len(t) + 2int] == l.skip(k)[marker_len(t) + 2int]);
}

/// Appends the line `v[from..to]`, a checkbox line whose box is at `p`, with
/// its box flipped, to `out`.
fn push_toggled_line(out: &mut Vec<char>, v: &Vec<char>, from: usize, to: usize, p: usize)
    requires
        from <= p < to <= v@.len(),
        is_checkbox_line(v@.subrange(from as int, to as int)),
        p == from + box_pos(v@.subrange(from as int, to as int)),
    ensures
        final(out)@ == old(out)@ + toggle_line(v@.subrange(from as int, to as int)),
{
    let ghost l = v@.subrange(from as int, to as int);
    push_range(out, v, from, p);
    let c = if v[p] == ' ' {
        'x'
    } else {
        ' '
    };
    out.push(c);
    push_range(out, v, p + 1, to);
    assert(l[p - from] == v@[p as int]);
    assert(out@ =~= old(out)@ + toggle_line(l));
}

/// A checkbox line is not empty.
proof fn lemma_checkbox_line_nonempty(l: Seq<char>)
    requires
        is_checkbox_line(l),
    ensures
        l.len() > 0,
{
    lemma_box_pos(l);
}

/// Appends the lines of `v[from..to]`, each followed by `\n`, to `out`, toggling the
/// checkbox line numbered `idx`; returns the count of checkbox lines so far.
fn push_toggled_lines(
    out: &mut Vec<char>,
    v: &Vec<char>,
    from: usize,
    to: usize,
    idx: usize,
    counter: usize,
) -> (c: usize)
    requires
        from <= to <= v@.len(),
        counter <= from,
    ensures
        final(out)@ == old(out)@ + toggle_lines(
            v@.subrange(from as int, to as int),
            idx as int,
            counter as int,
        ),
        c == counter + count_checkbox_lines(v@.subrange(from as int, to as int)),
        c <= to,
{
    let ghost whole = v@.subrange(from as int, to as int);
    let nl: [char; 1] = ['\n'];
    assert(nl@ =~= seq!['\n']);
    let mut pos = from;
    let mut c = counter;
    while pos < to
        invariant
            from <= pos <= to <= v@.len(),
            whole == v@.subrange(from as int, to as int),
            nl@ == seq!['\n'],
            c <= pos,
            out@ + toggle_lines(v@.subrange(pos as int, to as int), idx as int, c as int)
                == old(out)@ + toggle_lines(whole, idx as int, counter as int),
            c + count_checkbox_lines(v@.subrange(pos as int, to as int)) == counter
                + count_checkbox_lines(whole),
        decreases to - pos,
    {
        let ghost s = v@.subrange(pos as int, to as int);
        let ghost before = out@;
        let (line_end, next) = match find_seq_in(v, pos, to, &nl) {
            Some(k) => {
                proof {
                    lemma_find_seq(s, seq!['\n']);
                    assert(s.take(k - pos) =~= v@.subrange(pos as int, k as int));
                    assert(s.skip(k - pos + 1) =~= v@.subrange(k + 1, to as int));
                }
                if k > pos && v[k - 1] == '\r' {
                    assert(v@.subrange(pos as int, k as int).drop_last() =~= v@.subrange(
                        pos as int,
                        k - 1,
                    ));
                    (k - 1, k + 1)
                } else {
                    (k, k + 1)
                }
            },
            None => {
                assert(v@.subrange(to as int, to as int) =~= Seq::<char>::empty());
                (to, to)
            },
        };
        assert(first_line(s) == v@.subrange(pos as int, line_end as int));
        assert(line_rest(s) == v@.subrange(next as int, to as int));
        let cb = checkbox_line_at(v, pos, line_end);
        let is_cb = cb.is_some();
        let ghost c_before = c;
        if is_cb && c == idx {
            let p = match cb {
                Some(p) => p,
                None => 0,
            };
            proof {
                lemma_box_pos(v@.subrange(pos as int, line_end as int));
            }
            push_toggled_line(out, v, pos, line_end, p);
        } else {
            let mut m = pos;
            while m < line_end
                invariant
                    pos <= m <= line_end <= v@.len(),
                    out@ == before + v@.subrange(pos as int, m as int),
                decreases line_end - m,
            {
                out.push(v[m]);
                m += 1;
                assert(v@.subrange(pos as int, m as int) =~= v@.subrange(pos as int, m - 1).push(
                    v@[m - 1],
                ));
            }
        }
        out.push('\n');
        if is_cb {
            proof {
                lemma_checkbox_line_nonempty(v@.subrange(pos as int, line_end as int));
            }
            c += 1;
        }
        assert(out@ + toggle_lines(v@.subrange(next as int, to as int), idx as int, c as int)
            =~= before + toggle_lines(s, idx as int, c_before as int));
        pos = next;
    }
    assert(v@.subrange(pos as int, to as int).len() == 0);
    assert(out@ =~= old(out)@ + toggle_lines(whole, idx as int, counter as int));
    c
}

/// Removes the final `\n` of `out` when `v[from..to]` does not end with one.
fn match_final_newline_exec(out: &mut Vec<char>, v: &Vec<char>, from: usize, to: usize)
    requires
        from <= to <= v@.len(),
    ensures
        final(out)@ == match_final_newline(old(out)@, v@.subrange(from as int, to as int)),
{
    let body_ends_nl = to > from && v[to - 1] == '\n';
    let n = out.len();
    if !body_ends_nl && n > 0 && out[n - 1] == '\n' {
        out.pop();
    }
}

/// Toggle a checkbox at the specified line index in markdown text.
/// Toggle a checkbox for a plain Markdown card (content is raw markdown, no <md> tags).
pub fn toggle_checkbox_markdown(text: &str, line_index: usize) -> (r: String)
    ensures
        r@ == toggled_markdown(text@, line_index as int),
{
    let v = chars_of(text);
    let n = v.len();
    let mut out: Vec<char> = Vec::new();
    push_toggled_lines(&mut out, &v, 0, n, line_index, 0);
    assert(v@.subrange(0, n as int) =~= v@);
    match_final_newline_exec(&mut out, &v, 0, n);
    let len = out.len();
    assert(out@.subrange(0, len as int) =~= out@);
    string_of(&out, 0, len)
}

/// Appends the characters `v[from..to]` to `out`.
fn push_range(out: &mut Vec<char>, v: &[char], from: usize, to: usize)
    requires
        from <= to <= v@.len(),
    ensures
        final(out)@ == old(out)@ + v@.subrange(from as int, to as int),
{
    let mut m = from;
    while m < to
        invariant
            from <= m <= to <= v@.len(),
            out@ == old(out)@ + v@.subrange(from as int, m as int),
        decreases to - m,
    {
        out.push(v[m]);
        m += 1;
        assert(v@.subrange(from as int, m as int) =~= v@.subrange(from as int, m - 1).push(
            v@[m - 1],
        ));
    }
}

/// One step of `toggled_md_blocks` on `v[pos..n]` when a closed block is found.
proof fn lemma_md_closed_block(
    v: Seq<char>,
    pos: int,
    md_start: int,
    md_end: int,
    n: int,
    idx: int,
    counter: int,
)
    requires
        0 <= pos <= md_start,
        md_start + 4 <= n <= v.len(),
        md_start + 4 <= md_end,
        find_seq(v.subrange(pos, n), md_open()) == Some(md_start - pos),
        find_seq(v.subrange(md_start + 4, n), md_close()) == Some(md_end - (md_start + 4)),
    ensures
        md_end + 5 <= n,
        toggled_md_blocks(v.subrange(pos, n), idx, counter) == v.subrange(pos, md_start)
            + md_open() + match_final_newline(
            toggle_lines(v.subrange(md_start + 4, md_end), idx, counter),
            v.subrange(md_start + 4, md_end),
        ) + md_close() + toggled_md_blocks(
            v.subrange(md_end + 5, n),
            idx,
            counter + count_checkbox_lines(v.subrange(md_start + 4, md_end)),
        ),
{
    let s = v.subrange(pos, n);
    let a = md_start - pos;
    lemma_find_seq(s, md_open());
    assert(s.skip(a + 4) =~= v.subrange(md_start + 4, n));
    lemma_find_seq(s.skip(a + 4), md_close());
    let e = md_end - (md_start + 4);
    assert(s.take(a) =~= v.subrange(pos, md_start));
    assert(s.subrange(a + 4, a + 4 + e) =~= v.subrange(md_start + 4, md_end));
    assert(s.skip(a + 4 + e + 5) =~= v.subrange(md_end + 5, n));
}

/// One step of `toggled_md_blocks` on `v[pos..n]` when a block is left open.
proof fn lemma_md_open_block(v: Seq<char>, pos: int, md_start: int, n: int, idx: int, counter: int)
    requires
        0 <= pos <= md_start,
        md_start + 4 <= n <= v.len(),
        find_seq(v.subrange(pos, n), md_open()) == Some(md_start - pos),
        find_seq(v.subrange(md_start + 4, n), md_close()) is None,
    ensures
        toggled_md_blocks(v.subrange(pos, n), idx, counter) == v.subrange(pos, md_start)
            + md_open() + v.subrange(md_start, n),
{
    let s = v.subrange(pos, n);
    let a = md_start - pos;
    lemma_find_seq(s, md_open());
    assert(s.skip(a + 4) =~= v.subrange(md_start + 4, n));
    assert(s.take(a) =~= v.subrange(pos, md_start));
    assert(s.skip(a) =~= v.subrange(md_start, n));
}

/// Appends `v[pos..md_start]` and the block `<md>` `v[md_start + 4..md_end]` `</md>`
/// with its checkbox lines handled, to `out`; returns the checkbox count after it.
fn push_closed_block(
    out: &mut Vec<char>,
    v: &Vec<char>,
    pos: usize,
    md_start: usize,
    md_end: usize,
    idx: usize,
    counter: usize,
) -> (c: usize)
    requires
        pos <= md_start,
        md_start + 4 <= md_end,
        md_end + 5 <= v@.len(),
        counter <= pos,
    ensures
        final(out)@ == old(out)@ + v@.subrange(pos as int, md_start as int) + md_open()
            + match_final_newline(
            toggle_lines(v@.subrange(md_start + 4, md_end as int), idx as int, counter as int),
            v@.subrange(md_start + 4, md_end as int),
        ) + md_close(),
        c == counter + count_checkbox_lines(v@.subrange(md_start + 4, md_end as int)),
        c <= md_end + 5,
{
    let open: [char; 4] = ['<', 'm', 'd', '>'];
    let close: [char; 5] = ['<', '/', 'm', 'd', '>'];
    assert(open@ =~= md_open());
    assert(close@ =~= md_close());
    push_range(out, v, pos, md_start);
    push_range(out, &open, 0, 4);
    let ghost mid = out@;
    let c = push_toggled_lines(out, v, md_start + 4, md_end, idx, counter);
    match_final_newline_exec(out, v, md_start + 4, md_end);
    let ghost body_out = out@;
    push_range(out, &close, 0, 5);
    proof {
        assert(open@.subrange(0, 4) =~= md_open());
        assert(close@.subrange(0, 5) =~= md_close());
        let body = v@.subrange(md_start + 4, md_end as int);
        let tl = toggle_lines(body, idx as int, counter as int);
        assert(mid =~= old(out)@ + v@.subrange(pos as int, md_start as int) + md_open());
        assert(body_out =~= match_final_newline(mid + tl, body));
        if !(body.len() > 0 && body.last() == '\n') && tl.len() > 0 && tl.last() == '\n' {
            assert((mid + tl).drop_last() =~= mid + tl.drop_last());
        } else if !(body.len() > 0 && body.last() == '\n') && tl.len() == 0 {
            assert(mid + tl =~= mid);
        }
    }
    c
}

/// Toggle the checkbox numbered `line_index` in text whose Markdown stands in
/// `<md>...</md>` blocks; the numbering runs across all blocks.
pub fn toggle_checkbox_in_text(text: &str, line_index: usize) -> (r: String)
    ensures
        r@ == toggled_md_blocks(text@, line_index as int, 0),
{
    let v = chars_of(text);
    let n = v.len();
    let open: [char; 4] = ['<', 'm', 'd', '>'];
    let close: [char; 5] = ['<', '/', 'm', 'd', '>'];
    assert(open@ =~= md_open());
    assert(close@ =~= md_close());
    let mut out: Vec<char> = Vec::new();
    let mut counter: usize = 0;
    let mut pos: usize = 0;
    assert(v@.subrange(0, n as int) =~= v@);
    while pos < n
        invariant
            pos <= n == v@.len(),
            v@ == text@,
            open@ == md_open(),
            close@ == md_close(),
            counter <= pos,
            out@ + toggled_md_blocks(v@.subrange(pos as int, n as int), line_index as int, counter as int)
                == toggled_md_blocks(text@, line_index as int, 0),
        decreases n - pos,
    {
        let ghost s = v@.subrange(pos as int, n as int);
        let ghost before = out@;
        match find_seq_in(&v, pos, n, &open) {
            Some(md_start) => {
                proof {
                    lemma_find_seq(s, md_open());
                }
                let content_start = md_start + 4;
                match find_seq_in(&v, content_start, n, &close) {
                    Some(md_end) => {
                        proof {
                            lemma_md_closed_block(
                                v@,
                                pos as int,
                                md_start as int,
                                md_end as int,
                                n as int,
                                line_index as int,
                                counter as int,
                            );
                        }
                        let c = push_closed_block(&mut out, &v, pos, md_start, md_end, line_index, counter);
                        counter = c;
                        pos = md_end + 5;
                    },
                    None => {
                        proof {
                            lemma_md_open_block(
                                v@,
                                pos as int,
                                md_start as int,
                                n as int,
                                line_index as int,
                                counter as int,
                            );
                        }
                        push_range(&mut out, &v, pos, md_start);
                        push_range(&mut out, &open, 0, 4);
                        push_range(&mut out, &v, md_start, n);
                        proof {
                            assert(open@.subrange(0, 4) =~= md_open());
                            assert(v@.subrange(n as int, n as int) =~= Seq::<char>::empty());
                        }
                        pos = n;
                    },
                }
            },
            None => {
                push_range(&mut out, &v, pos, n);
                assert(v@.subrange(n as int, n as int) =~= Seq::<char>::empty());
                pos = n;
            },
        }
    }
    assert(v@.subrange(pos as int, n as int) =~= Seq::<char>::empty());
    let len = out.len();
    assert(out@.subrange(0, len as int) =~= out@);
    string_of(&out, 0, len)
}

proof fn lemma_count_nonneg(s: Seq<char>)
    ensures
        count_checkbox_lines(s) >= 0,
    decreases s.len(),
{
    if s.len() > 0 {
        lemma_line_rest_shorter(s);
        lemma_count_nonneg(line_rest(s));
    }
}

/// The lines of a text without carriage returns, each followed by `\n`, give the
/// text back, with a final `\n` added when it lacked one.
proof fn lemma_untoggled_lines(s: Seq<char>, idx: int, counter: int)
    requires
        forall|i: int| 0 <= i < s.len() ==> s[i] != '\r',
        idx < counter || idx >= counter + count_checkbox_lines(s),
    ensures
        toggle_lines(s, idx, counter) == (if s.len() > 0 && s.last() != '\n' {
            s.push('\n')
        } else {
            s
        }),
    decreases s.len(),
{
    if s.len() > 0 {
        let nl = seq!['\n'];
        lemma_find_seq(s, nl);
        lemma_count_nonneg(line_rest(s));
        lemma_line_rest_shorter(s);
        let l = first_line(s);
        let rest = line_rest(s);
        let c2 = if is_checkbox_line(l) {
            counter + 1
        } else {
            counter
        };
        assert(count_checkbox_lines(s) == (if is_checkbox_line(l) {
            1int
        } else {
            0int
        }) + count_checkbox_lines(rest));
        match find_seq(s, nl) {
            Some(k) => {
                assert(s.skip(k).take(1) =~= nl);
                assert(s.skip(k).take(1)[0] == s[k]);
                assert(s[k] == '\n');
                assert(s.take(k).len() == 0 || s.take(k).last() != '\r');
                assert(l == s.take(k));
                assert(rest == s.skip(k + 1));
                assert forall|i: int| 0 <= i < rest.len() implies rest[i] != '\r' by {
                    assert(rest[i] == s[k + 1 + i]);
                }
                lemma_untoggled_lines(rest, idx, c2);
                assert(!is_checkbox_line(l) || counter != idx);
                assert(toggle_lines(s, idx, counter) == l + seq!['\n'] + toggle_lines(rest, idx, c2));
                if rest.len() == 0 {
                    assert(s =~= l + seq!['\n']);
                } else {
                    assert(s =~= l + seq!['\n'] + rest);
                    assert(s.last() == rest.last());
                    if rest.last() != '\n' {
                        assert(l + seq!['\n'] + rest.push('\n') =~= s.push('\n'));
                    }
                }
                assert(toggle_lines(s, idx, counter) =~= (if s.len() > 0 && s.last() != '\n' {
                    s.push('\n')
                } else {
                    s
                }));
            },
            None => {
                lemma_find_seq_none(s, nl);
                assert forall|k: int| 0 <= k < s.len() implies s[k] != '\n' by {
                    assert(s.skip(k).take(1) =~= seq![s[k]]);
                }
                assert(l == s);
                assert(rest =~= Seq::<char>::empty());
                assert(count_checkbox_lines(rest) == 0);
                assert(toggle_lines(rest, idx, c2) == Seq::<char>::empty());
                assert(!is_checkbox_line(l) || counter != idx);
                assert(toggle_lines(s, idx, counter) == l + seq!['\n'] + toggle_lines(rest, idx, c2));
                assert(toggle_lines(s, idx, counter) =~= s.push('\n'));
            },
        }
    }
}

/// Toggling a checkbox the text does not have leaves a text without carriage
/// returns as it is.
pub proof fn law_toggle_out_of_range_keeps_text(text: Seq<char>, idx: int)
    requires
        forall|i: int| 0 <= i < text.len() ==> text[i] != '\r',
        idx < 0 || idx >= count_checkbox_lines(text),
    ensures
        toggled_markdown(text, idx) == text,
{
    lemma_untoggled_lines(text, idx, 0);
    if text.len() > 0 && text.last() != '\n' {
        assert(text.push('\n').drop_last() =~= text);
    }
}

/// Trimming the start drops a whitespace prefix: `l` is that prefix followed
/// by what is left.
proof fn lemma_trim_start_split(l: Seq<char>)
    ensures
        trim_start_chars(l).len() <= l.len(),
        trim_start_chars(l) == l.skip(l.len() - trim_start_chars(l).len()),
        forall|j: int|
            0 <= j < l.len() - trim_start_chars(l).len() ==> crate::text::is_ws(#[trigger] l[j]),
    decreases l.len(),
{
    if l.len() > 0 && crate::text::is_ws(l[0]) {
        lemma_trim_start_split(l.drop_first());
        let t = trim_start_chars(l.drop_first());
        assert(l.drop_first().skip(l.drop_first().len() - t.len()) =~= l.skip(l.len() - t.len()));
        assert forall|j: int| 0 <= j < l.len() - t.len() implies crate::text::is_ws(#[trigger] l[j]) by {
            if j > 0 {
                assert(l[j] == l.drop_first()[j - 1]);
            }
        }
    } else {
        assert(l.skip(0) =~= l);
    }
}

/// Trimming whitespace off `a + q`, where `q` does not start with whitespace,
/// leaves `q`.
proof fn lemma_trim_start_of_padded(a: Seq<char>, q: Seq<char>)
    requires
        forall|j: int| 0 <= j < a.len() ==> crate::text::is_ws(#[trigger] a[j]),
        q.len() > 0,
        !crate::text::is_ws(q[0]),
    ensures
        trim_start_chars(a + q) == q,
    decreases a.len(),
{
    if a.len() > 0 {
        assert((a + q).drop_first() =~= a.drop_first() + q);
        assert forall|j: int| 0 <= j < a.drop_first().len() implies crate::text::is_ws(
            #[trigger] a.drop_first()[j],
        ) by {
            assert(a.drop_first()[j] == a[j + 1]);
        }
        lemma_trim_start_of_padded(a.drop_first(), q);
    } else {
        assert(a + q =~= q);
    }
}

/// What `digits_len` counts: a run of digits, ended by the end or by a
/// character that is not one.
proof fn lemma_digits_shape(t: Seq<char>)
    ensures
        digits_len(t) <= t.len(),
        forall|j: int| 0 <= j < digits_len(t) ==> is_digit(#[trigger] t[j]),
        digits_len(t) < t.len() ==> !is_digit(t[digits_len(t) as int]),
    decreases t.len(),
{
    if t.len() > 0 && is_digit(t[0]) {
        let u = t.drop_first();
        lemma_digits_shape(u);
        assert forall|j: int| 0 <= j < digits_len(t) implies is_digit(#[trigger] t[j]) by {
            if j > 0 {
                assert(t[j] == u[j - 1]);
            }
        }
        if digits_len(t) < t.len() {
            assert(t[digits_len(t) as int] == u[digits_len(u) as int]);
        }
    }
}

/// A sequence that agrees with `t` up to and including the end of its list
/// marker has the same marker.
proof fn lemma_marker_kept(t: Seq<char>, t2: Seq<char>)
    requires
        marker_len(t) > 0,
        t2.len() == t.len(),
        forall|j: int| 0 <= j < marker_len(t) ==> t2[j] == t[j],
    ensures
        marker_len(t2) == marker_len(t),
{
    if !(t[0] == '-' || t[0] == '*' || t[0] == '+') {
        lemma_digits_shape(t);
        let d = digits_len(t) as int;
        assert(t2[d] == t[d]);
        assert forall|j: int| 0 <= j < d implies is_digit(#[trigger] t2[j]) by {
            assert(t2[j] == t[j]);
        }
        lemma_digits_skip(t2, d);
        assert(t2.skip(d)[0] == t2[d]);
        assert(digits_len(t2.skip(d)) == 0);
    } else {
        assert(t2[0] == t[0]);
    }
}

/// Toggling a checkbox line flips its box (an unticked box becomes ticked, a
/// ticked one, `x` or `X`, unticked); the line stays a checkbox line with its
/// box where it was, and nothing else in it changes.
pub proof fn law_toggle_flips_checkbox(l: Seq<char>)
    requires
        is_checkbox_line(l),
    ensures
        is_checkbox_line(toggle_line(l)),
        box_pos(toggle_line(l)) == box_pos(l),
        is_checked_line(toggle_line(l)) <==> !is_checked_line(l),
        toggle_line(l).len() == l.len(),
        forall|j: int| 0 <= j < l.len() && j != box_pos(l) ==> #[trigger] toggle_line(l)[j] == l[j],
{
    lemma_box_pos(l);
    lemma_trim_start_split(l);
    let t = trim_start_chars(l);
    let k = l.len() - t.len();
    let p = box_pos(l);
    let l2 = toggle_line(l);
    let pre = l.take(k);
    assert forall|j: int| 0 <= j < pre.len() implies crate::text::is_ws(#[trigger] pre[j]) by {
        assert(pre[j] == l[j]);
    }
    let q2 = l2.skip(k);
    assert(l2 =~= pre + q2);
    assert(q2[0] == t[0]);
    assert(!crate::text::is_ws(t[0])) by {
        if !(t[0] == '-' || t[0] == '*' || t[0] == '+') {
            lemma_digits_shape(t);
        }
    }
    lemma_trim_start_of_padded(pre, q2);
    assert(trim_start_chars(l2) == q2);
    let m = marker_len(t) as int;
    assert forall|j: int| 0 <= j < marker_len(t) implies q2[j] == t[j] by {
        assert(q2[j] == l2[k + j]);
        assert(t[j] == l[k + j]);
    }
    lemma_marker_kept(t, q2);
    assert(q2[m] == t[m] && q2[m + 1] == t[m + 1] && q2[m + 3] == t[m + 3]) by {
        assert(t[m] == l[k + m] && t[m + 1] == l[k + m + 1] && t[m + 3] == l[k + m + 3]);
    }
    assert(q2[m + 2] == l2[p]);
}

/// Toggling the same checkbox twice gives the text back unless its box held
/// an `X`, which comes back as `x`.
pub proof fn law_toggle_twice(l: Seq<char>)
    requires
        is_checkbox_line(l),
        l[box_pos(l)] != 'X',
    ensures
        toggle_line(toggle_line(l)) == l,
{
    law_toggle_flips_checkbox(l);
    lemma_box_pos(l);
    assert(toggle_line(toggle_line(l)) =~= l);
}

/// Text outside `<md>...</md>` blocks is copied as it is: a text holding no
/// `<md>` comes back unchanged, whatever checkbox is toggled.
pub proof fn law_text_without_blocks_is_kept(text: Seq<char>, idx: int)
    requires
        find_seq(text, md_open()) is None,
    ensures
        toggled_md_blocks(text, idx, 0) == text,
{
}

} // verus!
