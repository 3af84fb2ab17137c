//! Reading the natural size of a rendered formula from its SVG text.
//!
//! The renderer writes `width="12.5pt"` and `height="8pt"` on the root
//! element; the number is the run of digits and dots at the start of the
//! attribute's value, the unit after it is dropped.
use vstd::prelude::*;
use crate::text::{chars_of, find_seq, find_seq_in, lemma_find_seq, string_of};

verus! {

/// The text searched for an attribute: its name, `=` and the opening quote.
pub open spec fn attr_needle(attr: Seq<char>) -> Seq<char> {
    attr + seq!['=', '"']
}

/// A character of a number as the renderer writes it: an ASCII digit or a dot.
pub open spec fn number_char(c: char) -> bool {
    ('0' <= c && c <= '9') || c == '.'
}

/// The longest prefix of `s` made of number characters.
pub open spec fn number_prefix(s: Seq<char>) -> Seq<char>
    decreases s.len(),
{
    if s.len() > 0 && number_char(s[0]) {
        seq![s[0]] + number_prefix(s.drop_first())
    } else {
        Seq::empty()
    }
}

/// The value of the first `attr="..."` in `svg`, up to its closing quote;
/// `None` when there is no such attribute or its quote is not closed.
pub open spec fn attr_value(svg: Seq<char>, attr: Seq<char>) -> Option<Seq<char>> {
    match find_seq(svg, attr_needle(attr)) {
        Some(start) => {
            let rest = svg.skip(start + attr.len() + 2);
            match find_seq(rest, seq!['"']) {
                Some(end) => Some(rest.take(end)),
                None => None,
            }
        },
        None => None,
    }
}

/// The number characters at the start of `v[from..to]` end at the returned index.
fn number_prefix_end(v: &Vec<char>, from: usize, to: usize) -> (r: usize)
    requires
        from <= to <= v@.len(),
    ensures
        from <= r <= to,
        v@.subrange(from as int, r as int) == number_prefix(v@.subrange(from as int, to as int)),
    decreases to - from,
{
    if from < to && (('0' <= v[from] && v[from] <= '9') || v[from] == '.') {
        let r = number_prefix_end(v, from + 1, to);
        let ghost s = v@.subrange(from as int, to as int);
        assert(s.drop_first() =~= v@.subrange(from + 1, to as int));
        assert(v@.subrange(from as int, r as int) =~= seq![s[0]] + v@.subrange(
            from + 1,
            r as int,
        ));
        r
    } else {
        assert(v@.subrange(from as int, from as int) =~= Seq::<char>::empty());
        from
    }
}

/// The number text of attribute `attr` in the SVG text `svg`: the digits and
/// dots at the start of the value of its first `attr="..."`. `None` when the
/// attribute is missing or its value unterminated; the caller reads a size of
/// zero then, and also when the text is not a number.
pub fn parse_attr_digits(svg: &str, attr: &str) -> (r: Option<String>)
    ensures
        r is None <==> attr_value(svg@, attr@) is None,
        r matches Some(d) ==> (attr_value(svg@, attr@) matches Some(val) && d@ == number_prefix(
            val,
        )),
{
    let v = chars_of(svg);
    let mut needle = chars_of(attr);
    needle.push('=');
    needle.push('"');
    assert(needle@ =~= attr_needle(attr@));
    assert(v@.subrange(0, v@.len() as int) =~= v@);
    let start = match find_seq_in(&v, 0, v.len(), needle.as_slice()) {
        Some(s) => s,
        None => {
            return None;
        },
    };
    proof {
        lemma_find_seq(v@, needle@);
    }
    let from = start + needle.len();
    let quote = ['"'];
    assert(quote@ =~= seq!['"']);
    let ghost rest = v@.skip(from as int);
    assert(v@.subrange(from as int, v@.len() as int) =~= rest);
    let end = match find_seq_in(&v, from, v.len(), quote.as_slice()) {
        Some(e) => e,
        None => {
            return None;
        },
    };
    let stop = number_prefix_end(&v, from, end);
    assert(v@.subrange(from as int, end as int) =~= rest.take(end - from));
    Some(string_of(&v, from, stop))
}

} // verus!
