//! Markdown card content to a `TextDocument`: pulldown-cmark reads the text
//! into events, syntect colours the code blocks, and `build_document` builds
//! the document.
use vstd::prelude::*;
use crate::markdown::{
    build_document, code_block_requests, code_blocks_of, document_of, highlight_view,
    highlights_view, list_starts_bounded, request_view, CodeBlockRequest, Highlight,
    HighlightSpan, MdEvent, MdTag, MdTagEnd,
};
use crate::text_document::{Rgb, TextDocument};
use pulldown_cmark::{CodeBlockKind, Event, HeadingLevel, Options, Parser, Tag, TagEnd};
use syntect::easy::HighlightLines;
use syntect::highlighting::{Theme as ColourTheme, ThemeSet};
use syntect::parsing::SyntaxSet;
use syntect::util::LinesWithEndings;

verus! {

#[verifier::external_type_specification]
#[verifier::external_body]
pub struct ExSyntaxSet(SyntaxSet);

#[verifier::external_type_specification]
#[verifier::external_body]
pub struct ExColourTheme(ColourTheme);

#[verifier::external_type_specification]
#[verifier::external_body]
pub struct ExEvent<'a>(Event<'a>);

#[verifier::external_type_specification]
#[verifier::external_body]
pub struct ExTag<'a>(Tag<'a>);

#[verifier::external_type_specification]
#[verifier::external_body]
pub struct ExTagEnd(TagEnd);

#[verifier::external_type_specification]
#[verifier::external_body]
pub struct ExHeadingLevel(HeadingLevel);

/// The events pulldown-cmark gives for `text`, with strikethrough, tables,
/// task lists and math enabled.
pub uninterp spec fn markdown_events(text: Seq<char>) -> Seq<MdEvent>;

/// The spans syntect gives each line (as `LinesWithEndings` splits it) of
/// `code`, in the syntax it finds for the language `lang` and the
/// `base16-ocean.dark` theme; `None` when it finds no syntax.
pub uninterp spec fn highlighted(code: Seq<char>, lang: Seq<char>) -> Option<
    Seq<Seq<(Rgb, Seq<char>)>>,
>;

/// The syntax definitions and the theme code blocks are coloured with.
pub struct Highlighter {
    syntaxes: SyntaxSet,
    theme: ColourTheme,
}

/// syntect's `SyntaxSet::load_defaults_newlines`: its bundled syntaxes.
#[verifier::external_body]
fn load_syntaxes() -> SyntaxSet {
    SyntaxSet::load_defaults_newlines()
}

/// syntect's `ThemeSet::load_defaults`, of which the `base16-ocean.dark`
/// theme is taken.
#[verifier::external_body]
fn load_theme() -> ColourTheme {
    ThemeSet::load_defaults().themes["base16-ocean.dark"].clone()
}

impl Highlighter {
    /// The bundled syntaxes and the `base16-ocean.dark` theme.
    pub fn new() -> Highlighter {
        Highlighter { syntaxes: load_syntaxes(), theme: load_theme() }
    }
}

/// A span of highlighted text in the colour `(r, g, b)`.
pub fn span_of(r: u8, g: u8, b: u8, text: &str) -> (s: HighlightSpan)
    ensures
        s.color == (Rgb { r, g, b }),
        s.text@ == text@,
{
    let mut t = String::new();
    t.append(text);
    HighlightSpan { color: Rgb { r, g, b }, text: t }
}

/// syntect's `SyntaxSet::find_syntax_by_token` for `lang` (which looks the
/// language up by file extension, then by name), then `HighlightLines` over
/// the lines of `code`; a line syntect cannot highlight gets no spans. The
/// result is named `highlighted`: a `Highlighter` holds only the defaults
/// `new` loads.
#[verifier::external_body]
pub fn highlight(h: &Highlighter, code: &str, lang: &str) -> (r: Highlight)
    ensures
        highlight_view(r) == highlighted(code@, lang@),
{
    let syntax = h.syntaxes.find_syntax_by_token(lang)?;
    let mut lines = HighlightLines::new(syntax, &h.theme);
    let mut r = Vec::new();
    for line in LinesWithEndings::from(code) {
        r.push(match lines.highlight_line(line, &h.syntaxes) {
            Ok(spans) => spans.into_iter().map(|(s, t)| span_of(s.foreground.r, s.foreground.g, s.foreground.b, t)).collect(),
            Err(_) => Vec::new(),
        });
    }
    Some(r)
}

/// pulldown-cmark's `Parser::new_ext` over `markdown`, its events converted
/// one by one.
#[verifier::external_body]
pub fn parse_events(markdown: &str) -> (r: Vec<MdEvent>)
    ensures
        r@ == markdown_events(markdown@),
{
    let options = Options::ENABLE_STRIKETHROUGH | Options::ENABLE_TABLES
        | Options::ENABLE_TASKLISTS | Options::ENABLE_MATH;
    let mut r = Vec::new();
    for e in Parser::new_ext(markdown, options) {
        r.push(md_event(e));
    }
    r
}

/// A pulldown-cmark event as an `MdEvent`.
#[verifier::external_body]
fn md_event(e: Event) -> MdEvent {
    match e {
        Event::Start(t) => MdEvent::Start(md_tag(t)),
        Event::End(t) => MdEvent::End(md_tag_end(t)),
        Event::TaskListMarker(c) => MdEvent::TaskListMarker(c),
        Event::SoftBreak => MdEvent::SoftBreak,
        Event::HardBreak => MdEvent::HardBreak,
        Event::Rule => MdEvent::Rule,
        Event::Text(t) => MdEvent::Text(t.to_string()),
        Event::Code(t) => MdEvent::Code(t.to_string()),
        Event::InlineMath(t) => MdEvent::InlineMath(t.to_string()),
        Event::DisplayMath(t) => MdEvent::DisplayMath(t.to_string()),
        _ => MdEvent::Other,
    }
}

/// A pulldown-cmark tag as an `MdTag`: the inline tags and lists.
#[verifier::external_body]
fn md_tag(t: Tag) -> MdTag {
    match t {
        Tag::Paragraph => MdTag::Paragraph,
        Tag::Heading { level, .. } => MdTag::Heading(heading_level_num(level)),
        Tag::Strong => MdTag::Strong,
        Tag::Emphasis => MdTag::Emphasis,
        Tag::Strikethrough => MdTag::Strikethrough,
        Tag::Link { dest_url, .. } => MdTag::Link(dest_url.to_string()),
        Tag::List(start) => MdTag::List(start),
        Tag::Item => MdTag::Item,
        _ => md_block_tag(t),
    }
}

/// A pulldown-cmark tag as an `MdTag`: code blocks, quotes and tables.
#[verifier::external_body]
fn md_block_tag(t: Tag) -> MdTag {
    match t {
        Tag::CodeBlock(CodeBlockKind::Fenced(info)) => MdTag::FencedCodeBlock(info.to_string()),
        Tag::CodeBlock(CodeBlockKind::Indented) => MdTag::IndentedCodeBlock,
        Tag::BlockQuote(_) => MdTag::BlockQuote,
        Tag::Table(_) => MdTag::Table,
        Tag::TableHead => MdTag::TableHead,
        Tag::TableRow => MdTag::TableRow,
        Tag::TableCell => MdTag::TableCell,
        _ => MdTag::Other,
    }
}

/// A pulldown-cmark heading level as its number.
#[verifier::external_body]
fn heading_level_num(level: HeadingLevel) -> u32 {
    match level {
        HeadingLevel::H1 => 1,
        HeadingLevel::H2 => 2,
        HeadingLevel::H3 => 3,
        HeadingLevel::H4 => 4,
        HeadingLevel::H5 => 5,
        HeadingLevel::H6 => 6,
    }
}

/// A pulldown-cmark closing tag as an `MdTagEnd`: the inline tags and lists.
#[verifier::external_body]
fn md_tag_end(t: TagEnd) -> MdTagEnd {
    match t {
        TagEnd::Paragraph => MdTagEnd::Paragraph,
        TagEnd::Heading(_) => MdTagEnd::Heading,
        TagEnd::Strong => MdTagEnd::Strong,
        TagEnd::Emphasis => MdTagEnd::Emphasis,
        TagEnd::Strikethrough => MdTagEnd::Strikethrough,
        TagEnd::Link => MdTagEnd::Link,
        TagEnd::List(_) => MdTagEnd::List,
        TagEnd::Item => MdTagEnd::Item,
        _ => md_block_tag_end(t),
    }
}

/// A pulldown-cmark closing tag as an `MdTagEnd`: code blocks, quotes and tables.
#[verifier::external_body]
fn md_block_tag_end(t: TagEnd) -> MdTagEnd {
    match t {
        TagEnd::CodeBlock => MdTagEnd::CodeBlock,
        TagEnd::BlockQuote(_) => MdTagEnd::BlockQuote,
        TagEnd::Table => MdTagEnd::Table,
        TagEnd::TableHead => MdTagEnd::TableHead,
        TagEnd::TableRow => MdTagEnd::TableRow,
        TagEnd::TableCell => MdTagEnd::TableCell,
        _ => MdTagEnd::Other,
    }
}

/// The highlighter's answers for code blocks: a block that names a language
/// gets what syntect gives for it, one without gets none.
pub open spec fn block_highlights(reqs: Seq<(Option<Seq<char>>, Seq<char>)>) -> Seq<
    Option<Seq<Seq<(Rgb, Seq<char>)>>>,
> {
    reqs.map_values(
        |q: (Option<Seq<char>>, Seq<char>)|
            match q.0 {
                Some(lang) => highlighted(q.1, lang),
                None => None,
            },
    )
}

/// Whether the ordered lists of `events` leave room for counting every item.
fn starts_bounded(events: &Vec<MdEvent>) -> (r: bool)
    ensures
        r == list_starts_bounded(events@),
{
    let n = events.len();
    let mut i: usize = 0;
    while i < n
        invariant
            n == events@.len(),
            i <= n,
            forall|j: int|
                0 <= j < i ==> (#[trigger] events@[j] matches MdEvent::Start(MdTag::List(Some(k)))
                    ==> k <= u64::MAX - events@.len()),
        decreases n - i,
    {
        if let MdEvent::Start(MdTag::List(Some(k))) = &events[i] {
            if *k > u64::MAX - n as u64 {
                return false;
            }
        }
        i += 1;
    }
    true
}

/// The document of the Markdown `markdown`, its code blocks coloured by `h`;
/// `None` when its ordered lists start so high that counting their items
/// would overflow.
pub fn parse_markdown(h: &Highlighter, markdown: &str) -> (r: Option<TextDocument>)
    ensures
        r is Some <==> list_starts_bounded(markdown_events(markdown@)),
        r matches Some(d) ==> d@ == document_of(
            markdown_events(markdown@),
            block_highlights(code_block_requests(markdown_events(markdown@))),
        ),
{
    let events = parse_events(markdown);
    if !starts_bounded(&events) {
        return None;
    }
    let blocks = code_blocks_of(&events);
    let ghost reqs = code_block_requests(events@);
    let mut answers: Vec<Highlight> = Vec::new();
    let mut k: usize = 0;
    while k < blocks.len()
        invariant
            k <= blocks@.len(),
            blocks@.map_values(|q: CodeBlockRequest| request_view(q)) == reqs,
            highlights_view(answers@) == block_highlights(reqs).take(k as int),
        decreases blocks@.len() - k,
    {
        let b = &blocks[k];
        assert(request_view(*b) == reqs[k as int]);
        let a = match &b.language {
            Some(lang) => highlight(h, b.code.as_str(), lang.as_str()),
            None => None,
        };
        assert(highlight_view(a) == block_highlights(reqs)[k as int]);
        let ghost before = answers@;
        answers.push(a);
        assert(highlights_view(answers@) =~= highlights_view(before).push(highlight_view(a)));
        k += 1;
        assert(highlights_view(answers@) =~= block_highlights(reqs).take(k as int));
    }
    assert(block_highlights(reqs).take(k as int) =~= block_highlights(reqs));
    Some(build_document(&events, &answers))
}

} // verus!
