//! Workspace persistence: the `.cards` file framing, the errors of loading and
//! saving, and the plain data of a saved connection.
//!
//! A `.cards` file is the 6-byte magic `CARDS\x01`, one format-version byte,
//! then the MessagePack-encoded workspace.
use vstd::prelude::*;
use crate::text::{blank_chars, chars_of, is_blank, trim_chars, trim_str};

verus! {

/// Current format version, written after the magic.
pub const FORMAT_VERSION: u8 = 1;

/// The magic bytes at the start of every `.cards` file: `CARDS\x01`.
pub open spec fn file_magic() -> Seq<u8> {
    seq![0x43u8, 0x41u8, 0x52u8, 0x44u8, 0x53u8, 0x01u8]
}

/// The bytes of a file holding `payload`.
pub open spec fn framed(payload: Seq<u8>) -> Seq<u8> {
    file_magic() + seq![FORMAT_VERSION] + payload
}

/// The payload of a file's bytes, when they start with the magic and a version
/// byte.
pub open spec fn unframed(bytes: Seq<u8>) -> Option<Seq<u8>> {
    if bytes.len() < 7 || bytes.take(6) != file_magic() {
        None
    } else {
        Some(bytes.skip(7))
    }
}

/// An error of loading or saving a workspace.
#[derive(Debug)]
pub enum WorkspaceError {
    Io(String),
    Encode(String),
    Decode(String),
    BadMagic,
}

/// The message describing an error.
pub open spec fn error_message(e: WorkspaceError) -> Seq<char> {
    match e {
        WorkspaceError::Io(s) => "I/O error: "@ + s@,
        WorkspaceError::Encode(s) => "Encode error: "@ + s@,
        WorkspaceError::Decode(s) => "Decode error: "@ + s@,
        WorkspaceError::BadMagic => "Not a valid .cards workspace file"@,
    }
}

impl WorkspaceError {
    /// The message describing the error.
    pub fn message(&self) -> (r: String)
        ensures
            r@ == error_message(*self),
    {
        let mut r = String::new();
        match self {
            WorkspaceError::Io(e) => {
                r.append("I/O error: ");
                r.append(e.as_str());
            },
            WorkspaceError::Encode(e) => {
                r.append("Encode error: ");
                r.append(e.as_str());
            },
            WorkspaceError::Decode(e) => {
                r.append("Decode error: ");
                r.append(e.as_str());
            },
            WorkspaceError::BadMagic => {
                r.append("Not a valid .cards workspace file");
            },
        }
        r
    }
}

/// The magic bytes as an array.
fn magic_bytes() -> (r: [u8; 6])
    ensures
        r@ == file_magic(),
{
    let r = [0x43u8, 0x41u8, 0x52u8, 0x44u8, 0x53u8, 0x01u8];
    assert(r@ =~= file_magic());
    r
}

/// The bytes of a `.cards` file holding the encoded workspace `payload`:
/// magic, version byte, payload.
pub fn frame_workspace(payload: &[u8]) -> (r: Vec<u8>)
    ensures
        r@ == framed(payload@),
{
    let magic = magic_bytes();
    let mut r: Vec<u8> = Vec::new();
    let mut i: usize = 0;
    while i < 6
        invariant
            i <= 6,
            magic@ == file_magic(),
            r@ == file_magic().take(i as int),
        decreases 6 - i,
    {
        r.push(magic[i]);
        i += 1;
        assert(file_magic().take(i as int) =~= file_magic().take(i - 1).push(file_magic()[i - 1]));
    }
    r.push(FORMAT_VERSION);
    let mut j: usize = 0;
    while j < payload.len()
        invariant
            j <= payload@.len(),
            r@ == file_magic() + seq![FORMAT_VERSION] + payload@.take(j as int),
        decreases payload@.len() - j,
    {
        r.push(payload[j]);
        j += 1;
        assert(payload@.take(j as int) =~= payload@.take(j - 1).push(payload@[j - 1]));
    }
    assert(payload@.take(payload@.len() as int) =~= payload@);
    r
}

/// The encoded workspace in the bytes of a `.cards` file, after checking the
/// magic and skipping the version byte; `BadMagic` when the bytes are too short
/// or do not start with the magic.
pub fn unframe_workspace(bytes: &[u8]) -> (r: Result<&[u8], WorkspaceError>)
    ensures
        unframed(bytes@) matches Some(p) ==> r matches Ok(q) && q@ == p,
        unframed(bytes@) is None ==> r matches Err(WorkspaceError::BadMagic),
{
    let magic = magic_bytes();
    if bytes.len() < 7 {
        return Err(WorkspaceError::BadMagic);
    }
    let mut i: usize = 0;
    while i < 6
        invariant
            bytes@.len() >= 7,
            i <= 6,
            magic@ == file_magic(),
            forall|j: int| 0 <= j < i ==> bytes@[j] == file_magic()[j],
        decreases 6 - i,
    {
        if bytes[i] != magic[i] {
            assert(bytes@.take(6)[i as int] != file_magic()[i as int]);
            return Err(WorkspaceError::BadMagic);
        }
        i += 1;
    }
    assert(bytes@.take(6) =~= file_magic());
    let (_, payload) = bytes.split_at(7);
    assert(payload@ =~= bytes@.skip(7));
    Ok(payload)
}

/// Reading back the bytes written for a payload gives that payload.
pub proof fn law_frame_roundtrip(payload: Seq<u8>)
    ensures
        unframed(framed(payload)) == Some(payload),
{
    let b = framed(payload);
    assert(b.take(6) =~= file_magic());
    assert(b.skip(7) =~= payload);
}

/// Bytes that do not start with the magic are refused, and nothing else is.
pub proof fn law_unframe_refuses_exactly_foreign_bytes(bytes: Seq<u8>)
    ensures
        unframed(bytes) is None <==> (bytes.len() < 7 || bytes.take(6) != file_magic()),
        unframed(bytes) matches Some(p) ==> bytes == file_magic() + seq![bytes[6]] + p,
{
    if let Some(p) = unframed(bytes) {
        assert(bytes =~= file_magic() + seq![bytes[6]] + p);
    }
}

/// The name of the line style of connections saved before styles existed.
pub open spec fn default_line_style_name() -> Seq<char> {
    "Solid"@
}

/// The name of the card type of cards saved before types existed.
pub open spec fn default_card_type_name() -> Seq<char> {
    "Text"@
}

/// The line style of connections saved without one.
pub fn default_line_style() -> (r: String)
    ensures
        r@ == default_line_style_name(),
{
    let mut r = String::new();
    r.append("Solid");
    r
}

/// The card type of cards saved without one.
pub fn default_card_type() -> (r: String)
    ensures
        r@ == default_card_type_name(),
{
    let mut r = String::new();
    r.append("Text");
    r
}

/// What `char::is_alphanumeric` answers for `c`: whether it has the Unicode
/// `Alphabetic` property or a numeric general category.
pub uninterp spec fn alphanumeric(c: char) -> bool;

/// `char::is_alphanumeric`. Its result is the Unicode lookup named
/// `alphanumeric`; on ASCII characters that is true exactly for the letters and
/// digits. Nothing more is stated of other characters.
#[verifier::external_body]
fn char_is_alphanumeric(c: char) -> (r: bool)
    ensures
        r == alphanumeric(c),
        c <= '\u{7f}' ==> (r <==> (('a' <= c && c <= 'z') || ('A' <= c && c <= 'Z') || ('0' <= c
            && c <= '9'))),
{
    c.is_alphanumeric()
}

/// The character a workspace's file name holds for `c` of its name: letters,
/// digits, `-` and `_` stay, anything else (spaces included) becomes `_`.
pub open spec fn file_name_char(c: char) -> char {
    if alphanumeric(c) || c == '-' || c == '_' {
        c
    } else {
        '_'
    }
}

/// The file name of a new workspace called `name`.
pub open spec fn workspace_file_chars(name: Seq<char>) -> Seq<char> {
    trim_chars(name).map_values(|c: char| file_name_char(c)) + ".cards"@
}

/// The file name a new workspace called `name` is created under: the trimmed
/// name, each character other than a letter, digit, `-` or `_` replaced by
/// `_`, then `.cards`. `None` when the name is blank: no workspace is created.
pub fn workspace_file_name(name: &str) -> (r: Option<String>)
    ensures
        r is None <==> blank_chars(name@),
        r matches Some(s) ==> s@ == workspace_file_chars(name@),
{
    if is_blank(name) {
        return None;
    }
    let t = trim_str(name);
    let v = chars_of(t);
    let mut s = String::new();
    let mut i: usize = 0;
    while i < v.len()
        invariant
            i <= v@.len(),
            v@ == trim_chars(name@),
            s@ == v@.take(i as int).map_values(|c: char| file_name_char(c)),
        decreases v@.len() - i,
    {
        let c = v[i];
        if char_is_alphanumeric(c) || c == '-' || c == '_' {
            s.push(c);
        } else {
            s.push('_');
        }
        i += 1;
        assert(v@.take(i as int) =~= v@.take(i - 1).push(c));
        assert(s@ =~= v@.take(i as int).map_values(|c: char| file_name_char(c)));
    }
    assert(v@.take(v@.len() as int) =~= v@);
    s.append(".cards");
    Some(s)
}

/// `c` with a space turned into `_`.
pub open spec fn space_to_underscore(c: char) -> char {
    if c == ' ' {
        '_'
    } else {
        c
    }
}

/// The file name offered when choosing where to save a new workspace called
/// `name`: the name with its spaces turned into `_`, then `.cards`.
pub fn default_save_name(name: &str) -> (r: String)
    ensures
        r@ == name@.map_values(|c: char| space_to_underscore(c)) + ".cards"@,
{
    let v = chars_of(name);
    let mut s = String::new();
    let mut i: usize = 0;
    while i < v.len()
        invariant
            i <= v@.len(),
            v@ == name@,
            s@ == v@.take(i as int).map_values(|c: char| space_to_underscore(c)),
        decreases v@.len() - i,
    {
        let c = v[i];
        if c == ' ' {
            s.push('_');
        } else {
            s.push(c);
        }
        i += 1;
        assert(v@.take(i as int) =~= v@.take(i - 1).push(c));
        assert(s@ =~= v@.take(i as int).map_values(|c: char| space_to_underscore(c)));
    }
    assert(v@.take(v@.len() as int) =~= v@);
    s.append(".cards");
    s
}

/// The largest of `ids`, or 0 when there are none.
pub open spec fn max_id(ids: Seq<usize>) -> nat
    decreases ids.len(),
{
    if ids.len() == 0 {
        0
    } else {
        let m = max_id(ids.drop_last());
        if ids.last() > m {
            ids.last() as nat
        } else {
            m
        }
    }
}

/// The id the next new card gets once a workspace holding cards with `ids`
/// is loaded: one more than the largest of them (1 when there are none).
pub fn next_card_id(ids: &[usize]) -> (r: usize)
    requires
        forall|i: int| 0 <= i < ids@.len() ==> ids@[i] < usize::MAX,
    ensures
        r == max_id(ids@) + 1,
{
    let mut m: usize = 0;
    let mut i: usize = 0;
    while i < ids.len()
        invariant
            i <= ids@.len(),
            m == max_id(ids@.take(i as int)),
            m < usize::MAX,
            forall|j: int| 0 <= j < ids@.len() ==> ids@[j] < usize::MAX,
        decreases ids@.len() - i,
    {
        assert(ids@.take(i + 1).drop_last() =~= ids@.take(i as int));
        if ids[i] > m {
            m = ids[i];
        }
        i += 1;
    }
    assert(ids@.take(ids@.len() as int) =~= ids@);
    m + 1
}

/// The next card id is above every id in use, so a new card never takes the
/// id of a loaded one.
pub proof fn law_next_card_id_is_fresh(ids: Seq<usize>)
    ensures
        forall|i: int| 0 <= i < ids.len() ==> ids[i] < max_id(ids) + 1,
    decreases ids.len(),
{
    if ids.len() > 0 {
        law_next_card_id_is_fresh(ids.drop_last());
        assert forall|i: int| 0 <= i < ids.len() implies ids[i] < max_id(ids) + 1 by {
            if i < ids.len() - 1 {
                assert(ids[i] == ids.drop_last()[i]);
            }
        }
    }
}

/// Serialisable snapshot of a card connection.
#[derive(Debug, Clone)]
pub struct ConnectionData {
    pub from_card: usize,
    pub from_side: String,
    pub to_card: usize,
    pub to_side: String,
    pub line_style: String,
    pub arrow_from: bool,
    pub arrow_to: bool,
}

} // verus!
