//! Reading a feed document (Atom, RSS or JSON Feed) into the feed's details and
//! entries as the store keeps them.

use vstd::prelude::*;

use crate::digest::{hex_lower, sha256, sha256_hex};
use crate::error::AppError;
use crate::text::{clone_opt, opt_text};
use feed_rs::model::FeedType;
use feed_rs::parser::parse;
use vstd::utf8::encode_utf8;

verus! {

/// The format of a feed document.
#[derive(Debug, Clone, Copy, PartialEq, Eq)]
pub enum FeedKind {
    Atom,
    Json,
    Rss0,
    Rss1,
    Rss2,
}

/// The details of a feed document, as feed-rs reads them.
#[derive(Debug, Clone)]
pub struct FeedDetails {
    pub kind: FeedKind,
    pub title: Option<String>,
    /// The targets of its links, in document order.
    pub links: Vec<String>,
    pub description: Option<String>,
    /// The address of its icon.
    pub icon: Option<String>,
    /// The address of its logo.
    pub logo: Option<String>,
}

/// The identity and texts of an entry, as feed-rs reads them.
#[derive(Debug, Clone)]
pub struct EntryTexts {
    pub id: String,
    /// The targets of its links, in document order.
    pub links: Vec<String>,
    pub title: Option<String>,
    pub summary: Option<String>,
    /// The body of its content.
    pub content: Option<String>,
}

/// The authors, dates and categories of an entry, as feed-rs reads them.
#[derive(Debug, Clone)]
pub struct EntryMeta {
    /// The names of its authors.
    pub authors: Vec<String>,
    /// Its publication time, in RFC 3339.
    pub published: Option<String>,
    /// Its last update time, in RFC 3339.
    pub updated: Option<String>,
    /// Its categories: each term and, where given, its label.
    pub categories: Vec<(String, Option<String>)>,
}

/// An entry of a feed document.
#[derive(Debug, Clone)]
pub struct RawEntry {
    pub texts: EntryTexts,
    pub meta: EntryMeta,
}

/// A feed document as feed-rs reads it.
#[derive(Debug, Clone)]
pub struct RawFeed {
    pub details: FeedDetails,
    pub entries: Vec<RawEntry>,
}

/// The details of a document as plain values.
pub struct DetailsOutline {
    pub kind: FeedKind,
    pub title: Option<Seq<char>>,
    pub links: Seq<Seq<char>>,
    pub description: Option<Seq<char>>,
    pub icon: Option<Seq<char>>,
    pub logo: Option<Seq<char>>,
}

/// The texts of an entry as plain values, but for its id (which feed-rs may
/// make up).
pub struct TextsOutline {
    pub links: Seq<Seq<char>>,
    pub title: Option<Seq<char>>,
    pub summary: Option<Seq<char>>,
    pub content: Option<Seq<char>>,
}

/// The authors, dates and categories of an entry as plain values.
pub struct MetaOutline {
    pub authors: Seq<Seq<char>>,
    pub published: Option<Seq<char>>,
    pub updated: Option<Seq<char>>,
    pub categories: Seq<(Seq<char>, Option<Seq<char>>)>,
}

/// An entry of a document as plain values, but for its id.
pub struct EntryOutline {
    /// Its id where the document fixes it: its own id, or, where it has none,
    /// the one feed-rs makes from its first link and title. `None` only for an
    /// entry with neither an id nor a link, which feed-rs gives a random id.
    pub id: Option<Seq<char>>,
    pub texts: TextsOutline,
    pub meta: MetaOutline,
}

/// What a feed document holds, but for the ids of its entries: its details,
/// and its entries in document order.
pub struct FeedOutline {
    pub details: DetailsOutline,
    pub entries: Seq<EntryOutline>,
}

/// The characters of each string.
pub open spec fn texts_of(v: Seq<String>) -> Seq<Seq<char>> {
    v.map_values(|s: String| s@)
}

/// The outline of a document's details.
pub open spec fn details_outline(d: FeedDetails) -> DetailsOutline {
    DetailsOutline {
        kind: d.kind,
        title: opt_text(d.title),
        links: texts_of(d.links@),
        description: opt_text(d.description),
        icon: opt_text(d.icon),
        logo: opt_text(d.logo),
    }
}

/// The outline of an entry's texts.
pub open spec fn texts_outline(t: EntryTexts) -> TextsOutline {
    TextsOutline {
        links: texts_of(t.links@),
        title: opt_text(t.title),
        summary: opt_text(t.summary),
        content: opt_text(t.content),
    }
}

/// The outline of an entry's authors, dates and categories.
pub open spec fn meta_outline(m: EntryMeta) -> MetaOutline {
    MetaOutline {
        authors: texts_of(m.authors@),
        published: opt_text(m.published),
        updated: opt_text(m.updated),
        categories: m.categories@.map_values(|c: (String, Option<String>)| (c.0@, opt_text(c.1))),
    }
}

/// `needle` occurs in `hay` at position `i`.
pub open spec fn bytes_at(hay: Seq<u8>, needle: Seq<u8>, i: int) -> bool {
    0 <= i && i + needle.len() <= hay.len() && hay.subrange(i, i + needle.len()) == needle
}

/// `needle` occurs in `hay`.
pub open spec fn holds_bytes(hay: Seq<u8>, needle: Seq<u8>) -> bool {
    exists|i: int| bytes_at(hay, needle, i)
}

/// A decimal digit byte.
pub open spec fn is_digit_byte(b: u8) -> bool {
    48 <= b <= 57
}

/// The longest run of digits that a media time may hold: feed-rs reads a run
/// of 16 or more into a number that can overflow.
pub open spec fn time_digits_limit() -> nat {
    16
}

/// Byte `i` of `d` is `b`.
pub open spec fn byte_is(d: Seq<u8>, i: int, b: u8) -> bool {
    0 <= i < d.len() && d[i] == b
}

/// A CDATA section starts at `i` (`<![CDATA[`).
pub open spec fn cdata_start_at(d: Seq<u8>, i: int) -> bool {
    &&& byte_is(d, i, 60)
    &&& byte_is(d, i + 1, 33)
    &&& byte_is(d, i + 2, 91)
    &&& byte_is(d, i + 3, 67)
    &&& byte_is(d, i + 4, 68)
    &&& byte_is(d, i + 5, 65)
    &&& byte_is(d, i + 6, 84)
    &&& byte_is(d, i + 7, 65)
    &&& byte_is(d, i + 8, 91)
}

/// The text byte at `i`, after a run of `run` digits, may make feed-rs stop
/// on a time: a byte of a non-ASCII character (which may be a digit of
/// another script), a character reference (`&#`), or the digit that makes the
/// run too long.
pub open spec fn byte_trips(d: Seq<u8>, i: int, run: nat) -> bool {
    ||| d[i] >= 128
    ||| d[i] == 38 && byte_is(d, i + 1, 35)
    ||| is_digit_byte(d[i]) && run + 1 >= time_digits_limit()
}

/// The length of the run of digits after the text byte `b`.
pub open spec fn next_run(b: u8, run: nat) -> nat {
    if is_digit_byte(b) {
        run + 1
    } else {
        0
    }
}

/// Where a scan of an element's text stands: in text, in a comment, a CDATA
/// section or a processing instruction, or inside a tag (within a quoted
/// value, the quote byte; else 0).
#[derive(Clone, Copy)]
pub enum ScanMode {
    Text,
    Comment,
    CData,
    Pi,
    Tag(u8),
}

/// The text that feed-rs reads from position `i` on (in `mode`, after a run
/// of `run` digits) up to the next end tag may make it stop on a time.
///
/// feed-rs takes an element's text up to the next tag, joining the text and
/// CDATA sections across comments and processing instructions. The scan
/// reads on past start tags too (so it reads at least that text), keeps the
/// run of digits across everything it reads past, stops at the first end tag
/// (`</`), and gives up on a document type or other `<!` markup.
pub open spec fn text_trips(d: Seq<u8>, i: int, mode: ScanMode, run: nat) -> bool
    decreases d.len() - i,
{
    if i < 0 || i >= d.len() {
        false
    } else {
        match mode {
            ScanMode::Text => {
                if d[i] == 60 {
                    if byte_is(d, i + 1, 47) {
                        false
                    } else if byte_is(d, i + 1, 33) && byte_is(d, i + 2, 45) && byte_is(d, i + 3, 45) {
                        text_trips(d, i + 4, ScanMode::Comment, run)
                    } else if cdata_start_at(d, i) {
                        text_trips(d, i + 9, ScanMode::CData, run)
                    } else if byte_is(d, i + 1, 33) {
                        true
                    } else if byte_is(d, i + 1, 63) {
                        text_trips(d, i + 2, ScanMode::Pi, run)
                    } else {
                        text_trips(d, i + 1, ScanMode::Tag(0), run)
                    }
                } else if byte_trips(d, i, run) {
                    true
                } else {
                    text_trips(d, i + 1, ScanMode::Text, next_run(d[i], run))
                }
            },
            ScanMode::CData => {
                if d[i] == 93 && byte_is(d, i + 1, 93) && byte_is(d, i + 2, 62) {
                    text_trips(d, i + 3, ScanMode::Text, run)
                } else if byte_trips(d, i, run) {
                    true
                } else {
                    text_trips(d, i + 1, ScanMode::CData, next_run(d[i], run))
                }
            },
            ScanMode::Comment => {
                if d[i] == 45 && byte_is(d, i + 1, 45) && byte_is(d, i + 2, 62) {
                    text_trips(d, i + 3, ScanMode::Text, run)
                } else {
                    text_trips(d, i + 1, ScanMode::Comment, run)
                }
            },
            ScanMode::Pi => {
                if d[i] == 63 && byte_is(d, i + 1, 62) {
                    text_trips(d, i + 2, ScanMode::Text, run)
                } else {
                    text_trips(d, i + 1, ScanMode::Pi, run)
                }
            },
            ScanMode::Tag(q) => {
                if q == 0 {
                    if d[i] == 62 {
                        text_trips(d, i + 1, ScanMode::Text, run)
                    } else if d[i] == 34 || d[i] == 39 {
                        text_trips(d, i + 1, ScanMode::Tag(d[i]), run)
                    } else {
                        text_trips(d, i + 1, ScanMode::Tag(0), run)
                    }
                } else if d[i] == q {
                    text_trips(d, i + 1, ScanMode::Tag(0), run)
                } else {
                    text_trips(d, i + 1, ScanMode::Tag(q), run)
                }
            },
        }
    }
}

/// A byte that may end the name of an element or attribute: white space,
/// `>`, `/` or `=`.
pub open spec fn ends_name(b: u8) -> bool {
    b == 32 || b == 9 || b == 10 || b == 13 || b == 62 || b == 47 || b == 61
}

/// White space in markup.
pub open spec fn is_space_byte(b: u8) -> bool {
    b == 32 || b == 9 || b == 10 || b == 13
}

/// The name of an element `duration` (with or without a prefix) starts at
/// `i`, as in `<itunes:duration>`.
pub open spec fn duration_name_at(d: Seq<u8>, i: int) -> bool {
    let n = encode_utf8("duration"@).len();
    &&& bytes_at(d, encode_utf8("duration"@), i)
    &&& (byte_is(d, i - 1, 60) || byte_is(d, i - 1, 58))
    &&& i + n < d.len()
    &&& ends_name(d[i + n])
}

/// At `i` starts the name of a `duration` element whose text may make
/// feed-rs stop on a time.
pub open spec fn duration_trips_at(d: Seq<u8>, i: int) -> bool {
    duration_name_at(d, i) && text_trips(d, i + encode_utf8("duration"@).len(), ScanMode::Tag(0), 0)
}

/// The first position at or after `i` that is not white space.
pub open spec fn skip_space(d: Seq<u8>, i: int) -> int
    decreases d.len() - i,
{
    if 0 <= i < d.len() && is_space_byte(d[i]) {
        skip_space(d, i + 1)
    } else {
        i
    }
}

/// The value of an attribute from `i` on, up to the closing quote `q` (after a
/// run of `run` digits), may make feed-rs stop on a time.
pub open spec fn value_trips(d: Seq<u8>, i: int, q: u8, run: nat) -> bool
    decreases d.len() - i,
{
    if i < 0 || i >= d.len() || d[i] == q {
        false
    } else if byte_trips(d, i, run) {
        true
    } else {
        value_trips(d, i + 1, q, next_run(d[i], run))
    }
}

/// At `i` starts an attribute named `name` (after white space or a quote)
/// whose quoted value may make feed-rs stop on a time.
pub open spec fn attribute_trips_at(d: Seq<u8>, i: int, name: Seq<u8>) -> bool {
    let e = skip_space(d, i + name.len());
    let v = skip_space(d, e + 1);
    &&& i >= 1
    &&& (is_space_byte(d[i - 1]) || d[i - 1] == 34 || d[i - 1] == 39)
    &&& bytes_at(d, name, i)
    &&& byte_is(d, e, 61)
    &&& (byte_is(d, v, 34) || byte_is(d, v, 39))
    &&& value_trips(d, v + 1, d[v], 0)
}

/// At `i` starts a `start`, `end` or `time` attribute whose value may make
/// feed-rs stop on a time.
pub open spec fn time_attribute_trips_at(d: Seq<u8>, i: int) -> bool {
    ||| attribute_trips_at(d, i, encode_utf8("start"@))
    ||| attribute_trips_at(d, i, encode_utf8("end"@))
    ||| attribute_trips_at(d, i, encode_utf8("time"@))
}

/// feed-rs could panic on the document `d`, as far as its bytes tell.
///
/// feed-rs reads the text of iTunes `duration` elements and the `start`,
/// `end` and `time` attributes of Media RSS elements as times, with `unwrap`
/// on an integer parse that fails for a digit of another script (its pattern
/// `\d` takes every Unicode digit) and for 20 digits or more, and that
/// overflows from 16 (after `* 3600`). It reads them only in the namespace of
/// iTunes or Media RSS, bound by an `xmlns` attribute, whose name must be
/// written out as it is (an encoding that writes ASCII text as other bytes
/// needs a zero byte, UTF-16, or the escape byte, ISO-2022-JP). So a document
/// may make it panic only where it has an `xmlns` attribute and either one of
/// those two bytes (its text then cannot be read byte by byte), or names the
/// iTunes namespace and has a `duration` element whose text may trip
/// (`text_trips`), or names the Media RSS namespace and has such an attribute
/// whose value may trip (`value_trips`).
pub open spec fn reader_may_panic(d: Seq<u8>) -> bool {
    &&& holds_bytes(d, encode_utf8("xmlns"@))
    &&& {
        ||| d.contains(0u8)
        ||| d.contains(27u8)
        ||| holds_bytes(d, encode_utf8("http://www.itunes.com/dtds/podcast-1.0.dtd"@)) && exists|i: int|
            duration_trips_at(d, i)
        ||| holds_bytes(d, encode_utf8("http://search.yahoo.com/mrss/"@)) && exists|i: int|
            time_attribute_trips_at(d, i)
    }
}

/// Whether `needle` occurs in `hay` at position `i`.
pub fn bytes_match_at(hay: &[u8], needle: &[u8], i: usize) -> (r: bool)
    requires
        i + needle.len() <= hay.len(),
    ensures
        r == bytes_at(hay@, needle@, i as int),
{
    let mut k: usize = 0;
    while k < needle.len()
        invariant
            i + needle.len() <= hay.len(),
            k <= needle.len(),
            forall|t: int| 0 <= t < k ==> hay@[i + t] == needle@[t],
        decreases needle.len() - k,
    {
        if hay[i + k] != needle[k] {
            proof {
                assert(hay@.subrange(i as int, i + needle@.len())[k as int] != needle@[k as int]);
            }
            return false;
        }
        k = k + 1;
    }
    proof {
        assert(hay@.subrange(i as int, i + needle@.len()) =~= needle@);
    }
    true
}

/// Whether byte `i + k` of `d` is `b`.
pub fn byte_at_is(d: &[u8], i: usize, k: usize, b: u8) -> (r: bool)
    requires
        i <= d.len(),
    ensures
        r == byte_is(d@, i + k, b),
{
    k < d.len() - i && d[i + k] == b
}

/// Whether the text that feed-rs reads from position `start` (in `mode`) may
/// make it stop on a time.
pub fn text_may_trip(d: &[u8], start: usize, mode: ScanMode) -> (r: bool)
    ensures
        r == text_trips(d@, start as int, mode, 0),
{
    let mut i = start;
    let mut m = mode;
    let mut run: usize = 0;
    while i < d.len()
        invariant
            text_trips(d@, start as int, mode, 0) == text_trips(d@, i as int, m, run as nat),
            run < time_digits_limit(),
        decreases d.len() - i,
    {
        let b = d[i];
        match m {
            ScanMode::Text => {
                if b == 60 {
                    if byte_at_is(d, i, 1, 47) {
                        return false;
                    } else if byte_at_is(d, i, 1, 33) && byte_at_is(d, i, 2, 45) && byte_at_is(d, i, 3, 45) {
                        i = i + 4;
                        m = ScanMode::Comment;
                    } else if byte_at_is(d, i, 1, 33) && byte_at_is(d, i, 2, 91) && byte_at_is(d, i, 3, 67)
                        && byte_at_is(d, i, 4, 68) && byte_at_is(d, i, 5, 65) && byte_at_is(d, i, 6, 84)
                        && byte_at_is(d, i, 7, 65) && byte_at_is(d, i, 8, 91) {
                        i = i + 9;
                        m = ScanMode::CData;
                    } else if byte_at_is(d, i, 1, 33) {
                        return true;
                    } else if byte_at_is(d, i, 1, 63) {
                        i = i + 2;
                        m = ScanMode::Pi;
                    } else {
                        i = i + 1;
                        m = ScanMode::Tag(0);
                    }
                } else if b >= 128 || (b == 38 && byte_at_is(d, i, 1, 35)) || (48 <= b && b <= 57 && run + 1 >= 16) {
                    return true;
                } else {
                    run = if 48 <= b && b <= 57 { run + 1 } else { 0 };
                    i = i + 1;
                }
            },
            ScanMode::CData => {
                if b == 93 && byte_at_is(d, i, 1, 93) && byte_at_is(d, i, 2, 62) {
                    i = i + 3;
                    m = ScanMode::Text;
                } else if b >= 128 || (b == 38 && byte_at_is(d, i, 1, 35)) || (48 <= b && b <= 57 && run + 1 >= 16) {
                    return true;
                } else {
                    run = if 48 <= b && b <= 57 { run + 1 } else { 0 };
                    i = i + 1;
                }
            },
            ScanMode::Comment => {
                if b == 45 && byte_at_is(d, i, 1, 45) && byte_at_is(d, i, 2, 62) {
                    i = i + 3;
                    m = ScanMode::Text;
                } else {
                    i = i + 1;
                }
            },
            ScanMode::Pi => {
                if b == 63 && byte_at_is(d, i, 1, 62) {
                    i = i + 2;
                    m = ScanMode::Text;
                } else {
                    i = i + 1;
                }
            },
            ScanMode::Tag(q) => {
                if q == 0 {
                    if b == 62 {
                        m = ScanMode::Text;
                    } else if b == 34 || b == 39 {
                        m = ScanMode::Tag(b);
                    }
                } else if b == q {
                    m = ScanMode::Tag(0);
                }
                i = i + 1;
            },
        }
    }
    false
}

/// The first position at or after `i` that is not white space.
pub fn skip_spaces(d: &[u8], i: usize) -> (r: usize)
    requires
        i <= d.len(),
    ensures
        r as int == skip_space(d@, i as int),
        r <= d.len(),
{
    let mut j = i;
    while j < d.len() && (d[j] == 32 || d[j] == 9 || d[j] == 10 || d[j] == 13)
        invariant
            i <= j <= d.len(),
            skip_space(d@, i as int) == skip_space(d@, j as int),
        decreases d.len() - j,
    {
        j = j + 1;
    }
    j
}

/// Whether the value of an attribute from `start` on, up to the quote `q`,
/// may make feed-rs stop on a time.
pub fn value_may_trip(d: &[u8], start: usize, q: u8) -> (r: bool)
    ensures
        r == value_trips(d@, start as int, q, 0),
{
    let mut i = start;
    let mut run: usize = 0;
    while i < d.len()
        invariant
            value_trips(d@, start as int, q, 0) == value_trips(d@, i as int, q, run as nat),
            run < time_digits_limit(),
        decreases d.len() - i,
    {
        let b = d[i];
        if b == q {
            return false;
        }
        if b >= 128 || (b == 38 && byte_at_is(d, i, 1, 35)) || (48 <= b && b <= 57 && run + 1 >= 16) {
            return true;
        }
        run = if 48 <= b && b <= 57 { run + 1 } else { 0 };
        i = i + 1;
    }
    false
}

/// Whether an attribute named `name` starts at `i` and its value may make
/// feed-rs stop on a time.
pub fn attribute_may_trip(d: &[u8], i: usize, name: &[u8]) -> (r: bool)
    requires
        i <= d.len(),
    ensures
        r == attribute_trips_at(d@, i as int, name@),
{
    if i == 0 || !bytes_match(d, name, i) {
        return false;
    }
    let p = d[i - 1];
    if !(p == 32 || p == 9 || p == 10 || p == 13 || p == 34 || p == 39) {
        return false;
    }
    let e = skip_spaces(d, i + name.len());
    if !byte_at_is(d, e, 0, 61) {
        return false;
    }
    let v = skip_spaces(d, e + 1);
    if !(byte_at_is(d, v, 0, 34) || byte_at_is(d, v, 0, 39)) {
        return false;
    }
    value_may_trip(d, v + 1, d[v])
}

/// Whether `needle` occurs in `hay` at position `i` (false where it does not
/// fit).
pub fn bytes_match(hay: &[u8], needle: &[u8], i: usize) -> (r: bool)
    ensures
        r == bytes_at(hay@, needle@, i as int),
{
    if i > hay.len() || needle.len() > hay.len() - i {
        return false;
    }
    bytes_match_at(hay, needle, i)
}

/// Whether feed-rs could panic on `d`, as far as its bytes tell.
pub fn may_panic_reader(d: &[u8]) -> (r: bool)
    ensures
        r == reader_may_panic(d@),
{
    let xmlns = crate::text::bytes_of("xmlns");
    if !contains_bytes(d, xmlns.as_slice()) {
        return false;
    }
    let mut k: usize = 0;
    while k < d.len()
        invariant
            k <= d@.len(),
            holds_bytes(d@, encode_utf8("xmlns"@)),
            forall|j: int| 0 <= j < k ==> d@[j] != 0 && d@[j] != 27,
        decreases d@.len() - k,
    {
        if d[k] == 0 || d[k] == 27 {
            proof {
                assert(holds_bytes(d@, encode_utf8("xmlns"@)));
                if d@[k as int] == 0u8 {
                    assert(d@.contains(0u8));
                } else {
                    assert(d@.contains(27u8));
                }
            }
            return true;
        }
        k = k + 1;
    }
    proof {
        assert(!d@.contains(0u8));
        assert(!d@.contains(27u8));
    }
    let itunes = crate::text::bytes_of("http://www.itunes.com/dtds/podcast-1.0.dtd");
    if contains_bytes(d, itunes.as_slice()) {
        let duration = crate::text::bytes_of("duration");
        let mut i: usize = 0;
        while i < d.len()
            invariant
                duration@ == encode_utf8("duration"@),
                i <= d.len(),
                holds_bytes(d@, encode_utf8("xmlns"@)),
                holds_bytes(d@, encode_utf8("http://www.itunes.com/dtds/podcast-1.0.dtd"@)),
                forall|j: int| 0 <= j < i ==> !duration_trips_at(d@, j),
            decreases d.len() - i,
        {
            if i >= 1 && (d[i - 1] == 60 || d[i - 1] == 58) && bytes_match(d, duration.as_slice(), i)
                && duration.len() < d.len() - i {
                let n = i + duration.len();
                let c = d[n];
                if (c == 32 || c == 9 || c == 10 || c == 13 || c == 62 || c == 47 || c == 61)
                    && text_may_trip(d, n, ScanMode::Tag(0)) {
                    proof {
                        assert(duration_trips_at(d@, i as int));
                        assert(holds_bytes(d@, encode_utf8("xmlns"@)));
                        assert(holds_bytes(d@, encode_utf8("http://www.itunes.com/dtds/podcast-1.0.dtd"@)));
                    }
                    return true;
                }
            }
            i = i + 1;
        }
        proof {
            assert forall|j: int| !duration_trips_at(d@, j) by {
                if duration_trips_at(d@, j) {
                    assert(0 <= j < d@.len());
                }
            }
        }
    }
    let mrss = crate::text::bytes_of("http://search.yahoo.com/mrss/");
    if contains_bytes(d, mrss.as_slice()) {
        let start = crate::text::bytes_of("start");
        let end = crate::text::bytes_of("end");
        let time = crate::text::bytes_of("time");
        let mut i: usize = 0;
        while i < d.len()
            invariant
                start@ == encode_utf8("start"@),
                end@ == encode_utf8("end"@),
                time@ == encode_utf8("time"@),
                i <= d.len(),
                holds_bytes(d@, encode_utf8("xmlns"@)),
                holds_bytes(d@, encode_utf8("http://search.yahoo.com/mrss/"@)),
                forall|j: int| 0 <= j < i ==> !time_attribute_trips_at(d@, j),
            decreases d.len() - i,
        {
            if attribute_may_trip(d, i, start.as_slice()) || attribute_may_trip(d, i, end.as_slice())
                || attribute_may_trip(d, i, time.as_slice()) {
                proof {
                    assert(time_attribute_trips_at(d@, i as int));
                    assert(holds_bytes(d@, encode_utf8("xmlns"@)));
                    assert(holds_bytes(d@, encode_utf8("http://search.yahoo.com/mrss/"@)));
                }
                return true;
            }
            i = i + 1;
        }
        proof {
            assert forall|j: int| !time_attribute_trips_at(d@, j) by {
                if time_attribute_trips_at(d@, j) {
                    assert(1 <= j);
                    if j >= d@.len() {
                        assert(!bytes_at(d@, encode_utf8("start"@), j));
                    }
                }
            }
        }
    }
    false
}

/// Whether `needle` occurs in `hay`.
pub fn contains_bytes(hay: &[u8], needle: &[u8]) -> (r: bool)
    ensures
        r == holds_bytes(hay@, needle@),
{
    if needle.len() > hay.len() {
        return false;
    }
    let last = hay.len() - needle.len();
    let mut i: usize = 0;
    while i <= last
        invariant
            last == hay.len() - needle.len(),
            forall|j: int| 0 <= j < i ==> !bytes_at(hay@, needle@, j),
        decreases last + 1 - i,
    {
        let mut k: usize = 0;
        while k < needle.len() && hay[i + k] == needle[k]
            invariant
                i <= last,
                last == hay.len() - needle.len(),
                k <= needle.len(),
                forall|t: int| 0 <= t < k ==> hay@[i + t] == needle@[t],
            decreases needle.len() - k,
        {
            k = k + 1;
        }
        if k == needle.len() {
            proof {
                assert(hay@.subrange(i as int, i + needle@.len()) =~= needle@);
                assert(bytes_at(hay@, needle@, i as int));
            }
            return true;
        }
        proof {
            assert(hay@.subrange(i as int, i + needle@.len())[k as int] != needle@[k as int]);
        }
        if i == last {
            proof {
                assert forall|j: int| !bytes_at(hay@, needle@, j) by {
                    if bytes_at(hay@, needle@, j) {
                        assert(j <= i);
                    }
                }
            }
            return false;
        }
        i = i + 1;
    }
    false
}

/// What feed-rs (`feed_rs::parser::parse`) reads from the document `data`:
/// its outline, or the text of the error that stopped it.
pub uninterp spec fn parsed_document(data: Seq<u8>) -> Result<FeedOutline, Seq<char>>;

/// The details of the feed document `data`, read by `feed_rs::parser::parse`.
///
/// Trusted: the outcome, and the details read, are a function of the bytes
/// alone (`parsed_document`); an error is written by its `Display`.
#[verifier::external_body]
pub(crate) fn parse_feed_details(data: &[u8]) -> (r: Result<FeedDetails, String>)
    requires
        !reader_may_panic(data@),
    ensures
        match r {
            Ok(d) => parsed_document(data@) matches Ok(o) && o.details == details_outline(d),
            Err(m) => parsed_document(data@) == Err::<FeedOutline, Seq<char>>(m@),
        },
{
    let f = parse(data).map_err(|e| e.to_string())?;
    let kind = match f.feed_type {
        FeedType::Atom => FeedKind::Atom, FeedType::JSON => FeedKind::Json,
        FeedType::RSS0 => FeedKind::Rss0, FeedType::RSS1 => FeedKind::Rss1,
        FeedType::RSS2 => FeedKind::Rss2,
    };
    Ok(FeedDetails {
        kind,
        title: f.title.map(|t| t.content),
        links: f.links.into_iter().map(|l| l.href).collect(),
        description: f.description.map(|t| t.content),
        icon: f.icon.map(|i| i.uri),
        logo: f.logo.map(|l| l.uri),
    })
}

/// The ids and texts of the entries of the feed document `data`, read by
/// `feed_rs::parser::parse`.
///
/// Trusted: they are a function of the bytes alone (`parsed_document`), but
/// for the ids that are random. feed-rs gives every entry that has no id, or
/// an empty one, an id of its own making: from a hash of the entry's first
/// link and title, or, where it has no link, a random UUID. So no id is empty,
/// and every id but the random ones is part of the outline. Not stated: which
/// random ids it makes.
#[verifier::external_body]
fn parse_entry_texts(data: &[u8]) -> (r: Result<Vec<EntryTexts>, String>)
    requires
        !reader_may_panic(data@),
    ensures
        match r {
            Ok(v) => parsed_document(data@) matches Ok(o) && v@.map_values(
                |t: EntryTexts| texts_outline(t),
            ) == o.entries.map_values(|e: EntryOutline| e.texts) && forall|i: int|
                0 <= i < v@.len() ==> {
                    &&& (#[trigger] v@[i]).id@.len() > 0
                    &&& o.entries[i].id matches Some(x) ==> v@[i].id@ == x
                    &&& o.entries[i].texts.links.len() > 0 ==> o.entries[i].id is Some
                },
            Err(m) => parsed_document(data@) == Err::<FeedOutline, Seq<char>>(m@),
        },
{
    let f = parse(data).map_err(|e| e.to_string())?;
    Ok(f.entries.into_iter().map(|e| EntryTexts {
        id: e.id,
        links: e.links.into_iter().map(|l| l.href).collect(),
        title: e.title.map(|t| t.content),
        summary: e.summary.map(|t| t.content),
        content: e.content.and_then(|c| c.body),
    }).collect())
}

/// The authors, dates (written by chrono's `to_rfc3339`) and categories of
/// the entries of the feed document `data`, read by `feed_rs::parser::parse`.
///
/// Trusted: they are a function of the bytes alone (`parsed_document`).
#[verifier::external_body]
fn parse_entry_meta(data: &[u8]) -> (r: Result<Vec<EntryMeta>, String>)
    requires
        !reader_may_panic(data@),
    ensures
        match r {
            Ok(v) => parsed_document(data@) matches Ok(o) && v@.map_values(
                |m: EntryMeta| meta_outline(m),
            ) == o.entries.map_values(|e: EntryOutline| e.meta),
            Err(m) => parsed_document(data@) == Err::<FeedOutline, Seq<char>>(m@),
        },
{
    let f = parse(data).map_err(|e| e.to_string())?;
    Ok(f.entries.into_iter().map(|e| EntryMeta {
        authors: e.authors.into_iter().map(|a| a.name).collect(),
        published: e.published.map(|d| d.to_rfc3339()),
        updated: e.updated.map(|d| d.to_rfc3339()),
        categories: e.categories.into_iter().map(|c| (c.term, c.label)).collect(),
    }).collect())
}

} // verus!

verus! {

/// A copy of a list of strings.
pub fn copy_strings(v: &Vec<String>) -> (r: Vec<String>)
    ensures
        r@ == v@,
{
    let r = v.clone();
    assert(r@ =~= v@);
    r
}

impl EntryTexts {
    /// A field-by-field copy.
    pub fn duplicate(&self) -> (r: EntryTexts)
        ensures
            r.id == self.id,
            texts_outline(r) == texts_outline(*self),
    {
        EntryTexts {
            id: self.id.clone(),
            links: copy_strings(&self.links),
            title: clone_opt(&self.title),
            summary: clone_opt(&self.summary),
            content: clone_opt(&self.content),
        }
    }
}

impl EntryMeta {
    /// A field-by-field copy.
    pub fn duplicate(&self) -> (r: EntryMeta)
        ensures
            meta_outline(r) == meta_outline(*self),
    {
        let mut categories: Vec<(String, Option<String>)> = Vec::new();
        let mut k: usize = 0;
        while k < self.categories.len()
            invariant
                k <= self.categories@.len(),
                categories@ == self.categories@.take(k as int),
            decreases self.categories@.len() - k,
        {
            let c = &self.categories[k];
            categories.push((c.0.clone(), clone_opt(&c.1)));
            proof {
                assert(categories@ =~= self.categories@.take(k + 1));
            }
            k = k + 1;
        }
        proof {
            assert(categories@ =~= self.categories@);
        }
        EntryMeta {
            authors: copy_strings(&self.authors),
            published: clone_opt(&self.published),
            updated: clone_opt(&self.updated),
            categories,
        }
    }
}

/// A feed as the store takes it in.
#[derive(Debug, Clone)]
pub struct ParsedFeed {
    pub title: String,
    pub feed_type: String,
    pub site_url: Option<String>,
    pub description: Option<String>,
    pub icon_url: Option<String>,
    pub entries: Vec<ParsedEntry>,
}

/// An entry of a feed as the store takes it in.
#[derive(Debug, Clone)]
pub struct ParsedEntry {
    pub entry_id: String,
    pub title: String,
    pub url: Option<String>,
    pub summary: Option<String>,
    pub content: Option<String>,
    pub author: Option<String>,
    pub published_at: Option<String>,
    pub categories: Vec<String>,
    pub position: usize,
}

/// The name of a feed format.
pub open spec fn kind_name(k: FeedKind) -> Seq<char> {
    match k {
        FeedKind::Atom => "atom"@,
        FeedKind::Json => "json"@,
        FeedKind::Rss0 => "rss0"@,
        FeedKind::Rss1 => "rss1"@,
        FeedKind::Rss2 => "rss2"@,
    }
}

/// The first of `s`, if any.
pub open spec fn first_of(s: Seq<Seq<char>>) -> Option<Seq<char>> {
    if s.len() > 0 {
        Some(s[0])
    } else {
        None
    }
}

/// `o`, or `d` where `o` is absent.
pub open spec fn or_else(o: Option<Seq<char>>, d: Option<Seq<char>>) -> Option<Seq<char>> {
    match o {
        Some(x) => Some(x),
        None => d,
    }
}

/// `o`, or `d` where `o` is absent.
pub open spec fn or_text(o: Option<Seq<char>>, d: Seq<char>) -> Seq<char> {
    match o {
        Some(x) => x,
        None => d,
    }
}

/// The id of an entry: the id the document gives, or, when that is empty,
/// the SHA-256 digest in hexadecimal of its first link, else of its title,
/// else of nothing.
pub open spec fn entry_id_of(id: Seq<char>, links: Seq<Seq<char>>, title: Option<Seq<char>>) -> Seq<char> {
    if id.len() > 0 {
        id
    } else {
        hex_lower(sha256(encode_utf8(or_text(or_else(first_of(links), title), Seq::empty()))))
    }
}

/// The name under which a category is kept: its label, else its term.
pub open spec fn category_name(c: (Seq<char>, Option<Seq<char>>)) -> Seq<char> {
    or_text(c.1, c.0)
}

/// `p` holds the details `d`, the title falling back to `feed_url`.
pub open spec fn details_taken(p: ParsedFeed, d: DetailsOutline, feed_url: Seq<char>) -> bool {
    &&& p.title@ == or_text(d.title, feed_url)
    &&& p.feed_type@ == kind_name(d.kind)
    &&& opt_text(p.site_url) == first_of(d.links)
    &&& opt_text(p.description) == d.description
    &&& opt_text(p.icon_url) == or_else(d.icon, d.logo)
}

/// `p`, but for its id, is the entry at `position` with texts `t` and
/// authors, dates and categories `m`.
pub open spec fn entry_taken(p: ParsedEntry, t: TextsOutline, m: MetaOutline, position: int) -> bool {
    &&& p.title@ == or_text(t.title, "(no title)"@)
    &&& opt_text(p.url) == first_of(t.links)
    &&& opt_text(p.summary) == t.summary
    &&& opt_text(p.content) == t.content
    &&& opt_text(p.author) == first_of(m.authors)
    &&& opt_text(p.published_at) == or_else(m.published, m.updated)
    &&& texts_of(p.categories@) == m.categories.map_values(
        |c: (Seq<char>, Option<Seq<char>>)| category_name(c),
    )
    &&& p.position == position
}

/// `p` is the feed taken in from the document `raw` fetched from `feed_url`.
pub open spec fn taken_from(p: ParsedFeed, raw: RawFeed, feed_url: Seq<char>) -> bool {
    &&& details_taken(p, details_outline(raw.details), feed_url)
    &&& p.entries@.len() == raw.entries@.len()
    &&& forall|i: int|
        0 <= i < raw.entries@.len() ==> {
            let e = #[trigger] raw.entries@[i];
            &&& entry_taken(p.entries@[i], texts_outline(e.texts), meta_outline(e.meta), i)
            &&& p.entries@[i].entry_id@ == entry_id_of(
                e.texts.id@,
                texts_of(e.texts.links@),
                opt_text(e.texts.title),
            )
        }
}

/// A copy of the first string of `v`, if any.
pub fn first_text(v: &Vec<String>) -> (r: Option<String>)
    ensures
        opt_text(r) == first_of(texts_of(v@)),
{
    if v.len() > 0 {
        Some(v[0].clone())
    } else {
        None
    }
}

/// A copy of `o`, or of `d` where `o` is absent.
pub fn or_else_copy(o: &Option<String>, d: &Option<String>) -> (r: Option<String>)
    ensures
        opt_text(r) == or_else(opt_text(*o), opt_text(*d)),
{
    match o {
        Some(x) => Some(x.clone()),
        None => clone_opt(d),
    }
}

/// A copy of `o`, or `d` where `o` is absent.
pub fn or_text_copy(o: &Option<String>, d: &str) -> (r: String)
    ensures
        r@ == or_text(opt_text(*o), d@),
{
    match o {
        Some(x) => x.clone(),
        None => d.to_string(),
    }
}

/// The name of a feed format.
pub fn feed_kind_name(k: FeedKind) -> (r: String)
    ensures
        r@ == kind_name(k),
{
    match k {
        FeedKind::Atom => "atom".to_string(),
        FeedKind::Json => "json".to_string(),
        FeedKind::Rss0 => "rss0".to_string(),
        FeedKind::Rss1 => "rss1".to_string(),
        FeedKind::Rss2 => "rss2".to_string(),
    }
}

/// The id under which an entry is kept.
pub fn entry_id(t: &EntryTexts) -> (r: String)
    ensures
        r@ == entry_id_of(t.id@, texts_of(t.links@), opt_text(t.title)),
        r@.len() > 0,
{
    if t.id.as_str().unicode_len() > 0 {
        return t.id.clone();
    }
    let source = match first_text(&t.links) {
        Some(l) => l,
        None => or_text_copy(&t.title, ""),
    };
    proof {
        reveal_strlit("");
    }
    sha256_hex(source.as_str())
}

/// The entry at `position` of a document, as the store takes it in.
pub fn entry_from(e: &RawEntry, position: usize) -> (r: ParsedEntry)
    ensures
        entry_taken(r, texts_outline(e.texts), meta_outline(e.meta), position as int),
        r.entry_id@ == entry_id_of(e.texts.id@, texts_of(e.texts.links@), opt_text(e.texts.title)),
{
    let mut categories: Vec<String> = Vec::new();
    let cs = &e.meta.categories;
    let mut k: usize = 0;
    while k < cs.len()
        invariant
            k <= cs.len(),
            categories.len() == k,
            forall|j: int|
                0 <= j < k ==> #[trigger] categories@[j]@ == category_name(
                    (cs@[j].0@, opt_text(cs@[j].1)),
                ),
        decreases cs.len() - k,
    {
        let name = or_text_copy(&cs[k].1, cs[k].0.as_str());
        categories.push(name);
        k = k + 1;
    }
    proof {
        let m = meta_outline(e.meta);
        assert(texts_of(categories@) =~= m.categories.map_values(
            |c: (Seq<char>, Option<Seq<char>>)| category_name(c),
        ));
    }
    ParsedEntry {
        entry_id: entry_id(&e.texts),
        title: or_text_copy(&e.texts.title, "(no title)"),
        url: first_text(&e.texts.links),
        summary: clone_opt(&e.texts.summary),
        content: clone_opt(&e.texts.content),
        author: first_text(&e.meta.authors),
        published_at: or_else_copy(&e.meta.published, &e.meta.updated),
        categories,
        position,
    }
}

/// The feed that the document `raw`, fetched from `feed_url`, gives: its
/// title (or the url), format, first link, description, icon (or logo), and
/// its entries in document order.
pub fn parsed_feed_from(raw: &RawFeed, feed_url: &str) -> (r: ParsedFeed)
    ensures
        taken_from(r, *raw, feed_url@),
{
    let mut entries: Vec<ParsedEntry> = Vec::new();
    let mut i: usize = 0;
    while i < raw.entries.len()
        invariant
            i <= raw.entries@.len(),
            entries@.len() == i,
            forall|j: int|
                0 <= j < i ==> {
                    let e = #[trigger] raw.entries@[j];
                    &&& entry_taken(entries@[j], texts_outline(e.texts), meta_outline(e.meta), j)
                    &&& entries@[j].entry_id@ == entry_id_of(
                        e.texts.id@,
                        texts_of(e.texts.links@),
                        opt_text(e.texts.title),
                    )
                },
        decreases raw.entries@.len() - i,
    {
        entries.push(entry_from(&raw.entries[i], i));
        i = i + 1;
    }
    let d = &raw.details;
    ParsedFeed {
        title: or_text_copy(&d.title, feed_url),
        feed_type: feed_kind_name(d.kind),
        site_url: first_text(&d.links),
        description: clone_opt(&d.description),
        icon_url: or_else_copy(&d.icon, &d.logo),
        entries,
    }
}

} // verus!

verus! {

/// `p` is what a document of outline `o`, fetched from `feed_url`, reads as:
/// its details, the title falling back to the url, and its entries in
/// document order, each with an id that is not empty.
pub open spec fn reads_as(p: ParsedFeed, o: FeedOutline, feed_url: Seq<char>) -> bool {
    &&& details_taken(p, o.details, feed_url)
    &&& p.entries@.len() == o.entries.len()
    &&& forall|i: int|
        0 <= i < o.entries.len() ==> entry_taken(
            #[trigger] p.entries@[i],
            o.entries[i].texts,
            o.entries[i].meta,
            i,
        ) && p.entries@[i].entry_id@.len() > 0 && (o.entries[i].id matches Some(x) ==> p.entries@[i].entry_id@ == x)
}

/// The message of a document that is not handed to feed-rs.
pub open spec fn unreadable_document() -> Seq<char> {
    "the document holds a media time that feed-rs may fail to read without stopping"@
}

/// Reads the feed document `data`, fetched from `feed_url`: refused, with
/// feed-rs's message, where feed-rs cannot read it; else its details, the
/// title falling back to the url, and its entries in document order, each
/// with an id that is not empty, and that is its own where the document
/// fixes it. A document on which feed-rs could panic (`reader_may_panic`) is
/// refused without being read.
pub fn parse_feed(data: &[u8], feed_url: &str) -> (r: Result<ParsedFeed, AppError>)
    ensures
        reader_may_panic(data@) ==> (r matches Err(AppError::FeedParse(x)) && x@ == unreadable_document()),
        !reader_may_panic(data@) ==> match parsed_document(data@) {
            Err(m) => r matches Err(AppError::FeedParse(x)) && x@ == m,
            Ok(o) => r matches Ok(p) && reads_as(p, o, feed_url@),
        },
{
    if may_panic_reader(data) {
        return Err(
            AppError::FeedParse(
                "the document holds a media time that feed-rs may fail to read without stopping".to_string(),
            ),
        );
    }
    let details = match parse_feed_details(data) {
        Ok(d) => d,
        Err(m) => return Err(AppError::FeedParse(m)),
    };
    let ghost o = parsed_document(data@)->Ok_0;
    let texts = match parse_entry_texts(data) {
        Ok(v) => v,
        Err(m) => return Err(AppError::FeedParse(m)),
    };
    let metas = match parse_entry_meta(data) {
        Ok(v) => v,
        Err(m) => return Err(AppError::FeedParse(m)),
    };
    proof {
        assert(texts@.len() == o.entries.len() && metas@.len() == o.entries.len()) by {
            assert(texts@.map_values(|t: EntryTexts| texts_outline(t)).len() == texts@.len());
            assert(metas@.map_values(|m: EntryMeta| meta_outline(m)).len() == metas@.len());
        }
    }
    let mut entries: Vec<RawEntry> = Vec::new();
    let mut i: usize = 0;
    while i < texts.len()
        invariant
            texts@.len() == o.entries.len(),
            metas@.len() == o.entries.len(),
            i <= texts@.len(),
            entries@.len() == i,
            texts@.map_values(|t: EntryTexts| texts_outline(t)) == o.entries.map_values(
                |e: EntryOutline| e.texts,
            ),
            metas@.map_values(|m: EntryMeta| meta_outline(m)) == o.entries.map_values(
                |e: EntryOutline| e.meta,
            ),
            forall|j: int|
                0 <= j < texts@.len() ==> (#[trigger] texts@[j]).id@.len() > 0 && (
                o.entries[j].id matches Some(x) ==> texts@[j].id@ == x),
            forall|j: int|
                0 <= j < i ==> texts_outline((#[trigger] entries@[j]).texts) == o.entries[j].texts
                    && meta_outline(entries@[j].meta) == o.entries[j].meta
                    && entries@[j].texts.id@.len() > 0 && (o.entries[j].id matches Some(x)
                    ==> entries@[j].texts.id@ == x),
        decreases texts@.len() - i,
    {
        proof {
            assert(texts@.map_values(|t: EntryTexts| texts_outline(t))[i as int] == o.entries.map_values(
                |e: EntryOutline| e.texts,
            )[i as int]);
            assert(metas@.map_values(|m: EntryMeta| meta_outline(m))[i as int] == o.entries.map_values(
                |e: EntryOutline| e.meta,
            )[i as int]);
        }
        entries.push(RawEntry { texts: texts[i].duplicate(), meta: metas[i].duplicate() });
        i = i + 1;
    }
    let raw = RawFeed { details, entries };
    let p = parsed_feed_from(&raw, feed_url);
    proof {
        assert forall|i: int| 0 <= i < o.entries.len() implies entry_taken(
            #[trigger] p.entries@[i],
            o.entries[i].texts,
            o.entries[i].meta,
            i,
        ) && p.entries@[i].entry_id@.len() > 0 && (o.entries[i].id matches Some(x)
            ==> p.entries@[i].entry_id@ == x) by {
            let e = raw.entries@[i];
            assert(texts_outline(e.texts) == o.entries[i].texts);
        }
    }
    Ok(p)
}

} // verus!
