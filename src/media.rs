//! Media selection: which audio file of a feed item is downloaded.
use vstd::prelude::*;
use crate::naming::{lower_of, lowercase};
use crate::numbers::{i64_value, parse_i64};
use crate::text::{chars_of, contains, seq_contains, str_equals};

verus! {

/// The text of an optional string.
pub open spec fn opt_text(o: Option<String>) -> Option<Seq<char>> {
    match o {
        Some(s) => Some(s@),
        None => None,
    }
}

pub fn clone_text(o: &Option<String>) -> (r: Option<String>)
    ensures
        opt_text(r) == opt_text(*o),
{
    match o {
        Some(s) => Some(s.clone()),
        None => None,
    }
}

/// One `media:content` element of an item's `media:group`, as found in the
/// feed: its `url`, `type` and `fileSize` attributes and its `media:title`.
#[derive(Debug, Clone)]
pub struct MediaContent {
    pub url: Option<String>,
    pub mime_type: Option<String>,
    pub title: Option<String>,
    pub file_size: Option<String>,
}

/// An item's plain `<enclosure>`, its attributes as found in the feed.
#[derive(Debug, Clone)]
pub struct FeedEnclosure {
    pub url: String,
    pub mime_type: String,
    pub length: String,
}

/// An audio file chosen for an item.
#[derive(Debug, Clone)]
pub struct Enclosure {
    pub url: String,
    pub mime_type: Option<String>,
    pub length: Option<i64>,
}

pub struct EnclosureView {
    pub url: Seq<char>,
    pub mime_type: Option<Seq<char>>,
    pub length: Option<int>,
}

impl View for Enclosure {
    type V = EnclosureView;

    open spec fn view(&self) -> EnclosureView {
        EnclosureView {
            url: self.url@,
            mime_type: opt_text(self.mime_type),
            length: match self.length {
                Some(n) => Some(n as int),
                None => None,
            },
        }
    }
}

pub open spec fn opt_enclosure(o: Option<Enclosure>) -> Option<EnclosureView> {
    match o {
        Some(e) => Some(e@),
        None => None,
    }
}

/// A number of bytes given as text, where it reads as an `i64`.
pub open spec fn size_of_text(t: Option<Seq<char>>) -> Option<int> {
    match t {
        Some(s) => i64_value(s),
        None => None,
    }
}

/// The plain enclosure of an item, as chosen when no variant is.
pub open spec fn plain_enclosure(e: Option<FeedEnclosure>) -> Option<EnclosureView> {
    match e {
        Some(e) => Some(
            EnclosureView {
                url: e.url@,
                mime_type: Some(e.mime_type@),
                length: i64_value(e.length@),
            },
        ),
        None => None,
    }
}

/// The enclosure a variant stands for.
pub open spec fn content_enclosure(c: MediaContent) -> EnclosureView {
    EnclosureView {
        url: c.url->0@,
        mime_type: opt_text(c.mime_type),
        length: size_of_text(opt_text(c.file_size)),
    }
}

/// The lower-cased `media:title` of a variant holds `p`.
pub open spec fn title_has(c: MediaContent, p: Seq<char>) -> bool {
    match c.title {
        Some(t) => seq_contains(lower_of(t@), p),
        None => false,
    }
}

pub open spec fn mime_has(c: MediaContent, p: Seq<char>) -> bool {
    match c.mime_type {
        Some(m) => seq_contains(m@, p),
        None => false,
    }
}

pub open spec fn url_has(c: MediaContent, p: Seq<char>) -> bool {
    match c.url {
        Some(u) => seq_contains(u@, p),
        None => false,
    }
}

/// The title of a variant names quality `q`.
pub open spec fn title_match(c: MediaContent, q: Seq<char>) -> bool {
    if q == "original"@ {
        title_has(c, "originale"@) || title_has(c, "original"@)
    } else if q == "flac"@ {
        title_has(c, "brute"@)
    } else if q == "mp3"@ {
        title_has(c, "standard"@) || title_has(c, "optimis"@)
    } else {
        false
    }
}

/// The MIME type of a variant is of the family of quality `q`.
pub open spec fn mime_match(c: MediaContent, q: Seq<char>) -> bool {
    if q == "original"@ {
        mime_has(c, "wav"@) || mime_has(c, "aiff"@)
    } else if q == "flac"@ {
        mime_has(c, "flac"@)
    } else if q == "mp3"@ {
        mime_has(c, "mpeg"@) || mime_has(c, "mp3"@)
    } else {
        false
    }
}

/// The URL of a variant marks quality `q`.
pub open spec fn url_match(c: MediaContent, q: Seq<char>) -> bool {
    if q == "original"@ {
        url_has(c, "-original"@)
    } else if q == "flac"@ {
        url_has(c, "-raw"@)
    } else if q == "mp3"@ {
        url_has(c, "-std"@)
    } else {
        false
    }
}

/// A variant is of quality `q` by one of the three tests: 0 its title, 1 its
/// MIME type, 2 its URL. Only `original`, `flac` and `mp3` are qualities.
pub open spec fn matches_by(c: MediaContent, q: Seq<char>, how: int) -> bool {
    if how == 0 {
        title_match(c, q)
    } else if how == 1 {
        mime_match(c, q)
    } else {
        url_match(c, q)
    }
}

/// A variant is of quality `q` by any of the three tests.
pub open spec fn matches_quality(c: MediaContent, q: Seq<char>) -> bool {
    title_match(c, q) || mime_match(c, q) || url_match(c, q)
}

/// A variant with a URL that is of quality `q` by test `how`.
pub open spec fn usable(c: MediaContent, q: Seq<char>, how: int) -> bool {
    c.url is Some && matches_by(c, q, how)
}

/// The first variant from index `i` on that is usable for `q` by test `how`.
pub open spec fn first_usable(cs: Seq<MediaContent>, q: Seq<char>, how: int, i: int) -> Option<int>
    decreases cs.len() - i,
{
    if i < 0 || i >= cs.len() {
        None
    } else if usable(cs[i], q, how) {
        Some(i)
    } else {
        first_usable(cs, q, how, i + 1)
    }
}

/// The variant of quality `q`: the first whose title names it, else the
/// first whose MIME type is of its family, else the first whose URL marks it.
pub open spec fn group_index(cs: Seq<MediaContent>, q: Seq<char>) -> Option<int> {
    if first_usable(cs, q, 0, 0) is Some {
        first_usable(cs, q, 0, 0)
    } else if first_usable(cs, q, 1, 0) is Some {
        first_usable(cs, q, 1, 0)
    } else {
        first_usable(cs, q, 2, 0)
    }
}

proof fn lemma_first_usable_is_usable(cs: Seq<MediaContent>, q: Seq<char>, how: int, i: int)
    ensures
        first_usable(cs, q, how, i) matches Some(j) ==> 0 <= j < cs.len() && usable(cs[j], q, how),
    decreases cs.len() - i,
{
    if 0 <= i < cs.len() {
        lemma_first_usable_is_usable(cs, q, how, i + 1);
    }
}

/// The enclosure of the variant of quality `q`.
pub open spec fn group_choice(cs: Seq<MediaContent>, q: Seq<char>) -> Option<EnclosureView> {
    match group_index(cs, q) {
        Some(i) => Some(content_enclosure(cs[i])),
        None => None,
    }
}

pub open spec fn or_else(a: Option<EnclosureView>, b: Option<EnclosureView>) -> Option<
    EnclosureView,
> {
    if a is Some {
        a
    } else {
        b
    }
}

/// The enclosure chosen for quality `q`: a variant of that quality, else one
/// of `original`, `flac`, `mp3` in that order, else the plain enclosure.
/// (For the sentinel `enclosure`, "best available", no variant is of that
/// quality, so the order alone decides.)
pub open spec fn selected(
    cs: Seq<MediaContent>,
    plain: Option<FeedEnclosure>,
    q: Seq<char>,
) -> Option<EnclosureView> {
    or_else(
        group_choice(cs, q),
        or_else(
            group_choice(cs, "original"@),
            or_else(
                group_choice(cs, "flac"@),
                or_else(group_choice(cs, "mp3"@), plain_enclosure(plain)),
            ),
        ),
    )
}

fn text_has(t: &Option<String>, p: &str) -> (r: bool)
    ensures
        r == match t {
            Some(s) => seq_contains(s@, p@),
            None => false,
        },
{
    match t {
        Some(s) => contains(&chars_of(s.as_str()), &chars_of(p)),
        None => false,
    }
}

fn matches_by_exec(c: &MediaContent, quality: &str, how: u8) -> (r: bool)
    requires
        how <= 2,
    ensures
        r == matches_by(*c, quality@, how as int),
{
    if how == 0 {
        let title: Option<String> = match &c.title {
            Some(t) => Some(lowercase(t.as_str())),
            None => None,
        };
        if str_equals(quality, "original") {
            text_has(&title, "originale") || text_has(&title, "original")
        } else if str_equals(quality, "flac") {
            text_has(&title, "brute")
        } else if str_equals(quality, "mp3") {
            text_has(&title, "standard") || text_has(&title, "optimis")
        } else {
            false
        }
    } else if how == 1 {
        if str_equals(quality, "original") {
            text_has(&c.mime_type, "wav") || text_has(&c.mime_type, "aiff")
        } else if str_equals(quality, "flac") {
            text_has(&c.mime_type, "flac")
        } else if str_equals(quality, "mp3") {
            text_has(&c.mime_type, "mpeg") || text_has(&c.mime_type, "mp3")
        } else {
            false
        }
    } else {
        if str_equals(quality, "original") {
            text_has(&c.url, "-original")
        } else if str_equals(quality, "flac") {
            text_has(&c.url, "-raw")
        } else if str_equals(quality, "mp3") {
            text_has(&c.url, "-std")
        } else {
            false
        }
    }
}

fn first_match(media_contents: &Vec<MediaContent>, quality: &str, how: u8) -> (r: Option<usize>)
    requires
        how <= 2,
    ensures
        r matches Some(i) ==> i < media_contents@.len() && first_usable(
            media_contents@,
            quality@,
            how as int,
            0,
        ) == Some(i as int),
        r is None ==> first_usable(media_contents@, quality@, how as int, 0) is None,
{
    let mut i: usize = 0;
    while i < media_contents.len()
        invariant
            how <= 2,
            i <= media_contents.len(),
            first_usable(media_contents@, quality@, how as int, 0) == first_usable(
                media_contents@,
                quality@,
                how as int,
                i as int,
            ),
        decreases media_contents.len() - i,
    {
        let c = &media_contents[i];
        if c.url.is_some() && matches_by_exec(c, quality, how) {
            return Some(i);
        }
        i = i + 1;
    }
    None
}

fn size_from_text(t: &Option<String>) -> (r: Option<i64>)
    ensures
        r is Some <==> size_of_text(opt_text(*t)) is Some,
        r matches Some(n) ==> n as int == size_of_text(opt_text(*t))->0,
{
    match t {
        Some(s) => parse_i64(&chars_of(s.as_str())),
        None => None,
    }
}

/// The variant of `media_contents` of quality `quality`: a title match
/// comes before a MIME match, which comes before a URL match.
pub fn extract_from_media_group(media_contents: &Vec<MediaContent>, quality: &str) -> (r: Option<
    Enclosure,
>)
    ensures
        opt_enclosure(r) == group_choice(media_contents@, quality@),
{
    proof {
        lemma_first_usable_is_usable(media_contents@, quality@, 0, 0);
        lemma_first_usable_is_usable(media_contents@, quality@, 1, 0);
        lemma_first_usable_is_usable(media_contents@, quality@, 2, 0);
    }
    let found = match first_match(media_contents, quality, 0) {
        Some(i) => Some(i),
        None => match first_match(media_contents, quality, 1) {
            Some(i) => Some(i),
            None => first_match(media_contents, quality, 2),
        },
    };
    match found {
        Some(i) => {
            let c = &media_contents[i];
            match &c.url {
                Some(url) => Some(
                    Enclosure {
                        url: url.clone(),
                        mime_type: clone_text(&c.mime_type),
                        length: size_from_text(&c.file_size),
                    },
                ),
                None => None,
            }
        },
        None => None,
    }
}

/// The plain enclosure of an item.
pub fn extract_enclosure(enclosure: &Option<FeedEnclosure>) -> (r: Option<Enclosure>)
    ensures
        opt_enclosure(r) == plain_enclosure(*enclosure),
{
    match enclosure {
        Some(e) => Some(
            Enclosure {
                url: e.url.clone(),
                mime_type: Some(e.mime_type.clone()),
                length: parse_i64(&chars_of(e.length.as_str())),
            },
        ),
        None => None,
    }
}

/// The best variant: `original`, else `flac`, else `mp3`.
pub fn extract_best_from_media_group(media_contents: &Vec<MediaContent>) -> (r: Option<Enclosure>)
    ensures
        opt_enclosure(r) == or_else(
            group_choice(media_contents@, "original"@),
            or_else(group_choice(media_contents@, "flac"@), group_choice(media_contents@, "mp3"@)),
        ),
{
    if let Some(enc) = extract_from_media_group(media_contents, "original") {
        return Some(enc);
    }
    if let Some(enc) = extract_from_media_group(media_contents, "flac") {
        return Some(enc);
    }
    extract_from_media_group(media_contents, "mp3")
}

/// The enclosure to download for an item, given the preferred quality;
/// `enclosure` stands for "best available".
pub fn extract_enclosure_with_quality(
    media_contents: &Vec<MediaContent>,
    enclosure: &Option<FeedEnclosure>,
    quality: &str,
) -> (r: Option<Enclosure>)
    ensures
        opt_enclosure(r) == selected(media_contents@, *enclosure, quality@),
{
    proof {
        reveal_strlit("enclosure");
        reveal_strlit("original");
        reveal_strlit("flac");
        reveal_strlit("mp3");
    }
    if str_equals(quality, "enclosure") {
        assert(group_choice(media_contents@, quality@) is None) by {
            assert("enclosure"@.len() == 9);
            assert("original"@.len() == 8);
            assert("flac"@.len() == 4);
            assert("mp3"@.len() == 3);
            lemma_unknown_quality(media_contents@, quality@, 0);
        }
        if let Some(best) = extract_best_from_media_group(media_contents) {
            return Some(best);
        }
        return extract_enclosure(enclosure);
    }
    if let Some(enc) = extract_from_media_group(media_contents, quality) {
        return Some(enc);
    }
    if !str_equals(quality, "original") {
        if let Some(enc) = extract_from_media_group(media_contents, "original") {
            return Some(enc);
        }
    }
    if !str_equals(quality, "flac") {
        if let Some(enc) = extract_from_media_group(media_contents, "flac") {
            return Some(enc);
        }
    }
    if !str_equals(quality, "mp3") {
        if let Some(enc) = extract_from_media_group(media_contents, "mp3") {
            return Some(enc);
        }
    }
    extract_enclosure(enclosure)
}

/// No variant is of a quality other than `original`, `flac` and `mp3`.
proof fn lemma_unknown_quality(cs: Seq<MediaContent>, q: Seq<char>, i: int)
    requires
        q != "original"@,
        q != "flac"@,
        q != "mp3"@,
    ensures
        first_usable(cs, q, 0, i) is None,
        first_usable(cs, q, 1, i) is None,
        first_usable(cs, q, 2, i) is None,
    decreases cs.len() - i,
{
    if 0 <= i < cs.len() {
        lemma_unknown_quality(cs, q, i + 1);
    }
}

/// Where an item offers one variant, of `mp3` quality alone, a request for
/// `original` falls back through `flac` and lands on that variant.
pub proof fn lemma_fallback_lands_on_mp3(cs: Seq<MediaContent>, plain: Option<FeedEnclosure>)
    requires
        cs.len() == 1,
        cs[0].url is Some,
        matches_quality(cs[0], "mp3"@),
        !matches_quality(cs[0], "original"@),
        !matches_quality(cs[0], "flac"@),
    ensures
        selected(cs, plain, "original"@) == Some(content_enclosure(cs[0])),
{
    reveal_with_fuel(first_usable, 2);
}

/// Where an item offers no variants, the plain enclosure is chosen if there
/// is one, and nothing otherwise, whatever the quality asked for.
pub proof fn lemma_no_variants_gives_plain(
    cs: Seq<MediaContent>,
    plain: Option<FeedEnclosure>,
    q: Seq<char>,
)
    requires
        cs.len() == 0,
    ensures
        selected(cs, plain, q) == plain_enclosure(plain),
        plain is None ==> selected(cs, plain, q) is None,
{
}

/// The URLs an item offers: its plain enclosure and its `original`, `flac`
/// and `mp3` variants.
#[derive(Debug, Clone)]
pub struct AvailableMedia {
    pub standard_url: Option<String>,
    pub original_url: Option<String>,
    pub flac_url: Option<String>,
    pub mp3_url: Option<String>,
}

pub open spec fn url_of(e: Option<EnclosureView>) -> Option<Seq<char>> {
    match e {
        Some(e) => Some(e.url),
        None => None,
    }
}

fn url_only(e: Option<Enclosure>) -> (r: Option<String>)
    ensures
        opt_text(r) == url_of(opt_enclosure(e)),
{
    match e {
        Some(e) => Some(e.url),
        None => None,
    }
}

/// Every URL an item offers, by kind.
pub fn extract_all_media_urls(
    media_contents: &Vec<MediaContent>,
    enclosure: &Option<FeedEnclosure>,
) -> (r: AvailableMedia)
    ensures
        opt_text(r.standard_url) == url_of(plain_enclosure(*enclosure)),
        opt_text(r.original_url) == url_of(group_choice(media_contents@, "original"@)),
        opt_text(r.flac_url) == url_of(group_choice(media_contents@, "flac"@)),
        opt_text(r.mp3_url) == url_of(group_choice(media_contents@, "mp3"@)),
{
    AvailableMedia {
        standard_url: url_only(extract_enclosure(enclosure)),
        original_url: url_only(extract_from_media_group(media_contents, "original")),
        flac_url: url_only(extract_from_media_group(media_contents, "flac")),
        mp3_url: url_only(extract_from_media_group(media_contents, "mp3")),
    }
}

} // verus!
