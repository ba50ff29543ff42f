//! Feed parsing: the items of an RSS document, normalised.
use vstd::prelude::*;
use vstd::string::StringExecFns;
use crate::error::AppError;
use crate::extensions::{
    content_is, media_contents, media_group_contents, thumbnail_of, thumbnail_url, ExtElement,
    ExtGroup, ExtNamespace,
};
use crate::media::{
    clone_text, extract_all_media_urls, extract_enclosure_with_quality, AvailableMedia, group_choice, opt_enclosure, opt_text, plain_enclosure, selected, url_of,
    Enclosure, FeedEnclosure, MediaContent,
};
use crate::naming::{decimal_chars, decimal_text};
use crate::numbers::{duration_value, parse_duration};
use crate::text::{chars_of, seq_contains, string_from};

verus! {

#[verifier::external_type_specification]
#[verifier::external_body]
pub struct ExItem(rss::Item);

#[verifier::external_type_specification]
#[verifier::external_body]
pub struct ExRssError(rss::Error);

/// Relies on the `Display` impl of `rss::Error`.
#[verifier::external_body]
fn rss_error_text(e: &rss::Error) -> (r: String) {
    e.to_string()
}

/// The text fields of an item as the feed gives them.
#[derive(Debug, Clone)]
pub struct ItemTexts {
    pub guid: Option<String>,
    pub link: Option<String>,
    pub title: Option<String>,
    pub description: Option<String>,
    pub pub_date: Option<String>,
    pub author: Option<String>,
}

/// The iTunes fields of an item as the feed gives them.
#[derive(Debug, Clone)]
pub struct ItunesTexts {
    pub image: Option<String>,
    pub author: Option<String>,
    pub duration: Option<String>,
}

/// Relies on the accessors of `rss::Item` and `rss::Guid::value`.
#[verifier::external_body]
fn item_texts(item: &rss::Item) -> (r: ItemTexts) {
    ItemTexts {
        guid: item.guid().map(|g| g.value().to_string()),
        link: item.link().map(|s| s.to_string()),
        title: item.title().map(|s| s.to_string()),
        description: item.description().map(|s| s.to_string()),
        pub_date: item.pub_date().map(|s| s.to_string()),
        author: item.author().map(|s| s.to_string()),
    }
}

/// Relies on `rss::Item::itunes_ext` and the accessors of its iTunes extension.
#[verifier::external_body]
fn item_itunes(item: &rss::Item) -> (r: ItunesTexts) {
    let ext = item.itunes_ext();
    ItunesTexts {
        image: ext.and_then(|x| x.image()).map(|s| s.to_string()),
        author: ext.and_then(|x| x.author()).map(|s| s.to_string()),
        duration: ext.and_then(|x| x.duration()).map(|s| s.to_string()),
    }
}

/// Relies on `rss::Item::enclosure` and the accessors of `rss::Enclosure`.
#[verifier::external_body]
fn item_enclosure(item: &rss::Item) -> (r: Option<FeedEnclosure>) {
    item.enclosure().map(
        |e| FeedEnclosure {
            url: e.url().to_string(),
            mime_type: e.mime_type().to_string(),
            length: e.length().to_string(),
        },
    )
}

#[verifier::external_type_specification]
#[verifier::external_body]
pub struct ExExtension(rss::extension::Extension);

/// Relies on the fields of `rss::extension::Extension`: the element as read,
/// its children converted in the same way.
#[verifier::external_body]
fn ext_element(e: &rss::extension::Extension) -> (r: ExtElement) {
    ExtElement {
        value: e.value().map(|v| v.to_string()),
        attrs: e.attrs().iter().map(|(k, v)| (k.clone(), v.clone())).collect(),
        children: e.children().iter().map(
            |(n, es)| ExtGroup { name: n.clone(), elements: es.iter().map(ext_element).collect() },
        ).collect(),
    }
}

/// Relies on `rss::Item::extensions`: every extension element of the item,
/// by namespace prefix and then by name.
#[verifier::external_body]
fn item_extensions(item: &rss::Item) -> (r: Vec<ExtNamespace>) {
    item.extensions().iter().map(
        |(p, names)| ExtNamespace {
            prefix: p.clone(),
            groups: names.iter().map(
                |(n, es)| ExtGroup { name: n.clone(), elements: es.iter().map(ext_element).collect() },
            ).collect(),
        },
    ).collect()
}

/// An item as the RSS reader gives it.
#[derive(Debug)]
pub struct ReadItem {
    pub texts: ItemTexts,
    pub itunes: ItunesTexts,
    pub enclosure: Option<FeedEnclosure>,
    pub extensions: Vec<ExtNamespace>,
}

/// A document as the RSS reader gives it: the channel's title and
/// description and its items in document order.
#[derive(Debug)]
pub struct ReadFeed {
    pub title: String,
    pub description: String,
    pub items: Vec<ReadItem>,
}

/// Relies on `rss::Item` and its accessors: the item converted field by field.
#[verifier::external_body]
fn read_item(item: &rss::Item) -> (r: ReadItem) {
    ReadItem {
        texts: item_texts(item),
        itunes: item_itunes(item),
        enclosure: item_enclosure(item),
        extensions: item_extensions(item),
    }
}

/// Names pairwise different, by the map a name comes from.
pub open spec fn names_unique(gs: Seq<ExtGroup>) -> bool {
    forall|a: int, b: int| 0 <= a < b < gs.len() ==> gs[a].name@ != gs[b].name@
}

/// Attribute keys and child names of an element are each unique, and so on
/// down `depth` more levels of children.
pub open spec fn element_keys_unique(e: ExtElement, depth: nat) -> bool
    decreases depth,
{
    &&& forall|a: int, b: int|
        0 <= a < b < e.attrs@.len() ==> e.attrs@[a].0@ != e.attrs@[b].0@
    &&& names_unique(e.children@)
    &&& depth > 0 ==> forall|g: int, k: int|
        0 <= g < e.children@.len() && 0 <= k < e.children@[g].elements@.len()
            ==> element_keys_unique(#[trigger] e.children@[g].elements@[k], (depth - 1) as nat)
}

/// The extension maps of an item have unique keys: prefixes, names under
/// each prefix, and (three levels down) attributes and child names.
pub open spec fn extension_keys_unique(ns: Seq<ExtNamespace>) -> bool {
    &&& forall|a: int, b: int| 0 <= a < b < ns.len() ==> ns[a].prefix@ != ns[b].prefix@
    &&& forall|n: int| 0 <= n < ns.len() ==> names_unique(#[trigger] ns[n].groups@)
    &&& forall|n: int, g: int, k: int|
        0 <= n < ns.len() && 0 <= g < ns[n].groups@.len() && 0 <= k < ns[n].groups@[g].elements@.len()
            ==> element_keys_unique(#[trigger] ns[n].groups@[g].elements@[k], 2)
}

/// What `rss::Channel::read_from` reads from a document, converted as
/// `read_document` converts it; `None` where the document does not read.
pub uninterp spec fn rss_document(xml: Seq<char>) -> Option<ReadFeed>;

/// Relies on `rss::Channel::read_from`, `title`, `description` and `items`:
/// the result depends on the text alone; the extension maps it converts are
/// ordered maps, so their keys are unique.
#[verifier::external_body]
fn read_document(xml: &str) -> (r: Result<ReadFeed, rss::Error>)
    ensures
        r is Ok <==> rss_document(xml@) is Some,
        r matches Ok(f) ==> rss_document(xml@) == Some(f),
        r matches Ok(f) ==> forall|i: int|
            0 <= i < f.items@.len() ==> extension_keys_unique(#[trigger] f.items@[i].extensions@),
{
    let c = rss::Channel::read_from(xml.as_bytes())?;
    let items = c.items().iter().map(read_item).collect();
    Ok(ReadFeed { title: c.title().to_string(), description: c.description().to_string(), items })
}

/// What chrono's RFC 2822 parser reads from a date: the Unix time in seconds.
pub uninterp spec fn rfc2822_seconds(s: Seq<char>) -> Option<int>;

/// Relies on chrono's `DateTime::parse_from_rfc2822` and `timestamp`: the
/// result depends on the text alone.
#[verifier::external_body]
fn parse_rfc2822(s: &str) -> (r: Option<i64>)
    ensures
        r is Some <==> rfc2822_seconds(s@) is Some,
        r matches Some(t) ==> t as int == rfc2822_seconds(s@)->0,
{
    chrono::DateTime::parse_from_rfc2822(s).ok().map(|d| d.timestamp())
}

/// An item of a feed, its fields as the feed gives them.
#[derive(Debug, Clone)]
pub struct RawItem {
    pub texts: ItemTexts,
    pub itunes: ItunesTexts,
    pub enclosure: Option<FeedEnclosure>,
    pub media_contents: Vec<MediaContent>,
    pub thumbnail_url: Option<String>,
}

/// An item of a feed, normalised.
#[derive(Debug, Clone)]
pub struct ParsedItem {
    pub guid: String,
    pub title: String,
    pub description: Option<String>,
    pub pub_date: Option<i64>,
    pub enclosure: Option<Enclosure>,
    pub image_url: Option<String>,
    pub author: Option<String>,
    pub duration: Option<i32>,
}

/// A feed: its title, description and items.
#[derive(Debug, Clone)]
pub struct ParsedFeed {
    pub title: String,
    pub description: Option<String>,
    pub items: Vec<ParsedItem>,
}

pub open spec fn text_or(o: Option<String>, d: Seq<char>) -> Seq<char> {
    match o {
        Some(s) => s@,
        None => d,
    }
}

/// An item's identity: its guid, else its link, else its title and raw date
/// joined by `_` (each `unknown` where absent), which is never empty.
pub open spec fn guid_of(t: ItemTexts) -> Seq<char> {
    match t.guid {
        Some(g) => g@,
        None => match t.link {
            Some(l) => l@,
            None => text_or(t.title, "unknown"@) + "_"@ + text_or(t.pub_date, "unknown"@),
        },
    }
}

pub open spec fn first_text(a: Option<String>, b: Option<String>) -> Option<Seq<char>> {
    if a is Some {
        opt_text(a)
    } else {
        opt_text(b)
    }
}

/// What an item becomes for the quality `q`.
pub open spec fn item_is(raw: RawItem, q: Seq<char>, p: ParsedItem) -> bool {
    &&& p.guid@ == guid_of(raw.texts)
    &&& p.title@ == text_or(raw.texts.title, "Untitled"@)
    &&& opt_text(p.description) == opt_text(raw.texts.description)
    &&& p.pub_date is Some <==> (raw.texts.pub_date is Some && rfc2822_seconds(
        raw.texts.pub_date->0@,
    ) is Some)
    &&& p.pub_date matches Some(t) ==> t as int == rfc2822_seconds(raw.texts.pub_date->0@)->0
    &&& opt_enclosure(p.enclosure) == selected(raw.media_contents@, raw.enclosure, q)
    &&& opt_text(p.image_url) == first_text(raw.itunes.image, raw.thumbnail_url)
    &&& opt_text(p.author) == first_text(raw.itunes.author, raw.texts.author)
    &&& p.duration is Some <==> (raw.itunes.duration is Some && duration_value(
        raw.itunes.duration->0@,
    ) is Some)
    &&& p.duration matches Some(d) ==> d as int == duration_value(raw.itunes.duration->0@)->0
}

fn first_of(a: &Option<String>, b: &Option<String>) -> (r: Option<String>)
    ensures
        opt_text(r) == first_text(*a, *b),
{
    if a.is_some() {
        clone_text(a)
    } else {
        clone_text(b)
    }
}

/// The identity of an item.
pub fn extract_guid(texts: &ItemTexts) -> (r: String)
    ensures
        r@ == guid_of(*texts),
{
    match &texts.guid {
        Some(g) => g.clone(),
        None => match &texts.link {
            Some(l) => l.clone(),
            None => {
                let title = match &texts.title {
                    Some(t) => t.clone(),
                    None => "unknown".to_owned(),
                };
                let date = match &texts.pub_date {
                    Some(d) => d.as_str(),
                    None => "unknown",
                };
                title.concat("_").concat(date)
            },
        },
    }
}

/// The publication time of an item, where its date reads as RFC 2822.
pub fn extract_pub_date(texts: &ItemTexts) -> (r: Option<i64>)
    ensures
        r is Some <==> (texts.pub_date is Some && rfc2822_seconds(texts.pub_date->0@) is Some),
        r matches Some(t) ==> t as int == rfc2822_seconds(texts.pub_date->0@)->0,
{
    match &texts.pub_date {
        Some(d) => parse_rfc2822(d.as_str()),
        None => None,
    }
}

/// The picture of an item: its iTunes image, else its media thumbnail.
pub fn extract_image_url(itunes: &ItunesTexts, thumbnail_url: &Option<String>) -> (r: Option<
    String,
>)
    ensures
        opt_text(r) == first_text(itunes.image, *thumbnail_url),
{
    first_of(&itunes.image, thumbnail_url)
}

/// The author of an item: its iTunes author, else its plain author.
pub fn extract_author(itunes: &ItunesTexts, texts: &ItemTexts) -> (r: Option<String>)
    ensures
        opt_text(r) == first_text(itunes.author, texts.author),
{
    first_of(&itunes.author, &texts.author)
}

/// The duration of an item in seconds, from its iTunes duration.
pub fn extract_duration(itunes: &ItunesTexts) -> (r: Option<i32>)
    ensures
        r is Some <==> (itunes.duration is Some && duration_value(itunes.duration->0@) is Some),
        r matches Some(d) ==> d as int == duration_value(itunes.duration->0@)->0,
{
    match &itunes.duration {
        Some(d) => parse_duration(d.as_str()),
        None => None,
    }
}

/// Normalises one item for the quality `quality`.
pub fn build_item(raw: &RawItem, quality: &str) -> (r: ParsedItem)
    ensures
        item_is(*raw, quality@, r),
{
    let title = match &raw.texts.title {
        Some(t) => t.clone(),
        None => "Untitled".to_owned(),
    };
    ParsedItem {
        guid: extract_guid(&raw.texts),
        title,
        description: clone_text(&raw.texts.description),
        pub_date: extract_pub_date(&raw.texts),
        enclosure: extract_enclosure_with_quality(&raw.media_contents, &raw.enclosure, quality),
        image_url: extract_image_url(&raw.itunes, &raw.thumbnail_url),
        author: extract_author(&raw.itunes, &raw.texts),
        duration: extract_duration(&raw.itunes),
    }
}

/// Normalises every item, in order.
pub fn parse_items(raws: &Vec<RawItem>, quality: &str) -> (r: Vec<ParsedItem>)
    ensures
        r@.len() == raws@.len(),
        forall|i: int| 0 <= i < raws@.len() ==> item_is(raws@[i], quality@, #[trigger] r@[i]),
{
    let mut out: Vec<ParsedItem> = Vec::new();
    let mut i: usize = 0;
    while i < raws.len()
        invariant
            i <= raws.len(),
            out@.len() == i,
            forall|k: int| 0 <= k < i ==> item_is(raws@[k], quality@, #[trigger] out@[k]),
        decreases raws.len() - i,
    {
        let p = build_item(&raws[i], quality);
        out.push(p);
        i = i + 1;
    }
    out
}

pub open spec fn texts_same(a: ItemTexts, b: ItemTexts) -> bool {
    &&& opt_text(a.guid) == opt_text(b.guid)
    &&& opt_text(a.link) == opt_text(b.link)
    &&& opt_text(a.title) == opt_text(b.title)
    &&& opt_text(a.description) == opt_text(b.description)
    &&& opt_text(a.pub_date) == opt_text(b.pub_date)
    &&& opt_text(a.author) == opt_text(b.author)
}

pub open spec fn itunes_same(a: ItunesTexts, b: ItunesTexts) -> bool {
    &&& opt_text(a.image) == opt_text(b.image)
    &&& opt_text(a.author) == opt_text(b.author)
    &&& opt_text(a.duration) == opt_text(b.duration)
}

pub open spec fn enclosure_same(a: Option<FeedEnclosure>, b: Option<FeedEnclosure>) -> bool {
    match (a, b) {
        (Some(x), Some(y)) => x.url@ == y.url@ && x.mime_type@ == y.mime_type@ && x.length@
            == y.length@,
        (None, None) => true,
        _ => false,
    }
}

/// `raw` holds what `read` holds, with its media variants and thumbnail read
/// out of its extension elements.
pub open spec fn raw_is(read: ReadItem, raw: RawItem) -> bool {
    &&& texts_same(raw.texts, read.texts)
    &&& itunes_same(raw.itunes, read.itunes)
    &&& enclosure_same(raw.enclosure, read.enclosure)
    &&& raw.media_contents@.len() == media_group_contents(read.extensions@).len()
    &&& forall|i: int|
        0 <= i < raw.media_contents@.len() ==> content_is(
            #[trigger] raw.media_contents@[i],
            media_group_contents(read.extensions@)[i],
        )
    &&& opt_text(raw.thumbnail_url) == thumbnail_of(read.extensions@)
}

/// What a read item becomes for the quality `q`.
pub open spec fn read_item_is(read: ReadItem, q: Seq<char>, p: ParsedItem) -> bool {
    exists|raw: RawItem| #[trigger] raw_is(read, raw) && item_is(raw, q, p)
}

fn clone_texts(t: &ItemTexts) -> (r: ItemTexts)
    ensures
        texts_same(r, *t),
{
    ItemTexts {
        guid: clone_text(&t.guid),
        link: clone_text(&t.link),
        title: clone_text(&t.title),
        description: clone_text(&t.description),
        pub_date: clone_text(&t.pub_date),
        author: clone_text(&t.author),
    }
}

/// An item with its media variants and thumbnail read out.
pub fn raw_item(read: &ReadItem) -> (r: RawItem)
    ensures
        raw_is(*read, r),
{
    let enclosure = match &read.enclosure {
        Some(e) => Some(
            FeedEnclosure {
                url: e.url.clone(),
                mime_type: e.mime_type.clone(),
                length: e.length.clone(),
            },
        ),
        None => None,
    };
    RawItem {
        texts: clone_texts(&read.texts),
        itunes: ItunesTexts {
            image: clone_text(&read.itunes.image),
            author: clone_text(&read.itunes.author),
            duration: clone_text(&read.itunes.duration),
        },
        enclosure,
        media_contents: media_contents(&read.extensions),
        thumbnail_url: thumbnail_url(&read.extensions),
    }
}

fn raw_items(items: &Vec<ReadItem>) -> (r: Vec<RawItem>)
    ensures
        r@.len() == items@.len(),
        forall|i: int| 0 <= i < items@.len() ==> raw_is(items@[i], #[trigger] r@[i]),
{
    let mut raws: Vec<RawItem> = Vec::new();
    let mut i: usize = 0;
    while i < items.len()
        invariant
            i <= items.len(),
            raws@.len() == i,
            forall|k: int| 0 <= k < i ==> raw_is(items@[k], #[trigger] raws@[k]),
        decreases items.len() - i,
    {
        raws.push(raw_item(&items[i]));
        i = i + 1;
    }
    raws
}

/// Reads an RSS document and normalises its items, in document order, for
/// the quality `quality`. It fails, with `RssParsing`, exactly where the
/// document does not read.
pub fn parse_rss_with_quality(xml: &str, quality: &str) -> (r: Result<ParsedFeed, AppError>)
    ensures
        r is Ok <==> rss_document(xml@) is Some,
        r matches Err(e) ==> e is RssParsing,
        r matches Ok(f) ==> {
            let d = rss_document(xml@)->0;
            &&& f.title@ == d.title@
            &&& opt_text(f.description) == Some(d.description@)
            &&& f.items@.len() == d.items@.len()
            &&& forall|i: int|
                0 <= i < f.items@.len() ==> read_item_is(d.items@[i], quality@, #[trigger] f.items@[i])
        },
{
    match read_document(xml) {
        Err(e) => Err(AppError::RssParsing(rss_error_text(&e))),
        Ok(doc) => {
            let raws = raw_items(&doc.items);
            let parsed = parse_items(&raws, quality);
            assert forall|i: int| 0 <= i < parsed@.len() implies read_item_is(
                doc.items@[i],
                quality@,
                #[trigger] parsed@[i],
            ) by {
                assert(raw_is(doc.items@[i], raws@[i]));
                assert(item_is(raws@[i], quality@, parsed@[i]));
            }
            let ReadFeed { title, description, items: _ } = doc;
            Ok(ParsedFeed { title, description: Some(description), items: parsed })
        },
    }
}

/// `n` in decimal, with a leading `-` where it is negative.
pub open spec fn signed_text(n: int) -> Seq<char> {
    if n < 0 {
        seq!['-'] + decimal_text((-n) as nat)
    } else {
        decimal_text(n as nat)
    }
}

/// The address fetched for a feed: with `limit=<n>` added to its query where
/// a limit is given.
pub open spec fn limited_url(url: Seq<char>, limit: Option<i32>) -> Seq<char> {
    match limit {
        None => url,
        Some(n) => url + (if seq_contains(url, seq!['?']) {
            "&limit="@
        } else {
            "?limit="@
        }) + signed_text(n as int),
    }
}

/// The address to fetch a feed from, asking for at most `limit` items.
pub fn fetch_url(url: &str, limit: Option<i32>) -> (r: String)
    ensures
        r@ == limited_url(url@, limit),
{
    match limit {
        None => url.to_owned(),
        Some(n) => {
            let u = chars_of(url);
            let mut q: Vec<char> = Vec::new();
            q.push('?');
            assert(q@ =~= seq!['?']);
            let sep = if crate::text::contains(&u, &q) {
                "&limit="
            } else {
                "?limit="
            };
            let mut digits: Vec<char> = Vec::new();
            if n < 0 {
                digits.push('-');
            }
            let d = decimal_chars(if n < 0 {
                (-(n as i128)) as u128
            } else {
                n as u128
            });
            let ghost start = digits@;
            let mut i: usize = 0;
            while i < d.len()
                invariant
                    i <= d.len(),
                    digits@ == start + d@.subrange(0, i as int),
                decreases d.len() - i,
            {
                digits.push(d[i]);
                i = i + 1;
                assert(digits@ =~= start + d@.subrange(0, i as int));
            }
            assert(d@.subrange(0, d@.len() as int) =~= d@);
            assert(digits@ =~= signed_text(n as int));
            let tail = string_from(&digits);
            url.to_owned().concat(sep).concat(tail.as_str())
        },
    }
}

/// The first item whose own guid is `guid`.
pub open spec fn item_with_guid(items: Seq<ReadItem>, guid: Seq<char>, i: int) -> Option<int>
    decreases items.len() - i,
{
    if i < 0 || i >= items.len() {
        None
    } else if items[i].texts.guid is Some && items[i].texts.guid->0@ == guid {
        Some(i)
    } else {
        item_with_guid(items, guid, i + 1)
    }
}

/// Finds the item whose own guid is `guid` (a guid made up from its link or
/// title does not count).
pub fn find_by_guid(items: &Vec<ReadItem>, guid: &str) -> (r: Option<usize>)
    ensures
        r matches Some(i) ==> item_with_guid(items@, guid@, 0) == Some(i as int) && i < items@.len(),
        r is None ==> item_with_guid(items@, guid@, 0) is None,
{
    let mut i: usize = 0;
    while i < items.len()
        invariant
            i <= items.len(),
            item_with_guid(items@, guid@, 0) == item_with_guid(items@, guid@, i as int),
        decreases items.len() - i,
    {
        match &items[i].texts.guid {
            Some(g) => {
                if crate::text::str_equals(g.as_str(), guid) {
                    return Some(i);
                }
            },
            None => {},
        }
        i = i + 1;
    }
    None
}

/// Reads an RSS document into its items, as the feed gives them; it fails,
/// with `RssParsing`, exactly where the document does not read.
pub fn read_raw_items(xml: &str) -> (r: Result<Vec<RawItem>, AppError>)
    ensures
        r is Ok <==> rss_document(xml@) is Some,
        r matches Err(e) ==> e is RssParsing,
        r matches Ok(v) ==> {
            let d = rss_document(xml@)->0;
            &&& v@.len() == d.items@.len()
            &&& forall|i: int| 0 <= i < v@.len() ==> raw_is(d.items@[i], #[trigger] v@[i])
        },
{
    match read_document(xml) {
        Err(e) => Err(AppError::RssParsing(rss_error_text(&e))),
        Ok(doc) => Ok(raw_items(&doc.items)),
    }
}

/// The URLs of `m` are those `raw` offers.
pub open spec fn media_urls_are(raw: RawItem, m: AvailableMedia) -> bool {
    &&& opt_text(m.standard_url) == url_of(plain_enclosure(raw.enclosure))
    &&& opt_text(m.original_url) == url_of(group_choice(raw.media_contents@, "original"@))
    &&& opt_text(m.flac_url) == url_of(group_choice(raw.media_contents@, "flac"@))
    &&& opt_text(m.mp3_url) == url_of(group_choice(raw.media_contents@, "mp3"@))
}

/// Every URL offered by the item with guid `guid` of an RSS document. It
/// fails with `RssParsing` where the document does not read, and with
/// `NotFound` where no item has that guid as its own.
pub fn available_media(xml: &str, guid: &str) -> (r: Result<AvailableMedia, AppError>)
    ensures
        rss_document(xml@) is None ==> (r matches Err(e) && e is RssParsing),
        rss_document(xml@) matches Some(d) ==> (item_with_guid(d.items@, guid@, 0) is None <==> (
        r matches Err(e) && e is NotFound)),
        rss_document(xml@) matches Some(d) ==> (item_with_guid(d.items@, guid@, 0) is Some <==> r is Ok),
        r matches Ok(m) ==> exists|raw: RawItem|
            #[trigger] raw_is(
                rss_document(xml@)->0.items@[item_with_guid(
                    rss_document(xml@)->0.items@,
                    guid@,
                    0,
                )->0],
                raw,
            ) && media_urls_are(raw, m),
{
    match read_document(xml) {
        Err(e) => Err(AppError::RssParsing(rss_error_text(&e))),
        Ok(doc) => match find_by_guid(&doc.items, guid) {
            Some(i) => {
                let raw = raw_item(&doc.items[i]);
                let m = extract_all_media_urls(&raw.media_contents, &raw.enclosure);
                assert(raw_is(doc.items@[i as int], raw) && media_urls_are(raw, m));
                let ghost d = rss_document(xml@)->0;
                assert(d == doc);
                assert(item_with_guid(d.items@, guid@, 0) == Some(i as int));
                assert(raw_is(d.items@[item_with_guid(d.items@, guid@, 0)->0], raw));
                Ok(m)
            },
            None => Err(
                AppError::NotFound(
                    "Episode with GUID '".to_owned().concat(guid).concat("' not found in RSS"),
                ),
            ),
        },
    }
}

/// Reads an RSS document, choosing for each item the best available audio.
pub fn parse_rss(xml: &str) -> (r: Result<ParsedFeed, AppError>)
    ensures
        r is Ok <==> rss_document(xml@) is Some,
        r matches Err(e) ==> e is RssParsing,
        r matches Ok(f) ==> {
            let d = rss_document(xml@)->0;
            &&& f.title@ == d.title@
            &&& opt_text(f.description) == Some(d.description@)
            &&& f.items@.len() == d.items@.len()
            &&& forall|i: int|
                0 <= i < f.items@.len() ==> read_item_is(d.items@[i], "enclosure"@, #[trigger] f.items@[i])
        },
{
    parse_rss_with_quality(xml, "enclosure")
}

} // verus!
