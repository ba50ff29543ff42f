//! The namespaced extension elements of a feed item (`media:group`,
//! `media:thumbnail`, ...) and the media variants read from them.
use vstd::prelude::*;
use crate::media::{opt_text, MediaContent};
use crate::text::str_equals;

verus! {

/// An extension element: its text, its attributes and its children by name.
#[derive(Debug)]
pub struct ExtElement {
    pub value: Option<String>,
    pub attrs: Vec<(String, String)>,
    pub children: Vec<ExtGroup>,
}

/// The extension elements of one name, in document order.
#[derive(Debug)]
pub struct ExtGroup {
    pub name: String,
    pub elements: Vec<ExtElement>,
}

/// The extension elements of one namespace prefix, by name.
#[derive(Debug)]
pub struct ExtNamespace {
    pub prefix: String,
    pub groups: Vec<ExtGroup>,
}

/// The first group from index `i` on named `name`.
pub open spec fn group_from(gs: Seq<ExtGroup>, name: Seq<char>, i: int) -> Option<int>
    decreases gs.len() - i,
{
    if i < 0 || i >= gs.len() {
        None
    } else if gs[i].name@ == name {
        Some(i)
    } else {
        group_from(gs, name, i + 1)
    }
}

/// The first namespace from index `i` on with prefix `prefix`.
pub open spec fn namespace_from(ns: Seq<ExtNamespace>, prefix: Seq<char>, i: int) -> Option<int>
    decreases ns.len() - i,
{
    if i < 0 || i >= ns.len() {
        None
    } else if ns[i].prefix@ == prefix {
        Some(i)
    } else {
        namespace_from(ns, prefix, i + 1)
    }
}

/// The value of the first attribute from index `i` on named `key`.
pub open spec fn attr_from(attrs: Seq<(String, String)>, key: Seq<char>, i: int) -> Option<
    Seq<char>,
>
    decreases attrs.len() - i,
{
    if i < 0 || i >= attrs.len() {
        None
    } else if attrs[i].0@ == key {
        Some(attrs[i].1@)
    } else {
        attr_from(attrs, key, i + 1)
    }
}

/// The elements of `gs` named `name`.
pub open spec fn named(gs: Seq<ExtGroup>, name: Seq<char>) -> Seq<ExtElement> {
    match group_from(gs, name, 0) {
        Some(i) => gs[i].elements@,
        None => Seq::empty(),
    }
}

/// The elements named `name` of namespace `prefix`.
pub open spec fn in_namespace(ns: Seq<ExtNamespace>, prefix: Seq<char>, name: Seq<char>) -> Seq<
    ExtElement,
> {
    match namespace_from(ns, prefix, 0) {
        Some(i) => named(ns[i].groups@, name),
        None => Seq::empty(),
    }
}

/// The `content` children of each element, in order.
pub open spec fn contents_of(es: Seq<ExtElement>) -> Seq<ExtElement>
    decreases es.len(),
{
    if es.len() == 0 {
        Seq::empty()
    } else {
        contents_of(es.drop_last()) + named(es.last().children@, "content"@)
    }
}

/// The `media:content` elements of every `media:group`.
pub open spec fn media_group_contents(ns: Seq<ExtNamespace>) -> Seq<ExtElement> {
    contents_of(in_namespace(ns, "media"@, "group"@))
}

/// The text of the first `title` child of an element.
pub open spec fn title_text(e: ExtElement) -> Option<Seq<char>> {
    let ts = named(e.children@, "title"@);
    if ts.len() > 0 {
        opt_text(ts[0].value)
    } else {
        None
    }
}

/// A media variant holds the `url`, `type` and `fileSize` attributes and
/// the `title` text of its element.
pub open spec fn content_is(c: MediaContent, e: ExtElement) -> bool {
    &&& opt_text(c.url) == attr_from(e.attrs@, "url"@, 0)
    &&& opt_text(c.mime_type) == attr_from(e.attrs@, "type"@, 0)
    &&& opt_text(c.title) == title_text(e)
    &&& opt_text(c.file_size) == attr_from(e.attrs@, "fileSize"@, 0)
}

fn find_group(gs: &Vec<ExtGroup>, name: &str) -> (r: Option<usize>)
    ensures
        r matches Some(i) ==> i < gs@.len() && group_from(gs@, name@, 0) == Some(i as int),
        r is None ==> group_from(gs@, name@, 0) is None,
{
    let mut i: usize = 0;
    while i < gs.len()
        invariant
            i <= gs.len(),
            group_from(gs@, name@, 0) == group_from(gs@, name@, i as int),
        decreases gs.len() - i,
    {
        if str_equals(gs[i].name.as_str(), name) {
            return Some(i);
        }
        i = i + 1;
    }
    None
}

fn find_namespace(ns: &Vec<ExtNamespace>, prefix: &str) -> (r: Option<usize>)
    ensures
        r matches Some(i) ==> i < ns@.len() && namespace_from(ns@, prefix@, 0) == Some(i as int),
        r is None ==> namespace_from(ns@, prefix@, 0) is None,
{
    let mut i: usize = 0;
    while i < ns.len()
        invariant
            i <= ns.len(),
            namespace_from(ns@, prefix@, 0) == namespace_from(ns@, prefix@, i as int),
        decreases ns.len() - i,
    {
        if str_equals(ns[i].prefix.as_str(), prefix) {
            return Some(i);
        }
        i = i + 1;
    }
    None
}

/// The value of attribute `key`.
pub fn attribute(attrs: &Vec<(String, String)>, key: &str) -> (r: Option<String>)
    ensures
        opt_text(r) == attr_from(attrs@, key@, 0),
{
    let mut i: usize = 0;
    while i < attrs.len()
        invariant
            i <= attrs.len(),
            attr_from(attrs@, key@, 0) == attr_from(attrs@, key@, i as int),
        decreases attrs.len() - i,
    {
        if str_equals(attrs[i].0.as_str(), key) {
            return Some(attrs[i].1.clone());
        }
        i = i + 1;
    }
    None
}

/// The elements of `gs` named `name`.
pub fn elements_named<'a>(gs: &'a Vec<ExtGroup>, name: &str) -> (r: Option<&'a Vec<ExtElement>>)
    ensures
        r matches Some(v) ==> v@ == named(gs@, name@),
        r is None ==> named(gs@, name@).len() == 0,
{
    match find_group(gs, name) {
        Some(i) => Some(&gs[i].elements),
        None => None,
    }
}

/// The media variant an element describes.
pub fn media_content_of(e: &ExtElement) -> (r: MediaContent)
    ensures
        content_is(r, *e),
{
    let title = match elements_named(&e.children, "title") {
        Some(ts) => if ts.len() > 0 {
            crate::media::clone_text(&ts[0].value)
        } else {
            None
        },
        None => None,
    };
    MediaContent {
        url: attribute(&e.attrs, "url"),
        mime_type: attribute(&e.attrs, "type"),
        title,
        file_size: attribute(&e.attrs, "fileSize"),
    }
}

/// The media variants an item offers: every `media:content` of every
/// `media:group`, in document order.
pub fn media_contents(ns: &Vec<ExtNamespace>) -> (r: Vec<MediaContent>)
    ensures
        r@.len() == media_group_contents(ns@).len(),
        forall|i: int|
            0 <= i < r@.len() ==> content_is(#[trigger] r@[i], media_group_contents(ns@)[i]),
{
    let mut out: Vec<MediaContent> = Vec::new();
    let groups = match find_namespace(ns, "media") {
        Some(p) => elements_named(&ns[p].groups, "group"),
        None => None,
    };
    let ghost gs = in_namespace(ns@, "media"@, "group"@);
    match groups {
        None => {
            assert(gs.len() == 0);
            out
        },
        Some(gv) => {
            assert(gv@ == gs);
            let mut k: usize = 0;
            while k < gv.len()
                invariant
                    gv@ == gs,
                    k <= gv.len(),
                    out@.len() == contents_of(gs.subrange(0, k as int)).len(),
                    forall|i: int|
                        0 <= i < out@.len() ==> content_is(
                            #[trigger] out@[i],
                            contents_of(gs.subrange(0, k as int))[i],
                        ),
                decreases gv.len() - k,
            {
                assert(gs.subrange(0, k + 1).drop_last() =~= gs.subrange(0, k as int));
                let ghost before = contents_of(gs.subrange(0, k as int));
                let ghost old_len = out@.len();
                match elements_named(&gv[k].children, "content") {
                    Some(cs) => {
                        let mut j: usize = 0;
                        while j < cs.len()
                            invariant
                                k < gv.len(),
                                cs@ == named(gv@[k as int].children@, "content"@),
                                j <= cs.len(),
                                old_len == before.len(),
                                out@.len() == old_len + j,
                                forall|i: int|
                                    0 <= i < old_len ==> content_is(#[trigger] out@[i], before[i]),
                                forall|i: int|
                                    old_len <= i < out@.len() ==> content_is(
                                        #[trigger] out@[i],
                                        cs@[i - old_len],
                                    ),
                            decreases cs.len() - j,
                        {
                            let c = media_content_of(&cs[j]);
                            out.push(c);
                            j = j + 1;
                        }
                        let ghost now = contents_of(gs.subrange(0, k + 1));
                        assert(now == before + cs@);
                        assert forall|i: int| 0 <= i < out@.len() implies content_is(
                            #[trigger] out@[i],
                            now[i],
                        ) by {
                            if i < old_len {
                                assert(now[i] == before[i]);
                            } else {
                                assert(now[i] == cs@[i - old_len]);
                            }
                        }
                    },
                    None => {
                        assert(contents_of(gs.subrange(0, k + 1)) =~= before);
                    },
                }
                k = k + 1;
            }
            assert(gs.subrange(0, gs.len() as int) =~= gs);
            out
        },
    }
}

/// The `url` attribute of an item's first `media:thumbnail`.
pub open spec fn thumbnail_of(ns: Seq<ExtNamespace>) -> Option<Seq<char>> {
    let ts = in_namespace(ns, "media"@, "thumbnail"@);
    if ts.len() > 0 {
        attr_from(ts[0].attrs@, "url"@, 0)
    } else {
        None
    }
}

/// The picture an item's first `media:thumbnail` points to.
pub fn thumbnail_url(ns: &Vec<ExtNamespace>) -> (r: Option<String>)
    ensures
        opt_text(r) == thumbnail_of(ns@),
{
    let thumbs = match find_namespace(ns, "media") {
        Some(p) => elements_named(&ns[p].groups, "thumbnail"),
        None => None,
    };
    match thumbs {
        Some(ts) => if ts.len() > 0 {
            attribute(&ts[0].attrs, "url")
        } else {
            None
        },
        None => None,
    }
}

} // verus!
