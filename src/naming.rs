//! Naming policy: where a downloaded episode is written.
use vstd::prelude::*;
use vstd::utf8::is_ascii_chars;
use crate::text::{
    chars_of, replace_all, replace_spec, same_chars, split_chars, split_spec,
    string_from, str_equals, views_of,
};

verus! {

/// Characters that cannot stand in a file name on common file systems.
pub open spec fn is_reserved(c: char) -> bool {
    c == '/' || c == '\\' || c == ':' || c == '*' || c == '?' || c == '"' || c == '<' || c == '>'
        || c == '|'
}

/// Unicode `White_Space`, the set that `char::is_whitespace` tests.
pub open spec fn is_space(c: char) -> bool {
    let u = c as u32;
    (0x9 <= u && u <= 0xd) || u == 0x20 || u == 0x85 || u == 0xa0 || u == 0x1680 || (0x2000 <= u
        && u <= 0x200a) || u == 0x2028 || u == 0x2029 || u == 0x202f || u == 0x205f || u == 0x3000
}

pub open spec fn unreserved(c: char) -> char {
    if is_reserved(c) {
        '_'
    } else {
        c
    }
}

/// The words of `s` (maximal runs without whitespace) joined by single spaces.
pub open spec fn squash(s: Seq<char>) -> Seq<char>
    decreases s.len(),
{
    if s.len() == 0 {
        Seq::empty()
    } else if is_space(s.last()) {
        squash(s.drop_last())
    } else {
        let p = s.drop_last();
        let q = squash(p);
        if p.len() > 0 && is_space(p.last()) && q.len() > 0 {
            q.push(' ').push(s.last())
        } else {
            q.push(s.last())
        }
    }
}

/// The longest name kept, in characters.
pub const NAME_LIMIT: usize = 200;

/// A name with reserved characters replaced by `_`, whitespace collapsed and
/// at most `NAME_LIMIT` characters kept.
pub open spec fn sanitized(s: Seq<char>) -> Seq<char> {
    let t = squash(s.map_values(|c: char| unreserved(c)));
    if t.len() > NAME_LIMIT {
        t.subrange(0, NAME_LIMIT as int)
    } else {
        t
    }
}

fn is_space_exec(c: char) -> (r: bool)
    ensures
        r == is_space(c),
{
    let u = c as u32;
    (0x9 <= u && u <= 0xd) || u == 0x20 || u == 0x85 || u == 0xa0 || u == 0x1680 || (0x2000 <= u
        && u <= 0x200a) || u == 0x2028 || u == 0x2029 || u == 0x202f || u == 0x205f || u == 0x3000
}

/// Makes `name` usable as a file name.
pub fn sanitize_filename(name: &str) -> (r: String)
    ensures
        r@ == sanitized(name@),
{
    let cs = chars_of(name);
    let mut m: Vec<char> = Vec::new();
    let mut i: usize = 0;
    while i < cs.len()
        invariant
            i <= cs.len(),
            m@ == cs@.subrange(0, i as int).map_values(|c: char| unreserved(c)),
        decreases cs.len() - i,
    {
        let c = cs[i];
        let d = if c == '/' || c == '\\' || c == ':' || c == '*' || c == '?' || c == '"' || c == '<'
            || c == '>' || c == '|' {
            '_'
        } else {
            c
        };
        m.push(d);
        i = i + 1;
        assert(m@ =~= cs@.subrange(0, i as int).map_values(|c: char| unreserved(c)));
    }
    assert(cs@.subrange(0, cs@.len() as int) =~= cs@);
    let mut out: Vec<char> = Vec::new();
    let mut j: usize = 0;
    while j < m.len()
        invariant
            j <= m.len(),
            out@ == squash(m@.subrange(0, j as int)),
        decreases m.len() - j,
    {
        let c = m[j];
        let ghost pre = m@.subrange(0, j as int);
        assert(m@.subrange(0, j + 1).drop_last() =~= pre);
        if !is_space_exec(c) {
            if j > 0 && is_space_exec(m[j - 1]) && out.len() > 0 {
                out.push(' ');
            }
            out.push(c);
        }
        j = j + 1;
    }
    assert(m@.subrange(0, m@.len() as int) =~= m@);
    let n = if out.len() > NAME_LIMIT {
        NAME_LIMIT
    } else {
        out.len()
    };
    let mut kept: Vec<char> = Vec::new();
    let mut k: usize = 0;
    while k < n
        invariant
            n <= out.len(),
            k <= n,
            kept@ == out@.subrange(0, k as int),
        decreases n - k,
    {
        kept.push(out[k]);
        k = k + 1;
        assert(kept@ =~= out@.subrange(0, k as int));
    }
    assert(out@.subrange(0, out@.len() as int) =~= out@);
    string_from(&kept)
}

/// The file extension for a declared MIME type; `mp3` for any type not in
/// the table.
pub open spec fn mime_extension(m: Seq<char>) -> Seq<char> {
    if m == "audio/mpeg"@ {
        "mp3"@
    } else if m == "audio/mp4"@ {
        "m4a"@
    } else if m == "audio/ogg"@ {
        "ogg"@
    } else if m == "audio/wav"@ {
        "wav"@
    } else if m == "audio/flac"@ {
        "flac"@
    } else if m == "audio/aac"@ {
        "aac"@
    } else {
        "mp3"@
    }
}

/// The file extension for a MIME type.
pub fn extension_from_mime(mime_type: &str) -> (r: String)
    ensures
        r@ == mime_extension(mime_type@),
{
    if str_equals(mime_type, "audio/mpeg") {
        "mp3".to_owned()
    } else if str_equals(mime_type, "audio/mp4") {
        "m4a".to_owned()
    } else if str_equals(mime_type, "audio/ogg") {
        "ogg".to_owned()
    } else if str_equals(mime_type, "audio/wav") {
        "wav".to_owned()
    } else if str_equals(mime_type, "audio/flac") {
        "flac".to_owned()
    } else if str_equals(mime_type, "audio/aac") {
        "aac".to_owned()
    } else {
        "mp3".to_owned()
    }
}

/// What `str::to_lowercase` returns for a text.
pub uninterp spec fn lower_of(s: Seq<char>) -> Seq<char>;

/// What `char::is_alphanumeric` returns for a character.
pub uninterp spec fn alnum_char(c: char) -> bool;

pub open spec fn ascii_lower(c: char) -> char {
    if 'A' <= c && c <= 'Z' {
        ((c as u32) + 32) as char
    } else {
        c
    }
}

pub open spec fn ascii_alnum(c: char) -> bool {
    ('a' <= c && c <= 'z') || ('A' <= c && c <= 'Z') || ('0' <= c && c <= '9')
}

/// Relies on `str::to_lowercase`: Unicode lower-casing, a function of the
/// text alone, which maps ASCII letters to their lower case and keeps every
/// other ASCII character.
#[verifier::external_body]
pub(crate) fn lowercase(s: &str) -> (r: String)
    ensures
        r@ == lower_of(s@),
        is_ascii_chars(s@) ==> r@ == s@.map_values(|c: char| ascii_lower(c)),
{
    s.to_lowercase()
}

/// Relies on `char::is_alphanumeric`: Unicode letters and numbers, which
/// among ASCII characters are exactly the letters and digits.
#[verifier::external_body]
fn is_alphanumeric(c: char) -> (r: bool)
    ensures
        r == alnum_char(c),
        (c as u32) < 0x80 ==> (r <==> ascii_alnum(c)),
{
    c.is_alphanumeric()
}

/// The number of bytes of `c` in UTF-8.
pub open spec fn utf8_width(c: char) -> int {
    let u = c as u32;
    if u < 0x80 {
        1
    } else if u < 0x800 {
        2
    } else if u < 0x10000 {
        3
    } else {
        4
    }
}

/// The number of bytes of `s` in UTF-8.
pub open spec fn utf8_len(s: Seq<char>) -> int
    decreases s.len(),
{
    if s.len() == 0 {
        0
    } else {
        utf8_len(s.drop_last()) + utf8_width(s.last())
    }
}

/// The last `.`-separated piece of the part of `url` before its first `?`.
pub open spec fn url_tail(url: Seq<char>) -> Seq<char> {
    split_spec(split_spec(url, '?')[0], '.').last()
}

/// The extension a URL ends in: its tail, lower-cased, where that is one to
/// five bytes of letters and digits.
pub open spec fn url_extension(url: Seq<char>) -> Option<Seq<char>> {
    let e = url_tail(url);
    if 1 <= e.len() && utf8_len(e) <= 5 && forall|i: int| 0 <= i < e.len() ==> alnum_char(
        #[trigger] e[i],
    ) {
        Some(lower_of(e))
    } else {
        None
    }
}

proof fn lemma_utf8_len_nonneg(s: Seq<char>)
    ensures
        utf8_len(s) >= s.len(),
    decreases s.len(),
{
    if s.len() > 0 {
        lemma_utf8_len_nonneg(s.drop_last());
    }
}

/// The extension that `url` ends in, if it has a short alphanumeric one.
pub fn extract_extension(url: &str) -> (r: Option<String>)
    ensures
        r is Some <==> url_extension(url@) is Some,
        r matches Some(e) ==> e@ == url_extension(url@)->0,
{
    let cs = chars_of(url);
    let parts = split_chars(&cs, '?');
    proof {
        crate::text::lemma_split_nonempty(cs@, '?');
    }
    assert(views_of(parts@)[0] == parts@[0]@);
    let pieces = split_chars(&parts[0], '.');
    proof {
        crate::text::lemma_split_nonempty(parts@[0]@, '.');
    }
    let last = pieces.len() - 1;
    assert(views_of(pieces@)[last as int] == pieces@[last as int]@);
    let e = &pieces[last];
    let ghost ev = e@;
    assert(ev == url_tail(url@));
    if e.len() == 0 {
        return None;
    }
    let mut bytes: usize = 0;
    let mut i: usize = 0;
    while i < e.len()
        invariant
            ev == e@,
            ev == url_tail(url@),
            i <= e.len(),
            bytes <= 5,
            bytes == utf8_len(e@.subrange(0, i as int)),
            forall|k: int| 0 <= k < i ==> alnum_char(#[trigger] e@[k]),
        decreases e.len() - i,
    {
        let c = e[i];
        assert(e@.subrange(0, i + 1).drop_last() =~= e@.subrange(0, i as int));
        let u = c as u32;
        let w: usize = if u < 0x80 {
            1
        } else if u < 0x800 {
            2
        } else if u < 0x10000 {
            3
        } else {
            4
        };
        assert(utf8_len(e@.subrange(0, i + 1)) == bytes + w);
        if bytes + w > 5 {
            proof {
                let rest = e@.subrange(i + 1, e@.len() as int);
                lemma_utf8_len_sum(e@.subrange(0, i + 1), rest);
                assert(e@.subrange(0, i + 1) + rest =~= e@);
                lemma_utf8_len_nonneg(rest);
            }
            return None;
        }
        if !is_alphanumeric(c) {
            assert(!alnum_char(ev[i as int]));
            return None;
        }
        bytes = bytes + w;
        i = i + 1;
    }
    assert(e@.subrange(0, e@.len() as int) =~= e@);
    let es = string_from(e);
    Some(lowercase(es.as_str()))
}

proof fn lemma_utf8_len_sum(a: Seq<char>, b: Seq<char>)
    ensures
        utf8_len(a + b) == utf8_len(a) + utf8_len(b),
    decreases b.len(),
{
    if b.len() == 0 {
        assert(a + b =~= a);
    } else {
        lemma_utf8_len_sum(a, b.drop_last());
        assert((a + b).drop_last() =~= a + b.drop_last());
    }
}

/// The extension a file gets: from the declared MIME type where there is one,
/// else from the URL, else `mp3`.
pub open spec fn resolved_extension(mime_type: Option<Seq<char>>, url: Seq<char>) -> Seq<char> {
    match mime_type {
        Some(m) => mime_extension(m),
        None => match url_extension(url) {
            Some(e) => e,
            None => "mp3"@,
        },
    }
}

/// The extension for a media file from its MIME type and URL.
pub fn resolve_extension(mime_type: &Option<String>, url: &str) -> (r: String)
    ensures
        r@ == resolved_extension(
            match mime_type {
                Some(m) => Some(m@),
                None => None,
            },
            url@,
        ),
{
    match mime_type {
        Some(m) => extension_from_mime(m.as_str()),
        None => match extract_extension(url) {
            Some(e) => e,
            None => "mp3".to_owned(),
        },
    }
}

/// A file name template filled in: `{show}`, `{episode}` and `{date}` are
/// replaced, in that order, by the sanitised show name, the sanitised episode
/// title and the date text.
pub open spec fn rendered(
    format: Seq<char>,
    show: Seq<char>,
    episode: Seq<char>,
    date: Seq<char>,
) -> Seq<char> {
    replace_spec(
        replace_spec(
            replace_spec(format, "{show}"@, sanitized(show)),
            "{episode}"@,
            sanitized(episode),
        ),
        "{date}"@,
        date,
    )
}

/// Fills in a file name template with a given date text.
pub fn render_filename(
    format: &str,
    subscription_name: &str,
    episode_title: &str,
    date_text: &str,
) -> (r: String)
    ensures
        r@ == rendered(format@, subscription_name@, episode_title@, date_text@),
{
    proof {
        reveal_strlit("{show}");
        reveal_strlit("{episode}");
        reveal_strlit("{date}");
    }
    let show = chars_of(sanitize_filename(subscription_name).as_str());
    let episode = chars_of(sanitize_filename(episode_title).as_str());
    let date = chars_of(date_text);
    let f = chars_of(format);
    let a = replace_all(&f, &chars_of("{show}"), &show);
    let b = replace_all(&a, &chars_of("{episode}"), &episode);
    let c = replace_all(&b, &chars_of("{date}"), &date);
    string_from(&c)
}

/// The calendar day, `YYYY-MM-DD` in UTC, of a Unix time in seconds, as
/// chrono formats it; `None` outside chrono's range of times.
pub uninterp spec fn utc_day_of(secs: i64) -> Option<Seq<char>>;

/// Relies on chrono's `DateTime::from_timestamp` and its `%Y-%m-%d` format.
#[verifier::external_body]
fn utc_day(secs: i64) -> (r: Option<String>)
    ensures
        r is Some <==> utc_day_of(secs) is Some,
        r matches Some(t) ==> t@ == utc_day_of(secs)->0,
{
    chrono::DateTime::from_timestamp(secs, 0).map(|d| d.format("%Y-%m-%d").to_string())
}

/// The date text used where an episode has no known date.
pub open spec fn unknown_date() -> Seq<char> {
    "unknown-date"@
}

/// The date text for an optional publication time.
pub open spec fn date_text(pub_date: Option<i64>) -> Seq<char> {
    match pub_date {
        Some(t) => match utc_day_of(t) {
            Some(d) => d,
            None => unknown_date(),
        },
        None => unknown_date(),
    }
}

/// Fills in a file name template, dating it by the publication time.
pub fn apply_filename_format(
    format: &str,
    subscription_name: &str,
    episode_title: &str,
    pub_date: Option<i64>,
) -> (r: String)
    ensures
        r@ == rendered(format@, subscription_name@, episode_title@, date_text(pub_date)),
{
    let day = match pub_date {
        Some(t) => utc_day(t),
        None => None,
    };
    match day {
        Some(d) => render_filename(format, subscription_name, episode_title, d.as_str()),
        None => render_filename(format, subscription_name, episode_title, "unknown-date"),
    }
}

pub open spec fn digit_char(n: int) -> char {
    if n == 0 {
        '0'
    } else if n == 1 {
        '1'
    } else if n == 2 {
        '2'
    } else if n == 3 {
        '3'
    } else if n == 4 {
        '4'
    } else if n == 5 {
        '5'
    } else if n == 6 {
        '6'
    } else if n == 7 {
        '7'
    } else if n == 8 {
        '8'
    } else {
        '9'
    }
}

/// `n` written in decimal.
pub open spec fn decimal_text(n: nat) -> Seq<char>
    decreases n,
{
    if n < 10 {
        seq![digit_char(n as int)]
    } else {
        decimal_text(n / 10).push(digit_char((n % 10) as int))
    }
}

proof fn lemma_decimal_text_len(n: nat)
    ensures
        decimal_text(n).len() >= 1,
        n >= 10 ==> decimal_text(n).len() >= 2,
    decreases n,
{
    if n >= 10 {
        lemma_decimal_text_len(n / 10);
    }
}

proof fn lemma_decimal_text_injective(a: nat, b: nat)
    requires
        decimal_text(a) == decimal_text(b),
    ensures
        a == b,
    decreases a,
{
    lemma_decimal_text_len(a);
    lemma_decimal_text_len(b);
    if a >= 10 && b >= 10 {
        assert(decimal_text(a).drop_last() =~= decimal_text(a / 10));
        assert(decimal_text(b).drop_last() =~= decimal_text(b / 10));
        assert(decimal_text(a).last() == digit_char((a % 10) as int));
        assert(decimal_text(b).last() == digit_char((b % 10) as int));
        lemma_decimal_text_injective(a / 10, b / 10);
    } else if a < 10 && b < 10 {
        assert(decimal_text(a)[0] == digit_char(a as int));
        assert(decimal_text(b)[0] == digit_char(b as int));
    }
}

fn digit_char_exec(n: u128) -> (c: char)
    requires
        n < 10,
    ensures
        c == digit_char(n as int),
{
    if n == 0 {
        '0'
    } else if n == 1 {
        '1'
    } else if n == 2 {
        '2'
    } else if n == 3 {
        '3'
    } else if n == 4 {
        '4'
    } else if n == 5 {
        '5'
    } else if n == 6 {
        '6'
    } else if n == 7 {
        '7'
    } else if n == 8 {
        '8'
    } else {
        '9'
    }
}

pub(crate) fn decimal_chars(n: u128) -> (r: Vec<char>)
    ensures
        r@ == decimal_text(n as nat),
    decreases n,
{
    if n < 10 {
        let mut v: Vec<char> = Vec::new();
        v.push(digit_char_exec(n));
        assert(v@ =~= decimal_text(n as nat));
        v
    } else {
        let mut v = decimal_chars(n / 10);
        v.push(digit_char_exec(n % 10));
        v
    }
}

/// `stem.ext`.
pub open spec fn plain_name(stem: Seq<char>, ext: Seq<char>) -> Seq<char> {
    stem + seq!['.'] + ext
}

/// `.ext`, or nothing where the extension is empty.
pub open spec fn dotted(ext: Seq<char>) -> Seq<char> {
    if ext.len() == 0 {
        Seq::empty()
    } else {
        seq!['.'] + ext
    }
}

/// `stem_k.ext` (`stem_k` where the extension is empty).
pub open spec fn numbered_name(stem: Seq<char>, k: nat, ext: Seq<char>) -> Seq<char> {
    stem + seq!['_'] + decimal_text(k) + dotted(ext)
}

proof fn lemma_numbered_injective(stem: Seq<char>, a: nat, b: nat, ext: Seq<char>)
    requires
        numbered_name(stem, a, ext) == numbered_name(stem, b, ext),
    ensures
        a == b,
{
    let na = numbered_name(stem, a, ext);
    let da = decimal_text(a);
    let db = decimal_text(b);
    let lo: int = stem.len() as int + 1;
    assert(na.len() == stem.len() + 1 + da.len() + dotted(ext).len());
    assert(numbered_name(stem, b, ext).len() == stem.len() + 1 + db.len() + dotted(ext).len());
    assert(na.subrange(lo, lo + da.len() as int) =~= da);
    assert(numbered_name(stem, b, ext).subrange(lo, lo + db.len() as int) =~= db);
    lemma_decimal_text_injective(a, b);
}

/// The names of existing files, as character sequences.
pub open spec fn names_of(v: Seq<String>) -> Seq<Seq<char>> {
    v.map_values(|s: String| s@)
}

/// The first `stem_k.ext` with `k >= from` that is not taken. (The bound on
/// `k` only makes the definition total: a free name always comes before it.)
pub open spec fn first_free(stem: Seq<char>, ext: Seq<char>, taken: Seq<Seq<char>>, from: int) -> Seq<
    char,
>
    decreases taken.len() + 3 - from,
{
    if from >= taken.len() + 3 || !taken.contains(numbered_name(stem, from as nat, ext)) {
        numbered_name(stem, from as nat, ext)
    } else {
        first_free(stem, ext, taken, from + 1)
    }
}

/// The file name chosen: `stem.ext` if it is free, else the first free
/// `stem_k.ext` with `k` from 2 up.
pub open spec fn free_name(stem: Seq<char>, ext: Seq<char>, taken: Seq<Seq<char>>) -> Seq<char> {
    if taken.contains(plain_name(stem, ext)) {
        first_free(stem, ext, taken, 2)
    } else {
        plain_name(stem, ext)
    }
}

pub(crate) fn is_taken(name: &Vec<char>, existing: &Vec<String>) -> (r: bool)
    ensures
        r == names_of(existing@).contains(name@),
{
    let mut i: usize = 0;
    while i < existing.len()
        invariant
            i <= existing.len(),
            forall|k: int| 0 <= k < i ==> existing@[k]@ != name@,
        decreases existing.len() - i,
    {
        let e = chars_of(existing[i].as_str());
        if same_chars(&e, name) {
            assert(names_of(existing@)[i as int] == name@);
            return true;
        }
        i = i + 1;
    }
    assert forall|k: int| 0 <= k < names_of(existing@).len() implies names_of(existing@)[k]
        != name@ by {
        assert(names_of(existing@)[k] == existing@[k]@);
    }
    false
}

fn numbered(stem: &Vec<char>, k: u128, ext: &Vec<char>) -> (r: Vec<char>)
    ensures
        r@ == numbered_name(stem@, k as nat, ext@),
{
    let mut r = stem.clone();
    r.push('_');
    let d = decimal_chars(k);
    let mut i: usize = 0;
    let ghost base = r@;
    while i < d.len()
        invariant
            i <= d.len(),
            r@ == base + d@.subrange(0, i as int),
        decreases d.len() - i,
    {
        r.push(d[i]);
        i = i + 1;
        assert(r@ =~= base + d@.subrange(0, i as int));
    }
    if ext.len() > 0 {
        r.push('.');
    }
    let ghost mid = r@;
    let mut j: usize = 0;
    while j < ext.len()
        invariant
            j <= ext.len(),
            r@ == mid + ext@.subrange(0, j as int),
        decreases ext.len() - j,
    {
        r.push(ext[j]);
        j = j + 1;
        assert(r@ =~= mid + ext@.subrange(0, j as int));
    }
    assert(r@ =~= numbered_name(stem@, k as nat, ext@));
    r
}

/// The first name `stem_k.ext`, `k` from 2 up, that is not among `existing`.
pub fn handle_duplicate(stem: &str, extension: &str, existing: &Vec<String>) -> (r: String)
    ensures
        r@ == first_free(stem@, extension@, names_of(existing@), 2),
        !names_of(existing@).contains(r@),
{
    let s = chars_of(stem);
    let e = chars_of(extension);
    let ghost taken = names_of(existing@);
    let ghost mut seen: Set<Seq<char>> = Set::empty();
    let mut k: u128 = 2;
    let n = existing.len();
    proof {
        taken.lemma_cardinality_of_set();
    }
    loop
        invariant
            taken == names_of(existing@),
            taken.len() == existing@.len(),
            n == existing@.len(),
            s@ == stem@,
            e@ == extension@,
            2 <= k,
            k <= taken.len() + 2,
            first_free(s@, e@, taken, 2) == first_free(s@, e@, taken, k as int),
            seen.finite(),
            seen.len() == k - 2,
            seen.subset_of(taken.to_set()),
            forall|x: Seq<char>|
                #[trigger] seen.contains(x) ==> exists|j: nat|
                    2 <= j < k && x == numbered_name(s@, j, e@),
            taken.to_set().len() <= taken.len(),
        decreases taken.len() + 2 - k,
    {
        let cand = numbered(&s, k, &e);
        if !is_taken(&cand, existing) {
            let r = string_from(&cand);
            return r;
        }
        proof {
            assert(!seen.contains(cand@)) by {
                if seen.contains(cand@) {
                    let j = choose|j: nat| 2 <= j < k && cand@ == numbered_name(s@, j, e@);
                    lemma_numbered_injective(s@, j, k as nat, e@);
                }
            }
            seen = seen.insert(cand@);
            assert(taken.to_set().contains(cand@));
            vstd::set_lib::lemma_len_subset(seen, taken.to_set());
        }
        k = k + 1;
    }
}

/// `name` placed under the directory `base`, separated by one `/` (a name
/// that starts with `/` stays under `base` too).
pub open spec fn joined(base: Seq<char>, name: Seq<char>) -> Seq<char> {
    if base.len() == 0 {
        name
    } else if base.last() == '/' {
        base + name
    } else {
        base + seq!['/'] + name
    }
}

fn join_path(base: &Vec<char>, name: &Vec<char>) -> (r: Vec<char>)
    ensures
        r@ == joined(base@, name@),
{
    let mut r: Vec<char> = base.clone();
    if base.len() > 0 && base[base.len() - 1] != '/' {
        r.push('/');
    }
    let ghost start = r@;
    let mut i: usize = 0;
    while i < name.len()
        invariant
            i <= name.len(),
            r@ == start + name@.subrange(0, i as int),
        decreases name.len() - i,
    {
        r.push(name[i]);
        i = i + 1;
        assert(r@ =~= start + name@.subrange(0, i as int));
    }
    assert(name@.subrange(0, name@.len() as int) =~= name@);
    if base.len() == 0 {
        assert(r@ =~= name@);
    }
    r
}

/// The extension a URL ends in, `mp3` where it ends in none.
pub open spec fn url_ext_or_mp3(audio_url: Seq<char>) -> Seq<char> {
    match url_extension(audio_url) {
        Some(e) => e,
        None => "mp3"@,
    }
}

/// The path for an episode: `<base>/<show>/<file name>`, the file name being
/// the filled-in template `stem` with the extension `ext`, numbered where it
/// is taken.
pub open spec fn output_path(
    base: Seq<char>,
    show: Seq<char>,
    stem: Seq<char>,
    ext: Seq<char>,
    taken: Seq<Seq<char>>,
) -> Seq<char> {
    joined(joined(base, sanitized(show)), free_name(stem, ext, taken))
}

fn path_with_extension(
    base_directory: &str,
    subscription_name: &str,
    episode_title: &str,
    pub_date: Option<i64>,
    ext: &str,
    filename_format: &str,
    existing: &Vec<String>,
) -> (r: String)
    ensures
        r@ == output_path(
            base_directory@,
            subscription_name@,
            rendered(filename_format@, subscription_name@, episode_title@, date_text(pub_date)),
            ext@,
            names_of(existing@),
        ),
{
    let show = chars_of(sanitize_filename(subscription_name).as_str());
    let stem = apply_filename_format(filename_format, subscription_name, episode_title, pub_date);
    let stem_chars = chars_of(stem.as_str());
    let ext_chars = chars_of(ext);
    let plain = {
        let mut p = stem_chars.clone();
        p.push('.');
        let ghost start = p@;
        let mut i: usize = 0;
        while i < ext_chars.len()
            invariant
                i <= ext_chars.len(),
                p@ == start + ext_chars@.subrange(0, i as int),
            decreases ext_chars.len() - i,
        {
            p.push(ext_chars[i]);
            i = i + 1;
            assert(p@ =~= start + ext_chars@.subrange(0, i as int));
        }
        assert(p@ =~= plain_name(stem_chars@, ext_chars@));
        p
    };
    let name = if is_taken(&plain, existing) {
        chars_of(handle_duplicate(stem.as_str(), ext, existing).as_str())
    } else {
        plain
    };
    let dir = join_path(&chars_of(base_directory), &show);
    let full = join_path(&dir, &name);
    string_from(&full)
}

/// The path to write an episode to, given the names of the files already in
/// the show's directory; the extension is the one `audio_url` ends in.
pub fn build_output_path_with_format(
    base_directory: &str,
    subscription_name: &str,
    episode_title: &str,
    pub_date: Option<i64>,
    audio_url: &str,
    filename_format: &str,
    existing: &Vec<String>,
) -> (r: String)
    ensures
        r@ == output_path(
            base_directory@,
            subscription_name@,
            rendered(filename_format@, subscription_name@, episode_title@, date_text(pub_date)),
            url_ext_or_mp3(audio_url@),
            names_of(existing@),
        ),
{
    let ext = match extract_extension(audio_url) {
        Some(e) => e,
        None => "mp3".to_owned(),
    };
    path_with_extension(
        base_directory,
        subscription_name,
        episode_title,
        pub_date,
        ext.as_str(),
        filename_format,
        existing,
    )
}

/// The path to write an episode to, named `{show}-{episode}`.
pub fn build_output_path(
    base_directory: &str,
    subscription_name: &str,
    episode_title: &str,
    pub_date: Option<i64>,
    audio_url: &str,
    existing: &Vec<String>,
) -> (r: String)
    ensures
        r@ == output_path(
            base_directory@,
            subscription_name@,
            rendered("{show}-{episode}"@, subscription_name@, episode_title@, date_text(pub_date)),
            url_ext_or_mp3(audio_url@),
            names_of(existing@),
        ),
{
    build_output_path_with_format(
        base_directory,
        subscription_name,
        episode_title,
        pub_date,
        audio_url,
        "{show}-{episode}",
        existing,
    )
}

/// The path for an episode's audio: the name is made from `filename_format`
/// and the extension is resolved from the declared MIME type, else the audio
/// URL, else `mp3`.
pub fn episode_output_path(
    output_directory: &str,
    subscription_name: &str,
    episode_title: &str,
    pub_date: Option<i64>,
    audio_type: &Option<String>,
    audio_url: &str,
    filename_format: &str,
    existing: &Vec<String>,
) -> (r: String)
    ensures
        r@ == output_path(
            output_directory@,
            subscription_name@,
            rendered(filename_format@, subscription_name@, episode_title@, date_text(pub_date)),
            resolved_extension(
                match audio_type {
                    Some(m) => Some(m@),
                    None => None,
                },
                audio_url@,
            ),
            names_of(existing@),
        ),
{
    let ext = resolve_extension(audio_type, audio_url);
    path_with_extension(
        output_directory,
        subscription_name,
        episode_title,
        pub_date,
        ext.as_str(),
        filename_format,
        existing,
    )
}

/// Naming is deterministic and free of collisions: against an empty
/// directory a name is `stem.ext`; once that exists, the next is `stem_2.ext`
/// (`stem_2` for an empty extension).
/// Whatever is taken, the name chosen is not.
pub proof fn lemma_second_name_is_numbered(stem: Seq<char>, ext: Seq<char>, taken: Seq<Seq<char>>)
    ensures
        free_name(stem, ext, Seq::empty()) == plain_name(stem, ext),
        free_name(stem, ext, seq![plain_name(stem, ext)]) == numbered_name(stem, 2, ext),
        ext.len() > 0 ==> numbered_name(stem, 2, ext) == stem + seq!['_', '2', '.'] + ext,
        ext.len() == 0 ==> numbered_name(stem, 2, ext) == stem + seq!['_', '2'],
        !taken.contains(free_name(stem, ext, taken)),
{
    let one = seq![plain_name(stem, ext)];
    let n2 = numbered_name(stem, 2, ext);
    assert(decimal_text(2) =~= seq!['2']);
    assert(n2.len() != plain_name(stem, ext).len());
    assert(!one.contains(n2)) by {
        if one.contains(n2) {
            let j = choose|j: int| 0 <= j < one.len() && one[j] == n2;
            assert(one[j] == plain_name(stem, ext));
        }
    }
    assert(one.contains(plain_name(stem, ext))) by {
        assert(one[0] == plain_name(stem, ext));
    }
    assert(first_free(stem, ext, one, 2) == n2);
    if ext.len() > 0 {
        assert(n2 =~= stem + seq!['_', '2', '.'] + ext);
    } else {
        assert(n2 =~= stem + seq!['_', '2']);
    }
    lemma_free_name_is_free(stem, ext, taken);
}

/// The first free numbered name is free.
proof fn lemma_first_free_is_free(stem: Seq<char>, ext: Seq<char>, taken: Seq<Seq<char>>, from: int, seen: Set<Seq<char>>)
    requires
        2 <= from,
        seen.finite(),
        seen.len() == from - 2,
        seen.subset_of(taken.to_set()),
        forall|x: Seq<char>| #[trigger] seen.contains(x) ==> exists|j: nat| 2 <= j < from && x == numbered_name(stem, j, ext),
        taken.to_set().len() <= taken.len(),
    ensures
        !taken.contains(first_free(stem, ext, taken, from)),
    decreases taken.len() + 3 - from,
{
    let c = numbered_name(stem, from as nat, ext);
    if taken.contains(c) {
        assert(!seen.contains(c)) by {
            if seen.contains(c) {
                let j = choose|j: nat| 2 <= j < from && c == numbered_name(stem, j, ext);
                lemma_numbered_injective(stem, j, from as nat, ext);
            }
        }
        let s2 = seen.insert(c);
        assert(taken.to_set().contains(c));
        vstd::set_lib::lemma_len_subset(s2, taken.to_set());
        assert forall|x: Seq<char>| #[trigger] s2.contains(x) implies exists|j: nat| 2 <= j < from + 1 && x == numbered_name(stem, j, ext) by {
            if x == c {
                assert(x == numbered_name(stem, from as nat, ext));
            } else {
                assert(seen.contains(x));
            }
        }
        lemma_first_free_is_free(stem, ext, taken, from + 1, s2);
    }
}

proof fn lemma_free_name_is_free(stem: Seq<char>, ext: Seq<char>, taken: Seq<Seq<char>>)
    ensures
        !taken.contains(free_name(stem, ext, taken)),
{
    if taken.contains(plain_name(stem, ext)) {
        taken.lemma_cardinality_of_set();
        lemma_first_free_is_free(stem, ext, taken, 2, Set::empty());
    }
}

} // verus!
