//! Reading champion/augment synergy ratings out of ApexLOL pages.
use vstd::prelude::*;
use crate::text::{
    all_ascii_digits, append_chars, utf8_len, utf8_len_capped, char_count, char_is_alphanumeric, char_is_ascii_digit,
    char_to_uppercase, chars_equal, contains_chars, contains_seq, has_prefix, replace_all,
    replace_chars, starts_with_chars, str_to_string, string_from_chars, subrange_chars, to_chars,
    trim, trim_chars, unicode_alphanumeric, unicode_uppercase,
};
use crate::html::{
    char_vec_views, char_vecs_from_strings, html_links, html_text_lines, link_views, links_chars,
    meta_content, meta_content_chars, string_views, strings_from_char_vecs, text_lines_chars,
};

verus! {

// ---------------------------------------------------------------------------
// Name normalisation
// ---------------------------------------------------------------------------
/// Characters that take part in a name: alphanumerics and CJK ideographs
/// (U+4E00..=U+9FFF).
pub open spec fn name_char(c: char) -> bool {
    unicode_alphanumeric(c) || ('\u{4e00}' <= c && c <= '\u{9fff}')
}

/// A name reduced to its alphanumeric and CJK characters, upper-cased.
pub open spec fn normalize_name(s: Seq<char>) -> Seq<char>
    decreases s.len(),
{
    if s.len() == 0 {
        seq![]
    } else {
        normalize_name(s.drop_last()) + (if name_char(s.last()) {
            unicode_uppercase(s.last())
        } else {
            seq![]
        })
    }
}

pub fn normalize_chars(s: &Vec<char>) -> (r: Vec<char>)
    ensures
        r@ == normalize_name(s@),
{
    let mut out: Vec<char> = Vec::new();
    let mut i: usize = 0;
    while i < s.len()
        invariant
            i <= s@.len(),
            out@ == normalize_name(s@.take(i as int)),
        decreases s.len() - i,
    {
        let c = s[i];
        proof {
            assert(s@.take(i + 1).drop_last() =~= s@.take(i as int));
            assert(s@.take(i + 1).last() == c);
        }
        if char_is_alphanumeric(c) || ('\u{4e00}' <= c && c <= '\u{9fff}') {
            let up = char_to_uppercase(c);
            append_chars(&mut out, &up);
        } else {
            assert(out@ + seq![] =~= out@);
        }
        i = i + 1;
    }
    assert(s@.take(s@.len() as int) =~= s@);
    out
}

/// Keeps the alphanumeric and CJK characters of a name and upper-cases them, so
/// that names compare regardless of case, spacing and punctuation.
pub fn normalize_apex_lol_name(value: &str) -> (r: String)
    ensures
        r@ == normalize_name(value@),
{
    let v = to_chars(value);
    let n = normalize_chars(&v);
    string_from_chars(n.as_slice())
}

/// The cache key of a champion/augment pair: both names normalised, joined by `::`.
pub open spec fn cache_key(champion_name: Seq<char>, augment_name: Seq<char>) -> Seq<char> {
    normalize_name(champion_name) + "::"@ + normalize_name(augment_name)
}

pub fn apex_lol_cache_key(champion_name: &str, augment_name: &str) -> (r: String)
    ensures
        r@ == cache_key(champion_name@, augment_name@),
{
    let mut key = normalize_chars(&to_chars(champion_name));
    let sep = to_chars("::");
    append_chars(&mut key, &sep);
    let aug = normalize_chars(&to_chars(augment_name));
    append_chars(&mut key, &aug);
    string_from_chars(key.as_slice())
}

// ---------------------------------------------------------------------------
// URLs
// ---------------------------------------------------------------------------
pub open spec fn base_url() -> Seq<char> {
    "https://apexlol.info"@
}

/// An ApexLOL link made absolute: absolute `http(s)://` links are kept, site
/// paths are prefixed with the site's origin.
pub open spec fn absolute_url(href: Seq<char>) -> Seq<char> {
    if has_prefix(href, "http://"@) || has_prefix(href, "https://"@) {
        href
    } else if has_prefix(href, seq!['/']) {
        base_url() + href
    } else {
        base_url() + seq!['/'] + href
    }
}

/// Every URL made absolute starts with `http://` or `https://`, and making it
/// absolute again leaves it unchanged.
pub proof fn lemma_absolute_url(href: Seq<char>)
    ensures
        has_prefix(absolute_url(href), "http://"@) || has_prefix(absolute_url(href), "https://"@),
        absolute_url(absolute_url(href)) == absolute_url(href),
{
    reveal_strlit("https://");
    reveal_strlit("https://apexlol.info");
    let a = absolute_url(href);
    if !(has_prefix(href, "http://"@) || has_prefix(href, "https://"@)) {
        assert(a.subrange(0, 8) =~= "https://"@);
    }
}

pub fn absolute_url_chars(href: &Vec<char>) -> (r: Vec<char>)
    ensures
        r@ == absolute_url(href@),
{
    let http = to_chars("http://");
    let https = to_chars("https://");
    let mut slash: Vec<char> = Vec::new();
    slash.push('/');
    assert(slash@ =~= seq!['/']);
    if starts_with_chars(href, &http) || starts_with_chars(href, &https) {
        href.clone()
    } else if starts_with_chars(href, &slash) {
        let mut out = to_chars("https://apexlol.info");
        append_chars(&mut out, href);
        out
    } else {
        let mut out = to_chars("https://apexlol.info");
        out.push('/');
        append_chars(&mut out, href);
        out
    }
}

pub fn apex_lol_absolute_url(href: &str) -> (r: String)
    ensures
        r@ == absolute_url(href@),
{
    let h = to_chars(href);
    let a = absolute_url_chars(&h);
    string_from_chars(a.as_slice())
}

// ---------------------------------------------------------------------------
// First match in a list of lines
// ---------------------------------------------------------------------------
/// The first index at or after `i` whose line satisfies `p`.
pub open spec fn first_index_from(ls: Seq<Seq<char>>, p: spec_fn(Seq<char>) -> bool, i: int) -> Option<int>
    decreases ls.len() - i,
{
    if i < 0 || i >= ls.len() {
        None
    } else if p(ls[i]) {
        Some(i)
    } else {
        first_index_from(ls, p, i + 1)
    }
}

pub open spec fn first_index(ls: Seq<Seq<char>>, p: spec_fn(Seq<char>) -> bool) -> Option<int> {
    first_index_from(ls, p, 0)
}

pub proof fn lemma_first_index_from(ls: Seq<Seq<char>>, p: spec_fn(Seq<char>) -> bool, i: int)
    requires
        0 <= i,
    ensures
        match first_index_from(ls, p, i) {
            Some(k) => i <= k < ls.len() && p(ls[k]) && forall|j: int| i <= j < k ==> !p(ls[j]),
            None => forall|j: int| i <= j < ls.len() ==> !p(ls[j]),
        },
    decreases ls.len() - i,
{
    if i < ls.len() && !p(ls[i]) {
        lemma_first_index_from(ls, p, i + 1);
    }
}

// ---------------------------------------------------------------------------
// Markers
// ---------------------------------------------------------------------------
pub open spec fn has_marker(line: Seq<char>, markers: Seq<Seq<char>>) -> bool {
    exists|j: int| 0 <= j < markers.len() && contains_seq(line, #[trigger] markers[j])
}

/// The lines after the first line that holds one of `markers`.
pub open spec fn lines_after_marker(ls: Seq<Seq<char>>, markers: Seq<Seq<char>>) -> Option<Seq<Seq<char>>> {
    match first_index(ls, |l: Seq<char>| has_marker(l, markers)) {
        Some(k) => Some(ls.skip(k + 1)),
        None => None,
    }
}

fn has_marker_chars(line: &Vec<char>, markers: &Vec<Vec<char>>) -> (r: bool)
    ensures
        r == has_marker(line@, char_vec_views(markers@)),
{
    let mut j: usize = 0;
    while j < markers.len()
        invariant
            j <= markers@.len(),
            forall|k: int| 0 <= k < j ==> !contains_seq(line@, #[trigger] markers@[k]@),
        decreases markers.len() - j,
    {
        if contains_chars(line, &markers[j]) {
            assert(contains_seq(line@, char_vec_views(markers@)[j as int]));
            return true;
        }
        j = j + 1;
    }
    assert forall|k: int| 0 <= k < markers@.len() implies !contains_seq(
        line@,
        #[trigger] char_vec_views(markers@)[k],
    ) by {
        assert(char_vec_views(markers@)[k] == markers@[k]@);
    }
    false
}

pub fn lines_after_marker_chars(ls: &Vec<Vec<char>>, markers: &Vec<Vec<char>>) -> (r: Option<Vec<Vec<char>>>)
    ensures
        match lines_after_marker(char_vec_views(ls@), char_vec_views(markers@)) {
            None => r is None,
            Some(v) => r is Some && char_vec_views(r->0@) == v,
        },
{
    let ghost views = char_vec_views(ls@);
    let ghost p = |l: Seq<char>| has_marker(l, char_vec_views(markers@));
    let mut i: usize = 0;
    while i < ls.len()
        invariant
            i <= ls@.len(),
            views == char_vec_views(ls@),
            p == (|l: Seq<char>| has_marker(l, char_vec_views(markers@))),
            first_index(views, p) == first_index_from(views, p, i as int),
        decreases ls.len() - i,
    {
        assert(views[i as int] == ls@[i as int]@);
        if has_marker_chars(&ls[i], markers) {
            let mut out: Vec<Vec<char>> = Vec::new();
            let mut k = i + 1;
            while k < ls.len()
                invariant
                    i + 1 <= k <= ls@.len(),
                    views == char_vec_views(ls@),
                    out@.len() == k - (i + 1),
                    forall|j: int| 0 <= j < out@.len() ==> #[trigger] out@[j]@ == views[i + 1 + j],
                decreases ls.len() - k,
            {
                out.push(ls[k].clone());
                k = k + 1;
            }
            assert(char_vec_views(out@) =~= views.skip(i + 1));
            return Some(out);
        }
        i = i + 1;
    }
    None
}

fn char_vecs_from_strs(v: &[&str]) -> (r: Vec<Vec<char>>)
    ensures
        char_vec_views(r@) == Seq::new(v@.len(), |i: int| v@[i]@),
{
    let mut out: Vec<Vec<char>> = Vec::new();
    let mut i: usize = 0;
    while i < v.len()
        invariant
            i <= v@.len(),
            out@.len() == i,
            forall|k: int| 0 <= k < i ==> #[trigger] out@[k]@ == v@[k]@,
        decreases v.len() - i,
    {
        out.push(to_chars(v[i]));
        i = i + 1;
    }
    assert(char_vec_views(out@) =~= Seq::new(v@.len(), |i: int| v@[i]@));
    out
}

/// The text lines of `html` after the first one that holds one of `markers`.
pub fn apex_lol_lines_after_marker(html: &str, markers: &[&str]) -> (r: Option<Vec<String>>)
    ensures
        match lines_after_marker(html_text_lines(html@), Seq::new(markers@.len(), |i: int| markers@[i]@)) {
            None => r is None,
            Some(v) => r is Some && string_views(r->0@) == v,
        },
{
    let h = to_chars(html);
    let lines = text_lines_chars(&h);
    assert(char_vec_views(lines@) =~= html_text_lines(html@));
    let ms = char_vecs_from_strs(markers);
    match lines_after_marker_chars(&lines, &ms) {
        Some(v) => Some(strings_from_char_vecs(&v)),
        None => None,
    }
}

// ---------------------------------------------------------------------------
// Finding a name among lines
// ---------------------------------------------------------------------------
pub open spec fn line_names(line: Seq<char>, target: Seq<char>) -> bool {
    normalize_name(line) == target || contains_seq(normalize_name(line), target)
}

/// The first line whose normalised text equals or contains the normalised `name`;
/// none when the name normalises to nothing.
pub open spec fn find_line(ls: Seq<Seq<char>>, name: Seq<char>) -> Option<int> {
    let target = normalize_name(name);
    if target.len() == 0 {
        None
    } else {
        first_index(ls, |l: Seq<char>| line_names(l, target))
    }
}

/// The line found for a name is the first line that names it; when none is
/// found, no line names it (or the name normalises to nothing).
pub proof fn lemma_find_line_is_first(ls: Seq<Seq<char>>, name: Seq<char>)
    ensures
        match find_line(ls, name) {
            Some(k) => 0 <= k < ls.len() && line_names(ls[k], normalize_name(name)) && forall|j: int|
                0 <= j < k ==> !line_names(#[trigger] ls[j], normalize_name(name)),
            None => normalize_name(name).len() == 0 || forall|j: int|
                0 <= j < ls.len() ==> !line_names(#[trigger] ls[j], normalize_name(name)),
        },
{
    let target = normalize_name(name);
    if target.len() > 0 {
        lemma_first_index_from(ls, |l: Seq<char>| line_names(l, target), 0);
    }
}

pub fn find_line_chars(ls: &Vec<Vec<char>>, name: &Vec<char>) -> (r: Option<usize>)
    ensures
        match find_line(char_vec_views(ls@), name@) {
            Some(k) => r matches Some(i) && i == k,
            None => r is None,
        },
        r matches Some(k) ==> k < ls@.len(),
{
    let target = normalize_chars(name);
    if target.len() == 0 {
        return None;
    }
    let ghost views = char_vec_views(ls@);
    let ghost p = |l: Seq<char>| line_names(l, target@);
    let mut i: usize = 0;
    while i < ls.len()
        invariant
            i <= ls@.len(),
            views == char_vec_views(ls@),
            p == (|l: Seq<char>| line_names(l, target@)),
            target@ == normalize_name(name@),
            target@.len() > 0,
            first_index(views, p) == first_index_from(views, p, i as int),
        decreases ls.len() - i,
    {
        assert(views[i as int] == ls@[i as int]@);
        let line_name = normalize_chars(&ls[i]);
        if chars_equal(&line_name, &target) || contains_chars(&line_name, &target) {
            return Some(i);
        }
        i = i + 1;
    }
    None
}

/// The index of the first line that names `name` (see [`find_line`]).
pub fn find_line_index(lines: &[String], name: &str) -> (r: Option<usize>)
    ensures
        match find_line(string_views(lines@), name@) {
            Some(k) => r matches Some(i) && i == k,
            None => r is None,
        },
{
    let ls = char_vecs_from_strings(lines);
    let n = to_chars(name);
    find_line_chars(&ls, &n)
}

// ---------------------------------------------------------------------------
// Links to champion and augment pages
// ---------------------------------------------------------------------------
/// The part of `s` after its last `/`.
pub open spec fn after_last_slash(s: Seq<char>) -> Seq<char>
    decreases s.len(),
{
    if s.len() == 0 || s.last() == '/' {
        seq![]
    } else {
        after_last_slash(s.drop_last()).push(s.last())
    }
}

/// The last non-empty `/`-separated segment of `s`, or nothing.
pub open spec fn last_segment(s: Seq<char>) -> Seq<char>
    decreases s.len(),
{
    if s.len() > 0 && s.last() == '/' {
        last_segment(s.drop_last())
    } else {
        after_last_slash(s)
    }
}

proof fn lemma_after_last_slash(s: Seq<char>)
    ensures
        !after_last_slash(s).contains('/'),
        after_last_slash(s).len() <= s.len(),
        s.subrange(s.len() - after_last_slash(s).len(), s.len() as int) == after_last_slash(s),
        after_last_slash(s).len() < s.len() ==> s[s.len() - after_last_slash(s).len() - 1] == '/',
    decreases s.len(),
{
    if s.len() > 0 && s.last() != '/' {
        let p = s.drop_last();
        lemma_after_last_slash(p);
        let a = after_last_slash(p);
        assert(after_last_slash(s) == a.push(s.last()));
        assert(s.subrange(s.len() - a.len() - 1, s.len() as int) =~= p.subrange(p.len() - a.len(), p.len() as int).push(
            s.last(),
        ));
        if a.len() < p.len() {
            assert(s[s.len() - a.len() - 2] == p[p.len() - a.len() - 1]);
        }
        if a.push(s.last()).contains('/') {
            let k = choose|k: int| 0 <= k < a.len() + 1 && a.push(s.last())[k] == '/';
            if k < a.len() {
                assert(a[k] == '/');
            }
        }
    } else {
        assert(s.subrange(s.len() as int, s.len() as int) =~= Seq::<char>::empty());
    }
}

/// The segment read from a path ignores trailing slashes, holds no slash, and,
/// for a path that does not end in a slash, is the non-empty text after its
/// last slash (or the whole path when it has none).
pub proof fn lemma_last_segment(s: Seq<char>)
    ensures
        last_segment(s.push('/')) == last_segment(s),
        !last_segment(s).contains('/'),
        s.len() > 0 && s.last() != '/' ==> {
            let g = last_segment(s);
            &&& 0 < g.len() <= s.len()
            &&& s.subrange(s.len() - g.len(), s.len() as int) == g
            &&& (g.len() == s.len() || s[s.len() - g.len() - 1] == '/')
        },
    decreases s.len(),
{
    assert(s.push('/').drop_last() =~= s);
    if s.len() > 0 && s.last() == '/' {
        lemma_last_segment(s.drop_last());
    } else {
        lemma_after_last_slash(s);
        if s.len() > 0 {
            assert(after_last_slash(s) == after_last_slash(s.drop_last()).push(s.last()));
        }
    }
}

/// A link to `prefix + slug` or `prefix + slug + "/"`, where `prefix` ends in a
/// slash and the slug is a plain segment, names every target that the slug
/// normalises to, whatever the link's text.
pub proof fn lemma_link_to_slug(prefix: Seq<char>, slug: Seq<char>, text: Seq<char>)
    requires
        prefix.len() > 0,
        prefix.last() == '/',
        slug.len() > 0,
        !slug.contains('/'),
    ensures
        link_names((prefix + slug, text), normalize_name(slug), prefix),
        link_names((prefix + slug + seq!['/'], text), normalize_name(slug), prefix),
{
    let h = prefix + slug;
    lemma_last_segment(h);
    assert(h.last() == slug.last());
    let g = last_segment(h);
    assert(g =~= slug) by {
        if g.len() < slug.len() {
            assert(h[h.len() - g.len() - 1] == slug[slug.len() - g.len() - 1]);
        } else if g.len() > slug.len() {
            assert(h.subrange(h.len() - g.len(), h.len() as int)[g.len() - slug.len() - 1] == prefix.last());
        }
        assert forall|i: int| 0 <= i < g.len() implies g[i] == slug[i] by {
            assert(h.subrange(h.len() - g.len(), h.len() as int)[i] == h[h.len() - g.len() + i]);
        }
    }
    assert(h + seq!['/'] == h.push('/'));
    assert(has_prefix(h, prefix)) by {
        assert(h.subrange(0, prefix.len() as int) =~= prefix);
    }
    assert(has_prefix(h.push('/'), prefix)) by {
        assert(h.push('/').subrange(0, prefix.len() as int) =~= prefix);
    }
}

fn last_segment_chars(s: &Vec<char>) -> (r: Vec<char>)
    ensures
        r@ == last_segment(s@),
{
    let mut end = s.len();
    assert(s@.take(end as int) =~= s@);
    while end > 0 && s[end - 1] == '/'
        invariant
            end <= s@.len(),
            last_segment(s@) == last_segment(s@.take(end as int)),
        decreases end,
    {
        proof {
            assert(s@.take(end as int).drop_last() =~= s@.take(end - 1));
        }
        end = end - 1;
    }
    let mut start = end;
    while start > 0 && s[start - 1] != '/'
        invariant
            start <= end <= s@.len(),
            last_segment(s@) == after_last_slash(s@.take(start as int)) + s@.subrange(start as int, end as int),
        decreases start,
    {
        proof {
            assert(s@.take(start as int).drop_last() =~= s@.take(start - 1));
            assert(s@.take(start as int).last() == s@[start - 1]);
            assert(after_last_slash(s@.take(start - 1)).push(s@[start - 1]) + s@.subrange(start as int, end as int)
                =~= after_last_slash(s@.take(start - 1)) + s@.subrange(start - 1, end as int));
        }
        start = start - 1;
    }
    proof {
        if start > 0 {
            assert(s@.take(start as int).last() == s@[start - 1]);
        }
        assert(seq![] + s@.subrange(start as int, end as int) =~= s@.subrange(start as int, end as int));
    }
    subrange_chars(s, start, end)
}

/// Whether a link leads to the page for `target` under `prefix`: its path
/// starts with `prefix` and its last path segment or its text names the target.
/// An empty link text matches every target.
pub open spec fn link_names(link: (Seq<char>, Seq<char>), target: Seq<char>, prefix: Seq<char>) -> bool {
    let href_name = normalize_name(last_segment(link.0));
    let text_name = normalize_name(link.1);
    has_prefix(link.0, prefix) && (href_name == target || text_name == target || contains_seq(
        text_name,
        target,
    ) || contains_seq(target, text_name))
}

pub open spec fn first_link_from(
    links: Seq<(Seq<char>, Seq<char>)>,
    target: Seq<char>,
    prefix: Seq<char>,
    i: int,
) -> Option<int>
    decreases links.len() - i,
{
    if i < 0 || i >= links.len() {
        None
    } else if link_names(links[i], target, prefix) {
        Some(i)
    } else {
        first_link_from(links, target, prefix, i + 1)
    }
}

/// The absolute URL of the first link of `html` that names `name` under `prefix`.
pub open spec fn resolve_link(html: Seq<char>, name: Seq<char>, prefix: Seq<char>) -> Option<Seq<char>> {
    let target = normalize_name(name);
    let links = html_links(html);
    if target.len() == 0 {
        None
    } else {
        match first_link_from(links, target, prefix, 0) {
            Some(k) => Some(absolute_url(links[k].0)),
            None => None,
        }
    }
}

pub fn resolve_link_chars(html: &Vec<char>, name: &Vec<char>, prefix: &Vec<char>) -> (r: Option<Vec<char>>)
    ensures
        match resolve_link(html@, name@, prefix@) {
            None => r is None,
            Some(v) => r is Some && r->0@ == v,
        },
{
    let target = normalize_chars(name);
    if target.len() == 0 {
        return None;
    }
    let links = links_chars(html);
    let ghost lv = link_views(links@);
    let mut i: usize = 0;
    while i < links.len()
        invariant
            i <= links@.len(),
            lv == link_views(links@),
            lv == html_links(html@),
            target@ == normalize_name(name@),
            target@.len() > 0,
            first_link_from(lv, target@, prefix@, 0) == first_link_from(lv, target@, prefix@, i as int),
        decreases links.len() - i,
    {
        let href = &links[i].0;
        let text = &links[i].1;
        assert(lv[i as int] == (href@, text@));
        if starts_with_chars(href, prefix) {
            let href_name = normalize_chars(&last_segment_chars(href));
            let text_name = normalize_chars(text);
            if chars_equal(&href_name, &target) || chars_equal(&text_name, &target) || contains_chars(
                &text_name,
                &target,
            ) || contains_chars(&target, &text_name) {
                return Some(absolute_url_chars(href));
            }
        }
        i = i + 1;
    }
    None
}

/// Finds, among the links of `html` whose path starts with `required_prefix`,
/// the first whose last path segment or text names `name`, and returns it as an
/// absolute URL.
pub fn resolve_apex_lol_link(html: &str, name: &str, required_prefix: &str) -> (r: Option<String>)
    ensures
        match resolve_link(html@, name@, required_prefix@) {
            None => r is None,
            Some(v) => r is Some && r->0@ == v,
        },
{
    let h = to_chars(html);
    let n = to_chars(name);
    let p = to_chars(required_prefix);
    match resolve_link_chars(&h, &n, &p) {
        Some(v) => Some(string_from_chars(v.as_slice())),
        None => None,
    }
}

// ---------------------------------------------------------------------------
// Ratings
// ---------------------------------------------------------------------------
/// The ratings, from best to worst, in the order they are tried.
pub open spec fn rating_name(k: int) -> Seq<char> {
    if k == 0 {
        "SSS"@
    } else if k == 1 {
        "SS"@
    } else if k == 2 {
        "S"@
    } else if k == 3 {
        "A"@
    } else if k == 4 {
        "B"@
    } else if k == 5 {
        "C"@
    } else {
        "D"@
    }
}

/// A rating read from a line is one of `SSS`, `SS`, `S`, `A`, `B`, `C`, `D`.
pub proof fn lemma_rating_is_known(line: Seq<char>)
    ensures
        line_rating(line) matches Some(p) ==> exists|k: int| 0 <= k < 7 && p.0 == #[trigger] rating_name(k),
{
    lemma_rating_from_known(line, normalize_name(line), 0);
}

proof fn lemma_rating_from_known(line: Seq<char>, normalized: Seq<char>, k: int)
    ensures
        rating_from(line, normalized, k) matches Some(p) ==> exists|j: int| 0 <= j < 7 && p.0 == #[trigger] rating_name(j),
    decreases 7 - k,
{
    if 0 <= k < 7 {
        lemma_rating_from_known(line, normalized, k + 1);
        match rating_from(line, normalized, k) {
            Some(p) => {
                if p.0 == rating_name(k) {
                    assert(0 <= k < 7 && p.0 == rating_name(k));
                }
            },
            None => {},
        }
    }
}

fn rating_name_chars(k: usize) -> (r: Vec<char>)
    requires
        k < 7,
    ensures
        r@ == rating_name(k as int),
{
    if k == 0 {
        to_chars("SSS")
    } else if k == 1 {
        to_chars("SS")
    } else if k == 2 {
        to_chars("S")
    } else if k == 3 {
        to_chars("A")
    } else if k == 4 {
        to_chars("B")
    } else if k == 5 {
        to_chars("C")
    } else {
        to_chars("D")
    }
}

/// Rating `k` or a later one read from `line` (whose normalised text is
/// `normalized`): the normalised line is the rating itself, or begins with it
/// followed by `级` or `TIER`; in the second case the summary is the line with
/// the rating's letters and every `级` removed, trimmed.
pub open spec fn rating_from(line: Seq<char>, normalized: Seq<char>, k: int) -> Option<(Seq<char>, Seq<char>)>
    decreases 7 - k,
{
    if k < 0 || k >= 7 {
        None
    } else {
        let r = rating_name(k);
        let rest = normalized.skip(r.len() as int);
        if normalized == r {
            Some((r, seq![]))
        } else if has_prefix(normalized, r) && (has_prefix(rest, "级"@) || has_prefix(rest, "TIER"@)) {
            Some((r, trim(replace_all(replace_all(line, r, seq![]), "级"@, seq![]))))
        } else {
            rating_from(line, normalized, k + 1)
        }
    }
}

/// The rating (`SSS`, `SS`, `S`, `A`, `B`, `C` or `D`) and summary that a line states.
pub open spec fn line_rating(line: Seq<char>) -> Option<(Seq<char>, Seq<char>)> {
    rating_from(line, normalize_name(line), 0)
}

pub fn rating_chars(line: &Vec<char>) -> (r: Option<(Vec<char>, Vec<char>)>)
    ensures
        match line_rating(line@) {
            None => r is None,
            Some(v) => r matches Some(x) && x.0@ == v.0 && x.1@ == v.1,
        },
{
    let normalized = normalize_chars(line);
    let ji = to_chars("级");
    let tier = to_chars("TIER");
    let empty: Vec<char> = Vec::new();
    let mut k: usize = 0;
    while k < 7
        invariant
            k <= 7,
            normalized@ == normalize_name(line@),
            ji@ == "级"@,
            tier@ == "TIER"@,
            empty@ == Seq::<char>::empty(),
            line_rating(line@) == rating_from(line@, normalized@, k as int),
        decreases 7 - k,
    {
        let r = rating_name_chars(k);
        if chars_equal(&normalized, &r) {
            return Some((r, Vec::new()));
        }
        if starts_with_chars(&normalized, &r) {
            let rest = subrange_chars(&normalized, r.len(), normalized.len());
            assert(rest@ =~= normalized@.skip(r@.len() as int));
            if starts_with_chars(&rest, &ji) || starts_with_chars(&rest, &tier) {
                proof {
                    reveal_strlit("级");
                    reveal_strlit("SSS");
                    reveal_strlit("SS");
                    reveal_strlit("S");
                    reveal_strlit("A");
                    reveal_strlit("B");
                    reveal_strlit("C");
                    reveal_strlit("D");
                }
                let without = replace_chars(line, &r, &empty);
                let without_ji = replace_chars(&without, &ji, &empty);
                let summary = trim_chars(&without_ji);
                return Some((r, summary));
            }
        }
        k = k + 1;
    }
    None
}

/// Reads a rating line: `S`, `SS级 …`, `A TIER …` and the like.  Returns the
/// rating and the rest of the line as its summary.
pub fn parse_apex_lol_rating(line: &str) -> (r: Option<(String, String)>)
    ensures
        match line_rating(line@) {
            None => r is None,
            Some(v) => r matches Some(x) && x.0@ == v.0 && x.1@ == v.1,
        },
{
    let l = to_chars(line);
    match rating_chars(&l) {
        Some((a, b)) => Some((string_from_chars(a.as_slice()), string_from_chars(b.as_slice()))),
        None => None,
    }
}

// ---------------------------------------------------------------------------
// Tip lines
// ---------------------------------------------------------------------------
/// A line that states a date: two or more slashes, or one of the words for today
/// and yesterday.
pub open spec fn looks_like_date(line: Seq<char>) -> bool {
    line.filter(|c: char| c == '/').len() >= 2 || line == "昨天"@ || line == "Today"@ || line
        == "Yesterday"@
}

pub fn date_chars(line: &Vec<char>) -> (r: bool)
    ensures
        r == looks_like_date(line@),
{
    let slashes = char_count(line, '/');
    slashes >= 2 || chars_equal(line, &to_chars("昨天")) || chars_equal(line, &to_chars("Today"))
        || chars_equal(line, &to_chars("Yesterday"))
}

pub fn looks_like_apex_lol_date(line: &str) -> (r: bool)
    ensures
        r == looks_like_date(line@),
{
    date_chars(&to_chars(line))
}

/// Line beginnings that mark page furniture rather than a tip.
pub open spec fn blocked_prefix(k: int) -> Seq<char> {
    if k == 0 {
        "白银阶"@
    } else if k == 1 {
        "黄金阶"@
    } else if k == 2 {
        "棱彩阶"@
    } else if k == 3 {
        "Silver"@
    } else if k == 4 {
        "Gold"@
    } else if k == 5 {
        "Prismatic"@
    } else if k == 6 {
        "Image"@
    } else if k == 7 {
        "Assist Me"@
    } else if k == 8 {
        "Enemy Missing"@
    } else if k == 9 {
        "作者:"@
    } else if k == 10 {
        "Version:"@
    } else if k == 11 {
        "版本:"@
    } else if k == 12 {
        "推荐出装"@
    } else if k == 13 {
        "Search Keywords"@
    } else if k == 14 {
        "Last updated:"@
    } else if k == 15 {
        "Pager"@
    } else {
        "投稿"@
    }
}

fn blocked_prefix_chars(k: usize) -> (r: Vec<char>)
    requires
        k < 17,
    ensures
        r@ == blocked_prefix(k as int),
{
    let s = if k == 0 {
        "白银阶"
    } else if k == 1 {
        "黄金阶"
    } else if k == 2 {
        "棱彩阶"
    } else if k == 3 {
        "Silver"
    } else if k == 4 {
        "Gold"
    } else if k == 5 {
        "Prismatic"
    } else if k == 6 {
        "Image"
    } else if k == 7 {
        "Assist Me"
    } else if k == 8 {
        "Enemy Missing"
    } else if k == 9 {
        "作者:"
    } else if k == 10 {
        "Version:"
    } else if k == 11 {
        "版本:"
    } else if k == 12 {
        "推荐出装"
    } else if k == 13 {
        "Search Keywords"
    } else if k == 14 {
        "Last updated:"
    } else if k == 15 {
        "Pager"
    } else {
        "投稿"
    };
    to_chars(s)
}

/// A line that can be a tip: 4 to 240 bytes once trimmed, with some name
/// characters that are not all digits, not a rating, not page furniture and not
/// a date.
pub open spec fn is_tip_line(line: Seq<char>) -> bool {
    let t = trim(line);
    let n = normalize_name(t);
    let bytes = utf8_len(t);
    &&& 4 <= bytes <= 240
    &&& n.len() > 0
    &&& !all_ascii_digits(n)
    &&& line_rating(t) is None
    &&& forall|k: int| 0 <= k < 17 ==> !has_prefix(t, #[trigger] blocked_prefix(k))
    &&& !looks_like_date(t)
}

/// No tip line looks like a date: once trimmed it is not `Today`, `Yesterday`
/// or `昨天`, and it holds fewer than two slashes.
pub proof fn lemma_tip_is_not_a_date(line: Seq<char>)
    ensures
        is_tip_line(line) ==> {
            let t = trim(line);
            &&& t != "Today"@
            &&& t != "Yesterday"@
            &&& t != "昨天"@
            &&& t.filter(|c: char| c == '/').len() < 2
        },
{
}

pub fn tip_chars(line: &Vec<char>) -> (r: bool)
    ensures
        r == is_tip_line(line@),
{
    let t = trim_chars(line);
    let bytes = utf8_len_capped(&t, 241);
    if bytes < 4 || bytes > 240 {
        return false;
    }
    let n = normalize_chars(&t);
    if n.len() == 0 {
        return false;
    }
    let mut all_digits = true;
    let mut i: usize = 0;
    while i < n.len()
        invariant
            i <= n@.len(),
            all_digits == (forall|j: int| 0 <= j < i ==> crate::text::is_ascii_digit(n@[j])),
        decreases n.len() - i,
    {
        if !char_is_ascii_digit(n[i]) {
            all_digits = false;
        }
        i = i + 1;
    }
    if all_digits {
        return false;
    }
    if rating_chars(&t).is_some() {
        return false;
    }
    let mut k: usize = 0;
    while k < 17
        invariant
            k <= 17,
            t@ == trim(line@),
            forall|j: int| 0 <= j < k ==> !has_prefix(t@, #[trigger] blocked_prefix(j)),
        decreases 17 - k,
    {
        let b = blocked_prefix_chars(k);
        if starts_with_chars(&t, &b) {
            return false;
        }
        k = k + 1;
    }
    !date_chars(&t)
}

/// Whether a line of a page is a tip (see [`is_tip_line`]).
pub fn is_apex_lol_tip_line(line: &str) -> (r: bool)
    ensures
        r == is_tip_line(line@),
{
    tip_chars(&to_chars(line))
}

// ---------------------------------------------------------------------------
// Entries
// ---------------------------------------------------------------------------
/// Rating, summary and tip read from `ls`, line after line: the first rating
/// line gives the rating and summary; the first tip line that is not the rating
/// line gives the tip.
pub open spec fn entry_fold(ls: Seq<Seq<char>>) -> (Seq<char>, Seq<char>, Seq<char>)
    decreases ls.len(),
{
    if ls.len() == 0 {
        (seq![], seq![], seq![])
    } else {
        let st = entry_fold(ls.drop_last());
        let l = ls.last();
        if st.0.len() == 0 && line_rating(l) is Some {
            (line_rating(l).unwrap().0, line_rating(l).unwrap().1, st.2)
        } else if st.2.len() == 0 && is_tip_line(l) {
            (st.0, st.1, l)
        } else {
            st
        }
    }
}

/// The tip of an entry is empty or a tip line, and its rating is empty or one
/// that a line states.
pub proof fn lemma_entry_parts(ls: Seq<Seq<char>>)
    ensures
        entry_fold(ls).2.len() == 0 || (is_tip_line(entry_fold(ls).2) && ls.contains(entry_fold(ls).2)),
        entry_fold(ls).0.len() == 0 || exists|i: int|
            0 <= i < ls.len() && line_rating(#[trigger] ls[i]) == Some((entry_fold(ls).0, entry_fold(ls).1)),
    decreases ls.len(),
{
    if ls.len() > 0 {
        let p = ls.drop_last();
        lemma_entry_parts(p);
        assert(ls[ls.len() - 1] == ls.last());
        if entry_fold(p).2.len() != 0 {
            let j = choose|j: int| 0 <= j < p.len() && p[j] == entry_fold(p).2;
            assert(ls[j] == p[j]);
        }
        if entry_fold(p).0.len() != 0 {
            let i = choose|i: int| 0 <= i < p.len() && line_rating(#[trigger] p[i]) == Some((entry_fold(p).0, entry_fold(p).1));
            assert(ls[i] == p[i]);
        }
    }
}

/// The entry that starts at `start`: read from at most 18 lines.
pub open spec fn entry_at(ls: Seq<Seq<char>>, start: int) -> (Seq<char>, Seq<char>, Seq<char>) {
    let end = if start + 18 < ls.len() { start + 18 } else { ls.len() as int };
    entry_fold(ls.subrange(start, end))
}

proof fn lemma_rating_nonempty(line: Seq<char>, normalized: Seq<char>, k: int)
    ensures
        rating_from(line, normalized, k) matches Some(v) ==> v.0.len() > 0,
    decreases 7 - k,
{
    reveal_strlit("SSS");
    reveal_strlit("SS");
    reveal_strlit("S");
    reveal_strlit("A");
    reveal_strlit("B");
    reveal_strlit("C");
    reveal_strlit("D");
    if 0 <= k < 7 {
        lemma_rating_nonempty(line, normalized, k + 1);
    }
}

pub fn entry_chars(ls: &Vec<Vec<char>>, start: usize) -> (r: (Vec<char>, Vec<char>, Vec<char>))
    requires
        start <= ls@.len(),
    ensures
        (r.0@, r.1@, r.2@) == entry_at(char_vec_views(ls@), start as int),
{
    let end = if ls.len() - start > 18 { start + 18 } else { ls.len() };
    let ghost views = char_vec_views(ls@);
    let mut rating: Vec<char> = Vec::new();
    let mut summary: Vec<char> = Vec::new();
    let mut tip: Vec<char> = Vec::new();
    let mut i = start;
    proof {
        assert(views.subrange(start as int, start as int) =~= Seq::<Seq<char>>::empty());
    }
    while i < end
        invariant
            start <= i <= end <= ls@.len(),
            views == char_vec_views(ls@),
            end == (if start + 18 < ls@.len() { start + 18 } else { ls@.len() as int }),
            (rating@, summary@, tip@) == entry_fold(views.subrange(start as int, i as int)),
        decreases end - i,
    {
        let line = &ls[i];
        proof {
            assert(views.subrange(start as int, i + 1).drop_last() =~= views.subrange(start as int, i as int));
            assert(views.subrange(start as int, i + 1).last() == line@);
            lemma_rating_nonempty(line@, normalize_name(line@), 0);
        }
        let mut handled = false;
        if rating.len() == 0 {
            match rating_chars(line) {
                Some((a, b)) => {
                    rating = a;
                    summary = b;
                    handled = true;
                },
                None => {},
            }
        }
        if !handled && tip.len() == 0 && tip_chars(line) {
            tip = line.clone();
        }
        i = i + 1;
    }
    (rating, summary, tip)
}

/// Reads the entry that starts at `start_index`: from at most 18 lines, the first
/// rating line gives rating and summary, the first other tip line gives the tip.
pub fn parse_apex_lol_entry(lines: &[String], start_index: usize) -> (r: (String, String, String))
    requires
        start_index <= lines@.len(),
    ensures
        (r.0@, r.1@, r.2@) == entry_at(string_views(lines@), start_index as int),
{
    let ls = char_vecs_from_strings(lines);
    assert(ls@.len() == char_vec_views(ls@).len());
    assert(lines@.len() == string_views(lines@).len());
    let (a, b, c) = entry_chars(&ls, start_index);
    (string_from_chars(a.as_slice()), string_from_chars(b.as_slice()), string_from_chars(c.as_slice()))
}

// ---------------------------------------------------------------------------
// Lookup results
// ---------------------------------------------------------------------------
/// What a lookup of a champion/augment pair found.  `fetched_at` is the lookup
/// time in RFC 3339 form; `status` is `ok`, `no_data` or `failed`.
#[derive(Debug, Clone)]
pub struct ApexLolAugmentResult {
    pub champion_name: String,
    pub augment_name: String,
    pub rating: String,
    pub summary: String,
    pub tip: String,
    pub source: String,
    pub source_url: String,
    pub fetched_at: String,
    pub cache_hit: bool,
    pub status: String,
    pub error: Option<String>,
}

pub open spec fn opt_view(o: Option<String>) -> Option<Seq<char>> {
    match o {
        Some(s) => Some(s@),
        None => None,
    }
}

/// `r` holds exactly the given values, with `ApexLOL` as its source.
pub open spec fn result_is(
    r: ApexLolAugmentResult,
    champion_name: Seq<char>,
    augment_name: Seq<char>,
    source_url: Seq<char>,
    fetched_at: Seq<char>,
    cache_hit: bool,
    status: Seq<char>,
    rating: Seq<char>,
    summary: Seq<char>,
    tip: Seq<char>,
    error: Option<Seq<char>>,
) -> bool {
    &&& r.champion_name@ == champion_name
    &&& r.augment_name@ == augment_name
    &&& r.rating@ == rating
    &&& r.summary@ == summary
    &&& r.tip@ == tip
    &&& r.source@ == "ApexLOL"@
    &&& r.source_url@ == source_url
    &&& r.fetched_at@ == fetched_at
    &&& r.cache_hit == cache_hit
    &&& r.status@ == status
    &&& opt_view(r.error) == error
}

impl ApexLolAugmentResult {
    /// A field-by-field copy.
    pub fn duplicate(&self) -> (r: Self)
        ensures
            r == *self,
    {
        ApexLolAugmentResult {
            champion_name: self.champion_name.clone(),
            augment_name: self.augment_name.clone(),
            rating: self.rating.clone(),
            summary: self.summary.clone(),
            tip: self.tip.clone(),
            source: self.source.clone(),
            source_url: self.source_url.clone(),
            fetched_at: self.fetched_at.clone(),
            cache_hit: self.cache_hit,
            status: self.status.clone(),
            error: match &self.error {
                Some(e) => Some(e.clone()),
                None => None,
            },
        }
    }
}

/// Builds a lookup result with `ApexLOL` as its source.
pub fn apex_lol_result(
    champion_name: String,
    augment_name: String,
    source_url: String,
    fetched_at: String,
    cache_hit: bool,
    status: &str,
    rating: &str,
    summary: &str,
    tip: &str,
    error: Option<String>,
) -> (r: ApexLolAugmentResult)
    ensures
        r.champion_name == champion_name,
        r.augment_name == augment_name,
        r.source_url == source_url,
        r.fetched_at == fetched_at,
        r.error == error,
        result_is(r, champion_name@, augment_name@, source_url@, fetched_at@, cache_hit, status@, rating@,
            summary@, tip@, opt_view(error)),
{
    ApexLolAugmentResult {
        champion_name,
        augment_name,
        rating: str_to_string(rating),
        summary: str_to_string(summary),
        tip: str_to_string(tip),
        source: str_to_string("ApexLOL"),
        source_url,
        fetched_at,
        cache_hit,
        status: str_to_string(status),
        error,
    }
}

// ---------------------------------------------------------------------------
// Champion and augment pages
// ---------------------------------------------------------------------------
/// The lines of a page: those after a section marker when one is present, all
/// of them otherwise.
pub open spec fn section_lines(html: Seq<char>, markers: Seq<Seq<char>>) -> Seq<Seq<char>> {
    match lines_after_marker(html_text_lines(html), markers) {
        Some(ls) => ls,
        None => html_text_lines(html),
    }
}

/// Without a section marker on the page, the lines read are all the page's
/// text lines; with one, they are the lines after the first line that holds a
/// marker.
pub proof fn lemma_section_lines(html: Seq<char>, markers: Seq<Seq<char>>)
    ensures
        (forall|i: int| 0 <= i < html_text_lines(html).len() ==> !has_marker(#[trigger] html_text_lines(html)[i], markers))
            ==> section_lines(html, markers) == html_text_lines(html),
        forall|k: int|
            0 <= k < html_text_lines(html).len() && has_marker(#[trigger] html_text_lines(html)[k], markers) && (forall|j: int|
                0 <= j < k ==> !has_marker(#[trigger] html_text_lines(html)[j], markers)) ==> section_lines(html, markers)
                == html_text_lines(html).skip(k + 1),
{
    let ls = html_text_lines(html);
    let p = |l: Seq<char>| has_marker(l, markers);
    lemma_first_index_from(ls, p, 0);
    assert forall|k: int|
        0 <= k < ls.len() && has_marker(#[trigger] ls[k], markers) && (forall|j: int|
            0 <= j < k ==> !has_marker(#[trigger] ls[j], markers)) implies section_lines(html, markers) == ls.skip(k + 1) by {
        match first_index(ls, p) {
            Some(m) => {
                if m < k {
                    assert(!has_marker(ls[m], markers));
                } else if m > k {
                    assert(p(ls[k]));
                }
            },
            None => {
                assert(p(ls[k]));
            },
        }
    }
    if forall|i: int| 0 <= i < ls.len() ==> !has_marker(#[trigger] ls[i], markers) {
        match first_index(ls, p) {
            Some(m) => {
                assert(p(ls[m]));
                assert(!has_marker(ls[m], markers));
            },
            None => {},
        }
    }
}

pub open spec fn champion_page_markers() -> Seq<Seq<char>> {
    seq!["海克斯联动分析"@, "Hextech Synergy Analysis"@]
}

pub open spec fn augment_page_markers() -> Seq<Seq<char>> {
    seq!["关联英雄及联动分析"@, "Related Champions & Interactions"@]
}

pub open spec fn description_markers() -> Seq<Seq<char>> {
    seq!["效果描述"@, "Description"@]
}

/// `ok` when a rating or a tip was read, `no_data` otherwise.
pub open spec fn entry_status(e: (Seq<char>, Seq<char>, Seq<char>)) -> Seq<char> {
    if e.0.len() == 0 && e.2.len() == 0 {
        "no_data"@
    } else {
        "ok"@
    }
}

/// The rating shown: the one read, or `暂无数据` (no data).
pub open spec fn shown_rating(e: (Seq<char>, Seq<char>, Seq<char>)) -> Seq<char> {
    if e.0.len() == 0 {
        "暂无数据"@
    } else {
        e.0
    }
}

/// What a page says about a pair: the entry that follows the line naming
/// `entry_name`, read into a result whose summary is `description` when there is
/// one and the entry's own summary otherwise, with the given `no_data` note.
pub open spec fn page_result(
    r: Option<ApexLolAugmentResult>,
    lines: Seq<Seq<char>>,
    entry_name: Seq<char>,
    champion_name: Seq<char>,
    augment_name: Seq<char>,
    source_url: Seq<char>,
    fetched_at: Seq<char>,
    description: Option<Seq<char>>,
    no_data_note: Seq<char>,
) -> bool {
    match find_line(lines, entry_name) {
        None => r is None,
        Some(k) => {
            let e = entry_at(lines, k + 1);
            &&& r is Some
            &&& result_is(r->0, champion_name, augment_name, source_url, fetched_at, false,
                entry_status(e), shown_rating(e), match description {
                    Some(d) => d,
                    None => e.1,
                }, e.2,
                if e.0.len() == 0 && e.2.len() == 0 { Some(no_data_note) } else { None })
        },
    }
}

fn page_markers(a: &str, b: &str) -> (r: Vec<Vec<char>>)
    ensures
        char_vec_views(r@) == seq![a@, b@],
{
    let mut v: Vec<Vec<char>> = Vec::new();
    v.push(to_chars(a));
    v.push(to_chars(b));
    assert(char_vec_views(v@) =~= seq![a@, b@]);
    v
}

fn section_lines_chars(html: &Vec<char>, a: &str, b: &str) -> (r: Vec<Vec<char>>)
    ensures
        char_vec_views(r@) == section_lines(html@, seq![a@, b@]),
{
    let lines = text_lines_chars(html);
    assert(char_vec_views(lines@) =~= html_text_lines(html@));
    let markers = page_markers(a, b);
    match lines_after_marker_chars(&lines, &markers) {
        Some(v) => v,
        None => lines,
    }
}

fn status_text(rating: &Vec<char>, tip: &Vec<char>) -> (r: &'static str)
    ensures
        r@ == entry_status((rating@, seq![], tip@)),
{
    if rating.len() == 0 && tip.len() == 0 {
        "no_data"
    } else {
        "ok"
    }
}

/// Reads a champion page: after the synergy section marker (or anywhere when
/// there is none), finds the line naming the augment and reads the entry after it.
pub fn parse_apex_lol_champion_page(
    html: &str,
    champion_name: &str,
    augment_name: &str,
    source_url: &str,
    fetched_at: &str,
) -> (r: Option<ApexLolAugmentResult>)
    ensures
        page_result(r, section_lines(html@, champion_page_markers()), augment_name@, champion_name@,
            augment_name@, source_url@, fetched_at@,
            None, "已找到海克斯名称，但未能稳定解析评分或说明。"@),
{
    let h = to_chars(html);
    let lines = section_lines_chars(&h, "海克斯联动分析", "Hextech Synergy Analysis");
    let index = match find_line_chars(&lines, &to_chars(augment_name)) {
        Some(i) => i,
        None => {
            return None;
        },
    };
    let line_count = lines.len();
    assert(index < line_count);
    let (rating, summary, tip) = entry_chars(&lines, index + 1);
    let ghost ls = section_lines(html@, champion_page_markers());
    assert(char_vec_views(lines@) == ls);
    assert(find_line(ls, augment_name@) == Some(index as int));
    let ghost e = entry_at(ls, index + 1);
    assert(e == (rating@, summary@, tip@));
    let status = status_text(&rating, &tip);
    assert(status@ == entry_status(e));
    let no_data = rating.len() == 0 && tip.len() == 0;
    let shown = if rating.len() == 0 {
        str_to_string("暂无数据")
    } else {
        string_from_chars(rating.as_slice())
    };
    assert(shown@ == shown_rating(e));
    let note = if no_data {
        Some(str_to_string("已找到海克斯名称，但未能稳定解析评分或说明。"))
    } else {
        None
    };
    let summary_text = string_from_chars(summary.as_slice());
    let tip_text = string_from_chars(tip.as_slice());
    Some(apex_lol_result(
        str_to_string(champion_name),
        str_to_string(augment_name),
        str_to_string(source_url),
        str_to_string(fetched_at),
        false,
        status,
        shown.as_str(),
        summary_text.as_str(),
        tip_text.as_str(),
        note,
    ))
}

/// On a champion page with no synergy section marker, the reader searches all
/// of the page's text lines: it returns a result exactly when some line names the
/// augment, and reads the entry after the first such line.
pub proof fn lemma_champion_page_without_marker(
    html: Seq<char>,
    champion_name: Seq<char>,
    augment_name: Seq<char>,
    source_url: Seq<char>,
    fetched_at: Seq<char>,
    r: Option<ApexLolAugmentResult>,
)
    requires
        forall|i: int|
            0 <= i < html_text_lines(html).len() ==> !has_marker(
                #[trigger] html_text_lines(html)[i],
                champion_page_markers(),
            ),
        page_result(r, section_lines(html, champion_page_markers()), augment_name, champion_name,
            augment_name, source_url, fetched_at, None, "已找到海克斯名称，但未能稳定解析评分或说明。"@),
    ensures
        r is Some <==> (normalize_name(augment_name).len() > 0 && exists|k: int|
            0 <= k < html_text_lines(html).len() && line_names(
                #[trigger] html_text_lines(html)[k],
                normalize_name(augment_name),
            )),
        page_result(r, html_text_lines(html), augment_name, champion_name, augment_name, source_url,
            fetched_at, None, "已找到海克斯名称，但未能稳定解析评分或说明。"@),
{
    lemma_section_lines(html, champion_page_markers());
    let ls = html_text_lines(html);
    lemma_find_line_is_first(ls, augment_name);
}

/// The first tip line after the description marker of an augment page.
pub open spec fn description(html: Seq<char>) -> Option<Seq<char>> {
    match lines_after_marker(html_text_lines(html), description_markers()) {
        None => None,
        Some(ls) => match first_index(ls, |l: Seq<char>| is_tip_line(l)) {
            Some(k) => Some(ls[k]),
            None => None,
        },
    }
}

fn description_chars(html: &Vec<char>) -> (r: Option<Vec<char>>)
    ensures
        match description(html@) {
            None => r is None,
            Some(v) => r is Some && r->0@ == v,
        },
{
    let lines = text_lines_chars(html);
    assert(char_vec_views(lines@) =~= html_text_lines(html@));
    let markers = page_markers("效果描述", "Description");
    let after = match lines_after_marker_chars(&lines, &markers) {
        Some(v) => v,
        None => {
            return None;
        },
    };
    let ghost views = char_vec_views(after@);
    let ghost p = |l: Seq<char>| is_tip_line(l);
    let mut i: usize = 0;
    while i < after.len()
        invariant
            i <= after@.len(),
            views == char_vec_views(after@),
            lines_after_marker(html_text_lines(html@), description_markers()) == Some(views),
            p == (|l: Seq<char>| is_tip_line(l)),
            first_index(views, p) == first_index_from(views, p, i as int),
        decreases after.len() - i,
    {
        assert(views[i as int] == after@[i as int]@);
        if tip_chars(&after[i]) {
            assert(p(views[i as int]));
            assert(first_index_from(views, p, i as int) == Some(i as int));
            return Some(after[i].clone());
        }
        i = i + 1;
    }
    None
}

/// The augment's description on its page: the first tip line after the
/// description marker.
pub fn extract_apex_lol_description(html: &str) -> (r: Option<String>)
    ensures
        match description(html@) {
            None => r is None,
            Some(v) => r is Some && r->0@ == v,
        },
{
    match description_chars(&to_chars(html)) {
        Some(v) => Some(string_from_chars(v.as_slice())),
        None => None,
    }
}

/// Reads an augment page: after the related-champions marker (or anywhere when
/// there is none), finds the line naming the champion and reads the entry after
/// it; the augment's description, when the page has one, is the summary.
pub fn parse_apex_lol_hextech_page(
    html: &str,
    champion_name: &str,
    augment_name: &str,
    source_url: &str,
    fetched_at: &str,
) -> (r: Option<ApexLolAugmentResult>)
    ensures
        page_result(r, section_lines(html@, augment_page_markers()), champion_name@, champion_name@,
            augment_name@, source_url@, fetched_at@,
            description(html@), "已找到英雄名称，但未能稳定解析评分或说明。"@),
{
    let h = to_chars(html);
    let lines = section_lines_chars(&h, "关联英雄及联动分析", "Related Champions & Interactions");
    let index = match find_line_chars(&lines, &to_chars(champion_name)) {
        Some(i) => i,
        None => {
            return None;
        },
    };
    let line_count = lines.len();
    assert(index < line_count);
    let (rating, summary, tip) = entry_chars(&lines, index + 1);
    let status = status_text(&rating, &tip);
    let no_data = rating.len() == 0 && tip.len() == 0;
    let shown = if rating.len() == 0 {
        str_to_string("暂无数据")
    } else {
        string_from_chars(rating.as_slice())
    };
    let augment_summary = match description_chars(&h) {
        Some(d) => string_from_chars(d.as_slice()),
        None => string_from_chars(summary.as_slice()),
    };
    let note = if no_data {
        Some(str_to_string("已找到英雄名称，但未能稳定解析评分或说明。"))
    } else {
        None
    };
    let tip_text = string_from_chars(tip.as_slice());
    Some(apex_lol_result(
        str_to_string(champion_name),
        str_to_string(augment_name),
        str_to_string(source_url),
        str_to_string(fetched_at),
        false,
        status,
        shown.as_str(),
        augment_summary.as_str(),
        tip_text.as_str(),
        note,
    ))
}

} // verus!
