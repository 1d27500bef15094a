//! A small HTML reader: tag stripping, entity unescaping, text lines, links,
//! attributes and `<meta>` contents.
use vstd::prelude::*;
use crate::text::{
    append_chars, char_is_whitespace, chars_equal, clean_lines, clean_text_lines, contains_chars,
    contains_seq, find_chars, find_chars_from, find_from, find_seq, join_space, lemma_find_from,
    replace_all, replace_chars, string_from_chars, subrange_chars, to_chars, trim_start,
    unicode_whitespace,
};

verus! {

// ---------------------------------------------------------------------------
// Entities
// ---------------------------------------------------------------------------
/// The seven entities that the reader decodes, in the order it decodes them.
pub open spec fn unescape(s: Seq<char>) -> Seq<char> {
    let s1 = replace_all(s, "&quot;"@, "\""@);
    let s2 = replace_all(s1, "&#39;"@, "'"@);
    let s3 = replace_all(s2, "&apos;"@, "'"@);
    let s4 = replace_all(s3, "&amp;"@, "&"@);
    let s5 = replace_all(s4, "&lt;"@, "<"@);
    let s6 = replace_all(s5, "&gt;"@, ">"@);
    replace_all(s6, "&nbsp;"@, " "@)
}

fn replace_literal(s: &Vec<char>, from: &str, to: &str) -> (r: Vec<char>)
    requires
        from@.len() > 0,
    ensures
        r@ == replace_all(s@, from@, to@),
{
    let f = to_chars(from);
    let t = to_chars(to);
    replace_chars(s, &f, &t)
}

pub fn unescape_chars(s: &Vec<char>) -> (r: Vec<char>)
    ensures
        r@ == unescape(s@),
{
    proof {
        reveal_strlit("&quot;");
        reveal_strlit("&#39;");
        reveal_strlit("&apos;");
        reveal_strlit("&amp;");
        reveal_strlit("&lt;");
        reveal_strlit("&gt;");
        reveal_strlit("&nbsp;");
    }
    let s1 = replace_literal(s, "&quot;", "\"");
    let s2 = replace_literal(&s1, "&#39;", "'");
    let s3 = replace_literal(&s2, "&apos;", "'");
    let s4 = replace_literal(&s3, "&amp;", "&");
    let s5 = replace_literal(&s4, "&lt;", "<");
    let s6 = replace_literal(&s5, "&gt;", ">");
    replace_literal(&s6, "&nbsp;", " ")
}

/// Decodes `&quot;`, `&#39;`, `&apos;`, `&amp;`, `&lt;`, `&gt;` and `&nbsp;`, one
/// entity after the other over the whole text.
pub fn html_unescape(value: &str) -> (r: String)
    ensures
        r@ == unescape(value@),
{
    let v = to_chars(value);
    let u = unescape_chars(&v);
    string_from_chars(u.as_slice())
}

// ---------------------------------------------------------------------------
// Tags
// ---------------------------------------------------------------------------
pub open spec fn strip_leading_slashes(s: Seq<char>) -> Seq<char>
    decreases s.len(),
{
    if s.len() > 0 && s[0] == '/' {
        strip_leading_slashes(s.skip(1))
    } else {
        s
    }
}

/// The characters of `s` before its first whitespace.
pub open spec fn leading_word(s: Seq<char>) -> Seq<char>
    decreases s.len(),
{
    if s.len() == 0 || unicode_whitespace(s[0]) {
        seq![]
    } else {
        seq![s[0]] + leading_word(s.skip(1))
    }
}

/// The name of a tag from the text between `<` and `>`: leading slashes
/// removed, then the first whitespace-separated word.
pub open spec fn tag_name(tag: Seq<char>) -> Seq<char> {
    leading_word(trim_start(strip_leading_slashes(tag)))
}

/// Tags that end a line of text.
pub open spec fn is_block_tag(name: Seq<char>) -> bool {
    name == "br"@ || name == "p"@ || name == "div"@ || name == "section"@ || name == "article"@
        || name == "li"@ || name == "h1"@ || name == "h2"@ || name == "h3"@ || name == "h4"@
        || name == "tr"@ || name == "td"@ || name == "th"@
}

/// The scanner's state after reading `s`: whether it is inside a tag, the text of
/// the last tag opened, and the text produced so far.  A `>` ends a line after a
/// block tag and is a space otherwise.
pub open spec fn scan_tags(s: Seq<char>) -> (bool, Seq<char>, Seq<char>)
    decreases s.len(),
{
    if s.len() == 0 {
        (false, seq![], seq![])
    } else {
        let st = scan_tags(s.drop_last());
        let c = s.last();
        if c == '<' {
            (true, seq![], st.2)
        } else if c == '>' {
            (false, st.1, st.2.push(if is_block_tag(tag_name(st.1)) { '\n' } else { ' ' }))
        } else if st.0 {
            (true, st.1.push(c), st.2)
        } else {
            (false, st.1, st.2.push(c))
        }
    }
}

/// The text of `html` with its tags replaced by line breaks or spaces.
pub open spec fn strip_tags(html: Seq<char>) -> Seq<char> {
    scan_tags(html).2
}

/// The non-empty lines of text of `html`, whitespace collapsed, entities decoded.
pub open spec fn html_text_lines(html: Seq<char>) -> Seq<Seq<char>> {
    clean_lines(unescape(strip_tags(html)))
}

/// Every line of text read from a page is non-empty, holds no line feed, and is
/// made of words separated by single spaces (no leading, trailing or repeated
/// whitespace).
pub proof fn lemma_html_text_lines_normalized(html: Seq<char>)
    ensures
        forall|i: int|
            0 <= i < html_text_lines(html).len() ==> #[trigger] html_text_lines(html)[i].len() > 0
                && crate::text::spaced_words(html_text_lines(html)[i]) && !html_text_lines(html)[i].contains('\n'),
{
    crate::text::lemma_clean_lines_spaced(unescape(strip_tags(html)));
}

proof fn lemma_replace_absent(s: Seq<char>, from: Seq<char>, to: Seq<char>)
    requires
        from.len() > 0,
        from[0] == '&',
        !s.contains('&'),
    ensures
        replace_all(s, from, to) == s,
    decreases s.len(),
{
    if s.len() > 0 {
        assert(s[0] != '&');
        assert(!crate::text::has_prefix(s, from)) by {
            if crate::text::has_prefix(s, from) {
                assert(s.subrange(0, from.len() as int)[0] == s[0]);
            }
        }
        assert forall|i: int| 0 <= i < s.skip(1).len() implies s.skip(1)[i] != '&' by {
            assert(s.skip(1)[i] == s[i + 1]);
        }
        lemma_replace_absent(s.skip(1), from, to);
        assert(seq![s[0]] + s.skip(1) =~= s);
    }
}

proof fn lemma_scan_plain(s: Seq<char>)
    requires
        !s.contains('<'),
        !s.contains('>'),
    ensures
        scan_tags(s) == (false, Seq::<char>::empty(), s),
    decreases s.len(),
{
    if s.len() > 0 {
        let p = s.drop_last();
        assert(!p.contains('<') && !p.contains('>')) by {
            if p.contains('<') {
                let i = choose|i: int| 0 <= i < p.len() && p[i] == '<';
                assert(s[i] == '<');
            }
            if p.contains('>') {
                let i = choose|i: int| 0 <= i < p.len() && p[i] == '>';
                assert(s[i] == '>');
            }
        }
        lemma_scan_plain(p);
        assert(s.last() == s[s.len() - 1]);
        assert(p.push(s.last()) =~= s);
    }
}

/// A text with no `<`, `>` or `&` reads as its own non-blank lines with their
/// whitespace collapsed.
pub proof fn lemma_html_text_lines_plain(html: Seq<char>)
    requires
        !html.contains('<'),
        !html.contains('>'),
        !html.contains('&'),
    ensures
        html_text_lines(html) == clean_lines(html),
{
    lemma_scan_plain(html);
    reveal_strlit("&quot;");
    reveal_strlit("&#39;");
    reveal_strlit("&apos;");
    reveal_strlit("&amp;");
    reveal_strlit("&lt;");
    reveal_strlit("&gt;");
    reveal_strlit("&nbsp;");
    lemma_replace_absent(html, "&quot;"@, "\""@);
    lemma_replace_absent(html, "&#39;"@, "'"@);
    lemma_replace_absent(html, "&apos;"@, "'"@);
    lemma_replace_absent(html, "&amp;"@, "&"@);
    lemma_replace_absent(html, "&lt;"@, "<"@);
    lemma_replace_absent(html, "&gt;"@, ">"@);
    lemma_replace_absent(html, "&nbsp;"@, " "@);
}

proof fn lemma_unescape_absent(s: Seq<char>)
    requires
        !s.contains('&'),
    ensures
        unescape(s) == s,
{
    reveal_strlit("&quot;");
    reveal_strlit("&#39;");
    reveal_strlit("&apos;");
    reveal_strlit("&amp;");
    reveal_strlit("&lt;");
    reveal_strlit("&gt;");
    reveal_strlit("&nbsp;");
    lemma_replace_absent(s, "&quot;"@, "\""@);
    lemma_replace_absent(s, "&#39;"@, "'"@);
    lemma_replace_absent(s, "&apos;"@, "'"@);
    lemma_replace_absent(s, "&amp;"@, "&"@);
    lemma_replace_absent(s, "&lt;"@, "<"@);
    lemma_replace_absent(s, "&gt;"@, ">"@);
    lemma_replace_absent(s, "&nbsp;"@, " "@);
}

/// Text without `<` or `>` extends the open tag inside a tag and the output
/// outside one.
proof fn lemma_scan_extend(s: Seq<char>, u: Seq<char>)
    requires
        !u.contains('<'),
        !u.contains('>'),
    ensures
        scan_tags(s + u) == (if scan_tags(s).0 {
            (true, scan_tags(s).1 + u, scan_tags(s).2)
        } else {
            (false, scan_tags(s).1, scan_tags(s).2 + u)
        }),
    decreases u.len(),
{
    let st = scan_tags(s);
    if u.len() == 0 {
        assert(s + u =~= s);
        assert(st.1 + u =~= st.1);
        assert(st.2 + u =~= st.2);
    } else {
        let v = u.drop_last();
        assert(!v.contains('<') && !v.contains('>')) by {
            if v.contains('<') {
                let i = choose|i: int| 0 <= i < v.len() && v[i] == '<';
                assert(u[i] == '<');
            }
            if v.contains('>') {
                let i = choose|i: int| 0 <= i < v.len() && v[i] == '>';
                assert(u[i] == '>');
            }
        }
        lemma_scan_extend(s, v);
        assert((s + u).drop_last() =~= s + v);
        assert((s + u).last() == u[u.len() - 1]);
        assert(u[u.len() - 1] != '<' && u[u.len() - 1] != '>');
        assert((st.1 + v).push(u.last()) =~= st.1 + u);
        assert((st.2 + v).push(u.last()) =~= st.2 + u);
    }
}

proof fn lemma_scan_push(s: Seq<char>, c: char)
    ensures
        scan_tags(s.push(c)) == (if c == '<' {
            (true, Seq::<char>::empty(), scan_tags(s).2)
        } else if c == '>' {
            (false, scan_tags(s).1, scan_tags(s).2.push(
                if is_block_tag(tag_name(scan_tags(s).1)) { '\n' } else { ' ' },
            ))
        } else if scan_tags(s).0 {
            (true, scan_tags(s).1.push(c), scan_tags(s).2)
        } else {
            (false, scan_tags(s).1, scan_tags(s).2.push(c))
        }),
{
    assert(s.push(c).drop_last() =~= s);
}

/// The name read from a tag made of one word, with or without a leading slash.
proof fn lemma_tag_name_word(t: Seq<char>)
    requires
        t.len() > 0,
        forall|k: int| 0 <= k < t.len() ==> #[trigger] t[k] != '/' && !unicode_whitespace(t[k]),
    ensures
        tag_name(t) == t,
        tag_name(seq!['/'] + t) == t,
{
    lemma_strip_slashes(t, 0);
    assert(t.skip(0) =~= t);
    lemma_trim_start_at(t, 0);
    lemma_leading_word(t, 0, t.len() as int);
    assert(t.subrange(0, t.len() as int) =~= t);
    let st = seq!['/'] + t;
    assert(st[1] == t[0]);
    lemma_strip_slashes(st, 1);
    assert(st.skip(1) =~= t);
}

/// A tag from the list that ends lines, written as it is.
pub open spec fn line_break_tag(t: Seq<char>) -> bool {
    t == "br"@ || t == "p"@ || t == "div"@ || t == "section"@ || t == "article"@ || t == "li"@
        || t == "h1"@ || t == "h2"@ || t == "h3"@ || t == "h4"@ || t == "tr"@ || t == "td"@
        || t == "th"@
}

/// A word of page text: no whitespace and none of `<`, `>`, `&`.
pub open spec fn text_word(w: Seq<char>) -> bool {
    crate::text::plain_word(w) && !w.contains('<') && !w.contains('>') && !w.contains('&')
}

/// Every tag that the reader documents as a line break (`br`, `p`, `div`,
/// `section`, `article`, `li`, `h1`-`h4`, `tr`, `td`, `th`) ends a line: the text
/// lines of `<t>a</t>b` are exactly `a` and `b`.
pub proof fn lemma_block_tag_ends_line(t: Seq<char>, a: Seq<char>, b: Seq<char>)
    requires
        line_break_tag(t),
        text_word(a),
        text_word(b),
    ensures
        html_text_lines(seq!['<'] + t + seq!['>'] + a + seq!['<', '/'] + t + seq!['>'] + b) == seq![a, b],
{
    reveal_strlit("br");
    reveal_strlit("p");
    reveal_strlit("div");
    reveal_strlit("section");
    reveal_strlit("article");
    reveal_strlit("li");
    reveal_strlit("h1");
    reveal_strlit("h2");
    reveal_strlit("h3");
    reveal_strlit("h4");
    reveal_strlit("tr");
    reveal_strlit("td");
    reveal_strlit("th");
    assert(t.len() > 0);
    assert(forall|k: int| 0 <= k < t.len() ==> ('a' <= #[trigger] t[k] <= 'z' || '0' <= t[k] <= '9'));
    assert(forall|k: int| 0 <= k < t.len() ==> #[trigger] t[k] != '/' && !unicode_whitespace(t[k]));
    lemma_tag_name_word(t);
    assert(is_block_tag(t));
    assert(!t.contains('<') && !t.contains('>')) by {
        if t.contains('<') {
            let i = choose|i: int| 0 <= i < t.len() && t[i] == '<';
            assert('a' <= t[i] <= 'z' || '0' <= t[i] <= '9');
        }
        if t.contains('>') {
            let i = choose|i: int| 0 <= i < t.len() && t[i] == '>';
            assert('a' <= t[i] <= 'z' || '0' <= t[i] <= '9');
        }
    }
    let st = seq!['/'] + t;
    assert(!st.contains('<') && !st.contains('>')) by {
        if st.contains('<') {
            let i = choose|i: int| 0 <= i < st.len() && st[i] == '<';
            assert(i > 0 && st[i] == t[i - 1]);
        }
        if st.contains('>') {
            let i = choose|i: int| 0 <= i < st.len() && st[i] == '>';
            assert(i > 0 && st[i] == t[i - 1]);
        }
    }
    let e = Seq::<char>::empty();
    let h0 = e.push('<');
    lemma_scan_push(e, '<');
    assert(scan_tags(e) == (false, e, e));
    let h1 = h0 + t;
    lemma_scan_extend(h0, t);
    assert(e + t =~= t);
    let h2 = h1.push('>');
    lemma_scan_push(h1, '>');
    let h3 = h2 + a;
    lemma_scan_extend(h2, a);
    let h4 = h3.push('<');
    lemma_scan_push(h3, '<');
    let h5 = h4 + st;
    lemma_scan_extend(h4, st);
    assert(e + st =~= st);
    let h6 = h5.push('>');
    lemma_scan_push(h5, '>');
    let h7 = h6 + b;
    lemma_scan_extend(h6, b);
    assert(h7 =~= seq!['<'] + t + seq!['>'] + a + seq!['<', '/'] + t + seq!['>'] + b);
    let text = seq!['\n'] + a + seq!['\n'] + b;
    assert(strip_tags(h7) =~= text);
    assert(!text.contains('&')) by {
        if text.contains('&') {
            let i = choose|i: int| 0 <= i < text.len() && text[i] == '&';
            if 1 <= i < 1 + a.len() {
                assert(a[i - 1] == '&');
            } else if i > 1 + a.len() {
                assert(b[i - 2 - a.len()] == '&');
            }
        }
    }
    lemma_unescape_absent(text);
    crate::text::lemma_clean_lines_two_words(a, b);
}

fn leading_word_chars(s: &Vec<char>, from: usize) -> (r: Vec<char>)
    requires
        from <= s@.len(),
    ensures
        r@ == leading_word(s@.skip(from as int)),
{
    let mut i = from;
    while i < s.len() && !char_is_whitespace(s[i])
        invariant
            from <= i <= s@.len(),
            forall|k: int| from <= k < i ==> !unicode_whitespace(s@[k]),
        decreases s.len() - i,
    {
        i = i + 1;
    }
    proof {
        lemma_leading_word(s@, from as int, i as int);
    }
    subrange_chars(s, from, i)
}

proof fn lemma_leading_word(s: Seq<char>, from: int, i: int)
    requires
        0 <= from <= i <= s.len(),
        forall|k: int| from <= k < i ==> !unicode_whitespace(s[k]),
        i == s.len() || unicode_whitespace(s[i]),
    ensures
        leading_word(s.skip(from)) == s.subrange(from, i),
    decreases i - from,
{
    if from == i {
        if i < s.len() {
            assert(s.skip(from)[0] == s[i]);
        }
    } else {
        lemma_leading_word(s, from + 1, i);
        assert(s.skip(from).skip(1) =~= s.skip(from + 1));
        assert(s.skip(from)[0] == s[from]);
        assert(seq![s[from]] + s.subrange(from + 1, i) =~= s.subrange(from, i));
    }
}

proof fn lemma_strip_slashes(s: Seq<char>, i: int)
    requires
        0 <= i <= s.len(),
        forall|k: int| 0 <= k < i ==> s[k] == '/',
        i == s.len() || s[i] != '/',
    ensures
        strip_leading_slashes(s) == s.skip(i),
    decreases i,
{
    if i == 0 {
        assert(s.skip(0) =~= s);
    } else {
        lemma_strip_slashes(s.skip(1), i - 1);
        assert(s.skip(1).skip(i - 1) =~= s.skip(i));
    }
}

proof fn lemma_trim_start_at(s: Seq<char>, i: int)
    requires
        0 <= i <= s.len(),
        forall|k: int| 0 <= k < i ==> unicode_whitespace(s[k]),
        i == s.len() || !unicode_whitespace(s[i]),
    ensures
        trim_start(s) == s.skip(i),
    decreases i,
{
    if i == 0 {
        assert(s.skip(0) =~= s);
    } else {
        lemma_trim_start_at(s.skip(1), i - 1);
        assert(s.skip(1).skip(i - 1) =~= s.skip(i));
    }
}

fn tag_name_chars(tag: &Vec<char>) -> (r: Vec<char>)
    ensures
        r@ == tag_name(tag@),
{
    let mut i: usize = 0;
    while i < tag.len() && tag[i] == '/'
        invariant
            i <= tag@.len(),
            forall|k: int| 0 <= k < i ==> tag@[k] == '/',
        decreases tag.len() - i,
    {
        i = i + 1;
    }
    proof {
        lemma_strip_slashes(tag@, i as int);
    }
    let ghost after = tag@.skip(i as int);
    let j0 = i;
    while i < tag.len() && char_is_whitespace(tag[i])
        invariant
            j0 <= i <= tag@.len(),
            after == tag@.skip(j0 as int),
            forall|k: int| j0 <= k < i ==> unicode_whitespace(tag@[k]),
        decreases tag.len() - i,
    {
        i = i + 1;
    }
    proof {
        assert forall|k: int| 0 <= k < i - j0 implies unicode_whitespace(after[k]) by {
            assert(after[k] == tag@[j0 + k]);
        }
        if i < tag@.len() {
            assert(after[i - j0] == tag@[i as int]);
        }
        lemma_trim_start_at(after, i - j0);
        assert(after.skip(i - j0) =~= tag@.skip(i as int));
    }
    leading_word_chars(tag, i)
}

fn is_block_tag_chars(name: &Vec<char>) -> (r: bool)
    ensures
        r == is_block_tag(name@),
{
    let names: [&str; 13] = ["br", "p", "div", "section", "article", "li", "h1", "h2", "h3", "h4", "tr", "td", "th"];
    let mut k: usize = 0;
    while k < 13
        invariant
            k <= 13,
            names@ == seq!["br", "p", "div", "section", "article", "li", "h1", "h2", "h3", "h4", "tr", "td", "th"],
            forall|j: int| 0 <= j < k ==> name@ != names@[j]@,
        decreases 13 - k,
    {
        let candidate = to_chars(names[k]);
        if chars_equal(name, &candidate) {
            return true;
        }
        k = k + 1;
    }
    assert(!is_block_tag(name@)) by {
        assert(name@ != names@[0]@);
        assert(name@ != names@[1]@);
        assert(name@ != names@[2]@);
        assert(name@ != names@[3]@);
        assert(name@ != names@[4]@);
        assert(name@ != names@[5]@);
        assert(name@ != names@[6]@);
        assert(name@ != names@[7]@);
        assert(name@ != names@[8]@);
        assert(name@ != names@[9]@);
        assert(name@ != names@[10]@);
        assert(name@ != names@[11]@);
        assert(name@ != names@[12]@);
    }
    false
}

pub fn strip_tags_chars(html: &Vec<char>) -> (r: Vec<char>)
    ensures
        r@ == strip_tags(html@),
{
    let mut text: Vec<char> = Vec::new();
    let mut tag: Vec<char> = Vec::new();
    let mut in_tag = false;
    let mut i: usize = 0;
    while i < html.len()
        invariant
            i <= html@.len(),
            scan_tags(html@.take(i as int)) == (in_tag, tag@, text@),
        decreases html.len() - i,
    {
        let c = html[i];
        proof {
            assert(html@.take(i + 1).drop_last() =~= html@.take(i as int));
            assert(html@.take(i + 1).last() == c);
        }
        if c == '<' {
            in_tag = true;
            tag = Vec::new();
        } else if c == '>' {
            let name = tag_name_chars(&tag);
            if is_block_tag_chars(&name) {
                text.push('\n');
            } else {
                text.push(' ');
            }
            in_tag = false;
        } else if in_tag {
            tag.push(c);
        } else {
            text.push(c);
        }
        i = i + 1;
    }
    assert(html@.take(html@.len() as int) =~= html@);
    text
}

/// The non-empty lines of text of `html`, as character vectors.
pub fn text_lines_chars(html: &Vec<char>) -> (r: Vec<Vec<char>>)
    ensures
        r@.len() == html_text_lines(html@).len(),
        forall|i: int| 0 <= i < r@.len() ==> #[trigger] r@[i]@ == html_text_lines(html@)[i],
{
    let stripped = strip_tags_chars(html);
    let unescaped = unescape_chars(&stripped);
    clean_text_lines(&unescaped)
}

/// The views of a list of strings.
pub open spec fn string_views(v: Seq<String>) -> Seq<Seq<char>> {
    Seq::new(v.len(), |i: int| v[i]@)
}

/// The views of a list of character vectors.
pub open spec fn char_vec_views(v: Seq<Vec<char>>) -> Seq<Seq<char>> {
    Seq::new(v.len(), |i: int| v[i]@)
}

pub fn strings_from_char_vecs(v: &Vec<Vec<char>>) -> (r: Vec<String>)
    ensures
        string_views(r@) == char_vec_views(v@),
{
    let mut out: Vec<String> = Vec::new();
    let mut i: usize = 0;
    while i < v.len()
        invariant
            i <= v@.len(),
            out@.len() == i,
            forall|k: int| 0 <= k < i ==> #[trigger] out@[k]@ == v@[k]@,
        decreases v.len() - i,
    {
        out.push(string_from_chars(v[i].as_slice()));
        i = i + 1;
    }
    assert(string_views(out@) =~= char_vec_views(v@));
    out
}

pub fn char_vecs_from_strings(v: &[String]) -> (r: Vec<Vec<char>>)
    ensures
        char_vec_views(r@) == string_views(v@),
{
    let mut out: Vec<Vec<char>> = Vec::new();
    let mut i: usize = 0;
    while i < v.len()
        invariant
            i <= v@.len(),
            out@.len() == i,
            forall|k: int| 0 <= k < i ==> #[trigger] out@[k]@ == v@[k]@,
        decreases v.len() - i,
    {
        out.push(to_chars(v[i].as_str()));
        i = i + 1;
    }
    assert(char_vec_views(out@) =~= string_views(v@));
    out
}

/// Splits an HTML document into its non-empty lines of text: tags become
/// spaces, or line breaks after `br`, `p`, `div`, `section`, `article`, `li`,
/// `h1`–`h4`, `tr`, `td` and `th`; entities are decoded; runs of whitespace
/// inside a line become one space.
pub fn html_to_text_lines(html: &str) -> (r: Vec<String>)
    ensures
        string_views(r@) == html_text_lines(html@),
{
    let h = to_chars(html);
    let lines = text_lines_chars(&h);
    let r = strings_from_char_vecs(&lines);
    assert(char_vec_views(lines@) =~= html_text_lines(html@));
    r
}


// ---------------------------------------------------------------------------
// Attributes
// ---------------------------------------------------------------------------
/// What the reader finds for `name="…"` (quote `q`) in `attrs`: `None` when
/// `name=` followed by `q` does not occur, `Some(None)` when the value is not
/// closed, `Some(Some(value))` otherwise.
pub open spec fn quoted_attr(attrs: Seq<char>, name: Seq<char>, q: char) -> Option<Option<Seq<char>>> {
    let needle = name + seq!['='] + seq![q];
    match find_seq(attrs, needle) {
        None => None,
        Some(st) => {
            let vs = st + needle.len();
            match find_from(attrs, seq![q], vs) {
                None => Some(None),
                Some(e) => Some(Some(attrs.subrange(vs, e))),
            }
        },
    }
}

/// The value of attribute `name`, double quotes tried before single quotes.
pub open spec fn html_attr(attrs: Seq<char>, name: Seq<char>) -> Option<Seq<char>> {
    match quoted_attr(attrs, name, '"') {
        Some(r) => r,
        None => match quoted_attr(attrs, name, '\'') {
            Some(r) => r,
            None => None,
        },
    }
}

fn quoted_attr_chars(attrs: &Vec<char>, name: &Vec<char>, q: char) -> (r: Option<Option<Vec<char>>>)
    ensures
        match quoted_attr(attrs@, name@, q) {
            None => r is None,
            Some(None) => r == Some(None::<Vec<char>>),
            Some(Some(v)) => r is Some && r->0 is Some && r->0->0@ == v,
        },
{
    let mut needle = name.clone();
    needle.push('=');
    needle.push(q);
    proof {
        assert(needle@ =~= name@ + seq!['='] + seq![q]);
    }
    match find_chars(attrs, &needle) {
        None => None,
        Some(st) => {
            proof {
                lemma_find_from(attrs@, needle@, 0);
            }
            let alen = attrs.len();
            assert(st + needle@.len() <= alen);
            let vs = st + needle.len();
            let mut qv: Vec<char> = Vec::new();
            qv.push(q);
            proof {
                assert(qv@ =~= seq![q]);
            }
            match find_chars_from(attrs, &qv, vs) {
                None => Some(None),
                Some(e) => {
                    proof {
                        lemma_find_from(attrs@, qv@, vs as int);
                    }
                    Some(Some(subrange_chars(attrs, vs, e)))
                },
            }
        },
    }
}

pub fn html_attr_chars(attrs: &Vec<char>, name: &Vec<char>) -> (r: Option<Vec<char>>)
    ensures
        match html_attr(attrs@, name@) {
            None => r is None,
            Some(v) => r is Some && r->0@ == v,
        },
{
    match quoted_attr_chars(attrs, name, '"') {
        Some(found) => found,
        None => match quoted_attr_chars(attrs, name, '\'') {
            Some(found) => found,
            None => None,
        },
    }
}

/// The value of attribute `name` in the text of an opening tag, double quotes
/// tried before single quotes; `None` when the attribute is missing or its value
/// is not closed.
pub fn extract_html_attr(attrs: &str, name: &str) -> (r: Option<String>)
    ensures
        match html_attr(attrs@, name@) {
            None => r is None,
            Some(v) => r is Some && r->0@ == v,
        },
{
    let a = to_chars(attrs);
    let n = to_chars(name);
    match html_attr_chars(&a, &n) {
        Some(v) => Some(string_from_chars(v.as_slice())),
        None => None,
    }
}

// ---------------------------------------------------------------------------
// <meta> contents
// ---------------------------------------------------------------------------
pub open spec fn meta_needle(name: Seq<char>) -> Seq<char> {
    "name=\""@ + name + seq!['"']
}

/// The decoded `content` of the first `<meta …>` tag, at or after `pos`, whose
/// text holds `name="<name>"`.
pub open spec fn meta_content_from(html: Seq<char>, name: Seq<char>, pos: int) -> Option<Seq<char>>
    decreases html.len() + 1 - pos,
{
    if pos < 0 || pos > html.len() {
        None
    } else {
        match find_from(html, "<meta"@, pos) {
            None => None,
            Some(st) => match find_from(html, seq!['>'], st) {
                None => None,
                Some(end) => {
                    proof {
                        lemma_find_from(html, "<meta"@, pos);
                        lemma_find_from(html, seq!['>'], st);
                    }
                    let tag = html.subrange(st, end);
                    if contains_seq(tag, meta_needle(name)) {
                        match html_attr(tag, "content"@) {
                            Some(v) => Some(unescape(v)),
                            None => None,
                        }
                    } else {
                        meta_content_from(html, name, end + 1)
                    }
                },
            },
        }
    }
}

pub open spec fn meta_content(html: Seq<char>, name: Seq<char>) -> Option<Seq<char>> {
    meta_content_from(html, name, 0)
}

pub fn meta_content_chars(html: &Vec<char>, name: &Vec<char>) -> (r: Option<Vec<char>>)
    ensures
        match meta_content(html@, name@) {
            None => r is None,
            Some(v) => r is Some && r->0@ == v,
        },
{
    let open = to_chars("<meta");
    let mut gt: Vec<char> = Vec::new();
    gt.push('>');
    assert(gt@ =~= seq!['>']);
    let mut needle = to_chars("name=\"");
    append_chars(&mut needle, name);
    needle.push('"');
    assert(needle@ =~= meta_needle(name@));
    let content = to_chars("content");
    let mut pos: usize = 0;
    while pos <= html.len()
        invariant
            pos <= html@.len() + 1,
            open@ == "<meta"@,
            gt@ == seq!['>'],
            needle@ == meta_needle(name@),
            content@ == "content"@,
            meta_content(html@, name@) == meta_content_from(html@, name@, pos as int),
        decreases html@.len() + 1 - pos,
    {
        match find_chars_from(html, &open, pos) {
            None => {
                return None;
            },
            Some(st) => {
                proof {
                    lemma_find_from(html@, open@, pos as int);
                }
                match find_chars_from(html, &gt, st) {
                    None => {
                        return None;
                    },
                    Some(end) => {
                        proof {
                            lemma_find_from(html@, gt@, st as int);
                        }
                        let tag = subrange_chars(html, st, end);
                        if contains_chars(&tag, &needle) {
                            return match html_attr_chars(&tag, &content) {
                                Some(v) => Some(unescape_chars(&v)),
                                None => None,
                            };
                        }
                        pos = end + 1;
                    },
                }
            },
        }
    }
    None
}

/// The decoded `content` of the first `<meta>` tag that carries `name="<name>"`.
pub fn extract_meta_content(html: &str, name: &str) -> (r: Option<String>)
    ensures
        match meta_content(html@, name@) {
            None => r is None,
            Some(v) => r is Some && r->0@ == v,
        },
{
    let h = to_chars(html);
    let n = to_chars(name);
    match meta_content_chars(&h, &n) {
        Some(v) => Some(string_from_chars(v.as_slice())),
        None => None,
    }
}

/// The page's `<meta name="description">` content.
pub fn extract_meta_description(html: &str) -> (r: Option<String>)
    ensures
        match meta_content(html@, "description"@) {
            None => r is None,
            Some(v) => r is Some && r->0@ == v,
        },
{
    extract_meta_content(html, "description")
}

// ---------------------------------------------------------------------------
// Links
// ---------------------------------------------------------------------------
pub open spec fn anchor_close() -> Seq<char> {
    seq!['<', '/', 'a', '>']
}

/// The links at or after `pos`: each `<a` opening, up to its `>`, with an `href`
/// attribute, paired with the text up to the next `</a>` (its lines joined by
/// spaces).  Reading stops at the first opening that is not closed.
pub open spec fn links_from(html: Seq<char>, pos: int) -> Seq<(Seq<char>, Seq<char>)>
    decreases html.len() + 1 - pos,
{
    if pos < 0 || pos > html.len() {
        seq![]
    } else {
        match find_from(html, "<a"@, pos) {
            None => seq![],
            Some(st) => match find_from(html, seq!['>'], st) {
                None => seq![],
                Some(oe) => match find_from(html, anchor_close(), oe + 1) {
                    None => seq![],
                    Some(cs) => {
                        proof {
                            lemma_find_from(html, "<a"@, pos);
                            lemma_find_from(html, seq!['>'], st);
                            lemma_find_from(html, anchor_close(), oe + 1);
                        }
                        let rest = links_from(html, cs + 4);
                        match html_attr(html.subrange(st, oe), "href"@) {
                            Some(h) => seq![
                                (unescape(h), join_space(html_text_lines(html.subrange(oe + 1, cs)))),
                            ] + rest,
                            None => rest,
                        }
                    },
                },
            },
        }
    }
}

pub open spec fn html_links(html: Seq<char>) -> Seq<(Seq<char>, Seq<char>)> {
    links_from(html, 0)
}

pub open spec fn link_views(v: Seq<(Vec<char>, Vec<char>)>) -> Seq<(Seq<char>, Seq<char>)> {
    Seq::new(v.len(), |i: int| (v[i].0@, v[i].1@))
}

pub open spec fn string_link_views(v: Seq<(String, String)>) -> Seq<(Seq<char>, Seq<char>)> {
    Seq::new(v.len(), |i: int| (v[i].0@, v[i].1@))
}

/// Joins lines with single spaces.
pub fn join_lines_space(lines: &Vec<Vec<char>>) -> (r: Vec<char>)
    ensures
        r@ == join_space(char_vec_views(lines@)),
{
    let mut out: Vec<char> = Vec::new();
    let mut i: usize = 0;
    while i < lines.len()
        invariant
            i <= lines@.len(),
            out@ == join_space(char_vec_views(lines@).take(i as int)),
        decreases lines.len() - i,
    {
        let ghost pre = char_vec_views(lines@).take(i as int);
        proof {
            assert(char_vec_views(lines@).take(i + 1) =~= pre.push(lines@[i as int]@));
            assert(pre.push(lines@[i as int]@).drop_last() =~= pre);
        }
        if i > 0 {
            out.push(' ');
        }
        append_chars(&mut out, &lines[i]);
        proof {
            if i == 0 {
                assert(pre.len() == 0);
                assert(out@ =~= lines@[0]@);
            }
        }
        i = i + 1;
    }
    assert(char_vec_views(lines@).take(lines@.len() as int) =~= char_vec_views(lines@));
    out
}

pub fn links_chars(html: &Vec<char>) -> (r: Vec<(Vec<char>, Vec<char>)>)
    ensures
        link_views(r@) == html_links(html@),
{
    let open = to_chars("<a");
    let mut gt: Vec<char> = Vec::new();
    gt.push('>');
    assert(gt@ =~= seq!['>']);
    let mut close: Vec<char> = Vec::new();
    close.push('<');
    close.push('/');
    close.push('a');
    close.push('>');
    assert(close@ =~= anchor_close());
    let href = to_chars("href");
    let mut links: Vec<(Vec<char>, Vec<char>)> = Vec::new();
    let mut pos: usize = 0;
    assert(link_views(links@) + links_from(html@, 0) =~= html_links(html@));
    while pos <= html.len()
        invariant
            pos <= html@.len() + 1,
            open@ == "<a"@,
            gt@ == seq!['>'],
            close@ == anchor_close(),
            href@ == "href"@,
            link_views(links@) + links_from(html@, pos as int) == html_links(html@),
        ensures
            link_views(links@) == html_links(html@),
        decreases html@.len() + 1 - pos,
    {
        let ghost before = link_views(links@);
        let st = match find_chars_from(html, &open, pos) {
            None => {
                assert(link_views(links@) + seq![] =~= link_views(links@));
                break;
            },
            Some(st) => st,
        };
        proof {
            lemma_find_from(html@, open@, pos as int);
        }
        let oe = match find_chars_from(html, &gt, st) {
            None => {
                assert(link_views(links@) + seq![] =~= link_views(links@));
                break;
            },
            Some(oe) => oe,
        };
        proof {
            lemma_find_from(html@, gt@, st as int);
        }
        let cs = match find_chars_from(html, &close, oe + 1) {
            None => {
                assert(link_views(links@) + seq![] =~= link_views(links@));
                break;
            },
            Some(cs) => cs,
        };
        proof {
            lemma_find_from(html@, close@, oe + 1);
        }
        let attrs = subrange_chars(html, st, oe);
        match html_attr_chars(&attrs, &href) {
            Some(h) => {
                let inner = subrange_chars(html, oe + 1, cs);
                let lines = text_lines_chars(&inner);
                proof {
                    assert(char_vec_views(lines@) =~= html_text_lines(inner@));
                }
                let text = join_lines_space(&lines);
                let target = unescape_chars(&h);
                links.push((target, text));
                proof {
                    assert(link_views(links@) =~= before.push((target@, text@)));
                }
            },
            None => {},
        }
        pos = cs + 4;
        proof {
            assert(link_views(links@) + links_from(html@, pos as int) =~= html_links(html@));
        }
    }
    links
}

/// The links of an HTML document: the `href` of each `<a …>` tag, decoded,
/// paired with the tag's text.
pub fn extract_apex_lol_links(html: &str) -> (r: Vec<(String, String)>)
    ensures
        string_link_views(r@) == html_links(html@),
{
    let h = to_chars(html);
    let ls = links_chars(&h);
    let mut out: Vec<(String, String)> = Vec::new();
    let mut i: usize = 0;
    while i < ls.len()
        invariant
            i <= ls@.len(),
            out@.len() == i,
            forall|k: int| 0 <= k < i ==> #[trigger] out@[k].0@ == ls@[k].0@ && out@[k].1@ == ls@[k].1@,
        decreases ls.len() - i,
    {
        let a = string_from_chars(ls[i].0.as_slice());
        let b = string_from_chars(ls[i].1.as_slice());
        out.push((a, b));
        i = i + 1;
    }
    assert(string_link_views(out@) =~= link_views(ls@));
    out
}

} // verus!
