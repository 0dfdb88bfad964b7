//! A message body cut into plain text and links, as the conversation pane
//! lays it out.

use vstd::prelude::*;
use crate::format::{is_http_url, is_http_url_spec};
use crate::seqs::{insert_by, insert_by_pos, lemma_insert_by_at, lemma_insert_by_pos, sort_by_insertion};
use crate::shell::{byte_len, lemma_byte_len_push, links_view, utf8_width, utf8_width_of, TextLink, TextLinkView};
use crate::textutil::{chars_of, range_of, string_of};

verus! {

/// A piece of a message body: plain text, or a link with its label and URL.
#[derive(Clone, Debug, PartialEq, Eq)]
pub enum TextSpan {
    Text(String),
    Link { label: String, url: String },
}

pub enum TextSpanView {
    Text(Seq<char>),
    Link { label: Seq<char>, url: Seq<char> },
}

impl View for TextSpan {
    type V = TextSpanView;

    open spec fn view(&self) -> TextSpanView {
        match self {
            TextSpan::Text(t) => TextSpanView::Text(t@),
            TextSpan::Link { label, url } => TextSpanView::Link { label: label@, url: url@ },
        }
    }
}

pub open spec fn spans_view(v: Seq<TextSpan>) -> Seq<TextSpanView> {
    v.map_values(|t: TextSpan| t@)
}

/// From character `k` on: the character whose UTF-8 encoding starts at byte
/// `b` (the text's length counts for the end), `None` when `b` falls inside
/// a character or past the end.
pub open spec fn char_at_byte_from(s: Seq<char>, b: int, k: int) -> Option<int>
    decreases s.len() + 1 - k,
{
    if k < 0 || k > s.len() {
        None
    } else if byte_len(s.take(k)) == b {
        Some(k)
    } else if byte_len(s.take(k)) > b {
        None
    } else {
        char_at_byte_from(s, b, k + 1)
    }
}

/// The character at UTF-8 byte `b`, when `b` is a character boundary.
pub open spec fn char_at_byte(s: Seq<char>, b: int) -> Option<int> {
    char_at_byte_from(s, b, 0)
}

/// The characters a link covers, when its URL is `http`/`https` and its
/// byte range is non-empty and falls on character boundaries.
pub open spec fn link_chars(s: Seq<char>, l: TextLinkView) -> Option<(int, int)> {
    if l.start < l.end && is_http_url_spec(l.url) {
        match (char_at_byte(s, l.start as int), char_at_byte(s, l.end as int)) {
            (Some(a), Some(b)) => Some((a, b)),
            _ => None,
        }
    } else {
        None
    }
}

/// The usable links, in the order given: first character, end character,
/// and the link's index.
pub open spec fn valid_spans(s: Seq<char>, links: Seq<TextLinkView>) -> Seq<(usize, usize, usize)>
    decreases links.len(),
{
    if links.len() == 0 {
        Seq::empty()
    } else {
        let rest = valid_spans(s, links.drop_last());
        match link_chars(s, links.last()) {
            Some((a, b)) => rest.push((a as usize, b as usize, (links.len() - 1) as usize)),
            None => rest,
        }
    }
}

pub open spec fn start_before() -> spec_fn((usize, usize, usize), (usize, usize, usize)) -> bool {
    |x: (usize, usize, usize), y: (usize, usize, usize)| x.0 < y.0
}

/// Text before each link, then the link, from `cursor` on; a link that
/// starts before the cursor overlaps the one before it and is dropped.
pub open spec fn sweep(
    s: Seq<char>,
    links: Seq<TextLinkView>,
    spans: Seq<(usize, usize, usize)>,
    cursor: int,
) -> Seq<TextSpanView>
    decreases spans.len(),
{
    if spans.len() == 0 {
        if cursor < s.len() { seq![TextSpanView::Text(s.subrange(cursor, s.len() as int))] } else { Seq::empty() }
    } else {
        let (a, b, i) = spans[0];
        if a < cursor {
            sweep(s, links, spans.drop_first(), cursor)
        } else {
            (if cursor < a { seq![TextSpanView::Text(s.subrange(cursor, a as int))] } else { Seq::empty() })
                + seq![TextSpanView::Link { label: s.subrange(a as int, b as int), url: links[i as int].url }]
                + sweep(s, links, spans.drop_first(), b as int)
        }
    }
}

/// A message body as plain text and links: the usable links by start,
/// each overlapping one after the first dropped.
pub open spec fn http_spans_spec(s: Seq<char>, links: Seq<TextLinkView>) -> Seq<TextSpanView> {
    sweep(s, links, sort_by_insertion(valid_spans(s, links), start_before()), 0)
}

proof fn lemma_byte_len_strict(s: Seq<char>, i: int, j: int)
    requires
        0 <= i < j <= s.len(),
    ensures
        byte_len(s.take(i)) < byte_len(s.take(j)),
    decreases j - i,
{
    assert(s.take(j).drop_last() =~= s.take(j - 1));
    if i < j - 1 {
        lemma_byte_len_strict(s, i, j - 1);
    }
}

proof fn lemma_char_at_byte_from(s: Seq<char>, b: int, k: int)
    ensures
        char_at_byte_from(s, b, k) matches Some(j) ==> k <= j <= s.len() && byte_len(s.take(j)) == b,
    decreases s.len() + 1 - k,
{
    if 0 <= k <= s.len() && byte_len(s.take(k)) < b {
        lemma_char_at_byte_from(s, b, k + 1);
    }
}

proof fn lemma_link_chars(s: Seq<char>, l: TextLinkView)
    ensures
        link_chars(s, l) matches Some((a, b)) ==> 0 <= a < b <= s.len(),
{
    lemma_char_at_byte_from(s, l.start as int, 0);
    lemma_char_at_byte_from(s, l.end as int, 0);
    if let Some((a, b)) = link_chars(s, l) {
        if b <= a {
            if b < a {
                lemma_byte_len_strict(s, b, a);
            }
        }
    }
}

pub open spec fn span_fits(s: Seq<char>, n: int, t: (usize, usize, usize)) -> bool {
    t.0 < t.1 && t.1 <= s.len() && t.2 < n
}

proof fn lemma_valid_spans_fit(s: Seq<char>, links: Seq<TextLinkView>)
    requires
        s.len() <= usize::MAX,
        links.len() <= usize::MAX,
    ensures
        forall|k: int| 0 <= k < valid_spans(s, links).len() ==> span_fits(
            s,
            links.len() as int,
            #[trigger] valid_spans(s, links)[k],
        ),
    decreases links.len(),
{
    if links.len() > 0 {
        let rest = valid_spans(s, links.drop_last());
        lemma_valid_spans_fit(s, links.drop_last());
        lemma_link_chars(s, links.last());
        let v = valid_spans(s, links);
        assert forall|k: int| 0 <= k < v.len() implies span_fits(s, links.len() as int, #[trigger] v[k]) by {
            if k < rest.len() {
                assert(v[k] == rest[k]);
                assert(span_fits(s, links.len() - 1, rest[k]));
            }
        }
    }
}

proof fn lemma_sort_keeps_fit(s: Seq<char>, n: int, v: Seq<(usize, usize, usize)>)
    requires
        forall|k: int| 0 <= k < v.len() ==> span_fits(s, n, #[trigger] v[k]),
    ensures
        forall|k: int| 0 <= k < sort_by_insertion(v, start_before()).len() ==> span_fits(
            s,
            n,
            #[trigger] sort_by_insertion(v, start_before())[k],
        ),
    decreases v.len(),
{
    if v.len() > 0 {
        let t = sort_by_insertion(v.drop_last(), start_before());
        lemma_sort_keeps_fit(s, n, v.drop_last());
        lemma_insert_by_pos(t, v.last(), start_before());
        let p = insert_by_pos(t, v.last(), start_before());
        let r = insert_by(t, v.last(), start_before());
        assert forall|k: int| 0 <= k < r.len() implies span_fits(s, n, #[trigger] r[k]) by {
            if k < p {
                assert(r[k] == t[k]);
            } else if k > p {
                assert(r[k] == t[k - 1]);
            }
        }
    }
}

fn char_at_byte_exec(s: &[char], b: usize) -> (r: Option<usize>)
    ensures
        match r {
            Some(k) => char_at_byte(s@, b as int) == Some(k as int),
            None => char_at_byte(s@, b as int) is None,
        },
{
    let mut k: usize = 0;
    let mut acc: usize = 0;
    assert(s@.take(0) =~= Seq::<char>::empty());
    loop
        invariant
            k <= s.len(),
            acc as int == byte_len(s@.take(k as int)),
            acc <= b,
            char_at_byte(s@, b as int) == char_at_byte_from(s@, b as int, k as int),
        decreases s.len() - k,
    {
        if acc == b {
            return Some(k);
        }
        if k == s.len() {
            assert(char_at_byte_from(s@, b as int, k + 1) is None);
            return None;
        }
        let w = utf8_width_of(s[k]);
        proof {
            lemma_byte_len_push(s@.take(k as int), s@[k as int]);
            assert(s@.take(k + 1) =~= s@.take(k as int).push(s@[k as int]));
        }
        if w > b - acc {
            assert(byte_len(s@.take(k + 1)) > b);
            assert(char_at_byte_from(s@, b as int, k + 1) is None);
            return None;
        }
        acc = acc + w;
        k = k + 1;
    }
}

fn sort_by_start(v: &Vec<(usize, usize, usize)>) -> (r: Vec<(usize, usize, usize)>)
    ensures
        r@ == sort_by_insertion(v@, start_before()),
{
    let mut sorted: Vec<(usize, usize, usize)> = Vec::new();
    let mut i: usize = 0;
    while i < v.len()
        invariant
            i <= v.len(),
            sorted@ == sort_by_insertion(v@.take(i as int), start_before()),
        decreases v.len() - i,
    {
        assert(v@.take(i + 1).drop_last() =~= v@.take(i as int));
        let x = v[i];
        let ghost s0 = sorted@;
        let mut j: usize = 0;
        while j < sorted.len() && !(x.0 < sorted[j].0)
            invariant
                j <= sorted.len(),
                s0 == sorted@,
                forall|k: int| 0 <= k < j ==> !start_before()(x, #[trigger] s0[k]),
            decreases sorted.len() - j,
        {
            j += 1;
        }
        proof {
            lemma_insert_by_at(s0, x, start_before(), j as int);
        }
        sorted.insert(j, x);
        i += 1;
    }
    assert(v@.take(v@.len() as int) =~= v@);
    sorted
}

fn usable_links(s: &Vec<char>, links: &[TextLink]) -> (r: Vec<(usize, usize, usize)>)
    ensures
        r@ == valid_spans(s@, links_view(links@)),
{
    let ghost lv = links_view(links@);
    let mut valid: Vec<(usize, usize, usize)> = Vec::new();
    let mut i: usize = 0;
    assert(lv.take(0) =~= Seq::<TextLinkView>::empty());
    while i < links.len()
        invariant
            i <= links.len(),
            lv == links_view(links@),
            valid@ == valid_spans(s@, lv.take(i as int)),
        decreases links.len() - i,
    {
        let l = &links[i];
        assert(lv.take(i + 1).drop_last() =~= lv.take(i as int));
        assert(lv.take(i + 1).last() == l@);
        proof {
            lemma_link_chars(s@, l@);
        }
        if l.start < l.end && is_http_url(l.url.as_str()) {
            let a = char_at_byte_exec(s.as_slice(), l.start);
            let b = char_at_byte_exec(s.as_slice(), l.end);
            if let (Some(a), Some(b)) = (a, b) {
                valid.push((a, b, i));
            }
        }
        i += 1;
    }
    assert(lv.take(links.len() as int) =~= lv);
    valid
}

/// A message body cut into plain text and links. A link counts when its
/// URL is `http`/`https` and its byte range is non-empty and on character
/// boundaries; links go by start, and one that overlaps an earlier one is
/// left as text.
pub fn http_spans(text: &str, links: &[TextLink]) -> (r: Vec<TextSpan>)
    ensures
        spans_view(r@) == http_spans_spec(text@, links_view(links@)),
{
    let s = chars_of(text);
    let ghost lv = links_view(links@);
    let valid = usable_links(&s, links);
    let sorted = sort_by_start(&valid);
    let slen = s.len();
    let nlinks = links.len();
    proof {
        assert(s@.len() == slen);
        assert(lv.len() == nlinks);
        lemma_valid_spans_fit(s@, lv);
        lemma_sort_keeps_fit(s@, lv.len() as int, valid@);
    }
    let mut out: Vec<TextSpan> = Vec::new();
    let mut cursor: usize = 0;
    let mut j: usize = 0;
    assert(sorted@.skip(0) =~= sorted@);
    while j < sorted.len()
        invariant
            j <= sorted.len(),
            cursor <= s.len(),
            s@ == text@,
            lv == links_view(links@),
            lv.len() == links.len(),
            forall|k: int| 0 <= k < sorted.len() ==> span_fits(s@, lv.len() as int, #[trigger] sorted@[k]),
            spans_view(out@) + sweep(s@, lv, sorted@.skip(j as int), cursor as int) == sweep(
                s@,
                lv,
                sorted@,
                0,
            ),
        decreases sorted.len() - j,
    {
        let (a, b, idx) = sorted[j];
        assert(span_fits(s@, lv.len() as int, sorted@[j as int]));
        assert(sorted@.skip(j as int).drop_first() =~= sorted@.skip(j + 1));
        assert(sorted@.skip(j as int)[0] == sorted@[j as int]);
        let ghost before = spans_view(out@);
        if a < cursor {
        } else {
            let ghost gap: Seq<TextSpanView> = if cursor < a {
                seq![TextSpanView::Text(s@.subrange(cursor as int, a as int))]
            } else {
                Seq::empty()
            };
            if cursor < a {
                out.push(TextSpan::Text(string_of(range_of(s.as_slice(), cursor, a).as_slice())));
            }
            assert(spans_view(out@) =~= before + gap);
            out.push(TextSpan::Link {
                label: string_of(range_of(s.as_slice(), a, b).as_slice()),
                url: links[idx].url.clone(),
            });
            let ghost link = TextSpanView::Link { label: s@.subrange(a as int, b as int), url: lv[idx as int].url };
            assert(spans_view(out@) =~= before + gap + seq![link]);
            cursor = b;
        }
        j += 1;
    }
    let ghost before = spans_view(out@);
    if cursor < s.len() {
        out.push(TextSpan::Text(string_of(range_of(s.as_slice(), cursor, s.len()).as_slice())));
        assert(spans_view(out@) =~= before + seq![TextSpanView::Text(s@.subrange(cursor as int, s@.len() as int))]);
    } else {
        assert(spans_view(out@) =~= before);
    }
    out
}

/// The characters a piece shows.
pub open spec fn span_text(t: TextSpanView) -> Seq<char> {
    match t {
        TextSpanView::Text(x) => x,
        TextSpanView::Link { label, .. } => label,
    }
}

pub open spec fn spans_text(spans: Seq<TextSpanView>) -> Seq<char>
    decreases spans.len(),
{
    if spans.len() == 0 { Seq::empty() } else { span_text(spans[0]) + spans_text(spans.drop_first()) }
}

proof fn lemma_spans_text_append(a: Seq<TextSpanView>, b: Seq<TextSpanView>)
    ensures
        spans_text(a + b) == spans_text(a) + spans_text(b),
    decreases a.len(),
{
    if a.len() == 0 {
        assert(a + b =~= b);
    } else {
        assert((a + b).drop_first() =~= a.drop_first() + b);
        lemma_spans_text_append(a.drop_first(), b);
        assert(spans_text(a) + spans_text(b) =~= span_text(a[0]) + (spans_text(a.drop_first()) + spans_text(b)));
    }
}

proof fn lemma_sweep_text(s: Seq<char>, links: Seq<TextLinkView>, spans: Seq<(usize, usize, usize)>, cursor: int)
    requires
        0 <= cursor <= s.len(),
        forall|k: int| 0 <= k < spans.len() ==> span_fits(s, links.len() as int, #[trigger] spans[k]),
    ensures
        spans_text(sweep(s, links, spans, cursor)) == s.skip(cursor),
    decreases spans.len(),
{
    if spans.len() == 0 {
        if cursor < s.len() {
            let one = seq![TextSpanView::Text(s.subrange(cursor, s.len() as int))];
            assert(spans_text(one.drop_first()) == Seq::<char>::empty());
            assert(s.subrange(cursor, s.len() as int) + Seq::<char>::empty() =~= s.skip(cursor));
        } else {
            assert(s.skip(cursor) =~= Seq::<char>::empty());
        }
    } else {
        let (a, b, i) = spans[0];
        assert(span_fits(s, links.len() as int, spans[0]));
        assert forall|k: int| 0 <= k < spans.drop_first().len() implies span_fits(
            s,
            links.len() as int,
            #[trigger] spans.drop_first()[k],
        ) by {
            assert(spans.drop_first()[k] == spans[k + 1]);
        }
        if a < cursor {
            lemma_sweep_text(s, links, spans.drop_first(), cursor);
        } else {
            lemma_sweep_text(s, links, spans.drop_first(), b as int);
            let gap: Seq<TextSpanView> = if cursor < a {
                seq![TextSpanView::Text(s.subrange(cursor, a as int))]
            } else {
                Seq::empty()
            };
            let lk = seq![TextSpanView::Link { label: s.subrange(a as int, b as int), url: links[i as int].url }];
            let rest = sweep(s, links, spans.drop_first(), b as int);
            lemma_spans_text_append(gap + lk, rest);
            lemma_spans_text_append(gap, lk);
            assert(spans_text(lk.drop_first()) == Seq::<char>::empty());
            assert(spans_text(lk) =~= s.subrange(a as int, b as int));
            if cursor < a {
                assert(spans_text(gap.drop_first()) == Seq::<char>::empty());
                assert(spans_text(gap) =~= s.subrange(cursor, a as int));
            } else {
                assert(spans_text(gap) =~= Seq::<char>::empty());
            }
            assert(spans_text(gap) + spans_text(lk) + s.skip(b as int) =~= s.skip(cursor));
        }
    }
}

/// Nothing of a message body is lost or repeated: the pieces' texts, in
/// order, are the body.
pub proof fn law_spans_keep_the_text(text: Seq<char>, links: Seq<TextLinkView>)
    requires
        text.len() <= usize::MAX,
        links.len() <= usize::MAX,
    ensures
        spans_text(http_spans_spec(text, links)) == text,
{
    lemma_valid_spans_fit(text, links);
    lemma_sort_keeps_fit(text, links.len() as int, valid_spans(text, links));
    lemma_sweep_text(text, links, sort_by_insertion(valid_spans(text, links), start_before()), 0);
    assert(text.skip(0) =~= text);
}

} // verus!
