//! The chat column during a search: local title matches, then the
//! session's hits that are not among them.

use vstd::prelude::*;
use crate::shell::{chats_view, ChatItem, ChatItemView};
use crate::textutil::{chars_of, contains_chars, contains_seq, str_eq, trim, trim_seq};

verus! {

/// What `str::to_lowercase` gives for a text (Unicode lowercase mapping).
pub uninterp spec fn lowercase_of(s: Seq<char>) -> Seq<char>;

/// `str::to_lowercase`: the Unicode lowercase mapping of the text, the same
/// for the same text. What the mapping is, is not stated.
#[verifier::external_body]
fn lowercase(s: &str) -> (r: String)
    ensures
        r@ == lowercase_of(s@),
{
    s.to_lowercase()
}

/// The chats whose lowered title holds `needle`, in order; `lowered[k]` is
/// the lowered title of `chats[k]`.
pub open spec fn title_matches(chats: Seq<ChatItemView>, lowered: Seq<Seq<char>>, needle: Seq<char>) -> Seq<
    ChatItemView,
>
    decreases chats.len(),
{
    if chats.len() == 0 {
        Seq::empty()
    } else {
        let rest = title_matches(chats.drop_last(), lowered.drop_last(), needle);
        if contains_seq(lowered[chats.len() - 1], needle) { rest.push(chats.last()) } else { rest }
    }
}

pub open spec fn has_chat(chats: Seq<ChatItemView>, id: i64) -> bool {
    exists|k: int| 0 <= k < chats.len() && (#[trigger] chats[k]).id == id
}

/// The hits whose chat is neither in `seen` nor an earlier hit.
pub open spec fn fresh_hits(seen: Seq<ChatItemView>, hits: Seq<ChatItemView>) -> Seq<ChatItemView>
    decreases hits.len(),
{
    if hits.len() == 0 {
        Seq::empty()
    } else {
        let rest = fresh_hits(seen, hits.drop_last());
        if has_chat(seen, hits.last().id) || has_chat(rest, hits.last().id) { rest } else { rest.push(hits.last()) }
    }
}

/// The rows of a search, from the lowered titles and query: with no query,
/// the shown chats alone; else the shown chats whose title holds the query,
/// then, when the hits answer this query, the hits not already listed.
pub open spec fn search_rows_spec(
    shown: Seq<ChatItemView>,
    lowered: Seq<Seq<char>>,
    query: Seq<char>,
    needle: Seq<char>,
    echo: Seq<char>,
    hits: Seq<ChatItemView>,
) -> (Seq<ChatItemView>, Seq<ChatItemView>) {
    if query.len() == 0 {
        (shown, Seq::empty())
    } else {
        let local = title_matches(shown, lowered, needle);
        (local, if echo == query { fresh_hits(local, hits) } else { Seq::empty() })
    }
}

fn listed(chats: &Vec<ChatItem>, id: i64) -> (r: bool)
    ensures
        r == has_chat(chats_view(chats@), id),
{
    let mut k: usize = 0;
    while k < chats.len()
        invariant
            k <= chats.len(),
            forall|j: int| 0 <= j < k ==> (#[trigger] chats_view(chats@)[j]).id != id,
        decreases chats.len() - k,
    {
        if chats[k].id == id {
            assert(chats_view(chats@)[k as int].id == id);
            return true;
        }
        k += 1;
    }
    false
}

/// The rows of a search, given each shown chat's lowered title and the
/// lowered trimmed query.
pub fn search_rows_lowered(
    shown: Vec<ChatItem>,
    lowered: &[String],
    query: &str,
    needle: &str,
    echo: &str,
    hits: &[ChatItem],
) -> (r: (Vec<ChatItem>, Vec<ChatItem>))
    requires
        lowered.len() == shown.len(),
    ensures
        (chats_view(r.0@), chats_view(r.1@)) == search_rows_spec(
            chats_view(shown@),
            lowered@.map_values(|t: String| t@),
            query@,
            needle@,
            echo@,
            chats_view(hits@),
        ),
{
    if query.is_empty() {
        let none: Vec<ChatItem> = Vec::new();
        assert(chats_view(none@) =~= Seq::<ChatItemView>::empty());
        return (shown, none);
    }
    let ghost sv = chats_view(shown@);
    let ghost lv = lowered@.map_values(|t: String| t@);
    let n = chars_of(needle);
    let mut local: Vec<ChatItem> = Vec::new();
    let mut i: usize = 0;
    assert(sv.take(0) =~= Seq::<ChatItemView>::empty());
    while i < shown.len()
        invariant
            i <= shown.len(),
            lowered.len() == shown.len(),
            sv == chats_view(shown@),
            lv == lowered@.map_values(|t: String| t@),
            n@ == needle@,
            chats_view(local@) == title_matches(sv.take(i as int), lv.take(i as int), needle@),
        decreases shown.len() - i,
    {
        assert(sv.take(i + 1).drop_last() =~= sv.take(i as int));
        assert(lv.take(i + 1).drop_last() =~= lv.take(i as int));
        let t = chars_of(lowered[i].as_str());
        if contains_chars(t.as_slice(), n.as_slice()) {
            local.push(shown[i].copy());
            assert(chats_view(local@) =~= chats_view(local@.drop_last()).push(local@.last()@));
        }
        i += 1;
    }
    assert(sv.take(sv.len() as int) =~= sv);
    assert(lv.take(lv.len() as int) =~= lv);
    let mut extra: Vec<ChatItem> = Vec::new();
    if str_eq(echo, query) {
        let ghost hv = chats_view(hits@);
        let ghost lc = chats_view(local@);
        let mut k: usize = 0;
        assert(hv.take(0) =~= Seq::<ChatItemView>::empty());
        while k < hits.len()
            invariant
                k <= hits.len(),
                hv == chats_view(hits@),
                lc == chats_view(local@),
                chats_view(extra@) == fresh_hits(lc, hv.take(k as int)),
            decreases hits.len() - k,
        {
            assert(hv.take(k + 1).drop_last() =~= hv.take(k as int));
            let id = hits[k].id;
            if !listed(&local, id) && !listed(&extra, id) {
                extra.push(hits[k].copy());
                assert(chats_view(extra@) =~= chats_view(extra@.drop_last()).push(extra@.last()@));
            }
            k += 1;
        }
        assert(hv.take(hv.len() as int) =~= hv);
    } else {
        assert(chats_view(extra@) =~= Seq::<ChatItemView>::empty());
    }
    (local, extra)
}

/// The rows of a search for the search box's `value`: local title matches
/// (compared in lowercase), then the session's hits for this query that are
/// not among them.
pub fn search_rows(shown: Vec<ChatItem>, value: &str, echo: &str, hits: &[ChatItem]) -> (r: (
    Vec<ChatItem>,
    Vec<ChatItem>,
))
    ensures
        exists|lowered: Seq<Seq<char>>|
            lowered.len() == shown@.len() && (forall|k: int|
                0 <= k < lowered.len() ==> #[trigger] lowered[k] == lowercase_of(shown@[k].title@)) && (chats_view(
                r.0@,
            ), chats_view(r.1@)) == search_rows_spec(
                chats_view(shown@),
                lowered,
                trim_seq(value@),
                lowercase_of(trim_seq(value@)),
                echo@,
                chats_view(hits@),
            ),
{
    let query = trim(value);
    let needle = lowercase(query.as_str());
    let mut lowered: Vec<String> = Vec::new();
    let mut i: usize = 0;
    while i < shown.len()
        invariant
            i <= shown.len(),
            lowered.len() == i,
            forall|k: int| 0 <= k < i ==> #[trigger] lowered@[k]@ == lowercase_of(shown@[k].title@),
        decreases shown.len() - i,
    {
        lowered.push(lowercase(shown[i].title.as_str()));
        i += 1;
    }
    let ghost lv = lowered@.map_values(|t: String| t@);
    let ghost sv = shown@;
    let r = search_rows_lowered(shown, lowered.as_slice(), query.as_str(), needle.as_str(), echo, hits);
    assert(lv.len() == sv.len() && forall|k: int| 0 <= k < lv.len() ==> #[trigger] lv[k] == lowercase_of(sv[k].title@));
    r
}

/// The hits added to a search's rows are none of the local matches, and no
/// chat comes twice among them.
pub proof fn law_fresh_hits_are_new(seen: Seq<ChatItemView>, hits: Seq<ChatItemView>)
    ensures
        forall|i: int| 0 <= i < fresh_hits(seen, hits).len() ==> !has_chat(seen, #[trigger] fresh_hits(seen, hits)[i].id),
        forall|i: int, j: int|
            0 <= i < j < fresh_hits(seen, hits).len() ==> #[trigger] fresh_hits(seen, hits)[i].id != #[trigger] fresh_hits(
                seen,
                hits,
            )[j].id,
    decreases hits.len(),
{
    if hits.len() > 0 {
        law_fresh_hits_are_new(seen, hits.drop_last());
        let rest = fresh_hits(seen, hits.drop_last());
        let h = hits.last();
        if !(has_chat(seen, h.id) || has_chat(rest, h.id)) {
            let f = rest.push(h);
            assert forall|i: int, j: int| 0 <= i < j < f.len() implies #[trigger] f[i].id != #[trigger] f[j].id by {
                if j == rest.len() {
                    if f[i].id == h.id {
                        assert(rest[i].id == h.id);
                        assert(has_chat(rest, h.id));
                    }
                } else {
                    assert(f[i] == rest[i] && f[j] == rest[j]);
                }
            }
            assert forall|i: int| 0 <= i < f.len() implies !has_chat(seen, #[trigger] f[i].id) by {
                if i < rest.len() {
                    assert(f[i] == rest[i]);
                }
            }
        }
    }
}

} // verus!
