//! Text the desktop shell lays out: article paragraphs and message headers.

use vstd::prelude::*;
use crate::textutil::{chars_of, find_occ, first_occ, range_of, string_of, trim_chars, trim_seq};

verus! {

/// `s` split at each `p`, scanning left to right, as `str::split` does.
pub open spec fn split_on(s: Seq<char>, p: Seq<char>) -> Seq<Seq<char>>
    decreases s.len(),
{
    if p.len() == 0 {
        seq![s]
    } else {
        match first_occ(s, p, 0) {
            Some(i) => if 0 <= i && i + p.len() <= s.len() {
                seq![s.take(i)] + split_on(s.skip(i + p.len()), p)
            } else {
                seq![s]
            },
            None => seq![s],
        }
    }
}

/// The trimmed, non-empty pieces.
pub open spec fn nonblank_trimmed(parts: Seq<Seq<char>>) -> Seq<Seq<char>>
    decreases parts.len(),
{
    if parts.len() == 0 {
        Seq::empty()
    } else {
        let rest = nonblank_trimmed(parts.drop_last());
        let t = trim_seq(parts.last());
        if t.len() > 0 { rest.push(t) } else { rest }
    }
}

/// The paragraphs of an article body: the trimmed, non-empty pieces
/// between blank lines.
pub open spec fn paragraphs_spec(body: Seq<char>) -> Seq<Seq<char>> {
    nonblank_trimmed(split_on(body, seq!['\n', '\n']))
}

proof fn lemma_nonblank_append(a: Seq<Seq<char>>, b: Seq<Seq<char>>)
    ensures
        nonblank_trimmed(a + b) == nonblank_trimmed(a) + nonblank_trimmed(b),
    decreases b.len(),
{
    if b.len() == 0 {
        assert(a + b =~= a);
        assert(nonblank_trimmed(a) + nonblank_trimmed(b) =~= nonblank_trimmed(a));
    } else {
        lemma_nonblank_append(a, b.drop_last());
        assert((a + b).drop_last() =~= a + b.drop_last());
        let t = trim_seq(b.last());
        if t.len() > 0 {
            assert(nonblank_trimmed(a) + nonblank_trimmed(b.drop_last()).push(t) =~= (nonblank_trimmed(a)
                + nonblank_trimmed(b.drop_last())).push(t));
        }
    }
}

/// The paragraphs of an article body.
pub fn article_paragraphs(body: &str) -> (r: Vec<String>)
    ensures
        r@.map_values(|s: String| s@) == paragraphs_spec(body@),
{
    let s = chars_of(body);
    let sep = vec!['\n', '\n'];
    assert(sep@ =~= seq!['\n', '\n']);
    let mut out: Vec<String> = Vec::new();
    let mut pos: usize = 0;
    assert(s@.skip(0) =~= s@);
    loop
        invariant
            pos <= s.len(),
            sep@ == seq!['\n', '\n'],
            out@.map_values(|x: String| x@) + nonblank_trimmed(split_on(s@.skip(pos as int), sep@))
                == paragraphs_spec(body@),
            s@ == body@,
        decreases s.len() - pos,
    {
        let ghost rest = s@.skip(pos as int);
        proof {
            crate::textutil::lemma_first_occ_shift(s@, sep@, pos as int, 0);
        }
        let (piece_end, next) = match find_occ(s.as_slice(), sep.as_slice(), pos) {
            Some(i) => {
                if i + 2 <= s.len() { (i, Some(i + 2)) } else { (s.len(), None) }
            },
            None => (s.len(), None),
        };
        let piece = range_of(s.as_slice(), pos, piece_end);
        let t = trim_chars(piece.as_slice());
        let ghost before = out@.map_values(|x: String| x@);
        proof {
            match next {
                Some(n) => {
                    assert(piece@ =~= rest.take(piece_end - pos));
                    assert(s@.skip(n as int) =~= rest.skip(piece_end - pos + 2));
                    assert(split_on(rest, sep@) == seq![rest.take(piece_end - pos)] + split_on(
                        rest.skip(piece_end - pos + 2),
                        sep@,
                    ));
                    lemma_nonblank_append(seq![rest.take(piece_end - pos)], split_on(s@.skip(n as int), sep@));
                    assert(seq![rest.take(piece_end - pos)].drop_last() =~= Seq::<Seq<char>>::empty());
                },
                None => {
                    assert(piece@ =~= rest);
                    assert(split_on(rest, sep@) == seq![rest]);
                    assert(seq![rest].drop_last() =~= Seq::<Seq<char>>::empty());
                },
            }
        }
        let ghost one = seq![piece@];
        proof {
            assert(one.drop_last() =~= Seq::<Seq<char>>::empty());
            assert(nonblank_trimmed(one.drop_last()) =~= Seq::<Seq<char>>::empty());
            assert(one.last() == piece@);
            assert(nonblank_trimmed(one) =~= (if t@.len() > 0 { seq![t@] } else { Seq::<Seq<char>>::empty() }));
        }
        if t.len() > 0 {
            out.push(string_of(t.as_slice()));
            assert(out@.map_values(|x: String| x@) =~= before.push(t@));
        }
        assert(out@.map_values(|x: String| x@) =~= before + nonblank_trimmed(one));
        match next {
            Some(n) => {
                proof {
                    let tail = nonblank_trimmed(split_on(s@.skip(n as int), sep@));
                    assert(before + (nonblank_trimmed(one) + tail) =~= (before + nonblank_trimmed(one)) + tail);
                }
                pos = n;
            },
            None => {
                return out;
            },
        }
    }
}

/// A message header: the sender and the time, joined by ` · ` when both
/// are there.
pub open spec fn header_spec(sender: Seq<char>, time: Seq<char>) -> Seq<char> {
    if sender.len() == 0 {
        time
    } else if time.len() == 0 {
        sender
    } else {
        sender + " · "@ + time
    }
}

pub fn header_text(sender: &str, time: &str) -> (r: String)
    ensures
        r@ == header_spec(sender@, time@),
{
    if sender.is_empty() {
        return time.to_owned();
    }
    if time.is_empty() {
        return sender.to_owned();
    }
    let mut out: Vec<char> = Vec::new();
    let a = chars_of(sender);
    let b = chars_of(" · ");
    let c = chars_of(time);
    crate::textutil::append_range(&mut out, a.as_slice(), 0, a.len());
    crate::textutil::append_range(&mut out, b.as_slice(), 0, b.len());
    crate::textutil::append_range(&mut out, c.as_slice(), 0, c.len());
    assert(a@.subrange(0, a@.len() as int) =~= a@);
    assert(b@.subrange(0, b@.len() as int) =~= b@);
    assert(c@.subrange(0, c@.len() as int) =~= c@);
    string_of(out.as_slice())
}

/// The header above a message bubble: sender and local time (no time for
/// a message without a date).
pub fn message_header(sender: &str, date: i64) -> (r: String)
    ensures
        date <= 0 ==> r@ == header_spec(sender@, Seq::empty()),
        date > 0 ==> exists|t: Seq<char>| r@ == header_spec(sender@, t),
{
    let time = if date > 0 { crate::format::message_time(date) } else { String::new() };
    let r = header_text(sender, time.as_str());
    assert(r@ == header_spec(sender@, time@));
    r
}

} // verus!
