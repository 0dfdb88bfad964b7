//! Feed HTML turned into readable plain text.
//!
//! This is not a browser. It drops `script` and `style` elements and every
//! tag, breaks lines at block tags, decodes the entities that show up in RSS
//! descriptions, and tidies the whitespace.

use vstd::prelude::*;
use crate::textutil::{
    append_range, chars_of, find_occ, first_occ, is_whitespace, is_ws, lemma_first_occ_shift,
    lower_chars, lower_seq, occurs_at, range_of, string_of, trim_chars, trim_end_seq, trim_seq,
    trim_start_seq, decimal, digit_char,
};

verus! {

/// `input` without its `name` elements: from each `<name` (matched without
/// regard to ASCII case) through the `>` that ends the next `</name`. An
/// element that is never closed removes the rest of the text.
pub open spec fn strip_spec(s: Seq<char>, name: Seq<char>) -> Seq<char>
    decreases s.len(),
{
    let l = lower_seq(s);
    let open = seq!['<'] + name;
    let close = seq!['<', '/'] + name;
    match first_occ(l, open, 0) {
        None => s,
        Some(start) => s.take(start) + match first_occ(l, close, start) {
            None => Seq::empty(),
            Some(end) => match first_occ(s, seq!['>'], end + close.len()) {
                None => Seq::empty(),
                Some(gt) => if 0 <= gt < s.len() {
                    strip_spec(s.skip(gt + 1), name)
                } else {
                    Seq::empty()
                },
            },
        },
    }
}

fn strip_element(input: &[char], name: &[char]) -> (out: Vec<char>)
    ensures
        out@ == strip_spec(input@, name@),
{
    let mut open: Vec<char> = Vec::new();
    open.push('<');
    append_range(&mut open, name, 0, name.len());
    let mut close: Vec<char> = Vec::new();
    close.push('<');
    close.push('/');
    append_range(&mut close, name, 0, name.len());
    assert(open@ =~= seq!['<'] + name@);
    assert(close@ =~= seq!['<', '/'] + name@);
    let mut gt_pat: Vec<char> = Vec::new();
    gt_pat.push('>');
    assert(gt_pat@ =~= seq!['>']);
    let mut out: Vec<char> = Vec::new();
    let mut rest: Vec<char> = range_of(input, 0, input.len());
    assert(rest@ =~= input@);
    loop
        invariant
            open@ == seq!['<'] + name@,
            close@ == seq!['<', '/'] + name@,
            gt_pat@ == seq!['>'],
            out@ + strip_spec(rest@, name@) == strip_spec(input@, name@),
        decreases rest.len(),
    {
        let l = lower_chars(rest.as_slice());
        match find_occ(l.as_slice(), open.as_slice(), 0) {
            None => {
                let ghost before = out@;
                append_range(&mut out, rest.as_slice(), 0, rest.len());
                assert(rest@.subrange(0, rest.len() as int) =~= rest@);
                return out;
            },
            Some(start) => {
                let ghost before = out@;
                let ghost r = rest@;
                append_range(&mut out, rest.as_slice(), 0, start);
                assert(rest@.subrange(0, start as int) =~= rest@.take(start as int));
                match find_occ(l.as_slice(), close.as_slice(), start) {
                    None => {
                        assert(out@ =~= before + (r.take(start as int) + Seq::<char>::empty()));
                        return out;
                    },
                    Some(end) => {
                        match find_occ(rest.as_slice(), gt_pat.as_slice(), end + close.len()) {
                            None => {
                                assert(out@ =~= before + (r.take(start as int) + Seq::<char>::empty()));
                                return out;
                            },
                            Some(gt) => {
                                if gt >= rest.len() {
                                    assert(out@ =~= before + (r.take(start as int) + Seq::<char>::empty()));
                                    return out;
                                }
                                let next = range_of(rest.as_slice(), gt + 1, rest.len());
                                assert(next@ =~= r.skip(gt + 1));
                                assert(out@ + strip_spec(next@, name@) =~= before + (r.take(start as int)
                                    + strip_spec(r.skip(gt + 1), name@)));
                                rest = next;
                            },
                        }
                    },
                }
            },
        }
    }
}

/// Leading `/` characters removed, as `trim_start_matches('/')` does.
pub open spec fn trim_slashes(s: Seq<char>) -> Seq<char>
    decreases s.len(),
{
    if s.len() > 0 && s[0] == '/' {
        trim_slashes(s.drop_first())
    } else {
        s
    }
}

/// The text before the first whitespace or `/`.
pub open spec fn first_word(s: Seq<char>) -> Seq<char>
    decreases s.len(),
{
    if s.len() == 0 || is_ws(s[0]) || s[0] == '/' {
        Seq::empty()
    } else {
        seq![s[0]] + first_word(s.drop_first())
    }
}

/// The element names that break a line.
pub open spec fn is_block_name(n: Seq<char>) -> bool {
    n == "br"@ || n == "p"@ || n == "div"@ || n == "li"@ || n == "tr"@ || n == "h1"@ || n == "h2"@
        || n == "h3"@ || n == "h4"@ || n == "h5"@ || n == "h6"@ || n == "blockquote"@ || n == "article"@
        || n == "section"@
}

/// Whether the text between `<` and `>` opens or closes a block element.
pub open spec fn is_block_tag_spec(tag: Seq<char>) -> bool {
    is_block_name(lower_seq(first_word(trim_slashes(trim_seq(tag)))))
}

fn same(a: &[char], b: &str) -> (r: bool)
    ensures
        r == (a@ == b@),
{
    let bc = chars_of(b);
    if a.len() != bc.len() {
        return false;
    }
    let mut i: usize = 0;
    while i < a.len()
        invariant
            a.len() == bc.len(),
            bc@ == b@,
            i <= a.len(),
            forall|j: int| 0 <= j < i ==> a@[j] == bc@[j],
        decreases a.len() - i,
    {
        if a[i] != bc[i] {
            return false;
        }
        i += 1;
    }
    assert(a@ =~= bc@);
    true
}

fn is_block_tag(tag: &[char]) -> (r: bool)
    ensures
        r == is_block_tag_spec(tag@),
{
    let t = trim_chars(tag);
    let mut i: usize = 0;
    assert(t@.skip(0) =~= t@);
    while i < t.len() && t[i] == '/'
        invariant
            i <= t.len(),
            trim_slashes(t@) == trim_slashes(t@.skip(i as int)),
        decreases t.len() - i,
    {
        assert(t@.skip(i as int).drop_first() =~= t@.skip(i + 1));
        i += 1;
    }
    assert(trim_slashes(t@.skip(i as int)) == t@.skip(i as int));
    let mut j = i;
    while j < t.len() && !is_whitespace(t[j]) && t[j] != '/'
        invariant
            i <= j <= t.len(),
            first_word(t@.skip(i as int)) == t@.subrange(i as int, j as int) + first_word(t@.skip(j as int)),
        decreases t.len() - j,
    {
        assert(t@.skip(j as int).drop_first() =~= t@.skip(j + 1));
        assert(t@.subrange(i as int, j as int) + seq![t@[j as int]] =~= t@.subrange(i as int, j + 1));
        j += 1;
    }
    assert(first_word(t@.skip(j as int)) =~= Seq::<char>::empty());
    let word = range_of(t.as_slice(), i, j);
    assert(word@ =~= first_word(t@.skip(i as int)));
    let n = lower_chars(word.as_slice());
    let n = n.as_slice();
    same(n, "br") || same(n, "p") || same(n, "div") || same(n, "li") || same(n, "tr") || same(n, "h1")
        || same(n, "h2") || same(n, "h3") || same(n, "h4") || same(n, "h5") || same(n, "h6")
        || same(n, "blockquote") || same(n, "article") || same(n, "section")
}

/// Tags removed; a block tag leaves a line break. A `<` with no later `>`
/// swallows the rest of the text as one tag.
pub open spec fn untag(s: Seq<char>) -> Seq<char>
    decreases s.len(),
{
    if s.len() == 0 {
        Seq::empty()
    } else if s[0] != '<' {
        seq![s[0]] + untag(s.drop_first())
    } else {
        let rest = s.drop_first();
        match first_occ(rest, seq!['>'], 0) {
            None => if is_block_tag_spec(rest) {
                seq!['\n']
            } else {
                Seq::empty()
            },
            Some(k) => (if is_block_tag_spec(rest.take(k)) {
                seq!['\n']
            } else {
                Seq::empty()
            }) + (if 0 <= k < rest.len() {
                untag(rest.skip(k + 1))
            } else {
                Seq::empty()
            }),
        }
    }
}

fn strip_tags(s: &[char]) -> (raw: Vec<char>)
    ensures
        raw@ == untag(s@),
{
    let mut gt_pat: Vec<char> = Vec::new();
    gt_pat.push('>');
    assert(gt_pat@ =~= seq!['>']);
    let mut raw: Vec<char> = Vec::new();
    let mut i: usize = 0;
    assert(s@.skip(0) =~= s@);
    while i < s.len()
        invariant
            i <= s.len(),
            gt_pat@ == seq!['>'],
            raw@ + untag(s@.skip(i as int)) == untag(s@),
        decreases s.len() - i,
    {
        let ghost r = s@.skip(i as int);
        let ghost before = raw@;
        if s[i] != '<' {
            raw.push(s[i]);
            assert(r.drop_first() =~= s@.skip(i + 1));
            assert(raw@ + untag(s@.skip(i + 1)) =~= before + untag(r));
            i += 1;
        } else {
            proof {
                assert(r.drop_first() =~= s@.skip(i + 1));
                lemma_first_occ_shift(s@, seq!['>'], i + 1, 0);
            }
            match find_occ(s, gt_pat.as_slice(), i + 1) {
                None => {
                    let tag = range_of(s, i + 1, s.len());
                    assert(tag@ =~= r.drop_first());
                    if is_block_tag(tag.as_slice()) {
                        raw.push('\n');
                    }
                    assert(raw@ + untag(s@.skip(s.len() as int)) =~= before + untag(r));
                    i = s.len();
                },
                Some(j) => {
                    let tag = range_of(s, i + 1, j);
                    assert(tag@ =~= r.drop_first().take(j - i - 1));
                    if is_block_tag(tag.as_slice()) {
                        raw.push('\n');
                    }
                    if j < s.len() {
                        assert(r.drop_first().skip(j - i - 1 + 1) =~= s@.skip(j + 1));
                        assert(raw@ + untag(s@.skip(j + 1)) =~= before + untag(r));
                        i = j + 1;
                    } else {
                        assert(raw@ + untag(s@.skip(s.len() as int)) =~= before + untag(r));
                        i = s.len();
                    }
                },
            }
        }
    }
    assert(untag(s@.skip(s.len() as int)) =~= Seq::<char>::empty());
    raw
}


/// Value of one digit in `radix` (10 or 16).
pub open spec fn digit_value(c: char, radix: nat) -> Option<nat> {
    if '0' <= c && c <= '9' {
        Some((c as nat - 48) as nat)
    } else if radix == 16 && 'a' <= c && c <= 'f' {
        Some((c as nat - 87) as nat)
    } else if radix == 16 && 'A' <= c && c <= 'F' {
        Some((c as nat - 55) as nat)
    } else {
        None
    }
}

pub open spec fn all_radix_digits(s: Seq<char>, radix: nat) -> bool {
    forall|i: int| 0 <= i < s.len() ==> (#[trigger] digit_value(s[i], radix)) is Some
}

pub open spec fn radix_value(s: Seq<char>, radix: nat) -> nat
    decreases s.len(),
{
    if s.len() == 0 {
        0
    } else {
        radix_value(s.drop_last(), radix) * radix + match digit_value(s.last(), radix) {
            Some(d) => d,
            None => 0,
        }
    }
}

/// `u32::from_str_radix`: an optional `+`, then one or more digits, in range.
pub open spec fn parse_u32_radix(s: Seq<char>, radix: nat) -> Option<u32> {
    let body = if s.len() > 0 && s[0] == '+' { s.drop_first() } else { s };
    if body.len() > 0 && all_radix_digits(body, radix) && radix_value(body, radix) <= u32::MAX {
        Some(radix_value(body, radix) as u32)
    } else {
        None
    }
}

/// `char::from_u32`: a Unicode scalar value, else `None`.
pub open spec fn char_of(n: u32) -> Option<char> {
    if n <= 0x10ffff && !(0xd800 <= n && n <= 0xdfff) {
        Some(n as char)
    } else {
        None
    }
}

/// `char::from_u32`, which accepts exactly the Unicode scalar values.
#[verifier::external_body]
fn char_from_u32(n: u32) -> (r: Option<char>)
    ensures
        r == char_of(n),
{
    char::from_u32(n)
}

proof fn lemma_radix_grows(s: Seq<char>, radix: nat, k: int)
    requires
        0 <= k <= s.len(),
        radix >= 1,
    ensures
        all_radix_digits(s, radix) ==> radix_value(s, radix) >= radix_value(s.take(k), radix),
    decreases s.len() - k,
{
    if k < s.len() && all_radix_digits(s, radix) {
        lemma_radix_grows(s, radix, k + 1);
        assert(s.take(k + 1).drop_last() =~= s.take(k));
        let v = radix_value(s.take(k), radix);
        assert(v * radix >= v) by (nonlinear_arith)
            requires
                radix >= 1,
        ;
    } else if k == s.len() {
        assert(s.take(k) =~= s);
    }
}

fn digit_of(c: char, radix: u32) -> (r: Option<u32>)
    requires
        radix == 10 || radix == 16,
    ensures
        match r {
            Some(d) => digit_value(c, radix as nat) == Some(d as nat) && d < radix,
            None => digit_value(c, radix as nat) is None,
        },
{
    if '0' <= c && c <= '9' {
        Some(c as u32 - 48)
    } else if radix == 16 && 'a' <= c && c <= 'f' {
        Some(c as u32 - 87)
    } else if radix == 16 && 'A' <= c && c <= 'F' {
        Some(c as u32 - 55)
    } else {
        None
    }
}

fn parse_radix(s: &[char], radix: u32) -> (r: Option<u32>)
    requires
        radix == 10 || radix == 16,
    ensures
        r == parse_u32_radix(s@, radix as nat),
{
    let start: usize = if s.len() > 0 && s[0] == '+' { 1 } else { 0 };
    let ghost body = if s@.len() > 0 && s@[0] == '+' { s@.drop_first() } else { s@ };
    assert(body =~= s@.skip(start as int));
    if start >= s.len() {
        return None;
    }
    let mut acc: u64 = 0;
    let mut i = start;
    while i < s.len()
        invariant
            radix == 10 || radix == 16,
            start <= i <= s.len(),
            body =~= s@.skip(start as int),
            body == (if s@.len() > 0 && s@[0] == '+' { s@.drop_first() } else { s@ }),
            all_radix_digits(s@.subrange(start as int, i as int), radix as nat),
            acc == radix_value(s@.subrange(start as int, i as int), radix as nat),
            acc <= u32::MAX,
        decreases s.len() - i,
    {
        let sub = Ghost(s@.subrange(start as int, i + 1));
        assert(sub@.drop_last() =~= s@.subrange(start as int, i as int));
        match digit_of(s[i], radix) {
            None => {
                assert(body[i - start] == s@[i as int]);
                assert(digit_value(body[i - start], radix as nat) is None);
                return None;
            },
            Some(d) => {
                assert(all_radix_digits(sub@, radix as nat)) by {
                    assert forall|j: int| 0 <= j < sub@.len() implies (#[trigger] digit_value(sub@[j], radix as nat)) is Some by {
                        if j < sub@.len() - 1 {
                            assert(sub@[j] == s@.subrange(start as int, i as int)[j]);
                        }
                    }
                }
                assert(acc * (radix as u64) <= 0xffff_ffff * 16) by (nonlinear_arith)
                    requires
                        acc <= 0xffff_ffff,
                        radix <= 16,
                ;
                let next: u64 = acc * (radix as u64) + d as u64;
                assert(radix_value(sub@, radix as nat) == next);
                if next > 0xffff_ffff {
                    proof {
                        assert(s@.skip(start as int).take(i + 1 - start) =~= sub@);
                        lemma_radix_grows(s@.skip(start as int), radix as nat, i + 1 - start);
                    }
                    return None;
                }
                acc = next;
                i += 1;
            },
        }
    }
    assert(s@.subrange(start as int, s.len() as int) =~= body);
    Some(acc as u32)
}

/// The character an entity name stands for: five named entities, `nbsp`
/// as a plain space, and decimal or hexadecimal character references.
pub open spec fn entity_char(t: Seq<char>) -> Option<char> {
    if t == "amp"@ {
        Some('&')
    } else if t == "lt"@ {
        Some('<')
    } else if t == "gt"@ {
        Some('>')
    } else if t == "quot"@ {
        Some('"')
    } else if t == "apos"@ {
        Some('\'')
    } else if t == "nbsp"@ {
        Some(' ')
    } else if t.len() >= 2 && t[0] == '#' && (t[1] == 'x' || t[1] == 'X') {
        match parse_u32_radix(t.skip(2), 16) {
            Some(n) => char_of(n),
            None => None,
        }
    } else if t.len() >= 1 && t[0] == '#' {
        match parse_u32_radix(t.skip(1), 10) {
            Some(n) => char_of(n),
            None => None,
        }
    } else {
        None
    }
}

fn named_or_numeric(t: &[char]) -> (r: Option<char>)
    ensures
        r == entity_char(t@),
{
    if same(t, "amp") {
        Some('&')
    } else if same(t, "lt") {
        Some('<')
    } else if same(t, "gt") {
        Some('>')
    } else if same(t, "quot") {
        Some('"')
    } else if same(t, "apos") {
        Some('\'')
    } else if same(t, "nbsp") {
        Some(' ')
    } else if t.len() >= 2 && t[0] == '#' && (t[1] == 'x' || t[1] == 'X') {
        let hex = range_of(t, 2, t.len());
        assert(hex@ =~= t@.skip(2));
        match parse_radix(hex.as_slice(), 16) {
            Some(n) => char_from_u32(n),
            None => None,
        }
    } else if t.len() >= 1 && t[0] == '#' {
        let digits = range_of(t, 1, t.len());
        assert(digits@ =~= t@.skip(1));
        match parse_radix(digits.as_slice(), 10) {
            Some(n) => char_from_u32(n),
            None => None,
        }
    } else {
        None
    }
}

/// Entities decoded left to right. An `&` with no `;` after it, or whose
/// name is unknown, stays as written.
pub open spec fn decode_spec(s: Seq<char>) -> Seq<char>
    decreases s.len(),
{
    match first_occ(s, seq!['&'], 0) {
        None => s,
        Some(a) => if 0 <= a < s.len() {
            let r = s.skip(a);
            s.take(a) + match first_occ(r, seq![';'], 0) {
                None => r,
                Some(e) => match entity_char(r.subrange(1, e)) {
                    Some(c) => seq![c] + (if 0 <= e < r.len() {
                        decode_spec(r.skip(e + 1))
                    } else {
                        Seq::empty()
                    }),
                    None => seq!['&'] + decode_spec(r.skip(1)),
                },
            }
        } else {
            s
        },
    }
}

#[verifier::spinoff_prover]
#[verifier::rlimit(40)]
fn decode_entities(s: &[char]) -> (out: Vec<char>)
    ensures
        out@ == decode_spec(s@),
{
    let mut amp: Vec<char> = Vec::new();
    amp.push('&');
    let mut semi: Vec<char> = Vec::new();
    semi.push(';');
    assert(amp@ =~= seq!['&']);
    assert(semi@ =~= seq![';']);
    let mut out: Vec<char> = Vec::new();
    let mut pos: usize = 0;
    assert(s@.skip(0) =~= s@);
    loop
        invariant
            pos <= s.len(),
            amp@ == seq!['&'],
            semi@ == seq![';'],
            out@ + decode_spec(s@.skip(pos as int)) == decode_spec(s@),
        decreases s.len() - pos,
    {
        let ghost rest = s@.skip(pos as int);
        let ghost before = out@;
        proof {
            lemma_first_occ_shift(s@, seq!['&'], pos as int, 0);
        }
        match find_occ(s, amp.as_slice(), pos) {
            None => {
                append_range(&mut out, s, pos, s.len());
                assert(s@.subrange(pos as int, s.len() as int) =~= rest);
                return out;
            },
            Some(a) => {
                if a >= s.len() {
                    append_range(&mut out, s, pos, s.len());
                    assert(s@.subrange(pos as int, s.len() as int) =~= rest);
                    return out;
                }
                append_range(&mut out, s, pos, a);
                assert(s@.subrange(pos as int, a as int) =~= rest.take(a - pos));
                let ghost r = rest.skip(a - pos);
                assert(r =~= s@.skip(a as int));
                proof {
                    lemma_first_occ_shift(s@, seq![';'], a as int, 0);
                }
                match find_occ(s, semi.as_slice(), a) {
                    None => {
                        append_range(&mut out, s, a, s.len());
                        assert(s@.subrange(a as int, s.len() as int) =~= r);
                        assert(out@ =~= before + (rest.take(a - pos) + r));
                        return out;
                    },
                    Some(e) => {
                        assert(s@[a as int] == '&') by {
                            assert(s@.subrange(a as int, a + 1)[0] == '&');
                        }
                        if e == a {
                            assert(s@.subrange(e as int, e + 1)[0] == ';');
                        }
                        let token = range_of(s, a + 1, e);
                        assert(token@ =~= r.subrange(1, e - a));
                        match named_or_numeric(token.as_slice()) {
                            Some(c) => {
                                out.push(c);
                                if e < s.len() {
                                    assert(r.skip(e - a + 1) =~= s@.skip(e + 1));
                                    assert(out@ + decode_spec(s@.skip(e + 1)) =~= before + decode_spec(rest));
                                    pos = e + 1;
                                } else {
                                    assert(out@ =~= before + decode_spec(rest));
                                    return out;
                                }
                            },
                            None => {
                                out.push('&');
                                assert(r.skip(1) =~= s@.skip(a + 1));
                                assert(out@ + decode_spec(s@.skip(a + 1)) =~= before + decode_spec(rest));
                                pos = a + 1;
                            },
                        }
                    },
                }
            },
        }
    }
}


/// Whitespace runs squeezed to one space (the text is already trimmed).
pub open spec fn squash_from(s: Seq<char>, in_ws: bool) -> Seq<char>
    decreases s.len(),
{
    if s.len() == 0 {
        Seq::empty()
    } else if is_ws(s[0]) {
        (if in_ws { Seq::empty() } else { seq![' '] }) + squash_from(s.drop_first(), true)
    } else {
        seq![s[0]] + squash_from(s.drop_first(), false)
    }
}

/// `line.split_whitespace().join(" ")`: the words of a line, one space apart.
pub open spec fn collapse_spec(line: Seq<char>) -> Seq<char> {
    squash_from(trim_seq(line), false)
}

fn collapse(line: &[char]) -> (r: Vec<char>)
    ensures
        r@ == collapse_spec(line@),
{
    let t = trim_chars(line);
    let mut out: Vec<char> = Vec::new();
    let mut in_ws = false;
    let mut i: usize = 0;
    assert(t@.skip(0) =~= t@);
    while i < t.len()
        invariant
            i <= t.len(),
            out@ + squash_from(t@.skip(i as int), in_ws) == squash_from(t@, false),
        decreases t.len() - i,
    {
        let ghost before = out@;
        let ghost w = in_ws;
        assert(t@.skip(i as int).drop_first() =~= t@.skip(i + 1));
        if is_whitespace(t[i]) {
            if !in_ws {
                out.push(' ');
            }
            in_ws = true;
            assert(out@ + squash_from(t@.skip(i + 1), in_ws) =~= before + squash_from(t@.skip(i as int), w));
        } else {
            out.push(t[i]);
            in_ws = false;
            assert(out@ + squash_from(t@.skip(i + 1), in_ws) =~= before + squash_from(t@.skip(i as int), w));
        }
        i += 1;
    }
    assert(t@.skip(t.len() as int) =~= Seq::<char>::empty());
    out
}

pub open spec fn is_line_end(c: char) -> bool {
    c == '\n' || c == '\r'
}

/// The first line end at or after `from`.
pub open spec fn first_line_end(s: Seq<char>, from: int) -> Option<int>
    decreases s.len() - from,
{
    if from < 0 || from >= s.len() {
        None
    } else if is_line_end(s[from]) {
        Some(from)
    } else {
        first_line_end(s, from + 1)
    }
}

/// One more line: the first non-empty line starts the text, every later one
/// follows a line feed.
pub open spec fn add_line(acc: Seq<char>, line: Seq<char>) -> Seq<char> {
    if acc.len() == 0 {
        line
    } else {
        acc.push('\n') + line
    }
}

/// The lines of `s` (split at `\r\n`, `\r` or `\n`) collapsed and joined
/// onto `acc`.
pub open spec fn join_from(acc: Seq<char>, s: Seq<char>) -> Seq<char>
    decreases s.len(),
{
    match first_line_end(s, 0) {
        None => add_line(acc, collapse_spec(s)),
        Some(t) => {
            let k = if s[t] == '\r' && t + 1 < s.len() && s[t + 1] == '\n' { t + 2 } else { t + 1 };
            if 0 <= t && k <= s.len() {
                join_from(add_line(acc, collapse_spec(s.take(t))), s.skip(k))
            } else {
                acc
            }
        },
    }
}

/// Runs of three or more line feeds cut to two. `run` counts the line
/// feeds just before `s`.
pub open spec fn squeeze_from(s: Seq<char>, run: nat) -> Seq<char>
    decreases s.len(),
{
    if s.len() == 0 {
        Seq::empty()
    } else if s[0] == '\n' {
        (if run >= 2 { Seq::empty() } else { seq!['\n'] }) + squeeze_from(s.drop_first(), run + 1)
    } else {
        seq![s[0]] + squeeze_from(s.drop_first(), 0)
    }
}

/// Whitespace tidied: words one space apart, at most one blank line in a
/// row, nothing at either end.
pub open spec fn normalize_spec(s: Seq<char>) -> Seq<char> {
    trim_seq(squeeze_from(join_from(Seq::empty(), s), 0))
}

fn add_line_exec(acc: Vec<char>, line: Vec<char>) -> (r: Vec<char>)
    ensures
        r@ == add_line(acc@, line@),
{
    if acc.len() == 0 {
        return line;
    }
    let mut r = acc;
    r.push('\n');
    append_range(&mut r, line.as_slice(), 0, line.len());
    assert(line@.subrange(0, line.len() as int) =~= line@);
    r
}

fn join_lines(s: &[char]) -> (r: Vec<char>)
    ensures
        r@ == join_from(Seq::empty(), s@),
{
    let mut acc: Vec<char> = Vec::new();
    let mut pos: usize = 0;
    assert(s@.skip(0) =~= s@);
    loop
        invariant
            pos <= s.len(),
            join_from(acc@, s@.skip(pos as int)) == join_from(Seq::empty(), s@),
        decreases s.len() - pos,
    {
        let ghost rest = s@.skip(pos as int);
        let mut t = pos;
        while t < s.len() && s[t] != '\n' && s[t] != '\r'
            invariant
                pos <= t <= s.len(),
                rest == s@.skip(pos as int),
                first_line_end(rest, 0) == first_line_end(rest, t - pos),
            decreases s.len() - t,
        {
            assert(rest[t - pos] == s@[t as int]);
            t += 1;
        }
        let line = range_of(s, pos, t);
        assert(line@ =~= rest.take(t - pos));
        let c = collapse(line.as_slice());
        if t >= s.len() {
            assert(first_line_end(rest, t - pos) is None);
            assert(line@ =~= rest);
            return add_line_exec(acc, c);
        }
        assert(rest[t - pos] == s@[t as int]);
        assert(first_line_end(rest, 0) == Some(t - pos));
        let k = if s[t] == '\r' && t + 1 < s.len() && s[t + 1] == '\n' { t + 2 } else { t + 1 };
        if t + 1 < s.len() {
            assert(rest[t - pos + 1] == s@[t + 1]);
        }
        assert(rest.skip(k - pos) =~= s@.skip(k as int));
        acc = add_line_exec(acc, c);
        pos = k;
    }
}

fn squeeze(s: &[char]) -> (r: Vec<char>)
    ensures
        r@ == squeeze_from(s@, 0),
{
    let mut out: Vec<char> = Vec::new();
    let mut run: usize = 0;
    let mut i: usize = 0;
    assert(s@.skip(0) =~= s@);
    while i < s.len()
        invariant
            i <= s.len(),
            run <= i,
            out@ + squeeze_from(s@.skip(i as int), run as nat) == squeeze_from(s@, 0),
        decreases s.len() - i,
    {
        let ghost before = out@;
        let ghost r0 = run;
        assert(s@.skip(i as int).drop_first() =~= s@.skip(i + 1));
        if s[i] == '\n' {
            if run < 2 {
                out.push('\n');
            }
            run += 1;
        } else {
            out.push(s[i]);
            run = 0;
        }
        assert(out@ + squeeze_from(s@.skip(i + 1), run as nat) =~= before + squeeze_from(s@.skip(i as int), r0 as nat));
        i += 1;
    }
    assert(s@.skip(s.len() as int) =~= Seq::<char>::empty());
    out
}

/// Plain text of feed HTML.
pub open spec fn html_to_text_spec(input: Seq<char>) -> Seq<char> {
    normalize_spec(decode_spec(untag(strip_spec(strip_spec(input, "script"@), "style"@))))
}

/// Feed HTML as readable plain text: `script` and `style` elements and all
/// tags dropped, block tags kept as line breaks, entities decoded, and
/// whitespace tidied.
pub fn html_to_text(input: &str) -> (text: String)
    ensures
        text@ == html_to_text_spec(input@),
{
    let chars = chars_of(input);
    let script = chars_of("script");
    let style = chars_of("style");
    let without_script = strip_element(chars.as_slice(), script.as_slice());
    let without_style = strip_element(without_script.as_slice(), style.as_slice());
    let raw = strip_tags(without_style.as_slice());
    let decoded = decode_entities(raw.as_slice());
    let joined = join_lines(decoded.as_slice());
    let squeezed = squeeze(joined.as_slice());
    let trimmed = trim_chars(squeezed.as_slice());
    string_of(trimmed.as_slice())
}

/// A whitespace character of tidy text is a space or a line feed.
pub open spec fn plain_space(c: char) -> bool {
    is_ws(c) ==> c == ' ' || c == '\n'
}

/// Two neighbours in tidy text: a space is followed by a word character, and
/// a line feed is never followed by a space.
pub open spec fn spaced(a: char, b: char) -> bool {
    &&& a == ' ' ==> !is_ws(b)
    &&& a == '\n' ==> b != ' '
}

pub open spec fn three_breaks(a: char, b: char, c: char) -> bool {
    a == '\n' && b == '\n' && c == '\n'
}

/// Every whitespace character of `s` is a space or a line feed.
pub open spec fn plain_spaces(s: Seq<char>) -> bool {
    forall|i: int| 0 <= i < s.len() ==> plain_space(#[trigger] s[i])
}

/// Every two neighbours of `s` are `spaced`.
pub open spec fn well_spaced(s: Seq<char>) -> bool {
    forall|i: int, j: int| 0 <= i && j == i + 1 && j < s.len() ==> #[trigger] spaced(s[i], s[j])
}

/// No three line feeds in a row in `s`.
pub open spec fn no_triple_break(s: Seq<char>) -> bool {
    forall|i: int, j: int, k: int|
        0 <= i && j == i + 1 && k == j + 1 && k < s.len() ==> !#[trigger] three_breaks(s[i], s[j], s[k])
}

/// Text with nothing to tidy: no whitespace at either end; spaces and line
/// feeds the only whitespace (no `\r`, no tab); every space single and
/// between two words; no space at the start or end of a line; at most two
/// line feeds in a row.
pub open spec fn tidy_text(s: Seq<char>) -> bool {
    &&& s.len() == 0 || (!is_ws(s[0]) && !is_ws(s.last()))
    &&& plain_spaces(s)
    &&& well_spaced(s)
    &&& no_triple_break(s)
}

/// A collapsed line: single spaces between words, nothing else white.
spec fn line_shape(s: Seq<char>) -> bool {
    &&& forall|i: int| 0 <= i < s.len() && is_ws(#[trigger] s[i]) ==> s[i] == ' '
    &&& well_spaced(s)
    &&& s.len() == 0 || (!is_ws(s[0]) && !is_ws(s.last()))
}

/// Lines joined so far.
spec fn joined_shape(s: Seq<char>) -> bool {
    &&& plain_spaces(s)
    &&& well_spaced(s)
    &&& s.len() == 0 || s.last() != ' '
}

proof fn lemma_trim_start_skip(s: Seq<char>) -> (k: int)
    ensures
        0 <= k <= s.len(),
        trim_start_seq(s) == s.skip(k),
        k == s.len() || !is_ws(s[k]),
    decreases s.len(),
{
    if s.len() > 0 && is_ws(s[0]) {
        let k1 = lemma_trim_start_skip(s.drop_first());
        assert(s.drop_first().skip(k1) =~= s.skip(k1 + 1));
        if k1 < s.len() - 1 {
            assert(s.drop_first()[k1] == s[k1 + 1]);
        }
        k1 + 1
    } else {
        assert(s.skip(0) =~= s);
        0
    }
}

proof fn lemma_trim_end_take(s: Seq<char>) -> (k: int)
    ensures
        0 <= k <= s.len(),
        trim_end_seq(s) == s.take(k),
        k == 0 || !is_ws(s[k - 1]),
    decreases s.len(),
{
    if s.len() > 0 && is_ws(s.last()) {
        let k1 = lemma_trim_end_take(s.drop_last());
        assert(s.drop_last().take(k1) =~= s.take(k1));
        k1
    } else {
        assert(s.take(s.len() as int) =~= s);
        s.len() as int
    }
}

/// `trim_seq(s)` is a stretch of `s` with no whitespace at its ends.
proof fn lemma_trim_stretch(s: Seq<char>) -> (ab: (int, int))
    ensures
        0 <= ab.0 <= ab.1 <= s.len(),
        trim_seq(s) == s.subrange(ab.0, ab.1),
        ab.0 == ab.1 || (!is_ws(s[ab.0]) && !is_ws(s[ab.1 - 1])),
{
    let a = lemma_trim_start_skip(s);
    let b = lemma_trim_end_take(s.skip(a));
    assert(s.skip(a).take(b) =~= s.subrange(a, a + b));
    if b > 0 {
        assert(s.skip(a)[b - 1] == s[a + b - 1]);
        assert(s.skip(a)[0] == s[a]);
        assert(!is_ws(s[a]));
    }
    (a, a + b)
}

proof fn lemma_squash_shape(s: Seq<char>, in_ws: bool)
    ensures
        ({
            let o = squash_from(s, in_ws);
            &&& forall|i: int| 0 <= i < o.len() && is_ws(#[trigger] o[i]) ==> o[i] == ' '
            &&& well_spaced(o)
            &&& in_ws ==> o.len() == 0 || o[0] != ' '
            &&& s.len() > 0 && !is_ws(s[0]) ==> o.len() > 0 && o[0] == s[0]
            &&& s.len() > 0 && !is_ws(s.last()) ==> o.len() > 0 && !is_ws(o.last())
        }),
    decreases s.len(),
{
    if s.len() > 0 {
        let rest = s.drop_first();
        let b = is_ws(s[0]);
        lemma_squash_shape(rest, b);
        let r = squash_from(rest, b);
        let head: Seq<char> = if b { if in_ws { Seq::empty() } else { seq![' '] } } else { seq![s[0]] };
        let o = squash_from(s, in_ws);
        assert(o == head + r);
        assert forall|i: int| 0 <= i < o.len() && is_ws(#[trigger] o[i]) implies o[i] == ' ' by {
            if i >= head.len() {
                assert(o[i] == r[i - head.len()]);
            }
        }
        assert forall|i: int, j: int| 0 <= i && j == i + 1 && j < o.len() implies #[trigger] spaced(o[i], o[j]) by {
            if i >= head.len() {
                assert(o[i] == r[i - head.len()]);
                assert(o[j] == r[j - head.len()]);
                assert(spaced(r[i - head.len()], r[j - head.len()]));
            } else {
                assert(o[j] == r[0]);
                if o[i] == ' ' {
                    assert(b);
                    assert(r[0] != ' ');
                }
            }
        }
        if rest.len() > 0 && s.len() > 0 {
            assert(rest.last() == s.last());
        }
        if r.len() > 0 {
            assert(o.last() == r.last());
        }
    }
}

proof fn lemma_collapse_shape(line: Seq<char>)
    ensures
        line_shape(collapse_spec(line)),
{
    let (a, b) = lemma_trim_stretch(line);
    let t = trim_seq(line);
    lemma_squash_shape(t, false);
    if t.len() > 0 {
        assert(t[0] == line[a]);
        assert(t.last() == line[b - 1]);
    }
}

proof fn lemma_add_line_shape(acc: Seq<char>, line: Seq<char>)
    requires
        joined_shape(acc),
        line_shape(line),
    ensures
        joined_shape(add_line(acc, line)),
{
    let r = add_line(acc, line);
    if acc.len() > 0 {
        let a = acc.push('\n');
        assert(r == a + line);
        assert forall|i: int| 0 <= i < r.len() implies plain_space(#[trigger] r[i]) by {
            if i < acc.len() {
                assert(r[i] == acc[i]);
            } else if i > acc.len() {
                assert(r[i] == line[i - a.len()]);
            }
        }
        assert forall|i: int, j: int| 0 <= i && j == i + 1 && j < r.len() implies #[trigger] spaced(r[i], r[j]) by {
            if j < acc.len() {
                assert(r[i] == acc[i]);
                assert(r[j] == acc[j]);
                assert(spaced(acc[i], acc[j]));
            } else if j == acc.len() {
                assert(r[i] == acc.last());
            } else if i == acc.len() {
                assert(r[j] == line[0]);
            } else {
                assert(r[i] == line[i - a.len()]);
                assert(r[j] == line[j - a.len()]);
                assert(spaced(line[i - a.len()], line[j - a.len()]));
            }
        }
        if line.len() > 0 {
            assert(r.last() == line.last());
        }
    } else {
        assert forall|i: int| 0 <= i < r.len() implies plain_space(#[trigger] r[i]) by {
            assert(is_ws(line[i]) ==> line[i] == ' ');
        }
    }
}

proof fn lemma_join_shape(acc: Seq<char>, s: Seq<char>)
    requires
        joined_shape(acc),
    ensures
        joined_shape(join_from(acc, s)),
    decreases s.len(),
{
    match first_line_end(s, 0) {
        None => {
            lemma_collapse_shape(s);
            lemma_add_line_shape(acc, collapse_spec(s));
        },
        Some(t) => {
            let k = if s[t] == '\r' && t + 1 < s.len() && s[t + 1] == '\n' { t + 2 } else { t + 1 };
            if 0 <= t && k <= s.len() {
                lemma_collapse_shape(s.take(t));
                lemma_add_line_shape(acc, collapse_spec(s.take(t)));
                lemma_join_shape(add_line(acc, collapse_spec(s.take(t))), s.skip(k));
            }
        },
    }
}

proof fn lemma_squeeze_shape(s: Seq<char>, run: nat)
    requires
        plain_spaces(s),
        well_spaced(s),
        run >= 1 ==> s.len() == 0 || s[0] != ' ',
    ensures
        ({
            let o = squeeze_from(s, run);
            &&& plain_spaces(o)
            &&& well_spaced(o)
            &&& no_triple_break(o)
            &&& run == 0 && s.len() > 0 ==> o.len() > 0 && o[0] == s[0]
            &&& run >= 1 ==> o.len() == 0 || o[0] != ' '
            &&& run >= 2 ==> o.len() == 0 || o[0] != '\n'
            &&& run == 1 && o.len() >= 2 ==> !(o[0] == '\n' && o[1] == '\n')
        }),
    decreases s.len(),
{
    if s.len() > 0 {
        let rest = s.drop_first();
        let nl = s[0] == '\n';
        let run2: nat = if nl { run + 1 } else { 0 };
        assert forall|i: int| 0 <= i < rest.len() implies plain_space(#[trigger] rest[i]) by {
            assert(rest[i] == s[i + 1]);
        }
        assert forall|i: int, j: int| 0 <= i && j == i + 1 && j < rest.len() implies #[trigger] spaced(rest[i], rest[j]) by {
            assert(rest[i] == s[i + 1]);
            assert(rest[j] == s[j + 1]);
            assert(spaced(s[i + 1], s[j + 1]));
        }
        if rest.len() > 0 {
            assert(rest[0] == s[1]);
            assert(spaced(s[0], s[1]));
        }
        lemma_squeeze_shape(rest, run2);
        let r = squeeze_from(rest, run2);
        let head: Seq<char> = if nl { if run >= 2 { Seq::empty() } else { seq!['\n'] } } else { seq![s[0]] };
        let o = squeeze_from(s, run);
        assert(o == head + r);
        if !nl && r.len() > 0 {
            assert(r[0] == rest[0]);
        }
        assert forall|i: int| 0 <= i < o.len() implies plain_space(#[trigger] o[i]) by {
            if i >= head.len() {
                assert(o[i] == r[i - head.len()]);
            } else {
                assert(plain_space(s[0]));
            }
        }
        assert forall|i: int, j: int| 0 <= i && j == i + 1 && j < o.len() implies #[trigger] spaced(o[i], o[j]) by {
            if i >= head.len() {
                assert(o[i] == r[i - head.len()]);
                assert(o[j] == r[j - head.len()]);
                assert(spaced(r[i - head.len()], r[j - head.len()]));
            } else {
                assert(o[j] == r[0]);
            }
        }
        assert forall|i: int, j: int, k: int|
            0 <= i && j == i + 1 && k == j + 1 && k < o.len() implies !#[trigger] three_breaks(o[i], o[j], o[k]) by {
            if i >= head.len() {
                assert(o[i] == r[i - head.len()]);
                assert(o[j] == r[j - head.len()]);
                assert(o[k] == r[k - head.len()]);
                assert(!three_breaks(r[i - head.len()], r[j - head.len()], r[k - head.len()]));
            } else {
                assert(o[j] == r[0]);
                assert(o[k] == r[1]);
            }
        }
    }
}

/// What `html_to_text` gives is tidy text, whatever the input: trimmed,
/// with no `\r` or other whitespace but single spaces between words and
/// line feeds, no space at either end of a line, and no more than two line
/// feeds in a row.
pub proof fn law_html_text_tidy(input: Seq<char>)
    ensures
        tidy_text(html_to_text_spec(input)),
{
    let d = decode_spec(untag(strip_spec(strip_spec(input, "script"@), "style"@)));
    let e: Seq<char> = Seq::empty();
    lemma_join_shape(e, d);
    let j = join_from(e, d);
    lemma_squeeze_shape(j, 0);
    let q = squeeze_from(j, 0);
    let (a, b) = lemma_trim_stretch(q);
    let t = trim_seq(q);
    assert forall|i: int| 0 <= i < t.len() implies plain_space(#[trigger] t[i]) by {
        assert(t[i] == q[i + a]);
    }
    assert forall|i: int, j: int| 0 <= i && j == i + 1 && j < t.len() implies #[trigger] spaced(t[i], t[j]) by {
        assert(t[i] == q[i + a]);
        assert(t[j] == q[j + a]);
        assert(spaced(q[i + a], q[j + a]));
    }
    assert forall|i: int, j: int, k: int|
        0 <= i && j == i + 1 && k == j + 1 && k < t.len() implies !#[trigger] three_breaks(t[i], t[j], t[k]) by {
        assert(t[i] == q[i + a]);
        assert(t[j] == q[j + a]);
        assert(t[k] == q[k + a]);
        assert(!three_breaks(q[i + a], q[j + a], q[k + a]));
    }
    if t.len() > 0 {
        assert(t[0] == q[a]);
        assert(t.last() == q[b - 1]);
    }
}

/// A sequence with no `<` in it.
pub open spec fn no_open_bracket(s: Seq<char>) -> bool {
    forall|i: int| 0 <= i < s.len() ==> s[i] != '<'
}

proof fn lemma_lower_keeps_bracket(s: Seq<char>, i: int)
    requires
        0 <= i < s.len(),
    ensures
        (lower_seq(s)[i] == '<') == (s[i] == '<'),
        (lower_seq(s)[i] == '/') == (s[i] == '/'),
        (lower_seq(s)[i] == '>') == (s[i] == '>'),
        'a' <= s[i] <= 'z' ==> lower_seq(s)[i] == s[i],
{
    let c = s[i];
    if 'A' <= c && c <= 'Z' {
        let n = (c as u32) + 32;
        assert(97 <= n <= 122);
    }
}

/// No match of `p` (whose first character is absent from `s[from..to]`)
/// starts before `to`.
pub(crate) proof fn lemma_first_occ_past(s: Seq<char>, p: Seq<char>, from: int, to: int)
    requires
        p.len() > 0,
        0 <= from <= to <= s.len(),
        forall|i: int| from <= i < to ==> s[i] != p[0],
    ensures
        first_occ(s, p, from) == first_occ(s, p, to),
    decreases to - from,
{
    if from < to {
        assert(!occurs_at(s, p, from)) by {
            if from + p.len() <= s.len() {
                assert(s.subrange(from, from + p.len())[0] == s[from]);
            }
        }
        lemma_first_occ_past(s, p, from + 1, to);
    }
}

/// A match `first_occ` finds lies at or after where the search began.
proof fn lemma_first_occ_found(s: Seq<char>, p: Seq<char>, from: int)
    ensures
        first_occ(s, p, from) matches Some(x) ==> from <= x && occurs_at(s, p, x),
    decreases s.len() + 1 - from,
{
    if 0 <= from <= s.len() && !occurs_at(s, p, from) {
        lemma_first_occ_found(s, p, from + 1);
    }
}

/// Text before the first `<` passes through the stripping of an element
/// unchanged.
pub proof fn lemma_strip_keeps_plain_prefix(a: Seq<char>, y: Seq<char>, name: Seq<char>)
    requires
        no_open_bracket(a),
    ensures
        strip_spec(a + y, name) == a + strip_spec(y, name),
{
    let s = a + y;
    let n = a.len() as int;
    let l = lower_seq(s);
    let ly = lower_seq(y);
    let open = seq!['<'] + name;
    let close = seq!['<', '/'] + name;
    assert(s.skip(n) =~= y);
    assert(l.skip(n) =~= ly);
    assert forall|i: int| 0 <= i < n implies l[i] != open[0] by {
        lemma_lower_keeps_bracket(s, i);
        assert(s[i] == a[i]);
    }
    lemma_first_occ_past(l, open, 0, n);
    lemma_first_occ_shift(l, open, n, 0);
    match first_occ(ly, open, 0) {
        None => {},
        Some(start) => {
            lemma_first_occ_found(ly, open, 0);
            assert(s.take(start + n) =~= a + y.take(start));
            lemma_first_occ_shift(l, close, n, start);
            match first_occ(ly, close, start) {
                None => {},
                Some(end) => {
                    lemma_first_occ_found(ly, close, start);
                    lemma_first_occ_shift(s, seq!['>'], n, end + close.len());
                    match first_occ(y, seq!['>'], end + close.len()) {
                        None => {},
                        Some(gt) => {
                            lemma_first_occ_found(y, seq!['>'], end + close.len());
                            assert(s.skip(gt + n + 1) =~= y.skip(gt + 1));
                        },
                    }
                },
            }
        },
    }
}

/// A `name` element whose body holds no tag is removed whole, and nothing
/// after it is touched but by the stripping of later elements.
pub proof fn lemma_strip_drops_element(name: Seq<char>, body: Seq<char>, c: Seq<char>)
    requires
        name.len() > 0,
        forall|i: int| 0 <= i < name.len() ==> 'a' <= #[trigger] name[i] <= 'z',
        no_open_bracket(body),
    ensures
        strip_spec(seq!['<'] + name + seq!['>'] + body + seq!['<', '/'] + name + seq!['>'] + c, name)
            == strip_spec(c, name),
{
    let open = seq!['<'] + name;
    let close = seq!['<', '/'] + name;
    let head = open + seq!['>'] + body;
    let x = head + close + seq!['>'] + c;
    assert(x =~= seq!['<'] + name + seq!['>'] + body + seq!['<', '/'] + name + seq!['>'] + c);
    let l = lower_seq(x);
    let end = head.len() as int;
    assert forall|i: int| 0 <= i < x.len() implies (l[i] == '<') == (x[i] == '<') && (l[i] == '/') == (x[i] == '/')
        && ('a' <= x[i] <= 'z' ==> l[i] == x[i]) by {
        lemma_lower_keeps_bracket(x, i);
    }
    assert(occurs_at(l, open, 0)) by {
        assert forall|i: int| 0 <= i < open.len() implies l.subrange(0, open.len() as int)[i] == open[i] by {
            if i > 0 {
                assert(x[i] == name[i - 1]);
            }
        }
        assert(l.subrange(0, open.len() as int) =~= open);
    }
    assert(first_occ(l, open, 0) == Some(0int));
    assert(!occurs_at(l, close, 0)) by {
        assert(x[1] == name[0]);
        assert(l.subrange(0, close.len() as int)[1] == l[1]);
    }
    assert forall|i: int| 1 <= i < end implies l[i] != close[0] by {
        if i <= name.len() {
            assert(x[i] == name[i - 1]);
        } else if i == name.len() + 1 {
            assert(x[i] == '>');
        } else {
            assert(x[i] == body[i - name.len() - 2]);
        }
    }
    lemma_first_occ_past(l, close, 1, end);
    assert(occurs_at(l, close, end)) by {
        assert forall|i: int| 0 <= i < close.len() implies l.subrange(end, end + close.len())[i] == close[i] by {
            assert(x[end + i] == close[i]);
            if i >= 2 {
                assert(close[i] == name[i - 2]);
            }
        }
        assert(l.subrange(end, end + close.len()) =~= close);
    }
    assert(first_occ(l, close, 0) == Some(end));
    let gt = end + close.len();
    assert(x[gt] == '>');
    assert(occurs_at(x, seq!['>'], gt)) by {
        assert(x.subrange(gt, gt + 1) =~= seq!['>']);
    }
    assert(first_occ(x, seq!['>'], gt) == Some(gt));
    assert(x.take(0) =~= Seq::<char>::empty());
    assert(x.skip(gt + 1) =~= c);
}

/// A `script` element whose body holds no tag, after text with no tag,
/// leaves no trace in the plain text: the text is that of the input
/// without the element.
pub proof fn law_html_text_drops_script(a: Seq<char>, body: Seq<char>, c: Seq<char>)
    requires
        no_open_bracket(a),
        no_open_bracket(body),
    ensures
        html_to_text_spec(a + "<script>"@ + body + "</script>"@ + c) == html_to_text_spec(a + c),
{
    reveal_strlit("script");
    reveal_strlit("<script>");
    reveal_strlit("</script>");
    let name = "script"@;
    let elem_c = seq!['<'] + name + seq!['>'] + body + seq!['<', '/'] + name + seq!['>'] + c;
    assert(a + "<script>"@ + body + "</script>"@ + c =~= a + elem_c);
    lemma_strip_keeps_plain_prefix(a, elem_c, name);
    lemma_strip_drops_element(name, body, c);
    lemma_strip_keeps_plain_prefix(a, c, name);
}

/// Text with no `&` in it.
pub open spec fn no_ampersand(s: Seq<char>) -> bool {
    forall|i: int| 0 <= i < s.len() ==> s[i] != '&'
}

/// An entity reference `&name;` after plain text decodes to the character
/// `entity_char(name)` gives, and decoding goes on after the `;`.
proof fn lemma_decode_reference(p: Seq<char>, name: Seq<char>, c: char, t: Seq<char>)
    requires
        no_ampersand(p),
        forall|i: int| 0 <= i < name.len() ==> name[i] != ';',
        entity_char(name) == Some(c),
    ensures
        decode_spec(p + seq!['&'] + name + seq![';'] + t) == p + seq![c] + decode_spec(t),
{
    let x = p + seq!['&'] + name + seq![';'] + t;
    let n = p.len() as int;
    let amp = seq!['&'];
    let semi = seq![';'];
    assert forall|i: int| 0 <= i < n implies x[i] != amp[0] by {
        assert(x[i] == p[i]);
    }
    lemma_first_occ_past(x, amp, 0, n);
    assert(x[n] == '&');
    assert(occurs_at(x, amp, n)) by {
        assert(x.subrange(n, n + 1) =~= amp);
    }
    assert(first_occ(x, amp, 0) == Some(n));
    let r = x.skip(n);
    let e = name.len() + 1int;
    assert(r =~= seq!['&'] + name + seq![';'] + t);
    assert(!occurs_at(r, semi, 0)) by {
        assert(r.subrange(0, 1)[0] == '&');
    }
    assert forall|i: int| 1 <= i < e implies r[i] != semi[0] by {
        assert(r[i] == name[i - 1]);
    }
    lemma_first_occ_past(r, semi, 1, e);
    assert(occurs_at(r, semi, e)) by {
        assert(r.subrange(e, e + 1) =~= semi);
    }
    assert(first_occ(r, semi, 0) == Some(e));
    assert(r.subrange(1, e) =~= name);
    assert(r.skip(e + 1) =~= t);
    assert(x.take(n) =~= p);
}

/// The named entities decode to their characters wherever they stand:
/// after any text with no `&`, `&amp;` is `&`, `&lt;` is `<`, `&gt;` is
/// `>`, `&quot;` is `"`, `&apos;` is `'` and `&nbsp;` a plain space, and
/// the rest of the text is decoded on its own.
pub proof fn law_named_entities(p: Seq<char>, t: Seq<char>)
    requires
        no_ampersand(p),
    ensures
        decode_spec(p + "&amp;"@ + t) == p + seq!['&'] + decode_spec(t),
        decode_spec(p + "&lt;"@ + t) == p + seq!['<'] + decode_spec(t),
        decode_spec(p + "&gt;"@ + t) == p + seq!['>'] + decode_spec(t),
        decode_spec(p + "&quot;"@ + t) == p + seq!['"'] + decode_spec(t),
        decode_spec(p + "&apos;"@ + t) == p + seq!['\''] + decode_spec(t),
        decode_spec(p + "&nbsp;"@ + t) == p + seq![' '] + decode_spec(t),
{
    reveal_strlit("amp");
    reveal_strlit("lt");
    reveal_strlit("gt");
    reveal_strlit("quot");
    reveal_strlit("apos");
    reveal_strlit("nbsp");
    reveal_strlit("&amp;");
    reveal_strlit("&lt;");
    reveal_strlit("&gt;");
    reveal_strlit("&quot;");
    reveal_strlit("&apos;");
    reveal_strlit("&nbsp;");
    assert(entity_char("amp"@) == Some('&')) by {
    }
    assert(p + "&amp;"@ + t =~= p + seq!['&'] + "amp"@ + seq![';'] + t);
    lemma_decode_reference(p, "amp"@, '&', t);
    assert(entity_char("lt"@) == Some('<')) by {
        assert("lt"@.len() != "amp"@.len() || "lt"@[0] != "amp"@[0]);
    }
    assert(p + "&lt;"@ + t =~= p + seq!['&'] + "lt"@ + seq![';'] + t);
    lemma_decode_reference(p, "lt"@, '<', t);
    assert(entity_char("gt"@) == Some('>')) by {
        assert("gt"@.len() != "amp"@.len() || "gt"@[0] != "amp"@[0]);
        assert("gt"@.len() != "lt"@.len() || "gt"@[0] != "lt"@[0]);
    }
    assert(p + "&gt;"@ + t =~= p + seq!['&'] + "gt"@ + seq![';'] + t);
    lemma_decode_reference(p, "gt"@, '>', t);
    assert(entity_char("quot"@) == Some('"')) by {
        assert("quot"@.len() != "amp"@.len() || "quot"@[0] != "amp"@[0]);
        assert("quot"@.len() != "lt"@.len() || "quot"@[0] != "lt"@[0]);
        assert("quot"@.len() != "gt"@.len() || "quot"@[0] != "gt"@[0]);
    }
    assert(p + "&quot;"@ + t =~= p + seq!['&'] + "quot"@ + seq![';'] + t);
    lemma_decode_reference(p, "quot"@, '"', t);
    assert(entity_char("apos"@) == Some('\'')) by {
        assert("apos"@.len() != "amp"@.len() || "apos"@[0] != "amp"@[0]);
        assert("apos"@.len() != "lt"@.len() || "apos"@[0] != "lt"@[0]);
        assert("apos"@.len() != "gt"@.len() || "apos"@[0] != "gt"@[0]);
        assert("apos"@.len() != "quot"@.len() || "apos"@[0] != "quot"@[0]);
    }
    assert(p + "&apos;"@ + t =~= p + seq!['&'] + "apos"@ + seq![';'] + t);
    lemma_decode_reference(p, "apos"@, '\'', t);
    assert(entity_char("nbsp"@) == Some(' ')) by {
        assert("nbsp"@.len() != "amp"@.len() || "nbsp"@[0] != "amp"@[0]);
        assert("nbsp"@.len() != "lt"@.len() || "nbsp"@[0] != "lt"@[0]);
        assert("nbsp"@.len() != "gt"@.len() || "nbsp"@[0] != "gt"@[0]);
        assert("nbsp"@.len() != "quot"@.len() || "nbsp"@[0] != "quot"@[0]);
        assert("nbsp"@.len() != "apos"@.len() || "nbsp"@[0] != "apos"@[0]);
    }
    assert(p + "&nbsp;"@ + t =~= p + seq!['&'] + "nbsp"@ + seq![';'] + t);
    lemma_decode_reference(p, "nbsp"@, ' ', t);
}

proof fn lemma_decimal_reads_back(n: nat)
    ensures
        decimal(n).len() > 0,
        all_radix_digits(decimal(n), 10),
        radix_value(decimal(n), 10) == n,
        forall|i: int| 0 <= i < decimal(n).len() ==> '0' <= #[trigger] decimal(n)[i] <= '9',
    decreases n,
{
    let d = n % 10;
    assert(digit_value(digit_char(d), 10) == Some(d));
    if n >= 10 {
        lemma_decimal_reads_back(n / 10);
        let s = decimal(n);
        assert(s.drop_last() =~= decimal(n / 10));
        assert(s.last() == digit_char(d));
        assert(radix_value(s, 10) == radix_value(decimal(n / 10), 10) * 10 + d);
        assert((n / 10) * 10 + d == n);
        assert forall|i: int| 0 <= i < s.len() implies (#[trigger] digit_value(s[i], 10)) is Some by {
            if i < s.len() - 1 {
                assert(s[i] == decimal(n / 10)[i]);
            }
        }
        assert forall|i: int| 0 <= i < s.len() implies '0' <= #[trigger] s[i] <= '9' by {
            if i < s.len() - 1 {
                assert(s[i] == decimal(n / 10)[i]);
            }
        }
    } else {
        assert(decimal(n) =~= seq![digit_char(n)]);
        assert(decimal(n).drop_last() =~= Seq::<char>::empty());
        assert(radix_value(decimal(n).drop_last(), 10) == 0);
        assert(decimal(n).last() == digit_char(n));
    }
}

/// A decimal character reference `&#n;` after text with no `&` decodes to
/// the character with code `n`, for every `n` below the surrogates; the
/// rest of the text is decoded on its own.
pub proof fn law_decimal_reference(p: Seq<char>, n: u32, t: Seq<char>)
    requires
        no_ampersand(p),
        n < 0xd800,
    ensures
        decode_spec(p + seq!['&', '#'] + decimal(n as nat) + seq![';'] + t) == p + seq![n as char] + decode_spec(t),
{
    reveal_strlit("amp");
    reveal_strlit("lt");
    reveal_strlit("gt");
    reveal_strlit("quot");
    reveal_strlit("apos");
    reveal_strlit("nbsp");
    let ds = decimal(n as nat);
    lemma_decimal_reads_back(n as nat);
    let name = seq!['#'] + ds;
    assert(name.skip(1) =~= ds);
    assert(name[0] == '#');
    assert(name.len() >= 2 ==> name[1] == ds[0]);
    assert(name != "amp"@ && name != "lt"@ && name != "gt"@ && name != "quot"@ && name != "apos"@ && name != "nbsp"@) by {
        assert("amp"@[0] != '#' && "lt"@[0] != '#' && "gt"@[0] != '#');
        assert("quot"@[0] != '#' && "apos"@[0] != '#' && "nbsp"@[0] != '#');
    }
    assert(parse_u32_radix(ds, 10) == Some(n));
    assert(entity_char(name) == Some(n as char));
    assert forall|i: int| 0 <= i < name.len() implies name[i] != ';' by {
        if i > 0 {
            assert(name[i] == ds[i - 1]);
        }
    }
    assert(p + seq!['&', '#'] + ds + seq![';'] + t =~= p + seq!['&'] + name + seq![';'] + t);
    lemma_decode_reference(p, name, n as char, t);
}

} // verus!
