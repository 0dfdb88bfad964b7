//! What the GTK window shows of the session's rows: Pango markup for a
//! message body with its links, and a chat's unread badge.

use vstd::prelude::*;
use crate::gpui::spans::{http_spans, http_spans_spec, spans_view, TextSpan, TextSpanView};
use crate::shell::{links_view, ChatItem, ShellCommand, TextLink};
use crate::textutil::{chars_of, decimal, push_decimal, string_of, trim, trim_seq};

verus! {

/// A character as Pango markup text.
pub open spec fn escape_char(c: char) -> Seq<char> {
    if c == '&' {
        "&amp;"@
    } else if c == '<' {
        "&lt;"@
    } else if c == '>' {
        "&gt;"@
    } else {
        seq![c]
    }
}

/// A character inside a double-quoted markup attribute.
pub open spec fn attr_char(c: char) -> Seq<char> {
    if c == '"' { "&quot;"@ } else { escape_char(c) }
}

/// `s` with `&`, `<` and `>` escaped.
pub open spec fn escape_spec(s: Seq<char>) -> Seq<char>
    decreases s.len(),
{
    if s.len() == 0 { Seq::empty() } else { escape_spec(s.drop_last()) + escape_char(s.last()) }
}

/// `s` escaped for a double-quoted attribute.
pub open spec fn attr_spec(s: Seq<char>) -> Seq<char>
    decreases s.len(),
{
    if s.len() == 0 { Seq::empty() } else { attr_spec(s.drop_last()) + attr_char(s.last()) }
}

/// The markup of one piece of a message body.
pub open spec fn span_markup(t: TextSpanView) -> Seq<char> {
    match t {
        TextSpanView::Text(x) => escape_spec(x),
        TextSpanView::Link { label, url } => "<a href=\""@ + attr_spec(url) + "\">"@ + escape_spec(label) + "</a>"@,
    }
}

pub open spec fn markup_of(spans: Seq<TextSpanView>) -> Seq<char>
    decreases spans.len(),
{
    if spans.len() == 0 { Seq::empty() } else { markup_of(spans.drop_last()) + span_markup(spans.last()) }
}

/// Pango markup of a message body: its text escaped, with each usable link
/// as an `<a href>` element.
pub open spec fn link_markup_spec(text: Seq<char>, links: Seq<crate::shell::TextLinkView>) -> Seq<char> {
    markup_of(http_spans_spec(text, links))
}

fn push_all(out: &mut Vec<char>, lit: &str)
    ensures
        final(out)@ == old(out)@ + lit@,
{
    let ghost s = lit@;
    let c = chars_of(lit);
    let mut i: usize = 0;
    let ghost start = out@;
    while i < c.len()
        invariant
            i <= c.len(),
            c@ == s,
            out@ == start + s.take(i as int),
        decreases c.len() - i,
    {
        out.push(c[i]);
        assert(s.take(i + 1) =~= s.take(i as int).push(s[i as int]));
        i += 1;
    }
    assert(s.take(c.len() as int) =~= s);
}

fn push_escaped(out: &mut Vec<char>, text: &str, attr: bool)
    ensures
        final(out)@ == old(out)@ + if attr { attr_spec(text@) } else { escape_spec(text@) },
{
    let c = chars_of(text);
    let ghost start = out@;
    let mut i: usize = 0;
    assert(c@.take(0) =~= Seq::<char>::empty());
    while i < c.len()
        invariant
            i <= c.len(),
            c@ == text@,
            out@ == start + if attr { attr_spec(c@.take(i as int)) } else { escape_spec(c@.take(i as int)) },
        decreases c.len() - i,
    {
        let ch = c[i];
        assert(c@.take(i + 1).drop_last() =~= c@.take(i as int));
        let ghost before = out@;
        if attr && ch == '"' {
            proof { reveal_strlit("&quot;"); }
            push_all(out, "&quot;");
        } else if ch == '&' {
            proof { reveal_strlit("&amp;"); }
            push_all(out, "&amp;");
        } else if ch == '<' {
            proof { reveal_strlit("&lt;"); }
            push_all(out, "&lt;");
        } else if ch == '>' {
            proof { reveal_strlit("&gt;"); }
            push_all(out, "&gt;");
        } else {
            out.push(ch);
            assert(out@ =~= before + seq![ch]);
        }
        assert(out@ =~= start + if attr { attr_spec(c@.take(i + 1)) } else { escape_spec(c@.take(i + 1)) });
        i += 1;
    }
    assert(c@.take(c.len() as int) =~= c@);
}

/// `text` with `&`, `<` and `>` escaped for Pango markup.
pub fn escape_markup(text: &str) -> (r: String)
    ensures
        r@ == escape_spec(text@),
{
    let mut out: Vec<char> = Vec::new();
    push_escaped(&mut out, text, false);
    assert(out@ =~= escape_spec(text@));
    string_of(out.as_slice())
}

/// Pango markup of a message body: the text escaped, each usable link (an
/// `http`/`https` URL over a non-empty span on character boundaries, not
/// overlapping an earlier one) as an `<a href>` element.
pub fn link_markup(text: &str, links: &[TextLink]) -> (r: String)
    ensures
        r@ == link_markup_spec(text@, links_view(links@)),
{
    let spans = http_spans(text, links);
    let ghost sv = spans_view(spans@);
    let mut out: Vec<char> = Vec::new();
    let mut i: usize = 0;
    assert(sv.take(0) =~= Seq::<TextSpanView>::empty());
    while i < spans.len()
        invariant
            i <= spans.len(),
            sv == spans_view(spans@),
            out@ == markup_of(sv.take(i as int)),
        decreases spans.len() - i,
    {
        assert(sv.take(i + 1).drop_last() =~= sv.take(i as int));
        assert(sv.take(i + 1).last() == spans@[i as int]@);
        let ghost before = out@;
        match &spans[i] {
            TextSpan::Text(t) => {
                push_escaped(&mut out, t.as_str(), false);
            },
            TextSpan::Link { label, url } => {
                proof {
                    reveal_strlit("<a href=\"");
                    reveal_strlit("\">");
                    reveal_strlit("</a>");
                }
                push_all(&mut out, "<a href=\"");
                push_escaped(&mut out, url.as_str(), true);
                push_all(&mut out, "\">");
                push_escaped(&mut out, label.as_str(), false);
                push_all(&mut out, "</a>");
                assert(out@ =~= before + ("<a href=\""@ + attr_spec(url@) + "\">"@ + escape_spec(label@)
                    + "</a>"@));
            },
        }
        i += 1;
    }
    assert(sv.take(spans.len() as int) =~= sv);
    string_of(out.as_slice())
}

/// The badge of a chat row: the unread count (`99+` above 99), else a dot
/// for a chat marked unread, else none.
pub open spec fn unread_badge_spec(unread: i32, marked_unread: bool) -> Option<Seq<char>> {
    if unread > 99 {
        Some("99+"@)
    } else if unread > 0 {
        Some(decimal(unread as nat))
    } else if marked_unread {
        Some("•"@)
    } else {
        None
    }
}

pub fn unread_badge(chat: &ChatItem) -> (r: Option<String>)
    ensures
        match r {
            Some(b) => unread_badge_spec(chat.unread, chat.marked_unread) == Some(b@),
            None => unread_badge_spec(chat.unread, chat.marked_unread) is None,
        },
{
    if chat.unread > 99 {
        let c = chars_of("99+");
        Some(string_of(c.as_slice()))
    } else if chat.unread > 0 {
        let mut s = String::new();
        push_decimal(&mut s, chat.unread as u64);
        Some(s)
    } else if chat.marked_unread {
        let c = chars_of("•");
        Some(string_of(c.as_slice()))
    } else {
        None
    }
}

/// Which panes a window of `width` pixels shows: below 760 only one of the
/// chat list and the conversation (with a back button), the conversation
/// when a chat is open and the list was not asked for.
#[derive(Clone, Copy, Debug, PartialEq, Eq, Structural)]
pub struct PaneLayout {
    pub list: bool,
    pub conversation: bool,
    pub back: bool,
}

pub open spec fn narrow_layout_spec(width: i32, chat_open: bool, force_list: bool) -> PaneLayout {
    if !(width > 0 && width < 760) {
        PaneLayout { list: true, conversation: true, back: false }
    } else if chat_open && !force_list {
        PaneLayout { list: false, conversation: true, back: true }
    } else {
        PaneLayout { list: true, conversation: false, back: false }
    }
}

pub fn narrow_layout(width: i32, chat_open: bool, force_list: bool) -> (r: PaneLayout)
    ensures
        r == narrow_layout_spec(width, chat_open, force_list),
{
    if !(width > 0 && width < 760) {
        PaneLayout { list: true, conversation: true, back: false }
    } else if chat_open && !force_list {
        PaneLayout { list: false, conversation: true, back: true }
    } else {
        PaneLayout { list: true, conversation: false, back: false }
    }
}

/// The placeholder shown after a chat list arrives while no chat is open:
/// why the list is empty once the session is ready, else a hint to open a
/// chat; none while a chat is open or an empty list is still loading.
pub open spec fn list_placeholder_spec(chat_open: bool, no_chats: bool, ready: bool, in_folder: bool) -> Option<
    Seq<char>,
> {
    if chat_open {
        None
    } else if no_chats && ready {
        if in_folder { Some("No chats in this folder."@) } else { Some("No chats in the local main list yet."@) }
    } else if !no_chats {
        Some("Open a chat to read recent text messages."@)
    } else {
        None
    }
}

pub fn list_placeholder(chat_open: bool, no_chats: bool, ready: bool, in_folder: bool) -> (r: Option<&'static str>)
    ensures
        match r {
            Some(t) => list_placeholder_spec(chat_open, no_chats, ready, in_folder) == Some(t@),
            None => list_placeholder_spec(chat_open, no_chats, ready, in_folder) is None,
        },
{
    if chat_open {
        None
    } else if no_chats && ready {
        if in_folder { Some("No chats in this folder.") } else { Some("No chats in the local main list yet.") }
    } else if !no_chats {
        Some("Open a chat to read recent text messages.")
    } else {
        None
    }
}

/// What the send button does: the composer's text goes to the open chat,
/// unless no chat is open or the text is blank.
pub open spec fn composer_send_spec(open_chat: Option<i64>, text: Seq<char>) -> Option<(i64, Seq<char>)> {
    match open_chat {
        Some(id) => if trim_seq(text).len() == 0 { None } else { Some((id, text)) },
        None => None,
    }
}

pub fn composer_send(open_chat: Option<i64>, text: &str) -> (r: Option<ShellCommand>)
    ensures
        match r {
            Some(ShellCommand::SendText { chat_id, text: t }) => composer_send_spec(open_chat, text@) == Some(
                (chat_id, t@),
            ),
            Some(_) => false,
            None => composer_send_spec(open_chat, text@) is None,
        },
{
    match open_chat {
        Some(chat_id) => {
            if trim(text).as_str().is_empty() {
                None
            } else {
                Some(ShellCommand::SendText { chat_id, text: string_of(chars_of(text).as_slice()) })
            }
        },
        None => None,
    }
}

} // verus!
