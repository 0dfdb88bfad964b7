//! The desktop session's chat table: every chat it knows by id, the main
//! list in listing order, and each chat's position in each folder. TDLib's
//! chat updates arrive here as typed values.

use vstd::prelude::*;
use crate::seqs::{
    find_where, first_where, is_first, lemma_first_exists, lemma_first_where_found,
    lemma_first_where_none, lemma_first_where_some, lemma_put_where, lemma_put_where_other,
    lemma_put_where_twice,
    lemma_filter_empty, lemma_filter_take_step, lemma_remove_where, lemma_remove_where_other,
    put_where, remove_where, unique_by,
};
use crate::shell::{
    chat_has_id, chat_with_id, chats_view, folder_is, folder_order, is_pending_title, opt_text,
    ChatItem, ChatItemView, ChatPosition, PositionList, PENDING_TITLE, SYNTHETIC_ORDER,
    main_list_order, main_list_order_spec, take_upto, title_pending, unread_count, chat_list_items,
    chat_list_spec,
};
use crate::textutil::str_eq;

verus! {

/// What a chat object or update says of the chat's last message.
#[derive(Clone, Debug)]
pub enum LastMessage {
    /// No `last_message` field.
    Missing,
    /// `last_message` is null: the chat has no messages.
    Null,
    /// A message whose preview cannot be made (no content type).
    Unreadable,
    /// The preview and the date of the message.
    Snippet(String, i64),
}

/// The fields of a TDLib `chat` object the table keeps.
#[derive(Clone, Debug)]
pub struct ChatInfo {
    pub id: i64,
    /// `title`, when it is a string.
    pub title: Option<String>,
    /// `unread_count` when the field is there (zero when it is not a number).
    pub unread_count: Option<i64>,
    /// `is_marked_as_unread` when the field is there (false when not a bool).
    pub marked_unread: Option<bool>,
    pub last_message: LastMessage,
    /// `photo` is there and null.
    pub photo_null: bool,
    /// `positions`, when it is an array.
    pub positions: Option<Vec<ChatPosition>>,
}

pub struct ChatTable {
    chats: Vec<ChatItem>,
    listed: Vec<i64>,
    folder_orders: Vec<(i64, Vec<(i32, i64)>)>,
}

#[verifier::ext_equal]
pub struct ChatTableView {
    pub chats: Seq<ChatItemView>,
    pub listed: Seq<i64>,
    pub orders: Seq<(i64, Seq<(i32, i64)>)>,
}

impl View for ChatTable {
    type V = ChatTableView;

    closed spec fn view(&self) -> ChatTableView {
        ChatTableView {
            chats: chats_view(self.chats@),
            listed: self.listed@,
            orders: crate::shell::orders_view(self.folder_orders@),
        }
    }
}

/// A chat known only by id.
pub open spec fn empty_chat(id: i64) -> ChatItemView {
    ChatItemView {
        id,
        title: PENDING_TITLE@,
        order: 0,
        unread: 0,
        marked_unread: false,
        avatar: None,
        preview: Seq::empty(),
        preview_date: 0,
        real_order: false,
    }
}

pub open spec fn chat_key() -> spec_fn(ChatItemView) -> i64 {
    |c: ChatItemView| c.id
}

pub open spec fn entry_key() -> spec_fn((i64, Seq<(i32, i64)>)) -> i64 {
    |e: (i64, Seq<(i32, i64)>)| e.0
}

pub open spec fn folder_key() -> spec_fn((i32, i64)) -> i32 {
    |e: (i32, i64)| e.0
}

pub open spec fn entry_is(id: i64) -> spec_fn((i64, Seq<(i32, i64)>)) -> bool {
    |e: (i64, Seq<(i32, i64)>)| e.0 == id
}

pub open spec fn not_id(id: i64) -> spec_fn(i64) -> bool {
    |x: i64| x != id
}

/// The table holds each chat once, each chat's folder positions once, and
/// one position per folder.
pub open spec fn table_wf(t: ChatTableView) -> bool {
    &&& unique_by(t.chats, chat_key())
    &&& unique_by(t.orders, entry_key())
    &&& forall|k: int| 0 <= k < t.orders.len() ==> unique_by(#[trigger] t.orders[k].1, folder_key())
}

/// The table with `c` stored under its id: in place, or added at the end.
pub open spec fn put_chat(chats: Seq<ChatItemView>, c: ChatItemView) -> Seq<ChatItemView> {
    put_where(chats, chat_has_id(c.id), c)
}

/// The chat stored under `id`, or a new one.
pub open spec fn chat_or_empty(chats: Seq<ChatItemView>, id: i64) -> ChatItemView {
    match chat_with_id(chats, id) {
        Some(c) => c,
        None => empty_chat(id),
    }
}

/// The folder positions of a chat, if the table has an entry for it.
pub open spec fn orders_of(orders: Seq<(i64, Seq<(i32, i64)>)>, id: i64) -> Option<Seq<(i32, i64)>> {
    match find_where(orders, entry_is(id)) {
        Some(e) => Some(e.1),
        None => None,
    }
}

/// The folder positions of a chat, none when it has no entry.
pub open spec fn orders_or_empty(orders: Seq<(i64, Seq<(i32, i64)>)>, id: i64) -> Seq<(i32, i64)> {
    match orders_of(orders, id) {
        Some(fos) => fos,
        None => Seq::empty(),
    }
}

/// The table with the folder positions of `id` set to `fos`.
pub open spec fn put_orders(
    orders: Seq<(i64, Seq<(i32, i64)>)>,
    id: i64,
    fos: Seq<(i32, i64)>,
) -> Seq<(i64, Seq<(i32, i64)>)> {
    put_where(orders, entry_is(id), (id, fos))
}

/// One folder position set: in place, or added at the end.
pub open spec fn put_folder_order(fos: Seq<(i32, i64)>, folder: i32, order: i64) -> Seq<(i32, i64)> {
    put_where(fos, folder_is(folder), (folder, order))
}

/// Some folder position is non-zero.
pub open spec fn has_nonzero(fos: Seq<(i32, i64)>) -> bool {
    exists|k: int| 0 <= k < fos.len() && (#[trigger] fos[k]).1 != 0
}

/// Whether a chat has a non-zero position in some folder.
pub open spec fn in_some_folder(orders: Seq<(i64, Seq<(i32, i64)>)>, id: i64) -> bool {
    match orders_of(orders, id) {
        Some(fos) => has_nonzero(fos),
        None => false,
    }
}

/// A chat's folder positions after one `chatPosition`: a folder position
/// is removed when its order is zero and set otherwise; others change nothing.
pub open spec fn fold_position(fos: Seq<(i32, i64)>, p: ChatPosition) -> Seq<(i32, i64)> {
    match p.list {
        PositionList::Folder(f) => {
            let order = match p.order { Some(o) => o, None => 0 };
            if order == 0 { remove_where(fos, folder_is(f)) } else { put_folder_order(fos, f, order) }
        },
        _ => fos,
    }
}

pub open spec fn fold_positions(fos: Seq<(i32, i64)>, positions: Seq<ChatPosition>) -> Seq<(i32, i64)>
    decreases positions.len(),
{
    if positions.len() == 0 {
        fos
    } else {
        fold_position(fold_positions(fos, positions.drop_last()), positions.last())
    }
}

pub open spec fn has_folder_position(positions: Seq<ChatPosition>) -> bool {
    exists|k: int| 0 <= k < positions.len() && (#[trigger] positions[k]).list is Folder
}

/// The table after a chat's `positions`: each folder position is set or
/// removed, and a chat with any folder position has an entry.
pub open spec fn remember_positions_spec(
    orders: Seq<(i64, Seq<(i32, i64)>)>,
    id: i64,
    positions: Seq<ChatPosition>,
) -> Seq<(i64, Seq<(i32, i64)>)> {
    if has_folder_position(positions) {
        put_orders(orders, id, fold_positions(orders_or_empty(orders, id), positions))
    } else {
        orders
    }
}

/// The table after a chat's position in folder `folder` changes. Order
/// zero removes that position if the chat has an entry; another order sets
/// it and makes sure the chat is known.
pub open spec fn folder_position_spec(t: ChatTableView, id: i64, folder: i32, order: i64) -> ChatTableView {
    if order == 0 {
        match orders_of(t.orders, id) {
            Some(fos) => ChatTableView {
                orders: put_orders(t.orders, id, remove_where(fos, folder_is(folder))),
                ..t
            },
            None => t,
        }
    } else {
        ChatTableView {
            orders: put_orders(t.orders, id, put_folder_order(orders_or_empty(t.orders, id), folder, order)),
            chats: put_chat(t.chats, chat_or_empty(t.chats, id)),
            ..t
        }
    }
}

/// The table after an `updateChatPosition`: a folder position or the
/// main-list order changes; a position in another list changes nothing.
pub open spec fn position_spec(t: ChatTableView, id: i64, p: ChatPosition) -> ChatTableView {
    let order = match p.order { Some(o) => o, None => 0 };
    match p.list {
        PositionList::Folder(f) => folder_position_spec(t, id, f, order),
        PositionList::Main => main_order_spec(t, id, order),
        PositionList::Other => t,
    }
}

/// The table with the chat `id`, if it has one, changed by `f`.
pub open spec fn edit_chat(
    chats: Seq<ChatItemView>,
    id: i64,
    f: spec_fn(ChatItemView) -> ChatItemView,
) -> Seq<ChatItemView> {
    match chat_with_id(chats, id) {
        Some(c) => put_chat(chats, f(c)),
        None => chats,
    }
}

/// The clamped unread count a chat takes from a count field.
pub open spec fn unread_spec(value: Option<i64>) -> i32 {
    match value {
        Some(v) => if v < 0 { 0 } else if v > i32::MAX { i32::MAX } else { v as i32 },
        None => 0,
    }
}

/// A chat on the main list at `index`: without an order of TDLib's it
/// takes one from its place in the list.
pub open spec fn synth_chat(c: ChatItemView, index: int) -> ChatItemView {
    if c.real_order { c } else { ChatItemView { order: (SYNTHETIC_ORDER - index) as i64, ..c } }
}

/// The chats after a listing of `ids`, each added if new and given its
/// place as order.
pub open spec fn synth_all(chats: Seq<ChatItemView>, ids: Seq<i64>) -> Seq<ChatItemView>
    decreases ids.len(),
{
    if ids.len() == 0 {
        chats
    } else {
        let before = synth_all(chats, ids.drop_last());
        put_chat(before, synth_chat(chat_or_empty(before, ids.last()), ids.len() - 1))
    }
}

pub open spec fn title_missing(chats: Seq<ChatItemView>) -> spec_fn(i64) -> bool {
    |x: i64| is_pending_title(chat_or_empty(chats, x).title)
}

/// A chat's folder positions with one for `folder` unless it has one.
pub open spec fn seed_folder_order(fos: Seq<(i32, i64)>, folder: i32, order: i64) -> Seq<(i32, i64)> {
    if first_where(fos, folder_is(folder)) is Some { fos } else { fos.push((folder, order)) }
}

/// The folder positions after a listing of folder `folder`: each chat
/// without a position there takes one from its place in the list.
pub open spec fn folder_listing(
    orders: Seq<(i64, Seq<(i32, i64)>)>,
    ids: Seq<i64>,
    folder: i32,
) -> Seq<(i64, Seq<(i32, i64)>)>
    decreases ids.len(),
{
    if ids.len() == 0 {
        orders
    } else {
        let before = folder_listing(orders, ids.drop_last(), folder);
        let id = ids.last();
        put_orders(
            before,
            id,
            seed_folder_order(orders_or_empty(before, id), folder, (SYNTHETIC_ORDER - (ids.len() - 1)) as i64),
        )
    }
}

/// The chats after each of `ids` is made known.
pub open spec fn known_all(chats: Seq<ChatItemView>, ids: Seq<i64>) -> Seq<ChatItemView>
    decreases ids.len(),
{
    if ids.len() == 0 {
        chats
    } else {
        let before = known_all(chats, ids.drop_last());
        put_chat(before, chat_or_empty(before, ids.last()))
    }
}

/// The table after a search hit's chat arrived: a chat that was not listed
/// before, has no main-list order of TDLib's and no folder position stays
/// off the main list.
pub open spec fn detach_spec(t: ChatTableView, id: i64, was_listed: bool) -> ChatTableView {
    let on_main = match chat_with_id(t.chats, id) {
        Some(c) => c.real_order && c.order != 0,
        None => false,
    };
    if was_listed || on_main || in_some_folder(t.orders, id) {
        t
    } else {
        ChatTableView { listed: t.listed.filter(not_id(id)), ..t }
    }
}

/// The chat after the fields of a `chat` object: a real title, the unread
/// count, the unread mark and the last message when they are there, and no
/// avatar when the photo is null.
pub open spec fn info_applied(c: ChatItemView, info: ChatInfo) -> ChatItemView {
    let c1 = match info.title {
        Some(t) => if is_pending_title(t@) { c } else { ChatItemView { title: t@, ..c } },
        None => c,
    };
    let c2 = match info.unread_count {
        Some(n) => ChatItemView { unread: unread_spec(Some(n)), ..c1 },
        None => c1,
    };
    let c3 = match info.marked_unread {
        Some(b) => ChatItemView { marked_unread: b, ..c2 },
        None => c2,
    };
    let c4 = preview_spec(c3, info.last_message);
    if info.photo_null { ChatItemView { avatar: None, ..c4 } } else { c4 }
}

pub open spec fn info_positions(info: ChatInfo) -> Seq<ChatPosition> {
    match info.positions {
        Some(v) => v@,
        None => Seq::empty(),
    }
}

/// A chat joins the main list when it is not on it and the list is shorter
/// than the limit.
pub open spec fn listed_rule(t: ChatTableView, id: i64, chat_limit: i32) -> ChatTableView {
    if !t.listed.contains(id) && t.listed.len() < chat_limit {
        ChatTableView { listed: t.listed.push(id), ..t }
    } else {
        t
    }
}

/// The table after a `chat` object: the chat is added or updated, its
/// folder positions are taken, and its main-list position decides the rest.
/// Order zero takes it off the main list as in [`main_order_spec`]; another
/// order is stored; either way but zero, the chat joins the main list while
/// that has room.
pub open spec fn remember_spec(t: ChatTableView, info: ChatInfo, chat_limit: i32) -> ChatTableView {
    let id = info.id;
    let ps = info_positions(info);
    let c1 = info_applied(chat_or_empty(t.chats, id), info);
    let t1 = ChatTableView {
        chats: put_chat(t.chats, c1),
        orders: remember_positions_spec(t.orders, id, ps),
        ..t
    };
    match main_list_order_spec(ps) {
        Some(order) => if order == 0 {
            main_order_spec(t1, id, 0)
        } else {
            listed_rule(
                ChatTableView { chats: put_chat(t.chats, ChatItemView { order, real_order: true, ..c1 }), ..t1 },
                id,
                chat_limit,
            )
        },
        None => listed_rule(t1, id, chat_limit),
    }
}

/// The table after the main-list order of a chat changes. Order zero takes
/// the chat off the main list and forgets it unless a folder still has it;
/// another order is stored and puts the chat on the main list.
pub open spec fn main_order_spec(t: ChatTableView, id: i64, order: i64) -> ChatTableView {
    if order == 0 {
        ChatTableView {
            listed: t.listed.filter(not_id(id)),
            chats: match chat_with_id(t.chats, id) {
                Some(c) => if in_some_folder(t.orders, id) {
                    put_chat(t.chats, ChatItemView { order: 0, real_order: true, ..c })
                } else {
                    remove_where(t.chats, chat_has_id(id))
                },
                None => t.chats,
            },
            ..t
        }
    } else {
        ChatTableView {
            chats: put_chat(t.chats, ChatItemView { order, real_order: true, ..chat_or_empty(t.chats, id) }),
            listed: if t.listed.contains(id) { t.listed } else { t.listed.push(id) },
            ..t
        }
    }
}

/// The chat after its last message: cleared for none, set for a message
/// with a preview, unchanged otherwise.
pub open spec fn preview_spec(c: ChatItemView, m: LastMessage) -> ChatItemView {
    match m {
        LastMessage::Null => ChatItemView { preview: Seq::empty(), preview_date: 0, ..c },
        LastMessage::Snippet(s, d) => ChatItemView { preview: s@, preview_date: d, ..c },
        _ => c,
    }
}

/// The table after an `updateChatLastMessage`: the preview follows the
/// message (a new chat is added when the field is there), then the
/// positions are taken as in [`remember_positions_spec`] and
/// [`main_order_spec`].
pub open spec fn last_message_spec(
    t: ChatTableView,
    id: i64,
    m: LastMessage,
    positions: Seq<ChatPosition>,
) -> ChatTableView {
    let t1 = if m is Missing {
        t
    } else {
        ChatTableView { chats: put_chat(t.chats, preview_spec(chat_or_empty(t.chats, id), m)), ..t }
    };
    let t2 = ChatTableView { orders: remember_positions_spec(t1.orders, id, positions), ..t1 };
    match main_list_order_spec(positions) {
        Some(order) => main_order_spec(t2, id, order),
        None => t2,
    }
}

fn copy_orders(v: &Vec<(i32, i64)>) -> (r: Vec<(i32, i64)>)
    ensures
        r@ == v@,
{
    let mut r: Vec<(i32, i64)> = Vec::new();
    let mut k: usize = 0;
    while k < v.len()
        invariant
            k <= v.len(),
            r@ == v@.take(k as int),
        decreases v.len() - k,
    {
        r.push(v[k]);
        k += 1;
        assert(r@ =~= v@.take(k as int));
    }
    assert(v@.take(v.len() as int) =~= v@);
    r
}

fn folder_index(fos: &Vec<(i32, i64)>, folder: i32) -> (r: Option<usize>)
    ensures
        r == (match first_where(fos@, folder_is(folder)) {
            Some(i) => Some(i as usize),
            None => None::<usize>,
        }),
        r matches Some(i) ==> first_where(fos@, folder_is(folder)) == Some(i as int),
{
    let mut i: usize = 0;
    while i < fos.len()
        invariant
            i <= fos.len(),
            forall|j: int| 0 <= j < i ==> !folder_is(folder)(#[trigger] fos@[j]),
        decreases fos.len() - i,
    {
        if fos[i].0 == folder {
            proof {
                lemma_first_where_found(fos@, folder_is(folder), i as int);
            }
            return Some(i);
        }
        i += 1;
    }
    proof {
        lemma_first_where_none(fos@, folder_is(folder));
    }
    None
}

/// One `chatPosition` applied to a chat's folder positions.
fn fold_one(fos: &mut Vec<(i32, i64)>, p: ChatPosition)
    requires
        unique_by(old(fos)@, folder_key()),
    ensures
        unique_by(final(fos)@, folder_key()),
        final(fos)@ == fold_position(old(fos)@, p),
{
    let ghost v = fos@;
    match p.list {
        PositionList::Folder(f) => {
            let order = match p.order {
                Some(o) => o,
                None => 0,
            };
            let idx = folder_index(fos, f);
            if order == 0 {
                proof {
                    lemma_remove_where(v, folder_key(), folder_is(f), f);
                }
                if let Some(i) = idx {
                    fos.remove(i);
                }
                assert(fos@ == remove_where(v, folder_is(f)));
            } else {
                proof {
                    lemma_put_where(v, folder_key(), folder_is(f), f, (f, order));
                }
                match idx {
                    Some(i) => fos.set(i, (f, order)),
                    None => fos.push((f, order)),
                }
                assert(fos@ == put_folder_order(v, f, order));
            }
        },
        _ => {},
    }
}

proof fn lemma_fold_step(base: Seq<(i32, i64)>, ps: Seq<ChatPosition>, k: int)
    requires
        0 <= k < ps.len(),
    ensures
        fold_positions(base, ps.take(k + 1)) == fold_position(fold_positions(base, ps.take(k)), ps[k]),
        has_folder_position(ps.take(k + 1)) == (has_folder_position(ps.take(k)) || ps[k].list is Folder),
{
    assert(ps.take(k + 1).drop_last() =~= ps.take(k));
    let t = ps.take(k + 1);
    if has_folder_position(ps.take(k)) {
        let j = choose|j: int| 0 <= j < k && (#[trigger] ps.take(k)[j]).list is Folder;
        assert(t[j] == ps.take(k)[j]);
    }
    if has_folder_position(t) {
        let j = choose|j: int| 0 <= j < k + 1 && (#[trigger] t[j]).list is Folder;
        if j < k {
            assert(ps.take(k)[j] == t[j]);
        }
    }
    if ps[k].list is Folder {
        assert(t[k] == ps[k]);
    }
}

/// The table's entries with one chat's folder positions set.
proof fn lemma_put_orders_wf(orders: Seq<(i64, Seq<(i32, i64)>)>, id: i64, fos: Seq<(i32, i64)>)
    requires
        unique_by(orders, entry_key()),
        forall|k: int| 0 <= k < orders.len() ==> unique_by(#[trigger] orders[k].1, folder_key()),
        unique_by(fos, folder_key()),
    ensures
        unique_by(put_orders(orders, id, fos), entry_key()),
        forall|k: int|
            0 <= k < put_orders(orders, id, fos).len() ==> unique_by(
                #[trigger] put_orders(orders, id, fos)[k].1,
                folder_key(),
            ),
        first_where(put_orders(orders, id, fos), entry_is(id)) == Some(
            match first_where(orders, entry_is(id)) {
                Some(i) => i,
                None => orders.len() as int,
            },
        ),
{
    lemma_put_where(orders, entry_key(), entry_is(id), id, (id, fos));
    let r = put_orders(orders, id, fos);
    assert forall|k: int| 0 <= k < r.len() implies unique_by(#[trigger] r[k].1, folder_key()) by {
        if k < orders.len() && r[k] == orders[k] {
        } else {
            assert(r[k] == (id, fos));
        }
    }
}

/// Storing a chat changes what its id finds and nothing else.
pub proof fn lemma_put_chat_lookup(s: Seq<ChatItemView>, c: ChatItemView, x: i64)
    requires
        unique_by(s, chat_key()),
    ensures
        unique_by(put_chat(s, c), chat_key()),
        chat_with_id(put_chat(s, c), x) == (if x == c.id { Some(c) } else { chat_with_id(s, x) }),
{
    lemma_put_where(s, chat_key(), chat_has_id(c.id), c.id, c);
    if x != c.id {
        lemma_put_where_other(s, chat_key(), chat_has_id(c.id), c.id, c, chat_has_id(x), x);
    } else {
        let r = put_chat(s, c);
        match first_where(s, chat_has_id(c.id)) {
            Some(i) => {
                assert(r[i] == c);
            },
            None => {
                assert(r[s.len() as int] == c);
            },
        }
    }
}

fn apply_preview(c: &mut ChatItem, m: &LastMessage)
    ensures
        final(c)@ == preview_spec(old(c)@, *m),
{
    match m {
        LastMessage::Null => {
            c.preview = String::new();
            c.preview_date = 0;
            assert(c@.preview =~= Seq::<char>::empty());
        },
        LastMessage::Snippet(text, date) => {
            c.preview = text.clone();
            c.preview_date = *date;
        },
        _ => {},
    }
}

impl ChatTable {
    pub open spec fn wf(&self) -> bool {
        table_wf(self@)
    }

    pub fn new() -> (t: Self)
        ensures
            t.wf(),
            t@.chats.len() == 0 && t@.listed.len() == 0 && t@.orders.len() == 0,
    {
        let t = ChatTable { chats: Vec::new(), listed: Vec::new(), folder_orders: Vec::new() };
        assert(t@.chats =~= Seq::<ChatItemView>::empty());
        assert(t@.orders =~= Seq::<(i64, Seq<(i32, i64)>)>::empty());
        t
    }

    /// Every chat the table knows.
    pub fn chats(&self) -> (r: &[ChatItem])
        ensures
            chats_view(r@) == self@.chats,
    {
        self.chats.as_slice()
    }

    /// The main list, in listing order.
    pub fn listed(&self) -> (r: &[i64])
        ensures
            r@ == self@.listed,
    {
        self.listed.as_slice()
    }

    /// Each chat's positions in the folders.
    pub fn folder_orders(&self) -> (r: &[(i64, Vec<(i32, i64)>)])
        ensures
            crate::shell::orders_view(r@) == self@.orders,
    {
        self.folder_orders.as_slice()
    }

    fn chat_index(&self, id: i64) -> (r: Option<usize>)
        ensures
            r == (match first_where(self@.chats, chat_has_id(id)) {
                Some(i) => Some(i as usize),
                None => None::<usize>,
            }),
            r matches Some(i) ==> i < self.chats.len() && self@.chats[i as int].id == id,
    {
        let ghost v = self@.chats;
        let mut i: usize = 0;
        while i < self.chats.len()
            invariant
                i <= self.chats.len(),
                v == chats_view(self.chats@),
                forall|j: int| 0 <= j < i ==> !chat_has_id(id)(#[trigger] v[j]),
            decreases self.chats.len() - i,
        {
            if self.chats[i].id == id {
                proof {
                    assert(chat_has_id(id)(v[i as int]));
                    lemma_first_where_found(v, chat_has_id(id), i as int);
                }
                return Some(i);
            }
            assert(!chat_has_id(id)(v[i as int]));
            i += 1;
        }
        proof {
            lemma_first_where_none(v, chat_has_id(id));
        }
        None
    }

    fn entry_index(&self, id: i64) -> (r: Option<usize>)
        ensures
            r == (match first_where(self@.orders, entry_is(id)) {
                Some(i) => Some(i as usize),
                None => None::<usize>,
            }),
            r matches Some(i) ==> i < self.folder_orders.len() && self@.orders[i as int].0 == id
                && first_where(self@.orders, entry_is(id)) == Some(i as int),
    {
        let ghost v = self@.orders;
        let mut i: usize = 0;
        while i < self.folder_orders.len()
            invariant
                i <= self.folder_orders.len(),
                v == crate::shell::orders_view(self.folder_orders@),
                forall|j: int| 0 <= j < i ==> !entry_is(id)(#[trigger] v[j]),
            decreases self.folder_orders.len() - i,
        {
            if self.folder_orders[i].0 == id {
                proof {
                    assert(entry_is(id)(v[i as int]));
                    lemma_first_where_found(v, entry_is(id), i as int);
                }
                return Some(i);
            }
            assert(!entry_is(id)(v[i as int]));
            i += 1;
        }
        proof {
            lemma_first_where_none(v, entry_is(id));
        }
        None
    }

    /// The position of the chat, adding a new chat when the table has none.
    fn ensure_chat(&mut self, id: i64) -> (i: usize)
        requires
            old(self).wf(),
        ensures
            final(self).wf(),
            final(self)@ == (ChatTableView {
                chats: put_chat(old(self)@.chats, chat_or_empty(old(self)@.chats, id)),
                ..old(self)@
            }),
            i < final(self).chats.len(),
            final(self)@.chats[i as int] == chat_or_empty(old(self)@.chats, id),
            first_where(final(self)@.chats, chat_has_id(id)) == Some(i as int),
    {
        let ghost v = self@.chats;
        match self.chat_index(id) {
            Some(i) => {
                proof {
                    lemma_first_where_some(v, chat_has_id(id));
                    let c = v[i as int];
                    assert(chat_or_empty(v, id) == c);
                    assert(put_chat(v, c) == v.update(i as int, c));
                    assert(v.update(i as int, c) =~= v);
                }
                i
            },
            None => {
                let c = ChatItem::empty(id);
                let ghost cv = c@;
                assert(cv.preview =~= Seq::<char>::empty());
                assert(cv == empty_chat(id));
                assert(chat_or_empty(v, id) == cv);
                proof {
                    lemma_put_where(v, chat_key(), chat_has_id(id), id, cv);
                }
                self.chats.push(c);
                assert(chats_view(self.chats@) =~= v.push(cv));
                self.chats.len() - 1
            },
        }
    }

    /// The chat at `i` replaced by one with the same id.
    fn put_at(&mut self, i: usize, c: ChatItem)
        requires
            old(self).wf(),
            i < old(self).chats.len(),
            c.id == old(self)@.chats[i as int].id,
        ensures
            final(self).wf(),
            final(self)@ == (ChatTableView { chats: old(self)@.chats.update(i as int, c@), ..old(self)@ }),
    {
        let ghost v = self@.chats;
        let ghost cv = c@;
        self.chats.set(i, c);
        assert(chats_view(self.chats@) =~= v.update(i as int, cv));
        proof {
            let w = v.update(i as int, cv);
            assert forall|a: int, b: int| 0 <= a < b < w.len() implies chat_key()(#[trigger] w[a]) != chat_key()(#[trigger] w[b]) by {
                assert(chat_key()(v[a]) != chat_key()(v[b]));
            }
        }
    }

    /// The chat at `i`, which has `id`, taken out of the table.
    fn remove_chat_at(&mut self, i: usize, Ghost(id): Ghost<i64>)
        requires
            old(self).wf(),
            first_where(old(self)@.chats, chat_has_id(id)) == Some(i as int),
        ensures
            final(self).wf(),
            final(self)@ == (ChatTableView {
                chats: remove_where(old(self)@.chats, chat_has_id(id)),
                ..old(self)@
            }),
    {
        let ghost v = self@.chats;
        proof {
            lemma_remove_where(v, chat_key(), chat_has_id(id), id);
        }
        self.chats.remove(i);
        assert(chats_view(self.chats@) =~= v.remove(i as int));
    }

    /// The chat `id` with its main-list order set, added when new.
    fn set_main_order(&mut self, id: i64, order: i64)
        requires
            old(self).wf(),
        ensures
            final(self).wf(),
            final(self)@ == (ChatTableView {
                chats: put_chat(
                    old(self)@.chats,
                    ChatItemView { order, real_order: true, ..chat_or_empty(old(self)@.chats, id) },
                ),
                ..old(self)@
            }),
    {
        let ghost v = self@.chats;
        let i = self.ensure_chat(id);
        let mut c = self.chats[i].copy();
        c.order = order;
        c.real_order = true;
        let ghost cv = c@;
        self.put_at(i, c);
        proof {
            lemma_put_where_twice(v, chat_has_id(id), chat_or_empty(v, id), cv);
        }
    }

    /// The main-list order of a chat changed (`updateChatPosition` for the
    /// main list, or a chat's main position). Order zero takes the chat off
    /// the main list and forgets it unless some folder still has it; another
    /// order is stored and puts the chat on the main list.
    pub fn apply_main_order(&mut self, id: i64, order: i64)
        requires
            old(self).wf(),
        ensures
            final(self).wf(),
            final(self)@ == main_order_spec(old(self)@, id, order),
    {
        let ghost t = self@;
        if order == 0 {
            self.unlist(id);
            match self.chat_index(id) {
                Some(i) => {
                    proof {
                        lemma_first_where_some(t.chats, chat_has_id(id));
                    }
                    if self.chat_in_some_folder(id) {
                        let mut c = self.chats[i].copy();
                        c.order = 0;
                        c.real_order = true;
                        let ghost cv = c@;
                        self.put_at(i, c);
                        assert(put_chat(t.chats, cv) == t.chats.update(i as int, cv));
                    } else {
                        self.remove_chat_at(i, Ghost(id));
                    }
                },
                None => {},
            }
        } else {
            self.set_main_order(id, order);
            if !self.is_listed(id) {
                self.listed.push(id);
            }
        }
    }

    /// A chat's `positions`: each folder position is set, or removed when
    /// its order is zero; a chat with any folder position gets an entry.
    pub fn remember_folder_positions(&mut self, id: i64, positions: &[ChatPosition])
        requires
            old(self).wf(),
        ensures
            final(self).wf(),
            final(self)@ == (ChatTableView {
                orders: remember_positions_spec(old(self)@.orders, id, positions@),
                ..old(self)@
            }),
    {
        let ghost t = self@;
        let e = self.entry_index(id);
        let mut fos: Vec<(i32, i64)> = match e {
            Some(i) => copy_orders(&self.folder_orders[i].1),
            None => Vec::new(),
        };
        let ghost base = fos@;
        proof {
            match e {
                Some(i) => {
                    lemma_first_where_some(t.orders, entry_is(id));
                    assert(orders_or_empty(t.orders, id) == base);
                },
                None => {
                    assert(base =~= Seq::<(i32, i64)>::empty());
                },
            }
            assert(positions@.take(0) =~= Seq::<ChatPosition>::empty());
        }
        let mut seen = false;
        let mut k: usize = 0;
        while k < positions.len()
            invariant
                k <= positions.len(),
                base == orders_or_empty(t.orders, id),
                unique_by(base, folder_key()),
                unique_by(fos@, folder_key()),
                fos@ == fold_positions(base, positions@.take(k as int)),
                seen == has_folder_position(positions@.take(k as int)),
            decreases positions.len() - k,
        {
            proof {
                lemma_fold_step(base, positions@, k as int);
            }
            let p = positions[k];
            fold_one(&mut fos, p);
            if let PositionList::Folder(_) = p.list {
                seen = true;
            }
            k += 1;
        }
        assert(positions@.take(positions.len() as int) =~= positions@);
        if seen {
            self.store_orders(e, id, fos);
        }
    }

    /// The folder positions of `id` stored at its entry `e`, or in a new one.
    fn store_orders(&mut self, e: Option<usize>, id: i64, fos: Vec<(i32, i64)>)
        requires
            old(self).wf(),
            unique_by(fos@, folder_key()),
            match e {
                Some(i) => first_where(old(self)@.orders, entry_is(id)) == Some(i as int),
                None => first_where(old(self)@.orders, entry_is(id)) is None,
            },
        ensures
            final(self).wf(),
            final(self)@ == (ChatTableView {
                orders: put_orders(old(self)@.orders, id, fos@),
                ..old(self)@
            }),
    {
        let ghost t = self@;
        let ghost f = fos@;
        proof {
            lemma_put_orders_wf(t.orders, id, f);
        }
        match e {
            Some(i) => {
                proof {
                    lemma_first_where_some(t.orders, entry_is(id));
                }
                assert(put_orders(t.orders, id, f) == t.orders.update(i as int, (id, f)));
                self.folder_orders.set(i, (id, fos));
                assert(crate::shell::orders_view(self.folder_orders@) =~= t.orders.update(i as int, (id, f)));
            },
            None => {
                assert(put_orders(t.orders, id, f) == t.orders.push((id, f)));
                self.folder_orders.push((id, fos));
                assert(crate::shell::orders_view(self.folder_orders@) =~= t.orders.push((id, f)));
            },
        }
    }

    /// A chat's position in one folder changed.
    fn apply_folder_order(&mut self, id: i64, folder: i32, order: i64)
        requires
            old(self).wf(),
        ensures
            final(self).wf(),
            final(self)@ == folder_position_spec(old(self)@, id, folder, order),
    {
        let ghost t = self@;
        let e = self.entry_index(id);
        proof {
            if e is Some {
                lemma_first_where_some(t.orders, entry_is(id));
            }
        }
        if order == 0 {
            if let Some(i) = e {
                let mut fos = copy_orders(&self.folder_orders[i].1);
                let ghost v = fos@;
                assert(v == t.orders[i as int].1);
                assert(orders_of(t.orders, id) == Some(v));
                proof {
                    lemma_remove_where(v, folder_key(), folder_is(folder), folder);
                }
                if let Some(j) = folder_index(&fos, folder) {
                    fos.remove(j);
                }
                assert(fos@ == remove_where(v, folder_is(folder)));
                self.store_orders(e, id, fos);
            }
        } else {
            let mut fos: Vec<(i32, i64)> = match e {
                Some(i) => copy_orders(&self.folder_orders[i].1),
                None => Vec::new(),
            };
            let ghost v = fos@;
            assert(v == orders_or_empty(t.orders, id)) by {
                if e is None {
                    assert(v =~= Seq::<(i32, i64)>::empty());
                } else {
                    assert(v == t.orders[e->0 as int].1);
                }
            }
            assert(unique_by(v, folder_key()));
            proof {
                lemma_put_where(v, folder_key(), folder_is(folder), folder, (folder, order));
            }
            match folder_index(&fos, folder) {
                Some(j) => fos.set(j, (folder, order)),
                None => fos.push((folder, order)),
            }
            assert(fos@ == put_folder_order(v, folder, order));
            self.store_orders(e, id, fos);
            self.ensure_chat(id);
        }
    }

    /// An `updateChatPosition`. Returns whether the chat lists may have
    /// changed: false for a list other than the main list or a folder.
    pub fn on_position(&mut self, id: i64, position: ChatPosition) -> (r: bool)
        requires
            old(self).wf(),
        ensures
            final(self).wf(),
            final(self)@ == position_spec(old(self)@, id, position),
            r == !(position.list is Other),
    {
        let order = match position.order {
            Some(o) => o,
            None => 0,
        };
        match position.list {
            PositionList::Folder(f) => {
                self.apply_folder_order(id, f, order);
                true
            },
            PositionList::Main => {
                self.apply_main_order(id, order);
                true
            },
            PositionList::Other => false,
        }
    }

    /// The chat at `i`, the first with `id`, replaced by `c` of that id.
    proof fn lemma_put_at_is_put(v: Seq<ChatItemView>, id: i64, i: int, c: ChatItemView)
        requires
            first_where(v, chat_has_id(id)) == Some(i),
            c.id == id,
        ensures
            put_chat(v, c) == v.update(i, c),
    {
    }

    /// `updateChatTitle`: a known chat takes the new title.
    pub fn set_title(&mut self, id: i64, title: &str)
        requires
            old(self).wf(),
        ensures
            final(self).wf(),
            final(self)@ == (ChatTableView {
                chats: edit_chat(old(self)@.chats, id, |c: ChatItemView| ChatItemView { title: title@, ..c }),
                ..old(self)@
            }),
    {
        if let Some(i) = self.chat_index(id) {
            let mut c = self.chats[i].copy();
            c.title = title.to_owned();
            let ghost cv = c@;
            proof {
                Self::lemma_put_at_is_put(self@.chats, id, i as int, cv);
            }
            self.put_at(i, c);
        }
    }

    /// `updateChatReadInbox`: a known chat takes the clamped unread count.
    /// Returns whether the table has the chat.
    pub fn set_unread(&mut self, id: i64, count: Option<i64>) -> (r: bool)
        requires
            old(self).wf(),
        ensures
            final(self).wf(),
            r == (chat_with_id(old(self)@.chats, id) is Some),
            final(self)@ == (ChatTableView {
                chats: edit_chat(old(self)@.chats, id, |c: ChatItemView| ChatItemView { unread: unread_spec(count), ..c }),
                ..old(self)@
            }),
    {
        match self.chat_index(id) {
            Some(i) => {
                let mut c = self.chats[i].copy();
                c.unread = unread_count(count);
                let ghost cv = c@;
                proof {
                    Self::lemma_put_at_is_put(self@.chats, id, i as int, cv);
                }
                self.put_at(i, c);
                true
            },
            None => false,
        }
    }

    /// `updateChatIsMarkedAsUnread`: a known chat takes the flag. Returns
    /// whether the table has the chat.
    pub fn set_marked_unread(&mut self, id: i64, marked: bool) -> (r: bool)
        requires
            old(self).wf(),
        ensures
            final(self).wf(),
            r == (chat_with_id(old(self)@.chats, id) is Some),
            final(self)@ == (ChatTableView {
                chats: edit_chat(old(self)@.chats, id, |c: ChatItemView| ChatItemView { marked_unread: marked, ..c }),
                ..old(self)@
            }),
    {
        match self.chat_index(id) {
            Some(i) => {
                let mut c = self.chats[i].copy();
                c.marked_unread = marked;
                let ghost cv = c@;
                proof {
                    Self::lemma_put_at_is_put(self@.chats, id, i as int, cv);
                }
                self.put_at(i, c);
                true
            },
            None => false,
        }
    }

    /// `updateChatPhoto`: a known chat drops its avatar until the new photo
    /// has downloaded. Returns whether the table has the chat.
    pub fn clear_avatar(&mut self, id: i64) -> (r: bool)
        requires
            old(self).wf(),
        ensures
            final(self).wf(),
            r == (chat_with_id(old(self)@.chats, id) is Some),
            final(self)@ == (ChatTableView {
                chats: edit_chat(old(self)@.chats, id, |c: ChatItemView| ChatItemView { avatar: None, ..c }),
                ..old(self)@
            }),
    {
        match self.chat_index(id) {
            Some(i) => {
                let mut c = self.chats[i].copy();
                c.avatar = None;
                let ghost cv = c@;
                proof {
                    Self::lemma_put_at_is_put(self@.chats, id, i as int, cv);
                }
                self.put_at(i, c);
                true
            },
            None => false,
        }
    }

    /// A downloaded avatar: a known chat takes the local path. Returns
    /// whether that changed anything.
    pub fn set_avatar(&mut self, id: i64, path: &str) -> (r: bool)
        requires
            old(self).wf(),
        ensures
            final(self).wf(),
            r == (match chat_with_id(old(self)@.chats, id) {
                Some(c) => c.avatar != Some(path@),
                None => false,
            }),
            final(self)@ == (ChatTableView {
                chats: edit_chat(old(self)@.chats, id, |c: ChatItemView| ChatItemView { avatar: Some(path@), ..c }),
                ..old(self)@
            }),
    {
        match self.chat_index(id) {
            Some(i) => {
                let same = match &self.chats[i].avatar {
                    Some(a) => str_eq(a.as_str(), path),
                    None => false,
                };
                if same {
                    proof {
                        let v = self@.chats;
                        assert(v.update(i as int, ChatItemView { avatar: Some(path@), ..v[i as int] }) =~= v);
                    }
                    return false;
                }
                let mut c = self.chats[i].copy();
                c.avatar = Some(path.to_owned());
                let ghost cv = c@;
                proof {
                    Self::lemma_put_at_is_put(self@.chats, id, i as int, cv);
                }
                self.put_at(i, c);
                true
            },
            None => false,
        }
    }

    /// `updateChatLastMessage`: the chat's preview follows the message, then
    /// its positions are taken.
    pub fn on_last_message(&mut self, id: i64, last: &LastMessage, positions: &[ChatPosition])
        requires
            old(self).wf(),
        ensures
            final(self).wf(),
            final(self)@ == last_message_spec(old(self)@, id, *last, positions@),
    {
        match last {
            LastMessage::Missing => {},
            _ => {
                let ghost v = self@.chats;
                let i = self.ensure_chat(id);
                let mut c = self.chats[i].copy();
                apply_preview(&mut c, last);
                let ghost cv = c@;
                assert(cv == preview_spec(chat_or_empty(v, id), *last));
                self.put_at(i, c);
                proof {
                    lemma_put_where_twice(v, chat_has_id(id), chat_or_empty(v, id), cv);
                }
            },
        }
        self.remember_folder_positions(id, positions);
        if let Some(order) = main_list_order(positions) {
            self.apply_main_order(id, order);
        }
    }

    /// A `chats` reply for the main list: the first `chat_limit` ids become
    /// the main list; each is added if new and, without an order of TDLib's,
    /// ordered by its place. Returns the listed ids whose titles are still
    /// to come, in listing order.
    pub fn on_chats(&mut self, ids: &[i64], chat_limit: i32) -> (missing: Vec<i64>)
        requires
            old(self).wf(),
        ensures
            final(self).wf(),
            final(self)@ == (ChatTableView {
                listed: take_upto(ids@, chat_limit as int),
                chats: synth_all(old(self)@.chats, take_upto(ids@, chat_limit as int)),
                ..old(self)@
            }),
            missing@ == take_upto(ids@, chat_limit as int).filter(title_missing(old(self)@.chats)),
    {
        let ghost t = self@;
        let n: usize = if chat_limit <= 0 {
            0
        } else if (chat_limit as usize) < ids.len() {
            chat_limit as usize
        } else {
            ids.len()
        };
        let ghost shown = take_upto(ids@, chat_limit as int);
        assert(shown =~= ids@.take(n as int));
        let mut listed: Vec<i64> = Vec::new();
        let mut missing: Vec<i64> = Vec::new();
        let mut k: usize = 0;
        proof {
            lemma_filter_empty(shown, title_missing(t.chats));
        }
        while k < n
            invariant
                n <= ids.len(),
                k <= n,
                n <= i32::MAX,
                shown == ids@.take(n as int),
                self.wf(),
                self@.listed == t.listed,
                self@.orders == t.orders,
                listed@ == shown.take(k as int),
                self@.chats == synth_all(t.chats, shown.take(k as int)),
                missing@ == shown.take(k as int).filter(title_missing(t.chats)),
                forall|x: i64| (#[trigger] chat_or_empty(self@.chats, x)).title == chat_or_empty(t.chats, x).title,
            decreases n - k,
        {
            let id = ids[k];
            let ghost before = self@.chats;
            proof {
                lemma_filter_take_step(shown, k as int, title_missing(t.chats));
                assert(shown.take(k + 1).drop_last() =~= shown.take(k as int));
                assert(shown.take(k + 1).last() == id);
            }
            let i = self.ensure_chat(id);
            let mut c = self.chats[i].copy();
            if !c.real_order {
                c.order = SYNTHETIC_ORDER - k as i64;
            }
            let pending = title_pending(c.title.as_str());
            let ghost cv = c@;
            assert(cv == synth_chat(chat_or_empty(before, id), k as int));
            self.put_at(i, c);
            proof {
                lemma_put_where_twice(before, chat_has_id(id), chat_or_empty(before, id), cv);
                assert forall|x: i64| (#[trigger] chat_or_empty(self@.chats, x)).title == chat_or_empty(t.chats, x).title by {
                    lemma_put_chat_lookup(before, cv, x);
                    assert(chat_or_empty(before, x).title == chat_or_empty(t.chats, x).title);
                }
                assert(chat_or_empty(before, id).title == chat_or_empty(t.chats, id).title);
            }
            listed.push(id);
            if pending {
                missing.push(id);
            }
            k += 1;
            assert(listed@ =~= shown.take(k as int));
        }
        assert(shown.take(n as int) =~= shown);
        self.listed = listed;
        missing
    }

    /// A `chats` reply for folder `folder`: each of the first `chat_limit`
    /// ids without a position there takes one from its place, and is added
    /// if new. Returns the ids whose titles are still to come, in order.
    pub fn on_folder_chats(&mut self, folder: i32, ids: &[i64], chat_limit: i32) -> (missing: Vec<i64>)
        requires
            old(self).wf(),
        ensures
            final(self).wf(),
            final(self)@ == (ChatTableView {
                orders: folder_listing(old(self)@.orders, take_upto(ids@, chat_limit as int), folder),
                chats: known_all(old(self)@.chats, take_upto(ids@, chat_limit as int)),
                ..old(self)@
            }),
            missing@ == take_upto(ids@, chat_limit as int).filter(title_missing(old(self)@.chats)),
    {
        let ghost t = self@;
        let n: usize = if chat_limit <= 0 {
            0
        } else if (chat_limit as usize) < ids.len() {
            chat_limit as usize
        } else {
            ids.len()
        };
        let ghost shown = take_upto(ids@, chat_limit as int);
        assert(shown =~= ids@.take(n as int));
        let mut missing: Vec<i64> = Vec::new();
        let mut k: usize = 0;
        proof {
            lemma_filter_empty(shown, title_missing(t.chats));
        }
        while k < n
            invariant
                n <= ids.len(),
                k <= n,
                n <= i32::MAX,
                shown == ids@.take(n as int),
                self.wf(),
                self@.listed == t.listed,
                self@.orders == folder_listing(t.orders, shown.take(k as int), folder),
                self@.chats == known_all(t.chats, shown.take(k as int)),
                missing@ == shown.take(k as int).filter(title_missing(t.chats)),
                forall|x: i64| (#[trigger] chat_or_empty(self@.chats, x)).title == chat_or_empty(t.chats, x).title,
            decreases n - k,
        {
            let id = ids[k];
            let ghost before = self@;
            proof {
                lemma_filter_take_step(shown, k as int, title_missing(t.chats));
                assert(shown.take(k + 1).drop_last() =~= shown.take(k as int));
                assert(shown.take(k + 1).last() == id);
            }
            let e = self.entry_index(id);
            let mut fos: Vec<(i32, i64)> = match e {
                Some(i) => copy_orders(&self.folder_orders[i].1),
                None => Vec::new(),
            };
            let ghost v = fos@;
            assert(v == orders_or_empty(before.orders, id)) by {
                if e is None {
                    assert(v =~= Seq::<(i32, i64)>::empty());
                } else {
                    assert(v == before.orders[e->0 as int].1);
                }
            }
            assert(unique_by(v, folder_key()));
            let order = SYNTHETIC_ORDER - k as i64;
            proof {
                lemma_put_where(v, folder_key(), folder_is(folder), folder, (folder, order));
            }
            if folder_index(&fos, folder).is_none() {
                fos.push((folder, order));
            }
            assert(fos@ == seed_folder_order(v, folder, order));
            self.store_orders(e, id, fos);
            let i = self.ensure_chat(id);
            let pending = title_pending(self.chats[i].title.as_str());
            proof {
                assert forall|x: i64| (#[trigger] chat_or_empty(self@.chats, x)).title == chat_or_empty(t.chats, x).title by {
                    lemma_put_chat_lookup(before.chats, chat_or_empty(before.chats, id), x);
                    assert(chat_or_empty(before.chats, x).title == chat_or_empty(t.chats, x).title);
                }
                assert(chat_or_empty(before.chats, id).title == chat_or_empty(t.chats, id).title);
            }
            if pending {
                missing.push(id);
            }
            k += 1;
        }
        assert(shown.take(n as int) =~= shown);
        missing
    }

    /// A search hit's chat arrived: unless it was listed before, has a
    /// main-list order of TDLib's or a folder position, it stays off the
    /// main list.
    pub fn detach_unlisted_search_chat(&mut self, id: i64, was_listed: bool)
        requires
            old(self).wf(),
        ensures
            final(self).wf(),
            final(self)@ == detach_spec(old(self)@, id, was_listed),
    {
        if was_listed {
            return;
        }
        let on_main = match self.chat_index(id) {
            Some(i) => {
                proof {
                    lemma_first_where_some(self@.chats, chat_has_id(id));
                }
                self.chats[i].real_order && self.chats[i].order != 0
            },
            None => false,
        };
        if on_main || self.chat_in_some_folder(id) {
            return;
        }
        self.unlist(id);
    }

    /// A `chat` object (a `chat` reply or `updateNewChat`): the chat is
    /// added or updated, its folder positions are taken, and its main-list
    /// position decides whether it stays on the main list.
    pub fn remember_chat(&mut self, info: &ChatInfo, chat_limit: i32)
        requires
            old(self).wf(),
        ensures
            final(self).wf(),
            final(self)@ == remember_spec(old(self)@, *info, chat_limit),
    {
        let ghost t = self@;
        let id = info.id;
        let i = self.ensure_chat(id);
        let mut c = self.chats[i].copy();
        if let Some(title) = &info.title {
            if !title_pending(title.as_str()) {
                c.title = title.clone();
            }
        }
        if let Some(n) = info.unread_count {
            c.unread = unread_count(Some(n));
        }
        if let Some(b) = info.marked_unread {
            c.marked_unread = b;
        }
        apply_preview(&mut c, &info.last_message);
        if info.photo_null {
            c.avatar = None;
        }
        let ghost c1 = c@;
        assert(c1 == info_applied(chat_or_empty(t.chats, id), *info));
        self.put_at(i, c);
        proof {
            lemma_put_where_twice(t.chats, chat_has_id(id), chat_or_empty(t.chats, id), c1);
        }
        let empty: Vec<ChatPosition> = Vec::new();
        let ps: &[ChatPosition] = match &info.positions {
            Some(v) => v.as_slice(),
            None => empty.as_slice(),
        };
        assert(ps@ == info_positions(*info)) by {
            if info.positions is None {
                assert(ps@ =~= Seq::<ChatPosition>::empty());
            }
        }
        self.remember_folder_positions(id, ps);
        if let Some(order) = main_list_order(ps) {
            if order == 0 {
                self.apply_main_order(id, 0);
                return;
            }
            let ghost mid = self@.chats;
            proof {
                lemma_put_chat_lookup(t.chats, c1, id);
            }
            self.set_main_order(id, order);
            proof {
                lemma_put_where_twice(t.chats, chat_has_id(id), c1, ChatItemView { order, real_order: true, ..c1 });
            }
        }
        if !self.is_listed(id) && chat_limit > 0 && self.listed.len() < chat_limit as usize {
            self.listed.push(id);
        }
    }

    /// The chat with this id.
    pub fn chat(&self, id: i64) -> (r: Option<&ChatItem>)
        ensures
            match r {
                Some(c) => chat_with_id(self@.chats, id) == Some(c@),
                None => chat_with_id(self@.chats, id) is None,
            },
    {
        match self.chat_index(id) {
            Some(i) => Some(&self.chats[i]),
            None => None,
        }
    }

    /// The chat list the UI shows: the main list, or the chats of the
    /// active folder; highest order first, ties by the higher id; at most
    /// `chat_limit` rows.
    pub fn chat_list(&self, active_folder: Option<i32>, chat_limit: i32) -> (r: Vec<ChatItem>)
        ensures
            chats_view(r@) == chat_list_spec(self@.chats, self@.listed, self@.orders, active_folder, chat_limit),
    {
        chat_list_items(self.chats.as_slice(), self.listed.as_slice(), self.folder_orders.as_slice(), active_folder, chat_limit)
    }

    /// Whether some folder has the chat at a non-zero position.
    pub fn chat_in_some_folder(&self, id: i64) -> (r: bool)
        ensures
            r == in_some_folder(self@.orders, id),
    {
        match self.entry_index(id) {
            Some(e) => {
                let fos = &self.folder_orders[e].1;
                let ghost f = fos@;
                assert(orders_of(self@.orders, id) == Some(f));
                let mut k: usize = 0;
                while k < fos.len()
                    invariant
                        k <= fos.len(),
                        f == fos@,
                        orders_of(self@.orders, id) == Some(f),
                        forall|j: int| 0 <= j < k ==> (#[trigger] f[j]).1 == 0,
                    decreases fos.len() - k,
                {
                    if fos[k].1 != 0 {
                        assert(f[k as int].1 != 0);
                        assert(has_nonzero(f));
                        return true;
                    }
                    k += 1;
                }
                false
            },
            None => false,
        }
    }

    /// Whether the main list has the chat.
    pub fn is_listed(&self, id: i64) -> (r: bool)
        ensures
            r == self@.listed.contains(id),
    {
        let mut k: usize = 0;
        while k < self.listed.len()
            invariant
                k <= self.listed.len(),
                forall|j: int| 0 <= j < k ==> self.listed@[j] != id,
            decreases self.listed.len() - k,
        {
            if self.listed[k] == id {
                assert(self.listed@[k as int] == id);
                return true;
            }
            k += 1;
        }
        false
    }

    /// Every occurrence of `id` taken off the main list.
    fn unlist(&mut self, id: i64)
        ensures
            final(self)@ == (ChatTableView { listed: old(self)@.listed.filter(not_id(id)), ..old(self)@ }),
    {
        let ghost l = self.listed@;
        let mut kept: Vec<i64> = Vec::new();
        let mut k: usize = 0;
        proof {
            lemma_filter_empty(l, not_id(id));
        }
        while k < self.listed.len()
            invariant
                k <= self.listed.len(),
                l == self.listed@,
                kept@ == l.take(k as int).filter(not_id(id)),
            decreases self.listed.len() - k,
        {
            proof {
                lemma_filter_take_step(l, k as int, not_id(id));
            }
            if self.listed[k] != id {
                kept.push(self.listed[k]);
            }
            k += 1;
        }
        assert(l.take(l.len() as int) =~= l);
        self.listed = kept;
    }
}

/// The title a chat has after a `chat` object: the object's, unless that
/// is still pending.
pub open spec fn title_after(known: Seq<char>, sent: Option<String>) -> Seq<char> {
    match sent {
        Some(t) => if is_pending_title(t@) { known } else { t@ },
        None => known,
    }
}

/// Removing a chat forgets it and leaves every other chat.
pub proof fn lemma_remove_chat_lookup(s: Seq<ChatItemView>, id: i64, x: i64)
    requires
        unique_by(s, chat_key()),
    ensures
        unique_by(remove_where(s, chat_has_id(id)), chat_key()),
        chat_with_id(remove_where(s, chat_has_id(id)), x) == (if x == id { None } else { chat_with_id(s, x) }),
{
    lemma_remove_where(s, chat_key(), chat_has_id(id), id);
    if x != id {
        lemma_remove_where_other(s, chat_key(), chat_has_id(id), id, chat_has_id(x), x);
    }
}

/// A main-list order other than zero puts the chat on the main list with
/// that order, as TDLib's; no other chat changes.
pub proof fn law_main_order_lists_chat(t: ChatTableView, id: i64, order: i64, x: i64)
    requires
        table_wf(t),
        order != 0,
    ensures
        main_order_spec(t, id, order).listed.contains(id),
        chat_with_id(main_order_spec(t, id, order).chats, id) matches Some(c) && c.order == order && c.real_order,
        x != id ==> chat_with_id(main_order_spec(t, id, order).chats, x) == chat_with_id(t.chats, x),
{
    let r = main_order_spec(t, id, order);
    lemma_put_chat_lookup(t.chats, ChatItemView { order, real_order: true, ..chat_or_empty(t.chats, id) }, x);
    lemma_put_chat_lookup(t.chats, ChatItemView { order, real_order: true, ..chat_or_empty(t.chats, id) }, id);
    if !t.listed.contains(id) {
        assert(t.listed.push(id)[t.listed.len() as int] == id);
    }
}

/// Main-list order zero takes the chat off the main list, and a chat that
/// no folder holds is forgotten; no other chat changes.
pub proof fn law_zero_order_unlists(t: ChatTableView, id: i64, x: i64)
    requires
        table_wf(t),
    ensures
        !main_order_spec(t, id, 0).listed.contains(id),
        !in_some_folder(t.orders, id) ==> chat_with_id(main_order_spec(t, id, 0).chats, id) is None,
        x != id ==> chat_with_id(main_order_spec(t, id, 0).chats, x) == chat_with_id(t.chats, x),
{
    broadcast use vstd::seq_lib::group_filter_ensures;
    let l = t.listed.filter(not_id(id));
    if l.contains(id) {
        let k = choose|k: int| 0 <= k < l.len() && l[k] == id;
        assert(not_id(id)(l[k]));
    }
    match chat_with_id(t.chats, id) {
        Some(c) => {
            if in_some_folder(t.orders, id) {
                lemma_put_chat_lookup(t.chats, ChatItemView { order: 0, real_order: true, ..c }, x);
            } else {
                lemma_remove_chat_lookup(t.chats, id, x);
                lemma_remove_chat_lookup(t.chats, id, id);
            }
        },
        None => {},
    }
}

/// A `chat` object never replaces a known title with a pending one: the
/// chat, if the table keeps it, has the object's title when that is real
/// and its earlier title otherwise.
pub proof fn law_remember_keeps_title(t: ChatTableView, info: ChatInfo, chat_limit: i32)
    requires
        table_wf(t),
    ensures
        chat_with_id(remember_spec(t, info, chat_limit).chats, info.id) matches Some(c) ==> c.title
            == title_after(chat_or_empty(t.chats, info.id).title, info.title),
{
    let id = info.id;
    let c1 = info_applied(chat_or_empty(t.chats, id), info);
    let ps = info_positions(info);
    let t1 = ChatTableView {
        chats: put_chat(t.chats, c1),
        orders: remember_positions_spec(t.orders, id, ps),
        ..t
    };
    lemma_put_chat_lookup(t.chats, c1, id);
    match main_list_order_spec(ps) {
        Some(order) => {
            if order == 0 {
                if in_some_folder(t1.orders, id) {
                    lemma_put_chat_lookup(t1.chats, ChatItemView { order: 0, real_order: true, ..c1 }, id);
                } else {
                    lemma_remove_chat_lookup(t1.chats, id, id);
                }
            } else {
                lemma_put_chat_lookup(t.chats, ChatItemView { order, real_order: true, ..c1 }, id);
            }
        },
        None => {},
    }
}

} // verus!
