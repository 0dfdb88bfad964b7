//! What the chat column shows: which chats, in which order, and what it
//! says when there are none.

use vstd::prelude::*;
use crate::gpui::groups::NestedFolder;
use crate::gpui::pins::{pin_sort_key, pin_sort_key_spec, rank_spec, PinLibrary, PinLibraryView};
use crate::shell::{chats_view, ChatItem, ChatItemView, FolderItem};

verus! {

/// `a` sorts before `b`: its pin key is smaller.
pub open spec fn pin_before(pins: PinLibraryView) -> spec_fn(ChatItemView, ChatItemView) -> bool {
    |a: ChatItemView, b: ChatItemView| {
        let ka = pin_sort_key_spec(pins, a.id);
        let kb = pin_sort_key_spec(pins, b.id);
        ka.0 < kb.0 || (ka.0 == kb.0 && ka.1 < kb.1)
    }
}

/// Whether the active list is one of the group's nested lists.
pub open spec fn group_shows(folders: Seq<NestedFolder>, active: Option<i32>) -> bool {
    exists|k: int| 0 <= k < folders.len() && (match #[trigger] folders[k] {
        NestedFolder::Main => active is None,
        NestedFolder::Folder { id } => active == Some(id),
    })
}

/// The chats the column shows: none when a group is selected that does not
/// nest the active list; otherwise the chat list with local pins first
/// (most recent pin first) and the rest in their order.
pub open spec fn shown_chats_spec(
    chats: Seq<ChatItemView>,
    group_folders: Option<Seq<NestedFolder>>,
    active: Option<i32>,
    pins: PinLibraryView,
) -> Seq<ChatItemView> {
    match group_folders {
        Some(f) => if !group_shows(f, active) {
            Seq::empty()
        } else {
            crate::seqs::sort_by_insertion(chats, pin_before(pins))
        },
        None => crate::seqs::sort_by_insertion(chats, pin_before(pins)),
    }
}

fn shows(folders: &[NestedFolder], active: Option<i32>) -> (r: bool)
    ensures
        r == group_shows(folders@, active),
{
    let mut k: usize = 0;
    while k < folders.len()
        invariant
            k <= folders.len(),
            forall|j: int| 0 <= j < k ==> !(match #[trigger] folders@[j] {
                NestedFolder::Main => active is None,
                NestedFolder::Folder { id } => active == Some(id),
            }),
        decreases folders.len() - k,
    {
        if folders[k].matches(active) {
            return true;
        }
        k += 1;
    }
    false
}

fn key_before(a: (u8, usize), b: (u8, usize)) -> (r: bool)
    ensures
        r == (a.0 < b.0 || (a.0 == b.0 && a.1 < b.1)),
{
    a.0 < b.0 || (a.0 == b.0 && a.1 < b.1)
}

/// The chats the chat column shows.
pub fn shown_chats(
    chats: &[ChatItem],
    group_folders: Option<&[NestedFolder]>,
    active: Option<i32>,
    pins: &PinLibrary,
) -> (r: Vec<ChatItem>)
    ensures
        chats_view(r@) == shown_chats_spec(
            chats_view(chats@),
            match group_folders { Some(f) => Some(f@), None => None },
            active,
            pins@,
        ),
{
    if let Some(folders) = group_folders {
        if !shows(folders, active) {
            let r: Vec<ChatItem> = Vec::new();
            assert(chats_view(r@) =~= Seq::<ChatItemView>::empty());
            return r;
        }
    }
    let ghost cv = chats_view(chats@);
    let ghost before = pin_before(pins@);
    let mut out: Vec<ChatItem> = Vec::new();
    assert(chats_view(out@) =~= Seq::<ChatItemView>::empty());
    let mut i: usize = 0;
    while i < chats.len()
        invariant
            i <= chats.len(),
            cv == chats_view(chats@),
            before == pin_before(pins@),
            chats_view(out@) == crate::seqs::sort_by_insertion(cv.take(i as int), before),
        decreases chats.len() - i,
    {
        assert(cv.take(i + 1).drop_last() =~= cv.take(i as int));
        let x = chats[i].copy();
        let kx = pin_sort_key(pins, x.id);
        let ghost s0 = chats_view(out@);
        let mut j: usize = 0;
        while j < out.len() && !key_before(kx, pin_sort_key(pins, out[j].id))
            invariant
                j <= out.len(),
                s0 == chats_view(out@),
                (kx.0, kx.1 as int) == pin_sort_key_spec(pins@, x@.id),
                forall|q: int| 0 <= q < j ==> !before(x@, #[trigger] s0[q]),
                before == pin_before(pins@),
            decreases out.len() - j,
        {
            j += 1;
        }
        proof {
            crate::seqs::lemma_insert_by_at(s0, x@, before, j as int);
        }
        let ghost xv = x@;
        out.insert(j, x);
        assert(chats_view(out@) =~= s0.insert(j as int, xv));
        i += 1;
    }
    assert(cv.take(cv.len() as int) =~= cv);
    out
}

/// In the chat column every pinned chat comes before every chat that is
/// not pinned, pinned chats by rank, and the others keep the chat list's
/// order.
pub proof fn law_pinned_chats_first(chats: Seq<ChatItemView>, pins: PinLibraryView)
    ensures
        ({
            let r = crate::seqs::sort_by_insertion(chats, pin_before(pins));
            &&& forall|i: int, j: int| 0 <= i < j < r.len() && rank_spec(pins, (#[trigger] r[j]).id) is Some
                ==> rank_spec(pins, (#[trigger] r[i]).id) is Some
            &&& forall|i: int, j: int| 0 <= i < j < r.len() && rank_spec(pins, (#[trigger] r[i]).id) is Some
                && rank_spec(pins, (#[trigger] r[j]).id) is Some ==> rank_spec(pins, r[i].id).unwrap()
                <= rank_spec(pins, r[j].id).unwrap()
            &&& r.to_multiset() == chats.to_multiset()
        }),
{
    crate::seqs::lemma_sort_by_insertion(chats, pin_before(pins));
    let r = crate::seqs::sort_by_insertion(chats, pin_before(pins));
    assert forall|i: int, j: int| 0 <= i < j < r.len() && rank_spec(pins, (#[trigger] r[j]).id) is Some
        implies rank_spec(pins, (#[trigger] r[i]).id) is Some by {
        assert(!pin_before(pins)(r[j], r[i]));
    }
    assert forall|i: int, j: int| 0 <= i < j < r.len() && rank_spec(pins, (#[trigger] r[i]).id) is Some
        && rank_spec(pins, (#[trigger] r[j]).id) is Some implies rank_spec(pins, r[i].id).unwrap()
        <= rank_spec(pins, r[j].id).unwrap() by {
        assert(!pin_before(pins)(r[j], r[i]));
    }
}

/// What an empty chat column says.
pub open spec fn empty_note_spec(
    ready: bool,
    group_folders: Option<Seq<NestedFolder>>,
    active: Option<i32>,
) -> Seq<char> {
    if !ready {
        "Waiting for the main chat list."@
    } else {
        match group_folders {
            Some(f) => if f.len() == 0 {
                "Attach a Telegram folder in the middle column."@
            } else if !group_shows(f, active) {
                "Pick a folder in this group."@
            } else if active is Some {
                "No chats in this folder."@
            } else {
                "No chats in the local main list yet."@
            },
            None => if active is Some { "No chats in this folder."@ } else { "No chats in the local main list yet."@ },
        }
    }
}

pub fn chat_list_empty(ready: bool, group_folders: Option<&[NestedFolder]>, active: Option<i32>) -> (r: &'static str)
    ensures
        r@ == empty_note_spec(ready, match group_folders { Some(f) => Some(f@), None => None }, active),
{
    if !ready {
        return "Waiting for the main chat list.";
    }
    if let Some(folders) = group_folders {
        if folders.len() == 0 {
            return "Attach a Telegram folder in the middle column.";
        }
        if !shows(folders, active) {
            return "Pick a folder in this group.";
        }
    }
    if active.is_some() { "No chats in this folder." } else { "No chats in the local main list yet." }
}

pub open spec fn folder_has_id(id: i32) -> spec_fn(FolderItemView) -> bool {
    |f: FolderItemView| f.id == id
}

/// [`FolderItem`] with its title as a character sequence.
pub struct FolderItemView {
    pub id: i32,
    pub title: Seq<char>,
}

impl View for FolderItem {
    type V = FolderItemView;

    open spec fn view(&self) -> FolderItemView {
        FolderItemView { id: self.id, title: self.title@ }
    }
}

pub open spec fn folders_view(v: Seq<FolderItem>) -> Seq<FolderItemView> {
    v.map_values(|f: FolderItem| f@)
}

/// The label of a nested list: `All` for the main list, else the folder's
/// title, or `Folder N` when it has none or is unknown.
pub open spec fn folder_label_spec(folders: Seq<FolderItemView>, f: NestedFolder) -> Seq<char> {
    match f {
        NestedFolder::Main => "All"@,
        NestedFolder::Folder { id } => match crate::seqs::first_where(folders, folder_has_id(id)) {
            Some(i) => if folders[i].title.len() == 0 {
                "Folder "@ + crate::textutil::int_text(id as int)
            } else {
                folders[i].title
            },
            None => "Folder "@ + crate::textutil::int_text(id as int),
        },
    }
}

pub fn folder_label(folders: &[FolderItem], folder: NestedFolder) -> (r: String)
    ensures
        r@ == folder_label_spec(folders_view(folders@), folder),
{
    match folder {
        NestedFolder::Main => "All".to_owned(),
        NestedFolder::Folder { id } => {
            let ghost v = folders_view(folders@);
            let mut k: usize = 0;
            while k < folders.len()
                invariant
                    k <= folders.len(),
                    v == folders_view(folders@),
                    folder == (NestedFolder::Folder { id }),
                    forall|j: int| 0 <= j < k ==> !folder_has_id(id)(#[trigger] v[j]),
                decreases folders.len() - k,
            {
                if folders[k].id == id {
                    proof {
                        assert(folder_has_id(id)(v[k as int]));
                        crate::seqs::lemma_first_where_found(v, folder_has_id(id), k as int);
                    }
                    if folders[k].title.as_str().is_empty() {
                        let mut s = "Folder ".to_owned();
                        crate::textutil::push_int(&mut s, id as i64);
                        return s;
                    }
                    return folders[k].title.clone();
                }
                assert(!folder_has_id(id)(v[k as int]));
                k += 1;
            }
            proof {
                crate::seqs::lemma_first_where_none(v, folder_has_id(id));
            }
            let mut s = "Folder ".to_owned();
            crate::textutil::push_int(&mut s, id as i64);
            s
        },
    }
}

/// The lists a group can nest: the main list, then every known folder.
pub fn known_folders(folders: &[FolderItem]) -> (r: Vec<NestedFolder>)
    ensures
        r@ == seq![NestedFolder::Main] + folders_view(folders@).map_values(
            |f: FolderItemView| NestedFolder::Folder { id: f.id },
        ),
{
    let mut out: Vec<NestedFolder> = vec![NestedFolder::Main];
    let mut k: usize = 0;
    while k < folders.len()
        invariant
            k <= folders.len(),
            out@ == seq![NestedFolder::Main] + folders_view(folders@).take(k as int).map_values(
                |f: FolderItemView| NestedFolder::Folder { id: f.id },
            ),
        decreases folders.len() - k,
    {
        out.push(NestedFolder::Folder { id: folders[k].id });
        assert(folders_view(folders@).take(k + 1) =~= folders_view(folders@).take(k as int).push(
            folders@[k as int]@,
        ));
        assert(out@ =~= seq![NestedFolder::Main] + folders_view(folders@).take(k + 1).map_values(
            |f: FolderItemView| NestedFolder::Folder { id: f.id },
        ));
        k += 1;
    }
    assert(folders_view(folders@).take(folders.len() as int) =~= folders_view(folders@));
    out
}

/// The list a nested entry opens: `None` is the main list.
pub open spec fn nested_id(f: NestedFolder) -> Option<i32> {
    match f {
        NestedFolder::Main => None,
        NestedFolder::Folder { id } => Some(id),
    }
}

/// The list to open when a group is selected: nothing changes when the open
/// list is in the group; otherwise the group's first list, when it has one.
pub open spec fn focus_nested_spec(folders: Seq<NestedFolder>, active: Option<i32>) -> Option<Option<i32>> {
    if group_shows(folders, active) {
        None
    } else if folders.len() > 0 {
        Some(nested_id(folders[0]))
    } else {
        None
    }
}

pub fn focus_nested(folders: &[NestedFolder], active: Option<i32>) -> (r: Option<Option<i32>>)
    ensures
        r == focus_nested_spec(folders@, active),
{
    if shows(folders, active) {
        None
    } else if folders.len() > 0 {
        Some(folders[0].telegram_id())
    } else {
        None
    }
}

/// The list to open after a list was toggled in or out of the selected
/// group: a list just nested opens unless it is open already; when the open
/// list was taken out, the group's first remaining list opens.
pub open spec fn after_toggle_spec(
    now_inside: bool,
    folder: NestedFolder,
    active: Option<i32>,
    first_left: Option<NestedFolder>,
) -> Option<Option<i32>> {
    if now_inside {
        if nested_id(folder) == active { None } else { Some(nested_id(folder)) }
    } else if nested_id(folder) == active {
        match first_left {
            Some(n) => if nested_id(n) == active { None } else { Some(nested_id(n)) },
            None => None,
        }
    } else {
        None
    }
}

pub fn after_toggle(
    now_inside: bool,
    folder: NestedFolder,
    active: Option<i32>,
    first_left: Option<NestedFolder>,
) -> (r: Option<Option<i32>>)
    ensures
        r == after_toggle_spec(now_inside, folder, active, first_left),
{
    if now_inside {
        if folder.matches(active) { None } else { Some(folder.telegram_id()) }
    } else if folder.matches(active) {
        match first_left {
            Some(n) => if n.matches(active) { None } else { Some(n.telegram_id()) },
            None => None,
        }
    } else {
        None
    }
}

/// How the transcript rows follow a new message list.
#[derive(Clone, Copy, Debug, PartialEq, Eq, Structural)]
pub enum TranscriptChange {
    /// The same messages: only remeasure.
    Same,
    /// This many older messages came in above the rows shown.
    Prepended(usize),
    /// This many newer messages came in below the rows shown, from `start`.
    Appended { start: usize, added: usize },
    /// Anything else: show this many rows afresh.
    Reset(usize),
}

/// How the transcript follows a change from `shown` ids to `new` ids.
pub open spec fn transcript_change_spec(shown: Seq<i64>, new: Seq<i64>) -> TranscriptChange {
    if new == shown {
        TranscriptChange::Same
    } else if shown.len() > 0 && new.len() > shown.len() && new.skip(new.len() - shown.len()) == shown {
        TranscriptChange::Prepended((new.len() - shown.len()) as usize)
    } else if shown.len() > 0 && new.len() > shown.len() && new.take(shown.len() as int) == shown {
        TranscriptChange::Appended { start: shown.len() as usize, added: (new.len() - shown.len()) as usize }
    } else {
        TranscriptChange::Reset(new.len() as usize)
    }
}

fn same_range(a: &[i64], from: usize, b: &[i64]) -> (r: bool)
    requires
        from + b.len() <= a.len(),
    ensures
        r == (a@.subrange(from as int, from + b.len()) == b@),
{
    let mut k: usize = 0;
    while k < b.len()
        invariant
            k <= b.len(),
            from + b.len() <= a.len(),
            forall|j: int| 0 <= j < k ==> a@[from + j] == b@[j],
        decreases b.len() - k,
    {
        if a[from + k] != b[k] {
            assert(a@.subrange(from as int, from + b.len())[k as int] != b@[k as int]);
            return false;
        }
        k += 1;
    }
    assert(a@.subrange(from as int, from + b.len()) =~= b@);
    true
}

pub fn transcript_change(shown: &[i64], new: &[i64]) -> (r: TranscriptChange)
    ensures
        r == transcript_change_spec(shown@, new@),
{
    if new.len() == shown.len() && same_range(new, 0, shown) {
        assert(new@.subrange(0, shown@.len() as int) =~= new@);
        return TranscriptChange::Same;
    }
    proof {
        if new@ == shown@ {
            assert(new@.subrange(0, shown@.len() as int) =~= new@);
        }
    }
    if shown.len() > 0 && new.len() > shown.len() {
        let from = new.len() - shown.len();
        if same_range(new, from, shown) {
            assert(new@.subrange(from as int, from + shown.len()) =~= new@.skip(from as int));
            return TranscriptChange::Prepended(from);
        }
        assert(new@.subrange(from as int, from + shown.len()) =~= new@.skip(from as int));
        if same_range(new, 0, shown) {
            assert(new@.subrange(0, shown.len() as int) =~= new@.take(shown.len() as int));
            return TranscriptChange::Appended { start: shown.len(), added: from };
        }
        assert(new@.subrange(0, shown.len() as int) =~= new@.take(shown.len() as int));
    }
    TranscriptChange::Reset(new.len())
}

} // verus!
