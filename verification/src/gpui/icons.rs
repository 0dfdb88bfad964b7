//! Outline icons from Heroicons v2.2.0 (MIT, copyright Tailwind Labs, Inc.;
//! the license is `assets/heroicons/LICENSE`).
//!
//! Heroicons has no icon named `pin`; `map-pin` is the pin mark used in the
//! chat list.

use vstd::prelude::*;
use crate::gpui::groups::NestedFolder;

verus! {

#[derive(Clone, Copy, Debug, PartialEq, Eq, Structural)]
pub enum Icon {
    ArrowPath,
    Bell,
    BellSlash,
    ChatBubble,
    Check,
    ChevronLeft,
    Cog6Tooth,
    Folder,
    Inbox,
    MagnifyingGlass,
    MapPin,
    PaperAirplane,
    Pencil,
    Photo,
    Plus,
    Rss,
    Squares,
    Trash,
    UserCircle,
    UserGroup,
    /// Kept with the vendored set. The photo viewer uses the window title bar.
    XMark,
}

/// The file of each icon under `assets/heroicons/outline/`.
pub open spec fn asset_spec(icon: Icon) -> &'static str {
    match icon {
        Icon::ArrowPath => "arrow-path.svg",
        Icon::Bell => "bell.svg",
        Icon::BellSlash => "bell-slash.svg",
        Icon::ChatBubble => "chat-bubble-left.svg",
        Icon::Check => "check.svg",
        Icon::ChevronLeft => "chevron-left.svg",
        Icon::Cog6Tooth => "cog-6-tooth.svg",
        Icon::Folder => "folder.svg",
        Icon::Inbox => "inbox.svg",
        Icon::MagnifyingGlass => "magnifying-glass.svg",
        Icon::MapPin => "map-pin.svg",
        Icon::PaperAirplane => "paper-airplane.svg",
        Icon::Pencil => "pencil.svg",
        Icon::Photo => "photo.svg",
        Icon::Plus => "plus.svg",
        Icon::Rss => "rss.svg",
        Icon::Squares => "squares-2x2.svg",
        Icon::Trash => "trash.svg",
        Icon::UserCircle => "user-circle.svg",
        Icon::UserGroup => "user-group.svg",
        Icon::XMark => "x-mark.svg",
    }
}

impl Icon {
    /// The icon's SVG file under `assets/heroicons/outline/`.
    pub fn asset(self) -> (r: &'static str)
        ensures
            r == asset_spec(self),
    {
        match self {
            Icon::ArrowPath => "arrow-path.svg",
            Icon::Bell => "bell.svg",
            Icon::BellSlash => "bell-slash.svg",
            Icon::ChatBubble => "chat-bubble-left.svg",
            Icon::Check => "check.svg",
            Icon::ChevronLeft => "chevron-left.svg",
            Icon::Cog6Tooth => "cog-6-tooth.svg",
            Icon::Folder => "folder.svg",
            Icon::Inbox => "inbox.svg",
            Icon::MagnifyingGlass => "magnifying-glass.svg",
            Icon::MapPin => "map-pin.svg",
            Icon::PaperAirplane => "paper-airplane.svg",
            Icon::Pencil => "pencil.svg",
            Icon::Photo => "photo.svg",
            Icon::Plus => "plus.svg",
            Icon::Rss => "rss.svg",
            Icon::Squares => "squares-2x2.svg",
            Icon::Trash => "trash.svg",
            Icon::UserCircle => "user-circle.svg",
            Icon::UserGroup => "user-group.svg",
            Icon::XMark => "x-mark.svg",
        }
    }

    /// The mark of a nested list: an inbox for the main list, a folder for
    /// a Telegram folder.
    pub fn for_folder(folder: NestedFolder) -> (r: Icon)
        ensures
            r == (match folder {
                NestedFolder::Main => Icon::Inbox,
                NestedFolder::Folder { .. } => Icon::Folder,
            }),
    {
        match folder {
            NestedFolder::Main => Icon::Inbox,
            NestedFolder::Folder { .. } => Icon::Folder,
        }
    }
}

} // verus!
