use mithka_tdlib::gpui::groups::{self, GroupLibrary, NestedFolder, SessionRecord};
use mithka_tdlib::gpui::icons::Icon;
use mithka_tdlib::gpui::pins::{self, pin_sort_key, PinLibrary};

#[test]
fn create_rename_and_nest_folders_round_trip() {
    let mut groups = GroupLibrary::new("/tmp/mithka-session");
    let id = groups.create("  Family  ").unwrap();
    assert!(groups.create("   ").is_none());
    assert_eq!(groups.toggle_folder(&id, NestedFolder::Folder { id: 2 }), Some(true));
    assert_eq!(groups.toggle_folder(&id, NestedFolder::Folder { id: 2 }), Some(false));
    assert_eq!(groups.toggle_folder(&id, NestedFolder::Main), Some(true));
    assert_eq!(groups.toggle_folder(&id, NestedFolder::Folder { id: 2 }), Some(true));
    assert!(groups.rename(&id, "Kin"));

    // What a save writes is what a load reads back.
    let mut loaded = GroupLibrary::new("/tmp/mithka-session");
    for (key, record) in groups.sessions() {
        loaded.restore_session(key.clone(), record.clone());
    }
    let group = loaded.group(&id).unwrap();
    assert_eq!(group.name, "Kin");
    assert_eq!(group.folders, vec![NestedFolder::Main, NestedFolder::Folder { id: 2 }]);
    assert!(group.folders.contains(&NestedFolder::Main));
    assert!(!group.folders.contains(&NestedFolder::Folder { id: 9 }));
    assert!(loaded.delete(&id));
    assert!(loaded.group(&id).is_none());
}

#[test]
fn groups_store_path_is_under_the_gpui_app_id() {
    let path = groups::store_path_in("/var/lib/data");
    assert_eq!(
        std::path::PathBuf::from(path),
        std::path::PathBuf::from("/var/lib/data/ad.neko.mithka.gpui/local-groups.json")
    );
}

#[test]
fn groups_belong_to_their_database() {
    let mut library = GroupLibrary::new("/db/a");
    library.restore_session(
        "/db/b".to_string(),
        SessionRecord { next_id: 7, groups: Vec::new() },
    );
    assert_eq!(library.create("First").unwrap(), "g1");
    assert_eq!(library.groups().len(), 1);
    assert_eq!(library.sessions().len(), 2);
    let mut other = GroupLibrary::new("/db/b");
    for (key, record) in library.sessions() {
        other.restore_session(key.clone(), record.clone());
    }
    assert!(other.groups().is_empty());
    assert_eq!(other.create("Second").unwrap(), "g8");
    assert_eq!(other.toggle_folder("g9", NestedFolder::Main), None);
    assert!(!other.rename("g8", "  "));
    assert!(!other.delete("g1"));
}

#[test]
fn nested_folders_match_the_active_list() {
    assert_eq!(NestedFolder::Main.telegram_id(), None);
    assert_eq!(NestedFolder::Folder { id: 4 }.telegram_id(), Some(4));
    assert!(NestedFolder::Main.matches(None));
    assert!(!NestedFolder::Main.matches(Some(4)));
    assert!(NestedFolder::Folder { id: 4 }.matches(Some(4)));
    assert!(!NestedFolder::Folder { id: 4 }.matches(None));
    assert_eq!(Icon::for_folder(NestedFolder::Main), Icon::Inbox);
    assert_eq!(Icon::for_folder(NestedFolder::Folder { id: 1 }), Icon::Folder);
    assert_eq!(Icon::MapPin.asset(), "map-pin.svg");
    assert_eq!(Icon::Squares.asset(), "squares-2x2.svg");
}

#[test]
fn toggle_round_trip_and_sort_ahead_of_higher_order() {
    let mut pins = PinLibrary::new("/tmp/mithka-session");
    assert!(pins.toggle(101));
    assert!(pins.toggle(102));
    assert_eq!(pins.rank(102), Some(0));
    assert_eq!(pins.rank(101), Some(1));
    assert!(!pins.toggle(102));
    assert!(!pins.is_pinned(102));
    assert!(pins.is_pinned(101));

    // What a save writes is what a load reads back.
    let mut loaded = PinLibrary::new("/tmp/mithka-session");
    for (key, ids) in pins.sessions() {
        loaded.restore_session(key.clone(), ids.clone());
    }
    assert!(loaded.is_pinned(101));
    let mut chats = [(102_i64, 99_i64), (101, 10)];
    chats.sort_by(|left, right| {
        pin_sort_key(&loaded, left.0)
            .cmp(&pin_sort_key(&loaded, right.0))
            .then(right.1.cmp(&left.1))
    });
    assert_eq!(chats[0].0, 101);
    assert_eq!(
        std::path::PathBuf::from(pins::store_path_in("/var/lib/data")),
        std::path::PathBuf::from("/var/lib/data/ad.neko.mithka.gpui/local-pins.json")
    );
}

#[test]
fn pin_toggle_twice_restores_and_keys_order_pins_first() {
    let mut pins = PinLibrary::new("/db");
    pins.toggle(5);
    pins.toggle(6);
    let before = pins.pinned().to_vec();
    assert!(pins.toggle(7));
    assert_eq!(pins.rank(7), Some(0));
    assert!(!pins.toggle(7));
    assert_eq!(pins.pinned(), before.as_slice());
    assert_eq!(pin_sort_key(&pins, 6), (0, 0));
    assert_eq!(pin_sort_key(&pins, 5), (0, 1));
    assert_eq!(pin_sort_key(&pins, 8), (1, 0));
    assert!(pin_sort_key(&pins, 5) < pin_sort_key(&pins, 8));
}

#[test]
fn toggling_a_pin_shifts_the_other_ranks() {
    let mut pins = PinLibrary::new("/db");
    assert!(pins.toggle(1));
    assert!(pins.toggle(2));
    assert!(pins.toggle(3));
    assert_eq!((pins.rank(3), pins.rank(2), pins.rank(1)), (Some(0), Some(1), Some(2)));
    assert!(!pins.toggle(2));
    assert_eq!((pins.rank(3), pins.rank(2), pins.rank(1)), (Some(0), None, Some(1)));
    assert!(pins.toggle(4));
    assert_eq!((pins.rank(4), pins.rank(3), pins.rank(1)), (Some(0), Some(1), Some(2)));
    assert!(pins.is_pinned(1) && !pins.is_pinned(2));
}
