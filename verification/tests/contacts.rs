use mithka_tdlib::contacts::{ContactBook, UserInfo};
use mithka_tdlib::shell::{user_name, user_username};

fn ada(is_contact: Option<bool>) -> UserInfo {
    UserInfo {
        id: 4,
        name: user_name("Ada", "Lovelace"),
        username: user_username(Some("ada"), Some("ada"), None),
        is_contact,
        photo_null: false,
    }
}

#[test]
fn contact_book_follows_contacts_and_user_updates() {
    let mut book = ContactBook::new();
    assert!(book.note_contact(&ada(Some(true))));
    let missing = book.on_users(&[4]);
    assert!(missing.is_empty());
    let rows = book.contacts();
    assert_eq!(rows.len(), 1);
    assert_eq!(rows[0].name, "Ada Lovelace");
    assert_eq!(rows[0].username, "ada");
    assert!(book.note_contact(&ada(Some(false))));
    assert!(book.contacts().is_empty());
    assert!(!book.is_contact(4));
    assert_eq!(book.user_name(4).map(|n| n.as_str()), Some("Ada Lovelace"));
}

#[test]
fn unknown_contacts_show_a_placeholder_until_their_user_arrives() {
    let mut book = ContactBook::new();
    let missing = book.on_users(&[7, 8]);
    assert_eq!(missing, vec![7, 8]);
    let rows = book.contacts();
    assert_eq!(rows[0].name, "User 7");
    assert_eq!(rows[1].name, "User 8");
    assert_eq!(rows[1].username, "");
    let nameless = UserInfo { id: 8, name: String::new(), username: String::new(), is_contact: None, photo_null: false };
    assert!(book.note_contact(&nameless));
    assert!(!book.note_contact(&nameless));
    assert_eq!(book.contacts()[1].name, "User 8");
    let handle = UserInfo { id: 7, name: String::new(), username: "grace".to_string(), is_contact: None, photo_null: false };
    assert!(book.note_contact(&handle));
    assert_eq!(book.contacts()[0].name, "grace");
    assert_eq!(book.on_users(&[8]), Vec::<i64>::new());
    assert_eq!(book.contact_ids(), &[8]);
    assert_eq!(book.on_users(&[7, 8]), vec![7]);
}

#[test]
fn non_contacts_only_leave_a_name() {
    let mut book = ContactBook::new();
    assert!(!book.note_contact(&ada(None)));
    assert!(book.contacts().is_empty());
    assert_eq!(book.user_name(4).map(|n| n.as_str()), Some("Ada Lovelace"));
    assert!(book.user_name(5).is_none());
}

#[test]
fn contact_avatar_follows_download_and_null_photo() {
    let mut book = ContactBook::new();
    book.note_contact(&ada(Some(true)));
    assert!(!book.set_contact_avatar(9, "/tmp/x.jpg"));
    assert!(book.set_contact_avatar(4, "/tmp/ada.jpg"));
    assert!(!book.set_contact_avatar(4, "/tmp/ada.jpg"));
    assert_eq!(book.contacts()[0].avatar.as_deref(), Some("/tmp/ada.jpg"));
    assert!(!book.note_contact(&ada(Some(true))));
    assert!(book.note_contact(&UserInfo { photo_null: true, ..ada(None) }));
    assert!(book.contacts()[0].avatar.is_none());
    assert!(!book.note_contact(&UserInfo { photo_null: true, ..ada(None) }));
}
