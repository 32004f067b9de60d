use lib_api::text::{chars_of, same_text};

#[test]
fn chars_of_lists_the_characters() {
    assert_eq!(chars_of("a1é,"), vec!['a', '1', 'é', ',']);
    assert_eq!(chars_of(""), Vec::<char>::new());
}

#[test]
fn same_text_compares_every_character() {
    assert!(same_text("", ""));
    assert!(same_text("id", "id"));
    assert!(same_text("idé", "idé"));
    assert!(!same_text("id", "ids"));
    assert!(!same_text("ids", "id"));
    assert!(!same_text("id", "iD"));
    assert!(!same_text("é", "e"));
}
