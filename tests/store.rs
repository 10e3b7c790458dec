use note_store::note::{Note, StoredNote};
use note_store::store::{Db, Op, StoreError, StoredDb};

fn note(text: &str, disabled: bool) -> Note {
    Note::new(text.to_string(), disabled)
}

fn db_of(notes: Vec<Note>) -> Db {
    Db { notes }
}

#[test]
fn add_to_empty_store_gives_one_default_note() {
    let mut db = Db::new();
    db.add();
    assert_eq!(db.read(), vec![note("", false)]);
}

#[test]
fn add_appends_at_the_end() {
    let mut db = db_of(vec![note("a", true)]);
    db.add();
    assert_eq!(db.read(), vec![note("a", true), note("", false)]);
}

#[test]
fn delete_first_of_two() {
    let mut db = db_of(vec![note("a", false), note("b", false)]);
    assert_eq!(db.delete(0), Ok(()));
    assert_eq!(db.read(), vec![note("b", false)]);
}

#[test]
fn delete_shifts_later_notes_down() {
    let mut db = db_of(vec![note("a", false), note("b", true), note("c", false)]);
    assert_eq!(db.delete(1), Ok(()));
    assert_eq!(db.read(), vec![note("a", false), note("c", false)]);
}

#[test]
fn delete_out_of_range_is_refused() {
    let mut db = db_of(vec![note("a", false), note("b", false)]);
    assert_eq!(db.delete(2), Err(StoreError::InvalidIndex));
    assert_eq!(db.delete(usize::MAX), Err(StoreError::InvalidIndex));
    assert_eq!(db.read(), vec![note("a", false), note("b", false)]);
}

#[test]
fn delete_on_empty_store_is_refused() {
    let mut db = Db::new();
    assert_eq!(db.delete(0), Err(StoreError::InvalidIndex));
    assert!(db.read().is_empty());
}

#[test]
fn update_out_of_range_is_refused() {
    let mut db = db_of(vec![note("a", false)]);
    assert_eq!(db.update(1, note("x", true)), Err(StoreError::InvalidIndex));
    assert_eq!(db.read(), vec![note("a", false)]);
}

#[test]
fn update_replaces_the_note() {
    let mut db = db_of(vec![note("a", false), note("b", false)]);
    assert_eq!(db.update(1, note("x", true)), Ok(()));
    assert_eq!(db.read(), vec![note("a", false), note("x", true)]);
}

#[test]
fn read_leaves_the_store_as_it_was() {
    let db = db_of(vec![note("a", false), note("b", true)]);
    let first = db.read();
    let second = db.read();
    assert_eq!(first, second);
    assert_eq!(db.notes, vec![note("a", false), note("b", true)]);
}

#[test]
fn apply_all_gives_the_net_effect_in_order() {
    let mut db = Db::new();
    let ops = vec![
        Op::Add,
        Op::Add,
        Op::Update(0, note("first", false)),
        Op::Update(1, note("second", true)),
        Op::Delete(5),
        Op::Add,
        Op::Delete(0),
        Op::Update(3, note("nope", false)),
    ];
    let outcomes = db.apply_all(&ops);
    assert_eq!(
        outcomes,
        vec![
            Ok(()),
            Ok(()),
            Ok(()),
            Ok(()),
            Err(StoreError::InvalidIndex),
            Ok(()),
            Ok(()),
            Err(StoreError::InvalidIndex),
        ]
    );
    assert_eq!(db.read(), vec![note("second", true), note("", false)]);
}

#[test]
fn apply_single_operations() {
    let mut db = Db::new();
    assert_eq!(db.apply(Op::Add), Ok(()));
    assert_eq!(db.apply(Op::Update(0, note("z", false))), Ok(()));
    assert_eq!(db.apply(Op::Delete(1)), Err(StoreError::InvalidIndex));
    assert_eq!(db.read(), vec![note("z", false)]);
    assert_eq!(db.apply(Op::Delete(0)), Ok(()));
    assert!(db.read().is_empty());
}

#[test]
fn stored_form_keeps_non_default_fields() {
    let s = note("a", true).to_stored();
    assert_eq!(s, StoredNote { text: Some("a".to_string()), disabled: Some(true) });
}

#[test]
fn stored_form_of_default_note_is_empty() {
    let s = note("", false).to_stored();
    assert_eq!(s, StoredNote { text: None, disabled: None });
}

#[test]
fn stored_form_of_mixed_notes() {
    assert_eq!(
        note("hi", false).to_stored(),
        StoredNote { text: Some("hi".to_string()), disabled: None }
    );
    assert_eq!(
        note("", true).to_stored(),
        StoredNote { text: None, disabled: Some(true) }
    );
}

#[test]
fn absent_fields_read_back_as_defaults() {
    let s = StoredNote { text: None, disabled: None };
    assert_eq!(Note::from_stored(&s), note("", false));
    let s = StoredNote { text: Some(String::new()), disabled: Some(false) };
    assert_eq!(Note::from_stored(&s), note("", false));
    let s = StoredNote { text: Some("q".to_string()), disabled: Some(true) };
    assert_eq!(Note::from_stored(&s), note("q", true));
}

#[test]
fn save_then_load_gives_the_same_list() {
    let notes = vec![note("a", true), note("", false), note("b", false), note("", true)];
    let db = db_of(notes.clone());
    let stored = db.save();
    assert_eq!(
        stored,
        StoredDb {
            notes: vec![
                StoredNote { text: Some("a".to_string()), disabled: Some(true) },
                StoredNote { text: None, disabled: None },
                StoredNote { text: Some("b".to_string()), disabled: None },
                StoredNote { text: None, disabled: Some(true) },
            ]
        }
    );
    assert_eq!(Db::load(&stored).read(), notes);
}

#[test]
fn save_of_empty_store() {
    let stored = Db::new().save();
    assert!(stored.notes.is_empty());
    assert!(Db::load(&stored).read().is_empty());
}

#[test]
fn clone_and_default_of_note() {
    let n = note("c", true);
    assert_eq!(n.clone(), n);
    assert_eq!(Note::default(), note("", false));
}
