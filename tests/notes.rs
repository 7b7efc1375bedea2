use zipy::notes::{
    add_idea, add_knowledge_entry, delete_idea, delete_knowledge_entry, toggle_knowledge_nomination,
    update_idea, update_knowledge_entry,
};
use zipy::records::{IdeaEntry, KnowledgeEntry};

fn note(id: &str, content: &str, nominated: bool) -> KnowledgeEntry {
    KnowledgeEntry { id: id.to_string(), content: content.to_string(), created_at: 1, nominated }
}

fn idea(id: &str) -> IdeaEntry {
    IdeaEntry {
        id: id.to_string(),
        title: format!("t{}", id),
        raw_content: "raw".to_string(),
        corrected_script: "script".to_string(),
        created_at: 3,
    }
}

#[test]
fn added_note_is_nominated() {
    let mut notes = vec![note("a", "x", false)];
    let e = add_knowledge_entry(&mut notes, "b".to_string(), "new".to_string(), 42).unwrap();
    assert_eq!(notes.len(), 2);
    assert_eq!(notes[1], e);
    assert_eq!(e, KnowledgeEntry { created_at: 42, ..note("b", "new", true) });
    assert_eq!(e.created_at, 42);
}

#[test]
fn adding_an_existing_note_id_fails() {
    let mut notes = vec![note("a", "x", false)];
    assert_eq!(
        add_knowledge_entry(&mut notes, "a".to_string(), "new".to_string(), 1),
        Err("Knowledge entry already exists".to_string())
    );
    assert_eq!(notes, vec![note("a", "x", false)]);
}

#[test]
fn update_changes_only_the_first_match() {
    let mut notes = vec![note("a", "x", true), note("b", "y", false), note("b", "z", true)];
    let e = update_knowledge_entry(&mut notes, "b", "changed".to_string()).unwrap();
    assert_eq!(e, note("b", "changed", false));
    assert_eq!(notes[1], note("b", "changed", false));
    assert_eq!(notes[2], note("b", "z", true));
}

#[test]
fn update_of_unknown_note_fails() {
    let mut notes = vec![note("a", "x", true)];
    assert_eq!(update_knowledge_entry(&mut notes, "q", "c".to_string()), Err("Knowledge entry not found".to_string()));
    assert_eq!(notes, vec![note("a", "x", true)]);
}

#[test]
fn toggle_flips_nomination() {
    let mut notes = vec![note("a", "x", true)];
    assert!(!toggle_knowledge_nomination(&mut notes, "a").unwrap().nominated);
    assert!(toggle_knowledge_nomination(&mut notes, "a").unwrap().nominated);
    assert_eq!(toggle_knowledge_nomination(&mut notes, "zz"), Err("Knowledge entry not found".to_string()));
}

#[test]
fn delete_removes_every_match() {
    let mut notes = vec![note("a", "1", true), note("b", "2", true), note("a", "3", false)];
    delete_knowledge_entry(&mut notes, "a");
    assert_eq!(notes, vec![note("b", "2", true)]);
    delete_knowledge_entry(&mut notes, "none");
    assert_eq!(notes.len(), 1);
}

#[test]
fn ideas_are_added_newest_first() {
    let mut ideas = vec![idea("1")];
    let e = add_idea(&mut ideas, "2".to_string(), "T".to_string(), "R".to_string(), "S".to_string(), 9).unwrap();
    assert_eq!(ideas[0], e);
    assert_eq!(e.id, "2");
    assert_eq!(
        add_idea(&mut ideas, "1".to_string(), "T".to_string(), "R".to_string(), "S".to_string(), 9),
        Err("Idea entry already exists".to_string())
    );
    assert_eq!(ideas.len(), 2);
    assert_eq!(ideas[1].id, "1");
    assert_eq!((e.title.as_str(), e.raw_content.as_str(), e.corrected_script.as_str(), e.created_at), ("T", "R", "S", 9));
}

#[test]
fn idea_update_and_delete() {
    let mut ideas = vec![idea("1"), idea("2")];
    let e = update_idea(&mut ideas, "2", "A".to_string(), "B".to_string(), "C".to_string()).unwrap();
    assert_eq!(e.id, "2");
    assert_eq!(e.created_at, 3);
    assert_eq!(ideas[1], e);
    assert_eq!(
        update_idea(&mut ideas, "9", "A".to_string(), "B".to_string(), "C".to_string()),
        Err("Idea entry not found".to_string())
    );
    delete_idea(&mut ideas, "1");
    assert_eq!(ideas, vec![e]);
}
