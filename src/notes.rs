//! Edits of the knowledge-note and idea lists.
use vstd::prelude::*;
use crate::seq_facts::lemma_filter_step;
use crate::records::{IdeaEntry, KnowledgeEntry};

verus! {

/// Whether `i` is the first position of a note with id `id`.
pub open spec fn first_note(s: Seq<KnowledgeEntry>, id: Seq<char>, i: int) -> bool {
    0 <= i < s.len() && s[i].id@ == id && forall|j: int| 0 <= j < i ==> s[j].id@ != id
}

/// Whether `i` is the first position of an idea with id `id`.
pub open spec fn first_idea(s: Seq<IdeaEntry>, id: Seq<char>, i: int) -> bool {
    0 <= i < s.len() && s[i].id@ == id && forall|j: int| 0 <= j < i ==> s[j].id@ != id
}

fn find_note(entries: &Vec<KnowledgeEntry>, id: &str) -> (r: Option<usize>)
    ensures
        r matches Some(i) ==> first_note(entries@, id@, i as int),
        r is None ==> forall|j: int| 0 <= j < entries@.len() ==> entries@[j].id@ != id@,
{
    let key = id.to_owned();
    let mut i: usize = 0;
    while i < entries.len()
        invariant
            i <= entries@.len(),
            key@ == id@,
            forall|j: int| 0 <= j < i ==> entries@[j].id@ != id@,
        decreases entries@.len() - i,
    {
        if entries[i].id == key {
            return Some(i);
        }
        i = i + 1;
    }
    None
}

fn find_idea(entries: &Vec<IdeaEntry>, id: &str) -> (r: Option<usize>)
    ensures
        r matches Some(i) ==> first_idea(entries@, id@, i as int),
        r is None ==> forall|j: int| 0 <= j < entries@.len() ==> entries@[j].id@ != id@,
{
    let key = id.to_owned();
    let mut i: usize = 0;
    while i < entries.len()
        invariant
            i <= entries@.len(),
            key@ == id@,
            forall|j: int| 0 <= j < i ==> entries@[j].id@ != id@,
        decreases entries@.len() - i,
    {
        if entries[i].id == key {
            return Some(i);
        }
        i = i + 1;
    }
    None
}

/// Appends a new nominated note with id `id` and returns it; an error when
/// a note with that id exists already, the list unchanged. Ids stay unique.
pub fn add_knowledge_entry(
    entries: &mut Vec<KnowledgeEntry>,
    id: String,
    content: String,
    created_at: i64,
) -> (r: Result<KnowledgeEntry, String>)
    ensures
        match r {
            Ok(e) => e == (KnowledgeEntry { id: id, content: content, created_at: created_at, nominated: true })
                && final(entries)@ == old(entries)@.push(e) && forall|j: int|
                0 <= j < old(entries)@.len() ==> old(entries)@[j].id@ != id@,
            Err(msg) => msg@ == "Knowledge entry already exists"@ && final(entries)@ == old(entries)@
                && exists|j: int| 0 <= j < old(entries)@.len() && old(entries)@[j].id@ == id@,
        },
{
    match find_note(entries, id.as_str()) {
        Some(i) => {
            assert(entries@[i as int].id@ == id@);
            Err(String::from_str("Knowledge entry already exists"))
        },
        None => {
            let entry = KnowledgeEntry { id, content, created_at, nominated: true };
            let copy = entry.duplicate();
            entries.push(entry);
            Ok(copy)
        },
    }
}

/// Whether a note is kept when deleting the id `id`.
pub open spec fn note_kept(id: Seq<char>) -> spec_fn(KnowledgeEntry) -> bool {
    |e: KnowledgeEntry| e.id@ != id
}

/// Whether an idea is kept when deleting the id `id`.
pub open spec fn idea_kept(id: Seq<char>) -> spec_fn(IdeaEntry) -> bool {
    |e: IdeaEntry| e.id@ != id
}

/// Removes every note with id `id`, keeping the order of the others.
pub fn delete_knowledge_entry(entries: &mut Vec<KnowledgeEntry>, id: &str)
    ensures
        final(entries)@ == old(entries)@.filter(note_kept(id@)),
{
    let ghost pred = note_kept(id@);
    let ghost original = entries@;
    let key = id.to_owned();
    let mut kept: Vec<KnowledgeEntry> = Vec::new();
    let mut i: usize = 0;
    proof {
        reveal(Seq::filter);
    }
    while i < entries.len()
        invariant
            entries@ == original,
            i <= original.len(),
            key@ == id@,
            pred == note_kept(id@),
            kept@ == original.subrange(0, i as int).filter(pred),
        decreases original.len() - i,
    {
        let e = &entries[i];
        let keep = e.id != key;
        let ghost before = kept@;
        if keep {
            kept.push(e.duplicate());
        }
        proof {
            lemma_filter_step(original, i as int, pred);
        }
        i = i + 1;
    }
    assert(original.subrange(0, original.len() as int) =~= original);
    *entries = kept;
}

/// Replaces the content of the first note with id `id` and returns the
/// updated note; an error when there is none, the list unchanged.
pub fn update_knowledge_entry(entries: &mut Vec<KnowledgeEntry>, id: &str, content: String) -> (r:
    Result<KnowledgeEntry, String>)
    ensures
        match r {
            Ok(e) => exists|i: int|
                #[trigger] first_note(old(entries)@, id@, i) && final(entries)@ == old(entries)@.update(i, e)
                    && e.id == old(entries)@[i].id && e.content == content && e.created_at == old(
                    entries,
                )@[i].created_at && e.nominated == old(entries)@[i].nominated,
            Err(msg) => msg@ == "Knowledge entry not found"@ && final(entries)@ == old(entries)@
                && forall|j: int| 0 <= j < old(entries)@.len() ==> old(entries)@[j].id@ != id@,
        },
{
    match find_note(entries, id) {
        Some(i) => {
            let mut e = entries[i].duplicate();
            e.content = content;
            let copy = e.duplicate();
            entries.set(i, e);
            assert(first_note(old(entries)@, id@, i as int) && entries@ == old(entries)@.update(
                i as int,
                copy,
            ));
            Ok(copy)
        },
        None => Err(String::from_str("Knowledge entry not found")),
    }
}

/// Flips the nomination flag of the first note with id `id` and returns the
/// updated note; an error when there is none, the list unchanged.
pub fn toggle_knowledge_nomination(entries: &mut Vec<KnowledgeEntry>, id: &str) -> (r: Result<
    KnowledgeEntry,
    String,
>)
    ensures
        match r {
            Ok(e) => exists|i: int|
                #[trigger] first_note(old(entries)@, id@, i) && e == (KnowledgeEntry {
                    nominated: !old(entries)@[i].nominated,
                    ..old(entries)@[i]
                }) && final(entries)@ == old(entries)@.update(i, e),
            Err(msg) => msg@ == "Knowledge entry not found"@ && final(entries)@ == old(entries)@
                && forall|j: int| 0 <= j < old(entries)@.len() ==> old(entries)@[j].id@ != id@,
        },
{
    match find_note(entries, id) {
        Some(i) => {
            let mut e = entries[i].duplicate();
            e.nominated = !e.nominated;
            let copy = e.duplicate();
            entries.set(i, e);
            assert(first_note(old(entries)@, id@, i as int) && entries@ == old(entries)@.update(
                i as int,
                copy,
            ));
            Ok(copy)
        },
        None => Err(String::from_str("Knowledge entry not found")),
    }
}

/// Puts a new idea with id `id` at the front of the list, newest first, and
/// returns it; an error when an idea with that id exists already, the list
/// unchanged. Ids stay unique.
pub fn add_idea(
    entries: &mut Vec<IdeaEntry>,
    id: String,
    title: String,
    raw_content: String,
    corrected_script: String,
    created_at: i64,
) -> (r: Result<IdeaEntry, String>)
    ensures
        match r {
            Ok(e) => e == (IdeaEntry {
                id: id,
                title: title,
                raw_content: raw_content,
                corrected_script: corrected_script,
                created_at: created_at,
            }) && final(entries)@ == seq![e] + old(entries)@ && forall|j: int|
                0 <= j < old(entries)@.len() ==> old(entries)@[j].id@ != id@,
            Err(msg) => msg@ == "Idea entry already exists"@ && final(entries)@ == old(entries)@
                && exists|j: int| 0 <= j < old(entries)@.len() && old(entries)@[j].id@ == id@,
        },
{
    match find_idea(entries, id.as_str()) {
        Some(i) => {
            assert(entries@[i as int].id@ == id@);
            Err(String::from_str("Idea entry already exists"))
        },
        None => {
            let entry = IdeaEntry { id, title, raw_content, corrected_script, created_at };
            let copy = entry.duplicate();
            entries.insert(0, entry);
            assert(entries@ =~= seq![copy] + old(entries)@);
            Ok(copy)
        },
    }
}

/// Replaces title, raw content and corrected script of the first idea with
/// id `id` and returns the updated idea; an error when there is none, the
/// list unchanged.
pub fn update_idea(
    entries: &mut Vec<IdeaEntry>,
    id: &str,
    title: String,
    raw_content: String,
    corrected_script: String,
) -> (r: Result<IdeaEntry, String>)
    ensures
        match r {
            Ok(e) => exists|i: int|
                #[trigger] first_idea(old(entries)@, id@, i) && e == (IdeaEntry {
                    title: title,
                    raw_content: raw_content,
                    corrected_script: corrected_script,
                    ..old(entries)@[i]
                }) && final(entries)@ == old(entries)@.update(i, e),
            Err(msg) => msg@ == "Idea entry not found"@ && final(entries)@ == old(entries)@
                && forall|j: int| 0 <= j < old(entries)@.len() ==> old(entries)@[j].id@ != id@,
        },
{
    match find_idea(entries, id) {
        Some(i) => {
            let mut e = entries[i].duplicate();
            e.title = title;
            e.raw_content = raw_content;
            e.corrected_script = corrected_script;
            let copy = e.duplicate();
            entries.set(i, e);
            assert(first_idea(old(entries)@, id@, i as int) && entries@ == old(entries)@.update(
                i as int,
                copy,
            ));
            Ok(copy)
        },
        None => Err(String::from_str("Idea entry not found")),
    }
}

/// Removes every idea with id `id`, keeping the order of the others.
pub fn delete_idea(entries: &mut Vec<IdeaEntry>, id: &str)
    ensures
        final(entries)@ == old(entries)@.filter(idea_kept(id@)),
{
    let ghost pred = idea_kept(id@);
    let ghost original = entries@;
    let key = id.to_owned();
    let mut kept: Vec<IdeaEntry> = Vec::new();
    let mut i: usize = 0;
    proof {
        reveal(Seq::filter);
    }
    while i < entries.len()
        invariant
            entries@ == original,
            i <= original.len(),
            key@ == id@,
            pred == idea_kept(id@),
            kept@ == original.subrange(0, i as int).filter(pred),
        decreases original.len() - i,
    {
        let e = &entries[i];
        let keep = e.id != key;
        let ghost before = kept@;
        if keep {
            kept.push(e.duplicate());
        }
        proof {
            lemma_filter_step(original, i as int, pred);
        }
        i = i + 1;
    }
    assert(original.subrange(0, original.len() as int) =~= original);
    *entries = kept;
}

} // verus!
