//! Context assembly for the chat assistant: the meeting brief, the nominated
//! knowledge notes, the tail of the live transcript and the relevant
//! history, each section left out when it is empty.
//!
//! Relevant history comes from one of two tiers: the semantic tier (stored
//! entries ranked by similarity to the query's embedding) when the query and
//! credentials are given and the embedding call succeeded, else the recency
//! tier (the newest answers and summaries). A failed embedding call is no
//! error: it selects the recency tier.
use vstd::prelude::*;
use crate::seq_facts::lemma_filter_step;
use crate::history::{last_n, pick, select_history, since_filter, timestamps};
use crate::ranking::{above_floor, candidate_keys, is_stable_prefix, score_key_spec, semantic_matches};
use crate::records::{ChatHistoryEntry, KnowledgeEntry};

verus! {

/// The history chosen for the context, tagged with the tier it came from.
pub enum HistorySource {
    Semantic(Vec<ChatHistoryEntry>),
    Recency(Vec<ChatHistoryEntry>),
}

pub open spec fn source_entries(h: HistorySource) -> Seq<ChatHistoryEntry> {
    match h {
        HistorySource::Semantic(v) => v@,
        HistorySource::Recency(v) => v@,
    }
}

/// Whether the semantic tier is tried: a non-empty query and an API key.
pub fn wants_semantic(query: &Option<String>, api_key: &Option<String>) -> (r: bool)
    ensures
        r == (match (query, api_key) {
            (Some(q), Some(k)) => q@.len() > 0 && k@.len() > 0,
            _ => false,
        }),
{
    match (query, api_key) {
        (Some(q), Some(k)) => !q.as_str().is_empty() && !k.as_str().is_empty(),
        _ => false,
    }
}

/// The tier chosen: the semantic matches when that tier gave any, else the
/// recent entries. `semantic` is `None` when the tier was not tried or its
/// embedding call failed.
pub open spec fn choice_is_semantic(semantic: Option<Seq<ChatHistoryEntry>>) -> bool {
    semantic matches Some(m) && m.len() > 0
}

/// Chooses the history tier.
pub fn choose_history(semantic: Option<Vec<ChatHistoryEntry>>, recent: Vec<ChatHistoryEntry>) -> (r:
    HistorySource)
    ensures
        ({
            let s = match semantic {
                Some(m) => Some(m@),
                None => None,
            };
            if choice_is_semantic(s) {
                r is Semantic && source_entries(r) == s.unwrap()
            } else {
                r is Recency && source_entries(r) == recent@
            }
        }),
{
    match semantic {
        Some(m) => {
            if m.len() > 0 {
                HistorySource::Semantic(m)
            } else {
                HistorySource::Recency(recent)
            }
        },
        None => HistorySource::Recency(recent),
    }
}

/// Whether an entry is an answer or a summary, the kinds the recency tier uses.
pub open spec fn is_recap() -> spec_fn(ChatHistoryEntry) -> bool {
    |e: ChatHistoryEntry| e.entry_type@ == "answer"@ || e.entry_type@ == "summary"@
}

/// The recency tier: of the answers and summaries, the newest `limit`,
/// oldest first.
pub fn recent_history(entries: &Vec<ChatHistoryEntry>, limit: usize) -> (r: Vec<ChatHistoryEntry>)
    ensures
        ({
            let recaps = entries@.filter(is_recap());
            exists|order: Seq<usize>|
                is_stable_prefix(timestamps(recaps), false, recaps.len(), order) && r@ == last_n(
                    pick(recaps, order),
                    Some(limit),
                )
        }),
{
    let ghost pred = is_recap();
    let answer = String::from_str("answer");
    let summary = String::from_str("summary");
    let mut recaps: Vec<ChatHistoryEntry> = Vec::new();
    let mut i: usize = 0;
    proof {
        reveal(Seq::filter);
    }
    while i < entries.len()
        invariant
            i <= entries@.len(),
            pred == is_recap(),
            answer@ == "answer"@,
            summary@ == "summary"@,
            recaps@ == entries@.subrange(0, i as int).filter(pred),
        decreases entries@.len() - i,
    {
        let e = &entries[i];
        let keep = e.entry_type == answer || e.entry_type == summary;
        let ghost before = recaps@;
        if keep {
            recaps.push(e.duplicate());
        }
        proof {
            lemma_filter_step(entries@, i as int, pred);
        }
        i = i + 1;
    }
    assert(entries@.subrange(0, entries@.len() as int) =~= entries@);
    let r = select_history(&recaps, None, Some(limit));
    proof {
        reveal(Seq::filter);
        lemma_filter_all(recaps@);
    }
    r
}

proof fn lemma_filter_all(s: Seq<ChatHistoryEntry>)
    ensures
        s.filter(since_filter(None)) == s,
    decreases s.len(),
{
    reveal(Seq::filter);
    if s.len() > 0 {
        lemma_filter_all(s.drop_last());
        assert(s.drop_last().push(s.last()) =~= s);
    }
}

/// The semantic tier: the candidates whose similarity score lies above the
/// floor, best first, at most `top_k` of them. `scores[i]` is the bit pattern
/// of candidate `i`'s score, `None` when it has no embedding.
pub fn semantic_history(
    candidates: &Vec<ChatHistoryEntry>,
    scores: &Vec<Option<u32>>,
    top_k: usize,
    floor_bits: u32,
) -> (r: Vec<ChatHistoryEntry>)
    requires
        candidates@.len() == scores@.len(),
    ensures
        exists|order: Seq<usize>|
            is_stable_prefix(candidate_keys(scores@), true, top_k as nat, order) && r@ == pick(
                candidates@,
                order.filter(above_floor(candidate_keys(scores@), score_key_spec(floor_bits))),
            ),
{
    let picked = semantic_matches(scores, top_k, floor_bits);
    let ghost order = choose|order: Seq<usize>|
        is_stable_prefix(candidate_keys(scores@), true, top_k as nat, order) && picked@
            == order.filter(above_floor(candidate_keys(scores@), score_key_spec(floor_bits)));
    proof {
        assert forall|p: int| 0 <= p < picked@.len() implies picked@[p] < candidates@.len() by {
            let pred = above_floor(candidate_keys(scores@), score_key_spec(floor_bits));
            assert(order.filter(pred).contains(picked@[p]));
            order.lemma_filter_contains_rev(pred, picked@[p]);
        }
    }
    let mut r: Vec<ChatHistoryEntry> = Vec::new();
    let mut p: usize = 0;
    while p < picked.len()
        invariant
            p <= picked@.len(),
            forall|q: int| 0 <= q < picked@.len() ==> picked@[q] < candidates@.len(),
            r@ == pick(candidates@, picked@).subrange(0, p as int),
        decreases picked@.len() - p,
    {
        r.push(candidates[picked[p]].duplicate());
        assert(r@ =~= pick(candidates@, picked@).subrange(0, p + 1));
        p = p + 1;
    }
    assert(r@ =~= pick(candidates@, picked@));
    r
}

/// The meeting-brief section, left out when there is no brief or it is empty.
pub open spec fn brief_section(brief: Option<String>) -> Seq<char> {
    match brief {
        Some(b) => if b@.len() > 0 {
            "## Meeting Brief\n"@ + b@ + "\n\n"@
        } else {
            Seq::empty()
        },
        None => Seq::empty(),
    }
}

/// One `- content` line per nominated note, in order.
pub open spec fn note_lines(s: Seq<KnowledgeEntry>) -> Seq<char>
    decreases s.len(),
{
    if s.len() == 0 {
        Seq::empty()
    } else {
        note_lines(s.drop_last()) + if s.last().nominated {
            "- "@ + s.last().content@ + "\n"@
        } else {
            Seq::empty()
        }
    }
}

pub open spec fn nominated_count(s: Seq<KnowledgeEntry>) -> int
    decreases s.len(),
{
    if s.len() == 0 {
        0
    } else {
        nominated_count(s.drop_last()) + if s.last().nominated {
            1int
        } else {
            0
        }
    }
}

/// The knowledge section: the nominated notes, left out when there is none.
pub open spec fn knowledge_section(s: Seq<KnowledgeEntry>) -> Seq<char> {
    if nominated_count(s) > 0 {
        "## Knowledge Base\n"@ + note_lines(s) + "\n"@
    } else {
        Seq::empty()
    }
}

/// The last `n` lines (all of them when there are fewer).
pub open spec fn tail_of(lines: Seq<String>, n: nat) -> Seq<String> {
    if lines.len() > n {
        lines.subrange(lines.len() - n, lines.len() as int)
    } else {
        lines
    }
}

pub open spec fn text_lines(s: Seq<String>) -> Seq<char>
    decreases s.len(),
{
    if s.len() == 0 {
        Seq::empty()
    } else {
        text_lines(s.drop_last()) + s.last()@ + "\n"@
    }
}

/// The transcript section: the last `n` transcript lines in order, left out
/// when that tail is empty.
pub open spec fn transcript_section(lines: Seq<String>, n: nat) -> Seq<char> {
    if tail_of(lines, n).len() > 0 {
        "## Live Transcript\n"@ + text_lines(tail_of(lines, n)) + "\n"@
    } else {
        Seq::empty()
    }
}

/// One `[kind] content` line per history entry, in order.
pub open spec fn history_lines(s: Seq<ChatHistoryEntry>) -> Seq<char>
    decreases s.len(),
{
    if s.len() == 0 {
        Seq::empty()
    } else {
        history_lines(s.drop_last()) + "["@ + s.last().entry_type@ + "] "@ + s.last().content@
            + "\n"@
    }
}

/// The history section, left out when no entry was chosen.
pub open spec fn history_section(s: Seq<ChatHistoryEntry>) -> Seq<char> {
    if s.len() > 0 {
        "## Relevant History\n"@ + history_lines(s) + "\n"@
    } else {
        Seq::empty()
    }
}

/// The assembled context: brief, knowledge, transcript, history, in that order.
pub open spec fn context_text(
    brief: Option<String>,
    notes: Seq<KnowledgeEntry>,
    lines: Seq<String>,
    n: nat,
    history: Seq<ChatHistoryEntry>,
) -> Seq<char> {
    brief_section(brief) + knowledge_section(notes) + transcript_section(lines, n) + history_section(
        history,
    )
}

/// The assembled context and which sections it holds.
pub struct AssembledContext {
    pub context: String,
    pub has_brief: bool,
    pub has_knowledge: bool,
    pub has_transcript: bool,
    pub has_history: bool,
    /// Whether the history came from the semantic tier.
    pub semantic: bool,
}

fn note_block(notes: &Vec<KnowledgeEntry>) -> (r: (String, usize))
    ensures
        r.0@ == note_lines(notes@),
        r.1 == nominated_count(notes@),
{
    let mut text = String::new();
    let mut count: usize = 0;
    let mut i: usize = 0;
    proof {
        reveal_strlit("- ");
        reveal_strlit("\n");
    }
    while i < notes.len()
        invariant
            i <= notes@.len(),
            count <= i,
            text@ == note_lines(notes@.subrange(0, i as int)),
            count == nominated_count(notes@.subrange(0, i as int)),
        decreases notes@.len() - i,
    {
        let e = &notes[i];
        proof {
            let s = notes@.subrange(0, i + 1);
            assert(s.drop_last() =~= notes@.subrange(0, i as int));
            assert(s.last() == *e);
        }
        if e.nominated {
            text.append("- ");
            text.append(e.content.as_str());
            text.append("\n");
            count = count + 1;
        }
        proof {
            assert(text@ =~= note_lines(notes@.subrange(0, i + 1)));
        }
        i = i + 1;
    }
    assert(notes@.subrange(0, notes@.len() as int) =~= notes@);
    (text, count)
}

fn text_block(lines: &Vec<String>, start: usize) -> (r: String)
    requires
        start <= lines@.len(),
    ensures
        r@ == text_lines(lines@.subrange(start as int, lines@.len() as int)),
{
    let mut text = String::new();
    let mut i: usize = start;
    while i < lines.len()
        invariant
            start <= i <= lines@.len(),
            text@ == text_lines(lines@.subrange(start as int, i as int)),
        decreases lines@.len() - i,
    {
        proof {
            let s = lines@.subrange(start as int, i + 1);
            assert(s.drop_last() =~= lines@.subrange(start as int, i as int));
            assert(s.last() == lines@[i as int]);
        }
        text.append(lines[i].as_str());
        text.append("\n");
        i = i + 1;
    }
    text
}

fn history_block(entries: &Vec<ChatHistoryEntry>) -> (r: String)
    ensures
        r@ == history_lines(entries@),
{
    let mut text = String::new();
    let mut i: usize = 0;
    while i < entries.len()
        invariant
            i <= entries@.len(),
            text@ == history_lines(entries@.subrange(0, i as int)),
        decreases entries@.len() - i,
    {
        let e = &entries[i];
        proof {
            let s = entries@.subrange(0, i + 1);
            assert(s.drop_last() =~= entries@.subrange(0, i as int));
            assert(s.last() == *e);
        }
        text.append("[");
        text.append(e.entry_type.as_str());
        text.append("] ");
        text.append(e.content.as_str());
        text.append("\n");
        proof {
            assert(text@ =~= history_lines(entries@.subrange(0, i + 1)));
        }
        i = i + 1;
    }
    assert(entries@.subrange(0, entries@.len() as int) =~= entries@);
    text
}

fn brief_text(brief: &Option<String>) -> (r: String)
    ensures
        r@ == brief_section(*brief),
{
    let mut text = String::new();
    match brief {
        Some(b) => {
            if !b.as_str().is_empty() {
                text.append("## Meeting Brief\n");
                text.append(b.as_str());
                text.append("\n\n");
            }
        },
        None => {},
    }
    assert(text@ =~= brief_section(*brief));
    text
}

fn knowledge_text(notes: &Vec<KnowledgeEntry>) -> (r: String)
    ensures
        r@ == knowledge_section(notes@),
{
    let (lines, nominated) = note_block(notes);
    let mut text = String::new();
    if nominated > 0 {
        text.append("## Knowledge Base\n");
        text.append(lines.as_str());
        text.append("\n");
    }
    assert(text@ =~= knowledge_section(notes@));
    text
}

fn transcript_text(transcript: &Vec<String>, tail: usize) -> (r: String)
    ensures
        r@ == transcript_section(transcript@, tail as nat),
{
    let n = transcript.len();
    let start: usize = if n > tail {
        n - tail
    } else {
        0
    };
    let mut text = String::new();
    if start < n {
        text.append("## Live Transcript\n");
        text.append(text_block(transcript, start).as_str());
        text.append("\n");
    }
    assert(tail_of(transcript@, tail as nat) =~= transcript@.subrange(start as int, n as int));
    assert(text@ =~= transcript_section(transcript@, tail as nat));
    text
}

fn history_text(entries: &Vec<ChatHistoryEntry>) -> (r: String)
    ensures
        r@ == history_section(entries@),
{
    let mut text = String::new();
    if entries.len() > 0 {
        text.append("## Relevant History\n");
        text.append(history_block(entries).as_str());
        text.append("\n");
    }
    assert(text@ =~= history_section(entries@));
    text
}

/// Assembles the context from the meeting brief, the notes (only nominated
/// ones are used), the last `tail` transcript lines and the chosen history.
/// Assembly never fails.
pub fn assemble(
    brief: &Option<String>,
    notes: &Vec<KnowledgeEntry>,
    transcript: &Vec<String>,
    tail: usize,
    history: &HistorySource,
) -> (r: AssembledContext)
    ensures
        r.context@ == context_text(*brief, notes@, transcript@, tail as nat, source_entries(*history)),
        r.has_brief == (brief_section(*brief).len() > 0),
        r.has_knowledge == (knowledge_section(notes@).len() > 0),
        r.has_transcript == (transcript_section(transcript@, tail as nat).len() > 0),
        r.has_history == (history_section(source_entries(*history)).len() > 0),
        r.semantic == history is Semantic,
{
    let (entries, semantic) = match history {
        HistorySource::Semantic(v) => (v, true),
        HistorySource::Recency(v) => (v, false),
    };
    let mut context = brief_text(brief);
    let has_brief = !context.as_str().is_empty();
    let knowledge = knowledge_text(notes);
    let has_knowledge = !knowledge.as_str().is_empty();
    context.append(knowledge.as_str());
    let lines = transcript_text(transcript, tail);
    let has_transcript = !lines.as_str().is_empty();
    context.append(lines.as_str());
    let recalled = history_text(entries);
    let has_history = !recalled.as_str().is_empty();
    context.append(recalled.as_str());
    AssembledContext { context, has_brief, has_knowledge, has_transcript, has_history, semantic }
}

/// When the embedding call fails (or the semantic tier is not tried), the
/// recency tier is chosen, and the assembled context holds a history section
/// exactly when that tier found entries, ending the context.
pub proof fn lemma_failed_embedding_uses_recency(
    brief: Option<String>,
    notes: Seq<KnowledgeEntry>,
    lines: Seq<String>,
    n: nat,
    recent: Seq<ChatHistoryEntry>,
)
    ensures
        !choice_is_semantic(None),
        (history_section(recent).len() > 0) == (recent.len() > 0),
        ({
            let c = context_text(brief, notes, lines, n, recent);
            let h = history_section(recent);
            c.subrange(c.len() - h.len(), c.len() as int) == h
        }),
{
    reveal_strlit("## Relevant History\n");
    let c = context_text(brief, notes, lines, n, recent);
    let h = history_section(recent);
    let front = brief_section(brief) + knowledge_section(notes) + transcript_section(lines, n);
    assert(c == front + h);
    assert(c.subrange(front.len() as int, c.len() as int) =~= h);
}

} // verus!
