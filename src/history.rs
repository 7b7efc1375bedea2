//! Read views over the interaction history and the context snapshots.
use vstd::prelude::*;
use crate::seq_facts::lemma_filter_step;
use crate::ranking::{is_stable_prefix, stable_order};
use crate::records::{ChatHistoryEntry, ContextSnapshot};

verus! {

/// Whether an entry is at or after `since` (every entry when there is no bound).
pub open spec fn since_filter(since: Option<i64>) -> spec_fn(ChatHistoryEntry) -> bool {
    |e: ChatHistoryEntry|
        match since {
            Some(t) => e.timestamp >= t,
            None => true,
        }
}

pub open spec fn timestamps(s: Seq<ChatHistoryEntry>) -> Seq<i64> {
    Seq::new(s.len(), |i: int| s[i].timestamp)
}

/// The elements of `s` at the positions listed in `order`.
pub open spec fn pick<T>(s: Seq<T>, order: Seq<usize>) -> Seq<T> {
    Seq::new(order.len(), |p: int| s[order[p] as int])
}

/// The last `limit` elements of `s` (all of them when there is no limit or
/// `s` is not longer).
pub open spec fn last_n<T>(s: Seq<T>, limit: Option<usize>) -> Seq<T> {
    match limit {
        Some(m) => if s.len() > m {
            s.subrange(s.len() - m, s.len() as int)
        } else {
            s
        },
        None => s,
    }
}

/// The history view: the entries at or after `since`, oldest first (equal
/// timestamps in stored order), keeping the newest `limit` of them.
pub fn select_history(entries: &Vec<ChatHistoryEntry>, since: Option<i64>, limit: Option<usize>) -> (r:
    Vec<ChatHistoryEntry>)
    ensures
        ({
            let kept = entries@.filter(since_filter(since));
            exists|order: Seq<usize>|
                is_stable_prefix(timestamps(kept), false, kept.len(), order) && r@ == last_n(
                    pick(kept, order),
                    limit,
                )
        }),
{
    let ghost pred = since_filter(since);
    let mut kept: Vec<ChatHistoryEntry> = Vec::new();
    let mut i: usize = 0;
    proof {
        reveal(Seq::filter);
    }
    while i < entries.len()
        invariant
            i <= entries@.len(),
            pred == since_filter(since),
            kept@ == entries@.subrange(0, i as int).filter(pred),
        decreases entries@.len() - i,
    {
        let e = &entries[i];
        let keep = match since {
            Some(t) => e.timestamp >= t,
            None => true,
        };
        let ghost before = kept@;
        if keep {
            kept.push(e.duplicate());
        }
        proof {
            assert(pred(*e) == keep);
            lemma_filter_step(entries@, i as int, pred);
        }
        i = i + 1;
    }
    assert(entries@.subrange(0, entries@.len() as int) =~= entries@);
    let n = kept.len();
    let mut keys: Vec<i64> = Vec::new();
    let mut j: usize = 0;
    while j < n
        invariant
            n == kept@.len(),
            j <= n,
            keys@ == timestamps(kept@).subrange(0, j as int),
        decreases n - j,
    {
        keys.push(kept[j].timestamp);
        assert(keys@ =~= timestamps(kept@).subrange(0, j + 1));
        j = j + 1;
    }
    assert(keys@ =~= timestamps(kept@));
    let order = stable_order(&keys, false, n);
    let start: usize = match limit {
        Some(m) => if n > m {
            n - m
        } else {
            0
        },
        None => 0,
    };
    let mut r: Vec<ChatHistoryEntry> = Vec::new();
    let mut p: usize = start;
    while p < n
        invariant
            n == kept@.len(),
            order@.len() == n,
            start <= p <= n,
            forall|q: int| 0 <= q < n ==> order@[q] < n,
            r@ == pick(kept@, order@).subrange(start as int, p as int),
        decreases n - p,
    {
        r.push(kept[order[p]].duplicate());
        assert(r@ =~= pick(kept@, order@).subrange(start as int, p + 1));
        p = p + 1;
    }
    assert(r@ =~= last_n(pick(kept@, order@), limit));
    r
}

/// Total UTF-8 size, in bytes, of the entries' contents.
pub open spec fn content_bytes(s: Seq<ChatHistoryEntry>) -> int
    decreases s.len(),
{
    if s.len() == 0 {
        0
    } else {
        content_bytes(s.drop_last()) + vstd::utf8::encode_utf8(s.last().content@).len()
    }
}

/// The number of entries of kind `kind`.
pub open spec fn kind_count(s: Seq<ChatHistoryEntry>, kind: Seq<char>) -> int
    decreases s.len(),
{
    if s.len() == 0 {
        0
    } else {
        kind_count(s.drop_last(), kind) + if s.last().entry_type@ == kind {
            1int
        } else {
            0
        }
    }
}

/// Size figures of the interaction history.
#[derive(Debug, Clone, Copy, PartialEq, Eq)]
pub struct HistoryStats {
    pub total_entries: usize,
    /// Total size of the contents, in bytes.
    pub total_chars: usize,
    /// About four bytes per token.
    pub estimated_tokens: usize,
    pub transcript: usize,
    pub question: usize,
    pub answer: usize,
    pub summary: usize,
    pub idea: usize,
}

fn kind_is(entry_type: &String, kind: &str) -> (r: bool)
    ensures
        r == (entry_type@ == kind@),
{
    let k = kind.to_owned();
    *entry_type == k
}

/// Counts the entries, their content size and the entries of each kind.
pub fn chat_history_stats(entries: &Vec<ChatHistoryEntry>) -> (r: HistoryStats)
    requires
        content_bytes(entries@) <= usize::MAX,
    ensures
        r.total_entries == entries@.len(),
        r.total_chars == content_bytes(entries@),
        r.estimated_tokens == content_bytes(entries@) / 4,
        r.transcript == kind_count(entries@, "transcript"@),
        r.question == kind_count(entries@, "question"@),
        r.answer == kind_count(entries@, "answer"@),
        r.summary == kind_count(entries@, "summary"@),
        r.idea == kind_count(entries@, "idea"@),
{
    let mut r = HistoryStats {
        total_entries: entries.len(),
        total_chars: 0,
        estimated_tokens: 0,
        transcript: 0,
        question: 0,
        answer: 0,
        summary: 0,
        idea: 0,
    };
    let mut i: usize = 0;
    while i < entries.len()
        invariant
            i <= entries@.len(),
            r.total_entries == entries@.len(),
            content_bytes(entries@) <= usize::MAX,
            r.total_chars == content_bytes(entries@.subrange(0, i as int)),
            r.transcript == kind_count(entries@.subrange(0, i as int), "transcript"@),
            r.question == kind_count(entries@.subrange(0, i as int), "question"@),
            r.answer == kind_count(entries@.subrange(0, i as int), "answer"@),
            r.summary == kind_count(entries@.subrange(0, i as int), "summary"@),
            r.idea == kind_count(entries@.subrange(0, i as int), "idea"@),
            r.transcript + r.question + r.answer + r.summary + r.idea <= i,
        decreases entries@.len() - i,
    {
        let e = &entries[i];
        let ghost s = entries@.subrange(0, i + 1);
        proof {
            assert(s.drop_last() =~= entries@.subrange(0, i as int));
            lemma_content_bytes_prefix(entries@, i + 1);
            reveal_strlit("transcript");
            reveal_strlit("question");
            reveal_strlit("answer");
            reveal_strlit("summary");
            reveal_strlit("idea");
            assert(s.last() == *e);
            assert("transcript"@.len() == 10 && "question"@.len() == 8 && "answer"@.len() == 6
                && "summary"@.len() == 7 && "idea"@.len() == 4);
        }
        r.total_chars = r.total_chars + e.content.as_str().len();
        if kind_is(&e.entry_type, "transcript") {
            r.transcript = r.transcript + 1;
        } else if kind_is(&e.entry_type, "question") {
            r.question = r.question + 1;
        } else if kind_is(&e.entry_type, "answer") {
            r.answer = r.answer + 1;
        } else if kind_is(&e.entry_type, "summary") {
            r.summary = r.summary + 1;
        } else if kind_is(&e.entry_type, "idea") {
            r.idea = r.idea + 1;
        }
        i = i + 1;
    }
    assert(entries@.subrange(0, entries@.len() as int) =~= entries@);
    r.estimated_tokens = r.total_chars / 4;
    r
}

proof fn lemma_content_bytes_prefix(s: Seq<ChatHistoryEntry>, i: int)
    requires
        0 <= i <= s.len(),
    ensures
        content_bytes(s.subrange(0, i)) <= content_bytes(s),
    decreases s.len() - i,
{
    if i < s.len() {
        lemma_content_bytes_prefix(s, i + 1);
        assert(s.subrange(0, i + 1).drop_last() =~= s.subrange(0, i));
    } else {
        assert(s.subrange(0, i) =~= s);
    }
}

/// Whether `i` is the first position holding the greatest creation time.
pub open spec fn is_first_latest(s: Seq<ContextSnapshot>, i: int) -> bool {
    &&& 0 <= i < s.len()
    &&& forall|j: int| 0 <= j < s.len() ==> s[j].created_at <= s[i].created_at
    &&& forall|j: int| 0 <= j < i ==> s[j].created_at < s[i].created_at
}

/// The latest snapshot: the one with the greatest creation time, the first
/// stored of those when several share it; `None` when there is none.
pub fn latest_snapshot(snapshots: &Vec<ContextSnapshot>) -> (r: Option<ContextSnapshot>)
    ensures
        snapshots@.len() == 0 ==> r is None,
        snapshots@.len() > 0 ==> exists|i: int|
            is_first_latest(snapshots@, i) && r == Some(snapshots@[i]),
{
    if snapshots.len() == 0 {
        return None;
    }
    let mut best: usize = 0;
    let mut i: usize = 1;
    while i < snapshots.len()
        invariant
            0 < snapshots@.len(),
            best < i <= snapshots@.len(),
            forall|j: int| 0 <= j < i ==> snapshots@[j].created_at <= snapshots@[best as int].created_at,
            forall|j: int| 0 <= j < best ==> snapshots@[j].created_at < snapshots@[best as int].created_at,
        decreases snapshots@.len() - i,
    {
        if snapshots[i].created_at > snapshots[best].created_at {
            best = i;
        }
        i = i + 1;
    }
    assert(is_first_latest(snapshots@, best as int));
    Some(snapshots[best].duplicate())
}

pub open spec fn creation_times(s: Seq<ContextSnapshot>) -> Seq<i64> {
    Seq::new(s.len(), |i: int| s[i].created_at)
}

/// All snapshots, newest first; equal creation times keep their stored order.
pub fn snapshots_newest_first(snapshots: &Vec<ContextSnapshot>) -> (r: Vec<ContextSnapshot>)
    ensures
        exists|order: Seq<usize>|
            is_stable_prefix(creation_times(snapshots@), true, snapshots@.len(), order) && r@ == pick(
                snapshots@,
                order,
            ),
{
    let n = snapshots.len();
    let mut keys: Vec<i64> = Vec::new();
    let mut j: usize = 0;
    while j < n
        invariant
            n == snapshots@.len(),
            j <= n,
            keys@ == creation_times(snapshots@).subrange(0, j as int),
        decreases n - j,
    {
        keys.push(snapshots[j].created_at);
        assert(keys@ =~= creation_times(snapshots@).subrange(0, j + 1));
        j = j + 1;
    }
    assert(keys@ =~= creation_times(snapshots@));
    let order = stable_order(&keys, true, n);
    let mut r: Vec<ContextSnapshot> = Vec::new();
    let mut p: usize = 0;
    while p < n
        invariant
            n == snapshots@.len(),
            order@.len() == n,
            p <= n,
            forall|q: int| 0 <= q < n ==> order@[q] < n,
            r@ == pick(snapshots@, order@).subrange(0, p as int),
        decreases n - p,
    {
        r.push(snapshots[order[p]].duplicate());
        assert(r@ =~= pick(snapshots@, order@).subrange(0, p + 1));
        p = p + 1;
    }
    assert(r@ =~= pick(snapshots@, order@));
    r
}

} // verus!
