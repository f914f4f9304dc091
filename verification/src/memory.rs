//! Working and episodic memory for cognitive operations.

use vstd::prelude::*;
use vstd::string::*;

use crate::json::JsonValue;
use crate::table::NameTable;
use crate::multi_agent::{count_votes, votes_for};
use crate::planning::{list_contains, names_contain};
use crate::text::{decimal, decimal_string, join, lowercase, new_uuid, occurs_at, occurs_in, split_words, str_contains, string_views, to_lower, words};

verus! {

/// How many thoughts working memory keeps.
pub const MAX_THOUGHTS: usize = 10;

/// Working memory for short-term context and active reasoning.
pub struct WorkingMemory {
    current_focus: Option<String>,
    active_thoughts: Vec<String>,
    temporary_data: NameTable<JsonValue>,
    attention_stack: Vec<String>,
}

impl WorkingMemory {
    pub closed spec fn focus(&self) -> Option<String> {
        self.current_focus
    }

    pub closed spec fn thoughts(&self) -> Seq<String> {
        self.active_thoughts@
    }

    pub closed spec fn temporary(&self) -> Map<Seq<char>, JsonValue> {
        self.temporary_data.view_map()
    }

    pub closed spec fn attention(&self) -> Seq<String> {
        self.attention_stack@
    }

    /// At most [`MAX_THOUGHTS`] thoughts are kept.
    pub closed spec fn wf(&self) -> bool {
        &&& self.active_thoughts@.len() <= MAX_THOUGHTS
        &&& self.temporary_data.wf()
    }

    pub fn new() -> (m: Self)
        ensures
            m.wf(),
            m.focus() is None,
            m.thoughts().len() == 0,
            m.temporary() == Map::<Seq<char>, JsonValue>::empty(),
            m.attention().len() == 0,
    {
        WorkingMemory {
            current_focus: None,
            active_thoughts: Vec::new(),
            temporary_data: NameTable::new(),
            attention_stack: Vec::new(),
        }
    }

    /// Focus on something new; the previous focus, if any, goes onto the
    /// attention stack.
    pub fn set_focus(&mut self, focus: String)
        requires
            old(self).wf(),
        ensures
            final(self).wf(),
            final(self).focus() == Some(focus),
            old(self).focus() matches Some(f) ==> final(self).attention() == old(self).attention().push(f),
            old(self).focus() is None ==> final(self).attention() == old(self).attention(),
            final(self).thoughts() == old(self).thoughts(),
            final(self).temporary() == old(self).temporary(),
    {
        let previous = self.current_focus.take();
        match previous {
            Some(f) => self.attention_stack.push(f),
            None => {},
        }
        self.current_focus = Some(focus);
    }

    pub fn get_focus(&self) -> (r: Option<&String>)
        ensures
            match r {
                Some(f) => self.focus() == Some(*f),
                None => self.focus() is None,
            },
    {
        self.current_focus.as_ref()
    }

    /// Add a thought; past [`MAX_THOUGHTS`] the oldest is forgotten.
    pub fn add_thought(&mut self, thought: String)
        requires
            old(self).wf(),
        ensures
            final(self).wf(),
            old(self).thoughts().len() < MAX_THOUGHTS ==> final(self).thoughts() == old(self).thoughts().push(thought),
            old(self).thoughts().len() == MAX_THOUGHTS ==> final(self).thoughts()
                == old(self).thoughts().push(thought).drop_first(),
            final(self).thoughts().last() == thought,
            final(self).thoughts().len() == if old(self).thoughts().len() < MAX_THOUGHTS {
                old(self).thoughts().len() + 1
            } else {
                MAX_THOUGHTS as nat
            },
            final(self).focus() == old(self).focus(),
            final(self).attention() == old(self).attention(),
            final(self).temporary() == old(self).temporary(),
    {
        self.active_thoughts.push(thought);
        if self.active_thoughts.len() > MAX_THOUGHTS {
            let ghost pushed = self.active_thoughts@;
            self.active_thoughts.remove(0);
            proof {
                assert(self.active_thoughts@ =~= pushed.drop_first());
            }
        }
    }

    /// The thoughts kept, oldest first.
    pub fn get_recent_thoughts(&self) -> (r: &[String])
        ensures
            r@ == self.thoughts(),
    {
        self.active_thoughts.as_slice()
    }

    /// Store a value under a key, replacing an earlier one.
    pub fn store_temporary(&mut self, key: String, value: JsonValue)
        requires
            old(self).wf(),
        ensures
            final(self).wf(),
            final(self).temporary() == old(self).temporary().insert(key@, value),
            final(self).focus() == old(self).focus(),
            final(self).thoughts() == old(self).thoughts(),
            final(self).attention() == old(self).attention(),
    {
        self.temporary_data.insert(key, value);
    }

    /// The value stored under a key.
    pub fn retrieve_temporary(&self, key: &str) -> (r: Option<&JsonValue>)
        requires
            self.wf(),
        ensures
            match r {
                Some(v) => self.temporary().contains_key(key@) && *v == self.temporary()[key@],
                None => !self.temporary().contains_key(key@),
            },
    {
        self.temporary_data.get(key)
    }

    /// Forget everything.
    pub fn clear(&mut self)
        ensures
            final(self).wf(),
            final(self).focus() is None,
            final(self).thoughts().len() == 0,
            final(self).temporary() == Map::<Seq<char>, JsonValue>::empty(),
            final(self).attention().len() == 0,
    {
        self.current_focus = None;
        self.active_thoughts = Vec::new();
        self.temporary_data.clear();
        self.attention_stack = Vec::new();
    }
}

/// The current time in milliseconds since the Unix epoch (`chrono::Utc::now`).
#[verifier::external_body]
pub(crate) fn now_millis() -> i64 {
    chrono::Utc::now().timestamp_millis()
}

/// Individual episode in episodic memory. The timestamp is in milliseconds
/// since the Unix epoch.
#[derive(Debug)]
pub struct Episode {
    pub id: String,
    pub timestamp_ms: i64,
    pub context_summary: String,
    pub action_taken: String,
    pub outcome: String,
    pub success: bool,
    pub duration: std::time::Duration,
    pub metadata: NameTable<JsonValue>,
}

impl Episode {
    /// A new episode with a fresh id, stamped with the current time.
    pub fn new(
        context_summary: String,
        action_taken: String,
        outcome: String,
        success: bool,
        duration: std::time::Duration,
    ) -> (e: Self)
        ensures
            e.context_summary == context_summary,
            e.action_taken == action_taken,
            e.outcome == outcome,
            e.success == success,
            e.duration == duration,
            e.metadata.wf(),
            e.metadata.view_map() == Map::<Seq<char>, JsonValue>::empty(),
    {
        Episode {
            id: new_uuid(),
            timestamp_ms: now_millis(),
            context_summary,
            action_taken,
            outcome,
            success,
            duration,
            metadata: NameTable::new(),
        }
    }
}

/// The capacity of a new episodic memory.
pub const DEFAULT_MAX_EPISODES: usize = 100;

/// Episodic memory for storing execution experiences and outcomes.
pub struct EpisodicMemory {
    episodes: Vec<Episode>,
    max_episodes: usize,
}

/// An episode mentions a keyword: the lower-case summary or action contains
/// the lower-case keyword.
pub open spec fn mentions(e: Episode, keyword: Seq<char>) -> bool {
    occurs_in(lowercase(e.context_summary@), lowercase(keyword))
        || occurs_in(lowercase(e.action_taken@), lowercase(keyword))
}

/// An episode mentions some keyword of a list.
pub open spec fn mentions_any(e: Episode, keywords: Seq<String>) -> bool {
    exists|k: int| 0 <= k < keywords.len() && mentions(e, #[trigger] keywords[k]@)
}

impl EpisodicMemory {
    pub closed spec fn stored(&self) -> Seq<Episode> {
        self.episodes@
    }

    pub closed spec fn capacity(&self) -> usize {
        self.max_episodes
    }

    /// No more episodes than the capacity.
    pub open spec fn wf(&self) -> bool {
        self.stored().len() <= self.capacity()
    }

    /// An empty memory of capacity [`DEFAULT_MAX_EPISODES`].
    pub fn new() -> (m: Self)
        ensures
            m.wf(),
            m.stored().len() == 0,
            m.capacity() == DEFAULT_MAX_EPISODES,
    {
        EpisodicMemory { episodes: Vec::new(), max_episodes: DEFAULT_MAX_EPISODES }
    }

    /// An empty memory of the given capacity.
    pub fn with_capacity(max_episodes: usize) -> (m: Self)
        ensures
            m.wf(),
            m.stored().len() == 0,
            m.capacity() == max_episodes,
    {
        EpisodicMemory { episodes: Vec::new(), max_episodes }
    }

    /// The episodes kept, oldest first.
    pub fn episodes(&self) -> (r: &[Episode])
        ensures
            r@ == self.stored(),
    {
        self.episodes.as_slice()
    }

    /// Record an episode; past the capacity the oldest is forgotten.
    pub fn add_episode(&mut self, episode: Episode)
        requires
            old(self).wf(),
        ensures
            final(self).wf(),
            final(self).capacity() == old(self).capacity(),
            old(self).stored().len() < old(self).capacity() ==> final(self).stored()
                == old(self).stored().push(episode),
            old(self).stored().len() == old(self).capacity() ==> final(self).stored()
                == old(self).stored().push(episode).drop_first(),
            old(self).capacity() > 0 ==> final(self).stored().last() == episode,
    {
        self.episodes.push(episode);
        if self.episodes.len() > self.max_episodes {
            let ghost pushed = self.episodes@;
            self.episodes.remove(0);
            proof {
                assert(self.episodes@ =~= pushed.drop_first());
            }
        }
    }

    /// The most recent `count` episodes (all of them when fewer), oldest first.
    pub fn get_recent_episodes(&self, count: usize) -> (r: &[Episode])
        ensures
            self.stored().len() > count ==> r@ == self.stored().subrange(self.stored().len() - count,
                self.stored().len() as int),
            self.stored().len() <= count ==> r@ == self.stored(),
    {
        let len = self.episodes.len();
        let start = if len > count { len - count } else { 0 };
        let r = vstd::slice::slice_subrange(self.episodes.as_slice(), start, len);
        proof {
            if len <= count {
                assert(self.episodes@.subrange(0, len as int) =~= self.episodes@);
            }
        }
        r
    }

    /// The positions of the episodes that mention some keyword, in order.
    pub fn find_similar_episodes(&self, context_keywords: &[String]) -> (r: Vec<usize>)
        ensures
            forall|i: int| 0 <= i < r@.len() ==> r@[i] < self.stored().len(),
            forall|i: int, j: int| 0 <= i < j < r@.len() ==> r@[i] < r@[j],
            forall|e: int| 0 <= e < self.stored().len() ==> (mentions_any(self.stored()[e], context_keywords@)
                <==> r@.contains(e as usize)),
    {
        let mut lowered: Vec<String> = Vec::new();
        let mut k: usize = 0;
        while k < context_keywords.len()
            invariant
                k <= context_keywords@.len(),
                lowered@.len() == k,
                forall|j: int| 0 <= j < k ==> lowered@[j]@ == lowercase(context_keywords@[j]@),
            decreases context_keywords@.len() - k,
        {
            lowered.push(to_lower(context_keywords[k].as_str()));
            k = k + 1;
        }
        let mut out: Vec<usize> = Vec::new();
        let mut e: usize = 0;
        while e < self.episodes.len()
            invariant
                e <= self.episodes@.len(),
                lowered@.len() == context_keywords@.len(),
                forall|j: int| 0 <= j < lowered@.len() ==> lowered@[j]@ == lowercase(context_keywords@[j]@),
                forall|i: int| 0 <= i < out@.len() ==> out@[i] < e,
                forall|i: int, j: int| 0 <= i < j < out@.len() ==> out@[i] < out@[j],
                forall|x: int| 0 <= x < e ==> (mentions_any(self.episodes@[x], context_keywords@)
                    <==> out@.contains(x as usize)),
            decreases self.episodes@.len() - e,
        {
            let ep = &self.episodes[e];
            let summary = to_lower(ep.context_summary.as_str());
            let action = to_lower(ep.action_taken.as_str());
            let mut found = false;
            let mut k: usize = 0;
            while k < lowered.len()
                invariant
                    k <= lowered@.len(),
                    lowered@.len() == context_keywords@.len(),
                    forall|j: int| 0 <= j < lowered@.len() ==> lowered@[j]@ == lowercase(context_keywords@[j]@),
                    summary@ == lowercase(ep.context_summary@),
                    action@ == lowercase(ep.action_taken@),
                    found == exists|j: int| 0 <= j < k && mentions(*ep, #[trigger] context_keywords@[j]@),
                decreases lowered@.len() - k,
            {
                if str_contains(summary.as_str(), lowered[k].as_str())
                    || str_contains(action.as_str(), lowered[k].as_str()) {
                    found = true;
                }
                proof {
                    if mentions(*ep, context_keywords@[k as int]@) {
                        assert(exists|j: int| 0 <= j < k + 1 && mentions(*ep, #[trigger] context_keywords@[j]@));
                    }
                    if exists|j: int| 0 <= j < k + 1 && mentions(*ep, #[trigger] context_keywords@[j]@) {
                        let j = choose|j: int| 0 <= j < k + 1 && mentions(*ep, #[trigger] context_keywords@[j]@);
                        if j < k {
                            assert(exists|j2: int| 0 <= j2 < k && mentions(*ep, #[trigger] context_keywords@[j2]@));
                        }
                    }
                }
                k = k + 1;
            }
            let ghost before = out@;
            if found {
                out.push(e);
            }
            proof {
                assert forall|x: int| 0 <= x < e + 1 implies (mentions_any(self.episodes@[x], context_keywords@)
                    <==> out@.contains(x as usize)) by {
                    if x < e {
                        if before.contains(x as usize) {
                            let w = choose|w: int| 0 <= w < before.len() && before[w] == x as usize;
                            assert(out@[w] == before[w]);
                        }
                        if out@.contains(x as usize) {
                            let w = choose|w: int| 0 <= w < out@.len() && out@[w] == x as usize;
                            if w < before.len() {
                                assert(out@[w] == before[w]);
                            }
                        }
                    } else {
                        if found {
                            assert(out@[out@.len() - 1] == e);
                        } else {
                            if out@.contains(x as usize) {
                                let w = choose|w: int| 0 <= w < out@.len() && out@[w] == x as usize;
                                assert(before[w] < e);
                            }
                        }
                    }
                }
            }
            e = e + 1;
        }
        out
    }
}

/// Working memory never holds more than [`MAX_THOUGHTS`] thoughts.
pub proof fn working_memory_is_bounded(m: WorkingMemory)
    requires
        m.wf(),
    ensures
        m.thoughts().len() <= MAX_THOUGHTS,
{
}

/// Adding a thought keeps the newest thought last, and forgets the oldest
/// only when memory was full.
pub proof fn newest_thought_is_kept(before: Seq<String>, after: Seq<String>, thought: String)
    requires
        before.len() <= MAX_THOUGHTS,
        before.len() < MAX_THOUGHTS ==> after == before.push(thought),
        before.len() == MAX_THOUGHTS ==> after == before.push(thought).drop_first(),
    ensures
        after.len() > 0,
        after.last() == thought,
        after.len() == if before.len() < MAX_THOUGHTS { before.len() + 1 } else { MAX_THOUGHTS as nat },
{
}

/// The number of bytes a character takes in UTF-8.
pub open spec fn utf8_width(c: char) -> nat {
    let v = c as u32;
    if v < 0x80 {
        1
    } else if v < 0x800 {
        2
    } else if v < 0x10000 {
        3
    } else {
        4
    }
}

/// The number of bytes a text takes in UTF-8, as `str::len` counts it.
pub open spec fn utf8_len(s: Seq<char>) -> nat
    decreases s.len(),
{
    if s.len() == 0 {
        0
    } else {
        utf8_len(s.drop_last()) + utf8_width(s.last())
    }
}

/// Whether a text takes more than three bytes in UTF-8.
fn longer_than_three_bytes(s: &str) -> (b: bool)
    ensures
        b == (utf8_len(s@) > 3),
{
    let cs = crate::text::chars_of(s);
    let mut total: u128 = 0;
    let mut i: usize = 0;
    assert(cs@.subrange(0, 0) =~= Seq::<char>::empty());
    while i < cs.len()
        invariant
            cs@ == s@,
            i <= cs@.len(),
            total == utf8_len(cs@.subrange(0, i as int)),
            total <= 4 * i,
        decreases cs@.len() - i,
    {
        assert(cs@.subrange(0, i + 1).drop_last() =~= cs@.subrange(0, i as int));
        let v = cs[i] as u32;
        let w: u128 = if v < 0x80 {
            1
        } else if v < 0x800 {
            2
        } else if v < 0x10000 {
            3
        } else {
            4
        };
        total = total + w;
        i = i + 1;
    }
    assert(cs@.subrange(0, i as int) =~= cs@);
    total > 3
}

/// The words of an action that count towards a pattern: each word in lower
/// case, when it takes more than three bytes.
pub open spec fn long_words(ws: Seq<Seq<char>>) -> Seq<Seq<char>>
    decreases ws.len(),
{
    if ws.len() == 0 {
        Seq::empty()
    } else {
        long_words(ws.drop_last()) + if utf8_len(lowercase(ws.last())) > 3 {
            seq![lowercase(ws.last())]
        } else {
            Seq::empty()
        }
    }
}

/// The counted words of all successful episodes, in order.
pub open spec fn success_words(eps: Seq<Episode>) -> Seq<Seq<char>>
    decreases eps.len(),
{
    if eps.len() == 0 {
        Seq::empty()
    } else {
        success_words(eps.drop_last()) + if eps.last().success {
            long_words(words(eps.last().action_taken@))
        } else {
            Seq::empty()
        }
    }
}

/// The number of successful episodes.
pub open spec fn success_count(eps: Seq<Episode>) -> nat
    decreases eps.len(),
{
    if eps.len() == 0 {
        0
    } else {
        success_count(eps.drop_last()) + if eps.last().success { 1nat } else { 0nat }
    }
}

/// The distinct words of a list, in the order they first occur.
pub open spec fn first_occurrences(ws: Seq<Seq<char>>) -> Seq<Seq<char>>
    decreases ws.len(),
{
    if ws.len() == 0 {
        Seq::empty()
    } else if ws.drop_last().contains(ws.last()) {
        first_occurrences(ws.drop_last())
    } else {
        first_occurrences(ws.drop_last()).push(ws.last())
    }
}

/// The text that reports a pattern.
pub open spec fn pattern_message(word: Seq<char>, percent: nat) -> Seq<char> {
    "Successful pattern: "@ + word + " (used in "@ + decimal(percent) + "% of successes)"@
}

/// The reports for the distinct words `ds` that more than half of the `n`
/// successes use, among all counted words `all`.
pub open spec fn pattern_messages(ds: Seq<Seq<char>>, all: Seq<Seq<char>>, n: nat) -> Seq<Seq<char>>
    decreases ds.len(),
{
    if ds.len() == 0 {
        Seq::empty()
    } else {
        let c = votes_for(all, ds.last());
        pattern_messages(ds.drop_last(), all, n) + if c > n / 2 {
            seq![pattern_message(ds.last(), (c * 100) / n)]
        } else {
            Seq::empty()
        }
    }
}

proof fn lemma_votes_bounded(all: Seq<Seq<char>>, w: Seq<char>)
    ensures
        votes_for(all, w) <= all.len(),
    decreases all.len(),
{
    if all.len() > 0 {
        lemma_votes_bounded(all.drop_last(), w);
    }
}

/// The counted, lower-case words of one action.
fn long_words_of(action: &str) -> (r: Vec<String>)
    ensures
        string_views(r@) == long_words(words(action@)),
{
    let ws = split_words(action);
    let ghost wv = string_views(ws@);
    assert(wv.len() == ws@.len());
    let mut r: Vec<String> = Vec::new();
    let mut i: usize = 0;
    assert(string_views(r@) =~= Seq::empty());
    assert(wv.subrange(0, 0) =~= Seq::<Seq<char>>::empty());
    while i < ws.len()
        invariant
            i <= ws@.len(),
            wv == string_views(ws@),
            wv.len() == ws@.len(),
            string_views(r@) == long_words(wv.subrange(0, i as int)),
        decreases ws@.len() - i,
    {
        assert(wv.subrange(0, i + 1).drop_last() =~= wv.subrange(0, i as int));
        assert(wv.subrange(0, i + 1).last() == ws@[i as int]@);
        let lw = to_lower(ws[i].as_str());
        let ghost before = string_views(r@);
        if longer_than_three_bytes(lw.as_str()) {
            r.push(lw);
            assert(string_views(r@) =~= before + seq![lw@]);
        } else {
            assert(before + Seq::<Seq<char>>::empty() =~= before);
        }
        i = i + 1;
    }
    assert(wv.subrange(0, i as int) =~= wv);
    r
}

/// The patterns shared by most successful episodes: each word (in lower
/// case, over three bytes) of the successful episodes' actions that more
/// than half of the successes' words count, in the order words first occur,
/// with its share of successes in percent; nothing when no episode
/// succeeded.
pub fn analyze_success_patterns(episodes: &[Episode]) -> (r: Vec<String>)
    requires
        success_words(episodes@).len() * 100 <= usize::MAX,
    ensures
        success_count(episodes@) == 0 ==> r@.len() == 0,
        success_count(episodes@) > 0 ==> string_views(r@) == pattern_messages(
            first_occurrences(success_words(episodes@)),
            success_words(episodes@),
            success_count(episodes@),
        ),
{
    let mut n: usize = 0;
    let mut all: Vec<String> = Vec::new();
    let mut i: usize = 0;
    assert(episodes@.subrange(0, 0) =~= Seq::<Episode>::empty());
    assert(string_views(all@) =~= Seq::empty());
    while i < episodes.len()
        invariant
            i <= episodes@.len(),
            n == success_count(episodes@.subrange(0, i as int)),
            n <= i,
            string_views(all@) == success_words(episodes@.subrange(0, i as int)),
            success_words(episodes@).len() * 100 <= usize::MAX,
        decreases episodes@.len() - i,
    {
        let ghost pre = episodes@.subrange(0, i as int);
        let ghost cur = episodes@.subrange(0, i + 1);
        assert(cur.drop_last() =~= pre);
        assert(cur.last() == episodes@[i as int]);
        if episodes[i].success {
            let lw = long_words_of(episodes[i].action_taken.as_str());
            let ghost before = string_views(all@);
            let mut k: usize = 0;
            while k < lw.len()
                invariant
                    k <= lw@.len(),
                    string_views(all@) == before + string_views(lw@).subrange(0, k as int),
                decreases lw@.len() - k,
            {
                let ghost prev = string_views(all@);
                all.push(lw[k].clone());
                let ghost x = lw@[k as int]@;
                assert(string_views(all@) =~= prev.push(x));
                assert(string_views(lw@).subrange(0, k + 1) =~= string_views(lw@).subrange(0, k as int).push(x));
                assert(before + string_views(lw@).subrange(0, k as int).push(x) =~= (before + string_views(lw@).subrange(
                    0,
                    k as int,
                )).push(x));
                k = k + 1;
            }
            assert(string_views(lw@).subrange(0, k as int) =~= string_views(lw@));
            n = n + 1;
        } else {
            assert(string_views(all@) + Seq::<Seq<char>>::empty() =~= string_views(all@));
        }
        i = i + 1;
    }
    assert(episodes@.subrange(0, i as int) =~= episodes@);
    if n == 0 {
        return Vec::new();
    }
    let ghost av = string_views(all@);
    assert(av.len() == all@.len());
    // distinct words, in the order they first occur
    let mut distinct: Vec<String> = Vec::new();
    let mut j: usize = 0;
    assert(av.subrange(0, 0) =~= Seq::<Seq<char>>::empty());
    assert(string_views(distinct@) =~= Seq::empty());
    while j < all.len()
        invariant
            j <= all@.len(),
            av == string_views(all@),
            av.len() == all@.len(),
            string_views(distinct@) == first_occurrences(av.subrange(0, j as int)),
            forall|x: Seq<char>| names_contain(distinct@, x) <==> av.subrange(0, j as int).contains(x),
        decreases all@.len() - j,
    {
        let ghost pre = av.subrange(0, j as int);
        let ghost cur = av.subrange(0, j + 1);
        assert(cur.drop_last() =~= pre);
        assert(cur.last() == all@[j as int]@);
        let seen = list_contains(&distinct, all[j].as_str());
        let ghost before = distinct@;
        assert(forall|x: Seq<char>| names_contain(before, x) <==> pre.contains(x));
        if !seen {
            distinct.push(all[j].clone());
            assert(string_views(distinct@) =~= string_views(before).push(all@[j as int]@));
        }
        assert forall|x: Seq<char>| names_contain(distinct@, x) <==> cur.contains(x) by {
            if cur.contains(x) {
                let w = choose|w: int| 0 <= w < cur.len() && cur[w] == x;
                if w < j {
                    assert(pre[w] == x);
                    assert(pre.contains(x));
                    let q = choose|q: int| 0 <= q < before.len() && before[q]@ == x;
                    assert(distinct@[q] == before[q]);
                } else if !seen {
                    assert(distinct@[before.len() as int]@ == x);
                }
            }
            if names_contain(distinct@, x) {
                let q = choose|q: int| 0 <= q < distinct@.len() && distinct@[q]@ == x;
                if q < before.len() {
                    assert(before[q] == distinct@[q]);
                    assert(names_contain(before, x));
                    let w = choose|w: int| 0 <= w < pre.len() && pre[w] == x;
                    assert(cur[w] == x);
                } else {
                    assert(cur[j as int] == x);
                }
            }
        }
        j = j + 1;
    }
    assert(av.subrange(0, j as int) =~= av);
    let ghost dv = string_views(distinct@);
    assert(dv.len() == distinct@.len());
    let mut out: Vec<String> = Vec::new();
    let mut k: usize = 0;
    assert(dv.subrange(0, 0) =~= Seq::<Seq<char>>::empty());
    assert(string_views(out@) =~= Seq::empty());
    while k < distinct.len()
        invariant
            k <= distinct@.len(),
            n > 0,
            n == success_count(episodes@),
            av == string_views(all@),
            av == success_words(episodes@),
            av.len() * 100 <= usize::MAX,
            dv == string_views(distinct@),
            dv.len() == distinct@.len(),
            string_views(out@) == pattern_messages(dv.subrange(0, k as int), av, n as nat),
        decreases distinct@.len() - k,
    {
        let ghost pre = dv.subrange(0, k as int);
        let ghost cur = dv.subrange(0, k + 1);
        assert(cur.drop_last() =~= pre);
        assert(cur.last() == distinct@[k as int]@);
        let c = count_votes(&all, distinct[k].as_str());
        proof {
            lemma_votes_bounded(av, distinct@[k as int]@);
        }
        let ghost before = string_views(out@);
        if c > n / 2 {
            let percent = (c * 100) / n;
            let a = join("Successful pattern: ", distinct[k].as_str());
            let b = join(a.as_str(), " (used in ");
            let d = join(b.as_str(), decimal_string(percent as u64).as_str());
            let m = join(d.as_str(), "% of successes)");
            out.push(m);
            assert(string_views(out@) =~= before + seq![m@]);
        } else {
            assert(before + Seq::<Seq<char>>::empty() =~= before);
        }
        k = k + 1;
    }
    assert(dv.subrange(0, k as int) =~= dv);
    out
}

/// The names related to a concept: for each relation, in order, the other
/// end of a relation that starts or ends at the concept.
pub open spec fn related_names(relations: Seq<(String, String)>, name: Seq<char>) -> Seq<Seq<char>>
    decreases relations.len(),
{
    if relations.len() == 0 {
        Seq::empty()
    } else {
        let (from, to) = relations.last();
        related_names(relations.drop_last(), name) + if from@ == name {
            seq![to@]
        } else if to@ == name {
            seq![from@]
        } else {
            Seq::empty()
        }
    }
}

/// The names related to a concept through some relations (each a pair of
/// the names it links).
pub fn related_concept_names(relations: &Vec<(String, String)>, concept_name: &str) -> (r: Vec<String>)
    ensures
        string_views(r@) == related_names(relations@, concept_name@),
{
    let mut r: Vec<String> = Vec::new();
    let mut i: usize = 0;
    assert(relations@.subrange(0, 0) =~= Seq::<(String, String)>::empty());
    assert(string_views(r@) =~= Seq::empty());
    while i < relations.len()
        invariant
            i <= relations@.len(),
            string_views(r@) == related_names(relations@.subrange(0, i as int), concept_name@),
        decreases relations@.len() - i,
    {
        let ghost cur = relations@.subrange(0, i + 1);
        assert(cur.drop_last() =~= relations@.subrange(0, i as int));
        assert(cur.last() == relations@[i as int]);
        let ghost before = string_views(r@);
        if crate::text::str_eq(relations[i].0.as_str(), concept_name) {
            r.push(relations[i].1.clone());
            assert(string_views(r@) =~= before + seq![relations@[i as int].1@]);
        } else if crate::text::str_eq(relations[i].1.as_str(), concept_name) {
            r.push(relations[i].0.clone());
            assert(string_views(r@) =~= before + seq![relations@[i as int].0@]);
        } else {
            assert(before + Seq::<Seq<char>>::empty() =~= before);
        }
        i = i + 1;
    }
    assert(relations@.subrange(0, i as int) =~= relations@);
    r
}

/// A pattern is triggered by some keyword: one of its triggers, in lower
/// case, contains the keyword in lower case.
pub open spec fn triggered(triggers: Seq<String>, keywords: Seq<String>) -> bool {
    exists|k: int, t: int|
        0 <= k < keywords.len() && 0 <= t < triggers.len() && occurs_in(
            lowercase(#[trigger] triggers[t]@),
            lowercase(#[trigger] keywords[k]@),
        )
}

fn is_triggered(triggers: &Vec<String>, keywords: &[String]) -> (b: bool)
    ensures
        b == triggered(triggers@, keywords@),
{
    let mut k: usize = 0;
    while k < keywords.len()
        invariant
            k <= keywords@.len(),
            forall|a: int, t: int|
                0 <= a < k && 0 <= t < triggers@.len() ==> !occurs_in(
                    lowercase(#[trigger] triggers@[t]@),
                    lowercase(#[trigger] keywords@[a]@),
                ),
        decreases keywords@.len() - k,
    {
        let kw = to_lower(keywords[k].as_str());
        let mut t: usize = 0;
        while t < triggers.len()
            invariant
                k < keywords@.len(),
                kw@ == lowercase(keywords@[k as int]@),
                t <= triggers@.len(),
                forall|a: int, u: int|
                    0 <= a < k && 0 <= u < triggers@.len() ==> !occurs_in(
                        lowercase(#[trigger] triggers@[u]@),
                        lowercase(#[trigger] keywords@[a]@),
                    ),
                forall|u: int| 0 <= u < t ==> !occurs_in(lowercase(#[trigger] triggers@[u]@), kw@),
            decreases triggers@.len() - t,
        {
            let tw = to_lower(triggers[t].as_str());
            if str_contains(tw.as_str(), kw.as_str()) {
                assert(occurs_in(lowercase(triggers@[t as int]@), lowercase(keywords@[k as int]@)));
                return true;
            }
            t = t + 1;
        }
        k = k + 1;
    }
    false
}

/// The positions of the patterns (given by their triggers) that some keyword
/// triggers, in order.
pub fn matching_patterns(pattern_triggers: &Vec<Vec<String>>, keywords: &[String]) -> (r: Vec<usize>)
    ensures
        forall|j: int| 0 <= j < r@.len() ==> r@[j] < pattern_triggers@.len(),
        forall|i: int, j: int| 0 <= i < j < r@.len() ==> r@[i] < r@[j],
        forall|p: int| 0 <= p < pattern_triggers@.len() ==> (triggered(pattern_triggers@[p]@, keywords@)
            <==> r@.contains(p as usize)),
{
    let mut r: Vec<usize> = Vec::new();
    let mut p: usize = 0;
    while p < pattern_triggers.len()
        invariant
            p <= pattern_triggers@.len(),
            forall|j: int| 0 <= j < r@.len() ==> r@[j] < p,
            forall|i: int, j: int| 0 <= i < j < r@.len() ==> r@[i] < r@[j],
            forall|q: int| 0 <= q < p ==> (triggered(pattern_triggers@[q]@, keywords@) <==> r@.contains(q as usize)),
        decreases pattern_triggers@.len() - p,
    {
        let ghost before = r@;
        if is_triggered(&pattern_triggers[p], keywords) {
            r.push(p);
            assert forall|q: int| 0 <= q <= p implies (triggered(pattern_triggers@[q]@, keywords@) <==> r@.contains(q as usize)) by {
                if q < p {
                    if before.contains(q as usize) {
                        let w = choose|w: int| 0 <= w < before.len() && before[w] == q as usize;
                        assert(r@[w] == q as usize);
                    }
                    if r@.contains(q as usize) {
                        let w = choose|w: int| 0 <= w < r@.len() && r@[w] == q as usize;
                        if w == before.len() {
                        } else {
                            assert(before[w] == q as usize);
                        }
                    }
                } else {
                    assert(r@[before.len() as int] == p);
                }
            }
        } else {
            assert(!r@.contains(p as usize));
        }
        p = p + 1;
    }
    r
}


/// A stored episode is recalled for a keyword list as soon as the lower-case
/// form of its action contains the lower-case form of one of the keywords,
/// whatever its summary says; likewise when its summary contains it.
pub proof fn recall_by_summary_or_action(
    m: EpisodicMemory,
    keywords: Seq<String>,
    e: int,
    k: int,
    p: Seq<char>,
    q: Seq<char>,
)
    requires
        0 <= e < m.stored().len(),
        0 <= k < keywords.len(),
    ensures
        lowercase(m.stored()[e].action_taken@) == p + lowercase(keywords[k]@) + q
            ==> mentions_any(m.stored()[e], keywords),
        lowercase(m.stored()[e].context_summary@) == p + lowercase(keywords[k]@) + q
            ==> mentions_any(m.stored()[e], keywords),
{
    let ep = m.stored()[e];
    let kw = lowercase(keywords[k]@);
    if lowercase(ep.action_taken@) == p + kw + q {
        assert(lowercase(ep.action_taken@).subrange(p.len() as int, p.len() + kw.len() as int) =~= kw);
        assert(occurs_at(lowercase(ep.action_taken@), kw, p.len() as int));
        assert(mentions(ep, keywords[k]@));
    }
    if lowercase(ep.context_summary@) == p + kw + q {
        assert(lowercase(ep.context_summary@).subrange(p.len() as int, p.len() + kw.len() as int) =~= kw);
        assert(occurs_at(lowercase(ep.context_summary@), kw, p.len() as int));
        assert(mentions(ep, keywords[k]@));
    }
}

} // verus!
