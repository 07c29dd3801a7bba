//! Long-term memory of a user: context, conversation history and facts,
//! and the updates a model extracts from conversations.
//!
//! A fact's confidence, a fraction between 0 and 1, is held in
//! millionths (900000 stands for 0.9); its creation time in
//! milliseconds since the Unix epoch.
use crate::error::HarnessError;
use crate::ids::new_uuid_v4;
use crate::messages::{Content, ContentModel, content_text};
use crate::models::base::{Message, MessageModel, MessageRole, ModelRequest, message_views, opt_view, plain_message};
use crate::strmap::StrMap;
use crate::text::{concat2, concat3, join, join_strings, owned, str_eq, views};
use vstd::prelude::*;

verus! {

/// The current time, in milliseconds since the Unix epoch, read as
/// `chrono::Utc::now` reads it but without its panic: the system clock's
/// time since the epoch (`SystemTime::duration_since`), made a
/// `chrono::DateTime` by `DateTime::from_timestamp`.  `None` when the
/// clock reads before the epoch or after the last instant chrono can
/// hold; otherwise the time lies between them.  Nothing else is stated
/// of it.
#[verifier::external_body]
fn now_millis() -> (r: Option<i64>)
    ensures
        r matches Some(t) ==> 0 <= t <= latest_ms(),
{
    let d = std::time::SystemTime::now().duration_since(std::time::UNIX_EPOCH).ok()?;
    let secs = i64::try_from(d.as_secs()).ok()?;
    chrono::DateTime::from_timestamp(secs, d.subsec_nanos()).map(|t| t.timestamp_millis())
}

/// What is known of the user's situation.
#[derive(Debug)]
pub struct UserContext {
    /// Work: projects, role.
    pub work_context: Option<String>,
    /// Personal: preferences, habits.
    pub personal_context: Option<String>,
    /// What matters now.
    pub top_of_mind: Option<String>,
}

impl Default for UserContext {
    fn default() -> (c: Self)
        ensures
            c.work_context is None,
            c.personal_context is None,
            c.top_of_mind is None,
    {
        UserContext { work_context: None, personal_context: None, top_of_mind: None }
    }
}

/// Summaries of past conversations.
#[derive(Debug)]
pub struct ConversationHistory {
    /// The last months.
    pub recent_months: Option<String>,
    /// Earlier.
    pub earlier_context: Option<String>,
    /// Long-term background.
    pub long_term_background: Option<String>,
}

impl Default for ConversationHistory {
    fn default() -> (c: Self)
        ensures
            c.recent_months is None,
            c.earlier_context is None,
            c.long_term_background is None,
    {
        ConversationHistory { recent_months: None, earlier_context: None, long_term_background: None }
    }
}

/// The kind of a fact.
#[derive(Debug, Clone, Copy, PartialEq, Eq, Structural)]
pub enum FactCategory {
    /// A preference.
    Preference,
    /// Something known.
    Knowledge,
    /// Context.
    Context,
    /// A behavior.
    Behavior,
    /// A goal.
    Goal,
}

/// Where a fact comes from.
#[derive(Debug, Clone, Copy, PartialEq, Eq, Structural)]
pub enum FactSource {
    /// A conversation.
    Conversation,
    /// The user said so.
    Explicit,
    /// It was inferred.
    Inferred,
    /// Elsewhere.
    External,
}

/// A fact about the user.
#[derive(Debug)]
pub struct Fact {
    /// Its id.
    pub id: String,
    /// What it says.
    pub content: String,
    /// Its kind.
    pub category: FactCategory,
    /// How sure, in millionths.
    pub confidence: u32,
    /// When it was recorded, in milliseconds since the epoch.
    pub created_at: i64,
    /// Where it comes from.
    pub source: FactSource,
}

/// The abstract value of a fact.
pub struct FactModel {
    /// Id.
    pub id: Seq<char>,
    /// Content.
    pub content: Seq<char>,
    /// Kind.
    pub category: FactCategory,
    /// Confidence in millionths.
    pub confidence: u32,
    /// Creation time in milliseconds.
    pub created_at: i64,
    /// Source.
    pub source: FactSource,
}

impl View for Fact {
    type V = FactModel;

    open spec fn view(&self) -> FactModel {
        FactModel {
            id: self.id@,
            content: self.content@,
            category: self.category,
            confidence: self.confidence,
            created_at: self.created_at,
            source: self.source,
        }
    }
}

impl Clone for Fact {
    fn clone(&self) -> (r: Self)
        ensures
            r@ == self@,
    {
        Fact {
            id: self.id.clone(),
            content: self.content.clone(),
            category: self.category,
            confidence: self.confidence,
            created_at: self.created_at,
            source: self.source,
        }
    }
}

/// The views of a list of facts.
pub open spec fn fact_views(v: Seq<Fact>) -> Seq<FactModel> {
    v.map_values(|f: Fact| f@)
}

/// The name of a category.
pub open spec fn category_name(c: FactCategory) -> Seq<char> {
    match c {
        FactCategory::Preference => "Preference"@,
        FactCategory::Knowledge => "Knowledge"@,
        FactCategory::Context => "Context"@,
        FactCategory::Behavior => "Behavior"@,
        FactCategory::Goal => "Goal"@,
    }
}

/// The earliest instant chrono can hold, in milliseconds since the epoch
/// (the start of year -262143).
pub open spec fn earliest_ms() -> int {
    -8_334_601_315_200_000
}

/// The latest instant chrono can hold, in milliseconds since the epoch
/// (the end of year 262142).
pub open spec fn latest_ms() -> int {
    8_210_266_876_799_999
}

/// The instant `days` days before `now`, when it can be represented.
pub open spec fn recent_cutoff(now: i64, days: i64) -> Option<int> {
    let c = now - days * 86_400_000;
    if earliest_ms() <= c <= latest_ms() {
        Some(c)
    } else {
        None
    }
}

impl Fact {
    /// A fact recorded now, under a fresh id; when the clock cannot be
    /// read, it is dated at the epoch.
    pub fn new(content: &str, category: FactCategory, confidence: u32, source: FactSource) -> (f: Self)
        ensures
            f.content@ == content@,
            f.category == category,
            f.confidence == confidence,
            f.source == source,
            f.created_at >= 0,
    {
        Fact {
            id: new_uuid_v4(),
            content: owned(content),
            category,
            confidence,
            created_at: match now_millis() {
                Some(t) => t,
                None => 0,
            },
            source,
        }
    }

    /// The name of its category.
    pub fn category_as_str(&self) -> (r: &'static str)
        ensures
            r@ == category_name(self.category),
    {
        match self.category {
            FactCategory::Preference => "Preference",
            FactCategory::Knowledge => "Knowledge",
            FactCategory::Context => "Context",
            FactCategory::Behavior => "Behavior",
            FactCategory::Goal => "Goal",
        }
    }
}

/// Whether fact `a` goes before fact `b` when facts are ranked: more
/// confident first, and, as confident, more recent first.
pub open spec fn ranks_before(a: FactModel, b: FactModel) -> bool {
    a.confidence > b.confidence || (a.confidence == b.confidence && a.created_at > b.created_at)
}

/// Inserts `f` into a ranked list, after every fact it does not go
/// before.
pub open spec fn insert_ranked(sorted: Seq<FactModel>, f: FactModel) -> Seq<FactModel>
    decreases sorted.len(),
{
    if sorted.len() == 0 {
        seq![f]
    } else if !ranks_before(f, sorted.last()) {
        sorted.push(f)
    } else {
        insert_ranked(sorted.drop_last(), f).push(sorted.last())
    }
}

/// The facts ranked, those that rank alike in their first order (a
/// stable sort).
pub open spec fn ranked(fs: Seq<FactModel>) -> Seq<FactModel>
    decreases fs.len(),
{
    if fs.len() == 0 {
        Seq::empty()
    } else {
        insert_ranked(ranked(fs.drop_last()), fs.last())
    }
}

/// The facts at least as confident as `min`, in order.
pub open spec fn confident(fs: Seq<FactModel>, min: u32) -> Seq<FactModel>
    decreases fs.len(),
{
    if fs.len() == 0 {
        Seq::empty()
    } else if fs.last().confidence >= min {
        confident(fs.drop_last(), min).push(fs.last())
    } else {
        confident(fs.drop_last(), min)
    }
}

/// The first `n` elements, or all.
pub open spec fn at_most<A>(s: Seq<A>, n: nat) -> Seq<A> {
    if n < s.len() {
        s.take(n as int)
    } else {
        s
    }
}

/// The facts a pruning keeps: ranked, the confident enough, at most
/// `max`.
pub open spec fn pruned(fs: Seq<FactModel>, max: nat, min: u32) -> Seq<FactModel> {
    at_most(confident(ranked(fs), min), max)
}

/// Whether some fact says `content`.
pub open spec fn has_content(fs: Seq<FactModel>, content: Seq<char>) -> bool {
    exists|i: int| 0 <= i < fs.len() && fs[i].content == content
}

/// The facts recorded after `cutoff`, in order.
pub open spec fn created_after(fs: Seq<FactModel>, cutoff: i64) -> Seq<FactModel> {
    fs.filter(|f: FactModel| f.created_at > cutoff)
}

/// The facts with `f` added, unless one says the same.
pub open spec fn with_fact(fs: Seq<FactModel>, f: FactModel) -> Seq<FactModel> {
    if has_content(fs, f.content) {
        fs
    } else {
        fs.push(f)
    }
}

/// The facts with each of `news` at least as confident as `floor`
/// added in turn.
pub open spec fn with_facts(fs: Seq<FactModel>, news: Seq<FactModel>, floor: u32) -> Seq<FactModel>
    decreases news.len(),
{
    if news.len() == 0 {
        fs
    } else {
        let prev = with_facts(fs, news.drop_last(), floor);
        if news.last().confidence >= floor {
            with_fact(prev, news.last())
        } else {
            prev
        }
    }
}

/// The memory of a user.
#[derive(Debug)]
pub struct MemoryData {
    /// The user's context.
    pub user_context: UserContext,
    /// Conversation history.
    pub history: ConversationHistory,
    /// Facts, in the order they were added.
    pub facts: Vec<Fact>,
    /// Other values.
    pub metadata: StrMap<String>,
}

impl Default for MemoryData {
    fn default() -> (m: Self)
        ensures
            m.facts@.len() == 0,
            m.user_context.work_context is None,
            m.user_context.personal_context is None,
            m.user_context.top_of_mind is None,
            m.history.recent_months is None,
            m.history.earlier_context is None,
            m.history.long_term_background is None,
            m.metadata@ == Map::<Seq<char>, Seq<char>>::empty(),
    {
        MemoryData {
            user_context: UserContext::default(),
            history: ConversationHistory::default(),
            facts: Vec::new(),
            metadata: StrMap::new(),
        }
    }
}

/// The lines of memory in a prompt.
pub open spec fn prompt_parts(m: MemoryData, max_facts: nat) -> Seq<Seq<char>> {
    let ctx = (match m.user_context.work_context {
        Some(w) => seq!["Work Context: "@ + w@],
        None => Seq::empty(),
    }) + (match m.user_context.personal_context {
        Some(p) => seq!["Personal Context: "@ + p@],
        None => Seq::empty(),
    }) + (match m.user_context.top_of_mind {
        Some(t) => seq!["Top of Mind: "@ + t@],
        None => Seq::empty(),
    });
    let facts = at_most(confident(fact_views(m.facts@), 700_000), max_facts);
    if facts.len() == 0 {
        ctx
    } else {
        ctx + seq!["Relevant Facts:"@] + facts.map_values(
            |f: FactModel| "- "@ + category_name(f.category) + ": "@ + f.content,
        )
    }
}

impl MemoryData {
    /// An empty memory.
    pub fn new() -> (m: Self)
        ensures
            m.facts@.len() == 0,
            m.user_context.work_context is None,
            m.user_context.personal_context is None,
            m.user_context.top_of_mind is None,
            m.history.recent_months is None,
            m.history.earlier_context is None,
            m.history.long_term_background is None,
            m.metadata@ == Map::<Seq<char>, Seq<char>>::empty(),
    {
        Self::default()
    }

    /// Adds a fact, unless a fact with the same content is there.
    pub fn add_fact(&mut self, fact: Fact)
        ensures
            has_content(fact_views(old(self).facts@), fact.content@) ==> fact_views(final(self).facts@)
                == fact_views(old(self).facts@),
            !has_content(fact_views(old(self).facts@), fact.content@) ==> fact_views(
                final(self).facts@,
            ) == fact_views(old(self).facts@).push(fact@),
            final(self).user_context == old(self).user_context,
            final(self).history == old(self).history,
            final(self).metadata == old(self).metadata,
    {
        let ghost fs = fact_views(self.facts@);
        let mut i: usize = 0;
        while i < self.facts.len()
            invariant
                i <= self.facts@.len(),
                fs == fact_views(self.facts@),
                forall|j: int| 0 <= j < i ==> fs[j].content != fact.content@,
            decreases self.facts.len() - i,
        {
            if str_eq(self.facts[i].content.as_str(), fact.content.as_str()) {
                assert(fs[i as int].content == fact.content@);
                return;
            }
            i += 1;
        }
        self.facts.push(fact);
        assert(fact_views(self.facts@) =~= fs.push(fact@));
    }

    /// The facts of a category, in order.
    pub fn facts_by_category(&self, category: &FactCategory) -> (r: Vec<&Fact>)
        ensures
            r@.len() <= self.facts@.len(),
            forall|i: int| 0 <= i < r@.len() ==> (#[trigger] r@[i]).category == *category,
            r@.map_values(|f: &Fact| f@) == fact_views(self.facts@).filter(
                |f: FactModel| f.category == *category,
            ),
    {
        let mut r: Vec<&Fact> = Vec::new();
        let mut i: usize = 0;
        while i < self.facts.len()
            invariant
                i <= self.facts@.len(),
                r@.len() <= i,
                forall|k: int| 0 <= k < r@.len() ==> (#[trigger] r@[k]).category == *category,
                r@.map_values(|f: &Fact| f@) == fact_views(self.facts@.take(i as int)).filter(
                    |f: FactModel| f.category == *category,
                ),
            decreases self.facts.len() - i,
        {
            let ghost before = r@;
            proof {
                fact_views(self.facts@.take(i as int)).lemma_filter_push(
                    self.facts@[i as int]@,
                    |f: FactModel| f.category == *category,
                );
                assert(fact_views(self.facts@.take(i + 1)) =~= fact_views(self.facts@.take(i as int)).push(
                    self.facts@[i as int]@,
                ));
            }
            if self.facts[i].category == *category {
                r.push(&self.facts[i]);
                assert(r@.map_values(|f: &Fact| f@) =~= before.map_values(|f: &Fact| f@).push(
                    self.facts@[i as int]@,
                ));
            }
            i += 1;
        }
        assert(self.facts@.take(self.facts@.len() as int) == self.facts@);
        r
    }

    /// The facts at least as confident as `threshold` (in millionths), in
    /// order.
    pub fn high_confidence_facts(&self, threshold: u32) -> (r: Vec<&Fact>)
        ensures
            r@.map_values(|f: &Fact| f@) == confident(fact_views(self.facts@), threshold),
    {
        let mut r: Vec<&Fact> = Vec::new();
        let mut i: usize = 0;
        while i < self.facts.len()
            invariant
                i <= self.facts@.len(),
                r@.map_values(|f: &Fact| f@) == confident(fact_views(self.facts@.take(i as int)), threshold),
            decreases self.facts.len() - i,
        {
            let ghost before = r@;
            assert(fact_views(self.facts@.take(i + 1)).drop_last() == fact_views(
                self.facts@.take(i as int),
            ));
            assert(fact_views(self.facts@.take(i + 1)).last() == self.facts@[i as int]@);
            if self.facts[i].confidence >= threshold {
                r.push(&self.facts[i]);
                assert(r@.map_values(|f: &Fact| f@) =~= before.map_values(|f: &Fact| f@).push(
                    self.facts@[i as int]@,
                ));
            }
            i += 1;
        }
        assert(self.facts@.take(self.facts@.len() as int) == self.facts@);
        r
    }

    /// The facts recorded after `cutoff` (milliseconds since the epoch),
    /// in order.
    pub fn facts_after(&self, cutoff: i64) -> (r: Vec<&Fact>)
        ensures
            r@.map_values(|f: &Fact| f@) == fact_views(self.facts@).filter(
                |f: FactModel| f.created_at > cutoff,
            ),
    {
        let mut r: Vec<&Fact> = Vec::new();
        let mut i: usize = 0;
        while i < self.facts.len()
            invariant
                i <= self.facts@.len(),
                r@.map_values(|f: &Fact| f@) == fact_views(self.facts@.take(i as int)).filter(
                    |f: FactModel| f.created_at > cutoff,
                ),
            decreases self.facts.len() - i,
        {
            let ghost before = r@;
            proof {
                fact_views(self.facts@.take(i as int)).lemma_filter_push(
                    self.facts@[i as int]@,
                    |f: FactModel| f.created_at > cutoff,
                );
                assert(fact_views(self.facts@.take(i + 1)) =~= fact_views(self.facts@.take(i as int)).push(
                    self.facts@[i as int]@,
                ));
            }
            if self.facts[i].created_at > cutoff {
                r.push(&self.facts[i]);
                assert(r@.map_values(|f: &Fact| f@) =~= before.map_values(|f: &Fact| f@).push(
                    self.facts@[i as int]@,
                ));
            }
            i += 1;
        }
        assert(self.facts@.take(self.facts@.len() as int) == self.facts@);
        r
    }

    /// The facts recorded in the `days` days before `now` (milliseconds
    /// since the epoch), in order; `None` when that many days before
    /// `now` is a date that cannot be represented.
    pub fn facts_within_days(&self, now: i64, days: i64) -> (r: Option<Vec<&Fact>>)
        ensures
            match recent_cutoff(now, days) {
                Some(c) => r matches Some(v) && v@.map_values(|f: &Fact| f@) == created_after(
                    fact_views(self.facts@),
                    c as i64,
                ),
                None => r is None,
            },
    {
        let c: i128 = now as i128 - (days as i128) * 86_400_000i128;
        if c < -8_334_601_315_200_000i128 || c > 8_210_266_876_799_999i128 {
            return None;
        }
        let r = self.facts_after(c as i64);
        assert(r@.map_values(|f: &Fact| f@) == created_after(fact_views(self.facts@), c as i64));
        Some(r)
    }

    /// The facts recorded in the last `days` days, in order; `None` when
    /// the clock cannot be read or that many days before now is a date
    /// that cannot be represented.
    pub fn recent_facts(&self, days: i64) -> (r: Option<Vec<&Fact>>)
        ensures
            r matches Some(v) ==> exists|now: i64|
                {
                    &&& 0 <= now <= latest_ms()
                    &&& #[trigger] recent_cutoff(now, days) matches Some(c)
                    &&& v@.map_values(|f: &Fact| f@) == created_after(fact_views(self.facts@), c as i64)
                },
    {
        match now_millis() {
            Some(now) => {
                let r = self.facts_within_days(now, days);
                assert(r matches Some(v) ==> recent_cutoff(now, days) is Some);
                r
            },
            None => None,
        }
    }

    /// Ranks the facts (more confident first, then more recent, stably),
    /// drops those less confident than `min_confidence`, and keeps at
    /// most `max_facts`.
    pub fn prune_facts(&mut self, max_facts: usize, min_confidence: u32)
        ensures
            fact_views(final(self).facts@) == pruned(fact_views(old(self).facts@), max_facts as nat, min_confidence),
            final(self).user_context == old(self).user_context,
            final(self).history == old(self).history,
            final(self).metadata == old(self).metadata,
    {
        let ghost fs = fact_views(self.facts@);
        let mut sorted: Vec<Fact> = Vec::new();
        let mut i: usize = 0;
        while i < self.facts.len()
            invariant
                i <= self.facts@.len(),
                fs == fact_views(self.facts@),
                fact_views(sorted@) == ranked(fs.take(i as int)),
            decreases self.facts.len() - i,
        {
            assert(fs.take(i + 1).drop_last() == fs.take(i as int));
            assert(fs.take(i + 1).last() == self.facts@[i as int]@);
            let f = self.facts[i].clone();
            let ghost s0 = fact_views(sorted@);
            let mut j: usize = sorted.len();
            assert(s0.take(j as int) == s0);
            assert(insert_ranked(s0, f@) + s0.skip(j as int) =~= insert_ranked(s0, f@));
            while j > 0 && (f.confidence > sorted[j - 1].confidence || (f.confidence
                == sorted[j - 1].confidence && f.created_at > sorted[j - 1].created_at))
                invariant
                    j <= sorted@.len(),
                    s0 == fact_views(sorted@),
                    insert_ranked(s0, f@) == insert_ranked(s0.take(j as int), f@) + s0.skip(j as int),
                decreases j,
            {
                proof {
                    let t = s0.take(j as int);
                    assert(t.last() == sorted@[j - 1]@);
                    assert(t.drop_last() == s0.take(j - 1));
                    assert(s0.skip(j - 1) =~= seq![t.last()] + s0.skip(j as int));
                    assert(insert_ranked(s0.take(j - 1), f@).push(t.last()) + s0.skip(j as int)
                        =~= insert_ranked(s0.take(j - 1), f@) + s0.skip(j - 1));
                }
                j -= 1;
            }
            proof {
                let t = s0.take(j as int);
                if j > 0 {
                    assert(t.last() == sorted@[j - 1]@);
                } else {
                    assert(t =~= Seq::<FactModel>::empty());
                }
            }
            sorted.insert(j, f);
            assert(fact_views(sorted@) =~= s0.take(j as int).push(self.facts@[i as int]@) + s0.skip(j as int));
            i += 1;
        }
        assert(fs.take(fs.len() as int) == fs);
        let ghost rs = fact_views(sorted@);
        let mut kept: Vec<Fact> = Vec::new();
        let mut k: usize = 0;
        while k < sorted.len()
            invariant
                k <= sorted@.len(),
                rs == fact_views(sorted@),
                fact_views(kept@) == confident(rs.take(k as int), min_confidence),
            decreases sorted.len() - k,
        {
            assert(rs.take(k + 1).drop_last() == rs.take(k as int));
            assert(rs.take(k + 1).last() == sorted@[k as int]@);
            if sorted[k].confidence >= min_confidence {
                let ghost before = fact_views(kept@);
                kept.push(sorted[k].clone());
                assert(fact_views(kept@) =~= before.push(sorted@[k as int]@));
            }
            k += 1;
        }
        assert(rs.take(rs.len() as int) == rs);
        if max_facts < kept.len() {
            kept.truncate(max_facts);
            assert(fact_views(kept@) =~= confident(rs, min_confidence).take(max_facts as int));
        }
        self.facts = kept;
    }

    /// The memory as lines for a prompt: the user's context, then, if
    /// any fact has a confidence of at least 0.7, `Relevant Facts:` and
    /// up to `max_facts` of them as `- <category>: <content>`; joined by
    /// newlines.
    pub fn format_for_prompt(&self, max_facts: usize) -> (r: String)
        ensures
            r@ == join(prompt_parts(*self, max_facts as nat), "\n"@),
    {
        let mut parts: Vec<String> = Vec::new();
        let ghost mut ctx: Seq<Seq<char>> = Seq::empty();
        match &self.user_context.work_context {
            Some(w) => {
                parts.push(concat2("Work Context: ", w.as_str()));
            },
            None => {},
        }
        match &self.user_context.personal_context {
            Some(p) => {
                parts.push(concat2("Personal Context: ", p.as_str()));
            },
            None => {},
        }
        match &self.user_context.top_of_mind {
            Some(t) => {
                parts.push(concat2("Top of Mind: ", t.as_str()));
            },
            None => {},
        }
        let ghost c = views(parts@);
        assert(c =~= (match self.user_context.work_context {
            Some(w) => seq!["Work Context: "@ + w@],
            None => Seq::<Seq<char>>::empty(),
        }) + (match self.user_context.personal_context {
            Some(p) => seq!["Personal Context: "@ + p@],
            None => Seq::<Seq<char>>::empty(),
        }) + (match self.user_context.top_of_mind {
            Some(t) => seq!["Top of Mind: "@ + t@],
            None => Seq::<Seq<char>>::empty(),
        }));
        let high = self.high_confidence_facts(700_000);
        let n = if max_facts < high.len() {
            max_facts
        } else {
            high.len()
        };
        let ghost hs = high@.map_values(|f: &Fact| f@);
        let ghost shown = at_most(hs, max_facts as nat);
        assert(shown.len() == n);
        if n > 0 {
            parts.push(owned("Relevant Facts:"));
            let ghost c2 = views(parts@);
            let mut i: usize = 0;
            while i < n
                invariant
                    n <= high@.len(),
                    i <= n,
                    hs == high@.map_values(|f: &Fact| f@),
                    shown == at_most(hs, max_facts as nat),
                    shown.len() == n,
                    views(parts@) == c2 + shown.take(i as int).map_values(
                        |f: FactModel| "- "@ + category_name(f.category) + ": "@ + f.content,
                    ),
                decreases n - i,
            {
                let f = high[i];
                assert(shown[i as int] == f@);
                let a = concat3("- ", f.category_as_str(), ": ");
                let line = concat2(a.as_str(), f.content.as_str());
                let ghost before = views(parts@);
                parts.push(line);
                assert(views(parts@) =~= before.push(line@));
                assert(shown.take(i + 1) =~= shown.take(i as int).push(shown[i as int]));
                assert(views(parts@) =~= c2 + shown.take(i + 1).map_values(
                    |f: FactModel| "- "@ + category_name(f.category) + ": "@ + f.content,
                ));
                i += 1;
            }
            assert(shown.take(n as int) == shown);
            assert(views(parts@) =~= prompt_parts(*self, max_facts as nat));
        } else {
            assert(views(parts@) =~= prompt_parts(*self, max_facts as nat));
        }
        join_strings(&parts, "\n")
    }
}

// ---------------------------------------------------------------------
// Updates
// ---------------------------------------------------------------------

/// What a conversation adds to memory.
#[derive(Debug)]
pub struct MemoryUpdate {
    /// New work context.
    pub work_context: Option<String>,
    /// New personal context.
    pub personal_context: Option<String>,
    /// New top of mind.
    pub top_of_mind: Option<String>,
    /// New facts.
    pub new_facts: Vec<Fact>,
}

impl Default for MemoryUpdate {
    fn default() -> (u: Self)
        ensures
            u.work_context is None,
            u.personal_context is None,
            u.top_of_mind is None,
            u.new_facts@.len() == 0,
    {
        MemoryUpdate {
            work_context: None,
            personal_context: None,
            top_of_mind: None,
            new_facts: Vec::new(),
        }
    }
}

/// A fact as a model wrote it: its fields, where present and of the
/// right JSON type.
#[derive(Debug)]
pub struct RawFact {
    /// `content`, if a string.
    pub content: Option<String>,
    /// `category`, if a string.
    pub category: Option<String>,
    /// `confidence`, if a number, in millionths.
    pub confidence: Option<u32>,
}

/// Whether `f` is the fact made of `raw`: its content, its category
/// (knowledge by default), its confidence (0.7 by default), inferred.
pub open spec fn parsed_from(f: Fact, raw: RawFact) -> bool {
    &&& f.content@ == raw.content->0@
    &&& f.category == raw_category(raw)
    &&& f.confidence == match raw.confidence {
        Some(c) => c,
        None => 700_000u32,
    }
    &&& f.source == FactSource::Inferred
}

/// Whether `fs` are the facts made of `raw`, one for each, in order.
pub open spec fn parsed_all(fs: Seq<Fact>, raw: Seq<RawFact>) -> bool {
    fs.len() == raw.len() && forall|i: int| 0 <= i < fs.len() ==> parsed_from(#[trigger] fs[i], raw[i])
}

/// A model's reply, read as JSON: the string fields, and the entries of
/// `facts` when it is an array.
#[derive(Debug)]
pub struct ParsedUpdate {
    /// `work_context`, if a string.
    pub work_context: Option<String>,
    /// `personal_context`, if a string.
    pub personal_context: Option<String>,
    /// `top_of_mind`, if a string.
    pub top_of_mind: Option<String>,
    /// The entries of `facts`, if it is an array.
    pub facts: Option<Vec<RawFact>>,
}

/// What `str::to_lowercase` makes of a text.
pub uninterp spec fn lowercase_of(s: Seq<char>) -> Seq<char>;

/// `str::to_lowercase`: the text with each character mapped to its
/// Unicode lowercase.  The contract names the result.
#[verifier::external_body]
fn to_lowercase(s: &str) -> (r: String)
    ensures
        r@ == lowercase_of(s@),
{
    s.to_lowercase()
}

/// The category a name stands for, ignoring case; `knowledge` for any
/// other.
pub open spec fn category_named(lower: Seq<char>) -> FactCategory {
    if lower == "preference"@ {
        FactCategory::Preference
    } else if lower == "context"@ {
        FactCategory::Context
    } else if lower == "behavior"@ {
        FactCategory::Behavior
    } else if lower == "goal"@ {
        FactCategory::Goal
    } else {
        FactCategory::Knowledge
    }
}

/// The category of a raw fact: named by `category` (any case), or
/// knowledge.
pub open spec fn raw_category(f: RawFact) -> FactCategory {
    match f.category {
        Some(c) => category_named(lowercase_of(c@)),
        None => category_named(lowercase_of("knowledge"@)),
    }
}

/// Whether every raw fact has its content.
pub open spec fn all_have_content(fs: Seq<RawFact>) -> bool {
    forall|i: int| 0 <= i < fs.len() ==> (#[trigger] fs[i]).content is Some
}

/// The updater of a user's memory from conversations.
#[derive(Debug)]
pub struct MemoryUpdater {
    max_facts: usize,
    min_confidence: u32,
}

/// The prompt that asks a model for the memory in a conversation.
pub open spec fn extraction_prompt(conversation: Seq<char>) -> Seq<char> {
    "Analyze the following conversation and extract memory updates in JSON format:\n\n"@
        + conversation
        + "\n\nExtract the following information (use null for empty/not found):\n- work_context: User's work situation, projects, role\n- personal_context: Personal preferences, habits, interests\n- top_of_mind: 1-3 sentence summary of what's currently important\n- facts: Array of discrete facts with content, category, confidence (0-1)\n\nRespond with valid JSON only."@
}

/// The name a role is shown with.
pub open spec fn role_name(r: MessageRole) -> Seq<char> {
    match r {
        MessageRole::Human => "Human"@,
        MessageRole::Ai => "Ai"@,
        MessageRole::Tool => "Tool"@,
        MessageRole::System => "System"@,
    }
}

/// The human and AI messages, in order.
pub open spec fn exchanged(msgs: Seq<MessageModel>) -> Seq<MessageModel> {
    msgs.filter(|m: MessageModel| m.role == MessageRole::Human || m.role == MessageRole::Ai)
}

/// A conversation as lines of `<role>: <text>`.
pub open spec fn conversation_lines(msgs: Seq<MessageModel>) -> Seq<Seq<char>> {
    msgs.map_values(|m: MessageModel| role_name(m.role) + ": "@ + content_text(m.content))
}

impl MemoryUpdater {
    /// The most facts memory keeps.
    pub closed spec fn fact_limit(&self) -> nat {
        self.max_facts as nat
    }

    /// The least confidence of a fact kept, in millionths.
    pub closed spec fn confidence_floor(&self) -> u32 {
        self.min_confidence
    }

    /// An updater that keeps at most `max_facts` facts, each at least as
    /// confident as `min_confidence` (in millionths).
    pub fn new(max_facts: usize, min_confidence: u32) -> (u: Self)
        ensures
            u.fact_limit() == max_facts,
            u.confidence_floor() == min_confidence,
    {
        MemoryUpdater { max_facts, min_confidence }
    }

    /// The name of a role.
    fn role_str(r: MessageRole) -> (s: &'static str)
        ensures
            s@ == role_name(r),
    {
        match r {
            MessageRole::Human => "Human",
            MessageRole::Ai => "Ai",
            MessageRole::Tool => "Tool",
            MessageRole::System => "System",
        }
    }

    /// The prompt for a conversation's human and AI messages.
    pub fn create_extraction_prompt(&self, messages: &Vec<Message>) -> (r: String)
        ensures
            r@ == extraction_prompt(join(conversation_lines(message_views(messages@)), "\n"@)),
    {
        let mut lines: Vec<String> = Vec::new();
        let mut i: usize = 0;
        while i < messages.len()
            invariant
                i <= messages@.len(),
                views(lines@) == conversation_lines(message_views(messages@.take(i as int))),
            decreases messages.len() - i,
        {
            let m = &messages[i];
            let a = concat2(Self::role_str(m.role), ": ");
            let t = m.content.to_string();
            let line = concat2(a.as_str(), t.as_str());
            let ghost before = views(lines@);
            lines.push(line);
            assert(views(lines@) =~= before.push(line@));
            assert(message_views(messages@.take(i + 1)) =~= message_views(messages@.take(i as int)).push(
                messages@[i as int]@,
            ));
            assert(views(lines@) =~= conversation_lines(message_views(messages@.take(i + 1))));
            i += 1;
        }
        assert(messages@.take(messages@.len() as int) == messages@);
        let conversation = join_strings(&lines, "\n");
        let a = concat2(
            "Analyze the following conversation and extract memory updates in JSON format:\n\n",
            conversation.as_str(),
        );
        concat2(
            a.as_str(),
            "\n\nExtract the following information (use null for empty/not found):\n- work_context: User's work situation, projects, role\n- personal_context: Personal preferences, habits, interests\n- top_of_mind: 1-3 sentence summary of what's currently important\n- facts: Array of discrete facts with content, category, confidence (0-1)\n\nRespond with valid JSON only.",
        )
    }

    /// The request to a model for the memory in a conversation: `None`
    /// when it has no human or AI message; else one human message with
    /// the extraction prompt over those messages, at temperature 0.3 and
    /// at most 2048 tokens.
    pub fn extraction_request(&self, messages: &Vec<Message>) -> (r: Option<ModelRequest>)
        ensures
            exchanged(message_views(messages@)).len() == 0 <==> r is None,
            r matches Some(q) ==> q@.messages == seq![
                plain_message(
                    MessageRole::Human,
                    ContentModel::Text(
                        extraction_prompt(
                            join(conversation_lines(exchanged(message_views(messages@))), "\n"@),
                        ),
                    ),
                ),
            ] && q.temperature == Some(300u32) && q.max_tokens == Some(2048u32) && q.top_p is None
                && q.top_k is None && q@.stop.len() == 0,
    {
        let mut relevant: Vec<Message> = Vec::new();
        let mut i: usize = 0;
        while i < messages.len()
            invariant
                i <= messages@.len(),
                message_views(relevant@) == exchanged(message_views(messages@.take(i as int))),
            decreases messages.len() - i,
        {
            let ghost pred = |m: MessageModel| m.role == MessageRole::Human || m.role == MessageRole::Ai;
            proof {
                message_views(messages@.take(i as int)).lemma_filter_push(messages@[i as int]@, pred);
                assert(message_views(messages@.take(i + 1)) =~= message_views(messages@.take(i as int)).push(
                    messages@[i as int]@,
                ));
            }
            let r = messages[i].role;
            if r == MessageRole::Human || r == MessageRole::Ai {
                let ghost before = message_views(relevant@);
                relevant.push(messages[i].clone());
                assert(message_views(relevant@) =~= before.push(messages@[i as int]@));
            }
            i += 1;
        }
        assert(messages@.take(messages@.len() as int) == messages@);
        if relevant.len() == 0 {
            return None;
        }
        let prompt = self.create_extraction_prompt(&relevant);
        let mut msgs: Vec<Message> = Vec::new();
        msgs.push(Message::human(Content::Text(prompt)));
        assert(message_views(msgs@) =~= seq![
            plain_message(
                MessageRole::Human,
                ContentModel::Text(
                    extraction_prompt(
                        join(conversation_lines(exchanged(message_views(messages@))), "\n"@),
                    ),
                ),
            ),
        ]);
        let stop: Vec<String> = Vec::new();
        assert(views(stop@) =~= Seq::<Seq<char>>::empty());
        Some(
            ModelRequest {
                messages: msgs,
                temperature: Some(300),
                max_tokens: Some(2048),
                top_p: None,
                top_k: None,
                stop,
            },
        )
    }

    /// The error of a reply that is not JSON.
    pub fn parse_error(&self, detail: &str) -> (e: HarnessError)
        ensures
            e matches HarnessError::Other(m) && m@ == "Failed to parse memory update: "@ + detail@,
    {
        HarnessError::Other(concat2("Failed to parse memory update: ", detail))
    }

    /// The facts of a reply: each raw fact with its content, category
    /// (any case; knowledge by default) and confidence (0.7 by default),
    /// inferred and recorded now.  It fails with `Missing fact content`
    /// when a fact has no content.
    pub fn parse_facts(&self, raw: &Vec<RawFact>) -> (r: Result<Vec<Fact>, HarnessError>)
        ensures
            all_have_content(raw@) ==> (r matches Ok(fs) && parsed_all(fs@, raw@)),
            !all_have_content(raw@) ==> (r matches Err(e) && e matches HarnessError::Other(m) && m@
                == "Missing fact content"@),
    {
        let mut out: Vec<Fact> = Vec::new();
        let mut i: usize = 0;
        while i < raw.len()
            invariant
                i <= raw@.len(),
                out@.len() == i,
                forall|k: int| 0 <= k < i ==> (#[trigger] raw@[k]).content is Some,
                forall|k: int|
                    0 <= k < i ==> (#[trigger] out@[k]).content@ == raw@[k].content->0@
                        && out@[k].category == raw_category(raw@[k]) && out@[k].confidence
                        == match raw@[k].confidence {
                        Some(c) => c,
                        None => 700_000u32,
                    } && out@[k].source == FactSource::Inferred,
            decreases raw.len() - i,
        {
            let f = &raw[i];
            let content = match &f.content {
                Some(c) => c.as_str(),
                None => {
                    return Err(HarnessError::Other(owned("Missing fact content")));
                },
            };
            let lower = match &f.category {
                Some(c) => to_lowercase(c.as_str()),
                None => to_lowercase("knowledge"),
            };
            let l = lower.as_str();
            let category = if str_eq(l, "preference") {
                FactCategory::Preference
            } else if str_eq(l, "context") {
                FactCategory::Context
            } else if str_eq(l, "behavior") {
                FactCategory::Behavior
            } else if str_eq(l, "goal") {
                FactCategory::Goal
            } else {
                FactCategory::Knowledge
            };
            let confidence = match f.confidence {
                Some(c) => c,
                None => 700_000,
            };
            assert(category == raw_category(raw@[i as int]));
            let fact = Fact::new(content, category, confidence, FactSource::Inferred);
            let ghost before = out@;
            out.push(fact);
            assert(out@[i as int] == fact);
            assert(forall|k: int| 0 <= k < i ==> out@[k] == before[k]);
            i += 1;
        }
        Ok(out)
    }

    /// The update a reply stands for: its string fields and its facts
    /// (none when `facts` is not an array).
    pub fn parse_memory_updates(&self, parsed: ParsedUpdate) -> (r: Result<MemoryUpdate, HarnessError>)
        ensures
            match parsed.facts {
                Some(fs) => all_have_content(fs@) <==> r is Ok,
                None => r is Ok,
            },
            r matches Ok(u) ==> opt_view(u.work_context) == opt_view(parsed.work_context) && opt_view(
                u.personal_context,
            ) == opt_view(parsed.personal_context) && opt_view(u.top_of_mind) == opt_view(
                parsed.top_of_mind,
            ) && match parsed.facts {
                Some(fs) => parsed_all(u.new_facts@, fs@),
                None => u.new_facts@.len() == 0,
            },
    {
        let new_facts = match &parsed.facts {
            Some(fs) => match self.parse_facts(fs) {
                Ok(v) => v,
                Err(e) => {
                    return Err(e);
                },
            },
            None => Vec::new(),
        };
        Ok(
            MemoryUpdate {
                work_context: parsed.work_context,
                personal_context: parsed.personal_context,
                top_of_mind: parsed.top_of_mind,
                new_facts,
            },
        )
    }

    /// Applies an update: the context fields it sets replace the user's,
    /// its facts at least as confident as the floor are added (without
    /// duplicates), and, when memory then holds more facts than the
    /// limit, it is pruned.
    pub fn apply_updates(&self, memory: &mut MemoryData, updates: &MemoryUpdate)
        ensures
            opt_view(final(memory).user_context.work_context) == match updates.work_context {
                Some(w) => Some(w@),
                None => opt_view(old(memory).user_context.work_context),
            },
            opt_view(final(memory).user_context.personal_context) == match updates.personal_context {
                Some(p) => Some(p@),
                None => opt_view(old(memory).user_context.personal_context),
            },
            opt_view(final(memory).user_context.top_of_mind) == match updates.top_of_mind {
                Some(t) => Some(t@),
                None => opt_view(old(memory).user_context.top_of_mind),
            },
            fact_views(final(memory).facts@) == ({
                let added = with_facts(
                    fact_views(old(memory).facts@),
                    fact_views(updates.new_facts@),
                    self.confidence_floor(),
                );
                if added.len() > self.fact_limit() {
                    pruned(added, self.fact_limit(), self.confidence_floor())
                } else {
                    added
                }
            }),
    {
        match &updates.work_context {
            Some(w) => {
                memory.user_context.work_context = Some(w.clone());
            },
            None => {},
        }
        match &updates.personal_context {
            Some(p) => {
                memory.user_context.personal_context = Some(p.clone());
            },
            None => {},
        }
        match &updates.top_of_mind {
            Some(t) => {
                memory.user_context.top_of_mind = Some(t.clone());
            },
            None => {},
        }
        let mut i: usize = 0;
        let ghost news = fact_views(updates.new_facts@);
        let ghost ctx = memory.user_context;
        while i < updates.new_facts.len()
            invariant
                i <= updates.new_facts@.len(),
                memory.user_context == ctx,
                news == fact_views(updates.new_facts@),
                fact_views(memory.facts@) == with_facts(
                    fact_views(old(memory).facts@),
                    news.take(i as int),
                    self.min_confidence,
                ),
            decreases updates.new_facts.len() - i,
        {
            assert(news.take(i + 1).drop_last() == news.take(i as int));
            assert(news.take(i + 1).last() == updates.new_facts@[i as int]@);
            if updates.new_facts[i].confidence >= self.min_confidence {
                memory.add_fact(updates.new_facts[i].clone());
            }
            i += 1;
        }
        assert(news.take(news.len() as int) == news);
        if memory.facts.len() > self.max_facts {
            memory.prune_facts(self.max_facts, self.min_confidence);
        }
    }
}

/// Whether facts are in ranked order: no fact ranks before an earlier
/// one.
pub open spec fn is_ranked(fs: Seq<FactModel>) -> bool {
    forall|i: int, j: int| 0 <= i < j < fs.len() ==> !ranks_before(#[trigger] fs[j], #[trigger] fs[i])
}

proof fn lemma_insert_ranked(s: Seq<FactModel>, f: FactModel)
    requires
        is_ranked(s),
    ensures
        is_ranked(insert_ranked(s, f)),
        insert_ranked(s, f).len() == s.len() + 1,
        forall|k: int|
            0 <= k < insert_ranked(s, f).len() ==> (#[trigger] insert_ranked(s, f)[k] == f
                || s.contains(insert_ranked(s, f)[k])),
    decreases s.len(),
{
    if s.len() == 0 {
    } else if !ranks_before(f, s.last()) {
        let r = s.push(f);
        assert forall|i: int, j: int| 0 <= i < j < r.len() implies !ranks_before(
            #[trigger] r[j],
            #[trigger] r[i],
        ) by {
            if j == s.len() {
                if i < s.len() - 1 {
                    assert(!ranks_before(s[s.len() - 1], s[i]));
                }
            }
        }
        assert forall|k: int| 0 <= k < r.len() implies (#[trigger] r[k] == f || s.contains(r[k])) by {
            if k < s.len() {
                assert(s[k] == r[k]);
            }
        }
    } else {
        let p = s.drop_last();
        assert(is_ranked(p)) by {
            assert forall|i: int, j: int| 0 <= i < j < p.len() implies !ranks_before(
                #[trigger] p[j],
                #[trigger] p[i],
            ) by {
                assert(p[i] == s[i] && p[j] == s[j]);
            }
        }
        lemma_insert_ranked(p, f);
        let q = insert_ranked(p, f);
        let r = q.push(s.last());
        assert forall|k: int| 0 <= k < q.len() implies !ranks_before(s.last(), #[trigger] q[k]) by {
            if q[k] != f {
                assert(p.contains(q[k]));
                let m = choose|m: int| 0 <= m < p.len() && p[m] == q[k];
                assert(s[m] == q[k]);
                assert(!ranks_before(s[s.len() - 1], s[m]));
            }
        }
        assert forall|i: int, j: int| 0 <= i < j < r.len() implies !ranks_before(
            #[trigger] r[j],
            #[trigger] r[i],
        ) by {
            if j == q.len() {
                assert(r[i] == q[i]);
            } else {
                assert(r[i] == q[i] && r[j] == q[j]);
            }
        }
        assert forall|k: int| 0 <= k < r.len() implies (#[trigger] r[k] == f || s.contains(r[k])) by {
            if k < q.len() {
                assert(r[k] == q[k]);
                if q[k] != f {
                    let m = choose|m: int| 0 <= m < p.len() && p[m] == q[k];
                    assert(s[m] == q[k]);
                }
            } else {
                assert(s[s.len() - 1] == r[k]);
            }
        }
    }
}

proof fn lemma_ranked(fs: Seq<FactModel>)
    ensures
        is_ranked(ranked(fs)),
        ranked(fs).len() == fs.len(),
    decreases fs.len(),
{
    if fs.len() > 0 {
        lemma_ranked(fs.drop_last());
        lemma_insert_ranked(ranked(fs.drop_last()), fs.last());
    }
}

proof fn lemma_confident(fs: Seq<FactModel>, min: u32)
    requires
        is_ranked(fs),
    ensures
        is_ranked(confident(fs, min)),
        confident(fs, min).len() <= fs.len(),
        forall|k: int| 0 <= k < confident(fs, min).len() ==> (#[trigger] confident(fs, min)[k]).confidence >= min
            && fs.contains(confident(fs, min)[k]),
    decreases fs.len(),
{
    if fs.len() > 0 {
        let p = fs.drop_last();
        assert(is_ranked(p)) by {
            assert forall|i: int, j: int| 0 <= i < j < p.len() implies !ranks_before(
                #[trigger] p[j],
                #[trigger] p[i],
            ) by {
                assert(p[i] == fs[i] && p[j] == fs[j]);
            }
        }
        lemma_confident(p, min);
        let c = confident(p, min);
        assert forall|k: int| 0 <= k < c.len() implies fs.contains(#[trigger] c[k]) by {
            let m = choose|m: int| 0 <= m < p.len() && p[m] == c[k];
            assert(fs[m] == c[k]);
        }
        if fs.last().confidence >= min {
            let r = c.push(fs.last());
            assert forall|i: int, j: int| 0 <= i < j < r.len() implies !ranks_before(
                #[trigger] r[j],
                #[trigger] r[i],
            ) by {
                if j == c.len() {
                    assert(r[i] == c[i]);
                    let m = choose|m: int| 0 <= m < p.len() && p[m] == c[i];
                    assert(fs[m] == c[i]);
                    assert(!ranks_before(fs[fs.len() - 1], fs[m]));
                } else {
                    assert(r[i] == c[i] && r[j] == c[j]);
                }
            }
            assert forall|k: int| 0 <= k < r.len() implies (#[trigger] r[k]).confidence >= min
                && fs.contains(r[k]) by {
                if k < c.len() {
                    assert(r[k] == c[k]);
                } else {
                    assert(fs[fs.len() - 1] == r[k]);
                }
            }
        }
    }
}

/// Pruning keeps at most `max` facts, each at least as confident as
/// `min` and each one of the facts pruned, in ranked order.
pub proof fn law_prune_bounds(fs: Seq<FactModel>, max: nat, min: u32)
    ensures
        pruned(fs, max, min).len() <= max,
        pruned(fs, max, min).len() <= fs.len(),
        forall|k: int|
            0 <= k < pruned(fs, max, min).len() ==> (#[trigger] pruned(fs, max, min)[k]).confidence
                >= min,
        is_ranked(pruned(fs, max, min)),
{
    lemma_ranked(fs);
    lemma_confident(ranked(fs), min);
    let c = confident(ranked(fs), min);
    let p = pruned(fs, max, min);
    assert forall|k: int| 0 <= k < p.len() implies (#[trigger] p[k]).confidence >= min by {
        assert(p[k] == c[k]);
    }
    assert forall|i: int, j: int| 0 <= i < j < p.len() implies !ranks_before(
        #[trigger] p[j],
        #[trigger] p[i],
    ) by {
        assert(p[i] == c[i] && p[j] == c[j]);
    }
}

/// Adding a fact twice is adding it once.
pub proof fn law_add_fact_idempotent(fs: Seq<FactModel>, f: FactModel)
    ensures
        with_fact(with_fact(fs, f), f) == with_fact(fs, f),
{
    if !has_content(fs, f.content) {
        let r = fs.push(f);
        assert(r[fs.len() as int].content == f.content);
    }
}

/// After applying an update, memory holds at most the updater's limit
/// of facts when it did before.
pub proof fn law_apply_keeps_limit(fs: Seq<FactModel>, news: Seq<FactModel>, max: nat, floor: u32)
    ensures
        ({
            let added = with_facts(fs, news, floor);
            let after = if added.len() > max {
                pruned(added, max, floor)
            } else {
                added
            };
            after.len() <= max
        }),
{
    law_prune_bounds(with_facts(fs, news, floor), max, floor);
}

} // verus!
