//! The middlewares that come with the library: a check for tool calls
//! that were never answered, the per-thread directories, and a title
//! made from the first human message.
use crate::agents::middleware::{MetadataValue, MetadataValueModel, MiddlewareContext, MiddlewareHook};
use crate::agents::state::{ThreadState, ThreadStateModel};
use crate::error::{HarnessError, MiddlewareError};
use crate::messages::{content_text, pair_views};
use crate::messages::{Content, ContentModel};
use crate::models::base::{Message, MessageModel, ToolCallModel, message_views, plain_message};
use crate::models::base::MessageRole;
use crate::text::{
    byte_len, char_width, chars_of, concat2, concat3, is_whitespace, is_ws, join, join_strings,
    lemma_byte_len_take, owned, str_eq, is_ascii_text, lemma_words_ascii, lemma_join_ascii,
    lemma_ascii_byte_len, is_alphanumeric_char, char_is_alphanumeric, rfind_char, rfind_char_in, split_whitespace, string_of,
    string_of_range, views, words, lemma_words_shape,
};
use vstd::prelude::*;

verus! {

// ---------------------------------------------------------------------
// Dangling tool calls
// ---------------------------------------------------------------------

/// Position of the last AI message among the first `n` messages.
pub open spec fn last_ai_before(msgs: Seq<MessageModel>, n: int) -> Option<int>
    decreases n,
{
    if n <= 0 {
        None
    } else if msgs[n - 1].role == MessageRole::Ai {
        Some(n - 1)
    } else {
        last_ai_before(msgs, n - 1)
    }
}

/// Position of the last AI message.
pub open spec fn last_ai_index(msgs: Seq<MessageModel>) -> Option<int> {
    last_ai_before(msgs, msgs.len() as int)
}

/// Whether a tool message after position `after` answers the call `id`.
pub open spec fn answered_after(msgs: Seq<MessageModel>, after: int, id: Seq<char>) -> bool {
    exists|j: int|
        after < j < msgs.len() && #[trigger] msgs[j].role == MessageRole::Tool
            && msgs[j].tool_call_id == Some(id)
}

/// The ids, in call order, of the tool calls of the last AI message
/// that no later tool message answers.
pub open spec fn dangling_ids(msgs: Seq<MessageModel>) -> Seq<Seq<char>> {
    match last_ai_index(msgs) {
        Some(i) => msgs[i].tool_calls.map_values(|c: ToolCallModel| c.id).filter(
            |id: Seq<char>| !answered_after(msgs, i, id),
        ),
        None => Seq::empty(),
    }
}

/// The text of the message that stands for an interrupted tool.
pub open spec fn interrupted_text() -> Seq<char> {
    "[Tool execution was interrupted]"@
}

/// The placeholder answer to the call `id`.
pub open spec fn placeholder(id: Seq<char>) -> MessageModel {
    MessageModel {
        tool_call_id: Some(id),
        ..plain_message(MessageRole::Tool, ContentModel::Text(interrupted_text()))
    }
}

/// The messages with a placeholder answer appended for each dangling
/// call, in call order.
pub open spec fn with_placeholders(msgs: Seq<MessageModel>) -> Seq<MessageModel> {
    msgs + dangling_ids(msgs).map_values(|id: Seq<char>| placeholder(id))
}

proof fn lemma_last_ai_before(msgs: Seq<MessageModel>, n: int)
    requires
        0 <= n <= msgs.len(),
    ensures
        last_ai_before(msgs, n) matches Some(i) ==> 0 <= i < n && msgs[i].role == MessageRole::Ai
            && forall|j: int| i < j < n ==> msgs[j].role != MessageRole::Ai,
        last_ai_before(msgs, n) is None ==> forall|j: int|
            0 <= j < n ==> msgs[j].role != MessageRole::Ai,
    decreases n,
{
    if n > 0 {
        lemma_last_ai_before(msgs, n - 1);
    }
}

/// Whether `m` is a tool message answering the call `id`.
fn answers(m: &Message, id: &str) -> (r: bool)
    ensures
        r == (m@.role == MessageRole::Tool && m@.tool_call_id == Some(id@)),
{
    if m.role == MessageRole::Tool {
        match &m.tool_call_id {
            Some(t) => str_eq(t.as_str(), id),
            None => false,
        }
    } else {
        false
    }
}

/// The middleware that answers, with a placeholder tool message, each
/// tool call of the last AI message that has no answer (as when a user
/// interrupted a tool).
#[derive(Debug)]
pub struct DanglingToolCallMiddleware {
    name: String,
    hooks: Vec<MiddlewareHook>,
}

impl DanglingToolCallMiddleware {
    #[verifier::type_invariant]
    closed spec fn wf(&self) -> bool {
        &&& self.name@ == "dangling_tool_call"@
        &&& self.hooks@ == seq![MiddlewareHook::BeforeTool]
    }

    /// Its name.
    pub closed spec fn label(&self) -> Seq<char> {
        self.name@
    }

    /// The hooks it runs at.
    pub closed spec fn hook_list(&self) -> Seq<MiddlewareHook> {
        self.hooks@
    }

    /// The middleware, named `dangling_tool_call`, at `BeforeTool`.
    pub fn new() -> (m: Self)
        ensures
            m.label() == "dangling_tool_call"@,
            m.hook_list() == seq![MiddlewareHook::BeforeTool],
    {
        let mut hooks: Vec<MiddlewareHook> = Vec::new();
        hooks.push(MiddlewareHook::BeforeTool);
        DanglingToolCallMiddleware { name: owned("dangling_tool_call"), hooks }
    }

    /// Its name.
    pub fn name(&self) -> (r: &str)
        ensures
            r@ == "dangling_tool_call"@,
            r@ == self.label(),
    {
        proof {
            use_type_invariant(self);
        }
        self.name.as_str()
    }

    /// The hooks it runs at.
    pub fn hooks(&self) -> (r: &[MiddlewareHook])
        ensures
            r@ == seq![MiddlewareHook::BeforeTool],
            r@ == self.hook_list(),
    {
        proof {
            use_type_invariant(self);
        }
        self.hooks.as_slice()
    }

    /// Appends to `state` a placeholder tool message,
    /// `[Tool execution was interrupted]`, for each tool call of the last
    /// AI message that no later tool message answers, in call order.
    pub fn fix_dangling_tool_calls(&self, state: &mut ThreadState) -> (r: Result<(), HarnessError>)
        ensures
            r is Ok,
            final(state)@ == (ThreadStateModel {
                messages: with_placeholders(old(state)@.messages),
                ..old(state)@
            }),
    {
        let ids = Self::dangling_call_ids(&state.messages);
        let ghost start = state@;
        let ghost ps = views(ids@).map_values(|id: Seq<char>| placeholder(id));
        let mut k: usize = 0;
        while k < ids.len()
            invariant
                k <= ids@.len(),
                ps == views(ids@).map_values(|id: Seq<char>| placeholder(id)),
                state@ == (ThreadStateModel {
                    messages: start.messages + ps.take(k as int),
                    ..start
                }),
            decreases ids.len() - k,
        {
            let m = Message::tool(ids[k].as_str(), "", Content::text("[Tool execution was interrupted]"));
            proof {
                reveal_strlit("[Tool execution was interrupted]");
            }
            let ghost before = state.messages@;
            state.messages.push(m);
            assert(message_views(state.messages@) =~= message_views(before).push(m@));
            assert(ps.take(k + 1) =~= ps.take(k as int).push(placeholder(ids@[k as int]@)));
            assert(m@ == placeholder(ids@[k as int]@));
            assert(start.messages + ps.take(k + 1) =~= (start.messages + ps.take(k as int)).push(
                placeholder(ids@[k as int]@),
            ));
            k += 1;
        }
        assert(ps.take(ps.len() as int) =~= ps);
        Ok(())
    }

    /// The ids of the dangling calls of a list of messages, in call order.
    fn dangling_call_ids(msgs: &Vec<Message>) -> (r: Vec<String>)
        ensures
            views(r@) == dangling_ids(message_views(msgs@)),
    {
        let ghost ms = message_views(msgs@);
        let mut idx: usize = msgs.len();
        while idx > 0 && msgs[idx - 1].role != MessageRole::Ai
            invariant
                idx <= msgs@.len(),
                ms == message_views(msgs@),
                last_ai_index(ms) == last_ai_before(ms, idx as int),
            decreases idx,
        {
            idx -= 1;
        }
        proof {
            lemma_last_ai_before(ms, ms.len() as int);
        }
        let mut out: Vec<String> = Vec::new();
        if idx == 0 {
            return out;
        }
        let ai = idx - 1;
        assert(ms[ai as int] == msgs@[ai as int]@);
        assert(last_ai_index(ms) == Some(ai as int));
        let calls = &msgs[ai].tool_calls;
        let ghost cids = ms[ai as int].tool_calls.map_values(|c: ToolCallModel| c.id);
        let ghost pred = |id: Seq<char>| !answered_after(ms, ai as int, id);
        assert(dangling_ids(ms) == cids.filter(pred));
        let mut k: usize = 0;
        while k < calls.len()
            invariant
                ai < msgs@.len(),
                idx == ai + 1,
                ms == message_views(msgs@),
                ms[ai as int] == msgs@[ai as int]@,
                calls@ == msgs@[ai as int].tool_calls@,
                cids == ms[ai as int].tool_calls.map_values(|c: ToolCallModel| c.id),
                cids.len() == calls@.len(),
                pred == (|id: Seq<char>| !answered_after(ms, ai as int, id)),
                k <= calls@.len(),
                views(out@) == cids.take(k as int).filter(pred),
            decreases calls.len() - k,
        {
            let id = calls[k].id.as_str();
            assert(id@ == cids[k as int]);
            let mut j: usize = idx;
            while j < msgs.len() && !answers(&msgs[j], id)
                invariant
                    ai < j <= msgs@.len(),
                    ms == message_views(msgs@),
                    forall|q: int|
                        ai < q < j ==> !(ms[q].role == MessageRole::Tool && ms[q].tool_call_id
                            == Some(id@)),
                decreases msgs.len() - j,
            {
                assert(ms[j as int] == msgs@[j as int]@);
                j += 1;
            }
            proof {
                cids.take(k as int).lemma_filter_push(cids[k as int], pred);
                assert(cids.take(k + 1) =~= cids.take(k as int).push(cids[k as int]));
            }
            if j == msgs.len() {
                assert(!answered_after(ms, ai as int, id@));
                let ghost before = views(out@);
                out.push(owned(id));
                assert(views(out@) =~= before.push(id@));
            } else {
                assert(ms[j as int] == msgs@[j as int]@);
                assert(answered_after(ms, ai as int, id@));
            }
            k += 1;
        }
        assert(cids.take(cids.len() as int) =~= cids);
        out
    }

    /// Answers the dangling calls of the context's state (see
    /// `fix_dangling_tool_calls`) and records `dangling_calls_checked:
    /// true` in the metadata.
    pub fn execute(&self, context: &mut MiddlewareContext) -> (r: Result<(), HarnessError>)
        ensures
            r is Ok,
            final(context)@.metadata == old(context)@.metadata.insert(
                "dangling_calls_checked"@,
                MetadataValueModel::Bool(true),
            ),
            final(context)@.state == (ThreadStateModel {
                messages: with_placeholders(old(context)@.state.messages),
                ..old(context)@.state
            }),
            final(context)@.thread_id == old(context)@.thread_id,
            final(context)@.hook == old(context)@.hook,
    {
        let _ = self.fix_dangling_tool_calls(&mut context.state);
        context.metadata.insert(owned("dangling_calls_checked"), MetadataValue::Bool(true));
        Ok(())
    }
}

impl Default for DanglingToolCallMiddleware {
    fn default() -> (m: Self) {
        Self::new()
    }
}

// ---------------------------------------------------------------------
// Thread directories
// ---------------------------------------------------------------------

/// The directories of a thread under `base`: workspace, uploads and
/// outputs, in that order.
pub open spec fn thread_dirs(base: Seq<char>, thread_id: Seq<char>) -> Seq<Seq<char>> {
    let t = base + "/"@ + thread_id;
    seq![
        t + "/user-data/workspace"@,
        t + "/user-data/uploads"@,
        t + "/user-data/outputs"@,
    ]
}

/// The middleware that gives each thread its directories for files.
///
/// Creating the directories is the caller's part; the middleware names
/// them, reports a failure, and records them in the metadata.
#[derive(Debug)]
pub struct ThreadDataMiddleware {
    name: String,
    hooks: Vec<MiddlewareHook>,
    base_path: String,
}

impl ThreadDataMiddleware {
    #[verifier::type_invariant]
    closed spec fn wf(&self) -> bool {
        &&& self.name@ == "thread_data"@
        &&& self.hooks@ == seq![MiddlewareHook::BeforeModel]
    }

    /// The directory under which thread directories go.
    pub closed spec fn base(&self) -> Seq<char> {
        self.base_path@
    }

    /// The middleware, named `thread_data`, at `BeforeModel`, with base
    /// path `.deer-flow/threads`.
    pub fn new() -> (m: Self)
        ensures
            m.base() == ".deer-flow/threads"@,
    {
        let mut hooks: Vec<MiddlewareHook> = Vec::new();
        hooks.push(MiddlewareHook::BeforeModel);
        ThreadDataMiddleware {
            name: owned("thread_data"),
            hooks,
            base_path: owned(".deer-flow/threads"),
        }
    }

    /// The middleware with another base path.
    pub fn with_base_path(self, path: &str) -> (m: Self)
        ensures
            m.base() == path@,
    {
        proof {
            use_type_invariant(&self);
        }
        ThreadDataMiddleware { name: self.name, hooks: self.hooks, base_path: owned(path) }
    }

    /// The base path.
    pub fn base_path(&self) -> (r: &str)
        ensures
            r@ == self.base(),
    {
        self.base_path.as_str()
    }

    /// Its name.
    pub fn name(&self) -> (r: &str)
        ensures
            r@ == "thread_data"@,
    {
        proof {
            use_type_invariant(self);
        }
        self.name.as_str()
    }

    /// The hooks it runs at.
    pub fn hooks(&self) -> (r: &[MiddlewareHook])
        ensures
            r@ == seq![MiddlewareHook::BeforeModel],
    {
        proof {
            use_type_invariant(self);
        }
        self.hooks.as_slice()
    }

    /// The directories of `thread_id`: workspace, uploads, outputs.
    pub fn thread_directories(&self, thread_id: &str) -> (r: Vec<String>)
        ensures
            views(r@) == thread_dirs(self.base(), thread_id@),
    {
        let t = concat3(self.base_path.as_str(), "/", thread_id);
        let mut r: Vec<String> = Vec::new();
        r.push(concat2(t.as_str(), "/user-data/workspace"));
        r.push(concat2(t.as_str(), "/user-data/uploads"));
        r.push(concat2(t.as_str(), "/user-data/outputs"));
        assert(views(r@) =~= thread_dirs(self.base(), thread_id@));
        r
    }

    /// The error for a directory that could not be created, with the
    /// cause's text.
    pub fn directory_error(&self, path: &str, cause: &str) -> (e: HarnessError)
        ensures
            e matches HarnessError::Middleware(MiddlewareError::ExecutionFailed(n, m)) && n@
                == "thread_data"@ && m@ == "Failed to create directory "@ + path@ + ": "@
                + cause@,
    {
        proof {
            use_type_invariant(self);
        }
        let a = concat3("Failed to create directory ", path, ": ");
        HarnessError::Middleware(
            MiddlewareError::ExecutionFailed(owned("thread_data"), concat2(a.as_str(), cause)),
        )
    }

    /// Records the thread's directories, once created: the metadata
    /// becomes the one field `thread_directories`, an object with the
    /// fields `workspace`, `uploads` and `outputs`.
    pub fn execute(&self, context: &mut MiddlewareContext)
        ensures
            final(context)@.metadata == map![
                "thread_directories"@ => MetadataValueModel::Object(seq![
                    ("workspace"@, thread_dirs(self.base(), old(context)@.thread_id)[0]),
                    ("uploads"@, thread_dirs(self.base(), old(context)@.thread_id)[1]),
                    ("outputs"@, thread_dirs(self.base(), old(context)@.thread_id)[2]),
                ]),
            ],
            final(context)@.state == old(context)@.state,
            final(context)@.thread_id == old(context)@.thread_id,
            final(context)@.hook == old(context)@.hook,
    {
        let paths = self.thread_directories(context.thread_id.as_str());
        assert(views(paths@).len() == 3);
        let mut fields: Vec<(String, String)> = Vec::new();
        fields.push((owned("workspace"), paths[0].clone()));
        fields.push((owned("uploads"), paths[1].clone()));
        fields.push((owned("outputs"), paths[2].clone()));
        assert(views(paths@)[0] == paths@[0]@);
        assert(views(paths@)[1] == paths@[1]@);
        assert(views(paths@)[2] == paths@[2]@);
        context.metadata.clear();
        context.metadata.insert(owned("thread_directories"), MetadataValue::Object(fields));
        assert(pair_views(fields@) =~= seq![
            ("workspace"@, thread_dirs(self.base(), context@.thread_id)[0]),
            ("uploads"@, thread_dirs(self.base(), context@.thread_id)[1]),
            ("outputs"@, thread_dirs(self.base(), context@.thread_id)[2]),
        ]);
        assert(context@.metadata =~= map![
            "thread_directories"@ => MetadataValueModel::Object(pair_views(fields@)),
        ]);
    }
}

impl Default for ThreadDataMiddleware {
    fn default() -> (m: Self) {
        Self::new()
    }
}

// ---------------------------------------------------------------------
// Titles
// ---------------------------------------------------------------------

/// The uppercase mapping of `c`, one or more characters (`char::to_uppercase`).
pub uninterp spec fn uppercase_of(c: char) -> Seq<char>;

/// `char::to_uppercase`, collected into a string: the Unicode uppercase
/// mapping of `c`.  The contract names the result, and states what std
/// documents of ASCII: `a` to `z` map to `A` to `Z`, and every other
/// ASCII character to itself.
#[verifier::external_body]
fn char_to_uppercase(c: char) -> (r: String)
    ensures
        r@ == uppercase_of(c),
        'a' <= c <= 'z' ==> r@ == seq![((c as u32) - 32) as char],
        (c as u32) < 128 && !('a' <= c <= 'z') ==> r@ == seq![c],
{
    c.to_uppercase().to_string()
}

/// A character of a title: letters, digits and whitespace stay, anything
/// else becomes a space.
pub open spec fn title_char(c: char) -> char {
    if is_alphanumeric_char(c) || is_ws(c) {
        c
    } else {
        ' '
    }
}

/// A word with its first character in uppercase.
pub open spec fn capitalized(w: Seq<char>) -> Seq<char> {
    if w.len() == 0 {
        Seq::empty()
    } else {
        uppercase_of(w[0]) + w.drop_first()
    }
}

/// A character of a title from ASCII text: ASCII letters, digits and
/// whitespace stay, anything else becomes a space.
pub open spec fn ascii_title_char(c: char) -> char {
    if ('a' <= c <= 'z' || 'A' <= c <= 'Z' || '0' <= c <= '9') || is_ws(c) {
        c
    } else {
        ' '
    }
}

/// The uppercase of an ASCII character: `a` to `z` become `A` to `Z`.
pub open spec fn ascii_upper(c: char) -> char {
    if 'a' <= c <= 'z' {
        ((c as u32) - 32) as char
    } else {
        c
    }
}

/// An ASCII word with its first character in uppercase.
pub open spec fn ascii_capitalized(w: Seq<char>) -> Seq<char> {
    if w.len() == 0 {
        Seq::empty()
    } else {
        seq![ascii_upper(w[0])] + w.drop_first()
    }
}

/// The title of ASCII text before truncation: its first `max_words`
/// words, after `ascii_title_char`, each capitalized, joined by spaces.
pub open spec fn ascii_joined_title(content: Seq<char>, max_words: nat) -> Seq<char> {
    join(
        first_n(words(content.map_values(|c: char| ascii_title_char(c))), max_words).map_values(
            |w: Seq<char>| ascii_capitalized(w),
        ),
        " "@,
    )
}

/// The first `n` elements of `s`, or all of them.
pub open spec fn first_n<A>(s: Seq<A>, n: nat) -> Seq<A> {
    if n < s.len() {
        s.take(n as int)
    } else {
        s
    }
}

/// The words of a title made from `content`: the first `max_words`
/// words of its cleaned text, each capitalized.
pub open spec fn title_words(content: Seq<char>, max_words: nat) -> Seq<Seq<char>> {
    first_n(words(content.map_values(|c: char| title_char(c))), max_words).map_values(
        |w: Seq<char>| capitalized(w),
    )
}

/// The title's words joined by single spaces, before any truncation.
pub open spec fn joined_title(content: Seq<char>, max_words: nat) -> Seq<char> {
    join(title_words(content, max_words), " "@)
}

/// Whether `n` bytes into the UTF-8 encoding of `s` is the start of a
/// character (or its end).
pub open spec fn at_char_boundary(s: Seq<char>, n: nat) -> bool {
    exists|k: int| 0 <= k <= s.len() && byte_len(s.take(k)) == n
}

/// The number of characters whose encoding takes the first `n` bytes.
pub open spec fn chars_in_bytes(s: Seq<char>, n: nat) -> int {
    choose|k: int| 0 <= k <= s.len() && byte_len(s.take(k)) == n
}

/// `s` cut to its first `n` bytes, and then before the last space in
/// them, if there is one.
pub open spec fn cut_at_word(s: Seq<char>, n: nat) -> Seq<char> {
    let t = s.take(chars_in_bytes(s, n));
    match rfind_char(t, ' ') {
        Some(p) => t.take(p),
        None => t,
    }
}

/// `s` truncated at a word boundary to at most `n` bytes.
pub open spec fn truncated_title(s: Seq<char>, n: nat) -> Seq<char> {
    if byte_len(s) <= n {
        s
    } else {
        cut_at_word(s, n)
    }
}

/// Whether truncating `s` to `n` bytes cuts at a character boundary,
/// which the cut needs.
pub open spec fn truncatable(s: Seq<char>, n: nat) -> bool {
    byte_len(s) <= n || at_char_boundary(s, n)
}

/// The title made from `content`.
pub open spec fn cleaned_title(content: Seq<char>, max_words: nat, max_chars: nat) -> Seq<char> {
    truncated_title(joined_title(content, max_words), max_chars)
}

/// A prefix of more characters is longer in bytes.
pub proof fn lemma_byte_len_strict(s: Seq<char>, i: int, j: int)
    requires
        0 <= i < j <= s.len(),
    ensures
        byte_len(s.take(i)) < byte_len(s.take(j)),
    decreases j - i,
{
    lemma_byte_len_take(s, i);
    if i + 1 < j {
        lemma_byte_len_strict(s, i + 1, j);
    }
}

/// The number of characters that take exactly the first `n` bytes of
/// `s`, if the `n`-th byte starts a character or ends `s`.
fn prefix_for_bytes(s: &Vec<char>, n: usize) -> (r: Option<usize>)
    ensures
        r matches Some(k) ==> k <= s@.len() && byte_len(s@.take(k as int)) == n && k
            == chars_in_bytes(s@, n as nat),
        r is None ==> !at_char_boundary(s@, n as nat),
{
    let mut acc: u128 = 0;
    let mut i: usize = 0;
    while i < s.len() && acc < n as u128
        invariant
            i <= s@.len(),
            acc == byte_len(s@.take(i as int)),
            i > 0 ==> byte_len(s@.take(i - 1)) < n,
        decreases s.len() - i,
    {
        proof {
            lemma_byte_len_take(s@, i as int);
        }
        acc = acc + char_width(s[i]) as u128;
        i += 1;
    }
    if acc == n as u128 {
        proof {
            let k = chars_in_bytes(s@, n as nat);
            assert(0 <= i <= s@.len() && byte_len(s@.take(i as int)) == n);
            if k < i {
                lemma_byte_len_strict(s@, k, i as int);
            } else if k > i {
                lemma_byte_len_strict(s@, i as int, k);
            }
        }
        Some(i)
    } else {
        proof {
            assert forall|k: int| 0 <= k <= s@.len() implies byte_len(s@.take(k)) != n by {
                if k < i {
                    if k < i - 1 {
                        lemma_byte_len_strict(s@, k, i - 1);
                    }
                } else if k > i {
                    lemma_byte_len_strict(s@, i as int, k);
                }
            }
        }
        None
    }
}

/// Whether the UTF-8 encoding of `s` is longer than `n` bytes.
fn longer_than(s: &Vec<char>, n: usize) -> (r: bool)
    ensures
        r == (byte_len(s@) > n),
{
    let mut acc: u128 = 0;
    let mut i: usize = 0;
    while i < s.len() && acc <= n as u128
        invariant
            i <= s@.len(),
            acc == byte_len(s@.take(i as int)),
        decreases s.len() - i,
    {
        proof {
            lemma_byte_len_take(s@, i as int);
        }
        acc = acc + char_width(s[i]) as u128;
        i += 1;
    }
    proof {
        lemma_byte_len_take(s@, i as int);
        assert(s@.take(s@.len() as int) == s@);
    }
    acc > n as u128
}

/// `s` truncated at a word boundary to at most `max_len` bytes: when it
/// is longer, cut to its first `max_len` bytes and then before the last
/// space among them, if any.  The cut must fall between characters.
pub fn truncate_at_word_boundary(s: &str, max_len: usize) -> (r: String)
    requires
        truncatable(s@, max_len as nat),
    ensures
        r@ == truncated_title(s@, max_len as nat),
{
    let cs = chars_of(s);
    if !longer_than(&cs, max_len) {
        return owned(s);
    }
    let k = match prefix_for_bytes(&cs, max_len) {
        Some(k) => k,
        None => {
            return owned(s);
        },
    };
    let t = string_of_range(&cs, 0, k);
    let tc = chars_of(t.as_str());
    assert(tc@ == s@.take(k as int));
    match rfind_char_in(&tc, ' ') {
        Some(p) => string_of_range(&tc, 0, p),
        None => t,
    }
}

/// The title middleware: after the first exchange, names the thread
/// after its first human message.
#[derive(Debug)]
pub struct TitleMiddleware {
    name: String,
    hooks: Vec<MiddlewareHook>,
    max_words: usize,
    max_chars: usize,
}

/// Position of the first human message.
pub open spec fn first_human_index(msgs: Seq<MessageModel>) -> Option<int> {
    if exists|i: int| 0 <= i < msgs.len() && msgs[i].role == MessageRole::Human {
        Some(
            choose|i: int|
                0 <= i < msgs.len() && msgs[i].role == MessageRole::Human && forall|j: int|
                    0 <= j < i ==> msgs[j].role != MessageRole::Human,
        )
    } else {
        None
    }
}

/// Whether some message has the role.
pub open spec fn has_role(msgs: Seq<MessageModel>, role: MessageRole) -> bool {
    exists|i: int| 0 <= i < msgs.len() && msgs[i].role == role
}

proof fn lemma_first_human(msgs: Seq<MessageModel>, i: int)
    requires
        0 <= i < msgs.len(),
        msgs[i].role == MessageRole::Human,
        forall|j: int| 0 <= j < i ==> msgs[j].role != MessageRole::Human,
    ensures
        first_human_index(msgs) == Some(i),
{
    let k = choose|k: int|
        0 <= k < msgs.len() && msgs[k].role == MessageRole::Human && forall|j: int|
            0 <= j < k ==> msgs[j].role != MessageRole::Human;
    assert(0 <= k < msgs.len() && msgs[k].role == MessageRole::Human && forall|j: int|
        0 <= j < k ==> msgs[j].role != MessageRole::Human);
    if k < i {
        assert(msgs[k].role != MessageRole::Human);
    } else if k > i {
        assert(msgs[i].role != MessageRole::Human);
    }
}

impl TitleMiddleware {
    #[verifier::type_invariant]
    closed spec fn wf(&self) -> bool {
        &&& self.name@ == "title"@
        &&& self.hooks@ == seq![MiddlewareHook::AfterModel]
    }

    /// The most words a title keeps.
    pub closed spec fn word_limit(&self) -> nat {
        self.max_words as nat
    }

    /// The most bytes a title keeps.
    pub closed spec fn char_limit(&self) -> nat {
        self.max_chars as nat
    }

    /// The title that this middleware makes of a thread's messages:
    /// "New Thread" without a human message, else the first human
    /// message's text cleaned.
    pub open spec fn title_for(&self, msgs: Seq<MessageModel>) -> Seq<char> {
        match first_human_index(msgs) {
            Some(i) => cleaned_title(
                content_text(msgs[i].content),
                self.word_limit(),
                self.char_limit(),
            ),
            None => "New Thread"@,
        }
    }

    /// Whether making a title of these messages cuts between characters.
    pub open spec fn can_title(&self, msgs: Seq<MessageModel>) -> bool {
        match first_human_index(msgs) {
            Some(i) => truncatable(
                joined_title(content_text(msgs[i].content), self.word_limit()),
                self.char_limit(),
            ),
            None => true,
        }
    }

    /// The middleware, named `title`, at `AfterModel`, keeping at most 10
    /// words and 50 bytes.
    pub fn new() -> (m: Self)
        ensures
            m.word_limit() == 10,
            m.char_limit() == 50,
    {
        let mut hooks: Vec<MiddlewareHook> = Vec::new();
        hooks.push(MiddlewareHook::AfterModel);
        TitleMiddleware { name: owned("title"), hooks, max_words: 10, max_chars: 50 }
    }

    /// The middleware with another word limit.
    pub fn with_max_words(self, max_words: usize) -> (m: Self)
        ensures
            m.word_limit() == max_words,
            m.char_limit() == self.char_limit(),
    {
        proof {
            use_type_invariant(&self);
        }
        TitleMiddleware {
            name: self.name,
            hooks: self.hooks,
            max_words,
            max_chars: self.max_chars,
        }
    }

    /// The middleware with another byte limit.
    pub fn with_max_chars(self, max_chars: usize) -> (m: Self)
        ensures
            m.char_limit() == max_chars,
            m.word_limit() == self.word_limit(),
    {
        proof {
            use_type_invariant(&self);
        }
        TitleMiddleware {
            name: self.name,
            hooks: self.hooks,
            max_words: self.max_words,
            max_chars,
        }
    }

    /// The word limit.
    pub fn max_words(&self) -> (r: usize)
        ensures
            r == self.word_limit(),
    {
        self.max_words
    }

    /// The byte limit.
    pub fn max_chars(&self) -> (r: usize)
        ensures
            r == self.char_limit(),
    {
        self.max_chars
    }

    /// Its name.
    pub fn name(&self) -> (r: &str)
        ensures
            r@ == "title"@,
    {
        proof {
            use_type_invariant(self);
        }
        self.name.as_str()
    }

    /// The hooks it runs at.
    pub fn hooks(&self) -> (r: &[MiddlewareHook])
        ensures
            r@ == seq![MiddlewareHook::AfterModel],
    {
        proof {
            use_type_invariant(self);
        }
        self.hooks.as_slice()
    }

    /// The title's words joined by spaces, before truncation.
    pub fn title_text(&self, content: &str) -> (r: String)
        ensures
            r@ == joined_title(content@, self.word_limit()),
            is_ascii_text(content@) ==> joined_title(content@, self.word_limit()) == ascii_joined_title(
                content@,
                self.word_limit(),
            ),
            is_ascii_text(content@) ==> is_ascii_text(r@),
    {
        let cs = chars_of(content);
        let mut cleaned: Vec<char> = Vec::new();
        let mut i: usize = 0;
        while i < cs.len()
            invariant
                i <= cs@.len(),
                cs@ == content@,
                cleaned@ == content@.take(i as int).map_values(|c: char| title_char(c)),
                is_ascii_text(content@) ==> cleaned@ == content@.take(i as int).map_values(
                    |c: char| ascii_title_char(c),
                ),
            decreases cs.len() - i,
        {
            let c = cs[i];
            let d = if char_is_alphanumeric(c) || is_whitespace(c) {
                c
            } else {
                ' '
            };
            proof {
                if is_ascii_text(content@) {
                    assert((content@[i as int] as u32) < 128);
                    assert(d == ascii_title_char(c));
                }
            }
            cleaned.push(d);
            assert(content@.take(i + 1).map_values(|c: char| title_char(c)) =~= content@.take(
                i as int,
            ).map_values(|c: char| title_char(c)).push(title_char(c)));
            assert(content@.take(i + 1).map_values(|c: char| ascii_title_char(c)) =~= content@.take(
                i as int,
            ).map_values(|c: char| ascii_title_char(c)).push(ascii_title_char(c)));
            i += 1;
        }
        assert(content@.take(content@.len() as int) == content@);
        proof {
            if is_ascii_text(content@) {
                assert forall|q: int| 0 <= q < cleaned@.len() implies (#[trigger] cleaned@[q] as u32)
                    < 128 by {
                    assert(cleaned@[q] == ascii_title_char(content@[q]));
                    assert((content@[q] as u32) < 128);
                }
                lemma_words_ascii(cleaned@);
            }
        }
        let ws = split_whitespace(&cleaned);
        proof {
            lemma_words_shape(cleaned@);
        }
        let ghost all = words(cleaned@);
        let n = if self.max_words < ws.len() {
            self.max_words
        } else {
            ws.len()
        };
        let ghost kept = first_n(all, self.max_words as nat);
        assert(kept.len() == n);
        let mut parts: Vec<String> = Vec::new();
        let mut k: usize = 0;
        while k < n
            invariant
                n <= ws@.len(),
                ws@.len() == all.len(),
                forall|q: int| 0 <= q < ws@.len() ==> (#[trigger] ws@[q])@ == all[q],
                forall|q: int| 0 <= q < all.len() ==> (#[trigger] all[q]).len() > 0,
                kept == first_n(all, self.max_words as nat),
                kept.len() == n,
                k <= n,
                views(parts@) == kept.take(k as int).map_values(|w: Seq<char>| capitalized(w)),
                is_ascii_text(content@) ==> forall|q: int|
                    0 <= q < all.len() ==> is_ascii_text(#[trigger] all[q]),
                is_ascii_text(content@) ==> views(parts@) == kept.take(k as int).map_values(
                    |w: Seq<char>| ascii_capitalized(w),
                ),
                is_ascii_text(content@) ==> forall|q: int|
                    0 <= q < parts@.len() ==> is_ascii_text(#[trigger] views(parts@)[q]),
            decreases n - k,
        {
            let w = &ws[k];
            assert(w@ == all[k as int]);
            assert(kept[k as int] == all[k as int]);
            let up = char_to_uppercase(w[0]);
            let rest = string_of_range(w, 1, w.len());
            let word = concat2(up.as_str(), rest.as_str());
            assert(w@.subrange(1, w@.len() as int) =~= w@.drop_first());
            proof {
                if is_ascii_text(content@) {
                    assert(is_ascii_text(all[k as int]));
                    assert((w@[0] as u32) < 128);
                    assert(up@ == seq![ascii_upper(w@[0])]);
                    assert(word@ == ascii_capitalized(w@));
                    assert forall|q: int| 0 <= q < word@.len() implies (#[trigger] word@[q] as u32) < 128 by {
                        if q > 0 {
                            assert(word@[q] == w@[q]);
                        }
                    }
                }
            }
            let ghost before = parts@;
            parts.push(word);
            assert(views(parts@) =~= kept.take(k + 1).map_values(|w: Seq<char>| capitalized(w)))
                by {
                assert(views(parts@) =~= views(before).push(word@));
                assert(kept.take(k + 1) =~= kept.take(k as int).push(kept[k as int]));
            }
            proof {
                if is_ascii_text(content@) {
                    assert(views(parts@) =~= views(before).push(word@));
                    assert(kept.take(k + 1) =~= kept.take(k as int).push(kept[k as int]));
                    assert(views(parts@) =~= kept.take(k + 1).map_values(
                        |w: Seq<char>| ascii_capitalized(w),
                    ));
                    assert forall|q: int| 0 <= q < parts@.len() implies is_ascii_text(
                        #[trigger] views(parts@)[q],
                    ) by {
                        if q < before.len() {
                            assert(views(parts@)[q] == views(before)[q]);
                        }
                    }
                }
            }
            k += 1;
        }
        assert(kept.take(n as int) =~= kept);
        proof {
            if is_ascii_text(content@) {
                reveal_strlit(" ");
                lemma_join_ascii(views(parts@), " "@);
                assert(content@.map_values(|c: char| title_char(c)) =~= content@.map_values(
                    |c: char| ascii_title_char(c),
                ));
            }
        }
        join_strings(&parts, " ")
    }

    /// The title made from `content`: its letters, digits and whitespace
    /// (anything else becomes a space), the first words up to the word
    /// limit, each capitalized and joined by single spaces, then
    /// truncated at a word boundary to the byte limit.
    pub fn clean_title(&self, content: &str) -> (r: String)
        requires
            truncatable(joined_title(content@, self.word_limit()), self.char_limit()),
        ensures
            r@ == cleaned_title(content@, self.word_limit(), self.char_limit()),
            is_ascii_text(content@) ==> r@ == truncated_title(
                ascii_joined_title(content@, self.word_limit()),
                self.char_limit(),
            ),
    {
        let joined = self.title_text(content);
        truncate_at_word_boundary(joined.as_str(), self.max_chars)
    }

    /// The title made from `content`, or `None` where the byte limit
    /// falls inside a character.
    pub fn try_clean_title(&self, content: &str) -> (r: Option<String>)
        ensures
            r matches Some(t) ==> truncatable(joined_title(content@, self.word_limit()), self.char_limit())
                && t@ == cleaned_title(content@, self.word_limit(), self.char_limit()),
            r is None ==> !truncatable(joined_title(content@, self.word_limit()), self.char_limit()),
            is_ascii_text(content@) ==> (r matches Some(t) && t@ == truncated_title(
                ascii_joined_title(content@, self.word_limit()),
                self.char_limit(),
            )),
    {
        let joined = self.title_text(content);
        let jc = chars_of(joined.as_str());
        if longer_than(&jc, self.max_chars) {
            match prefix_for_bytes(&jc, self.max_chars) {
                Some(_) => {},
                None => {
                    proof {
                        if is_ascii_text(content@) {
                            let j = jc@;
                            lemma_ascii_byte_len(j, j.len() as int);
                            assert(j.take(j.len() as int) =~= j);
                            lemma_ascii_byte_len(j, self.max_chars as int);
                            assert(at_char_boundary(j, self.max_chars as nat));
                        }
                    }
                    return None;
                },
            }
        }
        Some(self.clean_title(content))
    }

    /// The title of a thread: made from its first human message, or
    /// "New Thread" when there is none.
    pub fn generate_title(&self, state: &ThreadState) -> (r: Result<String, HarnessError>)
        requires
            self.can_title(state@.messages),
        ensures
            r matches Ok(t) && t@ == self.title_for(state@.messages),
    {
        let msgs = &state.messages;
        let ghost ms = message_views(msgs@);
        let mut i: usize = 0;
        while i < msgs.len() && msgs[i].role != MessageRole::Human
            invariant
                i <= msgs@.len(),
                ms == message_views(msgs@),
                forall|j: int| 0 <= j < i ==> ms[j].role != MessageRole::Human,
            decreases msgs.len() - i,
        {
            assert(ms[i as int] == msgs@[i as int]@);
            i += 1;
        }
        if i == msgs.len() {
            assert(first_human_index(ms) is None);
            return Ok(owned("New Thread"));
        }
        assert(ms[i as int] == msgs@[i as int]@);
        proof {
            lemma_first_human(ms, i as int);
        }
        let content = msgs[i].content.to_string();
        Ok(self.clean_title(content.as_str()))
    }

    /// After an exchange (a human message and an AI message in the
    /// state), sets the thread's title and records it as
    /// `generated_title` in the metadata; otherwise changes nothing.
    #[verifier::spinoff_prover]
    pub fn execute(&self, context: &mut MiddlewareContext) -> (r: Result<(), HarnessError>)
        requires
            self.can_title(old(context)@.state.messages),
        ensures
            r is Ok,
            ({
                let ms = old(context)@.state.messages;
                if has_role(ms, MessageRole::Human) && has_role(ms, MessageRole::Ai) {
                    &&& final(context)@.state.title == Some(self.title_for(ms))
                    &&& final(context)@.metadata == old(context)@.metadata.insert(
                        "generated_title"@,
                        MetadataValueModel::Text(self.title_for(ms)),
                    )
                } else {
                    &&& final(context)@.state.title == old(context)@.state.title
                    &&& final(context)@.metadata == old(context)@.metadata
                }
            }),
            final(context)@.state.messages == old(context)@.state.messages,
            final(context)@.state.thread_id == old(context)@.state.thread_id,
            final(context)@.state.sandbox_id == old(context)@.state.sandbox_id,
            final(context)@.state.artifacts == old(context)@.state.artifacts,
            final(context)@.state.viewed_images == old(context)@.state.viewed_images,
            final(context)@.thread_id == old(context)@.thread_id,
            final(context)@.hook == old(context)@.hook,
    {
        let has_human = any_with_role(&context.state.messages, MessageRole::Human);
        let has_ai = any_with_role(&context.state.messages, MessageRole::Ai);
        if has_human && has_ai {
            let title = match self.generate_title(&context.state) {
                Ok(t) => t,
                Err(e) => {
                    return Err(e);
                },
            };
            context.state.title = Some(title.clone());
            context.metadata.insert(owned("generated_title"), MetadataValue::Text(title));
        }
        Ok(())
    }

    /// Runs `execute` where the title can be made; `None`, with the
    /// context unchanged, where the byte limit falls inside a character.
    pub fn try_execute(&self, context: &mut MiddlewareContext) -> (r: Option<
        Result<(), HarnessError>,
    >)
        ensures
            r is None <==> !self.can_title(old(context)@.state.messages),
            r is None ==> final(context)@ == old(context)@,
            r is Some ==> r->0 is Ok,
    {
        let msgs = &context.state.messages;
        let ghost ms = message_views(msgs@);
        let mut i: usize = 0;
        while i < msgs.len() && msgs[i].role != MessageRole::Human
            invariant
                i <= msgs@.len(),
                ms == message_views(msgs@),
                forall|j: int| 0 <= j < i ==> ms[j].role != MessageRole::Human,
            decreases msgs.len() - i,
        {
            assert(ms[i as int] == msgs@[i as int]@);
            i += 1;
        }
        if i < msgs.len() {
            assert(ms[i as int] == msgs@[i as int]@);
            proof {
                lemma_first_human(ms, i as int);
            }
            let content = msgs[i].content.to_string();
            match self.try_clean_title(content.as_str()) {
                Some(_) => {},
                None => {
                    return None;
                },
            }
        } else {
            assert(first_human_index(ms) is None);
        }
        Some(self.execute(context))
    }
}

/// Whether some message has the role.
fn any_with_role(msgs: &Vec<Message>, role: MessageRole) -> (r: bool)
    ensures
        r == has_role(message_views(msgs@), role),
{
    let mut i: usize = 0;
    while i < msgs.len()
        invariant
            i <= msgs@.len(),
            forall|j: int| 0 <= j < i ==> message_views(msgs@)[j].role != role,
        decreases msgs.len() - i,
    {
        if msgs[i].role == role {
            assert(message_views(msgs@)[i as int].role == role);
            return true;
        }
        i += 1;
    }
    false
}

impl Default for TitleMiddleware {
    fn default() -> (m: Self) {
        Self::new()
    }
}

} // verus!
