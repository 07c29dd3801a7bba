//! Guardrails: checks of tool calls before they run, and the allowlist
//! that lets only named tools through.
use crate::strmap::StrSet;
use crate::text::{concat2, concat3, owned, views};
use vstd::prelude::*;

verus! {

/// The outcome of a check.
#[derive(Debug)]
pub struct GuardrailResult {
    /// Whether the call may run.
    pub allowed: bool,
    /// Why not, when denied.
    pub denial_reason: Option<String>,
    /// Extra detail, as JSON text.
    pub metadata: Option<String>,
}

impl GuardrailResult {
    /// The call may run.
    pub fn allowed() -> (r: Self)
        ensures
            r.allowed,
            r.denial_reason is None,
            r.metadata is None,
    {
        GuardrailResult { allowed: true, denial_reason: None, metadata: None }
    }

    /// The call is denied, for a reason.
    pub fn denied(reason: &str) -> (r: Self)
        ensures
            !r.allowed,
            r.denial_reason matches Some(d) && d@ == reason@,
            r.metadata is None,
    {
        GuardrailResult { allowed: false, denial_reason: Some(owned(reason)), metadata: None }
    }

    /// The call is denied, for a reason, with detail.
    pub fn denied_with_metadata(reason: &str, metadata: String) -> (r: Self)
        ensures
            !r.allowed,
            r.denial_reason matches Some(d) && d@ == reason@,
            r.metadata matches Some(m) && m@ == metadata@,
    {
        GuardrailResult {
            allowed: false,
            denial_reason: Some(owned(reason)),
            metadata: Some(metadata),
        }
    }
}

/// A tool call to check.
#[derive(Debug)]
pub struct GuardrailCheck<'a> {
    /// The tool.
    pub tool_name: &'a str,
    /// Its arguments, as JSON text.
    pub arguments: &'a str,
    /// The thread.
    pub thread_id: &'a str,
    /// The user, if known.
    pub user_id: Option<&'a str>,
}

impl<'a> GuardrailCheck<'a> {
    /// A check without a user.
    pub fn new(tool_name: &'a str, arguments: &'a str, thread_id: &'a str) -> (c: Self)
        ensures
            c.tool_name == tool_name,
            c.arguments == arguments,
            c.thread_id == thread_id,
            c.user_id is None,
    {
        GuardrailCheck { tool_name, arguments, thread_id, user_id: None }
    }

    /// With the user.
    pub fn with_user_id(self, user_id: &'a str) -> (c: Self)
        ensures
            c.tool_name == self.tool_name,
            c.arguments == self.arguments,
            c.thread_id == self.thread_id,
            c.user_id == Some(user_id),
    {
        GuardrailCheck { user_id: Some(user_id), ..self }
    }
}

/// Errors of guardrail providers.
#[derive(Debug)]
pub enum GuardrailError {
    /// The provider failed.
    Provider(String),
    /// Its configuration is invalid.
    InvalidConfig(String),
    /// The check failed.
    CheckFailed(String),
}

/// The message of an error.
pub open spec fn error_message(e: GuardrailError) -> Seq<char> {
    match e {
        GuardrailError::Provider(m) => "Provider error: "@ + m@,
        GuardrailError::InvalidConfig(m) => "Invalid configuration: "@ + m@,
        GuardrailError::CheckFailed(m) => "Check failed: "@ + m@,
    }
}

impl GuardrailError {
    /// The message.
    pub fn to_string(&self) -> (s: String)
        ensures
            s@ == error_message(*self),
    {
        match self {
            GuardrailError::Provider(m) => concat2("Provider error: ", m.as_str()),
            GuardrailError::InvalidConfig(m) => concat2("Invalid configuration: ", m.as_str()),
            GuardrailError::CheckFailed(m) => concat2("Check failed: ", m.as_str()),
        }
    }
}

/// The guardrail that allows only the tools on its list.
#[derive(Debug)]
pub struct AllowlistProvider {
    name: String,
    allowed_tools: StrSet,
    enabled: bool,
    denial_message: String,
}

/// The abstract value of an allowlist.
pub struct AllowlistModel {
    /// Its name.
    pub name: Seq<char>,
    /// The tools allowed.
    pub tools: Set<Seq<char>>,
    /// Whether it checks at all.
    pub enabled: bool,
    /// What a denial says first.
    pub denial_message: Seq<char>,
}

impl View for AllowlistProvider {
    type V = AllowlistModel;

    closed spec fn view(&self) -> AllowlistModel {
        AllowlistModel {
            name: self.name@,
            tools: self.allowed_tools@,
            enabled: self.enabled,
            denial_message: self.denial_message@,
        }
    }
}

/// What an allowlist answers for a tool: allowed when disabled or when
/// the tool is on the list, else denied with `<message>: <tool>`.
pub open spec fn allowlist_answer(p: AllowlistModel, tool: Seq<char>) -> Option<Seq<char>> {
    if !p.enabled || p.tools.contains(tool) {
        None
    } else {
        Some(p.denial_message + ": "@ + tool)
    }
}

impl AllowlistProvider {
    /// An enabled allowlist named `allowlist` of the given tools.
    pub fn new(allowed_tools: Vec<String>) -> (p: Self)
        ensures
            p@ == (AllowlistModel {
                name: "allowlist"@,
                tools: views(allowed_tools@).to_set(),
                enabled: true,
                denial_message: "Tool is not in the allowlist"@,
            }),
    {
        let mut set = StrSet::new();
        let mut i: usize = 0;
        while i < allowed_tools.len()
            invariant
                i <= allowed_tools@.len(),
                set@ == views(allowed_tools@).take(i as int).to_set(),
            decreases allowed_tools.len() - i,
        {
            set.insert(allowed_tools[i].clone());
            assert(views(allowed_tools@).take(i + 1) =~= views(allowed_tools@).take(i as int).push(
                allowed_tools@[i as int]@,
            ));
            proof {
                views(allowed_tools@).take(i as int).lemma_push_to_set_commute(allowed_tools@[i as int]@);
            }
            assert(views(allowed_tools@).take(i + 1).to_set() =~= views(allowed_tools@).take(
                i as int,
            ).to_set().insert(allowed_tools@[i as int]@));
            i += 1;
        }
        assert(views(allowed_tools@).take(allowed_tools@.len() as int) == views(allowed_tools@));
        AllowlistProvider {
            name: owned("allowlist"),
            allowed_tools: set,
            enabled: true,
            denial_message: owned("Tool is not in the allowlist"),
        }
    }

    /// With another name.
    pub fn with_name(self, name: &str) -> (p: Self)
        ensures
            p@ == (AllowlistModel { name: name@, ..self@ }),
    {
        AllowlistProvider { name: owned(name), ..self }
    }

    /// Enabled or not.
    pub fn with_enabled(self, enabled: bool) -> (p: Self)
        ensures
            p@ == (AllowlistModel { enabled, ..self@ }),
    {
        AllowlistProvider { enabled, ..self }
    }

    /// With another denial message.
    pub fn with_denial_message(self, message: &str) -> (p: Self)
        ensures
            p@ == (AllowlistModel { denial_message: message@, ..self@ }),
    {
        AllowlistProvider { denial_message: owned(message), ..self }
    }

    /// Allows one more tool.
    pub fn add_tool(&mut self, tool: &str)
        ensures
            final(self)@ == (AllowlistModel { tools: old(self)@.tools.insert(tool@), ..old(self)@ }),
    {
        self.allowed_tools.insert(owned(tool));
    }

    /// Stops allowing a tool; whether it was allowed.
    pub fn remove_tool(&mut self, tool: &str) -> (r: bool)
        ensures
            final(self)@ == (AllowlistModel { tools: old(self)@.tools.remove(tool@), ..old(self)@ }),
            r == old(self)@.tools.contains(tool@),
    {
        self.allowed_tools.remove(tool)
    }

    /// Whether a tool is on the list.
    pub fn is_allowed(&self, tool: &str) -> (r: bool)
        ensures
            r == self@.tools.contains(tool@),
    {
        self.allowed_tools.contains(tool)
    }

    /// The tools on the list, each once.
    pub fn allowed_tools(&self) -> (r: Vec<String>)
        ensures
            views(r@).no_duplicates(),
            forall|k: Seq<char>| self@.tools.contains(k) <==> views(r@).contains(k),
    {
        self.allowed_tools.to_vec()
    }

    /// The number of tools on the list.
    pub fn len(&self) -> (n: usize)
        ensures
            n == self@.tools.len(),
            self@.tools.finite(),
    {
        self.allowed_tools.len()
    }

    /// Whether the list is empty.
    pub fn is_empty(&self) -> (r: bool)
        ensures
            r == (self@.tools.len() == 0),
    {
        self.allowed_tools.len() == 0
    }

    /// Its name.
    pub fn name(&self) -> (r: &str)
        ensures
            r@ == self@.name,
    {
        self.name.as_str()
    }

    /// Whether it checks at all.
    pub fn enabled(&self) -> (r: bool)
        ensures
            r == self@.enabled,
    {
        self.enabled
    }

    /// Checks a call: allowed when disabled or when the tool is on the
    /// list; else denied with `<message>: <tool>`.  It never fails.
    pub fn check(&self, check: &GuardrailCheck) -> (r: Result<GuardrailResult, GuardrailError>)
        ensures
            r matches Ok(g) && match allowlist_answer(self@, check.tool_name@) {
                None => g.allowed && g.denial_reason is None && g.metadata is None,
                Some(m) => !g.allowed && g.metadata is None && (g.denial_reason matches Some(d) && d@ == m),
            },
    {
        if !self.enabled {
            return Ok(GuardrailResult::allowed());
        }
        if self.allowed_tools.contains(check.tool_name) {
            Ok(GuardrailResult::allowed())
        } else {
            let reason = concat3(self.denial_message.as_str(), ": ", check.tool_name);
            Ok(GuardrailResult::denied(reason.as_str()))
        }
    }
}

impl Default for AllowlistProvider {
    fn default() -> (p: Self)
        ensures
            p@ == (AllowlistModel {
                name: "allowlist"@,
                tools: Set::empty(),
                enabled: true,
                denial_message: "Tool is not in the allowlist"@,
            }),
    {
        AllowlistProvider {
            name: owned("allowlist"),
            allowed_tools: StrSet::new(),
            enabled: true,
            denial_message: owned("Tool is not in the allowlist"),
        }
    }
}

/// A tool just added to an allowlist is allowed, and one just removed
/// is denied, when the allowlist is enabled.
pub proof fn law_add_then_remove(p: AllowlistModel, tool: Seq<char>)
    requires
        p.enabled,
    ensures
        allowlist_answer(AllowlistModel { tools: p.tools.insert(tool), ..p }, tool) is None,
        allowlist_answer(AllowlistModel { tools: p.tools.remove(tool), ..p }, tool) == Some(
            p.denial_message + ": "@ + tool,
        ),
{
}

/// A disabled allowlist allows every tool.
pub proof fn law_disabled_allows_all(p: AllowlistModel, tool: Seq<char>)
    requires
        !p.enabled,
    ensures
        allowlist_answer(p, tool) is None,
{
}

} // verus!
