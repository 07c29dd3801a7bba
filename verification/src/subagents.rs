//! Subagents: the definitions of the agents a lead agent can delegate
//! to, their registry, and the executor of delegated tasks.
use crate::error::HarnessError;
use crate::ids::new_uuid_v4;
use crate::strmap::StrMap;
use crate::text::{concat2, concat3, fmt_u64, decimal, owned, str_eq, views};
use vstd::prelude::*;

verus! {

/// The definition of a subagent.
#[derive(Debug)]
pub struct AgentDefinition {
    /// Its id.
    pub id: String,
    /// Its name.
    pub name: String,
    /// What it does.
    pub description: String,
    /// Its type, such as `general-purpose` or `bash`.
    pub agent_type: String,
    /// Its system prompt.
    pub system_prompt: String,
    /// The most turns it may take.
    pub max_turns: Option<usize>,
    /// The tool groups it may use.
    pub tool_groups: Vec<String>,
}

/// The abstract value of a definition.
pub struct AgentDefinitionModel {
    /// Id.
    pub id: Seq<char>,
    /// Name.
    pub name: Seq<char>,
    /// Description.
    pub description: Seq<char>,
    /// Type.
    pub agent_type: Seq<char>,
    /// System prompt.
    pub system_prompt: Seq<char>,
    /// Most turns.
    pub max_turns: Option<usize>,
    /// Tool groups.
    pub tool_groups: Seq<Seq<char>>,
}

impl View for AgentDefinition {
    type V = AgentDefinitionModel;

    open spec fn view(&self) -> AgentDefinitionModel {
        AgentDefinitionModel {
            id: self.id@,
            name: self.name@,
            description: self.description@,
            agent_type: self.agent_type@,
            system_prompt: self.system_prompt@,
            max_turns: self.max_turns,
            tool_groups: views(self.tool_groups@),
        }
    }
}

impl AgentDefinition {
    /// A definition without a turn limit or tool groups.
    pub fn new(
        id: &str,
        name: &str,
        description: &str,
        agent_type: &str,
        system_prompt: &str,
    ) -> (a: Self)
        ensures
            a@ == (AgentDefinitionModel {
                id: id@,
                name: name@,
                description: description@,
                agent_type: agent_type@,
                system_prompt: system_prompt@,
                max_turns: None,
                tool_groups: Seq::empty(),
            }),
    {
        let a = AgentDefinition {
            id: owned(id),
            name: owned(name),
            description: owned(description),
            agent_type: owned(agent_type),
            system_prompt: owned(system_prompt),
            max_turns: None,
            tool_groups: Vec::new(),
        };
        assert(views(a.tool_groups@) =~= Seq::<Seq<char>>::empty());
        a
    }

    /// The definition with a turn limit.
    pub fn with_max_turns(self, max_turns: usize) -> (a: Self)
        ensures
            a@ == (AgentDefinitionModel { max_turns: Some(max_turns), ..self@ }),
    {
        AgentDefinition { max_turns: Some(max_turns), ..self }
    }

    /// The definition with one more tool group.
    pub fn with_tool_group(self, group: &str) -> (a: Self)
        ensures
            a@ == (AgentDefinitionModel { tool_groups: self@.tool_groups.push(group@), ..self@ }),
    {
        let mut a = self;
        let ghost before = a.tool_groups@;
        a.tool_groups.push(owned(group));
        assert(views(a.tool_groups@) =~= views(before).push(group@));
        a
    }
}

impl Clone for AgentDefinition {
    fn clone(&self) -> (r: Self)
        ensures
            r@ == self@,
    {
        AgentDefinition {
            id: self.id.clone(),
            name: self.name.clone(),
            description: self.description.clone(),
            agent_type: self.agent_type.clone(),
            system_prompt: self.system_prompt.clone(),
            max_turns: self.max_turns,
            tool_groups: crate::text::clone_strings(&self.tool_groups),
        }
    }
}

/// The ids, among `ids` and in their order, of the agents of type `t`.
pub open spec fn typed_ids(
    m: Map<Seq<char>, AgentDefinitionModel>,
    ids: Seq<Seq<char>>,
    t: Seq<char>,
) -> Seq<Seq<char>> {
    ids.filter(|k: Seq<char>| m[k].agent_type == t)
}

/// Listing the agents of a type gives each agent of that type once: of
/// distinct ids, the ids kept are distinct, and an id is kept exactly
/// when it is listed and its agent has that type.
pub proof fn law_each_typed_agent_once(
    m: Map<Seq<char>, AgentDefinitionModel>,
    ids: Seq<Seq<char>>,
    t: Seq<char>,
)
    requires
        ids.no_duplicates(),
    ensures
        typed_ids(m, ids, t).no_duplicates(),
        forall|k: Seq<char>|
            #[trigger] typed_ids(m, ids, t).contains(k) <==> ids.contains(k) && m[k].agent_type == t,
{
    crate::text::lemma_filter_distinct(ids, |k: Seq<char>| m[k].agent_type == t);
}

/// The registry of subagents, by id.
#[derive(Debug)]
pub struct AgentRegistry {
    agents: StrMap<AgentDefinition>,
}

impl View for AgentRegistry {
    type V = Map<Seq<char>, AgentDefinitionModel>;

    closed spec fn view(&self) -> Map<Seq<char>, AgentDefinitionModel> {
        self.agents@
    }
}

impl AgentRegistry {
    /// The ids in the order they were first registered.
    pub closed spec fn id_order(&self) -> Seq<Seq<char>> {
        self.agents.key_order()
    }

    /// An empty registry.
    pub fn new() -> (r: Self)
        ensures
            r@ == Map::<Seq<char>, AgentDefinitionModel>::empty(),
    {
        AgentRegistry { agents: StrMap::new() }
    }

    /// Registers a definition under its id, replacing one with the same
    /// id.  It always succeeds.
    pub fn register(&mut self, agent: AgentDefinition) -> (r: Result<(), HarnessError>)
        ensures
            r is Ok,
            final(self)@ == old(self)@.insert(agent.id@, agent@),
    {
        let id = agent.id.clone();
        self.agents.insert(id, agent);
        Ok(())
    }

    /// The definition with id `id`.
    pub fn get(&self, id: &str) -> (r: Option<&AgentDefinition>)
        ensures
            r matches Some(a) ==> self@.contains_key(id@) && a@ == self@[id@],
            r is None ==> !self@.contains_key(id@),
    {
        self.agents.get(id)
    }

    /// The ids, each once.
    pub fn list(&self) -> (r: Vec<String>)
        ensures
            views(r@).no_duplicates(),
            forall|k: Seq<char>| self@.contains_key(k) <==> views(r@).contains(k),
    {
        self.agents.keys()
    }

    /// The definitions of type `agent_type`, each once, in registration
    /// order.
    pub fn list_by_type(&self, agent_type: &str) -> (r: Vec<&AgentDefinition>)
        ensures
            r@.map_values(|a: &AgentDefinition| a@) == typed_ids(self@, self.id_order(), agent_type@).map_values(
                |k: Seq<char>| self@[k],
            ),
            self.id_order().no_duplicates(),
            forall|k: Seq<char>| self@.contains_key(k) <==> self.id_order().contains(k),
    {
        let mut r: Vec<&AgentDefinition> = Vec::new();
        let n = self.agents.entry_count();
        let ghost ko = self.agents.key_order();
        let ghost m = self@;
        let ghost pred = |k: Seq<char>| m[k].agent_type == agent_type@;
        let mut i: usize = 0;
        while i < n
            invariant
                ko == self.agents.key_order(),
                ko == self.id_order(),
                m == self@,
                n == ko.len(),
                i <= n,
                pred == (|k: Seq<char>| m[k].agent_type == agent_type@),
                r@.map_values(|a: &AgentDefinition| a@) == ko.take(i as int).filter(pred).map_values(
                    |k: Seq<char>| m[k],
                ),
            decreases n - i,
        {
            let (k, a) = self.agents.entry(i);
            proof {
                ko.take(i as int).lemma_filter_push(ko[i as int], pred);
                assert(ko.take(i + 1) =~= ko.take(i as int).push(ko[i as int]));
            }
            if str_eq(a.agent_type.as_str(), agent_type) {
                let ghost before = r@;
                r.push(a);
                assert(r@.map_values(|a: &AgentDefinition| a@) =~= before.map_values(
                    |a: &AgentDefinition| a@,
                ).push(m[ko[i as int]]));
                assert(ko.take(i as int).filter(pred).push(ko[i as int]).map_values(|k: Seq<char>| m[k])
                    =~= ko.take(i as int).filter(pred).map_values(|k: Seq<char>| m[k]).push(
                    m[ko[i as int]],
                ));
            }
            i += 1;
        }
        assert(ko.take(n as int) =~= ko);
        r
    }

    /// Removes the definition with id `id`; fails with `Agent not found:
    /// <id>` when there is none.
    pub fn remove(&mut self, id: &str) -> (r: Result<(), HarnessError>)
        ensures
            final(self)@ == old(self)@.remove(id@),
            r is Ok <==> old(self)@.contains_key(id@),
            r matches Err(e) ==> e matches HarnessError::Other(m) && m@ == "Agent not found: "@
                + id@,
    {
        match self.agents.remove(id) {
            Some(_) => Ok(()),
            None => Err(HarnessError::Other(concat2("Agent not found: ", id))),
        }
    }

    /// Whether an agent has id `id`.
    pub fn contains(&self, id: &str) -> (r: bool)
        ensures
            r == self@.contains_key(id@),
    {
        self.agents.contains_key(id)
    }

    /// The number of agents.
    pub fn len(&self) -> (n: usize)
        ensures
            n == self@.dom().len(),
            self@.dom().finite(),
    {
        self.agents.len()
    }

    /// Whether there is no agent.
    pub fn is_empty(&self) -> (r: bool)
        ensures
            r == (self@.dom().len() == 0),
    {
        self.agents.len() == 0
    }
}

impl Default for AgentRegistry {
    fn default() -> (r: Self)
        ensures
            r@ == Map::<Seq<char>, AgentDefinitionModel>::empty(),
    {
        Self::new()
    }
}

/// The status of a task.
#[derive(Debug, Clone, Copy, PartialEq, Eq, Structural)]
pub enum TaskStatus {
    /// Waiting.
    Pending,
    /// Running.
    Running,
    /// Done.
    Completed,
    /// Failed.
    Failed,
    /// Out of time.
    TimedOut,
}

impl Default for TaskStatus {
    fn default() -> (s: Self)
        ensures
            s == TaskStatus::Pending,
    {
        TaskStatus::Pending
    }
}

/// A delegated task.
#[derive(Debug)]
pub struct SubagentTask {
    /// Its id.
    pub id: String,
    /// The agent that runs it.
    pub agent_id: String,
    /// Its prompt.
    pub prompt: String,
    /// Its status.
    pub status: TaskStatus,
    /// Its result, once completed.
    pub result: Option<String>,
}

/// The abstract value of a task.
pub struct SubagentTaskModel {
    /// Id.
    pub id: Seq<char>,
    /// Agent.
    pub agent_id: Seq<char>,
    /// Prompt.
    pub prompt: Seq<char>,
    /// Status.
    pub status: TaskStatus,
    /// Result.
    pub result: Option<Seq<char>>,
}

impl View for SubagentTask {
    type V = SubagentTaskModel;

    open spec fn view(&self) -> SubagentTaskModel {
        SubagentTaskModel {
            id: self.id@,
            agent_id: self.agent_id@,
            prompt: self.prompt@,
            status: self.status,
            result: crate::models::base::opt_view(self.result),
        }
    }
}

impl Clone for SubagentTask {
    fn clone(&self) -> (r: Self)
        ensures
            r@ == self@,
    {
        SubagentTask {
            id: self.id.clone(),
            agent_id: self.agent_id.clone(),
            prompt: self.prompt.clone(),
            status: self.status,
            result: crate::models::base::clone_opt(&self.result),
        }
    }
}

/// What running a task gives: a placeholder naming the prompt.
pub open spec fn placeholder_result(prompt: Seq<char>) -> Seq<char> {
    "[Subagent execution placeholder for prompt: "@ + prompt + "]"@
}

/// The executor of delegated tasks.
#[derive(Debug)]
pub struct SubagentExecutor {
    registry: std::sync::Arc<AgentRegistry>,
    tasks: StrMap<SubagentTask>,
    max_concurrent: usize,
    running: usize,
}

impl SubagentExecutor {
    /// The agents it can run.
    pub closed spec fn agents(&self) -> Map<Seq<char>, AgentDefinitionModel> {
        self.registry@
    }

    /// The tasks, by id.
    pub closed spec fn task_map(&self) -> Map<Seq<char>, SubagentTaskModel> {
        self.tasks@
    }

    /// The most tasks that may run at once.
    pub closed spec fn limit(&self) -> nat {
        self.max_concurrent as nat
    }

    /// The tasks running now.
    pub closed spec fn running_now(&self) -> nat {
        self.running as nat
    }

    /// An executor over `registry`, running at most `max_concurrent`
    /// tasks at once, with no task yet.
    pub fn new(registry: std::sync::Arc<AgentRegistry>, max_concurrent: usize) -> (e: Self)
        ensures
            e.agents() == registry@,
            e.limit() == max_concurrent,
            e.running_now() == 0,
            e.task_map() == Map::<Seq<char>, SubagentTaskModel>::empty(),
    {
        SubagentExecutor { registry, tasks: StrMap::new(), max_concurrent, running: 0 }
    }

    /// The most tasks that may run at once.
    pub fn max_concurrent(&self) -> (n: usize)
        ensures
            n == self.limit(),
    {
        self.max_concurrent
    }

    /// Runs a task of agent `agent_id` on `prompt`.  It fails with
    /// `Agent not found: <id>` when no agent has that id, and with
    /// `Maximum concurrent tasks (<n>) exceeded` when the limit is
    /// reached; otherwise it records a task under a fresh id, completed
    /// with its result, and gives the result.
    pub fn execute(&mut self, agent_id: &str, prompt: &str) -> (r: Result<String, HarnessError>)
        ensures
            final(self).agents() == old(self).agents(),
            final(self).limit() == old(self).limit(),
            final(self).running_now() == old(self).running_now(),
            !old(self).agents().contains_key(agent_id@) ==> (r matches Err(e) && e matches HarnessError::Other(m)
                && m@ == "Agent not found: "@ + agent_id@ && final(self).task_map()
                == old(self).task_map()),
            old(self).agents().contains_key(agent_id@) && old(self).running_now() >= old(
                self,
            ).limit() ==> (r matches Err(e) && e matches HarnessError::Other(m) && m@
                == "Maximum concurrent tasks ("@ + decimal(old(self).limit()) + ") exceeded"@
                && final(self).task_map() == old(self).task_map()),
            old(self).agents().contains_key(agent_id@) && old(self).running_now() < old(
                self,
            ).limit() ==> (r matches Ok(t) && t@ == placeholder_result(prompt@) && exists|
                id: Seq<char>,
            |
                final(self).task_map() == old(self).task_map().insert(
                    id,
                    SubagentTaskModel {
                        id,
                        agent_id: agent_id@,
                        prompt: prompt@,
                        status: TaskStatus::Completed,
                        result: Some(placeholder_result(prompt@)),
                    },
                )),
    {
        let started = self.start_task(agent_id, prompt);
        let task_id = match started {
            Ok(id) => id,
            Err(e) => {
                return Err(e);
            },
        };
        let output = Self::task_output(prompt);
        let result: Result<String, HarnessError> = Ok(output);
        self.finish_task(task_id.as_str(), &result);
        proof {
            let id = task_id@;
            assert(self.task_map() =~= old(self).task_map().insert(
                id,
                SubagentTaskModel {
                    id,
                    agent_id: agent_id@,
                    prompt: prompt@,
                    status: TaskStatus::Completed,
                    result: Some(placeholder_result(prompt@)),
                },
            ));
        }
        result
    }

    /// Starts a task of agent `agent_id` on `prompt`.  It fails with
    /// `Agent not found: <id>` when no agent has that id, and with
    /// `Maximum concurrent tasks (<n>) exceeded` when as many tasks as the
    /// limit are running, changing nothing; otherwise it records the task
    /// as running under a fresh id, counts it among those running, and
    /// gives its id.
    pub fn start_task(&mut self, agent_id: &str, prompt: &str) -> (r: Result<String, HarnessError>)
        ensures
            final(self).agents() == old(self).agents(),
            final(self).limit() == old(self).limit(),
            !old(self).agents().contains_key(agent_id@) ==> (r matches Err(e) && e matches HarnessError::Other(m)
                && m@ == "Agent not found: "@ + agent_id@ && final(self).task_map()
                == old(self).task_map() && final(self).running_now() == old(self).running_now()),
            old(self).agents().contains_key(agent_id@) && old(self).running_now() >= old(
                self,
            ).limit() ==> (r matches Err(e) && e matches HarnessError::Other(m) && m@
                == "Maximum concurrent tasks ("@ + decimal(old(self).limit()) + ") exceeded"@
                && final(self).task_map() == old(self).task_map() && final(self).running_now()
                == old(self).running_now()),
            old(self).agents().contains_key(agent_id@) && old(self).running_now() < old(
                self,
            ).limit() ==> (r matches Ok(id) && final(self).running_now() == old(self).running_now() + 1
                && final(self).task_map() == old(self).task_map().insert(
                id@,
                SubagentTaskModel {
                    id: id@,
                    agent_id: agent_id@,
                    prompt: prompt@,
                    status: TaskStatus::Running,
                    result: None,
                },
            )),
    {
        let agent = self.registry.get(agent_id);
        if agent.is_none() {
            return Err(HarnessError::Other(concat2("Agent not found: ", agent_id)));
        }
        if self.running >= self.max_concurrent {
            let n = fmt_u64(self.max_concurrent as u64);
            return Err(
                HarnessError::Other(
                    concat3("Maximum concurrent tasks (", n.as_str(), ") exceeded"),
                ),
            );
        }
        self.running = self.running + 1;
        let task_id = new_uuid_v4();
        let task = SubagentTask {
            id: task_id.clone(),
            agent_id: owned(agent_id),
            prompt: owned(prompt),
            status: TaskStatus::Running,
            result: None,
        };
        self.tasks.insert(task_id.clone(), task);
        Ok(task_id)
    }

    /// What running a task on `prompt` gives: a placeholder naming it.
    pub fn task_output(prompt: &str) -> (r: String)
        ensures
            r@ == placeholder_result(prompt@),
    {
        concat3("[Subagent execution placeholder for prompt: ", prompt, "]")
    }

    /// Finishes the task `task_id` with its result: completed with the
    /// output, or failed without one; it is no longer counted among
    /// those running.  An unknown id changes no task.
    pub fn finish_task(&mut self, task_id: &str, result: &Result<String, HarnessError>)
        ensures
            final(self).agents() == old(self).agents(),
            final(self).limit() == old(self).limit(),
            final(self).running_now() == if old(self).running_now() > 0 {
                (old(self).running_now() - 1) as nat
            } else {
                0
            },
            old(self).task_map().contains_key(task_id@) ==> final(self).task_map() == old(
                self,
            ).task_map().insert(
                task_id@,
                SubagentTaskModel {
                    status: match result {
                        Ok(_) => TaskStatus::Completed,
                        Err(_) => TaskStatus::Failed,
                    },
                    result: match result {
                        Ok(t) => Some(t@),
                        Err(_) => None,
                    },
                    ..old(self).task_map()[task_id@]
                },
            ),
            !old(self).task_map().contains_key(task_id@) ==> final(self).task_map() == old(
                self,
            ).task_map(),
    {
        let found = match self.tasks.get(task_id) {
            Some(t) => Some(SubagentTask {
                id: t.id.clone(),
                agent_id: t.agent_id.clone(),
                prompt: t.prompt.clone(),
                status: match result {
                    Ok(_) => TaskStatus::Completed,
                    Err(_) => TaskStatus::Failed,
                },
                result: match result {
                    Ok(r) => Some(r.clone()),
                    Err(_) => None,
                },
            }),
            None => None,
        };
        match found {
            Some(t) => {
                self.tasks.insert(owned(task_id), t);
            },
            None => {},
        }
        if self.running > 0 {
            self.running = self.running - 1;
        }
    }

    /// The task with id `task_id`, copied.
    pub fn get_task(&self, task_id: &str) -> (r: Option<SubagentTask>)
        ensures
            r matches Some(t) ==> self.task_map().contains_key(task_id@) && t@ == self.task_map()[task_id@],
            r is None ==> !self.task_map().contains_key(task_id@),
    {
        match self.tasks.get(task_id) {
            Some(t) => Some(t.clone()),
            None => None,
        }
    }

    /// The task ids in the order the tasks were recorded.
    pub closed spec fn task_order(&self) -> Seq<Seq<char>> {
        self.tasks.key_order()
    }

    /// Every task, copied, in the order they were recorded.
    pub fn list_tasks(&self) -> (r: Vec<SubagentTask>)
        ensures
            r@.len() == self.task_map().dom().len(),
            r@.len() == self.task_order().len(),
            self.task_order().no_duplicates(),
            forall|k: Seq<char>| self.task_map().contains_key(k) <==> self.task_order().contains(k),
            forall|i: int|
                0 <= i < r@.len() ==> (#[trigger] r@[i])@ == self.task_map()[self.task_order()[i]],
    {
        let mut r: Vec<SubagentTask> = Vec::new();
        let n = self.tasks.entry_count();
        let mut i: usize = 0;
        while i < n
            invariant
                n == self.tasks.key_order().len(),
                i <= n,
                r@.len() == i,
                forall|q: int|
                    0 <= q < i ==> (#[trigger] r@[q])@ == self.task_map()[self.task_order()[q]],
            decreases n - i,
        {
            let (_, t) = self.tasks.entry(i);
            r.push(t.clone());
            i += 1;
        }
        r
    }
}

} // verus!
