//! The runtime: which agents run, what a command line asks for, and how a prompt
//! becomes a task.

pub mod cli;
pub mod http;
pub mod roles;

use vstd::prelude::*;

use crate::agent::message::Task;
use crate::config::AgentConfig;
use crate::error::AgentError;
use crate::error::SupervisorError;
use crate::sequences;
use crate::session;
use crate::session::Message;
use crate::supervisor::child::ChildSpec;
use crate::supervisor::config::ChildRestart;
use crate::text;
use crate::text::join2;

verus! {

/// Errors from the runtime.
#[derive(Debug)]
pub enum RuntimeError {
    /// Supervisor failed to start or a child could not be spawned.
    Supervisor(SupervisorError),
    /// Bad invocation, printed to stderr with usage hint.
    Usage(String),
    /// The named agent does not exist in this runtime.
    UnknownAgent(String),
    /// An agent returned an error.
    Agent(AgentError),
}

impl RuntimeError {
    /// The message of this error; a wrapped error keeps its own message.
    pub open spec fn text(&self) -> Seq<char> {
        match self {
            RuntimeError::Supervisor(inner) => inner.text(),
            RuntimeError::Usage(what) => what@,
            RuntimeError::UnknownAgent(name) => "unknown agent: "@ + name@,
            RuntimeError::Agent(inner) => inner.text(),
        }
    }

    /// The message of this error.
    pub fn to_string(&self) -> (r: String)
        ensures
            r@ == self.text(),
    {
        match self {
            RuntimeError::Supervisor(inner) => inner.to_string(),
            RuntimeError::Usage(what) => what.clone(),
            RuntimeError::UnknownAgent(name) => join2("unknown agent: ", name.as_str()),
            RuntimeError::Agent(inner) => inner.to_string(),
        }
    }
}

impl From<SupervisorError> for RuntimeError {
    fn from(error: SupervisorError) -> (r: RuntimeError) {
        RuntimeError::Supervisor(error)
    }
}

impl vstd::std_specs::convert::FromSpecImpl<SupervisorError> for RuntimeError {
    open spec fn obeys_from_spec() -> bool {
        true
    }

    open spec fn from_spec(error: SupervisorError) -> RuntimeError {
        RuntimeError::Supervisor(error)
    }
}

impl From<AgentError> for RuntimeError {
    fn from(error: AgentError) -> (r: RuntimeError) {
        RuntimeError::Agent(error)
    }
}

impl vstd::std_specs::convert::FromSpecImpl<AgentError> for RuntimeError {
    open spec fn obeys_from_spec() -> bool {
        true
    }

    open spec fn from_spec(error: AgentError) -> RuntimeError {
        RuntimeError::Agent(error)
    }
}

/// A named agent registration.
///
/// The behavior that goes with it is kept by whoever performs the spawning.
#[derive(Debug)]
pub struct AgentEntry {
    /// Human-readable name. Must be unique within a runtime.
    pub name: String,
    /// Optional per-agent model override.
    pub model: Option<String>,
}

impl AgentEntry {
    /// Creates an entry.
    pub fn new(name: &str) -> (r: Self)
        ensures
            r.name@ == name@,
            r.model is None,
    {
        AgentEntry { name: name.to_owned(), model: None }
    }

    /// Sets the per-agent model ID, overriding the global default.
    pub fn model(self, model_id: &str) -> (r: Self)
        ensures
            r.name == self.name,
            sequences::text_of(r.model) == Some(model_id@),
    {
        AgentEntry { name: self.name, model: Some(model_id.to_owned()) }
    }

    /// The model that an agent uses: its own, else the global default.
    pub open spec fn chosen_model(&self, global_model: Option<String>) -> Option<Seq<char>> {
        match self.model {
            Some(model) => Some(model@),
            None => sequences::text_of(global_model),
        }
    }

    /// The model that the agent uses: its own, else the global default.
    pub fn effective_model(&self, global_model: &Option<String>) -> (r: Option<String>)
        ensures
            sequences::text_of(r) == self.chosen_model(*global_model),
    {
        match &self.model {
            Some(model) => Some(model.clone()),
            None => sequences::clone_text(global_model),
        }
    }
}

/// How an agent is to be started.
#[derive(Debug)]
pub struct AgentPlan {
    /// The child to supervise.
    pub spec: ChildSpec,
    /// The model that the agent uses, if one is set.
    pub model: Option<String>,
}

/// Whether a plan starts an entry: a child of that name that is never restarted,
/// for its behavior is consumed when it is first spawned. All else of the child has
/// its default.
pub open spec fn starts(plan: AgentPlan, entry: AgentEntry, global_model: Option<String>) -> bool {
    &&& plan.spec.name@ == entry.name@
    &&& plan.spec.config.name@ == entry.name@
    &&& plan.spec.config.mailbox_size == 32
    &&& plan.spec.config.restart_policy.max_restarts == 5
    &&& plan.spec.config.restart_policy.window.nanos == 60_000_000_000
    &&& plan.spec.config.restart_policy.backoff_base.nanos == 1_000_000_000
    &&& plan.spec.config.restart_policy.backoff_max.nanos == 30_000_000_000
    &&& plan.spec.shutdown_policy.grace.nanos == 5_000_000_000
    &&& plan.spec.restart is Temporary
    &&& plan.spec.hang_timeout is None
    &&& plan.spec.token_budget is None
    &&& sequences::text_of(plan.model) == entry.chosen_model(global_model)
}

/// Collects agents, the global model and the port.
#[derive(Debug)]
pub struct RuntimeBuilder {
    /// The registered agents, in order of registration.
    pub agents: Vec<AgentEntry>,
    /// The default model for agents that don't specify their own.
    pub global_model: Option<String>,
    /// The HTTP server port.
    pub port: u16,
}

impl RuntimeBuilder {
    /// A builder with no agents, no model and the default port.
    pub fn new() -> (r: Self)
        ensures
            r.agents@ == Seq::<AgentEntry>::empty(),
            r.global_model is None,
            r.port == 3000,
    {
        RuntimeBuilder { agents: Vec::new(), global_model: None, port: 3000 }
    }

    /// Registers an agent with the runtime.
    pub fn agent(self, entry: AgentEntry) -> (r: Self)
        ensures
            r.agents@ == self.agents@.push(entry),
            r.global_model == self.global_model,
            r.port == self.port,
    {
        let mut agents = self.agents;
        agents.push(entry);
        RuntimeBuilder { agents, global_model: self.global_model, port: self.port }
    }

    /// Sets the global default model ID for agents that don't specify their own.
    pub fn model(self, model_id: &str) -> (r: Self)
        ensures
            r.agents == self.agents,
            sequences::text_of(r.global_model) == Some(model_id@),
            r.port == self.port,
    {
        RuntimeBuilder {
            agents: self.agents,
            global_model: Some(model_id.to_owned()),
            port: self.port,
        }
    }

    /// Sets the HTTP server port (default: 3000). Only used with `serve` mode.
    pub fn port(self, port: u16) -> (r: Self)
        ensures
            r == (RuntimeBuilder { port, ..self }),
    {
        RuntimeBuilder { port, ..self }
    }

    /// How the registered agents are to be started, in order of registration.
    pub fn plan(&self) -> (r: Vec<AgentPlan>)
        ensures
            r@.len() == self.agents@.len(),
            forall|i: int|
                0 <= i < r@.len() ==> starts(
                    #[trigger] r@[i],
                    self.agents@[i],
                    self.global_model,
                ),
    {
        let mut plans: Vec<AgentPlan> = Vec::new();
        let mut i: usize = 0;
        while i < self.agents.len()
            invariant
                i <= self.agents@.len(),
                plans@.len() == i,
                forall|j: int|
                    0 <= j < i ==> starts(
                        #[trigger] plans@[j],
                        self.agents@[j],
                        self.global_model,
                    ),
            decreases self.agents@.len() - i,
        {
            let entry = &self.agents[i];
            let config = AgentConfig::new(entry.name.as_str());
            let spec = ChildSpec::new(entry.name.as_str(), config).with_restart(
                ChildRestart::Temporary,
            );
            let model = entry.effective_model(&self.global_model);
            plans.push(AgentPlan { spec, model });
            i += 1;
        }
        plans
    }
}

/// The error where a behavior is asked for a second time.
pub fn behavior_consumed() -> (r: SupervisorError)
    ensures
        r matches SupervisorError::SpawnFailed(what) && what@
            == "AgentEntry behavior already consumed (restart not supported)"@,
{
    SupervisorError::SpawnFailed(
        "AgentEntry behavior already consumed (restart not supported)".to_owned(),
    )
}

/// What a command line asks for.
#[derive(Debug)]
pub enum Invocation {
    /// Serve HTTP on a port.
    Serve {
        /// The port to listen on.
        port: u16,
    },
    /// Hand a prompt to an agent and print what comes back.
    Cli {
        /// The name of the agent.
        agent: String,
        /// The prompt; empty if there was none.
        prompt: String,
    },
    /// Nothing that is understood: print this text and fail.
    Usage(String),
}

/// The argument at a place, if there is one.
pub open spec fn argument(args: Seq<String>, i: int) -> Option<Seq<char>> {
    if 0 <= i < args.len() {
        Some(args[i]@)
    } else {
        None
    }
}

/// The port that a `serve` command asks for: the one after `--port` where that is
/// a port number, else the default.
pub open spec fn served_port(args: Seq<String>, default_port: u16) -> u16 {
    if argument(args, 2) == Some("--port"@) {
        match argument(args, 3) {
            Some(port) => match text::parsed_u16(port) {
                Some(port) => port,
                None => default_port,
            },
            None => default_port,
        }
    } else {
        default_port
    }
}

/// Whether `r` is what a command line asks for.
pub open spec fn is_invocation(args: Seq<String>, default_port: u16, r: Invocation) -> bool {
    match argument(args, 1) {
        None => r matches Invocation::Usage(usage) && usage@ == "usage: "@ + args[0]@
            + " serve | "@ + args[0]@ + " <agent-name> <prompt>"@,
        Some(first) => if first == "serve"@ {
            r == (Invocation::Serve { port: served_port(args, default_port) })
        } else {
            r matches Invocation::Cli { agent, prompt } && agent@ == first && prompt@ == (
            match argument(args, 2) {
                Some(prompt) => prompt,
                None => ""@,
            })
        },
    }
}

/// Reads a command line, the name of the program first.
///
/// | second argument         | result                        |
/// |-------------------------|-------------------------------|
/// | `serve`                 | HTTP server on default port   |
/// | `serve --port N`        | HTTP server on port N         |
/// | `<agent-name> <prompt>` | one-shot dispatch             |
/// | absent                  | usage                         |
pub fn parse_args(args: &Vec<String>, default_port: u16) -> (r: Invocation)
    requires
        args@.len() > 0,
    ensures
        match argument(args@, 1) {
            None => r matches Invocation::Usage(usage) && usage@ == "usage: "@ + args@[0]@
                + " serve | "@ + args@[0]@ + " <agent-name> <prompt>"@,
            Some(first) => if first == "serve"@ {
                r == (Invocation::Serve { port: served_port(args@, default_port) })
            } else {
                r matches Invocation::Cli { agent, prompt } && agent@ == first && prompt@ == (
                match argument(args@, 2) {
                    Some(prompt) => prompt,
                    None => ""@,
                })
            },
        },
        is_invocation(args@, default_port, r),
{
    if args.len() < 2 {
        let mut usage = "usage: ".to_owned();
        usage.append(args[0].as_str());
        usage.append(" serve | ");
        usage.append(args[0].as_str());
        usage.append(" <agent-name> <prompt>");
        return Invocation::Usage(usage);
    }
    if args[1] == "serve".to_owned() {
        let mut port: u16 = default_port;
        if args.len() > 2 && args[2] == "--port".to_owned() {
            if args.len() > 3 {
                match text::parse_u16(args[3].as_str()) {
                    Some(asked) => {
                        port = asked;
                    },
                    None => {},
                }
            }
        }
        return Invocation::Serve { port };
    }
    let prompt = if args.len() > 2 {
        args[2].clone()
    } else {
        "".to_owned()
    };
    Invocation::Cli { agent: args[1].clone(), prompt }
}

/// The history that goes with a task: that of its session, if it has one.
pub open spec fn loaded_history(
    session_id: Option<String>,
    loaded: Result<Vec<Message>, String>,
) -> Result<Seq<session::StoredView>, Seq<char>> {
    match (session_id, loaded) {
        (None, _) => Ok(Seq::empty()),
        (Some(_), Ok(history)) => Ok(session::history_view(history@)),
        (Some(_), Err(error)) => Err("session load failed: "@ + error@),
    }
}

/// Whether `r` is the task that carries a prompt to an agent, or what stands against
/// it.
pub open spec fn is_dispatch(
    agent_name: Seq<char>,
    known: bool,
    prompt: Seq<char>,
    session_id: Option<String>,
    role: Option<String>,
    loaded: Result<Vec<Message>, String>,
    r: Result<Task, RuntimeError>,
) -> bool {
    if !known {
        r matches Err(RuntimeError::UnknownAgent(name)) && name@ == agent_name
    } else {
        match loaded_history(session_id, loaded) {
            Err(message) => {
                &&& r matches Err(RuntimeError::Agent(AgentError::HandlerFailed(what)))
                &&& what@ == message
            },
            Ok(history) => {
                &&& r matches Ok(task)
                &&& task.instruction@ == prompt
                &&& task.session_id == session_id
                &&& session::history_view(task.history@) == history
                &&& task.has_store
                &&& task.role == role
            },
        }
    }
}

/// Makes the task that carries a prompt to an agent, with what the session store
/// holds of its session. Nothing is made for an agent that is not known, or where
/// the store failed.
pub fn prepare_dispatch(
    agent_name: &str,
    known: bool,
    prompt: &str,
    session_id: Option<String>,
    role: Option<String>,
    loaded: Result<Vec<Message>, String>,
) -> (r: Result<Task, RuntimeError>)
    ensures
        if !known {
            r matches Err(RuntimeError::UnknownAgent(name)) && name@ == agent_name@
        } else {
            match loaded_history(session_id, loaded) {
                Err(message) => {
                    &&& r matches Err(RuntimeError::Agent(AgentError::HandlerFailed(what)))
                    &&& what@ == message
                },
                Ok(history) => {
                    &&& r matches Ok(task)
                    &&& crate::ids::is_random_id(task.id.value)
                    &&& task.instruction@ == prompt@
                    &&& task.context@ == "null"@
                    &&& task.session_id == session_id
                    &&& session::history_view(task.history@) == history
                    &&& task.has_store
                    &&& task.role == role
                },
            }
        },
        is_dispatch(agent_name@, known, prompt@, session_id, role, loaded, r),
{
    if !known {
        return Err(RuntimeError::UnknownAgent(agent_name.to_owned()));
    }
    let mut task = Task::new(prompt);
    match &session_id {
        None => {},
        Some(_) => {
            match loaded {
                Ok(history) => {
                    task.history = history;
                },
                Err(error) => {
                    return Err(
                        RuntimeError::Agent(
                            AgentError::HandlerFailed(
                                join2("session load failed: ", error.as_str()),
                            ),
                        ),
                    );
                },
            }
        },
    }
    task.session_id = session_id;
    task.has_store = true;
    task.role = role;
    Ok(task)
}

/// An agent's own model takes precedence over the global one; the global one
/// serves agents that have none.
pub proof fn law_own_model_comes_first(entry: AgentEntry, global_model: Option<String>)
    ensures
        entry.model is Some ==> entry.chosen_model(global_model) == sequences::text_of(entry.model),
        entry.model is None ==> entry.chosen_model(global_model) == sequences::text_of(
            global_model,
        ),
{
}

/// A command line without arguments is answered with the usage. `serve` serves: on
/// the port after `--port` where that is one, else on the default. Anything else
/// names an agent, and what follows is the prompt.
pub proof fn law_command_line_says_what_to_do(
    args: Seq<String>,
    default_port: u16,
    port: u16,
    r: Invocation,
)
    requires
        args.len() > 0,
        is_invocation(args, default_port, r),
    ensures
        r is Usage <==> args.len() == 1,
        r is Serve <==> args.len() > 1 && args[1]@ == "serve"@,
        args.len() == 2 && args[1]@ == "serve"@ ==> r == (Invocation::Serve {
            port: default_port,
        }),
        args.len() > 3 && args[1]@ == "serve"@ && args[2]@ == "--port"@ && args[3]@
            == text::decimal(port as nat) ==> r == (Invocation::Serve { port }),
        args.len() > 2 && args[1]@ == "serve"@ && args[2]@ != "--port"@ ==> r == (
        Invocation::Serve { port: default_port }),
        args.len() > 1 && args[1]@ != "serve"@ ==> {
            &&& r matches Invocation::Cli { agent, prompt }
            &&& agent@ == args[1]@
            &&& args.len() > 2 ==> prompt@ == args[2]@
            &&& args.len() == 2 ==> prompt@.len() == 0
        },
{
    text::law_decimal_reads_back(port as nat);
    reveal_strlit("");
}

/// A prompt for an agent that is known becomes a task with that prompt, session and
/// role, and with all that the store holds of the session, in order. Without a
/// session it begins with nothing, whatever the store says.
pub proof fn law_prompts_become_tasks(
    agent_name: Seq<char>,
    prompt: Seq<char>,
    session_id: Option<String>,
    role: Option<String>,
    loaded: Result<Vec<Message>, String>,
    r: Result<Task, RuntimeError>,
    i: int,
)
    requires
        is_dispatch(agent_name, true, prompt, session_id, role, loaded, r),
    ensures
        r is Err <==> session_id is Some && loaded is Err,
        r matches Ok(task) ==> {
            &&& task.instruction@ == prompt
            &&& task.session_id == session_id
            &&& task.role == role
            &&& task.has_store
            &&& session_id is None ==> task.history@.len() == 0
            &&& session_id is Some ==> {
                &&& loaded matches Ok(history)
                &&& task.history@.len() == history@.len()
                &&& 0 <= i < history@.len() ==> task.history@[i].role == history@[i].role
                    && task.history@[i].content@ == history@[i].content@
            }
        },
{
    if let Ok(task) = r {
        let seen = session::history_view(task.history@);
        assert(seen.len() == task.history@.len());
        if session_id is Some && loaded is Ok {
            let history = loaded->Ok_0;
            assert(session::history_view(history@).len() == history@.len());
            if 0 <= i < history@.len() {
                assert(seen[i] == session::history_view(history@)[i]);
            }
        }
    }
}

/// A prompt for an agent that is not known is refused by the agent's name, and a store
/// that failed is told.
pub proof fn law_unknown_agents_get_no_task(
    agent_name: Seq<char>,
    known: bool,
    prompt: Seq<char>,
    session_id: Option<String>,
    role: Option<String>,
    loaded: Result<Vec<Message>, String>,
    r: Result<Task, RuntimeError>,
)
    requires
        is_dispatch(agent_name, known, prompt, session_id, role, loaded, r),
    ensures
        (r matches Err(RuntimeError::UnknownAgent(name)) && name@ == agent_name) <==> !known,
        known && session_id is Some && loaded is Err ==> (
        r matches Err(RuntimeError::Agent(AgentError::HandlerFailed(what)))
            && what@.len() >= loaded->Err_0@.len() && what@.skip(
            what@.len() - loaded->Err_0@.len(),
        ) == loaded->Err_0@),
{
    if known && session_id is Some && loaded is Err {
        let error = loaded->Err_0@;
        let told = "session load failed: "@ + error;
        assert(told.skip(told.len() - error.len()) =~= error);
    }
}

/// A registered agent is started under its name, and at most once. It uses its own
/// model, or the global one if it has none.
pub proof fn law_agents_are_started_once(
    plan: AgentPlan,
    entry: AgentEntry,
    global_model: Option<String>,
)
    requires
        starts(plan, entry, global_model),
    ensures
        plan.spec.name@ == entry.name@,
        plan.spec.config.name@ == entry.name@,
        plan.spec.restart is Temporary,
        !plan.spec.restart.restarts(true),
        match (entry.model, global_model) {
            (Some(own), _) => plan.model matches Some(model) && model@ == own@,
            (None, Some(global)) => plan.model matches Some(model) && model@ == global@,
            (None, None) => plan.model is None,
        },
{
}

} // verus!
