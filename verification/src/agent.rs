//! The conversation loop: a state machine that drives one task to
//! completion.
//!
//! The loop owns the message list and the conversation history. The
//! surrounding program calls the model and the tools; the machine decides.
//! Each model response is interpreted in priority order: a complete
//! final-answer segment ends the task at once; otherwise a complete,
//! parsable action segment selects a tool invocation; anything else takes
//! the bounded retry path, which aborts the task on the fifth fruitless
//! model call. Executing a shell command first asks the operator for
//! confirmation; declining cancels the task without an error.
use vstd::prelude::*;

use crate::errors::{AgentError, ErrV};
use crate::parser::{parse_action, spec_parse_action};
use crate::tags::{
    action_close, action_open, extract_action, extract_final_answer, final_answer_close,
    final_answer_open, spec_extract,
};
use crate::text::{spec_trim, str_chars, str_eq, str_string, trim_chars};
use crate::tools::{
    not_found_msg, not_found_observation, run_terminal_command_name, spec_lookup, spec_plan,
    ToolRegistry, ToolRequest, ToolRequestV, ToolV,
};
use crate::types::{Message, MessageV, Role};

verus! {

/// The hard ceiling on fruitless model calls for one task.
pub const MAX_RETRIES: usize = 5;

/// The envelope around the operator's task text.
pub open spec fn question_envelope(task: Seq<char>) -> Seq<char> {
    "<question>"@ + task + "</question>"@
}

/// The envelope around a tool observation fed back to the model.
pub open spec fn observation_envelope(obs: Seq<char>) -> Seq<char> {
    "<observation>"@ + obs + "</observation>"@
}

/// The decimal digit character for `n` between 0 and 9.
pub open spec fn digit_char(n: int) -> char {
    if n == 0 {
        '0'
    } else if n == 1 {
        '1'
    } else if n == 2 {
        '2'
    } else if n == 3 {
        '3'
    } else if n == 4 {
        '4'
    } else if n == 5 {
        '5'
    } else if n == 6 {
        '6'
    } else if n == 7 {
        '7'
    } else if n == 8 {
        '8'
    } else {
        '9'
    }
}

/// The synthetic user turn asking the model to reissue a well-formed
/// action tag, carrying the current retry count.
pub open spec fn retry_prompt(n: int) -> Seq<char> {
    "Please send a complete action tag again, in the form <action>tool_name(arguments)</action>. This is retry "@
        + seq![digit_char(n)] + " of 5."@
}

/// The diagnostic of the one hard-stop failure: the retry ceiling.
pub open spec fn retry_limit_error() -> Seq<char> {
    "the retry limit of 5 was reached; no complete action tag arrived"@
}

/// The result text of a task the operator declined to continue.
pub open spec fn cancel_message() -> Seq<char> {
    "operation cancelled by the operator"@
}

/// Where the loop stands between two events.
enum Phase {
    AwaitingModel,
    AwaitingObservation { response: String },
    AwaitingConfirmation { response: String, name: String, args: Vec<String> },
    Done,
}

/// The mathematical shadow of a [`Phase`].
pub ghost enum PhaseV {
    AwaitingModel,
    AwaitingObservation { response: Seq<char> },
    AwaitingConfirmation { response: Seq<char>, name: Seq<char>, args: Seq<Seq<char>> },
    Done,
}

spec fn phase_view(p: &Phase) -> PhaseV {
    match p {
        Phase::AwaitingModel => PhaseV::AwaitingModel,
        Phase::AwaitingObservation { response } => PhaseV::AwaitingObservation {
            response: response@,
        },
        Phase::AwaitingConfirmation { response, name, args } => PhaseV::AwaitingConfirmation {
            response: response@,
            name: name@,
            args: args.deep_view(),
        },
        Phase::Done => PhaseV::Done,
    }
}

/// What the loop asks the surrounding program to do next.
#[derive(Debug)]
pub enum LoopStep {
    /// Send the current message list to the model and hand back the text.
    CallModel,
    /// Ask the operator whether the named shell command may run.
    ConfirmCommand { name: String, args: Vec<String> },
    /// Perform the planned tool work and hand back the observation text.
    ExecuteTool { request: ToolRequest },
    /// The task succeeded with this answer.
    Finished { answer: String },
    /// The operator declined; the task ends without an error.
    Cancelled { message: String },
    /// The task failed with this error.
    Failed { error: AgentError },
}

/// The mathematical shadow of a [`LoopStep`].
pub ghost enum StepV {
    CallModel,
    ConfirmCommand { name: Seq<char>, args: Seq<Seq<char>> },
    ExecuteTool { request: ToolRequestV },
    Finished { answer: Seq<char> },
    Cancelled { message: Seq<char> },
    Failed { error: ErrV },
}

impl View for LoopStep {
    type V = StepV;

    open spec fn view(&self) -> StepV {
        match self {
            LoopStep::CallModel => StepV::CallModel,
            LoopStep::ConfirmCommand { name, args } => StepV::ConfirmCommand {
                name: name@,
                args: args.deep_view(),
            },
            LoopStep::ExecuteTool { request } => StepV::ExecuteTool { request: request@ },
            LoopStep::Finished { answer } => StepV::Finished { answer: answer@ },
            LoopStep::Cancelled { message } => StepV::Cancelled { message: message@ },
            LoopStep::Failed { error } => StepV::Failed { error: error@ },
        }
    }
}

/// The loop's full mathematical state.
pub ghost struct LoopV {
    pub tools: Seq<ToolV>,
    pub history: Seq<MessageV>,
    pub messages: Seq<MessageV>,
    pub retry: int,
    pub phase: PhaseV,
}

/// The message list with the system turns removed: what is persisted as
/// conversation history.
pub open spec fn spec_strip_system(ms: Seq<MessageV>) -> Seq<MessageV>
    decreases ms.len(),
{
    if ms.len() == 0 {
        Seq::empty()
    } else {
        let pre = spec_strip_system(ms.drop_last());
        if ms.last().role is System {
            pre
        } else {
            pre.push(ms.last())
        }
    }
}

/// Starting a task: a fresh message list holding the system prompt, the
/// persisted history, and the operator's question in its envelope; the
/// retry counter is reset.
pub open spec fn spec_start(s: LoopV, system_prompt: Seq<char>, task: Seq<char>) -> LoopV {
    LoopV {
        messages: seq![MessageV { role: Role::System, content: system_prompt }] + s.history + seq![
            MessageV { role: Role::User, content: question_envelope(task) },
        ],
        retry: 0,
        phase: PhaseV::AwaitingModel,
        ..s
    }
}

/// The retry path: the counter rises by one, the reissue prompt is
/// appended as a user turn, and the task fails exactly when the counter
/// reaches the ceiling.
pub open spec fn spec_retry_step(s: LoopV, c: Seq<char>) -> (LoopV, StepV) {
    let n = s.retry + 1;
    let msgs = s.messages.push(MessageV { role: Role::User, content: retry_prompt(n) });
    if n >= MAX_RETRIES as int {
        (
            LoopV { messages: msgs, retry: n, phase: PhaseV::Done, ..s },
            StepV::Failed { error: ErrV::Runtime(retry_limit_error()) },
        )
    } else {
        (LoopV { messages: msgs, retry: n, ..s }, StepV::CallModel)
    }
}

/// Dispatching a parsed action: an unknown tool name becomes an
/// observation fed back to the model; a known tool plans its invocation,
/// whose failure ends the task and whose success asks the surrounding
/// program to perform the request.
pub open spec fn spec_dispatch(
    s: LoopV,
    response: Seq<char>,
    name: Seq<char>,
    args: Seq<Seq<char>>,
) -> (LoopV, StepV) {
    match spec_lookup(s.tools, name) {
        None => {
            let msgs = s.messages.push(
                MessageV { role: Role::Assistant, content: response },
            ).push(
                MessageV { role: Role::User, content: observation_envelope(not_found_msg(name)) },
            );
            (
                LoopV {
                    messages: msgs,
                    history: spec_strip_system(msgs),
                    phase: PhaseV::AwaitingModel,
                    ..s
                },
                StepV::CallModel,
            )
        },
        Some(t) => match spec_plan(t, args) {
            Err(e) => (LoopV { phase: PhaseV::Done, ..s }, StepV::Failed { error: e }),
            Ok(req) => (
                LoopV { phase: PhaseV::AwaitingObservation { response }, ..s },
                StepV::ExecuteTool { request: req },
            ),
        },
    }
}

/// Interpreting one model response, in priority order: a complete
/// final-answer segment wins and ends the task; otherwise a complete,
/// parsable action segment selects a tool (the shell tool via the
/// operator's confirmation); anything else takes the retry path.
pub open spec fn spec_respond(s: LoopV, c: Seq<char>) -> (LoopV, StepV) {
    match spec_extract(c, final_answer_open(), final_answer_close()) {
        Some(answer) => {
            let msgs = s.messages.push(MessageV { role: Role::Assistant, content: c });
            (
                LoopV {
                    messages: msgs,
                    history: spec_strip_system(msgs),
                    phase: PhaseV::Done,
                    ..s
                },
                StepV::Finished { answer },
            )
        },
        None => match spec_extract(c, action_open(), action_close()) {
            None => spec_retry_step(s, c),
            Some(a) => match spec_parse_action(a) {
                None => spec_retry_step(s, c),
                Some(pair) => {
                    if pair.0 == run_terminal_command_name() {
                        (
                            LoopV {
                                phase: PhaseV::AwaitingConfirmation {
                                    response: c,
                                    name: pair.0,
                                    args: pair.1,
                                },
                                ..s
                            },
                            StepV::ConfirmCommand { name: pair.0, args: pair.1 },
                        )
                    } else {
                        spec_dispatch(s, c, pair.0, pair.1)
                    }
                },
            },
        },
    }
}

/// Recording a tool observation: the pending assistant turn and the
/// enveloped observation are appended, the history is refreshed, and the
/// loop awaits the next model call.
pub open spec fn spec_observe(s: LoopV, obs: Seq<char>) -> LoopV {
    match s.phase {
        PhaseV::AwaitingObservation { response } => {
            let msgs = s.messages.push(
                MessageV { role: Role::Assistant, content: response },
            ).push(MessageV { role: Role::User, content: observation_envelope(obs) });
            LoopV {
                messages: msgs,
                history: spec_strip_system(msgs),
                phase: PhaseV::AwaitingModel,
                ..s
            }
        },
        _ => s,
    }
}

/// Resolving the operator's answer on a pending shell command: approval
/// dispatches the command, refusal cancels the task without an error.
pub open spec fn spec_confirm(s: LoopV, approved: bool) -> (LoopV, StepV) {
    match s.phase {
        PhaseV::AwaitingConfirmation { response, name, args } => {
            if approved {
                spec_dispatch(LoopV { phase: PhaseV::AwaitingModel, ..s }, response, name, args)
            } else {
                (
                    LoopV { phase: PhaseV::Done, ..s },
                    StepV::Cancelled { message: cancel_message() },
                )
            }
        },
        _ => (s, StepV::CallModel),
    }
}

fn clone_message(m: &Message) -> (r: Message)
    ensures
        r@ == m@,
{
    Message { role: m.role, content: m.content.clone() }
}

fn assistant_message(content: &str) -> (r: Message)
    ensures
        r@ == (MessageV { role: Role::Assistant, content: content@ }),
{
    Message { role: Role::Assistant, content: str_string(content) }
}

fn question_message(task: &str) -> (r: Message)
    ensures
        r@ == (MessageV { role: Role::User, content: question_envelope(task@) }),
{
    let mut c = String::new();
    crate::text::append_str(&mut c, "<question>");
    crate::text::append_str(&mut c, task);
    crate::text::append_str(&mut c, "</question>");
    assert(c@ =~= question_envelope(task@));
    Message { role: Role::User, content: c }
}

fn observation_message(obs: &str) -> (r: Message)
    ensures
        r@ == (MessageV { role: Role::User, content: observation_envelope(obs@) }),
{
    let mut c = String::new();
    crate::text::append_str(&mut c, "<observation>");
    crate::text::append_str(&mut c, obs);
    crate::text::append_str(&mut c, "</observation>");
    assert(c@ =~= observation_envelope(obs@));
    Message { role: Role::User, content: c }
}

fn retry_message(n: usize) -> (r: Message)
    requires
        n <= 9,
    ensures
        r@ == (MessageV { role: Role::User, content: retry_prompt(n as int) }),
{
    let d: char = if n == 0 {
        '0'
    } else if n == 1 {
        '1'
    } else if n == 2 {
        '2'
    } else if n == 3 {
        '3'
    } else if n == 4 {
        '4'
    } else if n == 5 {
        '5'
    } else if n == 6 {
        '6'
    } else if n == 7 {
        '7'
    } else if n == 8 {
        '8'
    } else {
        '9'
    };
    let mut c = String::new();
    crate::text::append_str(
        &mut c,
        "Please send a complete action tag again, in the form <action>tool_name(arguments)</action>. This is retry ",
    );
    crate::text::push_char(&mut c, d);
    crate::text::append_str(&mut c, " of 5.");
    assert(c@ =~= retry_prompt(n as int));
    Message { role: Role::User, content: c }
}

/// The conversation loop: the tool registry, the persisted history, and
/// the state of the task in flight.
pub struct ConversationLoop {
    tools: ToolRegistry,
    conversation_history: Vec<Message>,
    messages: Vec<Message>,
    retry_count: usize,
    phase: Phase,
}

impl View for ConversationLoop {
    type V = LoopV;

    closed spec fn view(&self) -> LoopV {
        LoopV {
            tools: self.tools@,
            history: self.conversation_history@.map_values(|m: Message| m@),
            messages: self.messages@.map_values(|m: Message| m@),
            retry: self.retry_count as int,
            phase: phase_view(&self.phase),
        }
    }
}

impl ConversationLoop {
    /// A fresh loop around the given registry: no history, no task in
    /// flight.
    pub fn new(tools: ToolRegistry) -> (r: Self)
        ensures
            r@ == (LoopV {
                tools: tools@,
                history: Seq::<MessageV>::empty(),
                messages: Seq::<MessageV>::empty(),
                retry: 0,
                phase: PhaseV::AwaitingModel,
            }),
    {
        let r = ConversationLoop {
            tools,
            conversation_history: Vec::new(),
            messages: Vec::new(),
            retry_count: 0,
            phase: Phase::AwaitingModel,
        };
        proof {
            assert(r@.history =~= Seq::<MessageV>::empty());
            assert(r@.messages =~= Seq::<MessageV>::empty());
        }
        r
    }

    /// The tool registry the loop dispatches against.
    pub fn tools(&self) -> (r: &ToolRegistry)
        ensures
            r@ == self@.tools,
    {
        &self.tools
    }

    /// The message list of the task in flight, to send to the model.
    pub fn messages(&self) -> (r: &Vec<Message>)
        ensures
            r@.len() == self@.messages.len(),
            forall|i: int| 0 <= i < r@.len() ==> r@[i]@ == self@.messages[i],
    {
        &self.messages
    }

    /// How many turns the persisted history holds.
    pub fn get_conversation_length(&self) -> (r: usize)
        ensures
            r == self@.history.len(),
    {
        self.conversation_history.len()
    }

    /// Forgets the persisted history; the registry and any task in flight
    /// are untouched.
    pub fn clear_conversation_history(&mut self)
        ensures
            final(self)@ == (LoopV { history: Seq::<MessageV>::empty(), ..old(self)@ }),
    {
        self.conversation_history = Vec::new();
        proof {
            assert(self@.history =~= Seq::<MessageV>::empty());
        }
    }

    /// Recomputes the persisted history from the current message list,
    /// dropping system turns.
    fn update_history(&mut self)
        ensures
            final(self)@ == (LoopV {
                history: spec_strip_system(old(self)@.messages),
                ..old(self)@
            }),
    {
        let n: usize = self.messages.len();
        let mut h: Vec<Message> = Vec::new();
        let mut i: usize = 0;
        proof {
            assert(self@.messages.take(0) =~= Seq::<MessageV>::empty());
            assert(h@.map_values(|m: Message| m@) =~= Seq::<MessageV>::empty());
        }
        while i < n
            invariant
                i <= n,
                n == self.messages@.len(),
                self == old(self),
                self@.messages.len() == n,
                h@.map_values(|m: Message| m@) == spec_strip_system(
                    self@.messages.take(i as int),
                ),
            decreases n - i,
        {
            let ghost pre = h@.map_values(|m: Message| m@);
            proof {
                assert(self@.messages.take(i + 1).drop_last() =~= self@.messages.take(i as int));
                assert(self@.messages.take(i + 1).last() == self@.messages[i as int]);
                assert(self@.messages[i as int] == self.messages@[i as int]@);
            }
            let m: &Message = &self.messages[i];
            match m.role {
                Role::System => {},
                _ => {
                    h.push(clone_message(m));
                    proof {
                        assert(h@.map_values(|mm: Message| mm@) =~= pre.push(m@));
                    }
                },
            }
            i = i + 1;
        }
        proof {
            assert(self@.messages.take(n as int) =~= self@.messages);
        }
        self.conversation_history = h;
    }

    /// Starts a new task: the message list is rebuilt from the system
    /// prompt, the persisted history and the enveloped task text, and the
    /// retry counter is reset. The first move is to call the model.
    pub fn start_task(&mut self, system_prompt: &str, task: &str) -> (step: LoopStep)
        ensures
            final(self)@ == spec_start(old(self)@, system_prompt@, task@),
            step@ == StepV::CallModel,
    {
        let mut msgs: Vec<Message> = Vec::new();
        msgs.push(Message { role: Role::System, content: str_string(system_prompt) });
        let ghost sys = MessageV { role: Role::System, content: system_prompt@ };
        proof {
            assert(msgs@.map_values(|m: Message| m@) =~= seq![sys]);
        }
        let n: usize = self.conversation_history.len();
        let mut i: usize = 0;
        proof {
            assert(seq![sys] + self@.history.take(0) =~= seq![sys]);
        }
        while i < n
            invariant
                i <= n,
                n == self.conversation_history@.len(),
                self == old(self),
                self@.history.len() == n,
                msgs@.map_values(|m: Message| m@) == seq![sys] + self@.history.take(i as int),
            decreases n - i,
        {
            let ghost pre = msgs@.map_values(|m: Message| m@);
            proof {
                assert(self@.history[i as int] == self.conversation_history@[i as int]@);
            }
            let m: &Message = &self.conversation_history[i];
            msgs.push(clone_message(m));
            proof {
                assert(msgs@.map_values(|mm: Message| mm@) =~= pre.push(m@));
                assert(pre.push(m@) =~= seq![sys] + self@.history.take(i + 1));
            }
            i = i + 1;
        }
        proof {
            assert(self@.history.take(n as int) =~= self@.history);
        }
        let ghost pre = msgs@.map_values(|m: Message| m@);
        let q = question_message(task);
        let ghost qv = q@;
        msgs.push(q);
        proof {
            assert(msgs@.map_values(|mm: Message| mm@) =~= pre.push(qv));
        }
        self.messages = msgs;
        self.retry_count = 0;
        self.phase = Phase::AwaitingModel;
        proof {
            assert(self@.messages =~= spec_start(old(self)@, system_prompt@, task@).messages);
        }
        LoopStep::CallModel
    }

    /// The retry path of [`Self::on_model_response`].
    fn retry_step(&mut self) -> (step: LoopStep)
        requires
            0 <= old(self)@.retry <= MAX_RETRIES as int,
            old(self)@.phase is AwaitingModel,
        ensures
            ({
                let (s2, st) = spec_retry_step(old(self)@, Seq::<char>::empty());
                final(self)@ == (LoopV { messages: s2.messages, retry: s2.retry, phase: s2.phase, ..old(self)@ })
                    && step@ == st
            }),
    {
        let n: usize = self.retry_count + 1;
        self.retry_count = n;
        let ghost pre = self@.messages;
        let m = retry_message(n);
        let ghost mv = m@;
        self.messages.push(m);
        proof {
            assert(self@.messages =~= pre.push(mv));
        }
        if n >= MAX_RETRIES {
            self.phase = Phase::Done;
            LoopStep::Failed {
                error: AgentError::RuntimeError(
                    str_string(
                        "the retry limit of 5 was reached; no complete action tag arrived",
                    ),
                ),
            }
        } else {
            LoopStep::CallModel
        }
    }

    /// Looks the tool up and plans its invocation; see [`spec_dispatch`].
    fn dispatch(&mut self, response: &str, name: &String, args: Vec<String>) -> (step: LoopStep)
        requires
            old(self)@.phase is AwaitingModel,
        ensures
            ({
                let (s2, st) = spec_dispatch(old(self)@, response@, name@, args.deep_view());
                final(self)@ == s2 && step@ == st
            }),
    {
        let found: bool = match self.tools.get_tool(name.as_str()) {
            Some(_) => true,
            None => false,
        };
        if !found {
            let obs = not_found_observation(name.as_str());
            let ghost pre = self@.messages;
            let m1 = assistant_message(response);
            let ghost v1 = m1@;
            self.messages.push(m1);
            proof {
                assert(self@.messages =~= pre.push(v1));
            }
            let ghost pre2 = self@.messages;
            let m2 = observation_message(obs.as_str());
            let ghost v2 = m2@;
            self.messages.push(m2);
            proof {
                assert(self@.messages =~= pre2.push(v2));
            }
            self.update_history();
            self.phase = Phase::AwaitingModel;
            return LoopStep::CallModel;
        }
        let planned: Result<ToolRequest, AgentError> = match self.tools.get_tool(name.as_str()) {
            Some(t) => t.plan(&args),
            None => Err(AgentError::RuntimeError(String::new())),
        };
        match planned {
            Err(e) => {
                self.phase = Phase::Done;
                LoopStep::Failed { error: e }
            },
            Ok(req) => {
                self.phase = Phase::AwaitingObservation { response: str_string(response) };
                LoopStep::ExecuteTool { request: req }
            },
        }
    }

    /// Interprets one model response; see [`spec_respond`]. A complete
    /// final answer wins over everything else; a missing or unparsable
    /// action takes the retry path, which fails the task on the fifth
    /// fruitless model call; a parsed shell command asks for
    /// confirmation; any other parsed action is dispatched.
    pub fn on_model_response(&mut self, content: &str) -> (step: LoopStep)
        requires
            old(self)@.phase is AwaitingModel,
            0 <= old(self)@.retry <= MAX_RETRIES as int,
        ensures
            ({
                let (s2, st) = spec_respond(old(self)@, content@);
                final(self)@ == s2 && step@ == st
            }),
    {
        match extract_final_answer(content) {
            Some(answer) => {
                let ghost pre = self@.messages;
                let m = assistant_message(content);
                let ghost mv = m@;
                self.messages.push(m);
                proof {
                    assert(self@.messages =~= pre.push(mv));
                }
                self.update_history();
                self.phase = Phase::Done;
                LoopStep::Finished { answer }
            },
            None => {
                match extract_action(content) {
                    None => self.retry_step(),
                    Some(action) => {
                        match parse_action(action.as_str()) {
                            Err(_) => self.retry_step(),
                            Ok((name, args)) => {
                                if str_eq(name.as_str(), "run_terminal_command") {
                                    proof {
                                        assert(name@ == run_terminal_command_name());
                                    }
                                    let name2 = name.clone();
                                    let args2 = clone_string_vec(&args);
                                    self.phase = Phase::AwaitingConfirmation {
                                        response: str_string(content),
                                        name: name2,
                                        args: args2,
                                    };
                                    LoopStep::ConfirmCommand { name, args }
                                } else {
                                    self.dispatch(content, &name, args)
                                }
                            },
                        }
                    },
                }
            },
        }
    }

    /// Records a tool observation and resumes the loop; see
    /// [`spec_observe`].
    pub fn on_observation(&mut self, observation: &str) -> (step: LoopStep)
        requires
            old(self)@.phase is AwaitingObservation,
        ensures
            final(self)@ == spec_observe(old(self)@, observation@),
            step@ == StepV::CallModel,
    {
        let response: String = match &self.phase {
            Phase::AwaitingObservation { response } => response.clone(),
            _ => String::new(),
        };
        let ghost pre = self@.messages;
        let m1 = assistant_message(response.as_str());
        let ghost v1 = m1@;
        self.messages.push(m1);
        proof {
            assert(self@.messages =~= pre.push(v1));
        }
        let ghost pre2 = self@.messages;
        let m2 = observation_message(observation);
        let ghost v2 = m2@;
        self.messages.push(m2);
        proof {
            assert(self@.messages =~= pre2.push(v2));
        }
        self.update_history();
        self.phase = Phase::AwaitingModel;
        LoopStep::CallModel
    }

    /// Resolves the operator's answer on a pending shell command; see
    /// [`spec_confirm`].
    pub fn on_confirmation(&mut self, approved: bool) -> (step: LoopStep)
        requires
            old(self)@.phase is AwaitingConfirmation,
        ensures
            ({
                let (s2, st) = spec_confirm(old(self)@, approved);
                final(self)@ == s2 && step@ == st
            }),
    {
        if !approved {
            self.phase = Phase::Done;
            return LoopStep::Cancelled { message: str_string("operation cancelled by the operator") };
        }
        let (response, name, args): (String, String, Vec<String>) = match &self.phase {
            Phase::AwaitingConfirmation { response, name, args } => (
                response.clone(),
                name.clone(),
                clone_string_vec(args),
            ),
            _ => (String::new(), String::new(), Vec::new()),
        };
        self.phase = Phase::AwaitingModel;
        self.dispatch(response.as_str(), &name, args)
    }
}

/// A copy of the argument vector, character for character.
fn clone_string_vec(v: &Vec<String>) -> (r: Vec<String>)
    ensures
        r.deep_view() == v.deep_view(),
        r@.len() == v@.len(),
{
    let mut r: Vec<String> = Vec::new();
    let mut i: usize = 0;
    while i < v.len()
        invariant
            i <= v@.len(),
            r@.len() == i,
            forall|j: int| 0 <= j < i ==> r@[j]@ == v@[j]@,
        decreases v.len() - i,
    {
        let s: &String = &v[i];
        r.push(s.clone());
        i = i + 1;
    }
    proof {
        assert(r.deep_view() =~= v.deep_view());
    }
    r
}

/// The display name of the running platform, one of the four the system
/// prompt may show.
pub open spec fn spec_os_display_name(os: Seq<char>) -> Seq<char> {
    if os == "macos"@ {
        "macOS"@
    } else if os == "windows"@ {
        "Windows"@
    } else if os == "linux"@ {
        "Linux"@
    } else {
        "Unknown"@
    }
}

/// Maps a platform identifier (as the runtime reports it) to its display
/// name: `macos`, `windows` and `linux` have their spellings, anything
/// else shows as `Unknown`.
pub fn get_operating_system_name(os: &str) -> (r: String)
    ensures
        r@ == spec_os_display_name(os@),
{
    if str_eq(os, "macos") {
        str_string("macOS")
    } else if str_eq(os, "windows") {
        str_string("Windows")
    } else if str_eq(os, "linux") {
        str_string("Linux")
    } else {
        str_string("Unknown")
    }
}

/// A model response with nothing to act on: no complete final-answer
/// pair, and no action segment that parses as a call expression.
pub open spec fn malformed_response(c: Seq<char>) -> bool {
    &&& spec_extract(c, final_answer_open(), final_answer_close()) is None
    &&& match spec_extract(c, action_open(), action_close()) {
        None => true,
        Some(a) => spec_parse_action(a) is None,
    }
}

/// Feeding a sequence of model responses to the loop, one per iteration,
/// keeping the step the last response produced.
pub open spec fn spec_feed(s: LoopV, cs: Seq<Seq<char>>) -> (LoopV, StepV)
    decreases cs.len(),
{
    if cs.len() == 0 {
        (s, StepV::CallModel)
    } else {
        let next = spec_respond(s, cs[0]);
        if cs.len() == 1 {
            next
        } else {
            spec_feed(next.0, cs.drop_first())
        }
    }
}

/// Law: the final answer wins. Whenever a model response holds a complete
/// final-answer pair, interpreting it finishes the task with exactly the
/// extracted answer — whatever else the response holds, no tool is
/// executed and no confirmation is requested.
pub proof fn lemma_final_answer_priority(s: LoopV, c: Seq<char>)
    requires
        spec_extract(c, final_answer_open(), final_answer_close()) is Some,
    ensures
        spec_respond(s, c).1 == (StepV::Finished {
            answer: spec_extract(c, final_answer_open(), final_answer_close())->0,
        }),
        !(spec_respond(s, c).1 is ExecuteTool),
        !(spec_respond(s, c).1 is ConfirmCommand),
{
}

/// One malformed response raises the retry counter by one, leaves the
/// history and the tools alone, and fails the task exactly when the
/// counter reaches the ceiling.
pub proof fn lemma_malformed_step(s: LoopV, c: Seq<char>)
    requires
        malformed_response(c),
    ensures
        spec_respond(s, c).0.retry == s.retry + 1,
        spec_respond(s, c).0.history == s.history,
        spec_respond(s, c).0.tools == s.tools,
        s.retry + 1 >= MAX_RETRIES as int ==> spec_respond(s, c).0.phase is Done && spec_respond(
            s,
            c,
        ).1 == (StepV::Failed { error: ErrV::Runtime(retry_limit_error()) }),
        s.retry + 1 < MAX_RETRIES as int ==> spec_respond(s, c).0.phase == s.phase && spec_respond(
            s,
            c,
        ).1 == StepV::CallModel,
{
}

proof fn lemma_feed_malformed(s: LoopV, cs: Seq<Seq<char>>)
    requires
        cs.len() >= 1,
        s.retry >= 0,
        s.retry + cs.len() <= MAX_RETRIES as int,
        s.phase is AwaitingModel,
        forall|i: int| 0 <= i < cs.len() ==> malformed_response(#[trigger] cs[i]),
    ensures
        spec_feed(s, cs).0.retry == s.retry + cs.len(),
        spec_feed(s, cs).1 == if s.retry + cs.len() == MAX_RETRIES as int {
            StepV::Failed { error: ErrV::Runtime(retry_limit_error()) }
        } else {
            StepV::CallModel
        },
    decreases cs.len(),
{
    lemma_malformed_step(s, cs[0]);
    let next = spec_respond(s, cs[0]);
    if cs.len() > 1 {
        assert(forall|i: int|
            0 <= i < cs.drop_first().len() ==> #[trigger] cs.drop_first()[i] == cs[i + 1]);
        lemma_feed_malformed(next.0, cs.drop_first());
    }
}

/// Law: the retry ceiling. From a fresh task, five consecutive malformed
/// model responses end in the fatal retry-limit failure on the fifth
/// response — and on none of the earlier ones, each of which still asks
/// for another model call.
pub proof fn lemma_retry_ceiling(s: LoopV, cs: Seq<Seq<char>>)
    requires
        s.retry == 0,
        s.phase is AwaitingModel,
        cs.len() == MAX_RETRIES as int,
        forall|i: int| 0 <= i < cs.len() ==> malformed_response(#[trigger] cs[i]),
    ensures
        spec_feed(s, cs).1 == (StepV::Failed { error: ErrV::Runtime(retry_limit_error()) }),
        forall|k: int| 0 <= k < cs.len() ==> #[trigger] spec_feed(s, cs.take(k)).1
            == StepV::CallModel,
{
    lemma_feed_malformed(s, cs);
    assert forall|k: int| 0 <= k < cs.len() implies #[trigger] spec_feed(s, cs.take(k)).1
        == StepV::CallModel by {
        if k > 0 {
            assert(forall|i: int| 0 <= i < k ==> #[trigger] cs.take(k)[i] == cs[i]);
            lemma_feed_malformed(s, cs.take(k));
        }
    }
}

/// Appending a message grows the stripped history by at most that
/// message; nothing already persisted changes.
proof fn lemma_strip_push(ms: Seq<MessageV>, m: MessageV)
    ensures
        spec_strip_system(ms.push(m)) == if m.role is System {
            spec_strip_system(ms)
        } else {
            spec_strip_system(ms).push(m)
        },
{
    assert(ms.push(m).drop_last() =~= ms);
    assert(ms.push(m).last() == m);
}

/// Law: the history is append-only. When the loop's persisted history
/// agrees with its message list, interpreting one model response never
/// rewrites persisted turns: the old history is a prefix of the new one.
pub proof fn lemma_history_append_only(s: LoopV, c: Seq<char>)
    requires
        s.history == spec_strip_system(s.messages),
    ensures
        s.history.is_prefix_of(spec_respond(s, c).0.history),
{
    let s2 = spec_respond(s, c).0;
    match spec_extract(c, final_answer_open(), final_answer_close()) {
        Some(answer) => {
            lemma_strip_push(s.messages, MessageV { role: Role::Assistant, content: c });
            assert(s.history.is_prefix_of(s2.history));
        },
        None => {
            match spec_extract(c, action_open(), action_close()) {
                None => {
                    assert(s2.history == s.history);
                    assert(s.history.is_prefix_of(s.history));
                },
                Some(a) => {
                    match spec_parse_action(a) {
                        None => {
                            assert(s.history.is_prefix_of(s.history));
                        },
                        Some(pair) => {
                            if pair.0 == run_terminal_command_name() {
                                assert(s.history.is_prefix_of(s.history));
                            } else {
                                match spec_lookup(s.tools, pair.0) {
                                    None => {
                                        let m1 = MessageV { role: Role::Assistant, content: c };
                                        let m2 = MessageV {
                                            role: Role::User,
                                            content: observation_envelope(not_found_msg(pair.0)),
                                        };
                                        lemma_strip_push(s.messages, m1);
                                        lemma_strip_push(s.messages.push(m1), m2);
                                        assert(s.history.is_prefix_of(s2.history));
                                    },
                                    Some(t) => {
                                        assert(s.history.is_prefix_of(s.history));
                                    },
                                }
                            }
                        },
                    }
                },
            }
        },
    }
}

/// No turn in the sequence is a system turn.
pub open spec fn no_system(ms: Seq<MessageV>) -> bool {
    forall|i: int| 0 <= i < ms.len() ==> !((#[trigger] ms[i]).role is System)
}

/// Exactly one system turn stands in the sequence, and it stands first.
pub open spec fn one_system_first(ms: Seq<MessageV>) -> bool {
    ms.len() >= 1 && ms[0].role is System && forall|i: int|
        1 <= i < ms.len() ==> !((#[trigger] ms[i]).role is System)
}

/// Stripping leaves no system turn behind.
proof fn lemma_strip_no_system(ms: Seq<MessageV>)
    ensures
        no_system(spec_strip_system(ms)),
    decreases ms.len(),
{
    if ms.len() > 0 {
        lemma_strip_no_system(ms.drop_last());
    }
}

/// Law: starting a task puts exactly one system turn at the head of the
/// message list, provided the persisted history holds none — which the
/// loop maintains, since history is always recomputed by stripping.
pub proof fn lemma_start_one_system(s: LoopV, system_prompt: Seq<char>, task: Seq<char>)
    requires
        no_system(s.history),
    ensures
        one_system_first(spec_start(s, system_prompt, task).messages),
{
    let ms = spec_start(s, system_prompt, task).messages;
    assert(ms[0].role is System);
    assert forall|i: int| 1 <= i < ms.len() implies !((#[trigger] ms[i]).role is System) by {
        if i < 1 + s.history.len() {
            assert(ms[i] == s.history[i - 1]);
        }
    }
}

/// Law: interpreting a model response neither adds nor moves a system
/// turn: the system prompt stays the first and only system turn of the
/// message list, and the refreshed history holds none.
pub proof fn lemma_respond_keeps_one_system(s: LoopV, c: Seq<char>)
    requires
        one_system_first(s.messages),
        no_system(s.history),
    ensures
        one_system_first(spec_respond(s, c).0.messages),
        no_system(spec_respond(s, c).0.history),
{
    let s2 = spec_respond(s, c).0;
    match spec_extract(c, final_answer_open(), final_answer_close()) {
        Some(answer) => {
            lemma_strip_no_system(s.messages.push(MessageV { role: Role::Assistant, content: c }));
        },
        None => match spec_extract(c, action_open(), action_close()) {
            None => {},
            Some(a) => match spec_parse_action(a) {
                None => {},
                Some(pair) => {
                    if pair.0 != run_terminal_command_name() && spec_lookup(s.tools, pair.0)
                        is None {
                        lemma_strip_no_system(
                            s.messages.push(MessageV { role: Role::Assistant, content: c }).push(
                                MessageV {
                                    role: Role::User,
                                    content: observation_envelope(not_found_msg(pair.0)),
                                },
                            ),
                        );
                    }
                },
            },
        },
    }
    assert(one_system_first(s2.messages)) by {
        assert(s2.messages[0] == s.messages[0]);
        assert forall|i: int| 1 <= i < s2.messages.len() implies !(
        (#[trigger] s2.messages[i]).role is System) by {
            if i < s.messages.len() {
                assert(s2.messages[i] == s.messages[i]);
            }
        }
    }
}

/// Law: recording an observation keeps the system prompt the first and
/// only system turn, and the refreshed history holds none.
pub proof fn lemma_observe_keeps_one_system(s: LoopV, obs: Seq<char>)
    requires
        one_system_first(s.messages),
        no_system(s.history),
    ensures
        one_system_first(spec_observe(s, obs).messages),
        no_system(spec_observe(s, obs).history),
{
    let s2 = spec_observe(s, obs);
    match s.phase {
        PhaseV::AwaitingObservation { response } => {
            lemma_strip_no_system(
                s.messages.push(MessageV { role: Role::Assistant, content: response }).push(
                    MessageV { role: Role::User, content: observation_envelope(obs) },
                ),
            );
        },
        _ => {},
    }
    assert(one_system_first(s2.messages)) by {
        assert(s2.messages[0] == s.messages[0]);
        assert forall|i: int| 1 <= i < s2.messages.len() implies !(
        (#[trigger] s2.messages[i]).role is System) by {
            if i < s.messages.len() {
                assert(s2.messages[i] == s.messages[i]);
            }
        }
    }
}

/// Law: resolving a confirmation keeps the system prompt the first and
/// only system turn, and the refreshed history holds none.
pub proof fn lemma_confirm_keeps_one_system(s: LoopV, approved: bool)
    requires
        one_system_first(s.messages),
        no_system(s.history),
    ensures
        one_system_first(spec_confirm(s, approved).0.messages),
        no_system(spec_confirm(s, approved).0.history),
{
    let s2 = spec_confirm(s, approved).0;
    match s.phase {
        PhaseV::AwaitingConfirmation { response, name, args } => {
            if approved && spec_lookup(s.tools, name) is None {
                lemma_strip_no_system(
                    s.messages.push(MessageV { role: Role::Assistant, content: response }).push(
                        MessageV {
                            role: Role::User,
                            content: observation_envelope(not_found_msg(name)),
                        },
                    ),
                );
            }
        },
        _ => {},
    }
    assert(one_system_first(s2.messages)) by {
        assert(s2.messages[0] == s.messages[0]);
        assert forall|i: int| 1 <= i < s2.messages.len() implies !(
        (#[trigger] s2.messages[i]).role is System) by {
            if i < s.messages.len() {
                assert(s2.messages[i] == s.messages[i]);
            }
        }
    }
}

/// An affirmative operator reply: exactly `y` or `Y`, after trimming.
pub open spec fn spec_affirmative(s: Seq<char>) -> bool {
    spec_trim(s) == seq!['y'] || spec_trim(s) == seq!['Y']
}

/// Whether a line read from the operator affirms a confirmation prompt:
/// exactly `y` or `Y`, after trimming surrounding white space.
pub fn confirm_answer_is_yes(input: &str) -> (r: bool)
    ensures
        r == spec_affirmative(input@),
{
    let cs = str_chars(input);
    let t = trim_chars(&cs);
    if t.len() == 1 && (t[0] == 'y' || t[0] == 'Y') {
        proof {
            assert(t@ =~= seq![t@[0]]);
        }
        true
    } else {
        proof {
            if t@ == seq!['y'] || t@ == seq!['Y'] {
                assert(t@.len() == 1);
            }
        }
        false
    }
}

} // verus!
