//! The agent manager: turn-taking, context accumulation, the tool-call
//! lifecycle, and context-size-triggered summarization.

use vstd::prelude::*;
use vstd::string::*;
use crate::backends::{Backend, BackendResponse, ToolUse};
use crate::context::{
    ContextManager, TurnView, assistant_turn, lemma_render_append, opt_str_view, render,
    render_turn, tool_turns, user_turn,
};
use crate::tools::{ToolAdapter, ToolArg, ToolArgView, ToolSchema, args_view};

verus! {

/// The failures one conversation turn can surface to its caller.
#[derive(Debug)]
pub enum AgentError {
    /// A conversation operation ran before initialization.  Recoverable:
    /// initialize first.
    NotInitialized,
    /// The LLM backend failed; carries the underlying message.  Not retried
    /// at this layer.
    BackendError(String),
    /// A tool invocation raised a hard error; carries the underlying
    /// message.  Remaining tool calls of the turn were abandoned.
    ToolExecutionError(String),
    /// The summarization request failed; carries the underlying message.
    /// The pre-compression context is left intact.
    CompressionError(String),
}

impl AgentError {
    /// A descriptive message for the failure, for display by the caller.
    pub fn message(&self) -> (text: String)
        ensures
            match self {
                AgentError::NotInitialized => text@ == "Backend not initialized. Call init() first."@,
                AgentError::BackendError(m) => text@ == "Backend error: "@ + m@,
                AgentError::ToolExecutionError(m) => text@ == "Tool execution error: "@ + m@,
                AgentError::CompressionError(m) => text@ == "Context compression error: "@ + m@,
            },
    {
        match self {
            AgentError::NotInitialized => "Backend not initialized. Call init() first.".to_owned(),
            AgentError::BackendError(m) => {
                let mut text = "Backend error: ".to_owned();
                text.append(m.as_str());
                text
            },
            AgentError::ToolExecutionError(m) => {
                let mut text = "Tool execution error: ".to_owned();
                text.append(m.as_str());
                text
            },
            AgentError::CompressionError(m) => {
                let mut text = "Context compression error: ".to_owned();
                text.append(m.as_str());
                text
            },
        }
    }
}

/// Configuration settings for the agent: an immutable policy bundle, set
/// once at manager construction and read-only afterward.
#[derive(Clone)]
pub struct AgentConfig {
    /// Whether to use the fast model for context management.
    pub use_fast_model_for_context: bool,
    /// Maximum context length to maintain; the compression threshold.
    pub max_context_length: usize,
    /// Whether to automatically compress older context.
    pub auto_compress_context: bool,
    /// AWS region to use.
    pub aws_region: String,
    /// AWS profile to use.
    pub aws_profile: Option<String>,
}

/// The values [`AgentConfig::default`] returns.
pub open spec fn is_default_config(config: AgentConfig) -> bool {
    &&& config.use_fast_model_for_context == true
    &&& config.max_context_length == 32000
    &&& config.auto_compress_context == true
    &&& config.aws_region@ == "us-east-1"@
    &&& config.aws_profile is None
}

impl Default for AgentConfig {
    fn default() -> (config: Self)
        ensures
            is_default_config(config),
    {
        AgentConfig {
            use_fast_model_for_context: true,
            max_context_length: 32000,
            auto_compress_context: true,
            aws_region: "us-east-1".to_owned(),
            aws_profile: None,
        }
    }
}

/// A tool call taken from an LLM response: ephemeral, consumed by immediate
/// execution.
pub struct ToolCall {
    /// Name of the tool to call.
    pub name: String,
    /// Arguments as `name=value` strings.
    pub args: Vec<String>,
    /// Arguments in structured form, where available.
    pub args_json: Option<Vec<ToolArg>>,
    /// The correlation identifier the backend assigned, where it gave one.
    pub id: Option<String>,
}

/// The mathematical image of a [`ToolCall`].
pub struct ToolCallView {
    pub name: Seq<char>,
    pub args: Seq<Seq<char>>,
    pub args_json: Option<Seq<ToolArgView>>,
    pub id: Option<Seq<char>>,
}

impl View for ToolCall {
    type V = ToolCallView;

    open spec fn view(&self) -> ToolCallView {
        ToolCallView {
            name: self.name@,
            args: self.args@.map_values(|s: String| s@),
            args_json: match self.args_json {
                Some(args) => Some(crate::tools::args_view(args@)),
                None => None,
            },
            id: opt_str_view(self.id),
        }
    }
}

/// The result of executing one tool call.
pub struct ToolResult {
    /// Name of the tool that was executed.
    pub tool_name: String,
    /// The textual outcome of the execution.
    pub result: String,
    /// The originating tool call's identifier, echoed character for
    /// character; its absence is a reportable anomaly, not fatal.
    pub tool_call_id: Option<String>,
}

/// The mathematical image of a [`ToolResult`].
pub struct ToolResultView {
    pub tool_name: Seq<char>,
    pub result: Seq<char>,
    pub tool_call_id: Option<Seq<char>>,
}

impl View for ToolResult {
    type V = ToolResultView;

    open spec fn view(&self) -> ToolResultView {
        ToolResultView {
            tool_name: self.tool_name@,
            result: self.result@,
            tool_call_id: opt_str_view(self.tool_call_id),
        }
    }
}

/// The mathematical image of a sequence of [`ToolResult`]s.
pub open spec fn results_view(results: Seq<ToolResult>) -> Seq<ToolResultView> {
    results.map_values(|r: ToolResult| r@)
}

/// The externally visible output of one conversation turn: the generated
/// text plus the tool results produced during the turn.
pub struct AgentResponse {
    pub content: String,
    pub tool_results: Vec<ToolResult>,
}

/// How a [`ToolCall`] reflects the [`ToolUse`] it was taken from: name,
/// structured arguments and the correlation identifier unmodified, and each
/// `name=value` argument string assembled from the structured pair.
pub open spec fn call_matches_use(call: ToolCall, tool_use: ToolUse) -> bool {
    &&& call@.name == tool_use@.name
    &&& call@.id == tool_use@.id
    &&& call@.args_json == Some(tool_use@.args)
    &&& call@.args.len() == tool_use@.args.len()
    &&& forall|j: int|
        0 <= j < tool_use@.args.len() ==> #[trigger] call@.args[j] == tool_use@.args[j].name
            + "="@ + tool_use@.args[j].value
}

/// How a [`ToolResult`] reflects the [`ToolCall`] it answers: the tool's
/// name, and the correlation identifier echoed unmodified.
pub open spec fn result_matches_call(result: ToolResult, call: ToolCall) -> bool {
    &&& result@.tool_name == call@.name
    &&& result@.tool_call_id == call@.id
}

/// Take the tool calls of a backend response exactly as returned: in order,
/// with names, structured arguments and correlation identifiers unmodified.
pub fn extract_tool_calls(response: &BackendResponse) -> (calls: Vec<ToolCall>)
    ensures
        calls@.len() == response.tool_calls@.len(),
        forall|i: int|
            0 <= i < calls@.len() ==> call_matches_use(
                #[trigger] calls@[i],
                response.tool_calls@[i],
            ),
{
    let mut calls: Vec<ToolCall> = Vec::new();
    let mut i: usize = 0;
    while i < response.tool_calls.len()
        invariant
            i <= response.tool_calls@.len(),
            calls@.len() == i,
            forall|k: int|
                0 <= k < i ==> call_matches_use(#[trigger] calls@[k], response.tool_calls@[k]),
        decreases response.tool_calls@.len() - i,
    {
        let tool_use = &response.tool_calls[i];
        let mut args: Vec<String> = Vec::new();
        let mut args_json: Vec<ToolArg> = Vec::new();
        let mut j: usize = 0;
        while j < tool_use.args.len()
            invariant
                j <= tool_use.args@.len(),
                args@.len() == j,
                args_json@.len() == j,
                forall|k: int|
                    0 <= k < j ==> (#[trigger] args@[k])@ == tool_use.args@[k]@.name + "="@
                        + tool_use.args@[k]@.value,
                forall|k: int| 0 <= k < j ==> #[trigger] args_json@[k]@ == tool_use.args@[k]@,
            decreases tool_use.args@.len() - j,
        {
            let arg = &tool_use.args[j];
            let mut pair = arg.name.clone();
            pair.append("=");
            pair.append(arg.value.as_str());
            args.push(pair);
            args_json.push(ToolArg { name: arg.name.clone(), value: arg.value.clone() });
            j = j + 1;
        }
        let call = ToolCall {
            name: tool_use.name.clone(),
            args,
            args_json: Some(args_json),
            id: match &tool_use.id {
                Some(id) => Some(id.clone()),
                None => None,
            },
        };
        proof {
            assert(call@.args_json == Some(response.tool_calls@[i as int]@.args)) by {
                assert(args_view(call.args_json->Some_0@)
                    =~= response.tool_calls@[i as int]@.args);
            }
            assert(call_matches_use(call, response.tool_calls@[i as int]));
        }
        calls.push(call);
        i = i + 1;
    }
    calls
}

/// Where the first `=` of the text splits it: the characters before, and
/// the characters after.  `None` where the text has no `=`.
pub open spec fn spec_split_arg(text: Seq<char>) -> Option<(Seq<char>, Seq<char>)>
    decreases text.len(),
{
    if text.len() == 0 {
        None
    } else if text[0] == '=' {
        Some((Seq::empty(), text.drop_first()))
    } else {
        match spec_split_arg(text.drop_first()) {
            Some((key, value)) => Some((seq![text[0]] + key, value)),
            None => None,
        }
    }
}

/// The key and value halves of `spec_split_arg` reassemble to the text, the
/// key holds no `=`, and the split exists exactly where the text holds one.
pub proof fn lemma_split_arg_shape(text: Seq<char>)
    ensures
        match spec_split_arg(text) {
            Some((key, value)) => {
                &&& text == key + seq!['='] + value
                &&& forall|j: int| 0 <= j < key.len() ==> key[j] != '='
            },
            None => forall|j: int| 0 <= j < text.len() ==> text[j] != '=',
        },
    decreases text.len(),
{
    if text.len() == 0 {
    } else if text[0] == '=' {
        assert(text =~= Seq::<char>::empty() + seq!['='] + text.drop_first());
    } else {
        lemma_split_arg_shape(text.drop_first());
        match spec_split_arg(text.drop_first()) {
            Some((key, value)) => {
                assert(text.drop_first() == key + seq!['='] + value);
                assert forall|j: int| 0 <= j < text.len() implies text[j] == ((seq![text[0]] + key)
                    + seq!['='] + value)[j] by {
                    if j >= 1 {
                        assert(text[j] == text.drop_first()[j - 1]);
                        assert(text.drop_first()[j - 1] == (key + seq!['='] + value)[j - 1]);
                    }
                }
                assert(text =~= (seq![text[0]] + key) + seq!['='] + value);
                assert(forall|j: int|
                    0 <= j < (seq![text[0]] + key).len() ==> (seq![text[0]] + key)[j] != '=');
            },
            None => {
                assert(forall|j: int| 0 <= j < text.len() ==> text[j] != '=') by {
                    assert(forall|j: int|
                        1 <= j < text.len() ==> text[j] == text.drop_first()[j - 1]);
                }
            },
        }
    }
}

/// Split a `name=value` argument string at its first `=`.  `None` where the
/// text has no `=`.
pub fn split_arg(text: &str) -> (split: Option<(String, String)>)
    ensures
        match split {
            Some(pair) => spec_split_arg(text@) == Some((pair.0@, pair.1@)),
            None => spec_split_arg(text@) is None,
        },
{
    let len = text.unicode_len();
    let mut i: usize = 0;
    while i < len
        invariant
            len == text@.len(),
            i <= len,
            forall|j: int| 0 <= j < i ==> text@[j] != '=',
        decreases len - i,
    {
        if text.get_char(i) == '=' {
            let key = text.substring_char(0, i).to_owned();
            let value = text.substring_char(i + 1, len).to_owned();
            proof {
                lemma_split_arg_found(text@, i as int);
            }
            return Some((key, value));
        }
        i = i + 1;
    }
    proof {
        lemma_split_arg_shape(text@);
        if spec_split_arg(text@) is Some {
            let (key, value) = spec_split_arg(text@)->Some_0;
            assert(text@[key.len() as int] == '=');
        }
    }
    None
}

/// Where the text's first `=` stands at a known position, `spec_split_arg`
/// splits there.
proof fn lemma_split_arg_found(text: Seq<char>, at: int)
    requires
        0 <= at < text.len(),
        text[at] == '=',
        forall|j: int| 0 <= j < at ==> text[j] != '=',
    ensures
        spec_split_arg(text) == Some(
            (text.subrange(0, at), text.subrange(at + 1, text.len() as int)),
        ),
    decreases text.len(),
{
    if at == 0 {
        assert(text.subrange(0, 0) =~= Seq::<char>::empty());
        assert(text.subrange(1, text.len() as int) =~= text.drop_first());
    } else {
        assert(forall|j: int| 0 <= j < at - 1 ==> text.drop_first()[j] != '=');
        assert(text.drop_first()[at - 1] == '=');
        lemma_split_arg_found(text.drop_first(), at - 1);
        assert(text.subrange(0, at) =~= seq![text[0]] + text.drop_first().subrange(0, at - 1));
        assert(text.subrange(at + 1, text.len() as int) =~= text.drop_first().subrange(
            at,
            text.drop_first().len() as int,
        ));
    }
}

/// The structured arguments recovered from `name=value` strings: one pair
/// per string that holds an `=`, split at its first `=`; strings without an
/// `=` contribute nothing.
pub open spec fn spec_parse_args(args: Seq<Seq<char>>) -> Seq<ToolArgView>
    decreases args.len(),
{
    if args.len() == 0 {
        Seq::empty()
    } else {
        let rest = spec_parse_args(args.drop_last());
        match spec_split_arg(args.last()) {
            Some((key, value)) => rest.push(ToolArgView { name: key, value: value }),
            None => rest,
        }
    }
}

/// Recover structured arguments from `name=value` strings.
pub fn parse_args(args: &Vec<String>) -> (parsed: Vec<ToolArg>)
    ensures
        args_view(parsed@) == spec_parse_args(args@.map_values(|s: String| s@)),
{
    let mut parsed: Vec<ToolArg> = Vec::new();
    let mut i: usize = 0;
    proof {
        assert(args@.map_values(|s: String| s@).take(0) =~= Seq::<Seq<char>>::empty());
        assert(args_view(parsed@) =~= spec_parse_args(
            args@.map_values(|s: String| s@).take(0),
        ));
    }
    while i < args.len()
        invariant
            i <= args@.len(),
            args_view(parsed@) == spec_parse_args(args@.map_values(|s: String| s@).take(i as int)),
        decreases args@.len() - i,
    {
        let ghost mapped = args@.map_values(|s: String| s@);
        match split_arg(args[i].as_str()) {
            Some(pair) => {
                parsed.push(ToolArg { name: pair.0, value: pair.1 });
            },
            None => {},
        }
        proof {
            assert(mapped.take(i + 1).drop_last() =~= mapped.take(i as int));
            assert(mapped.take(i + 1).last() == args@[i as int]@);
            assert(args_view(parsed@) =~= spec_parse_args(mapped.take(i + 1)));
        }
        i = i + 1;
    }
    proof {
        assert(args@.map_values(|s: String| s@).take(args@.len() as int) =~= args@.map_values(
            |s: String| s@,
        ));
    }
    parsed
}

/// Copy structured arguments for handing to the tool adapter.
fn copy_args(args: &Vec<ToolArg>) -> (copy: Vec<ToolArg>)
    ensures
        args_view(copy@) == args_view(args@),
{
    let mut copy: Vec<ToolArg> = Vec::new();
    let mut i: usize = 0;
    while i < args.len()
        invariant
            i <= args@.len(),
            copy@.len() == i,
            forall|k: int| 0 <= k < i ==> #[trigger] copy@[k]@ == args@[k]@,
        decreases args@.len() - i,
    {
        let arg = &args[i];
        copy.push(ToolArg { name: arg.name.clone(), value: arg.value.clone() });
        i = i + 1;
    }
    proof {
        assert(args_view(copy@) =~= args_view(args@));
    }
    copy
}

/// Central manager for the agent: owns the context store and the
/// configuration, borrows the backend and the tool adapter per call.
pub struct AgentManager {
    /// Context manager maintaining the conversation state.
    context_manager: ContextManager,

    /// Configuration settings for the agent.
    config: AgentConfig,

    /// Identifier of the conversation this manager drives, chosen at
    /// construction and referenced in every backend request.
    session_id: String,

    /// Whether the manager has been initialized.
    initialized: bool,
}

impl AgentManager {
    /// The recorded conversation: the image of the owned context store.
    pub closed spec fn spec_context(&self) -> Seq<TurnView> {
        self.context_manager@
    }

    /// The owned context store, readable by callers.
    pub fn context_manager(&self) -> (store: &ContextManager)
        ensures
            store@ == self.spec_context(),
    {
        &self.context_manager
    }

    /// The manager's configuration.
    pub closed spec fn spec_config(&self) -> AgentConfig {
        self.config
    }

    /// The session identifier given at construction.
    pub closed spec fn spec_session_id(&self) -> Seq<char> {
        self.session_id@
    }

    /// Whether the manager has been initialized.
    pub closed spec fn spec_initialized(&self) -> bool {
        self.initialized
    }

    /// A new manager with default settings, driving the session with the
    /// given identifier.
    pub fn new(session_id: String) -> (manager: Self)
        ensures
            manager.spec_context() == Seq::<TurnView>::empty(),
            is_default_config(manager.spec_config()),
            manager.spec_session_id() == session_id@,
            !manager.spec_initialized(),
    {
        AgentManager {
            context_manager: ContextManager::new(),
            config: AgentConfig::default(),
            session_id,
            initialized: false,
        }
    }

    /// A new manager with the given settings, driving the session with the
    /// given identifier.
    pub fn with_config(config: AgentConfig, session_id: String) -> (manager: Self)
        ensures
            manager.spec_context() == Seq::<TurnView>::empty(),
            manager.spec_config() == config,
            manager.spec_session_id() == session_id@,
            !manager.spec_initialized(),
    {
        AgentManager {
            context_manager: ContextManager::new(),
            config,
            session_id,
            initialized: false,
        }
    }

    /// Initialize the manager: the transition to the ready state, required
    /// before any conversation operation.
    pub fn init(&mut self) -> (outcome: Result<(), AgentError>)
        ensures
            outcome is Ok,
            final(self).spec_initialized(),
            final(self).spec_context() == old(self).spec_context(),
            final(self).spec_config() == old(self).spec_config(),
            final(self).spec_session_id() == old(self).spec_session_id(),
    {
        self.initialized = true;
        Ok(())
    }

    /// Whether the manager has been initialized.
    pub fn is_initialized(&self) -> (ready: bool)
        ensures
            ready == self.spec_initialized(),
    {
        self.initialized
    }

    /// Execute the given tool calls through the adapter, synchronously and
    /// in order.  Each result carries the tool's name and echoes the call's
    /// correlation identifier unmodified.  A hard execution error abandons
    /// the remaining calls and surfaces as `ToolExecutionError`; no result
    /// of the abandoned loop is returned.
    pub fn execute_tool_calls<T: ToolAdapter>(
        &self,
        tools: &T,
        tool_calls: &Vec<ToolCall>,
    ) -> (outcome: Result<Vec<ToolResult>, AgentError>)
        ensures
            outcome matches Ok(results) ==> {
                &&& results@.len() == tool_calls@.len()
                &&& forall|i: int|
                    0 <= i < results@.len() ==> result_matches_call(
                        #[trigger] results@[i],
                        tool_calls@[i],
                    )
            },
            outcome matches Err(e) ==> e is ToolExecutionError,
            tool_calls@.len() == 0 ==> outcome is Ok,
    {
        let mut results: Vec<ToolResult> = Vec::new();
        let mut i: usize = 0;
        while i < tool_calls.len()
            invariant
                i <= tool_calls@.len(),
                results@.len() == i,
                forall|k: int|
                    0 <= k < i ==> result_matches_call(#[trigger] results@[k], tool_calls@[k]),
            decreases tool_calls@.len() - i,
        {
            let call = &tool_calls[i];
            let arguments = match &call.args_json {
                Some(args) => copy_args(args),
                None => parse_args(&call.args),
            };
            match tools.execute(call.name.as_str(), &arguments) {
                Ok(result_text) => {
                    let result = ToolResult {
                        tool_name: call.name.clone(),
                        result: result_text,
                        tool_call_id: match &call.id {
                            Some(id) => Some(id.clone()),
                            None => None,
                        },
                    };
                    results.push(result);
                },
                Err(message) => {
                    return Err(AgentError::ToolExecutionError(message));
                },
            }
            i = i + 1;
        }
        Ok(results)
    }

    /// Compress the context where its measured length exceeds the
    /// configured threshold: ask the backend for a summary of the whole
    /// conversation and replace the turns with it.  Compression is
    /// best-effort: where the summarization request fails, the
    /// pre-compression context is left intact and the failure surfaces as
    /// `CompressionError`.
    pub fn maybe_compress_context<B: Backend>(&mut self, backend: &B) -> (outcome: Result<
        (),
        AgentError,
    >)
        ensures
            final(self).spec_config() == old(self).spec_config(),
            final(self).spec_session_id() == old(self).spec_session_id(),
            final(self).spec_initialized() == old(self).spec_initialized(),
            render(old(self).spec_context()).len() <= old(self).spec_config().max_context_length
                ==> outcome is Ok && final(self).spec_context() == old(self).spec_context(),
            render(old(self).spec_context()).len() > old(self).spec_config().max_context_length
                ==> {
                &&& outcome is Ok ==> exists|summary: Seq<char>|
                    final(self).spec_context() == seq![assistant_turn(summary)]
                &&& outcome matches Err(e) ==> e is CompressionError && final(self).spec_context()
                    == old(self).spec_context()
            },
    {
        if self.context_manager.context_length() > self.config.max_context_length {
            let context = self.context_manager.get_context();
            let summarization_prompt = build_summary_prompt(context.as_str());
            let no_tools: Vec<ToolSchema> = Vec::new();
            match backend.generate_response(
                summarization_prompt.as_str(),
                &no_tools,
                self.session_id.as_str(),
            ) {
                Ok(summary_response) => {
                    self.context_manager.replace_with_summary(summary_response.content.as_str());
                    proof {
                        assert(self.spec_context() == seq![
                            assistant_turn(summary_response.content@),
                        ]);
                    }
                    Ok(())
                },
                Err(message) => Err(AgentError::CompressionError(message)),
            }
        } else {
            Ok(())
        }
    }

    /// Process one user input: append it to the context, obtain a backend
    /// response for the flattened context and the full tool schema catalog,
    /// execute the requested tool calls in order, record the assistant text
    /// and the tool results, compress the context where the policy asks for
    /// it, and return the aggregated response.
    ///
    /// Failures surface as typed errors; the user turn already appended is
    /// retained (no rollback), so a retried call still carries the failed
    /// attempt's text in context.
    pub fn process_input<B: Backend, T: ToolAdapter>(
        &mut self,
        backend: &B,
        tools: &T,
        input: &str,
    ) -> (outcome: Result<AgentResponse, AgentError>)
        ensures
            final(self).spec_config() == old(self).spec_config(),
            final(self).spec_session_id() == old(self).spec_session_id(),
            final(self).spec_initialized() == old(self).spec_initialized(),
            !old(self).spec_initialized() ==> (outcome matches Err(AgentError::NotInitialized))
                && *final(self) == *old(self),
            old(self).spec_initialized() ==> !(outcome matches Err(AgentError::NotInitialized)),
            outcome matches Err(AgentError::BackendError(_)) ==> final(self).spec_context() == old(
                self,
            ).spec_context().push(user_turn(input@)),
            outcome matches Err(AgentError::ToolExecutionError(_)) ==> final(self).spec_context()
                == old(self).spec_context().push(user_turn(input@)),
            outcome matches Err(AgentError::CompressionError(_)) ==> old(
                self,
            ).spec_config().auto_compress_context && (exists|
                content: Seq<char>,
                results: Seq<ToolResultView>,
            |
                final(self).spec_context() == turn_context(
                    old(self).spec_context(),
                    input@,
                    content,
                    results,
                ) && render(
                    turn_context(old(self).spec_context(), input@, content, results),
                ).len() > old(self).spec_config().max_context_length),
            outcome matches Ok(response) ==> ({
                let full = turn_context(
                    old(self).spec_context(),
                    input@,
                    response.content@,
                    results_view(response.tool_results@),
                );
                if old(self).spec_config().auto_compress_context && render(full).len() > old(
                    self,
                ).spec_config().max_context_length {
                    exists|summary: Seq<char>|
                        final(self).spec_context() == seq![assistant_turn(summary)]
                } else {
                    final(self).spec_context() == full
                }
            }),
    {
        if !self.initialized {
            return Err(AgentError::NotInitialized);
        }

        self.context_manager.add_user_message(input);

        let context = self.context_manager.get_context();
        let tool_schemas = tools.list_tool_schemas();
        let backend_response = match backend.generate_response(
            context.as_str(),
            &tool_schemas,
            self.session_id.as_str(),
        ) {
            Ok(response) => response,
            Err(message) => {
                return Err(AgentError::BackendError(message));
            },
        };

        let tool_calls = extract_tool_calls(&backend_response);

        let tool_results = if tool_calls.len() > 0 {
            match self.execute_tool_calls(tools, &tool_calls) {
                Ok(results) => results,
                Err(error) => {
                    return Err(error);
                },
            }
        } else {
            Vec::new()
        };

        self.context_manager.add_assistant_message(backend_response.content.as_str());
        if tool_results.len() > 0 {
            self.context_manager.add_tool_results(&tool_results);
        }
        proof {
            assert(self.spec_context() =~= turn_context(
                old(self).spec_context(),
                input@,
                backend_response.content@,
                results_view(tool_results@),
            ));
        }

        if self.config.auto_compress_context {
            match self.maybe_compress_context(backend) {
                Ok(()) => {},
                Err(error) => {
                    proof {
                        let full = turn_context(
                            old(self).spec_context(),
                            input@,
                            backend_response.content@,
                            results_view(tool_results@),
                        );
                        assert(self.spec_context() == full && render(full).len() > old(
                            self,
                        ).spec_config().max_context_length);
                    }
                    return Err(error);
                },
            }
        }

        Ok(AgentResponse { content: backend_response.content, tool_results })
    }
}

/// The turn sequence one successful conversation turn leaves behind, before
/// any compression: the prior turns, the user turn, the assistant turn, and
/// one tool-result turn per result, in order.
pub open spec fn turn_context(
    base: Seq<TurnView>,
    input: Seq<char>,
    content: Seq<char>,
    results: Seq<ToolResultView>,
) -> Seq<TurnView> {
    base.push(user_turn(input)).push(assistant_turn(content)) + tool_turns(results)
}

/// The rendering of a single turn.
proof fn lemma_render_single(turn: TurnView)
    ensures
        render(seq![turn]) == render_turn(turn),
{
    assert(seq![turn].drop_last() =~= Seq::<TurnView>::empty());
    assert(render(seq![turn].drop_last()) + render_turn(seq![turn].last()) =~= render_turn(turn));
}

/// One successful, uncompressed conversation turn extends the store and its
/// flattened rendering exactly in call order: the prior turns stay first and
/// unchanged, then the user turn, the assistant turn, and the tool-result
/// turns, none reordered, dropped or merged.  The prompt built for the turn
/// renders the prior turns followed by the user turn the same way.  Where
/// auto-compression is on and the threshold is exceeded, the store is
/// instead replaced by the single summary turn.
pub proof fn lemma_turn_order_through_manager(
    base: Seq<TurnView>,
    input: Seq<char>,
    content: Seq<char>,
    results: Seq<ToolResultView>,
)
    ensures
        turn_context(base, input, content, results) == base + seq![
            user_turn(input),
            assistant_turn(content),
        ] + tool_turns(results),
        render(base.push(user_turn(input))) == render(base) + render_turn(user_turn(input)),
        render(turn_context(base, input, content, results)) == render(base) + render_turn(
            user_turn(input),
        ) + render_turn(assistant_turn(content)) + render(tool_turns(results)),
{
    let pair = seq![user_turn(input), assistant_turn(content)];
    assert(turn_context(base, input, content, results) =~= (base + pair) + tool_turns(results));
    assert(base.push(user_turn(input)) =~= base + seq![user_turn(input)]);
    lemma_render_append(base, seq![user_turn(input)]);
    lemma_render_single(user_turn(input));
    lemma_render_append(base + pair, tool_turns(results));
    lemma_render_append(base, pair);
    assert(pair.drop_last() =~= seq![user_turn(input)]);
    assert(render(pair) == render(seq![user_turn(input)]) + render_turn(assistant_turn(content)));
    assert(render(turn_context(base, input, content, results)) =~= ((render(base) + render_turn(
        user_turn(input),
    )) + render_turn(assistant_turn(content))) + render(tool_turns(results)));
}

/// The prompt that asks the backend to summarize the given flattened
/// context.
pub open spec fn summary_prompt_of(context: Seq<char>) -> Seq<char> {
    "Please summarize the following conversation concisely while preserving all important information:\n"@
        + context + "\n"@
}

/// Build the summarization prompt for the given flattened context.
fn build_summary_prompt(context: &str) -> (prompt: String)
    ensures
        prompt@ == summary_prompt_of(context@),
{
    let mut prompt =
        "Please summarize the following conversation concisely while preserving all important information:\n".to_owned();
    prompt.append(context);
    prompt.append("\n");
    prompt
}

/// A tool-call identifier present in the backend response appears
/// unmodified, character for character, in the matching tool result: the
/// extraction keeps each identifier, and each result echoes its call's.
pub proof fn lemma_tool_call_ids_preserved(
    uses: Seq<ToolUse>,
    calls: Seq<ToolCall>,
    results: Seq<ToolResult>,
)
    requires
        calls.len() == uses.len(),
        forall|i: int| 0 <= i < calls.len() ==> call_matches_use(#[trigger] calls[i], uses[i]),
        results.len() == calls.len(),
        forall|i: int|
            0 <= i < results.len() ==> result_matches_call(#[trigger] results[i], calls[i]),
    ensures
        forall|i: int| 0 <= i < uses.len() ==> (#[trigger] results[i])@.tool_call_id == uses[i]@.id,
{
    assert forall|i: int| 0 <= i < uses.len() implies (#[trigger] results[i])@.tool_call_id
        == uses[i]@.id by {
        assert(call_matches_use(calls[i], uses[i]));
        assert(result_matches_call(results[i], calls[i]));
    }
}

} // verus!
