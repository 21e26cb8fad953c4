//! Construction of a standalone agent.

use vstd::prelude::*;
use vstd::string::*;

use crate::capability::{
    Agent, AgentView, ModelCapability, ModelCapabilityView, ModelToolChoice, ModelToolChoiceView,
    OutputRequirement, RetrievalRequirement, RetrievedDocument, RetrievedDocumentView,
    StoreCapability, StoreCapabilityView, StoreGrant, ToolCapability, ToolCapabilityView,
    ToolGrant,
};
use crate::column::Entity;
use crate::effect::{ModelDecision, ModelDecisionView};
use crate::executor::{
    CompletionModelAdapter, CompletionModelAdapterView, ExecutorKey, ExecutorKeyView,
};
use crate::fold::{lemma_picked_next, picked};
use crate::identity::{StableId, TenantId};
use crate::json::{json_text, print_json};
use crate::numeric::{clamp, clamped};
use crate::report::{LocalAgentError, LocalAgentErrorView};
use crate::run::{AgentHandle, RuntimeConfig, SpawnErrorView};
use crate::runtime::{new_effects, new_handle, spawn_fault, with_runtime, Runtime};
use crate::schedule::ScheduleView;
use crate::text::{decimal, decimal_text};
use crate::world::WorldView;

verus! {

/// Provider-facing strategy used after an output schema is attached.
#[derive(Clone, Copy, Debug, PartialEq, Eq, Structural)]
pub enum StructuredOutputMode {
    /// Use a terminal tool when ordinary tools are present, otherwise use the provider's native schema facility.
    Auto,
    /// Send the schema through the provider's native structured-output field.
    Native,
    /// Advertise a synthetic `final_result` tool whose arguments end the run.
    Tool,
    /// Put the schema in the instructions and validate the final model text.
    Prompted,
}

impl View for StructuredOutputMode {
    type V = Self;

    open spec fn view(&self) -> Self {
        *self
    }
}

impl DeepView for StructuredOutputMode {
    type V = Self;

    open spec fn deep_view(&self) -> Self {
        self.view()
    }
}

/// Tool to be spawned with an agent.
#[derive(Debug, PartialEq, Eq)]
pub struct LocalToolRegistration {
    /// Identity of the tool.
    pub id: StableId,
    /// What the tool is.
    pub capability: ToolCapability,
}

/// What a [`LocalToolRegistration`] holds.
#[verifier::ext_equal]
pub struct LocalToolRegistrationView {
    pub id: Seq<char>,
    pub capability: ToolCapabilityView,
}

impl View for LocalToolRegistration {
    type V = LocalToolRegistrationView;

    open spec fn view(&self) -> LocalToolRegistrationView {
        LocalToolRegistrationView {
            id: self.id@,
            capability: self.capability@,
        }
    }
}

impl DeepView for LocalToolRegistration {
    type V = LocalToolRegistrationView;

    open spec fn deep_view(&self) -> LocalToolRegistrationView {
        self.view()
    }
}

impl Clone for LocalToolRegistration {
    fn clone(&self) -> (r: Self)
        ensures
            r@ == self@,
    {
        LocalToolRegistration {
            id: self.id.clone(),
            capability: self.capability.clone(),
        }
    }
}

/// Store to be spawned with an agent.
#[derive(Debug, PartialEq, Eq)]
pub struct LocalStoreRegistration {
    /// Identity of the store.
    pub id: StableId,
    /// What the store is.
    pub capability: StoreCapability,
    /// Grant of the store to the agent.
    pub grant: StoreGrant,
}

/// What a [`LocalStoreRegistration`] holds.
#[verifier::ext_equal]
pub struct LocalStoreRegistrationView {
    pub id: Seq<char>,
    pub capability: StoreCapabilityView,
    pub grant: StoreGrant,
}

impl View for LocalStoreRegistration {
    type V = LocalStoreRegistrationView;

    open spec fn view(&self) -> LocalStoreRegistrationView {
        LocalStoreRegistrationView {
            id: self.id@,
            capability: self.capability@,
            grant: self.grant,
        }
    }
}

impl DeepView for LocalStoreRegistration {
    type V = LocalStoreRegistrationView;

    open spec fn deep_view(&self) -> LocalStoreRegistrationView {
        self.view()
    }
}

impl Clone for LocalStoreRegistration {
    fn clone(&self) -> (r: Self)
        ensures
            r@ == self@,
    {
        LocalStoreRegistration {
            id: self.id.clone(),
            capability: self.capability.clone(),
            grant: self.grant,
        }
    }
}

/// Settings of a standalone agent composition.
#[derive(Debug, PartialEq, Eq)]
pub struct LocalModelAgentBuilder {
    /// Provider identity.
    pub provider: String,
    /// Model identity.
    pub model_name: String,
    /// Human-readable name of the agent.
    pub name: Option<String>,
    /// Human-readable description of the agent.
    pub description: Option<String>,
    /// System instructions.
    pub instructions: String,
    /// Bits of the sampling temperature.
    pub temperature_bits: Option<u64>,
    /// Output-token limit.
    pub max_tokens: Option<u64>,
    /// Tool-selection behaviour.
    pub tool_choice: Option<ModelToolChoice>,
    /// Provider-specific parameters.
    pub additional_params: Option<serde_json::Value>,
    /// Static context documents.
    pub documents: Vec<RetrievedDocument>,
    /// Model calls accepted for one run.
    pub max_model_calls: u32,
    /// Schema of the terminal model text.
    pub output_schema: Option<serde_json::Value>,
    /// How the schema is presented to the model.
    pub structured_output_mode: StructuredOutputMode,
    /// Tool whose arguments are the terminal output.
    pub terminal_tool: Option<String>,
    /// Documents that a run retrieves.
    pub retrieval_limit: Option<usize>,
    /// Tools in the order of their registration.
    pub tools: Vec<LocalToolRegistration>,
    /// Stores in the order of their registration.
    pub stores: Vec<LocalStoreRegistration>,
}

/// What a [`LocalModelAgentBuilder`] holds.
#[verifier::ext_equal]
pub struct LocalModelAgentBuilderView {
    pub provider: Seq<char>,
    pub model_name: Seq<char>,
    pub name: Option<Seq<char>>,
    pub description: Option<Seq<char>>,
    pub instructions: Seq<char>,
    pub temperature_bits: Option<u64>,
    pub max_tokens: Option<u64>,
    pub tool_choice: Option<ModelToolChoiceView>,
    pub additional_params: Option<serde_json::Value>,
    pub documents: Seq<RetrievedDocumentView>,
    pub max_model_calls: u32,
    pub output_schema: Option<serde_json::Value>,
    pub structured_output_mode: StructuredOutputMode,
    pub terminal_tool: Option<Seq<char>>,
    pub retrieval_limit: Option<usize>,
    pub tools: Seq<LocalToolRegistrationView>,
    pub stores: Seq<LocalStoreRegistrationView>,
}

impl View for LocalModelAgentBuilder {
    type V = LocalModelAgentBuilderView;

    open spec fn view(&self) -> LocalModelAgentBuilderView {
        LocalModelAgentBuilderView {
            provider: self.provider@,
            model_name: self.model_name@,
            name: self.name.deep_view(),
            description: self.description.deep_view(),
            instructions: self.instructions@,
            temperature_bits: self.temperature_bits,
            max_tokens: self.max_tokens,
            tool_choice: self.tool_choice.deep_view(),
            additional_params: self.additional_params,
            documents: self.documents.deep_view(),
            max_model_calls: self.max_model_calls,
            output_schema: self.output_schema,
            structured_output_mode: self.structured_output_mode,
            terminal_tool: self.terminal_tool.deep_view(),
            retrieval_limit: self.retrieval_limit,
            tools: self.tools.deep_view(),
            stores: self.stores.deep_view(),
        }
    }
}

impl DeepView for LocalModelAgentBuilder {
    type V = LocalModelAgentBuilderView;

    open spec fn deep_view(&self) -> LocalModelAgentBuilderView {
        self.view()
    }
}

impl Clone for LocalModelAgentBuilder {
    fn clone(&self) -> (r: Self)
        ensures
            r@ == self@,
    {
        let r = LocalModelAgentBuilder {
            provider: self.provider.clone(),
            model_name: self.model_name.clone(),
            name: self.name.clone(),
            description: self.description.clone(),
            instructions: self.instructions.clone(),
            temperature_bits: self.temperature_bits,
            max_tokens: self.max_tokens,
            tool_choice: self.tool_choice.clone(),
            additional_params: self.additional_params.clone(),
            documents: self.documents.clone(),
            max_model_calls: self.max_model_calls,
            output_schema: self.output_schema.clone(),
            structured_output_mode: self.structured_output_mode,
            terminal_tool: self.terminal_tool.clone(),
            retrieval_limit: self.retrieval_limit,
            tools: self.tools.clone(),
            stores: self.stores.clone(),
        };
        assert(r.name.deep_view() =~= self.name.deep_view());
        assert(r.description.deep_view() =~= self.description.deep_view());
        assert(r.tool_choice.deep_view() =~= self.tool_choice.deep_view());
        assert(r.documents.deep_view() =~= self.documents.deep_view());
        assert(r.terminal_tool.deep_view() =~= self.terminal_tool.deep_view());
        assert(r.tools.deep_view() =~= self.tools.deep_view());
        assert(r.stores.deep_view() =~= self.stores.deep_view());
        r
    }
}

/// A numbered id.
pub open spec fn numbered(prefix: Seq<char>, n: nat) -> Seq<char> {
    prefix + decimal_text(n)
}

fn number_text(prefix: &str, n: usize) -> (r: String)
    ensures
        r@ == numbered(prefix@, n as nat),
{
    let digits = decimal(n as u64);
    let mut r = prefix.to_owned();
    r.append(digits.as_str());
    r
}

/// The text that asks for a call of the terminal tool.
pub open spec fn terminal_instructions() -> Seq<char> {
    "When you have gathered enough information to answer, call the `final_result` tool exactly once with your final answer. Its arguments are the structured result and must satisfy the required schema. Do not return the final answer as plain text."@
}

/// The text that asks for a JSON object of a schema.
pub open spec fn schema_instructions(schema: serde_json::Value) -> Seq<char> {
    "Respond with ONLY a single JSON object that conforms to this JSON Schema. Do not include any prose, explanation, or markdown code fences.\n"@
        + json_text(schema)
}

/// Instructions with more of them after a separator; without one where there were none.
pub open spec fn appended(
    instructions: Seq<char>,
    separator: Seq<char>,
    more: Seq<char>,
) -> Seq<char> {
    if instructions.len() == 0 {
        more
    } else {
        instructions + separator + more
    }
}

impl LocalModelAgentBuilderView {
    /// The strategy that a schema is presented with, if any is to be applied.
    pub open spec fn output_mode(self) -> Option<StructuredOutputMode> {
        match self.structured_output_mode {
            StructuredOutputMode::Auto => if self.terminal_tool is Some {
                None
            } else if self.tools.len() == 0 {
                Some(StructuredOutputMode::Native)
            } else {
                Some(StructuredOutputMode::Tool)
            },
            mode => Some(mode),
        }
    }

    /// The settings after the strategy for the schema was applied.
    pub open spec fn presented(self) -> LocalModelAgentBuilderView {
        match (self.output_schema, self.output_mode()) {
            (Some(_), Some(StructuredOutputMode::Tool)) => LocalModelAgentBuilderView {
                terminal_tool: Some("final_result"@),
                instructions: appended(self.instructions, "\n\n"@, terminal_instructions()),
                ..self
            },
            (Some(schema), Some(StructuredOutputMode::Prompted)) => LocalModelAgentBuilderView {
                terminal_tool: Some(Seq::empty()),
                instructions: appended(self.instructions, "\n\n"@, schema_instructions(schema)),
                ..self
            },
            _ => self,
        }
    }

    /// The agent of the settings.
    pub open spec fn agent(self) -> AgentView {
        AgentView {
            name: self.name,
            description: self.description,
            instructions: self.instructions,
            temperature_bits: self.temperature_bits,
            max_tokens: self.max_tokens,
            tool_choice: self.tool_choice,
            additional_params: self.additional_params,
            documents: self.documents,
            max_model_calls: self.max_model_calls,
            terminal_tool: self.terminal_tool,
        }
    }

    /// The model of the settings.
    pub open spec fn model(self) -> ModelCapabilityView {
        ModelCapabilityView {
            provider: self.provider,
            model: self.model_name,
            revision: 1,
            retired: false,
        }
    }

    /// The position of a tool, unless a later one has the same name.
    pub open spec fn kept_position(self, i: int) -> Option<int> {
        if exists|j: int|
            i < j < self.tools.len() && (#[trigger] self.tools[j]).capability.name
                == self.tools[i].capability.name {
            None
        } else {
            Some(i)
        }
    }

    /// The positions of the tools that are kept: of those with one name, the last.
    pub open spec fn kept_positions(self) -> Seq<int> {
        picked(Seq::new(self.tools.len(), |i: int| i), |i: int| self.kept_position(i))
    }

    /// The tools that are kept.
    pub open spec fn kept_tools(self) -> Seq<LocalToolRegistrationView> {
        let positions = self.kept_positions();
        Seq::new(positions.len(), |i: int| self.tools[positions[i]])
    }
}

/// A world with a tool and its grant to an agent, or why it cannot have them.
pub open spec fn with_local_tool(
    w: WorldView,
    agent: Entity,
    order: nat,
    registration: LocalToolRegistrationView,
) -> Result<WorldView, SpawnErrorView> {
    let grant_id = numbered("local-tool-grant-"@, order);
    let next = w.with_tool(registration.id, "local"@, registration.capability);
    match spawn_fault(w, registration.id, "local"@, Seq::empty()) {
        Some(error) => Err(error),
        None => match spawn_fault(next, grant_id, "local"@, seq![agent, w.fresh()]) {
            Some(error) => Err(error),
            None => Ok(
                next.with_tool_grant(
                    grant_id,
                    "local"@,
                    (ToolGrant { order: clamped(order), enabled: true }),
                    agent,
                    w.fresh(),
                ),
            ),
        },
    }
}

/// A world with the first tools and their grants, or why it cannot have them.
pub open spec fn with_local_tools(
    w: WorldView,
    agent: Entity,
    tools: Seq<LocalToolRegistrationView>,
    n: int,
) -> Result<WorldView, SpawnErrorView>
    decreases n,
{
    if n <= 0 {
        Ok(w)
    } else {
        match with_local_tools(w, agent, tools, n - 1) {
            Ok(w) => with_local_tool(w, agent, (n - 1) as nat, tools[n - 1]),
            Err(error) => Err(error),
        }
    }
}

/// A world with a store and its grant to an agent, or why it cannot have them.
pub open spec fn with_local_store(
    w: WorldView,
    agent: Entity,
    order: nat,
    registration: LocalStoreRegistrationView,
) -> Result<WorldView, SpawnErrorView> {
    let grant_id = numbered("local-store-grant-"@, order);
    let next = w.with_store(registration.id, "local"@, registration.capability);
    match spawn_fault(w, registration.id, "local"@, Seq::empty()) {
        Some(error) => Err(error),
        None => match spawn_fault(next, grant_id, "local"@, seq![agent, w.fresh()]) {
            Some(error) => Err(error),
            None => Ok(
                next.with_store_grant(grant_id, "local"@, registration.grant, agent, w.fresh()),
            ),
        },
    }
}

/// A world with the first stores and their grants, or why it cannot have them.
pub open spec fn with_local_stores(
    w: WorldView,
    agent: Entity,
    stores: Seq<LocalStoreRegistrationView>,
    n: int,
) -> Result<WorldView, SpawnErrorView>
    decreases n,
{
    if n <= 0 {
        Ok(w)
    } else {
        match with_local_stores(w, agent, stores, n - 1) {
            Ok(w) => with_local_store(w, agent, (n - 1) as nat, stores[n - 1]),
            Err(error) => Err(error),
        }
    }
}

/// A world with the model and the agent of the settings and what the agent requires.
pub open spec fn with_local_agent(w: WorldView, b: LocalModelAgentBuilderView) -> WorldView {
    let with_model = w.with_model("local-model"@, "local"@, b.model());
    let agent = with_model.fresh();
    let spawned = with_model.with_agent("local-agent"@, "local"@, b.agent(), w.fresh());
    let required = match b.output_schema {
        Some(schema) => spawned.with_output_requirement(agent, Some(OutputRequirement { schema })),
        None => spawned,
    };
    match b.retrieval_limit {
        Some(limit) => required.with_retrieval_requirement(
            agent,
            Some(RetrievalRequirement { limit }),
        ),
        None => required,
    }
}

/// The world of a standalone agent, or why it cannot be made.
pub open spec fn composed(w: WorldView, b: LocalModelAgentBuilderView) -> Result<
    WorldView,
    SpawnErrorView,
> {
    let agent = Entity(crate::world::number_after(w.next));
    match with_local_tools(
        with_local_agent(w, b),
        agent,
        b.kept_tools(),
        b.kept_tools().len() as int,
    ) {
        Ok(w) => with_local_stores(w, agent, b.stores, b.stores.len() as int),
        Err(error) => Err(error),
    }
}

/// The executor of a tool.
pub open spec fn tool_key(registration: LocalToolRegistrationView) -> ExecutorKeyView {
    ExecutorKeyView { id: registration.id, revision: registration.capability.revision }
}

/// The executor of a store.
pub open spec fn store_key(registration: LocalStoreRegistrationView) -> ExecutorKeyView {
    ExecutorKeyView { id: registration.id, revision: registration.capability.revision }
}

/// Standalone agent: its runtime, its handle and the executors that it needs.
#[derive(Debug)]
pub struct LocalModelAgent {
    /// The runtime.
    pub runtime: Runtime,
    /// Handle of the agent.
    pub agent: AgentHandle,
    /// Binding of the model.
    pub model: CompletionModelAdapter,
    /// Positions of the registrations whose tools were kept.
    pub tool_positions: Vec<usize>,
    /// Executors of the tools that were kept.
    pub tools: Vec<ExecutorKey>,
    /// Executors of the stores.
    pub stores: Vec<ExecutorKey>,
}

impl LocalModelAgentBuilder {
    /// Begins construction around a provider and a model.
    pub fn new(provider: String, model_name: String) -> (r: Self)
        ensures
            r@ == (LocalModelAgentBuilderView {
                provider: provider@,
                model_name: model_name@,
                name: None,
                description: None,
                instructions: Seq::empty(),
                temperature_bits: None,
                max_tokens: None,
                tool_choice: None,
                additional_params: None,
                documents: Seq::empty(),
                max_model_calls: 16,
                output_schema: None,
                structured_output_mode: StructuredOutputMode::Auto,
                terminal_tool: None,
                retrieval_limit: None,
                tools: Seq::empty(),
                stores: Seq::empty(),
            }),
    {
        let r = LocalModelAgentBuilder {
            provider,
            model_name,
            name: None,
            description: None,
            instructions: String::new(),
            temperature_bits: None,
            max_tokens: None,
            tool_choice: None,
            additional_params: None,
            documents: Vec::new(),
            max_model_calls: 16,
            output_schema: None,
            structured_output_mode: StructuredOutputMode::Auto,
            terminal_tool: None,
            retrieval_limit: None,
            tools: Vec::new(),
            stores: Vec::new(),
        };
        proof {
            assert(r.documents.deep_view() =~= Seq::empty());
            assert(r.tools.deep_view() =~= Seq::empty());
            assert(r.stores.deep_view() =~= Seq::empty());
        }
        r
    }

    /// Sets instructions stored on the agent entity.
    pub fn instructions(self, instructions: String) -> (r: Self)
        ensures
            r@ == (LocalModelAgentBuilderView { instructions: instructions@, ..self@ }),
    {
        let mut r = self;
        r.instructions = instructions;
        r
    }

    /// Sets the agent's queryable human-readable name.
    pub fn name(self, name: String) -> (r: Self)
        ensures
            r@ == (LocalModelAgentBuilderView { name: Some(name@), ..self@ }),
    {
        let mut r = self;
        r.name = Some(name);
        r
    }

    /// Sets the agent's queryable human-readable description.
    pub fn description(self, description: String) -> (r: Self)
        ensures
            r@ == (LocalModelAgentBuilderView { description: Some(description@), ..self@ }),
    {
        let mut r = self;
        r.description = Some(description);
        r
    }

    /// Sets the system instructions stored on the agent entity.
    pub fn preamble(self, instructions: String) -> (r: Self)
        ensures
            r@ == (LocalModelAgentBuilderView { instructions: instructions@, ..self@ }),
    {
        self.instructions(instructions)
    }

    /// Appends text to the system instructions stored on the agent entity.
    pub fn append_preamble(self, instructions: &str) -> (r: Self)
        ensures
            r@ == (LocalModelAgentBuilderView {
                instructions: appended(self@.instructions, "\n"@, instructions@),
                ..self@
            }),
    {
        let mut r = self;
        let text = append_text(&r.instructions, "\n", instructions);
        r.instructions = text;
        r
    }

    /// Sets the sampling temperature snapshotted into each model operation, by its bits.
    pub fn temperature_bits(self, bits: u64) -> (r: Self)
        ensures
            r@ == (LocalModelAgentBuilderView { temperature_bits: Some(bits), ..self@ }),
    {
        let mut r = self;
        r.temperature_bits = Some(bits);
        r
    }

    /// Sets the provider output-token limit.
    pub fn max_tokens(self, max_tokens: u64) -> (r: Self)
        ensures
            r@ == (LocalModelAgentBuilderView { max_tokens: Some(max_tokens), ..self@ }),
    {
        let mut r = self;
        r.max_tokens = Some(max_tokens);
        r
    }

    /// Sets provider-independent tool-selection behaviour.
    pub fn tool_choice(self, tool_choice: ModelToolChoice) -> (r: Self)
        ensures
            r@ == (LocalModelAgentBuilderView { tool_choice: Some(tool_choice@), ..self@ }),
    {
        let mut r = self;
        r.tool_choice = Some(tool_choice);
        r
    }

    /// Sets provider-specific parameters copied into immutable operations.
    pub fn additional_params(self, params: serde_json::Value) -> (r: Self)
        ensures
            r@ == (LocalModelAgentBuilderView { additional_params: Some(params), ..self@ }),
    {
        let mut r = self;
        r.additional_params = Some(params);
        r
    }

    /// Adds one static context document, numbered in order.
    pub fn context(self, document: String) -> (r: Self)
        ensures
            r@ == (LocalModelAgentBuilderView {
                documents: self@.documents.push(
                    RetrievedDocumentView {
                        id: numbered("static_doc_"@, self@.documents.len()),
                        text: document@,
                        metadata: Map::empty(),
                    },
                ),
                ..self@
            }),
    {
        let mut r = self;
        let ghost before = r.documents.deep_view();
        let id = number_text("static_doc_", r.documents.len());
        let document = RetrievedDocument::new(id, document);
        let ghost view = document@;
        r.documents.push(document);
        assert(r.documents.deep_view() =~= before.push(view));
        r
    }

    /// Sets the maximum number of model calls accepted for one run.
    pub fn max_model_calls(self, max_model_calls: u32) -> (r: Self)
        ensures
            r@ == (LocalModelAgentBuilderView { max_model_calls, ..self@ }),
    {
        let mut r = self;
        r.max_model_calls = max_model_calls;
        r
    }

    /// Sets the maximum number of model operations for each run; a number that does not fit
    /// becomes the largest.
    pub fn default_max_turns(self, max_turns: usize) -> (r: Self)
        ensures
            r@ == (LocalModelAgentBuilderView {
                max_model_calls: clamped(max_turns as nat),
                ..self@
            }),
    {
        self.max_model_calls(clamp(max_turns))
    }

    /// Sets a raw JSON Schema requirement for terminal model text.
    pub fn output_schema(self, schema: serde_json::Value) -> (r: Self)
        ensures
            r@ == (LocalModelAgentBuilderView { output_schema: Some(schema), ..self@ }),
    {
        let mut r = self;
        r.output_schema = Some(schema);
        r
    }

    /// Selects how a configured output schema is presented to the model.
    pub fn structured_output_mode(self, mode: StructuredOutputMode) -> (r: Self)
        ensures
            r@ == (LocalModelAgentBuilderView { structured_output_mode: mode, ..self@ }),
    {
        let mut r = self;
        r.structured_output_mode = mode;
        r
    }

    /// Accepts the named tool's arguments as terminal structured output.
    pub fn terminal_tool(self, name: String) -> (r: Self)
        ensures
            r@ == (LocalModelAgentBuilderView { terminal_tool: Some(name@), ..self@ }),
    {
        let mut r = self;
        r.terminal_tool = Some(name);
        r
    }

    /// Adds one tool capability.
    pub fn tool(self, id: StableId, capability: ToolCapability) -> (r: Self)
        ensures
            r@ == (LocalModelAgentBuilderView {
                tools: self@.tools.push(
                    LocalToolRegistrationView { id: id@, capability: capability@ },
                ),
                ..self@
            }),
    {
        let mut r = self;
        let ghost before = r.tools.deep_view();
        let registration = LocalToolRegistration { id, capability };
        let ghost view = registration@;
        r.tools.push(registration);
        assert(r.tools.deep_view() =~= before.push(view));
        r
    }

    /// Adds a tool by its definition, with an id and an order of its position.
    pub fn authored_tool(self, name: String, description: String, parameters: serde_json::Value) -> (r:
        Self)
        ensures
            r@ == (LocalModelAgentBuilderView {
                tools: self@.tools.push(
                    LocalToolRegistrationView {
                        id: numbered("local-tool-"@, self@.tools.len()),
                        capability: ToolCapabilityView {
                            name: name@,
                            description: description@,
                            parameters,
                            order: clamped(self@.tools.len()),
                            revision: 1,
                            retired: false,
                        },
                    },
                ),
                ..self@
            }),
    {
        let order: usize = self.tools.len();
        let id = StableId::generated(number_text("local-tool-", order));
        let capability = ToolCapability {
            name,
            description,
            parameters,
            order: clamp(order),
            revision: 1,
            retired: false,
        };
        self.tool(id, capability)
    }

    /// Adds one store capability and its grant to the agent.
    pub fn store(self, id: StableId, capability: StoreCapability, grant: StoreGrant) -> (r: Self)
        ensures
            r@ == (LocalModelAgentBuilderView {
                stores: self@.stores.push(
                    LocalStoreRegistrationView { id: id@, capability: capability@, grant },
                ),
                ..self@
            }),
    {
        let mut r = self;
        let ghost before = r.stores.deep_view();
        let registration = LocalStoreRegistration { id, capability, grant };
        let ghost view = registration@;
        r.stores.push(registration);
        assert(r.stores.deep_view() =~= before.push(view));
        r
    }

    /// Adds a vector-search store that runs retrieve documents from.
    pub fn dynamic_context(self, limit: usize) -> (r: Self)
        ensures
            r@ == (LocalModelAgentBuilderView {
                retrieval_limit: Some(limit),
                stores: self@.stores.push(
                    numbered_store("local-vector-store-"@, "vector-search"@, self@.stores.len()),
                ),
                ..self@
            }),
    {
        let order: usize = self.stores.len();
        let mut r = self;
        r.retrieval_limit = Some(limit);
        r.store(
            StableId::generated(number_text("local-vector-store-", order)),
            StoreCapability { kind: "vector-search".to_owned(), revision: 1, retired: false },
            StoreGrant { order: clamp(order), enabled: true },
        )
    }

    /// Adds a conversation-memory store.
    pub fn memory(self) -> (r: Self)
        ensures
            r@ == (LocalModelAgentBuilderView {
                stores: self@.stores.push(
                    numbered_store(
                        "local-conversation-store-"@,
                        "conversation-memory"@,
                        self@.stores.len(),
                    ),
                ),
                ..self@
            }),
    {
        let order: usize = self.stores.len();
        self.store(
            StableId::generated(number_text("local-conversation-store-", order)),
            StoreCapability { kind: "conversation-memory".to_owned(), revision: 1, retired: false },
            StoreGrant { order: clamp(order), enabled: true },
        )
    }

    /// Applies the strategy that the schema is to be presented with.
    fn present(self) -> (r: Self)
        ensures
            r@ == self@.presented(),
    {
        let mut r = self;
        let schema = match &r.output_schema {
            Some(schema) => schema.clone(),
            None => return r,
        };
        let mode = match r.structured_output_mode {
            StructuredOutputMode::Auto => {
                if r.terminal_tool.is_some() {
                    None
                } else if r.tools.len() == 0 {
                    Some(StructuredOutputMode::Native)
                } else {
                    Some(StructuredOutputMode::Tool)
                }
            },
            mode => Some(mode),
        };
        match mode {
            Some(StructuredOutputMode::Tool) => {
                let text = append_text(
                    &r.instructions,
                    "\n\n",
                    "When you have gathered enough information to answer, call the `final_result` tool exactly once with your final answer. Its arguments are the structured result and must satisfy the required schema. Do not return the final answer as plain text.",
                );
                r.instructions = text;
                r.terminal_tool = Some("final_result".to_owned());
            },
            Some(StructuredOutputMode::Prompted) => {
                let printed = print_json(&schema);
                let mut more =
                    "Respond with ONLY a single JSON object that conforms to this JSON Schema. Do not include any prose, explanation, or markdown code fences.\n".to_owned();
                more.append(printed.as_str());
                let text = append_text(&r.instructions, "\n\n", more.as_str());
                r.instructions = text;
                r.terminal_tool = Some(String::new());
            },
            _ => {},
        }
        r
    }

    /// Finds the positions of the tools that are kept.
    fn keep_tools(&self) -> (r: Vec<usize>)
        ensures
            r@.len() == self@.kept_positions().len(),
            forall|i: int|
                0 <= i < r@.len() ==> #[trigger] r@[i] == self@.kept_positions()[i] && r@[i]
                    < self.tools@.len(),
    {
        broadcast use crate::fold::group_fold;

        let ghost b = self@;
        let ghost all = Seq::new(b.tools.len(), |i: int| i);
        let ghost pick = |i: int| b.kept_position(i);
        let mut r: Vec<usize> = Vec::new();
        let mut i: usize = 0;
        while i < self.tools.len()
            invariant
                i <= self.tools@.len(),
                b == self@,
                all == Seq::new(b.tools.len(), |i: int| i),
                pick == (|i: int| b.kept_position(i)),
                r@.len() == picked(all.take(i as int), pick).len(),
                forall|k: int|
                    0 <= k < r@.len() ==> #[trigger] r@[k] == picked(all.take(i as int), pick)[k]
                        && r@[k] < self.tools@.len(),
            decreases self.tools@.len() - i,
        {
            proof {
                lemma_picked_next(all, i as int, pick);
                assert(all[i as int] == i);
            }
            let mut replaced = false;
            let mut j: usize = i + 1;
            while j < self.tools.len()
                invariant
                    i < j <= self.tools@.len(),
                    b == self@,
                    replaced ==> b.kept_position(i as int) is None,
                    !replaced ==> forall|k: int|
                        i < k < j ==> (#[trigger] b.tools[k]).capability.name
                            != b.tools[i as int].capability.name,
                decreases self.tools@.len() - j,
            {
                proof {
                    assert(b.tools[j as int] == self.tools@[j as int]@);
                    assert(b.tools[i as int] == self.tools@[i as int]@);
                }
                if self.tools[j].capability.name == self.tools[i].capability.name {
                    replaced = true;
                }
                j = j + 1;
            }
            if !replaced {
                r.push(i);
            }
            i = i + 1;
        }
        r
    }

    /// Spawns all domain entities and relationships into one runtime world.
    pub fn build(self, runtime_id: u64) -> (r: Result<LocalModelAgent, LocalAgentError>)
        ensures
            ({
                let b = self@.presented();
                let config = RuntimeConfig::standard();
                let start = with_runtime(WorldView::empty(), config, runtime_id);
                match (r, composed(start, b)) {
                    (Ok(local), Ok(w)) => {
                        &&& local.runtime@ == (ScheduleView {
                            world: w,
                            handle: new_handle(config, runtime_id),
                            effects: new_effects(config),
                        })
                        &&& local.runtime.progress_limit == config.progress_limit
                        &&& local.agent == (AgentHandle { runtime_id, entity: Entity(1) })
                        &&& local.model@ == (CompletionModelAdapterView {
                            binding: Some(
                                ModelDecisionView {
                                    model_entity: Entity(0),
                                    model_id: "local-model"@,
                                    revision: 1,
                                    provider: b.provider,
                                    model: b.model_name,
                                    tenant: "local"@,
                                },
                            ),
                        })
                        &&& local.tool_positions@.len() == b.kept_positions().len()
                        &&& forall|i: int|
                            0 <= i < local.tool_positions@.len() ==> #[trigger] local.tool_positions@[i]
                                == b.kept_positions()[i]
                        &&& local.tools.deep_view() == Seq::new(
                            b.kept_tools().len(),
                            |i: int| tool_key(b.kept_tools()[i]),
                        )
                        &&& local.stores.deep_view() == Seq::new(
                            b.stores.len(),
                            |i: int| store_key(b.stores[i]),
                        )
                    },
                    (Err(error), Err(fault)) => error@ == LocalAgentErrorView::Spawn(fault),
                    _ => false,
                }
            }),
    {
        let builder = self.present();
        let ghost b = builder@;
        let tool_positions = builder.keep_tools();
        let config = RuntimeConfig::default();
        let mut runtime = match Runtime::new(config, runtime_id) {
            Ok(runtime) => runtime,
            Err(error) => return Err(LocalAgentError::Install(error)),
        };
        let ghost start = runtime@.world;
        let tenant = TenantId::local();
        let model_id = StableId::generated("local-model".to_owned());
        let copy = builder.clone();
        let capability = ModelCapability {
            provider: copy.provider,
            model: copy.model_name,
            revision: 1,
            retired: false,
        };
        proof {
            lemma_start_is_free(start);
        }
        let model = match runtime.spawn_model(model_id.clone(), tenant.clone(), capability.clone()) {
            Ok(model) => model,
            Err(error) => return Err(LocalAgentError::Spawn(error)),
        };
        let binding = ModelDecision {
            model_entity: model,
            model_id,
            revision: capability.revision,
            provider: capability.provider,
            model: capability.model,
            tenant: tenant.clone(),
        };
        let agent = Agent {
            name: copy.name,
            description: copy.description,
            instructions: copy.instructions,
            temperature_bits: copy.temperature_bits,
            max_tokens: copy.max_tokens,
            tool_choice: copy.tool_choice,
            additional_params: copy.additional_params,
            documents: copy.documents,
            max_model_calls: copy.max_model_calls,
            terminal_tool: copy.terminal_tool,
        };
        let agent_id = StableId::generated("local-agent".to_owned());
        proof {
            lemma_model_leaves_agent_free(start, b.model());
        }
        let agent = match runtime.spawn_agent(agent_id, tenant.clone(), agent, model) {
            Ok(agent) => agent,
            Err(error) => return Err(LocalAgentError::Spawn(error)),
        };
        if let Some(schema) = copy.output_schema {
            match runtime.set_output_requirement(agent, OutputRequirement { schema }) {
                Ok(_) => {},
                Err(error) => return Err(LocalAgentError::Spawn(error)),
            }
        }
        if let Some(limit) = copy.retrieval_limit {
            match runtime.set_retrieval_requirement(agent, RetrievalRequirement { limit }) {
                Ok(_) => {},
                Err(error) => return Err(LocalAgentError::Spawn(error)),
            }
        }
        assert(runtime@.world == with_local_agent(start, b));
        let tools = match builder.spawn_tools(&mut runtime, agent, &tool_positions) {
            Ok(tools) => tools,
            Err(error) => return Err(error),
        };
        let stores = match builder.spawn_stores(&mut runtime, agent) {
            Ok(stores) => stores,
            Err(error) => return Err(error),
        };
        Ok(
            LocalModelAgent {
                runtime,
                agent,
                model: CompletionModelAdapter::bound(binding),
                tool_positions,
                tools,
                stores,
            },
        )
    }

    fn spawn_tools(&self, runtime: &mut Runtime, agent: AgentHandle, positions: &Vec<usize>) -> (r:
        Result<Vec<ExecutorKey>, LocalAgentError>)
        requires
            agent.runtime_id == old(runtime)@.handle.runtime_id,
            positions@.len() == self@.kept_positions().len(),
            forall|i: int|
                0 <= i < positions@.len() ==> #[trigger] positions@[i]
                    == self@.kept_positions()[i] && positions@[i] < self.tools@.len(),
        ensures
            ({
                let kept = self@.kept_tools();
                match (
                    r,
                    with_local_tools(
                        old(runtime)@.world,
                        agent.entity,
                        kept,
                        kept.len() as int,
                    ),
                ) {
                    (Ok(keys), Ok(w)) => {
                        &&& final(runtime).same_but_world(old(runtime), w)
                        &&& keys.deep_view() == Seq::new(kept.len(), |i: int| tool_key(kept[i]))
                    },
                    (Err(error), Err(fault)) => error@ == LocalAgentErrorView::Spawn(fault),
                    _ => false,
                }
            }),
    {
        let ghost kept = self@.kept_tools();
        let ghost start = runtime@.world;
        let mut keys: Vec<ExecutorKey> = Vec::new();
        let mut order: usize = 0;
        while order < positions.len()
            invariant
                order <= positions@.len(),
                kept == self@.kept_tools(),
                start == old(runtime)@.world,
                agent.runtime_id == old(runtime)@.handle.runtime_id,
                positions@.len() == kept.len(),
                positions@.len() == self@.kept_positions().len(),
                forall|i: int|
                    0 <= i < positions@.len() ==> #[trigger] positions@[i]
                        == self@.kept_positions()[i] && positions@[i] < self.tools@.len(),
                runtime.same_but_world(old(runtime), runtime@.world),
                with_local_tools(start, agent.entity, kept, order as int) == Ok::<
                    WorldView,
                    SpawnErrorView,
                >(runtime@.world),
                keys@.len() == order,
                forall|k: int| 0 <= k < order ==> (#[trigger] keys@[k])@ == tool_key(kept[k]),
            decreases positions@.len() - order,
        {
            let ghost before = runtime@.world;
            let position: usize = positions[order];
            proof {
                assert(kept[order as int] == self@.tools[position as int]);
                assert(self@.tools[position as int] == self.tools@[position as int]@);
                assert(with_local_tools(start, agent.entity, kept, order + 1) == with_local_tool(
                    before,
                    agent.entity,
                    order as nat,
                    kept[order as int],
                ));
                lemma_tools_fail_early(start, agent.entity, kept, order + 1, kept.len() as int);
            }
            let registration = self.tools[position].clone();
            let id = registration.id.clone();
            let revision: u64 = registration.capability.revision;
            let tool = match runtime.spawn_tool(
                registration.id,
                TenantId::local(),
                registration.capability,
            ) {
                Ok(tool) => tool,
                Err(error) => return Err(LocalAgentError::Spawn(error)),
            };
            let grant = ToolGrant { order: clamp(order), enabled: true };
            let grant_id = StableId::generated(number_text("local-tool-grant-", order));
            match runtime.grant_tool(grant_id, TenantId::local(), grant, agent, tool) {
                Ok(_) => {},
                Err(error) => return Err(LocalAgentError::Spawn(error)),
            }
            keys.push(ExecutorKey { id, revision });
            order = order + 1;
        }
        assert(keys.deep_view() =~= Seq::new(kept.len(), |i: int| tool_key(kept[i])));
        Ok(keys)
    }

    fn spawn_stores(&self, runtime: &mut Runtime, agent: AgentHandle) -> (r: Result<
        Vec<ExecutorKey>,
        LocalAgentError,
    >)
        requires
            agent.runtime_id == old(runtime)@.handle.runtime_id,
        ensures
            ({
                let stores = self@.stores;
                match (
                    r,
                    with_local_stores(
                        old(runtime)@.world,
                        agent.entity,
                        stores,
                        stores.len() as int,
                    ),
                ) {
                    (Ok(keys), Ok(w)) => {
                        &&& final(runtime).same_but_world(old(runtime), w)
                        &&& keys.deep_view() == Seq::new(
                            stores.len(),
                            |i: int| store_key(stores[i]),
                        )
                    },
                    (Err(error), Err(fault)) => error@ == LocalAgentErrorView::Spawn(fault),
                    _ => false,
                }
            }),
    {
        let ghost stores = self@.stores;
        let ghost start = runtime@.world;
        let mut keys: Vec<ExecutorKey> = Vec::new();
        let mut order: usize = 0;
        while order < self.stores.len()
            invariant
                order <= self.stores@.len(),
                stores == self@.stores,
                start == old(runtime)@.world,
                agent.runtime_id == old(runtime)@.handle.runtime_id,
                runtime.same_but_world(old(runtime), runtime@.world),
                with_local_stores(start, agent.entity, stores, order as int) == Ok::<
                    WorldView,
                    SpawnErrorView,
                >(runtime@.world),
                keys@.len() == order,
                forall|k: int| 0 <= k < order ==> (#[trigger] keys@[k])@ == store_key(stores[k]),
            decreases self.stores@.len() - order,
        {
            let ghost before = runtime@.world;
            proof {
                assert(stores[order as int] == self.stores@[order as int]@);
                assert(with_local_stores(start, agent.entity, stores, order + 1)
                    == with_local_store(
                    before,
                    agent.entity,
                    order as nat,
                    stores[order as int],
                ));
                lemma_stores_fail_early(start, agent.entity, stores, order + 1, stores.len() as int);
            }
            let registration = self.stores[order].clone();
            let id = registration.id.clone();
            let revision: u64 = registration.capability.revision;
            let store = match runtime.spawn_store(
                registration.id,
                TenantId::local(),
                registration.capability,
            ) {
                Ok(store) => store,
                Err(error) => return Err(LocalAgentError::Spawn(error)),
            };
            let grant_id = StableId::generated(number_text("local-store-grant-", order));
            match runtime.grant_store(grant_id, TenantId::local(), registration.grant, agent, store) {
                Ok(_) => {},
                Err(error) => return Err(LocalAgentError::Spawn(error)),
            }
            keys.push(ExecutorKey { id, revision });
            order = order + 1;
        }
        assert(keys.deep_view() =~= Seq::new(stores.len(), |i: int| store_key(stores[i])));
        Ok(keys)
    }
}

/// A store with an id and a grant of its position.
pub open spec fn numbered_store(
    prefix: Seq<char>,
    kind: Seq<char>,
    order: nat,
) -> LocalStoreRegistrationView {
    LocalStoreRegistrationView {
        id: numbered(prefix, order),
        capability: StoreCapabilityView { kind, revision: 1, retired: false },
        grant: StoreGrant { order: clamped(order), enabled: true },
    }
}

fn append_text(instructions: &String, separator: &str, more: &str) -> (r: String)
    ensures
        r@ == appended(instructions@, separator@, more@),
{
    if instructions.as_str().is_empty() {
        return more.to_owned();
    }
    let mut r = instructions.clone();
    r.append(separator);
    r.append(more);
    r
}

/// A fault among the first tools is the fault of all of them.
proof fn lemma_tools_fail_early(
    w: WorldView,
    agent: Entity,
    tools: Seq<LocalToolRegistrationView>,
    i: int,
    n: int,
)
    requires
        0 <= i <= n,
    ensures
        with_local_tools(w, agent, tools, i) is Err ==> with_local_tools(w, agent, tools, n)
            == with_local_tools(w, agent, tools, i),
    decreases n - i,
{
    if i < n {
        lemma_tools_fail_early(w, agent, tools, i, n - 1);
    }
}

/// A fault among the first stores is the fault of all of them.
proof fn lemma_stores_fail_early(
    w: WorldView,
    agent: Entity,
    stores: Seq<LocalStoreRegistrationView>,
    i: int,
    n: int,
)
    requires
        0 <= i <= n,
    ensures
        with_local_stores(w, agent, stores, i) is Err ==> with_local_stores(w, agent, stores, n)
            == with_local_stores(w, agent, stores, i),
    decreases n - i,
{
    if i < n {
        lemma_stores_fail_early(w, agent, stores, i, n - 1);
    }
}

/// A world without ids takes any id.
proof fn lemma_start_is_free(w: WorldView)
    requires
        w.stable_ids == Map::<Entity, Seq<char>>::empty(),
    ensures
        forall|id: Seq<char>, tenant: Seq<char>| #[trigger]
            spawn_fault(w, id, tenant, Seq::empty()) is None,
{
    assert forall|id: Seq<char>, tenant: Seq<char>| #[trigger]
        spawn_fault(w, id, tenant, Seq::empty()) is None by {
        assert(!crate::runtime::id_taken(w, id)) by {
            assert forall|e: Entity| #[trigger] w.stable_ids.contains_key(e) implies false by {}
        }
    }
}

/// The model leaves the id of the agent free and is of its tenant.
proof fn lemma_model_leaves_agent_free(w: WorldView, model: ModelCapabilityView)
    requires
        w.stable_ids == Map::<Entity, Seq<char>>::empty(),
    ensures
        spawn_fault(
            w.with_model("local-model"@, "local"@, model),
            "local-agent"@,
            "local"@,
            seq![w.fresh()],
        ) is None,
{
    let next = w.with_model("local-model"@, "local"@, model);
    reveal_strlit("local-model");
    reveal_strlit("local-agent");
    assert("local-model"@[6] != "local-agent"@[6]);
    assert(!crate::runtime::id_taken(next, "local-agent"@)) by {
        assert forall|e: Entity| #[trigger]
            next.stable_ids.contains_key(e) implies next.stable_ids[e] != "local-agent"@ by {
            assert(e == w.fresh());
        }
    }
    assert(next.tenants.contains_key(w.fresh()));
    reveal_with_fuel(crate::fold::first_picked, 2);
}

} // verus!
