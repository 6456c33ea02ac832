//! Prompts and documents that say how the tools work together.
//!
//! A prompt is a template that a client fills in by name; a resource is a
//! document that it reads by identifier.
use crate::json::pair_texts;
use crate::skill_texts::{
    AUDIT_STEPS_1,
    AUDIT_STEPS_2,
    AUDIT_SYSTEM,
    AUTHORITY_MODEL,
    AUTHORITY_MODEL_TITLE,
    CAPTURE_STEPS_1,
    CAPTURE_SYSTEM,
    CHECK_STEPS,
    DIRTY_CHECK_STEPS,
    EXPLORE_SYSTEM,
    EXPLORE_TIPS_1,
    KNOWLEDGE_GRAPH_EXPLORER,
    KNOWLEDGE_GRAPH_EXPLORER_TITLE,
    MAINTENANCE_DISCIPLINE_1,
    MAINTENANCE_SYSTEM,
    MEMORY_CURATOR,
    MEMORY_CURATOR_TITLE,
    MEMORY_KEEPER,
    MEMORY_KEEPER_TITLE,
    MEMORY_MAINTENANCE,
    MEMORY_MAINTENANCE_TITLE,
    PATH_STEPS_1,
    POOLED_MEMORY_OPERATIONS,
    POOLED_MEMORY_OPERATIONS_TITLE,
    REBUILD_FTS_STEPS,
    RECALL_STEPS_1,
    RECALL_STEPS_2,
    RECALL_STEPS_3,
    RECALL_SYSTEM,
    REEMBED_STEPS,
    RELATED_STEPS_1,
    RELATED_STEPS_2,
    RETRIEVAL_STRATEGY,
    RETRIEVAL_STRATEGY_TITLE,
    STANDARD_WORKFLOW,
    STANDARD_WORKFLOW_TITLE,
    STRUCTURE_STEPS_1,
    STRUCTURE_STEPS_2,
    SUPERSEDE_STEPS_1,
    SUPERSEDE_STEPS_2,
    SUPERSEDE_SYSTEM,
    VACUUM_STEPS,
};
use crate::text::{after, cat2, cat3, optional_text, same_text, starts_with, strip_prefix};
use vstd::prelude::*;

verus! {

/// A text under construction.
struct Draft {
    so_far: String,
}

impl View for Draft {
    type V = Seq<char>;

    closed spec fn view(&self) -> Seq<char> {
        self.so_far@
    }
}

impl Draft {
    /// A text that begins with the given one.
    fn new(first: &str) -> (r: Draft)
        ensures
            r@ == first@,
    {
        Draft { so_far: first.to_owned() }
    }

    /// The text followed by another.
    fn plus(self, part: &str) -> (r: Draft)
        ensures
            r@ == self@ + part@,
    {
        Draft { so_far: cat2(&self.so_far, part) }
    }

    /// The text.
    fn text(self) -> (s: String)
        ensures
            s@ == self@,
    {
        self.so_far
    }
}

/// What a prompt asks for.
pub struct PromptArgument {
    pub name: String,
    pub description: String,
    pub required: bool,
}

/// What a prompt asks for.
#[verifier::ext_equal]
pub struct PromptArgumentView {
    pub name: Seq<char>,
    pub description: Seq<char>,
    pub required: bool,
}

impl View for PromptArgument {
    type V = PromptArgumentView;

    open spec fn view(&self) -> PromptArgumentView {
        PromptArgumentView {
            name: self.name@,
            description: self.description@,
            required: self.required,
        }
    }
}

/// How a prompt is listed.
pub struct Prompt {
    pub name: String,
    pub description: String,
    pub arguments: Vec<PromptArgument>,
}

/// How a prompt is listed.
#[verifier::ext_equal]
pub struct PromptView {
    pub name: Seq<char>,
    pub description: Seq<char>,
    pub arguments: Seq<PromptArgumentView>,
}

impl View for Prompt {
    type V = PromptView;

    open spec fn view(&self) -> PromptView {
        PromptView {
            name: self.name@,
            description: self.description@,
            arguments: Seq::new(self.arguments@.len(), |i: int| self.arguments@[i]@),
        }
    }
}

/// How prompts are listed.
pub open spec fn prompt_views(prompts: Seq<Prompt>) -> Seq<PromptView> {
    Seq::new(prompts.len(), |i: int| prompts[i]@)
}

/// A prompt that asks for nothing.
pub open spec fn prompt_entry(name: Seq<char>, description: Seq<char>) -> PromptView {
    PromptView { name, description, arguments: Seq::empty() }
}

impl PromptView {
    /// The prompt with one more argument.
    pub open spec fn taking(
        self,
        name: Seq<char>,
        description: Seq<char>,
        required: bool,
    ) -> PromptView {
        PromptView {
            arguments: self.arguments.push(PromptArgumentView { name, description, required }),
            ..self
        }
    }
}

impl Prompt {
    /// A prompt that asks for nothing.
    fn new(name: &str, description: &str) -> (prompt: Prompt)
        ensures
            prompt@ == prompt_entry(name@, description@),
    {
        let prompt = Prompt {
            name: name.to_owned(),
            description: description.to_owned(),
            arguments: Vec::new(),
        };
        assert(prompt@ =~= prompt_entry(name@, description@));
        prompt
    }

    /// The prompt with one more argument.
    fn taking(self, name: &str, description: &str, required: bool) -> (prompt: Prompt)
        ensures
            prompt@ == self@.taking(name@, description@, required),
    {
        let mut arguments = self.arguments;
        arguments.push(
            PromptArgument { name: name.to_owned(), description: description.to_owned(), required },
        );
        let prompt = Prompt { name: self.name, description: self.description, arguments };
        assert(prompt@.arguments =~= self@.taking(name@, description@, required).arguments);
        prompt
    }
}

/// A prompt that was filled in: what it is for, and its two messages.
pub struct PromptText {
    pub description: String,
    pub system: String,
    pub user: String,
}

/// A prompt that was filled in: what it is for, and its two messages.
#[verifier::ext_equal]
pub struct PromptTextView {
    pub description: Seq<char>,
    pub system: Seq<char>,
    pub user: Seq<char>,
}

impl View for PromptText {
    type V = PromptTextView;

    open spec fn view(&self) -> PromptTextView {
        PromptTextView {
            description: self.description@,
            system: self.system@,
            user: self.user@,
        }
    }
}

/// How the recall prompt is listed.
pub open spec fn listed_recall() -> PromptView {
    prompt_entry("sm-recall"@, "Search semantic memory for prior context before asking the user. Returns a structured query plan with namespace filters, retrieval mode selection, and evidence-verification steps."@).taking(
        "query"@,
        "The search query — what you want to recall"@,
        true,
    ).taking(
        "namespace"@,
        "Optional namespace filter (e.g. 'projects', 'research', 'general')"@,
        false,
    ).taking(
        "top_k"@,
        "Max results to return (default 5, max 50)"@,
        false,
    )
}

/// How the recall prompt is listed.
fn list_recall() -> (prompt: Prompt)
    ensures
        prompt@ == listed_recall(),
{
    Prompt::new("sm-recall", "Search semantic memory for prior context before asking the user. Returns a structured query plan with namespace filters, retrieval mode selection, and evidence-verification steps.").taking(
        "query",
        "The search query — what you want to recall",
        true,
    ).taking(
        "namespace",
        "Optional namespace filter (e.g. 'projects', 'research', 'general')",
        false,
    ).taking(
        "top_k",
        "Max results to return (default 5, max 50)",
        false,
    )
}

/// How the capture prompt is listed.
pub open spec fn listed_capture() -> PromptView {
    prompt_entry("sm-capture-fact"@, "Store a durable, source-attributed fact in semantic memory. Guides namespace selection, evidence linking, idempotency, and sensitivity classification."@).taking(
        "content"@,
        "The fact text to store"@,
        true,
    ).taking(
        "namespace"@,
        "Namespace for this fact (e.g. 'projects', 'research', 'preferences')"@,
        true,
    ).taking(
        "source"@,
        "Source attribution (URL, file path, or reference)"@,
        false,
    ).taking(
        "memory_kind"@,
        "Classification: durable_fact, preference, project_state, instruction_policy, correction, observation, episode_summary, skill_procedure, ephemeral_inference"@,
        false,
    )
}

/// How the capture prompt is listed.
fn list_capture() -> (prompt: Prompt)
    ensures
        prompt@ == listed_capture(),
{
    Prompt::new("sm-capture-fact", "Store a durable, source-attributed fact in semantic memory. Guides namespace selection, evidence linking, idempotency, and sensitivity classification.").taking(
        "content",
        "The fact text to store",
        true,
    ).taking(
        "namespace",
        "Namespace for this fact (e.g. 'projects', 'research', 'preferences')",
        true,
    ).taking(
        "source",
        "Source attribution (URL, file path, or reference)",
        false,
    ).taking(
        "memory_kind",
        "Classification: durable_fact, preference, project_state, instruction_policy, correction, observation, episode_summary, skill_procedure, ephemeral_inference",
        false,
    )
}

/// How the audit prompt is listed.
pub open spec fn listed_audit() -> PromptView {
    prompt_entry("sm-audit"@, "Audit the semantic memory store for health: duplicates, contradictions, stale facts, graph gaps. Read-only phase produces a report; reconciliation requires user approval."@).taking(
        "namespace"@,
        "Optional namespace to focus the audit on (omit for all)"@,
        false,
    )
}

/// How the audit prompt is listed.
fn list_audit() -> (prompt: Prompt)
    ensures
        prompt@ == listed_audit(),
{
    Prompt::new("sm-audit", "Audit the semantic memory store for health: duplicates, contradictions, stale facts, graph gaps. Read-only phase produces a report; reconciliation requires user approval.").taking(
        "namespace",
        "Optional namespace to focus the audit on (omit for all)",
        false,
    )
}

/// How the explore prompt is listed.
pub open spec fn listed_explore() -> PromptView {
    prompt_entry("sm-explore-graph"@, "Explore the knowledge graph around a topic: find related items, trace connections between two concepts, or discover community clusters."@).taking(
        "topic"@,
        "The topic or concept to explore"@,
        true,
    ).taking(
        "mode"@,
        "Exploration mode: 'related' (what's related to X), 'path' (how are X and Y connected), or 'structure' (clusters/communities)"@,
        false,
    ).taking(
        "second_topic"@,
        "For 'path' mode: the second concept to find a connection to"@,
        false,
    )
}

/// How the explore prompt is listed.
fn list_explore() -> (prompt: Prompt)
    ensures
        prompt@ == listed_explore(),
{
    Prompt::new("sm-explore-graph", "Explore the knowledge graph around a topic: find related items, trace connections between two concepts, or discover community clusters.").taking(
        "topic",
        "The topic or concept to explore",
        true,
    ).taking(
        "mode",
        "Exploration mode: 'related' (what's related to X), 'path' (how are X and Y connected), or 'structure' (clusters/communities)",
        false,
    ).taking(
        "second_topic",
        "For 'path' mode: the second concept to find a connection to",
        false,
    )
}

/// How the maintenance prompt is listed.
pub open spec fn listed_maintenance() -> PromptView {
    prompt_entry("sm-maintenance"@, "Run semantic-memory store maintenance: integrity check, FTS rebuild, vacuum, re-embedding, or index repair. Read-only checks first, mutations only with approval."@).taking(
        "action"@,
        "Maintenance action: 'check' (integrity report), 'rebuild-fts', 'vacuum', 'reembed', or 'dirty-check'"@,
        false,
    )
}

/// How the maintenance prompt is listed.
fn list_maintenance() -> (prompt: Prompt)
    ensures
        prompt@ == listed_maintenance(),
{
    Prompt::new("sm-maintenance", "Run semantic-memory store maintenance: integrity check, FTS rebuild, vacuum, re-embedding, or index repair. Read-only checks first, mutations only with approval.").taking(
        "action",
        "Maintenance action: 'check' (integrity report), 'rebuild-fts', 'vacuum', 'reembed', or 'dirty-check'",
        false,
    )
}

/// How the supersede prompt is listed.
pub open spec fn listed_supersede() -> PromptView {
    prompt_entry("sm-supersede"@, "Replace a stale or incorrect fact with a corrected version. Preserves history via a 'supersedes' graph edge; search auto-filters the old fact."@).taking(
        "old_fact_id"@,
        "The ID of the fact to supersede"@,
        true,
    ).taking(
        "new_content"@,
        "The corrected fact content"@,
        true,
    ).taking(
        "reason"@,
        "Why the old fact is being superseded"@,
        false,
    )
}

/// How the supersede prompt is listed.
fn list_supersede() -> (prompt: Prompt)
    ensures
        prompt@ == listed_supersede(),
{
    Prompt::new("sm-supersede", "Replace a stale or incorrect fact with a corrected version. Preserves history via a 'supersedes' graph edge; search auto-filters the old fact.").taking(
        "old_fact_id",
        "The ID of the fact to supersede",
        true,
    ).taking(
        "new_content",
        "The corrected fact content",
        true,
    ).taking(
        "reason",
        "Why the old fact is being superseded",
        false,
    )
}

/// Every prompt.
pub open spec fn prompt_list() -> Seq<PromptView> {
    seq![listed_recall(), listed_capture(), listed_audit(), listed_explore(), listed_maintenance(), listed_supersede()]
}

/// Every prompt.
pub fn all_prompts() -> (prompts: Vec<Prompt>)
    ensures
        prompt_views(prompts@) == prompt_list(),
{
    let mut prompts: Vec<Prompt> = Vec::new();
    prompts.push(list_recall());
    prompts.push(list_capture());
    prompts.push(list_audit());
    prompts.push(list_explore());
    prompts.push(list_maintenance());
    prompts.push(list_supersede());
    assert(prompt_views(prompts@) =~= prompt_list());
    prompts
}

/// The prompt for a recall.
pub open spec fn recall_prompt(query: Seq<char>, namespace: Option<Seq<char>>, top_k: Seq<char>) -> PromptTextView {
    let filter = match namespace {
        Some(n) => "\n   - Namespace filter: "@ + n,
        None => Seq::empty(),
    };
    let note = match namespace {
        Some(n) => " Use namespaces=[\""@ + n + "\"]"@,
        None => Seq::empty(),
    };
    PromptTextView {
        description: "Recall: "@ + query,
        system: RECALL_SYSTEM@,
        user: "## Recall request\n\nQuery: "@
        + query
        + "\nTop K: "@
        + top_k
        + filter
        + RECALL_STEPS_1@
        + query
        + "\", top_k="@
        + top_k
        + "."@
        + note
        + RECALL_STEPS_2@
        + query
        + RECALL_STEPS_3@,
    }
}

/// The prompt for a recall.
fn write_recall_prompt(query: &str, namespace: &Option<String>, top_k: &str) -> (prompt: PromptText)
    ensures
        prompt@ == recall_prompt(query@, optional_text(*namespace), top_k@),
{
    let filter = match namespace {
        Some(n) => cat2("\n   - Namespace filter: ", n),
        None => String::new(),
    };
    let note = match namespace {
        Some(n) => cat3(" Use namespaces=[\"", n, "\"]"),
        None => String::new(),
    };
    let description = cat2("Recall: ", query);
    let user = Draft::new("## Recall request\n\nQuery: ")
        .plus(query)
        .plus("\nTop K: ")
        .plus(top_k)
        .plus(&filter)
        .plus(RECALL_STEPS_1)
        .plus(query)
        .plus("\", top_k=")
        .plus(top_k)
        .plus(".")
        .plus(&note)
        .plus(RECALL_STEPS_2)
        .plus(query)
        .plus(RECALL_STEPS_3)
        .text();
    PromptText { description, system: RECALL_SYSTEM.to_owned(), user }
}

/// The prompt for the capture of a fact.
pub open spec fn capture_prompt(
    content: Seq<char>,
    namespace: Seq<char>,
    source: Option<Seq<char>>,
    memory_kind: Seq<char>,
) -> PromptTextView {
    let named = match source {
        Some(s) => s,
        None => "(none)"@,
    };
    let passed = match source {
        Some(s) => ", source=\""@ + s + "\""@,
        None => Seq::empty(),
    };
    PromptTextView {
        description: "Capture fact in "@ + namespace,
        system: CAPTURE_SYSTEM@,
        user: "## Capture request\n\nContent: "@
        + content
        + "\nNamespace: "@
        + namespace
        + "\nMemory kind: "@
        + memory_kind
        + "\nSource: "@
        + named
        + "\n\n## Steps\n\n1. Call `sm_add_fact` with content=\""@
        + content
        + "\", namespace=\""@
        + namespace
        + "\", memory_kind=\""@
        + memory_kind
        + "\""@
        + passed
        + CAPTURE_STEPS_1@,
    }
}

/// The prompt for the capture of a fact.
fn write_capture_prompt(content: &str, namespace: &str, source: &Option<String>, memory_kind: &str) -> (prompt: PromptText)
    ensures
        prompt@ == capture_prompt(content@, namespace@, optional_text(*source), memory_kind@),
{
    let named = match source {
        Some(s) => s.clone(),
        None => "(none)".to_owned(),
    };
    let passed = match source {
        Some(s) => cat3(", source=\"", s, "\""),
        None => String::new(),
    };
    let description = cat2("Capture fact in ", namespace);
    let user = Draft::new("## Capture request\n\nContent: ")
        .plus(content)
        .plus("\nNamespace: ")
        .plus(namespace)
        .plus("\nMemory kind: ")
        .plus(memory_kind)
        .plus("\nSource: ")
        .plus(&named)
        .plus("\n\n## Steps\n\n1. Call `sm_add_fact` with content=\"")
        .plus(content)
        .plus("\", namespace=\"")
        .plus(namespace)
        .plus("\", memory_kind=\"")
        .plus(memory_kind)
        .plus("\"")
        .plus(&passed)
        .plus(CAPTURE_STEPS_1)
        .text();
    PromptText { description, system: CAPTURE_SYSTEM.to_owned(), user }
}

/// The prompt for an audit.
pub open spec fn audit_prompt(namespace: Option<Seq<char>>) -> PromptTextView {
    let named = match namespace {
        Some(n) => n,
        None => "(all)"@,
    };
    let focus = match namespace {
        Some(n) => ", focusing on '"@ + n + "'"@,
        None => Seq::empty(),
    };
    let suffix = match namespace {
        Some(n) => ": "@ + n,
        None => Seq::empty(),
    };
    PromptTextView {
        description: "Audit semantic memory"@ + suffix,
        system: AUDIT_SYSTEM@,
        user: "## Audit request\n\nNamespace: "@
        + named
        + AUDIT_STEPS_1@
        + focus
        + AUDIT_STEPS_2@,
    }
}

/// The prompt for an audit.
fn write_audit_prompt(namespace: &Option<String>) -> (prompt: PromptText)
    ensures
        prompt@ == audit_prompt(optional_text(*namespace)),
{
    let named = match namespace {
        Some(n) => n.clone(),
        None => "(all)".to_owned(),
    };
    let focus = match namespace {
        Some(n) => cat3(", focusing on '", n, "'"),
        None => String::new(),
    };
    let suffix = match namespace {
        Some(n) => cat2(": ", n),
        None => String::new(),
    };
    let description = cat2("Audit semantic memory", &suffix);
    let user = Draft::new("## Audit request\n\nNamespace: ")
        .plus(&named)
        .plus(AUDIT_STEPS_1)
        .plus(&focus)
        .plus(AUDIT_STEPS_2)
        .text();
    PromptText { description, system: AUDIT_SYSTEM.to_owned(), user }
}

/// The steps from one topic to another.
pub open spec fn path_steps(topic: Seq<char>, second: Seq<char>) -> Seq<char> {
    "1. `sm_search(\""@
        + topic
        + "\")` → resolve to a result_id.\n2. `sm_search(\""@
        + second
        + PATH_STEPS_1@
}

/// The steps from one topic to another.
fn write_path_steps(topic: &str, second: &str) -> (s: String)
    ensures
        s@ == path_steps(topic@, second@),
{
    Draft::new("1. `sm_search(\"")
        .plus(topic)
        .plus("\")` → resolve to a result_id.\n2. `sm_search(\"")
        .plus(second)
        .plus(PATH_STEPS_1)
        .text()
}

/// The steps to the clusters around a topic.
pub open spec fn structure_steps(topic: Seq<char>) -> Seq<char> {
    "1. `sm_search(\""@
        + topic
        + STRUCTURE_STEPS_1@
        + topic
        + STRUCTURE_STEPS_2@
}

/// The steps to the clusters around a topic.
fn write_structure_steps(topic: &str) -> (s: String)
    ensures
        s@ == structure_steps(topic@),
{
    Draft::new("1. `sm_search(\"")
        .plus(topic)
        .plus(STRUCTURE_STEPS_1)
        .plus(topic)
        .plus(STRUCTURE_STEPS_2)
        .text()
}

/// The steps to what is related to a topic.
pub open spec fn related_steps(topic: Seq<char>) -> Seq<char> {
    "1. `sm_search(\""@
        + topic
        + RELATED_STEPS_1@
        + topic
        + RELATED_STEPS_2@
}

/// The steps to what is related to a topic.
fn write_related_steps(topic: &str) -> (s: String)
    ensures
        s@ == related_steps(topic@),
{
    Draft::new("1. `sm_search(\"")
        .plus(topic)
        .plus(RELATED_STEPS_1)
        .plus(topic)
        .plus(RELATED_STEPS_2)
        .text()
}

/// The prompt for an exploration, given what its mode is and its steps.
pub open spec fn explore_prompt(topic: Seq<char>, mode: Seq<char>, steps: Seq<char>) -> PromptTextView {
    PromptTextView {
        description: "Explore graph: "@ + topic,
        system: EXPLORE_SYSTEM@,
        user: "## Graph exploration\n\nTopic: "@
        + topic
        + "\nMode: "@
        + mode
        + "\n\n## Steps\n\n"@
        + steps
        + EXPLORE_TIPS_1@,
    }
}

/// The prompt for an exploration, given what its mode is and its steps.
fn write_explore_prompt(topic: &str, mode: &str, steps: &str) -> (prompt: PromptText)
    ensures
        prompt@ == explore_prompt(topic@, mode@, steps@),
{
    let description = cat2("Explore graph: ", topic);
    let user = Draft::new("## Graph exploration\n\nTopic: ")
        .plus(topic)
        .plus("\nMode: ")
        .plus(mode)
        .plus("\n\n## Steps\n\n")
        .plus(steps)
        .plus(EXPLORE_TIPS_1)
        .text();
    PromptText { description, system: EXPLORE_SYSTEM.to_owned(), user }
}

/// The prompt for a maintenance run, given what it does and its steps.
pub open spec fn maintenance_prompt(title: Seq<char>, steps: Seq<char>) -> PromptTextView {
    PromptTextView {
        description: "Maintenance: "@ + title,
        system: MAINTENANCE_SYSTEM@,
        user: "## Maintenance request\n\nAction: "@
        + title
        + "\n\n## Steps\n\n"@
        + steps
        + MAINTENANCE_DISCIPLINE_1@,
    }
}

/// The prompt for a maintenance run, given what it does and its steps.
fn write_maintenance_prompt(title: &str, steps: &str) -> (prompt: PromptText)
    ensures
        prompt@ == maintenance_prompt(title@, steps@),
{
    let description = cat2("Maintenance: ", title);
    let user = Draft::new("## Maintenance request\n\nAction: ")
        .plus(title)
        .plus("\n\n## Steps\n\n")
        .plus(steps)
        .plus(MAINTENANCE_DISCIPLINE_1)
        .text();
    PromptText { description, system: MAINTENANCE_SYSTEM.to_owned(), user }
}

/// The prompt for a supersession.
pub open spec fn supersede_prompt(old_fact_id: Seq<char>, new_content: Seq<char>, reason: Seq<char>) -> PromptTextView {
    PromptTextView {
        description: "Supersede fact "@ + old_fact_id,
        system: SUPERSEDE_SYSTEM@,
        user: "## Supersession request\n\nOld fact ID: "@
        + old_fact_id
        + "\nNew content: "@
        + new_content
        + "\nReason: "@
        + reason
        + "\n\n## Steps\n\n1. `sm_get_fact(\""@
        + old_fact_id
        + SUPERSEDE_STEPS_1@
        + old_fact_id
        + "\", content=\""@
        + new_content
        + "\", reason=\""@
        + reason
        + SUPERSEDE_STEPS_2@,
    }
}

/// The prompt for a supersession.
fn write_supersede_prompt(old_fact_id: &str, new_content: &str, reason: &str) -> (prompt: PromptText)
    ensures
        prompt@ == supersede_prompt(old_fact_id@, new_content@, reason@),
{
    let description = cat2("Supersede fact ", old_fact_id);
    let user = Draft::new("## Supersession request\n\nOld fact ID: ")
        .plus(old_fact_id)
        .plus("\nNew content: ")
        .plus(new_content)
        .plus("\nReason: ")
        .plus(reason)
        .plus("\n\n## Steps\n\n1. `sm_get_fact(\"")
        .plus(old_fact_id)
        .plus(SUPERSEDE_STEPS_1)
        .plus(old_fact_id)
        .plus("\", content=\"")
        .plus(new_content)
        .plus("\", reason=\"")
        .plus(reason)
        .plus(SUPERSEDE_STEPS_2)
        .text();
    PromptText { description, system: SUPERSEDE_SYSTEM.to_owned(), user }
}

/// What a maintenance action does, and its steps.
pub open spec fn maintenance_steps(action: Seq<char>) -> (Seq<char>, Seq<char>) {
    if action == "rebuild-fts"@ {
        ("Rebuild FTS indexes"@, REBUILD_FTS_STEPS@)
    } else if action == "vacuum"@ {
        ("Vacuum the SQLite database"@, VACUUM_STEPS@)
    } else if action == "reembed"@ {
        ("Re-embed all facts"@, REEMBED_STEPS@)
    } else if action == "dirty-check"@ {
        ("Check if embeddings are stale"@, DIRTY_CHECK_STEPS@)
    } else {
        ("Integrity check (read-only)"@, CHECK_STEPS@)
    }
}

/// What a maintenance action does, and its steps.
fn choose_maintenance(action: &str) -> (plan: (String, String))
    ensures
        (plan.0@, plan.1@) == maintenance_steps(action@),
{
    if same_text(action, "rebuild-fts") {
        ("Rebuild FTS indexes".to_owned(), REBUILD_FTS_STEPS.to_owned())
    } else if same_text(action, "vacuum") {
        ("Vacuum the SQLite database".to_owned(), VACUUM_STEPS.to_owned())
    } else if same_text(action, "reembed") {
        ("Re-embed all facts".to_owned(), REEMBED_STEPS.to_owned())
    } else if same_text(action, "dirty-check") {
        ("Check if embeddings are stale".to_owned(), DIRTY_CHECK_STEPS.to_owned())
    } else {
        ("Integrity check (read-only)".to_owned(), CHECK_STEPS.to_owned())
    }
}

/// The value of an argument: the last one that was given.
pub open spec fn argument(args: Seq<(Seq<char>, Seq<char>)>, name: Seq<char>) -> Option<Seq<char>>
    decreases args.len(),
{
    if args.len() == 0 {
        None
    } else if args.last().0 == name {
        Some(args.last().1)
    } else {
        argument(args.drop_last(), name)
    }
}

/// The value of an argument, or what stands for it.
pub open spec fn argument_or(
    args: Seq<(Seq<char>, Seq<char>)>,
    name: Seq<char>,
    default: Seq<char>,
) -> Seq<char> {
    match argument(args, name) {
        Some(value) => value,
        None => default,
    }
}

/// The value of an argument: the last one that was given.
fn find_argument(args: &Vec<(String, String)>, name: &str) -> (value: Option<String>)
    ensures
        optional_text(value) == argument(pair_texts(args@), name@),
{
    let ghost all = pair_texts(args@);
    let mut i: usize = args.len();
    assert(all.subrange(0, all.len() as int) =~= all);
    while i > 0
        invariant
            i <= args.len(),
            all == pair_texts(args@),
            argument(all, name@) == argument(all.subrange(0, i as int), name@),
        decreases i,
    {
        i = i - 1;
        assert(all.subrange(0, i as int + 1).drop_last() =~= all.subrange(0, i as int));
        assert(all.subrange(0, i as int + 1).last() == all[i as int]);
        if same_text(&args[i].0, name) {
            return Some(args[i].1.clone());
        }
    }
    None
}

/// The value of an argument, or what stands for it.
fn find_argument_or(args: &Vec<(String, String)>, name: &str, default: &str) -> (value: String)
    ensures
        value@ == argument_or(pair_texts(args@), name@, default@),
{
    match find_argument(args, name) {
        Some(value) => value,
        None => default.to_owned(),
    }
}

/// The answer to a prompt that lacks an argument.
pub open spec fn lacks(name: Seq<char>) -> Result<PromptTextView, Seq<char>> {
    Err("Missing required argument: "@ + name)
}

/// The recall prompt, filled in.
pub open spec fn filled_recall(args: Seq<(Seq<char>, Seq<char>)>) -> Result<
    PromptTextView,
    Seq<char>,
> {
    match argument(args, "query"@) {
        None => lacks("query"@),
        Some(query) => Ok(
            recall_prompt(query, argument(args, "namespace"@), argument_or(args, "top_k"@, "5"@)),
        ),
    }
}

/// The capture prompt, filled in.
pub open spec fn filled_capture(args: Seq<(Seq<char>, Seq<char>)>) -> Result<
    PromptTextView,
    Seq<char>,
> {
    match (argument(args, "content"@), argument(args, "namespace"@)) {
        (None, _) => lacks("content"@),
        (_, None) => lacks("namespace"@),
        (Some(content), Some(namespace)) => Ok(
            capture_prompt(
                content,
                namespace,
                argument(args, "source"@),
                argument_or(args, "memory_kind"@, "durable_fact"@),
            ),
        ),
    }
}

/// The exploration prompt, filled in.
pub open spec fn filled_explore(args: Seq<(Seq<char>, Seq<char>)>) -> Result<
    PromptTextView,
    Seq<char>,
> {
    let mode = argument_or(args, "mode"@, "related"@);
    match argument(args, "topic"@) {
        None => lacks("topic"@),
        Some(topic) => if mode == "path"@ {
            match argument(args, "second_topic"@) {
                None => Err("Missing required argument: second_topic for path mode"@),
                Some(second) => Ok(
                    explore_prompt(
                        topic,
                        "Path: how are two concepts connected"@,
                        path_steps(topic, second),
                    ),
                ),
            }
        } else if mode == "structure"@ {
            Ok(
                explore_prompt(
                    topic,
                    "Structure: clusters and communities"@,
                    structure_steps(topic),
                ),
            )
        } else {
            Ok(
                explore_prompt(
                    topic,
                    "Related: what's related to this topic"@,
                    related_steps(topic),
                ),
            )
        },
    }
}

/// The maintenance prompt, filled in.
pub open spec fn filled_maintenance(args: Seq<(Seq<char>, Seq<char>)>) -> PromptTextView {
    let plan = maintenance_steps(argument_or(args, "action"@, "check"@));
    maintenance_prompt(plan.0, plan.1)
}

/// The supersession prompt, filled in.
pub open spec fn filled_supersede(args: Seq<(Seq<char>, Seq<char>)>) -> Result<
    PromptTextView,
    Seq<char>,
> {
    match (argument(args, "old_fact_id"@), argument(args, "new_content"@)) {
        (None, _) => lacks("old_fact_id"@),
        (_, None) => lacks("new_content"@),
        (Some(old_fact_id), Some(new_content)) => Ok(
            supersede_prompt(
                old_fact_id,
                new_content,
                argument_or(args, "reason"@, "corrected content"@),
            ),
        ),
    }
}

/// A prompt, filled in.
pub open spec fn filled(name: Seq<char>, args: Seq<(Seq<char>, Seq<char>)>) -> Result<
    PromptTextView,
    Seq<char>,
> {
    if name == "sm-recall"@ {
        filled_recall(args)
    } else if name == "sm-capture-fact"@ {
        filled_capture(args)
    } else if name == "sm-audit"@ {
        Ok(audit_prompt(argument(args, "namespace"@)))
    } else if name == "sm-explore-graph"@ {
        filled_explore(args)
    } else if name == "sm-maintenance"@ {
        Ok(filled_maintenance(args))
    } else if name == "sm-supersede"@ {
        filled_supersede(args)
    } else {
        Err("Unknown prompt: "@ + name)
    }
}

/// What the answer to a prompt says.
pub open spec fn prompt_result(r: Result<PromptText, String>) -> Result<
    PromptTextView,
    Seq<char>,
> {
    match r {
        Ok(prompt) => Ok(prompt@),
        Err(message) => Err(message@),
    }
}

/// The answer to a prompt that lacks an argument.
fn lacking(name: &str) -> (r: Result<PromptText, String>)
    ensures
        prompt_result(r) == lacks(name@),
{
    Err(cat2("Missing required argument: ", name))
}

/// The recall prompt, filled in.
fn fill_recall(args: &Vec<(String, String)>) -> (r: Result<PromptText, String>)
    ensures
        prompt_result(r) == filled_recall(pair_texts(args@)),
{
    match find_argument(args, "query") {
        None => lacking("query"),
        Some(query) => Ok(
            write_recall_prompt(
                &query,
                &find_argument(args, "namespace"),
                &find_argument_or(args, "top_k", "5"),
            ),
        ),
    }
}

/// The capture prompt, filled in.
fn fill_capture(args: &Vec<(String, String)>) -> (r: Result<PromptText, String>)
    ensures
        prompt_result(r) == filled_capture(pair_texts(args@)),
{
    let content = match find_argument(args, "content") {
        None => return lacking("content"),
        Some(content) => content,
    };
    let namespace = match find_argument(args, "namespace") {
        None => return lacking("namespace"),
        Some(namespace) => namespace,
    };
    Ok(
        write_capture_prompt(
            &content,
            &namespace,
            &find_argument(args, "source"),
            &find_argument_or(args, "memory_kind", "durable_fact"),
        ),
    )
}

/// The exploration prompt, filled in.
fn fill_explore(args: &Vec<(String, String)>) -> (r: Result<PromptText, String>)
    ensures
        prompt_result(r) == filled_explore(pair_texts(args@)),
{
    let topic = match find_argument(args, "topic") {
        None => return lacking("topic"),
        Some(topic) => topic,
    };
    let mode = find_argument_or(args, "mode", "related");
    if same_text(&mode, "path") {
        match find_argument(args, "second_topic") {
            None => Err("Missing required argument: second_topic for path mode".to_owned()),
            Some(second) => Ok(
                write_explore_prompt(
                    &topic,
                    "Path: how are two concepts connected",
                    &write_path_steps(&topic, &second),
                ),
            ),
        }
    } else if same_text(&mode, "structure") {
        Ok(
            write_explore_prompt(
                &topic,
                "Structure: clusters and communities",
                &write_structure_steps(&topic),
            ),
        )
    } else {
        Ok(
            write_explore_prompt(
                &topic,
                "Related: what's related to this topic",
                &write_related_steps(&topic),
            ),
        )
    }
}

/// The supersession prompt, filled in.
fn fill_supersede(args: &Vec<(String, String)>) -> (r: Result<PromptText, String>)
    ensures
        prompt_result(r) == filled_supersede(pair_texts(args@)),
{
    let old_fact_id = match find_argument(args, "old_fact_id") {
        None => return lacking("old_fact_id"),
        Some(old_fact_id) => old_fact_id,
    };
    let new_content = match find_argument(args, "new_content") {
        None => return lacking("new_content"),
        Some(new_content) => new_content,
    };
    Ok(
        write_supersede_prompt(
            &old_fact_id,
            &new_content,
            &find_argument_or(args, "reason", "corrected content"),
        ),
    )
}

/// A prompt, filled in with the given arguments.
pub fn get_prompt(name: &str, args: &Vec<(String, String)>) -> (r: Result<PromptText, String>)
    ensures
        prompt_result(r) == filled(name@, pair_texts(args@)),
{
    if same_text(name, "sm-recall") {
        fill_recall(args)
    } else if same_text(name, "sm-capture-fact") {
        fill_capture(args)
    } else if same_text(name, "sm-audit") {
        Ok(write_audit_prompt(&find_argument(args, "namespace")))
    } else if same_text(name, "sm-explore-graph") {
        fill_explore(args)
    } else if same_text(name, "sm-maintenance") {
        let plan = choose_maintenance(&find_argument_or(args, "action", "check"));
        Ok(write_maintenance_prompt(&plan.0, &plan.1))
    } else if same_text(name, "sm-supersede") {
        fill_supersede(args)
    } else {
        Err(cat2("Unknown prompt: ", name))
    }
}

/// How a document, or a pattern of documents, is listed.
pub struct Resource {
    pub uri: String,
    pub name: String,
    pub description: String,
    pub mime_type: String,
}

/// How a document, or a pattern of documents, is listed.
#[verifier::ext_equal]
pub struct ResourceView {
    pub uri: Seq<char>,
    pub name: Seq<char>,
    pub description: Seq<char>,
    pub mime_type: Seq<char>,
}

impl View for Resource {
    type V = ResourceView;

    open spec fn view(&self) -> ResourceView {
        ResourceView {
            uri: self.uri@,
            name: self.name@,
            description: self.description@,
            mime_type: self.mime_type@,
        }
    }
}

/// How documents are listed.
pub open spec fn resource_views(resources: Seq<Resource>) -> Seq<ResourceView> {
    Seq::new(resources.len(), |i: int| resources[i]@)
}

/// How a Markdown document is listed.
pub open spec fn resource_entry(
    uri: Seq<char>,
    name: Seq<char>,
    description: Seq<char>,
) -> ResourceView {
    ResourceView { uri, name, description, mime_type: "text/markdown"@ }
}

impl Resource {
    /// How a Markdown document is listed.
    fn new(uri: &str, name: &str, description: &str) -> (resource: Resource)
        ensures
            resource@ == resource_entry(uri@, name@, description@),
    {
        Resource {
            uri: uri.to_owned(),
            name: name.to_owned(),
            description: description.to_owned(),
            mime_type: "text/markdown".to_owned(),
        }
    }
}

/// Every document.
pub open spec fn resource_list() -> Seq<ResourceView> {
    seq![
        resource_entry(
            "sm://skill/retrieval-strategy"@,
            "retrieval-strategy"@,
            "Primary strategy for source-first semantic-memory recall, adaptive routing,                  graph hydration, contradiction checks, and evidence-backed retrospectives."@,
        ),
        resource_entry(
            "sm://skill/memory-curator"@,
            "memory-curator"@,
            "Audit and improve the semantic memory store: find duplicates, contradictions,                  stale facts, and graph gaps. Reconcile only after user approval."@,
        ),
        resource_entry(
            "sm://skill/memory-maintenance"@,
            "memory-maintenance"@,
            "Store-level maintenance: integrity check, FTS rebuild, vacuum, re-embedding,                  index repair, and process cleanup."@,
        ),
        resource_entry(
            "sm://skill/knowledge-graph-explorer"@,
            "knowledge-graph-explorer"@,
            "Explore the typed knowledge graph: related items, shortest paths between                  concepts, community clusters, and topological voids."@,
        ),
        resource_entry(
            "sm://skill/memory-keeper"@,
            "memory-keeper"@,
            "Delegate heavy memory operations (audit, bulk ingest, contradiction sweep,                  dedup, edge population) to a focused subagent."@,
        ),
        resource_entry(
            "sm://skill/pooled-memory-operations"@,
            "pooled-memory-operations"@,
            "Multi-device memory mesh: identity/provenance, typed synchronization,                  per-device SQLite primaries and server replicas, sparse routed retrieval."@,
        ),
        resource_entry(
            "sm://skill/standard-workflow"@,
            "standard-workflow"@,
            "The canonical workflow for using semantic-memory MCP tools: search first,                  verify against current sources, store durable facts, supersede stale ones."@,
        ),
        resource_entry(
            "sm://protocol/authority"@,
            "authority-model"@,
            "The governed authority model: recall authority vs assertion authority vs                  action authority. How to use sm_decide_assertion_authority and                  sm_decide_action_authority."@,
        ),
    ]
}

/// Every document.
pub fn all_resources() -> (resources: Vec<Resource>)
    ensures
        resource_views(resources@) == resource_list(),
{
    let mut resources: Vec<Resource> = Vec::new();
    resources.push(
        Resource::new(
            "sm://skill/retrieval-strategy",
            "retrieval-strategy",
            "Primary strategy for source-first semantic-memory recall, adaptive routing,                  graph hydration, contradiction checks, and evidence-backed retrospectives.",
        ),
    );
    resources.push(
        Resource::new(
            "sm://skill/memory-curator",
            "memory-curator",
            "Audit and improve the semantic memory store: find duplicates, contradictions,                  stale facts, and graph gaps. Reconcile only after user approval.",
        ),
    );
    resources.push(
        Resource::new(
            "sm://skill/memory-maintenance",
            "memory-maintenance",
            "Store-level maintenance: integrity check, FTS rebuild, vacuum, re-embedding,                  index repair, and process cleanup.",
        ),
    );
    resources.push(
        Resource::new(
            "sm://skill/knowledge-graph-explorer",
            "knowledge-graph-explorer",
            "Explore the typed knowledge graph: related items, shortest paths between                  concepts, community clusters, and topological voids.",
        ),
    );
    resources.push(
        Resource::new(
            "sm://skill/memory-keeper",
            "memory-keeper",
            "Delegate heavy memory operations (audit, bulk ingest, contradiction sweep,                  dedup, edge population) to a focused subagent.",
        ),
    );
    resources.push(
        Resource::new(
            "sm://skill/pooled-memory-operations",
            "pooled-memory-operations",
            "Multi-device memory mesh: identity/provenance, typed synchronization,                  per-device SQLite primaries and server replicas, sparse routed retrieval.",
        ),
    );
    resources.push(
        Resource::new(
            "sm://skill/standard-workflow",
            "standard-workflow",
            "The canonical workflow for using semantic-memory MCP tools: search first,                  verify against current sources, store durable facts, supersede stale ones.",
        ),
    );
    resources.push(
        Resource::new(
            "sm://protocol/authority",
            "authority-model",
            "The governed authority model: recall authority vs assertion authority vs                  action authority. How to use sm_decide_assertion_authority and                  sm_decide_action_authority.",
        ),
    );
    assert(resource_views(resources@) =~= resource_list());
    resources
}

/// The one pattern of resource identifiers.
pub open spec fn skill_template() -> ResourceView {
    resource_entry(
        "sm://skill/{skill_name}"@,
        "skill-by-name"@,
        "Fetch a skill document by name. Available skills: retrieval-strategy,                  memory-curator, memory-maintenance, knowledge-graph-explorer,                  memory-keeper, pooled-memory-operations, standard-workflow,                  authority-model."@,
    )
}

/// The patterns of resource identifiers.
pub fn all_resource_templates() -> (templates: Vec<Resource>)
    ensures
        resource_views(templates@) == seq![skill_template()],
{
    let mut templates: Vec<Resource> = Vec::new();
    templates.push(
        Resource::new(
            "sm://skill/{skill_name}",
            "skill-by-name",
            "Fetch a skill document by name. Available skills: retrieval-strategy,                  memory-curator, memory-maintenance, knowledge-graph-explorer,                  memory-keeper, pooled-memory-operations, standard-workflow,                  authority-model.",
        ),
    );
    assert(resource_views(templates@) =~= seq![skill_template()]);
    templates
}

/// The document of a skill.
pub open spec fn skill_document(name: Seq<char>) -> Option<Seq<char>> {
    if name == "retrieval-strategy"@ {
        Some(RETRIEVAL_STRATEGY_TITLE@ + RETRIEVAL_STRATEGY@)
    } else if name == "memory-curator"@ {
        Some(MEMORY_CURATOR_TITLE@ + MEMORY_CURATOR@)
    } else if name == "memory-maintenance"@ {
        Some(MEMORY_MAINTENANCE_TITLE@ + MEMORY_MAINTENANCE@)
    } else if name == "knowledge-graph-explorer"@ {
        Some(KNOWLEDGE_GRAPH_EXPLORER_TITLE@ + KNOWLEDGE_GRAPH_EXPLORER@)
    } else if name == "memory-keeper"@ {
        Some(MEMORY_KEEPER_TITLE@ + MEMORY_KEEPER@)
    } else if name == "pooled-memory-operations"@ {
        Some(POOLED_MEMORY_OPERATIONS_TITLE@ + POOLED_MEMORY_OPERATIONS@)
    } else if name == "standard-workflow"@ {
        Some(STANDARD_WORKFLOW_TITLE@ + STANDARD_WORKFLOW@)
    } else if name == "authority-model"@ {
        Some(AUTHORITY_MODEL_TITLE@ + AUTHORITY_MODEL@)
    } else {
        None
    }
}

/// The document of a skill.
fn find_skill(name: &str) -> (document: Option<String>)
    ensures
        document is Some == (skill_document(name@) is Some),
        document is Some ==> document->0@ == skill_document(name@)->0,
{
    if same_text(name, "retrieval-strategy") {
        Some(cat2(RETRIEVAL_STRATEGY_TITLE, RETRIEVAL_STRATEGY))
    } else if same_text(name, "memory-curator") {
        Some(cat2(MEMORY_CURATOR_TITLE, MEMORY_CURATOR))
    } else if same_text(name, "memory-maintenance") {
        Some(cat2(MEMORY_MAINTENANCE_TITLE, MEMORY_MAINTENANCE))
    } else if same_text(name, "knowledge-graph-explorer") {
        Some(cat2(KNOWLEDGE_GRAPH_EXPLORER_TITLE, KNOWLEDGE_GRAPH_EXPLORER))
    } else if same_text(name, "memory-keeper") {
        Some(cat2(MEMORY_KEEPER_TITLE, MEMORY_KEEPER))
    } else if same_text(name, "pooled-memory-operations") {
        Some(cat2(POOLED_MEMORY_OPERATIONS_TITLE, POOLED_MEMORY_OPERATIONS))
    } else if same_text(name, "standard-workflow") {
        Some(cat2(STANDARD_WORKFLOW_TITLE, STANDARD_WORKFLOW))
    } else if same_text(name, "authority-model") {
        Some(cat2(AUTHORITY_MODEL_TITLE, AUTHORITY_MODEL))
    } else {
        None
    }
}

/// The document that an identifier names.
pub open spec fn document_at(uri: Seq<char>) -> Result<Seq<char>, Seq<char>> {
    if uri == "sm://protocol/authority"@ {
        Ok(AUTHORITY_MODEL_TITLE@ + AUTHORITY_MODEL@)
    } else if starts_with(uri, "sm://skill/"@) {
        let name = after(uri, "sm://skill/"@.len() as int);
        match skill_document(name) {
            Some(document) => Ok(document),
            None => Err("Unknown skill resource: "@ + name),
        }
    } else {
        Err("Unknown resource URI: "@ + uri)
    }
}

/// The document that an identifier names.
pub fn read_resource(uri: &str) -> (r: Result<String, String>)
    ensures
        (match r {
            Ok(document) => Ok(document@),
            Err(message) => Err(message@),
        }) == document_at(uri@),
{
    if same_text(uri, "sm://protocol/authority") {
        return Ok(cat2(AUTHORITY_MODEL_TITLE, AUTHORITY_MODEL));
    }
    match strip_prefix(uri, "sm://skill/") {
        Some(name) => match find_skill(&name) {
            Some(document) => Ok(document),
            None => Err(cat2("Unknown skill resource: ", &name)),
        },
        None => Err(cat2("Unknown resource URI: ", uri)),
    }
}

/// Whether every argument that a prompt requires was given.
pub open spec fn complete(prompt: PromptView, args: Seq<(Seq<char>, Seq<char>)>) -> bool {
    forall|i: int|
        0 <= i < prompt.arguments.len() && (#[trigger] prompt.arguments[i]).required ==> argument(
            args,
            prompt.arguments[i].name,
        ) is Some
}

/// Every prompt that is listed can be filled in with the arguments that it
/// requires; an exploration of a path asks for its second topic too.
pub proof fn law_listed_prompts_are_served(i: int, args: Seq<(Seq<char>, Seq<char>)>)
    requires
        0 <= i < prompt_list().len(),
        complete(prompt_list()[i], args),
        prompt_list()[i].name == "sm-explore-graph"@ && argument_or(args, "mode"@, "related"@)
            == "path"@ ==> argument(args, "second_topic"@) is Some,
    ensures
        filled(prompt_list()[i].name, args) is Ok,
{
    reveal_strlit("sm-recall");
    assert("sm-recall"@.len() == 9);
    reveal_strlit("sm-capture-fact");
    assert("sm-capture-fact"@.len() == 15);
    reveal_strlit("sm-audit");
    assert("sm-audit"@.len() == 8);
    reveal_strlit("sm-explore-graph");
    assert("sm-explore-graph"@.len() == 16);
    reveal_strlit("sm-maintenance");
    assert("sm-maintenance"@.len() == 14);
    reveal_strlit("sm-supersede");
    assert("sm-supersede"@.len() == 12);
    let prompt = prompt_list()[i];
    if i == 0 {
        assert(prompt.arguments[0] == listed_recall().arguments[0]);
        assert(listed_recall().arguments[0].name == "query"@);
    } else if i == 1 {
        assert(prompt.arguments[0] == listed_capture().arguments[0]);
        assert(prompt.arguments[1] == listed_capture().arguments[1]);
        assert(listed_capture().arguments[0].name == "content"@);
        assert(listed_capture().arguments[1].name == "namespace"@);
    } else if i == 3 {
        assert(prompt.arguments[0] == listed_explore().arguments[0]);
        assert(listed_explore().arguments[0].name == "topic"@);
    } else if i == 5 {
        assert(prompt.arguments[0] == listed_supersede().arguments[0]);
        assert(prompt.arguments[1] == listed_supersede().arguments[1]);
        assert(listed_supersede().arguments[0].name == "old_fact_id"@);
        assert(listed_supersede().arguments[1].name == "new_content"@);
    }
}

/// A prompt that is not listed is refused.
pub proof fn law_unlisted_prompts_are_refused(name: Seq<char>, args: Seq<(Seq<char>, Seq<char>)>)
    requires
        forall|i: int| 0 <= i < prompt_list().len() ==> (#[trigger] prompt_list()[i]).name != name,
    ensures
        filled(name, args) == Err::<PromptTextView, Seq<char>>("Unknown prompt: "@ + name),
{
    assert(prompt_list()[0].name == "sm-recall"@);
    assert(prompt_list()[1].name == "sm-capture-fact"@);
    assert(prompt_list()[2].name == "sm-audit"@);
    assert(prompt_list()[3].name == "sm-explore-graph"@);
    assert(prompt_list()[4].name == "sm-maintenance"@);
    assert(prompt_list()[5].name == "sm-supersede"@);
}

/// Every document that is listed can be read.
pub proof fn law_listed_resources_are_served(i: int)
    requires
        0 <= i < resource_list().len(),
    ensures
        document_at(resource_list()[i].uri) is Ok,
{
    reveal_strlit("sm://skill/");
    reveal_strlit("sm://skill/retrieval-strategy");
    reveal_strlit("retrieval-strategy");
    reveal_strlit("sm://skill/memory-curator");
    reveal_strlit("memory-curator");
    reveal_strlit("sm://skill/memory-maintenance");
    reveal_strlit("memory-maintenance");
    reveal_strlit("sm://skill/knowledge-graph-explorer");
    reveal_strlit("knowledge-graph-explorer");
    reveal_strlit("sm://skill/memory-keeper");
    reveal_strlit("memory-keeper");
    reveal_strlit("sm://skill/pooled-memory-operations");
    reveal_strlit("pooled-memory-operations");
    reveal_strlit("sm://skill/standard-workflow");
    reveal_strlit("standard-workflow");
    let uri = resource_list()[i].uri;
    if i < 7 {
        assert(uri.subrange(0, 11) =~= "sm://skill/"@);
        assert(after(uri, "sm://skill/"@.len() as int) =~= resource_list()[i].name);
    }
}

/// An identifier that names a document: that of the authority protocol, or one
/// of a skill.
pub open spec fn names_document(uri: Seq<char>) -> bool {
    ||| uri == "sm://protocol/authority"@
    ||| starts_with(uri, "sm://skill/"@) && skill_document(
        after(uri, "sm://skill/"@.len() as int),
    ) is Some
}

/// Every document that is served says something, and every identifier that
/// names no document is refused.
pub proof fn law_served_documents_are_not_empty(uri: Seq<char>)
    ensures
        document_at(uri) is Ok <==> names_document(uri),
        document_at(uri) matches Ok(document) ==> document.len() > 0,
{
    reveal_strlit("# Standard Semantic-Memory Workflow");
    assert("# Standard Semantic-Memory Workflow"@.len() == 35);
    reveal_strlit("# Governed Authority Model");
    assert("# Governed Authority Model"@.len() == 26);
    reveal_strlit("# Semantic-Memory Retrieval Strategy");
    assert("# Semantic-Memory Retrieval Strategy"@.len() == 36);
    reveal_strlit("# Memory Curator");
    assert("# Memory Curator"@.len() == 16);
    reveal_strlit("# Memory Maintenance");
    assert("# Memory Maintenance"@.len() == 20);
    reveal_strlit("# Knowledge Graph Explorer");
    assert("# Knowledge Graph Explorer"@.len() == 26);
    reveal_strlit("# Memory-Keeper: Delegated Memory Operations");
    assert("# Memory-Keeper: Delegated Memory Operations"@.len() == 44);
    reveal_strlit("# Pooled Memory Operations");
    assert("# Pooled Memory Operations"@.len() == 26);
}

/// The authority document is served under its protocol and under its skill.
pub proof fn law_authority_document_has_two_names()
    ensures
        document_at("sm://skill/authority-model"@) == document_at("sm://protocol/authority"@),
        document_at("sm://protocol/authority"@) is Ok,
{
    reveal_strlit("sm://skill/");
    reveal_strlit("sm://skill/authority-model");
    reveal_strlit("authority-model");
    reveal_strlit("retrieval-strategy");
    reveal_strlit("memory-curator");
    reveal_strlit("memory-maintenance");
    reveal_strlit("knowledge-graph-explorer");
    reveal_strlit("memory-keeper");
    reveal_strlit("pooled-memory-operations");
    reveal_strlit("standard-workflow");
    let uri = "sm://skill/authority-model"@;
    assert(uri.subrange(0, 11) =~= "sm://skill/"@);
    assert(after(uri, "sm://skill/"@.len() as int) =~= "authority-model"@);
    assert("authority-model"@.len() == 15);
    assert("authority-model"@[0] == 'a');
    assert("retrieval-strategy"@[0] == 'r');
    assert("memory-curator"@[0] == 'm');
    assert("memory-maintenance"@[0] == 'm');
    assert("knowledge-graph-explorer"@[0] == 'k');
    assert("memory-keeper"@[0] == 'm');
    assert("pooled-memory-operations"@[0] == 'p');
    assert("standard-workflow"@[0] == 's');
}

/// An argument that was given has the value that was given last; one that was
/// not given has none.
pub proof fn law_the_last_argument_counts(args: Seq<(Seq<char>, Seq<char>)>, name: Seq<char>)
    ensures
        argument(args, name) is None <==> forall|i: int|
            0 <= i < args.len() ==> (#[trigger] args[i]).0 != name,
        argument(args, name) matches Some(value) ==> exists|i: int|
            0 <= i < args.len() && (#[trigger] args[i]).0 == name && args[i].1 == value
                && forall|j: int| i < j < args.len() ==> (#[trigger] args[j]).0 != name,
    decreases args.len(),
{
    if args.len() > 0 {
        let fewer = args.drop_last();
        let last = args.len() - 1;
        if args.last().0 == name {
            assert(args[last].0 == name);
        } else {
            law_the_last_argument_counts(fewer, name);
            if argument(fewer, name) is None {
                assert forall|i: int| 0 <= i < args.len() implies (#[trigger] args[i]).0
                    != name by {
                    if i < last {
                        assert(fewer[i] == args[i]);
                    }
                }
            } else {
                let i = choose|i: int|
                    0 <= i < fewer.len() && (#[trigger] fewer[i]).0 == name && fewer[i].1
                        == argument(fewer, name)->0 && forall|j: int|
                        i < j < fewer.len() ==> (#[trigger] fewer[j]).0 != name;
                assert(args[i] == fewer[i]);
                assert forall|j: int| i < j < args.len() implies (#[trigger] args[j]).0
                    != name by {
                    if j < last {
                        assert(fewer[j] == args[j]);
                    }
                }
            }
        }
    }
}

/// A prompt that lacks an argument that it requires is refused, and the answer
/// names the first one that is missing.
pub proof fn law_missing_arguments_are_named(args: Seq<(Seq<char>, Seq<char>)>)
    ensures
        argument(args, "query"@) is None ==> filled("sm-recall"@, args) == Err::<
            PromptTextView,
            Seq<char>,
        >("Missing required argument: "@ + "query"@),
        argument(args, "content"@) is None ==> filled("sm-capture-fact"@, args) == Err::<
            PromptTextView,
            Seq<char>,
        >("Missing required argument: "@ + "content"@),
        argument(args, "content"@) is Some && argument(args, "namespace"@) is None ==> filled(
            "sm-capture-fact"@,
            args,
        ) == Err::<PromptTextView, Seq<char>>("Missing required argument: "@ + "namespace"@),
        argument(args, "topic"@) is None ==> filled("sm-explore-graph"@, args) == Err::<
            PromptTextView,
            Seq<char>,
        >("Missing required argument: "@ + "topic"@),
        argument(args, "old_fact_id"@) is None ==> filled("sm-supersede"@, args) == Err::<
            PromptTextView,
            Seq<char>,
        >("Missing required argument: "@ + "old_fact_id"@),
        argument(args, "old_fact_id"@) is Some && argument(args, "new_content"@) is None ==> filled(
            "sm-supersede"@,
            args,
        ) == Err::<PromptTextView, Seq<char>>("Missing required argument: "@ + "new_content"@),
{
    reveal_strlit("sm-recall");
    assert("sm-recall"@.len() == 9);
    reveal_strlit("sm-capture-fact");
    assert("sm-capture-fact"@.len() == 15);
    reveal_strlit("sm-audit");
    assert("sm-audit"@.len() == 8);
    reveal_strlit("sm-explore-graph");
    assert("sm-explore-graph"@.len() == 16);
    reveal_strlit("sm-maintenance");
    assert("sm-maintenance"@.len() == 14);
    reveal_strlit("sm-supersede");
    assert("sm-supersede"@.len() == 12);
}

/// A maintenance action has its own title; an action that is not known only
/// checks.
pub proof fn law_maintenance_checks_unless_named(action: Seq<char>)
    ensures
        maintenance_steps(action).1 == REBUILD_FTS_STEPS@ || action != "rebuild-fts"@,
        maintenance_steps(action).1 == VACUUM_STEPS@ || action != "vacuum"@,
        maintenance_steps(action).1 == REEMBED_STEPS@ || action != "reembed"@,
        maintenance_steps(action).1 == DIRTY_CHECK_STEPS@ || action != "dirty-check"@,
        action != "rebuild-fts"@ && action != "vacuum"@ && action != "reembed"@ && action
            != "dirty-check"@ ==> maintenance_steps(action) == (
            "Integrity check (read-only)"@,
            CHECK_STEPS@,
        ),
{
    reveal_strlit("rebuild-fts");
    reveal_strlit("vacuum");
    reveal_strlit("reembed");
    reveal_strlit("dirty-check");
    assert("rebuild-fts"@.len() == 11 && "dirty-check"@.len() == 11 && "vacuum"@.len() == 6);
    assert("reembed"@.len() == 7 && "rebuild-fts"@[0] == 'r' && "dirty-check"@[0] == 'd');
}

/// What a supersession asks for holds the old fact, the new content and the
/// reason, in this order, and is described by the old fact.
pub proof fn law_supersessions_ask_with_their_arguments(
    old_fact_id: Seq<char>,
    new_content: Seq<char>,
    reason: Seq<char>,
)
    ensures
        ({
            let prompt = supersede_prompt(old_fact_id, new_content, reason);
            let start = "## Supersession request\n\nOld fact ID: "@;
            &&& prompt.description == "Supersede fact "@ + old_fact_id
            &&& (start + old_fact_id + "\nNew content: "@ + new_content + "\nReason: "@
                + reason).is_prefix_of(prompt.user)
        }),
{
    let start = "## Supersession request\n\nOld fact ID: "@;
    let head = start + old_fact_id + "\nNew content: "@ + new_content + "\nReason: "@ + reason;
    let user = supersede_prompt(old_fact_id, new_content, reason).user;
    assert(user.subrange(0, head.len() as int) =~= head);
}

/// What a capture asks for holds the content, the namespace and what it is to be
/// remembered as, in this order.
pub proof fn law_captures_ask_with_their_arguments(
    content: Seq<char>,
    namespace: Seq<char>,
    source: Option<Seq<char>>,
    memory_kind: Seq<char>,
)
    ensures
        ({
            let prompt = capture_prompt(content, namespace, source, memory_kind);
            let start = "## Capture request\n\nContent: "@;
            &&& prompt.description == "Capture fact in "@ + namespace
            &&& (start + content + "\nNamespace: "@ + namespace + "\nMemory kind: "@
                + memory_kind).is_prefix_of(prompt.user)
        }),
{
    let start = "## Capture request\n\nContent: "@;
    let head = start + content + "\nNamespace: "@ + namespace + "\nMemory kind: "@ + memory_kind;
    let user = capture_prompt(content, namespace, source, memory_kind).user;
    assert(user.subrange(0, head.len() as int) =~= head);
}

/// What a recall asks for holds the query and the number of results.
pub proof fn law_recalls_ask_with_their_arguments(
    query: Seq<char>,
    namespace: Option<Seq<char>>,
    top_k: Seq<char>,
)
    ensures
        ({
            let prompt = recall_prompt(query, namespace, top_k);
            let start = "## Recall request\n\nQuery: "@;
            &&& prompt.description == "Recall: "@ + query
            &&& (start + query + "\nTop K: "@ + top_k).is_prefix_of(prompt.user)
        }),
{
    let start = "## Recall request\n\nQuery: "@;
    let head = start + query + "\nTop K: "@ + top_k;
    let user = recall_prompt(query, namespace, top_k).user;
    assert(user.subrange(0, head.len() as int) =~= head);
}

}
