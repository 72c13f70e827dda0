//! The data carried between the chat core and its collaborators, each with a
//! mathematical view over which the contracts of the other modules are stated.

use vstd::prelude::*;

verus! {

/// Who authored a message.
#[derive(Clone, Copy, PartialEq, Eq, Debug, Structural)]
pub enum Role {
    System,
    User,
    Assistant,
}

/// The wire name of a role.
pub open spec fn role_name(role: Role) -> Seq<char> {
    match role {
        Role::System => "system"@,
        Role::User => "user"@,
        Role::Assistant => "assistant"@,
    }
}

impl Role {
    /// The name under which the role travels in requests and responses.
    pub fn as_str(&self) -> (name: &'static str)
        ensures
            name@ == role_name(*self),
    {
        match self {
            Role::System => "system",
            Role::User => "user",
            Role::Assistant => "assistant",
        }
    }
}

/// Token counts reported by the server for one exchange.
#[derive(Clone, Copy, PartialEq, Eq, Debug, Structural)]
pub struct Usage {
    pub prompt_tokens: u64,
    pub completion_tokens: u64,
    pub total_tokens: u64,
}

/// Timing figures reported by the server for one exchange. The four rates and
/// durations are carried as the bit patterns of the doubles the server sent,
/// so that they pass through the core unchanged.
#[derive(Clone, Copy, PartialEq, Eq, Debug, Structural)]
pub struct Timings {
    pub prompt_n: u64,
    pub prompt_ms: u64,
    pub prompt_per_second: u64,
    pub predicted_n: u64,
    pub predicted_ms: u64,
    pub predicted_per_second: u64,
}

/// The text behind an optional string.
pub open spec fn opt_text(value: Option<String>) -> Option<Seq<char>> {
    match value {
        Some(s) => Some(s@),
        None => None,
    }
}

/// What the server said about a response besides its text.
#[derive(Debug)]
pub struct MessageMetrics {
    pub usage: Option<Usage>,
    pub timings: Option<Timings>,
    pub created: Option<u64>,
    pub id: Option<String>,
    pub model: Option<String>,
    pub system_fingerprint: Option<String>,
}

/// The mathematical content of a [`MessageMetrics`].
pub ghost struct MetricsView {
    pub usage: Option<Usage>,
    pub timings: Option<Timings>,
    pub created: Option<u64>,
    pub id: Option<Seq<char>>,
    pub model: Option<Seq<char>>,
    pub system_fingerprint: Option<Seq<char>>,
}

impl MetricsView {
    /// The metrics with every field absent.
    pub open spec fn empty() -> MetricsView {
        MetricsView {
            usage: None,
            timings: None,
            created: None,
            id: None,
            model: None,
            system_fingerprint: None,
        }
    }

    /// Metrics are empty exactly when every field is absent.
    pub open spec fn is_empty(self) -> bool {
        self == MetricsView::empty()
    }

    /// The latest known value of each field: a field of `later` that is
    /// present replaces the one held, an absent one leaves it.
    pub open spec fn overlay(self, later: MetricsView) -> MetricsView {
        MetricsView {
            usage: if later.usage is Some { later.usage } else { self.usage },
            timings: if later.timings is Some { later.timings } else { self.timings },
            created: if later.created is Some { later.created } else { self.created },
            id: if later.id is Some { later.id } else { self.id },
            model: if later.model is Some { later.model } else { self.model },
            system_fingerprint: if later.system_fingerprint is Some {
                later.system_fingerprint
            } else {
                self.system_fingerprint
            },
        }
    }
}

impl View for MessageMetrics {
    type V = MetricsView;

    open spec fn view(&self) -> MetricsView {
        MetricsView {
            usage: self.usage,
            timings: self.timings,
            created: self.created,
            id: opt_text(self.id),
            model: opt_text(self.model),
            system_fingerprint: opt_text(self.system_fingerprint),
        }
    }
}

/// A copy of an optional string.
pub fn clone_opt_text(value: &Option<String>) -> (copy: Option<String>)
    ensures
        copy == *value,
{
    match value {
        Some(s) => Some(s.clone()),
        None => None,
    }
}

impl Clone for MessageMetrics {
    fn clone(&self) -> (copy: Self)
        ensures
            copy == *self,
    {
        MessageMetrics {
            usage: self.usage,
            timings: self.timings,
            created: self.created,
            id: clone_opt_text(&self.id),
            model: clone_opt_text(&self.model),
            system_fingerprint: clone_opt_text(&self.system_fingerprint),
        }
    }
}

impl Default for MessageMetrics {
    fn default() -> (metrics: Self)
        ensures
            metrics@ == MetricsView::empty(),
    {
        MessageMetrics {
            usage: None,
            timings: None,
            created: None,
            id: None,
            model: None,
            system_fingerprint: None,
        }
    }
}

impl MessageMetrics {
    /// Whether every field is absent.
    pub fn is_empty(&self) -> (empty: bool)
        ensures
            empty == self@.is_empty(),
    {
        self.usage.is_none() && self.timings.is_none() && self.created.is_none()
            && self.id.is_none() && self.model.is_none() && self.system_fingerprint.is_none()
    }

    /// Takes over every field that `later` supplies and keeps the others.
    pub fn merge(&mut self, later: &MessageMetrics)
        ensures
            final(self)@ == old(self)@.overlay(later@),
    {
        if later.usage.is_some() {
            self.usage = later.usage;
        }
        if later.timings.is_some() {
            self.timings = later.timings;
        }
        if later.created.is_some() {
            self.created = later.created;
        }
        if later.id.is_some() {
            self.id = clone_opt_text(&later.id);
        }
        if later.model.is_some() {
            self.model = clone_opt_text(&later.model);
        }
        if later.system_fingerprint.is_some() {
            self.system_fingerprint = clone_opt_text(&later.system_fingerprint);
        }
    }
}

/// One entry of a conversation.
#[derive(Debug)]
pub struct Message {
    pub role: Role,
    pub content: String,
    pub metrics: Option<MessageMetrics>,
}

/// The mathematical content of a [`Message`].
pub ghost struct MessageView {
    pub role: Role,
    pub content: Seq<char>,
    pub metrics: Option<MetricsView>,
}

/// The metrics behind an optional record of them.
pub open spec fn opt_metrics(value: Option<MessageMetrics>) -> Option<MetricsView> {
    match value {
        Some(m) => Some(m@),
        None => None,
    }
}

impl View for Message {
    type V = MessageView;

    open spec fn view(&self) -> MessageView {
        MessageView { role: self.role, content: self.content@, metrics: opt_metrics(self.metrics) }
    }
}

impl Clone for Message {
    fn clone(&self) -> (copy: Self)
        ensures
            copy == *self,
    {
        let metrics = match &self.metrics {
            Some(m) => Some(m.clone()),
            None => None,
        };
        Message { role: self.role, content: self.content.clone(), metrics }
    }
}

/// The message with the given author and text and no metrics.
pub open spec fn plain_message(role: Role, content: Seq<char>) -> MessageView {
    MessageView { role, content, metrics: None }
}

impl Message {
    /// A message without metrics.
    pub fn new(role: Role, content: String) -> (message: Message)
        ensures
            message@ == plain_message(role, content@),
    {
        Message { role, content, metrics: None }
    }
}

/// The views of the messages of a transcript, in order.
pub open spec fn transcript_view(messages: Seq<Message>) -> Seq<MessageView> {
    Seq::new(messages.len(), |i: int| messages[i]@)
}

/// A copy of a transcript.
pub fn clone_messages(messages: &Vec<Message>) -> (copy: Vec<Message>)
    ensures
        copy@ == messages@,
{
    let copy = messages.clone();
    assert(copy@ =~= messages@);
    copy
}

/// The title that a session bears until one is derived or chosen.
pub open spec fn placeholder_title() -> Seq<char> {
    "New Chat"@
}

/// One conversation thread.
#[derive(Debug)]
pub struct ChatSession {
    pub id: String,
    pub title: String,
    pub messages: Vec<Message>,
    /// Milliseconds since the epoch at which the session was created.
    pub created_at: u64,
}

/// The mathematical content of a [`ChatSession`].
pub ghost struct SessionView {
    pub id: Seq<char>,
    pub title: Seq<char>,
    pub messages: Seq<MessageView>,
    pub created_at: u64,
}

impl View for ChatSession {
    type V = SessionView;

    open spec fn view(&self) -> SessionView {
        SessionView {
            id: self.id@,
            title: self.title@,
            messages: transcript_view(self.messages@),
            created_at: self.created_at,
        }
    }
}

impl Clone for ChatSession {
    fn clone(&self) -> (copy: Self)
        ensures
            copy.id == self.id,
            copy.title == self.title,
            copy.messages@ == self.messages@,
            copy.created_at == self.created_at,
            copy@ == self@,
    {
        ChatSession {
            id: self.id.clone(),
            title: self.title.clone(),
            messages: clone_messages(&self.messages),
            created_at: self.created_at,
        }
    }
}

/// The session that a system prompt opens: the placeholder title and the
/// prompt as its only message.
pub open spec fn fresh_session(id: Seq<char>, system_prompt: Seq<char>, created_at: u64)
    -> SessionView {
    SessionView {
        id,
        title: placeholder_title(),
        messages: seq![plain_message(Role::System, system_prompt)],
        created_at,
    }
}

impl SessionView {
    /// A session is empty while it holds no more than its opening message.
    pub open spec fn is_empty(self) -> bool {
        self.messages.len() <= 1
    }
}

/// A fresh random identifier. Trusted: `uuid::Uuid::new_v4` draws a random
/// version-4 UUID and `to_string` renders it; nothing is claimed of a value
/// that chance decides. The call fails only where the system offers no source
/// of randomness.
#[verifier::external_body]
pub(crate) fn fresh_id() -> (id: String) {
    uuid::Uuid::new_v4().to_string()
}

impl ChatSession {
    /// A fresh session under a new random identifier: whatever the
    /// identifier turns out to be, the session is the fresh one that
    /// [`ChatSession::with_id`] builds under it.
    pub fn new(system_prompt: String, created_at: u64) -> (session: ChatSession)
        ensures
            session@ == fresh_session(session.id@, system_prompt@, created_at),
    {
        ChatSession::with_id(fresh_id(), system_prompt, created_at)
    }

    /// A fresh session under the given identifier.
    pub fn with_id(id: String, system_prompt: String, created_at: u64) -> (session: ChatSession)
        ensures
            session@ == fresh_session(id@, system_prompt@, created_at),
    {
        let mut messages: Vec<Message> = Vec::new();
        messages.push(Message::new(Role::System, system_prompt));
        let session = ChatSession {
            id,
            title: String::from_str("New Chat"),
            messages,
            created_at,
        };
        assert(session@.messages =~= seq![plain_message(Role::System, system_prompt@)]);
        session
    }

    /// Whether the session holds no more than its opening message.
    pub fn is_empty(&self) -> (empty: bool)
        ensures
            empty == self@.is_empty(),
    {
        self.messages.len() <= 1
    }
}

/// The fragment of assistant text that one streamed record carries.
#[derive(Debug)]
pub struct StreamDelta {
    pub content: Option<String>,
}

/// One alternative of a streamed record.
#[derive(Debug)]
pub struct StreamChoice {
    pub delta: StreamDelta,
}

/// One record of a streamed response. The envelope's optional usage, timing
/// and identification fields are gathered in `metrics`.
#[derive(Debug)]
pub struct StreamResponse {
    pub choices: Vec<StreamChoice>,
    pub metrics: MessageMetrics,
}

impl StreamResponse {
    /// The text that the record adds: the content of its first choice's
    /// delta, if the record has a choice and the delta has content.
    pub open spec fn delta_text(&self) -> Option<Seq<char>> {
        if self.choices@.len() > 0 {
            opt_text(self.choices@[0].delta.content)
        } else {
            None
        }
    }
}

/// One alternative of a complete response.
#[derive(Debug)]
pub struct ChatChoice {
    pub message: Message,
}

/// A complete, non-streamed response. The envelope's optional usage, timing
/// and identification fields are gathered in `metrics`.
#[derive(Debug)]
pub struct ChatResponse {
    pub choices: Vec<ChatChoice>,
    pub metrics: MessageMetrics,
}

impl ChatResponse {
    /// The message of the first choice, if there is one.
    pub open spec fn first_message(&self) -> Option<MessageView> {
        if self.choices@.len() > 0 {
            Some(self.choices@[0].message@)
        } else {
            None
        }
    }
}

/// The sampling temperature of every request, in thousandths.
pub const TEMPERATURE_MILLI: u32 = 700;

/// A chat-completion request.
#[derive(Debug)]
pub struct ChatRequest {
    pub messages: Vec<Message>,
    pub model: String,
    /// The sampling temperature in thousandths.
    pub temperature_milli: u32,
    pub stream: bool,
}

/// The mathematical content of a [`ChatRequest`].
pub ghost struct RequestView {
    pub messages: Seq<MessageView>,
    pub model: Seq<char>,
    pub temperature_milli: u32,
    pub stream: bool,
}

impl View for ChatRequest {
    type V = RequestView;

    open spec fn view(&self) -> RequestView {
        RequestView {
            messages: transcript_view(self.messages@),
            model: self.model@,
            temperature_milli: self.temperature_milli,
            stream: self.stream,
        }
    }
}

/// One model that the server offers.
#[derive(Debug)]
pub struct ModelInfo {
    pub id: String,
}

/// The server's list of models.
#[derive(Debug)]
pub struct ModelListResponse {
    pub data: Vec<ModelInfo>,
}

/// How documents reach the prompt.
#[derive(Clone, Copy, PartialEq, Eq, Debug, Structural)]
pub enum DocumentContextMode {
    /// Only the documents that the message names with `@id`.
    Manual,
    /// Every document, whatever the message says.
    RAG,
}

/// An uploaded document.
#[derive(Debug)]
pub struct Document {
    pub id: String,
    pub filename: String,
    pub file_type: String,
    /// Milliseconds since the epoch at which the document was uploaded.
    pub upload_date: u64,
    pub chunk_count: usize,
    pub total_tokens: usize,
    pub content_preview: String,
    pub full_content: String,
}

/// The mathematical content of a [`Document`].
pub ghost struct DocumentView {
    pub id: Seq<char>,
    pub filename: Seq<char>,
    pub file_type: Seq<char>,
    pub upload_date: u64,
    pub chunk_count: nat,
    pub total_tokens: nat,
    pub content_preview: Seq<char>,
    pub full_content: Seq<char>,
}

impl View for Document {
    type V = DocumentView;

    open spec fn view(&self) -> DocumentView {
        DocumentView {
            id: self.id@,
            filename: self.filename@,
            file_type: self.file_type@,
            upload_date: self.upload_date,
            chunk_count: self.chunk_count as nat,
            total_tokens: self.total_tokens as nat,
            content_preview: self.content_preview@,
            full_content: self.full_content@,
        }
    }
}

impl Clone for Document {
    fn clone(&self) -> (copy: Self)
        ensures
            copy == *self,
    {
        Document {
            id: self.id.clone(),
            filename: self.filename.clone(),
            file_type: self.file_type.clone(),
            upload_date: self.upload_date,
            chunk_count: self.chunk_count,
            total_tokens: self.total_tokens,
            content_preview: self.content_preview.clone(),
            full_content: self.full_content.clone(),
        }
    }
}

/// The views of a list of documents, in order.
pub open spec fn document_views(documents: Seq<Document>) -> Seq<DocumentView> {
    Seq::new(documents.len(), |i: int| documents[i]@)
}

/// One piece of a document's text.
#[derive(Debug)]
pub struct DocumentChunk {
    pub id: String,
    pub document_id: String,
    pub chunk_index: usize,
    pub content: String,
    /// Milliseconds since the epoch at which the chunk was stored.
    pub created_at: u64,
}

/// The mathematical content of a [`DocumentChunk`].
pub ghost struct ChunkView {
    pub id: Seq<char>,
    pub document_id: Seq<char>,
    pub chunk_index: nat,
    pub content: Seq<char>,
    pub created_at: u64,
}

impl View for DocumentChunk {
    type V = ChunkView;

    open spec fn view(&self) -> ChunkView {
        ChunkView {
            id: self.id@,
            document_id: self.document_id@,
            chunk_index: self.chunk_index as nat,
            content: self.content@,
            created_at: self.created_at,
        }
    }
}

impl Clone for DocumentChunk {
    fn clone(&self) -> (copy: Self)
        ensures
            copy == *self,
    {
        DocumentChunk {
            id: self.id.clone(),
            document_id: self.document_id.clone(),
            chunk_index: self.chunk_index,
            content: self.content.clone(),
            created_at: self.created_at,
        }
    }
}

/// The views of a list of chunks, in order.
pub open spec fn chunk_views(chunks: Seq<DocumentChunk>) -> Seq<ChunkView> {
    Seq::new(chunks.len(), |i: int| chunks[i]@)
}

/// A system prompt that the user has saved under a name.
#[derive(Debug)]
pub struct SavedPrompt {
    pub id: String,
    pub name: String,
    pub content: String,
}

/// The mathematical content of a [`SavedPrompt`].
pub ghost struct SavedPromptView {
    pub id: Seq<char>,
    pub name: Seq<char>,
    pub content: Seq<char>,
}

impl View for SavedPrompt {
    type V = SavedPromptView;

    open spec fn view(&self) -> SavedPromptView {
        SavedPromptView { id: self.id@, name: self.name@, content: self.content@ }
    }
}

impl Clone for SavedPrompt {
    fn clone(&self) -> (copy: Self)
        ensures
            copy == *self,
    {
        SavedPrompt {
            id: self.id.clone(),
            name: self.name.clone(),
            content: self.content.clone(),
        }
    }
}

/// The views of a list of saved prompts, in order.
pub open spec fn prompt_views(prompts: Seq<SavedPrompt>) -> Seq<SavedPromptView> {
    Seq::new(prompts.len(), |i: int| prompts[i]@)
}

/// A copy of a list of saved prompts.
pub fn clone_prompts(prompts: &Vec<SavedPrompt>) -> (copy: Vec<SavedPrompt>)
    ensures
        copy@ == prompts@,
{
    let copy = prompts.clone();
    assert(copy@ =~= prompts@);
    copy
}

/// The settings of the application.
#[derive(Debug)]
pub struct AppSettings {
    pub system_prompt: String,
    pub base_url: String,
    pub selected_model: String,
    pub stream_enabled: bool,
    pub saved_prompts: Vec<SavedPrompt>,
    pub document_context_mode: DocumentContextMode,
    pub show_metrics: bool,
}

/// The mathematical content of an [`AppSettings`].
pub ghost struct SettingsView {
    pub system_prompt: Seq<char>,
    pub base_url: Seq<char>,
    pub selected_model: Seq<char>,
    pub stream_enabled: bool,
    pub saved_prompts: Seq<SavedPromptView>,
    pub document_context_mode: DocumentContextMode,
    pub show_metrics: bool,
}

impl SettingsView {
    /// The settings of a first launch.
    pub open spec fn initial() -> SettingsView {
        SettingsView {
            system_prompt: "You are a helpful assistant."@,
            base_url: "http://localhost:8080"@,
            selected_model: "default"@,
            stream_enabled: true,
            saved_prompts: Seq::empty(),
            document_context_mode: DocumentContextMode::RAG,
            show_metrics: false,
        }
    }
}

impl View for AppSettings {
    type V = SettingsView;

    open spec fn view(&self) -> SettingsView {
        SettingsView {
            system_prompt: self.system_prompt@,
            base_url: self.base_url@,
            selected_model: self.selected_model@,
            stream_enabled: self.stream_enabled,
            saved_prompts: prompt_views(self.saved_prompts@),
            document_context_mode: self.document_context_mode,
            show_metrics: self.show_metrics,
        }
    }
}

impl Clone for AppSettings {
    fn clone(&self) -> (copy: Self)
        ensures
            copy@ == self@,
    {
        AppSettings {
            system_prompt: self.system_prompt.clone(),
            base_url: self.base_url.clone(),
            selected_model: self.selected_model.clone(),
            stream_enabled: self.stream_enabled,
            saved_prompts: clone_prompts(&self.saved_prompts),
            document_context_mode: self.document_context_mode,
            show_metrics: self.show_metrics,
        }
    }
}

impl Default for AppSettings {
    fn default() -> (settings: Self)
        ensures
            settings@ == SettingsView::initial(),
    {
        let settings = AppSettings {
            system_prompt: String::from_str("You are a helpful assistant."),
            base_url: String::from_str("http://localhost:8080"),
            selected_model: String::from_str("default"),
            stream_enabled: true,
            saved_prompts: Vec::new(),
            document_context_mode: DocumentContextMode::RAG,
            show_metrics: false,
        };
        assert(settings@.saved_prompts =~= Seq::<SavedPromptView>::empty());
        settings
    }
}

} // verus!
