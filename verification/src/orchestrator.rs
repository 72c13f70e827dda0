//! The completion state machine: what happens to a transcript between the
//! moment a message is sent and the moment the response is final.
//!
//! The machine owns every decision. Its caller performs the network call,
//! hands each outcome back as an event, and reads the transcript from the
//! session store, into which the machine publishes after every change.

use crate::decoder::{
    feed_all, feed_step, joined, law_same_bytes_same_payloads, DecoderView, StreamDecoder,
};
use crate::models::{
    clone_messages, plain_message, transcript_view, ChatRequest, ChatResponse, Message,
    MessageMetrics, MessageView, MetricsView, RequestView, Role, StreamResponse,
    TEMPERATURE_MILLI,
};
use crate::store::{SessionStore, StoreView};
use crate::text::{texts, utf8_lossy};
use vstd::prelude::*;

verus! {

/// Where a completion stands.
#[derive(Clone, Copy, PartialEq, Eq, Debug, Structural)]
pub enum Phase {
    /// Nothing is in flight.
    Idle,
    /// The request is on its way and no response has begun.
    Sending,
    /// A streamed response is being merged in.
    Streaming,
    /// A complete response is awaited.
    AwaitingFullResponse,
    /// The response is in; metrics are about to be attached.
    Finalizing,
    /// The user stopped a streamed response.
    Aborted,
}

/// The transcript with `text` appended to the content of its last message.
pub open spec fn append_to_last(transcript: Seq<MessageView>, text: Seq<char>) -> Seq<MessageView> {
    if transcript.len() > 0 {
        let last = transcript.last();
        transcript.update(
            transcript.len() - 1,
            MessageView { role: last.role, content: last.content + text, metrics: last.metrics },
        )
    } else {
        transcript
    }
}

/// The transcript with `metrics` attached to its last message, where that
/// message is the assistant's and there is anything to attach.
pub open spec fn attach_metrics(transcript: Seq<MessageView>, metrics: MetricsView) -> Seq<
    MessageView,
> {
    if transcript.len() > 0 && transcript.last().role == Role::Assistant && !metrics.is_empty() {
        let last = transcript.last();
        transcript.update(
            transcript.len() - 1,
            MessageView { role: last.role, content: last.content, metrics: Some(metrics) },
        )
    } else {
        transcript
    }
}

/// The mathematical content of a [`Completion`].
pub ghost struct CompletionView {
    /// The session that the completion writes to.
    pub session_id: Seq<char>,
    /// The transcript as the user sees it.
    pub transcript: Seq<MessageView>,
    /// The messages that go to the server.
    pub outgoing: Seq<MessageView>,
    /// The latest known metrics of the response.
    pub metrics: MetricsView,
    pub phase: Phase,
    pub decoder: DecoderView,
    /// Whether the response is streamed.
    pub stream: bool,
}

impl CompletionView {
    /// The completion that sending starts: `transcript` is what the user
    /// sees and `outgoing` what the server is sent.
    pub open spec fn started_with(
        session_id: Seq<char>,
        transcript: Seq<MessageView>,
        outgoing: Seq<MessageView>,
        stream: bool,
    ) -> CompletionView {
        CompletionView {
            session_id,
            transcript,
            outgoing,
            metrics: MetricsView::empty(),
            phase: Phase::Sending,
            decoder: DecoderView { pending: Seq::empty(), done: false },
            stream,
        }
    }

    /// The completion that sending a new message starts. The transcript
    /// shows `display` as the user's message; the server is sent `outbound`
    /// in its place.
    pub open spec fn started(
        session_id: Seq<char>,
        history: Seq<MessageView>,
        display: Seq<char>,
        outbound: Seq<char>,
        stream: bool,
    ) -> CompletionView {
        CompletionView::started_with(
            session_id,
            history.push(plain_message(Role::User, display)),
            history.push(plain_message(Role::User, outbound)),
            stream,
        )
    }

    /// Whether a completion is in flight.
    pub open spec fn is_loading(self) -> bool {
        self.phase == Phase::Sending || self.phase == Phase::Streaming || self.phase
            == Phase::AwaitingFullResponse || self.phase == Phase::Finalizing
    }

    /// The store after this completion has published its transcript.
    pub open spec fn published(self, store: StoreView) -> StoreView {
        store.with_messages(self.session_id, self.transcript)
    }

    /// The response has begun. A streamed one opens an empty assistant
    /// message; a complete one is awaited.
    pub open spec fn connected(self) -> CompletionView {
        if self.phase != Phase::Sending {
            self
        } else if self.stream {
            CompletionView {
                transcript: self.transcript.push(plain_message(Role::Assistant, Seq::empty())),
                phase: Phase::Streaming,
                ..self
            }
        } else {
            CompletionView { phase: Phase::AwaitingFullResponse, ..self }
        }
    }

    /// A chunk of the stream has arrived. Cancellation, seen now, aborts and
    /// discards the chunk; otherwise the decoder takes it.
    pub open spec fn chunk(self, bytes: Seq<u8>, cancelled: bool) -> (CompletionView, Seq<Seq<char>>) {
        if self.phase != Phase::Streaming {
            (self, Seq::empty())
        } else if cancelled {
            (
                CompletionView {
                    phase: Phase::Aborted,
                    decoder: DecoderView { pending: Seq::empty(), done: true },
                    ..self
                },
                Seq::empty(),
            )
        } else {
            let (decoder, payloads) = feed_step(self.decoder, bytes);
            (CompletionView { decoder, ..self }, payloads)
        }
    }

    /// Whether a record with this delta is published.
    pub open spec fn publishes_record(self, delta: Option<Seq<char>>) -> bool {
        self.phase == Phase::Streaming && delta is Some
    }

    /// A record of the stream has been parsed: its metrics replace the ones
    /// known, field by field, and its text goes to the end of the
    /// assistant's message.
    pub open spec fn record(self, delta: Option<Seq<char>>, metrics: MetricsView) -> CompletionView {
        if self.phase != Phase::Streaming {
            self
        } else {
            CompletionView {
                transcript: match delta {
                    Some(text) => append_to_last(self.transcript, text),
                    None => self.transcript,
                },
                metrics: self.metrics.overlay(metrics),
                ..self
            }
        }
    }

    /// The stream has ended; `residual` holds the metrics, if any, of a last
    /// record that stood after the last line feed.
    pub open spec fn stream_ended(self, residual: MetricsView) -> CompletionView {
        if self.phase != Phase::Streaming {
            self
        } else {
            CompletionView {
                metrics: self.metrics.overlay(residual),
                phase: Phase::Finalizing,
                decoder: DecoderView { pending: Seq::empty(), done: true },
                ..self
            }
        }
    }

    /// Whether a complete response is published.
    pub open spec fn publishes_response(self, message: Option<MessageView>, cancelled: bool) -> bool {
        self.phase == Phase::AwaitingFullResponse && !cancelled && message is Some
    }

    /// The complete response is in. Cancellation, seen now, discards it;
    /// otherwise its first message joins the transcript and its metrics are
    /// the ones known.
    pub open spec fn full_response(
        self,
        message: Option<MessageView>,
        metrics: MetricsView,
        cancelled: bool,
    ) -> CompletionView {
        if self.phase != Phase::AwaitingFullResponse {
            self
        } else if self.publishes_response(message, cancelled) {
            CompletionView {
                transcript: self.transcript.push(message->0),
                metrics,
                phase: Phase::Finalizing,
                ..self
            }
        } else {
            CompletionView { phase: Phase::Finalizing, ..self }
        }
    }

    /// Whether a transport failure is published.
    pub open spec fn publishes_failure(self, cancelled: bool) -> bool {
        (self.phase == Phase::Sending || self.phase == Phase::Streaming || self.phase
            == Phase::AwaitingFullResponse) && !cancelled
    }

    /// The transport has failed. Unless cancellation suppresses it, the
    /// description joins the transcript as a system message.
    pub open spec fn failed(self, description: Seq<char>, cancelled: bool) -> CompletionView {
        if self.publishes_failure(cancelled) {
            CompletionView {
                transcript: self.transcript.push(plain_message(Role::System, description)),
                phase: Phase::Finalizing,
                ..self
            }
        } else if self.phase == Phase::Sending || self.phase == Phase::Streaming || self.phase
            == Phase::AwaitingFullResponse {
            CompletionView { phase: Phase::Finalizing, ..self }
        } else {
            self
        }
    }

    /// The completion is made final: the metrics known are attached to the
    /// assistant's message and nothing is in flight any more.
    pub open spec fn finalized(self) -> CompletionView {
        if self.phase != Phase::Finalizing {
            self
        } else {
            CompletionView {
                transcript: attach_metrics(self.transcript, self.metrics),
                phase: Phase::Idle,
                ..self
            }
        }
    }

    /// What the server is asked.
    pub open spec fn request(self, model: Seq<char>) -> RequestView {
        RequestView {
            messages: self.outgoing,
            model,
            temperature_milli: TEMPERATURE_MILLI,
            stream: self.stream,
        }
    }
}

/// One completion, from the sending of a message to its final response.
pub struct Completion {
    session_id: String,
    transcript: Vec<Message>,
    outgoing: Vec<Message>,
    metrics: MessageMetrics,
    phase: Phase,
    decoder: StreamDecoder,
    stream: bool,
}

impl View for Completion {
    type V = CompletionView;

    closed spec fn view(&self) -> CompletionView {
        CompletionView {
            session_id: self.session_id@,
            transcript: transcript_view(self.transcript@),
            outgoing: transcript_view(self.outgoing@),
            metrics: self.metrics@,
            phase: self.phase,
            decoder: self.decoder@,
            stream: self.stream,
        }
    }
}

impl Completion {
    /// Starts a completion on a prepared transcript, which is written to
    /// the store at once, before any network activity.
    pub fn start(
        store: &mut SessionStore,
        session_id: &str,
        transcript: Vec<Message>,
        outgoing: Vec<Message>,
        stream: bool,
    ) -> (completion: Completion)
        ensures
            completion@ == CompletionView::started_with(
                session_id@,
                transcript_view(transcript@),
                transcript_view(outgoing@),
                stream,
            ),
            final(store)@ == completion@.published(old(store)@),
    {
        store.update_messages(session_id, clone_messages(&transcript));
        Completion {
            session_id: String::from_str(session_id),
            transcript,
            outgoing,
            metrics: MessageMetrics::default(),
            phase: Phase::Sending,
            decoder: StreamDecoder::new(),
            stream,
        }
    }

    /// Starts a completion on a new message: it joins `history`, and the
    /// transcript is written to the store at once, before any network
    /// activity.
    pub fn begin(
        store: &mut SessionStore,
        session_id: &str,
        history: Vec<Message>,
        display: &str,
        outbound: &str,
        stream: bool,
    ) -> (completion: Completion)
        ensures
            completion@ == CompletionView::started(
                session_id@,
                transcript_view(history@),
                display@,
                outbound@,
                stream,
            ),
            final(store)@ == completion@.published(old(store)@),
    {
        let mut outgoing = clone_messages(&history);
        outgoing.push(Message::new(Role::User, String::from_str(outbound)));
        let mut transcript = history;
        transcript.push(Message::new(Role::User, String::from_str(display)));
        proof {
            assert(transcript_view(transcript@) =~= transcript_view(history@).push(
                plain_message(Role::User, display@),
            ));
            assert(transcript_view(outgoing@) =~= transcript_view(history@).push(
                plain_message(Role::User, outbound@),
            ));
        }
        Completion::start(store, session_id, transcript, outgoing, stream)
    }
}

impl Completion {
    /// Where the completion stands.
    pub fn phase(&self) -> (phase: Phase)
        ensures
            phase == self@.phase,
    {
        self.phase
    }

    /// Whether the completion is in flight.
    pub fn is_loading(&self) -> (loading: bool)
        ensures
            loading == self@.is_loading(),
    {
        match self.phase {
            Phase::Sending | Phase::Streaming | Phase::AwaitingFullResponse | Phase::Finalizing => true,
            Phase::Idle | Phase::Aborted => false,
        }
    }

    /// Whether the stream has been decoded to its end, so that no further
    /// chunk will yield anything.
    pub fn stream_done(&self) -> (done: bool)
        ensures
            done == self@.decoder.done,
    {
        self.decoder.is_done()
    }

    /// The session that the completion writes to.
    pub fn session_id(&self) -> (id: &str)
        ensures
            id@ == self@.session_id,
    {
        self.session_id.as_str()
    }

    /// The transcript as it stands.
    pub fn transcript(&self) -> (transcript: &Vec<Message>)
        ensures
            transcript_view(transcript@) == self@.transcript,
    {
        &self.transcript
    }

    /// The latest known metrics of the response.
    pub fn metrics(&self) -> (metrics: &MessageMetrics)
        ensures
            metrics@ == self@.metrics,
    {
        &self.metrics
    }

    /// The request to send: the outgoing messages, the chosen model, the
    /// fixed temperature and the streaming flag.
    pub fn request(&self, model: &str) -> (request: ChatRequest)
        ensures
            request@ == self@.request(model@),
    {
        ChatRequest {
            messages: clone_messages(&self.outgoing),
            model: String::from_str(model),
            temperature_milli: TEMPERATURE_MILLI,
            stream: self.stream,
        }
    }

    /// Writes the transcript into the store.
    fn publish(&self, store: &mut SessionStore)
        ensures
            final(store)@ == self@.published(old(store)@),
    {
        store.update_messages(self.session_id.as_str(), clone_messages(&self.transcript));
    }

    /// The response has begun. Returns whether the transcript was published.
    pub fn on_connected(&mut self, store: &mut SessionStore) -> (published: bool)
        ensures
            final(self)@ == old(self)@.connected(),
            published == (old(self)@.phase == Phase::Sending && old(self)@.stream),
            final(store)@ == if published {
                final(self)@.published(old(store)@)
            } else {
                old(store)@
            },
    {
        if self.phase != Phase::Sending {
            return false;
        }
        if self.stream {
            self.transcript.push(Message::new(Role::Assistant, String::new()));
            self.phase = Phase::Streaming;
            proof {
                assert(transcript_view(self.transcript@) =~= old(self)@.transcript.push(
                    plain_message(Role::Assistant, Seq::empty()),
                ));
            }
            self.publish(store);
            true
        } else {
            self.phase = Phase::AwaitingFullResponse;
            false
        }
    }

    /// A chunk of the stream has arrived, and `cancelled` tells whether the
    /// user has asked to stop. Returns the payloads that the chunk
    /// completes, each to be parsed and handed to [`Completion::on_record`].
    pub fn on_chunk(&mut self, bytes: &[u8], cancelled: bool) -> (payloads: Vec<String>)
        ensures
            (final(self)@, texts(payloads@)) == old(self)@.chunk(bytes@, cancelled),
    {
        if self.phase != Phase::Streaming {
            let none: Vec<String> = Vec::new();
            assert(texts(none@) =~= Seq::<Seq<char>>::empty());
            return none;
        }
        if cancelled {
            self.decoder.cancel();
            self.phase = Phase::Aborted;
            let none: Vec<String> = Vec::new();
            assert(texts(none@) =~= Seq::<Seq<char>>::empty());
            return none;
        }
        self.decoder.feed(bytes)
    }

    /// A record of the stream has been parsed. Returns whether the
    /// transcript was published: it is, for every record that carries text.
    pub fn on_record(&mut self, store: &mut SessionStore, record: &StreamResponse) -> (published:
        bool)
        ensures
            final(self)@ == old(self)@.record(record.delta_text(), record.metrics@),
            published == old(self)@.publishes_record(record.delta_text()),
            final(store)@ == if published {
                final(self)@.published(old(store)@)
            } else {
                old(store)@
            },
    {
        if self.phase != Phase::Streaming {
            return false;
        }
        self.metrics.merge(&record.metrics);
        if record.choices.len() == 0 {
            return false;
        }
        match &record.choices[0].delta.content {
            Some(text) => {
                match self.transcript.pop() {
                    Some(last) => {
                        let mut last = last;
                        last.content.append(text.as_str());
                        self.transcript.push(last);
                        proof {
                            assert(transcript_view(self.transcript@) =~= append_to_last(
                                old(self)@.transcript,
                                text@,
                            ));
                        }
                    },
                    None => {
                        proof {
                            assert(transcript_view(self.transcript@) =~= old(self)@.transcript);
                        }
                    },
                }
                self.publish(store);
                true
            },
            None => false,
        }
    }

    /// The unfinished last line of the stream, as text: a last record may
    /// stand there without a line feed.
    pub fn residue(&self) -> (residue: String)
        ensures
            residue@ == utf8_lossy(self@.decoder.pending),
    {
        self.decoder.residue()
    }

    /// The stream has ended. `residual` is the record, if any, that the
    /// residue parsed to; of it only the metrics are taken.
    pub fn on_stream_end(&mut self, residual: Option<&StreamResponse>)
        ensures
            final(self)@ == old(self)@.stream_ended(
                match residual {
                    Some(r) => r.metrics@,
                    None => MetricsView::empty(),
                },
            ),
    {
        if self.phase != Phase::Streaming {
            return ;
        }
        match residual {
            Some(r) => {
                self.metrics.merge(&r.metrics);
            },
            None => {},
        }
        self.decoder.cancel();
        self.phase = Phase::Finalizing;
    }

    /// The complete response is in, or `None` where it held no message that
    /// could be read, and `cancelled` tells whether the user has asked to
    /// stop. Returns whether the transcript was published.
    pub fn on_full_response(
        &mut self,
        store: &mut SessionStore,
        response: Option<&ChatResponse>,
        cancelled: bool,
    ) -> (published: bool)
        ensures
            final(self)@ == old(self)@.full_response(
                match response {
                    Some(r) => r.first_message(),
                    None => None,
                },
                match response {
                    Some(r) => r.metrics@,
                    None => MetricsView::empty(),
                },
                cancelled,
            ),
            published == old(self)@.publishes_response(
                match response {
                    Some(r) => r.first_message(),
                    None => None,
                },
                cancelled,
            ),
            final(store)@ == if published {
                final(self)@.published(old(store)@)
            } else {
                old(store)@
            },
    {
        if self.phase != Phase::AwaitingFullResponse {
            return false;
        }
        self.phase = Phase::Finalizing;
        if cancelled {
            return false;
        }
        match response {
            Some(r) => {
                if r.choices.len() == 0 {
                    return false;
                }
                self.transcript.push(r.choices[0].message.clone());
                self.metrics = r.metrics.clone();
                proof {
                    assert(transcript_view(self.transcript@) =~= old(self)@.transcript.push(
                        r.choices@[0].message@,
                    ));
                }
                self.publish(store);
                true
            },
            None => false,
        }
    }

    /// The transport has failed with the given description, and `cancelled`
    /// tells whether the user has asked to stop. Returns whether the
    /// transcript was published.
    pub fn on_failure(&mut self, store: &mut SessionStore, description: &str, cancelled: bool) -> (published:
        bool)
        ensures
            final(self)@ == old(self)@.failed(description@, cancelled),
            published == old(self)@.publishes_failure(cancelled),
            final(store)@ == if published {
                final(self)@.published(old(store)@)
            } else {
                old(store)@
            },
    {
        match self.phase {
            Phase::Sending | Phase::Streaming | Phase::AwaitingFullResponse => {},
            Phase::Idle | Phase::Finalizing | Phase::Aborted => {
                return false;
            },
        }
        self.phase = Phase::Finalizing;
        if cancelled {
            return false;
        }
        self.transcript.push(Message::new(Role::System, String::from_str(description)));
        proof {
            assert(transcript_view(self.transcript@) =~= old(self)@.transcript.push(
                plain_message(Role::System, description@),
            ));
        }
        self.publish(store);
        true
    }

    /// Makes the completion final: attaches the metrics known to the
    /// assistant's message and publishes the transcript a last time.
    /// Returns whether it did; a completion that is not about to be final
    /// stays as it is.
    pub fn finalize(&mut self, store: &mut SessionStore) -> (done: bool)
        ensures
            final(self)@ == old(self)@.finalized(),
            done == (old(self)@.phase == Phase::Finalizing),
            final(store)@ == if done {
                final(self)@.published(old(store)@)
            } else {
                old(store)@
            },
    {
        if self.phase != Phase::Finalizing {
            return false;
        }
        self.phase = Phase::Idle;
        if !self.metrics.is_empty() {
            match self.transcript.pop() {
                Some(last) => {
                    let mut last = last;
                    if last.role == Role::Assistant {
                        last.metrics = Some(self.metrics.clone());
                    }
                    self.transcript.push(last);
                    proof {
                        assert(transcript_view(self.transcript@) =~= attach_metrics(
                            old(self)@.transcript,
                            old(self)@.metrics,
                        ));
                    }
                },
                None => {
                    proof {
                        assert(transcript_view(self.transcript@) =~= old(self)@.transcript);
                    }
                },
            }
        }
        self.publish(store);
        true
    }
}

/// The texts of a run of deltas, joined in order; a record without text adds
/// nothing.
pub open spec fn joined_deltas(deltas: Seq<Option<Seq<char>>>) -> Seq<char>
    decreases deltas.len(),
{
    if deltas.len() == 0 {
        Seq::empty()
    } else {
        joined_deltas(deltas.drop_last()) + match deltas.last() {
            Some(text) => text,
            None => Seq::empty(),
        }
    }
}

impl CompletionView {
    /// The completion after a run of records, each given by its delta and
    /// its metrics, in the order of their arrival.
    pub open spec fn records(self, records: Seq<(Option<Seq<char>>, MetricsView)>) -> CompletionView
        decreases records.len(),
    {
        if records.len() == 0 {
            self
        } else {
            self.records(records.drop_last()).record(records.last().0, records.last().1)
        }
    }
}

/// While a response streams, the content of the assistant's message is what
/// it was at the start followed by the texts of the records in the order of
/// their arrival, and nothing else in the transcript changes.
pub proof fn law_content_is_joined_deltas(
    completion: CompletionView,
    records: Seq<(Option<Seq<char>>, MetricsView)>,
)
    requires
        completion.phase == Phase::Streaming,
        completion.transcript.len() > 0,
    ensures
        completion.records(records).phase == Phase::Streaming,
        completion.records(records).transcript == append_to_last(
            completion.transcript,
            joined_deltas(records.map_values(|r: (Option<Seq<char>>, MetricsView)| r.0)),
        ),
        completion.records(records).transcript.len() == completion.transcript.len(),
        completion.records(records).transcript.last().content == completion.transcript.last().content
            + joined_deltas(records.map_values(|r: (Option<Seq<char>>, MetricsView)| r.0)),
    decreases records.len(),
{
    let first = |r: (Option<Seq<char>>, MetricsView)| r.0;
    if records.len() == 0 {
        assert(joined_deltas(records.map_values(first)) =~= Seq::<char>::empty());
        assert(completion.transcript.last().content + Seq::<char>::empty()
            =~= completion.transcript.last().content);
        assert(append_to_last(completion.transcript, Seq::empty()) =~= completion.transcript);
    } else {
        let earlier = records.drop_last();
        law_content_is_joined_deltas(completion, earlier);
        assert(records.map_values(first).drop_last() =~= earlier.map_values(first));
        let before = completion.records(earlier);
        let so_far = joined_deltas(earlier.map_values(first));
        let base = completion.transcript.last().content;
        match records.last().0 {
            Some(text) => {
                assert((base + so_far) + text =~= base + (so_far + text));
                assert(append_to_last(before.transcript, text) =~= append_to_last(
                    completion.transcript,
                    so_far + text,
                ));
            },
            None => {
                assert(so_far + Seq::<char>::empty() =~= so_far);
            },
        }
    }
}

/// A complete response that arrives after the user has asked to stop leaves
/// the transcript exactly as it was when the message was sent: no assistant
/// message is appended, by the response or by making the completion final.
pub proof fn law_cancelled_response_is_discarded(
    session_id: Seq<char>,
    transcript: Seq<MessageView>,
    outgoing: Seq<MessageView>,
    message: Option<MessageView>,
    metrics: MetricsView,
)
    ensures
        ({
            let sent = CompletionView::started_with(session_id, transcript, outgoing, false);
            let answered = sent.connected().full_response(message, metrics, true);
            &&& answered.transcript == transcript
            &&& !sent.connected().publishes_response(message, true)
            &&& answered.finalized().transcript == transcript
            &&& answered.finalized().phase == Phase::Idle
        }),
{
}

/// A failure of the transport after the user has asked to stop adds nothing
/// to the transcript.
pub proof fn law_cancelled_failure_is_silent(
    completion: CompletionView,
    description: Seq<char>,
)
    ensures
        completion.failed(description, true).transcript == completion.transcript,
        !completion.publishes_failure(true),
{
}

/// Stopping a streamed response keeps what has been merged in so far.
pub proof fn law_abort_keeps_partial_message(completion: CompletionView, bytes: Seq<u8>)
    requires
        completion.phase == Phase::Streaming,
    ensures
        completion.chunk(bytes, true).0.transcript == completion.transcript,
        completion.chunk(bytes, true).0.phase == Phase::Aborted,
        completion.chunk(bytes, true).1.len() == 0,
        !completion.chunk(bytes, true).0.is_loading(),
{
}

/// Metrics are attached exactly once: making a completion final a second
/// time changes nothing.
pub proof fn law_finalize_once(completion: CompletionView)
    ensures
        completion.finalized().finalized() == completion.finalized(),
{
}

/// The records that a run of payloads parses to, in order, where `parse`
/// tells what each payload is: a record, by its delta and its metrics, or
/// nothing. A payload that is no record is passed over.
pub open spec fn parsed(
    payloads: Seq<Seq<char>>,
    parse: spec_fn(Seq<char>) -> Option<(Option<Seq<char>>, MetricsView)>,
) -> Seq<(Option<Seq<char>>, MetricsView)>
    decreases payloads.len(),
{
    if payloads.len() == 0 {
        Seq::empty()
    } else {
        let earlier = parsed(payloads.drop_last(), parse);
        match parse(payloads.last()) {
            Some(record) => earlier.push(record),
            None => earlier,
        }
    }
}

impl CompletionView {
    /// The completion with another decoder state.
    pub open spec fn with_decoder(self, decoder: DecoderView) -> CompletionView {
        CompletionView { decoder, ..self }
    }

    /// The completion after a series of chunks, none of them cancelled: each
    /// chunk goes to the decoder, and every payload that it yields is parsed
    /// and, where it is a record, merged in.
    pub open spec fn streamed(
        self,
        chunks: Seq<Seq<u8>>,
        parse: spec_fn(Seq<char>) -> Option<(Option<Seq<char>>, MetricsView)>,
    ) -> CompletionView
        decreases chunks.len(),
    {
        if chunks.len() == 0 {
            self
        } else {
            let (next, payloads) = self.chunk(chunks[0], false);
            next.records(parsed(payloads, parse)).streamed(chunks.drop_first(), parse)
        }
    }
}

/// Parsing two runs of payloads one after the other is parsing them joined.
pub proof fn lemma_parsed_concat(
    a: Seq<Seq<char>>,
    b: Seq<Seq<char>>,
    parse: spec_fn(Seq<char>) -> Option<(Option<Seq<char>>, MetricsView)>,
)
    ensures
        parsed(a + b, parse) == parsed(a, parse) + parsed(b, parse),
    decreases b.len(),
{
    if b.len() == 0 {
        assert(a + b =~= a);
        assert(parsed(a, parse) + parsed(b, parse) =~= parsed(a, parse));
    } else {
        lemma_parsed_concat(a, b.drop_last(), parse);
        assert((a + b).drop_last() =~= a + b.drop_last());
        assert((a + b).last() == b.last());
        let earlier = parsed(a, parse) + parsed(b.drop_last(), parse);
        match parse(b.last()) {
            Some(record) => {
                assert(earlier.push(record) =~= parsed(a, parse) + parsed(b.drop_last(), parse).push(
                    record,
                ));
            },
            None => {},
        }
    }
}

/// Merging two runs of records one after the other is merging them joined,
/// and merging records touches neither the decoder nor the phase.
pub proof fn lemma_records_concat(
    completion: CompletionView,
    a: Seq<(Option<Seq<char>>, MetricsView)>,
    b: Seq<(Option<Seq<char>>, MetricsView)>,
)
    ensures
        completion.records(a + b) == completion.records(a).records(b),
        completion.records(b).decoder == completion.decoder,
        completion.records(b).phase == completion.phase,
    decreases b.len(),
{
    if b.len() == 0 {
        assert(a + b =~= a);
    } else {
        lemma_records_concat(completion, a, b.drop_last());
        assert((a + b).drop_last() =~= a + b.drop_last());
        assert((a + b).last() == b.last());
    }
}

/// Merging records and replacing the decoder do not interfere.
pub proof fn lemma_records_beside_decoder(
    completion: CompletionView,
    decoder: DecoderView,
    records: Seq<(Option<Seq<char>>, MetricsView)>,
)
    ensures
        completion.with_decoder(decoder).records(records) == completion.records(
            records,
        ).with_decoder(decoder),
    decreases records.len(),
{
    if records.len() > 0 {
        lemma_records_beside_decoder(completion, decoder, records.drop_last());
    }
}

/// Streaming a series of chunks amounts to decoding them all and merging
/// the records that the payloads parse to.
pub proof fn law_streamed_is_decode_then_merge(
    completion: CompletionView,
    chunks: Seq<Seq<u8>>,
    parse: spec_fn(Seq<char>) -> Option<(Option<Seq<char>>, MetricsView)>,
)
    requires
        completion.phase == Phase::Streaming,
    ensures
        completion.streamed(chunks, parse) == completion.records(
            parsed(feed_all(completion.decoder, chunks).1, parse),
        ).with_decoder(feed_all(completion.decoder, chunks).0),
    decreases chunks.len(),
{
    if chunks.len() == 0 {
        assert(parsed(Seq::<Seq<char>>::empty(), parse) =~= Seq::empty());
    } else {
        let (first_state, first) = feed_step(completion.decoder, chunks[0]);
        let (last_state, others) = feed_all(first_state, chunks.drop_first());
        let next = completion.with_decoder(first_state);
        let merged = completion.records(parsed(first, parse));
        let mid = next.records(parsed(first, parse));
        lemma_records_beside_decoder(completion, first_state, parsed(first, parse));
        lemma_records_concat(completion, Seq::empty(), parsed(first, parse));
        assert(mid == merged.with_decoder(first_state));
        law_streamed_is_decode_then_merge(mid, chunks.drop_first(), parse);
        lemma_records_beside_decoder(merged, first_state, parsed(others, parse));
        lemma_parsed_concat(first, others, parse);
        lemma_records_concat(completion, parsed(first, parse), parsed(others, parse));
    }
}

/// The transcript that a streamed response leaves does not depend on how its
/// bytes are cut into chunks: two series of chunks with the same bytes leave
/// the same completion, and in it the content of the assistant's message is
/// what it was before, followed by the texts of the parsed records in the
/// order of their arrival.
pub proof fn law_transcript_independent_of_chunking(
    completion: CompletionView,
    one: Seq<Seq<u8>>,
    other: Seq<Seq<u8>>,
    parse: spec_fn(Seq<char>) -> Option<(Option<Seq<char>>, MetricsView)>,
)
    requires
        completion.phase == Phase::Streaming,
        completion.transcript.len() > 0,
        completion.decoder.wf(),
        joined(one) == joined(other),
    ensures
        completion.streamed(one, parse) == completion.streamed(other, parse),
        completion.streamed(one, parse).transcript.last().content
            == completion.transcript.last().content + joined_deltas(
            parsed(feed_all(completion.decoder, one).1, parse).map_values(
                |r: (Option<Seq<char>>, MetricsView)| r.0,
            ),
        ),
{
    law_same_bytes_same_payloads(completion.decoder, one, other);
    law_streamed_is_decode_then_merge(completion, one, parse);
    law_streamed_is_decode_then_merge(completion, other, parse);
    law_content_is_joined_deltas(
        completion,
        parsed(feed_all(completion.decoder, one).1, parse),
    );
}

} // verus!
