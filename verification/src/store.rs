//! The session store: the ordered collection of conversations and the
//! identifier of the one that is active.

use crate::models::{
    clone_messages, placeholder_title, transcript_view, ChatSession, Message, MessageView,
    SessionView,
};
use crate::text::text_eq;
use vstd::prelude::*;

verus! {

/// The views of the sessions of a collection, in order.
pub open spec fn session_views(sessions: Seq<ChatSession>) -> Seq<SessionView> {
    Seq::new(sessions.len(), |i: int| sessions[i]@)
}

/// The first index at or after `from` whose session bears `id`, or the length
/// of the collection.
pub open spec fn position_from(sessions: Seq<SessionView>, id: Seq<char>, from: int) -> int
    decreases sessions.len() - from,
{
    if 0 <= from < sessions.len() && sessions[from].id != id {
        position_from(sessions, id, from + 1)
    } else {
        from
    }
}

/// The index of the first session that bears `id`, or the length of the
/// collection where none does.
pub open spec fn position(sessions: Seq<SessionView>, id: Seq<char>) -> int {
    position_from(sessions, id, 0)
}

/// The sessions that do not bear `id`, in order.
pub open spec fn without_id(sessions: Seq<SessionView>, id: Seq<char>) -> Seq<SessionView>
    decreases sessions.len(),
{
    if sessions.len() == 0 {
        sessions
    } else if sessions.last().id == id {
        without_id(sessions.drop_last(), id)
    } else {
        without_id(sessions.drop_last(), id).push(sessions.last())
    }
}

/// `position_from` finds the first session that bears the identifier.
pub proof fn lemma_position(sessions: Seq<SessionView>, id: Seq<char>, from: int)
    requires
        0 <= from <= sessions.len(),
    ensures
        from <= position_from(sessions, id, from) <= sessions.len(),
        forall|j: int| from <= j < position_from(sessions, id, from) ==> sessions[j].id != id,
        position_from(sessions, id, from) < sessions.len() ==> sessions[position_from(
            sessions,
            id,
            from,
        )].id == id,
    decreases sessions.len() - from,
{
    if from < sessions.len() && sessions[from].id != id {
        lemma_position(sessions, id, from + 1);
    }
}

/// An index before which no session bears the identifier, and which bears it
/// or is the end, is where `position_from` arrives.
pub proof fn lemma_position_found(sessions: Seq<SessionView>, id: Seq<char>, from: int, at: int)
    requires
        0 <= from <= at <= sessions.len(),
        forall|j: int| from <= j < at ==> sessions[j].id != id,
        at < sessions.len() ==> sessions[at].id == id,
    ensures
        position_from(sessions, id, from) == at,
    decreases at - from,
{
    if from < at {
        lemma_position_found(sessions, id, from + 1, at);
    }
}

/// The mathematical content of a [`SessionStore`].
pub ghost struct StoreView {
    pub sessions: Seq<SessionView>,
    pub active_id: Option<Seq<char>>,
}

impl StoreView {
    /// The store with `session` put first and made active.
    pub open spec fn adopted(self, session: SessionView) -> StoreView {
        StoreView { sessions: seq![session] + self.sessions, active_id: Some(session.id) }
    }

    /// The store with `id` as the active identifier.
    pub open spec fn selected(self, id: Seq<char>) -> StoreView {
        StoreView { sessions: self.sessions, active_id: Some(id) }
    }

    /// The store that holds `session` and nothing else.
    pub open spec fn only(session: SessionView) -> StoreView {
        StoreView { sessions: seq![session], active_id: Some(session.id) }
    }

    /// The store without the sessions that bear `id`. Where none is left,
    /// `fallback` takes their place and is active; where the active session
    /// was among them, the first of those left becomes active.
    pub open spec fn removed(self, id: Seq<char>, fallback: SessionView) -> StoreView {
        let kept = without_id(self.sessions, id);
        if kept.len() == 0 {
            StoreView::only(fallback)
        } else if self.active_id == Some(id) {
            StoreView { sessions: kept, active_id: Some(kept[0].id) }
        } else {
            StoreView { sessions: kept, active_id: self.active_id }
        }
    }

    /// The store with the transcript of the first session that bears `id`
    /// replaced; unchanged where no session bears it.
    pub open spec fn with_messages(self, id: Seq<char>, messages: Seq<MessageView>) -> StoreView {
        let i = position(self.sessions, id);
        if 0 <= i < self.sessions.len() {
            let s = self.sessions[i];
            StoreView {
                sessions: self.sessions.update(
                    i,
                    SessionView {
                        id: s.id,
                        title: s.title,
                        messages,
                        created_at: s.created_at,
                    },
                ),
                active_id: self.active_id,
            }
        } else {
            self
        }
    }

    /// The store with the title of the first session that bears `id`
    /// replaced; unchanged where no session bears it.
    pub open spec fn with_title(self, id: Seq<char>, title: Seq<char>) -> StoreView {
        let i = position(self.sessions, id);
        if 0 <= i < self.sessions.len() {
            let s = self.sessions[i];
            StoreView {
                sessions: self.sessions.update(
                    i,
                    SessionView {
                        id: s.id,
                        title,
                        messages: s.messages,
                        created_at: s.created_at,
                    },
                ),
                active_id: self.active_id,
            }
        } else {
            self
        }
    }

    /// Whether the first session that bears `id` still bears the placeholder
    /// title.
    pub open spec fn awaits_title(self, id: Seq<char>) -> bool {
        let i = position(self.sessions, id);
        0 <= i < self.sessions.len() && self.sessions[i].title == placeholder_title()
    }

    /// The store after a derived title arrives for `id`: it is taken only
    /// where the session still bears the placeholder title.
    pub open spec fn with_derived_title(self, id: Seq<char>, title: Seq<char>) -> StoreView {
        if self.awaits_title(id) {
            self.with_title(id, title)
        } else {
            self
        }
    }

    /// The transcript of the first session that bears `id`, or the empty
    /// transcript where no session bears it.
    pub open spec fn messages_of(self, id: Seq<char>) -> Seq<MessageView> {
        let i = position(self.sessions, id);
        if 0 <= i < self.sessions.len() {
            self.sessions[i].messages
        } else {
            Seq::empty()
        }
    }
}

/// The conversations of the application and the one that is active.
#[derive(Debug)]
pub struct SessionStore {
    pub sessions: Vec<ChatSession>,
    pub active_id: Option<String>,
}

impl View for SessionStore {
    type V = StoreView;

    open spec fn view(&self) -> StoreView {
        StoreView {
            sessions: session_views(self.sessions@),
            active_id: crate::models::opt_text(self.active_id),
        }
    }
}

/// Finds the first session that bears `id`.
pub fn find_session(sessions: &Vec<ChatSession>, id: &str) -> (found: Option<usize>)
    ensures
        match found {
            Some(i) => i < sessions.len() && i == position(session_views(sessions@), id@),
            None => position(session_views(sessions@), id@) == sessions.len(),
        },
{
    let n: usize = sessions.len();
    let mut i: usize = 0;
    let ghost views = session_views(sessions@);
    while i < n
        invariant
            n == sessions.len(),
            i <= n,
            views == session_views(sessions@),
            forall|j: int| 0 <= j < i ==> views[j].id != id@,
        decreases n - i,
    {
        if text_eq(sessions[i].id.as_str(), id) {
            proof {
                lemma_position_found(views, id@, 0, i as int);
            }
            return Some(i);
        }
        i += 1;
    }
    proof {
        lemma_position_found(views, id@, 0, n as int);
    }
    None
}

impl SessionStore {
    /// The store that holds the given session and nothing else.
    pub fn with_session(session: ChatSession) -> (store: SessionStore)
        ensures
            store@ == StoreView::only(session@),
    {
        let active = session.id.clone();
        let mut sessions: Vec<ChatSession> = Vec::new();
        sessions.push(session);
        let store = SessionStore { sessions, active_id: Some(active) };
        assert(store@.sessions =~= seq![session@]);
        store
    }

    /// Puts a session first and makes it active.
    pub fn adopt(&mut self, session: ChatSession)
        ensures
            final(self)@ == old(self)@.adopted(session@),
    {
        self.active_id = Some(session.id.clone());
        self.sessions.insert(0, session);
        assert(self@.sessions =~= seq![session@] + old(self)@.sessions);
    }

    /// Opens a fresh session under a new identifier, puts it first and makes
    /// it active. Returns a copy of it.
    pub fn create(&mut self, system_prompt: String, created_at: u64) -> (session: ChatSession)
        ensures
            session@ == crate::models::fresh_session(session.id@, system_prompt@, created_at),
            final(self)@ == old(self)@.adopted(session@),
    {
        let session = ChatSession::new(system_prompt, created_at);
        let copy = session.clone();
        self.adopt(session);
        copy
    }

    /// Makes `id` the active identifier.
    pub fn select(&mut self, id: String)
        ensures
            final(self)@ == old(self)@.selected(id@),
    {
        self.active_id = Some(id);
    }

    /// Removes the sessions that bear `id`; `fallback` is the session that
    /// takes their place where none is left.
    pub fn remove(&mut self, id: &str, fallback: ChatSession)
        ensures
            final(self)@ == old(self)@.removed(id@, fallback@),
    {
        let n: usize = self.sessions.len();
        let mut kept: Vec<ChatSession> = Vec::new();
        let mut i: usize = 0;
        let ghost views = session_views(self.sessions@);
        assert(views.take(0) =~= Seq::<SessionView>::empty());
        while i < n
            invariant
                n == self.sessions.len(),
                i <= n,
                self.sessions@ == old(self).sessions@,
                self.active_id == old(self).active_id,
                views == session_views(self.sessions@),
                session_views(kept@) == without_id(views.take(i as int), id@),
            decreases n - i,
        {
            proof {
                assert(views.take(i + 1).drop_last() =~= views.take(i as int));
                assert(views.take(i + 1).last() == views[i as int]);
            }
            if !text_eq(self.sessions[i].id.as_str(), id) {
                let ghost before = session_views(kept@);
                kept.push(self.sessions[i].clone());
                assert(session_views(kept@) =~= before.push(views[i as int]));
            }
            i += 1;
        }
        assert(views.take(n as int) =~= views);
        if kept.len() == 0 {
            let store = SessionStore::with_session(fallback);
            self.sessions = store.sessions;
            self.active_id = store.active_id;
        } else {
            let was_active = match &self.active_id {
                Some(active) => text_eq(active.as_str(), id),
                None => false,
            };
            if was_active {
                self.active_id = Some(kept[0].id.clone());
            }
            self.sessions = kept;
        }
    }

    /// Removes the sessions that bear `id`. Where none is left, a fresh
    /// session under a new identifier takes their place.
    pub fn delete(&mut self, id: &str, system_prompt: String, created_at: u64) -> (fallback:
        ChatSession)
        ensures
            fallback@ == crate::models::fresh_session(fallback.id@, system_prompt@, created_at),
            final(self)@ == old(self)@.removed(id@, fallback@),
    {
        let fallback = ChatSession::new(system_prompt, created_at);
        let copy = fallback.clone();
        self.remove(id, fallback);
        copy
    }

    /// Replaces the whole collection by the given session.
    pub fn reset_to(&mut self, session: ChatSession)
        ensures
            final(self)@ == StoreView::only(session@),
    {
        let store = SessionStore::with_session(session);
        self.sessions = store.sessions;
        self.active_id = store.active_id;
    }

    /// Replaces the whole collection by one fresh session under a new
    /// identifier. Returns a copy of it.
    pub fn clear_all(&mut self, system_prompt: String, created_at: u64) -> (session: ChatSession)
        ensures
            session@ == crate::models::fresh_session(session.id@, system_prompt@, created_at),
            final(self)@ == StoreView::only(session@),
            final(self)@.sessions.len() == 1,
            final(self)@.sessions[0].messages == seq![
                crate::models::plain_message(crate::models::Role::System, system_prompt@),
            ],
    {
        let session = ChatSession::new(system_prompt, created_at);
        let copy = session.clone();
        self.reset_to(session);
        copy
    }
}

impl SessionStore {
    /// Replaces the transcript of the first session that bears `id`.
    pub fn update_messages(&mut self, id: &str, messages: Vec<Message>)
        ensures
            final(self)@ == old(self)@.with_messages(id@, transcript_view(messages@)),
    {
        match find_session(&self.sessions, id) {
            Some(i) => {
                let current = &self.sessions[i];
                let next = ChatSession {
                    id: current.id.clone(),
                    title: current.title.clone(),
                    messages,
                    created_at: current.created_at,
                };
                self.sessions.set(i, next);
                assert(self@.sessions =~= old(self)@.with_messages(
                    id@,
                    transcript_view(messages@),
                ).sessions);
            },
            None => {},
        }
    }

    /// Gives the first session that bears `id` the title that its user chose.
    pub fn update_title(&mut self, id: &str, title: String)
        ensures
            final(self)@ == old(self)@.with_title(id@, title@),
    {
        match find_session(&self.sessions, id) {
            Some(i) => {
                let current = &self.sessions[i];
                let next = ChatSession {
                    id: current.id.clone(),
                    title,
                    messages: clone_messages(&current.messages),
                    created_at: current.created_at,
                };
                self.sessions.set(i, next);
                assert(self@.sessions =~= old(self)@.with_title(id@, title@).sessions);
            },
            None => {},
        }
    }

    /// Commits a derived title: the first session that bears `id` takes it
    /// if it still bears the placeholder title at this moment, and nothing
    /// changes otherwise. Returns whether the title was taken.
    pub fn apply_derived_title(&mut self, id: &str, title: String) -> (taken: bool)
        ensures
            taken == old(self)@.awaits_title(id@),
            final(self)@ == old(self)@.with_derived_title(id@, title@),
    {
        match find_session(&self.sessions, id) {
            Some(i) => {
                if text_eq(self.sessions[i].title.as_str(), "New Chat") {
                    self.update_title(id, title);
                    true
                } else {
                    false
                }
            },
            None => false,
        }
    }

    /// The first session that bears `id`.
    pub fn get(&self, id: &str) -> (session: Option<&ChatSession>)
        ensures
            match session {
                Some(s) => {
                    &&& position(self@.sessions, id@) < self@.sessions.len()
                    &&& s@ == self@.sessions[position(self@.sessions, id@)]
                },
                None => position(self@.sessions, id@) == self@.sessions.len(),
            },
    {
        match find_session(&self.sessions, id) {
            Some(i) => Some(&self.sessions[i]),
            None => None,
        }
    }

    /// The active session, if the active identifier resolves to one.
    pub fn active(&self) -> (session: Option<&ChatSession>)
        ensures
            match session {
                Some(s) => {
                    &&& self@.active_id is Some
                    &&& position(self@.sessions, self@.active_id->0) < self@.sessions.len()
                    &&& s@ == self@.sessions[position(self@.sessions, self@.active_id->0)]
                },
                None => self@.active_id is None || position(self@.sessions, self@.active_id->0)
                    == self@.sessions.len(),
            },
    {
        match &self.active_id {
            Some(id) => self.get(id.as_str()),
            None => None,
        }
    }

    /// A copy of the transcript of the first session that bears `id`; the
    /// empty transcript where no session bears it.
    pub fn messages_of(&self, id: &str) -> (messages: Vec<Message>)
        ensures
            transcript_view(messages@) == self@.messages_of(id@),
    {
        match find_session(&self.sessions, id) {
            Some(i) => clone_messages(&self.sessions[i].messages),
            None => {
                let empty: Vec<Message> = Vec::new();
                assert(transcript_view(empty@) =~= Seq::<MessageView>::empty());
                empty
            },
        }
    }
}

/// Clearing a store leaves exactly one session, whose transcript is the
/// system prompt alone, whatever the store held before.
pub proof fn law_clear_leaves_one_fresh_session(
    id: Seq<char>,
    system_prompt: Seq<char>,
    created_at: u64,
)
    ensures
        ({
            let store = StoreView::only(crate::models::fresh_session(id, system_prompt, created_at));
            &&& store.sessions.len() == 1
            &&& store.sessions[0].messages == seq![
                crate::models::plain_message(crate::models::Role::System, system_prompt),
            ]
            &&& store.sessions[0].title == placeholder_title()
            &&& store.active_id == Some(id)
        }),
{
}

/// A derived title never replaces a title that differs from the placeholder
/// when it is committed: such a store stays exactly as it is. No session but
/// the first that bears the identifier is ever touched, and an unknown
/// identifier changes nothing.
pub proof fn law_derived_title_respects_chosen_title(
    store: StoreView,
    id: Seq<char>,
    title: Seq<char>,
)
    ensures
        !store.awaits_title(id) ==> store.with_derived_title(id, title) == store,
        store.with_derived_title(id, title).sessions.len() == store.sessions.len(),
        forall|i: int|
            0 <= i < store.sessions.len() && store.sessions[i].title != placeholder_title()
                ==> #[trigger] store.with_derived_title(id, title).sessions[i]
                == store.sessions[i],
        forall|i: int|
            0 <= i < store.sessions.len() && i != position(store.sessions, id)
                ==> #[trigger] store.with_derived_title(id, title).sessions[i]
                == store.sessions[i],
{
    lemma_position(store.sessions, id, 0);
}

/// Derived titles are applied idempotently: of two that arrive for the same
/// session, the later one changes nothing unless the first was itself the
/// placeholder.
pub proof fn law_first_derived_title_wins(
    store: StoreView,
    id: Seq<char>,
    first: Seq<char>,
    second: Seq<char>,
)
    requires
        first != placeholder_title(),
    ensures
        store.with_derived_title(id, first).with_derived_title(id, second)
            == store.with_derived_title(id, first),
{
    lemma_position(store.sessions, id, 0);
    if store.awaits_title(id) {
        let i = position(store.sessions, id);
        let after = store.with_derived_title(id, first);
        assert forall|j: int| 0 <= j < i implies after.sessions[j].id != id by {}
        lemma_position_found(after.sessions, id, 0, i);
    }
}

impl StoreView {
    /// Whether some session bears `id`.
    pub open spec fn has(self, id: Seq<char>) -> bool {
        exists|i: int| 0 <= i < self.sessions.len() && self.sessions[i].id == id
    }

    /// Whether the active identifier is that of a session of the store.
    pub open spec fn active_resolves(self) -> bool {
        self.active_id is Some && self.has(self.active_id->0)
    }
}

/// A session bears an identifier exactly where the search for it arrives
/// within the collection.
pub proof fn law_present_iff_found(store: StoreView, id: Seq<char>)
    ensures
        store.has(id) <==> position(store.sessions, id) < store.sessions.len(),
{
    lemma_position(store.sessions, id, 0);
}

/// Removing the sessions of one identifier keeps a session for every other
/// identifier that had one.
pub proof fn lemma_without_id_keeps(sessions: Seq<SessionView>, id: Seq<char>, other: Seq<char>)
    requires
        other != id,
        exists|j: int| 0 <= j < sessions.len() && sessions[j].id == other,
    ensures
        exists|k: int|
            0 <= k < without_id(sessions, id).len() && without_id(sessions, id)[k].id == other,
    decreases sessions.len(),
{
    let rest = without_id(sessions.drop_last(), id);
    if sessions.last().id == other {
        assert(without_id(sessions, id) == rest.push(sessions.last()));
        assert(without_id(sessions, id)[rest.len() as int].id == other);
    } else {
        let j = choose|j: int| 0 <= j < sessions.len() && sessions[j].id == other;
        assert(sessions.drop_last()[j].id == other);
        lemma_without_id_keeps(sessions.drop_last(), id, other);
        let k = choose|k: int| 0 <= k < rest.len() && rest[k].id == other;
        assert(without_id(sessions, id)[k].id == other);
    }
}

/// The active identifier keeps resolving to a session of the store: a
/// session that is adopted is active and present; a store reset to one
/// session has it active; and after a removal the active session is the one
/// that was active, or the first of those left, or the fallback.
pub proof fn law_active_session_is_kept(
    store: StoreView,
    id: Seq<char>,
    session: SessionView,
)
    ensures
        store.adopted(session).active_resolves(),
        StoreView::only(session).active_resolves(),
        store.removed(id, session).sessions.len() >= 1,
        store.active_resolves() ==> store.removed(id, session).active_resolves(),
{
    assert(store.adopted(session).sessions[0].id == session.id);
    assert(StoreView::only(session).sessions[0].id == session.id);
    let kept = without_id(store.sessions, id);
    let after = store.removed(id, session);
    if kept.len() == 0 {
    } else if store.active_id == Some(id) {
        assert(after.sessions[0].id == kept[0].id);
    } else if store.active_resolves() {
        lemma_without_id_keeps(store.sessions, id, store.active_id->0);
    }
}

/// Writing the transcript or the title of a session changes neither which
/// identifiers the store holds nor which is active.
pub proof fn law_updates_keep_identifiers(
    store: StoreView,
    id: Seq<char>,
    messages: Seq<MessageView>,
    title: Seq<char>,
)
    ensures
        store.with_messages(id, messages).active_id == store.active_id,
        store.with_title(id, title).active_id == store.active_id,
        store.with_derived_title(id, title).active_id == store.active_id,
        store.with_messages(id, messages).sessions.len() == store.sessions.len(),
        store.with_title(id, title).sessions.len() == store.sessions.len(),
        forall|i: int|
            0 <= i < store.sessions.len() ==> (#[trigger] store.with_messages(
                id,
                messages,
            ).sessions[i]).id == store.sessions[i].id,
        forall|i: int|
            0 <= i < store.sessions.len() ==> (#[trigger] store.with_title(id, title).sessions[i]).id
                == store.sessions[i].id,
        store.active_resolves() ==> store.with_messages(id, messages).active_resolves(),
        store.active_resolves() ==> store.with_title(id, title).active_resolves(),
{
    lemma_position(store.sessions, id, 0);
    if store.active_resolves() {
        let active = store.active_id->0;
        let j = choose|j: int| 0 <= j < store.sessions.len() && store.sessions[j].id == active;
        assert(store.with_messages(id, messages).sessions[j].id == active);
        assert(store.with_title(id, title).sessions[j].id == active);
    }
}

} // verus!
