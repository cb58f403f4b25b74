//! Responses that wait for the result of a tool.
//!
//! When a response stops because the model wants a tool to run, the state of its
//! conversation is paused under the identifier of the conversation, and every
//! tool call of the response leads to it. The result of a tool resumes the
//! session, once; a session that nothing resumes expires.
use crate::channel::SharedEventReceiver;
use crate::claude::{MessageStartContent, MessageStartView};
use crate::ident::{fresh_uuid, is_uuid_text};
use crate::session_laws::{
    law_complete_keeps_keyed, law_pause_keeps_keyed, law_resume_keeps_keyed,
};
use crate::state::{ClaudeWebState, StateView};
use crate::string_map::{entries_map, key_at, StringMap};
use crate::text::{opt_text, texts};
use vstd::hash_map::StringHashMap;
use vstd::prelude::*;

verus! {

/// A session expires when it is older than this, in nanoseconds.
pub const SESSION_TIMEOUT_NANOS: u128 = 300_000_000_000;

/// Time between two sweeps for expired sessions, in seconds.
pub const CLEANUP_INTERVAL_SECS: u64 = 60;

/// A response that waits for the result of a tool. `event_rx` is gone once the
/// session was resumed; `created_at` is the reading of a clock that never runs
/// backwards, in nanoseconds.
pub struct PausedSession<T> {
    pub state: ClaudeWebState<T>,
    pub message_start: MessageStartContent,
    pub event_rx: Option<SharedEventReceiver>,
    pub tool_use_ids: Vec<String>,
    pub created_at: u128,
}

/// A paused session as a mathematical value.
pub ghost struct SessionView<T> {
    pub state: StateView<T>,
    pub message_start: MessageStartView,
    pub event_rx: Option<SharedEventReceiver>,
    pub tool_use_ids: Seq<Seq<char>>,
    pub created_at: u128,
}

impl<T> View for PausedSession<T> {
    type V = SessionView<T>;

    open spec fn view(&self) -> SessionView<T> {
        SessionView {
            state: self.state@,
            message_start: self.message_start@,
            event_rx: self.event_rx,
            tool_use_ids: texts(self.tool_use_ids@),
            created_at: self.created_at,
        }
    }
}

impl<T> SessionView<T> {
    /// The session is older than the timeout. A clock reading from before the
    /// pause does not make it so.
    pub open spec fn expired(self, now: u128) -> bool {
        now - self.created_at > SESSION_TIMEOUT_NANOS
    }

    /// The session may be kept under `conv`: that is the identifier of its
    /// conversation, or its conversation has none.
    pub open spec fn fits(self, conv: Seq<char>) -> bool {
        self.state.conv_uuid is None || self.state.conv_uuid == Some(conv)
    }

    /// The session after its events were handed out.
    pub open spec fn taken(self) -> Self {
        SessionView { event_rx: None, ..self }
    }
}

/// All paused sessions, and for each tool call the session that it leads to.
pub struct SessionManager<T> {
    sessions: StringMap<PausedSession<T>>,
    tool_index: StringHashMap<String>,
}

/// The paused sessions by conversation and the conversations by tool call.
#[verifier::ext_equal]
pub ghost struct Sessions<T> {
    pub sessions: Map<Seq<char>, SessionView<T>>,
    pub tool_index: Map<Seq<char>, Seq<char>>,
}

/// `index` after every one of `ids` was made to lead to `conv`.
pub open spec fn index_all(
    index: Map<Seq<char>, Seq<char>>,
    ids: Seq<Seq<char>>,
    conv: Seq<char>,
) -> Map<Seq<char>, Seq<char>> {
    Map::new(
        |id: Seq<char>| ids.contains(id) || index.contains_key(id),
        |id: Seq<char>|
            if ids.contains(id) {
                conv
            } else {
                index[id]
            },
    )
}

/// `index` without any of `ids`.
pub open spec fn unindex_all(index: Map<Seq<char>, Seq<char>>, ids: Seq<Seq<char>>) -> Map<
    Seq<char>,
    Seq<char>,
> {
    Map::new(
        |id: Seq<char>| index.contains_key(id) && !ids.contains(id),
        |id: Seq<char>| index[id],
    )
}

impl<T> Sessions<T> {
    /// `session` is kept for `conv`, in place of what was kept there.
    pub open spec fn paused(self, conv: Seq<char>, session: SessionView<T>) -> Self {
        Sessions {
            sessions: self.sessions.insert(conv, session),
            tool_index: index_all(self.tool_index, session.tool_use_ids, conv),
        }
    }

    /// The tool call leads to a session whose events nobody took yet.
    pub open spec fn resumable(self, id: Seq<char>) -> bool {
        &&& self.tool_index.contains_key(id)
        &&& self.sessions.contains_key(self.tool_index[id])
        &&& self.sessions[self.tool_index[id]].event_rx is Some
    }

    /// The session that the tool call leads to.
    pub open spec fn session_of(self, id: Seq<char>) -> SessionView<T> {
        self.sessions[self.tool_index[id]]
    }

    /// The events of the session that the tool call leads to were taken; nothing
    /// changes where there are none to take.
    pub open spec fn resumed(self, id: Seq<char>) -> Self {
        if self.resumable(id) {
            Sessions {
                sessions: self.sessions.insert(
                    self.tool_index[id],
                    self.session_of(id).taken(),
                ),
                tool_index: self.tool_index,
            }
        } else {
            self
        }
    }

    /// The session of `conv` is gone, and with it every tool call that it names.
    pub open spec fn completed(self, conv: Seq<char>) -> Self {
        if self.sessions.contains_key(conv) {
            Sessions {
                sessions: self.sessions.remove(conv),
                tool_index: unindex_all(self.tool_index, self.sessions[conv].tool_use_ids),
            }
        } else {
            self
        }
    }

    /// `conv` has a session that is expired at `now`.
    pub open spec fn expired_at(self, conv: Seq<char>, now: u128) -> bool {
        self.sessions.contains_key(conv) && self.sessions[conv].expired(now)
    }

    /// A session that is expired at `now` names the tool call.
    pub open spec fn expiring(self, id: Seq<char>, now: u128) -> bool {
        exists|conv: Seq<char>| #[trigger]
            self.expired_at(conv, now) && self.sessions[conv].tool_use_ids.contains(id)
    }

    /// Every session that is expired at `now` is gone, and with it every tool
    /// call that one of them names.
    pub open spec fn swept(self, now: u128) -> Self {
        Sessions {
            sessions: Map::new(
                |conv: Seq<char>| self.sessions.contains_key(conv) && !self.expired_at(conv, now),
                |conv: Seq<char>| self.sessions[conv],
            ),
            tool_index: Map::new(
                |id: Seq<char>| self.tool_index.contains_key(id) && !self.expiring(id, now),
                |id: Seq<char>| self.tool_index[id],
            ),
        }
    }

    /// The sessions of `convs` were completed one after another.
    pub open spec fn completed_all(self, convs: Seq<Seq<char>>) -> Self
        decreases convs.len(),
    {
        if convs.len() == 0 {
            self
        } else {
            self.completed_all(convs.drop_last()).completed(convs.last())
        }
    }

    /// Every session is kept under the identifier of its conversation, where the
    /// conversation has one.
    pub open spec fn keyed(self) -> bool {
        forall|conv: Seq<char>| #[trigger]
            self.sessions.contains_key(conv) ==> self.sessions[conv].fits(conv)
    }

    /// The tool calls and the sessions agree: every indexed tool call leads to a
    /// session that names it, and every tool call that a session names leads to
    /// that session.
    pub open spec fn linked(self) -> bool {
        &&& forall|id: Seq<char>| #[trigger]
            self.tool_index.contains_key(id) ==> {
                &&& self.sessions.contains_key(self.tool_index[id])
                &&& self.session_of(id).tool_use_ids.contains(id)
            }
        &&& forall|conv: Seq<char>, id: Seq<char>|
            #![trigger self.sessions[conv].tool_use_ids.contains(id)]
            self.sessions.contains_key(conv) && self.sessions[conv].tool_use_ids.contains(id)
                ==> self.tool_index.contains_key(id) && self.tool_index[id] == conv
    }
}

impl<T> View for SessionManager<T> {
    type V = Sessions<T>;

    closed spec fn view(&self) -> Sessions<T> {
        Sessions {
            sessions: self.sessions@.map_values(|s: PausedSession<T>| s@),
            tool_index: self.tool_index@.map_values(|conv: String| conv@),
        }
    }
}

impl<T> SessionManager<T> {
    /// The sessions are in order, and each is kept under its own identifier.
    pub closed spec fn wf(&self) -> bool {
        self.sessions.wf() && self@.keyed()
    }

    /// At any time every session is kept under the identifier of its conversation,
    /// where the conversation has one.
    pub proof fn law_always_keyed(&self)
        requires
            self.wf(),
        ensures
            self@.keyed(),
    {
    }

    /// No session is paused.
    pub fn new() -> (manager: Self)
        ensures
            manager.wf(),
            manager@ == (Sessions::<T> { sessions: Map::empty(), tool_index: Map::empty() }),
    {
        let manager = SessionManager { sessions: StringMap::new(), tool_index: StringHashMap::new() };
        assert(manager@ =~= (Sessions::<T> { sessions: Map::empty(), tool_index: Map::empty() }));
        manager
    }

    /// Pauses a response at the time `now`. It is kept under the identifier of
    /// its conversation, or under a fresh random one where it has none; that
    /// identifier is handed back.
    pub fn pause(
        &mut self,
        state: ClaudeWebState<T>,
        message_start: MessageStartContent,
        event_rx: SharedEventReceiver,
        tool_use_ids: Vec<String>,
        now: u128,
    ) -> (conv_uuid: String)
        requires
            old(self).wf(),
        ensures
            final(self).wf(),
            match opt_text(state.conv_uuid) {
                Some(conv) => conv_uuid@ == conv,
                None => is_uuid_text(conv_uuid@),
            },
            final(self)@ == old(self)@.paused(
                conv_uuid@,
                SessionView {
                    state: state@,
                    message_start: message_start@,
                    event_rx: Some(event_rx),
                    tool_use_ids: texts(tool_use_ids@),
                    created_at: now,
                },
            ),
            final(self)@.sessions.contains_key(conv_uuid@),
            final(self)@.sessions[conv_uuid@].created_at == now,
            final(self)@.sessions[conv_uuid@].state == state@,
            final(self)@.sessions[conv_uuid@].message_start == message_start@,
            final(self)@.sessions[conv_uuid@].event_rx == Some(event_rx),
            forall|i: int|
                0 <= i < tool_use_ids@.len() ==> final(self)@.resumable(
                    #[trigger] tool_use_ids@[i]@,
                ),
    {
        let conv_uuid: String = match &state.conv_uuid {
            Some(conv) => conv.clone(),
            None => fresh_uuid(),
        };
        self.pause_as(conv_uuid.clone(), state, message_start, event_rx, tool_use_ids, now);
        conv_uuid
    }

    /// Pauses a response at the time `now` under the identifier `conv_uuid`, which
    /// is that of its conversation where it has one.
    pub fn pause_as(
        &mut self,
        conv_uuid: String,
        state: ClaudeWebState<T>,
        message_start: MessageStartContent,
        event_rx: SharedEventReceiver,
        tool_use_ids: Vec<String>,
        now: u128,
    )
        requires
            old(self).wf(),
            state@.conv_uuid is None || state@.conv_uuid == Some(conv_uuid@),
        ensures
            final(self).wf(),
            final(self)@ == old(self)@.paused(
                conv_uuid@,
                SessionView {
                    state: state@,
                    message_start: message_start@,
                    event_rx: Some(event_rx),
                    tool_use_ids: texts(tool_use_ids@),
                    created_at: now,
                },
            ),
            final(self)@.sessions.contains_key(conv_uuid@),
            final(self)@.sessions[conv_uuid@].created_at == now,
            final(self)@.sessions[conv_uuid@].state == state@,
            final(self)@.sessions[conv_uuid@].message_start == message_start@,
            final(self)@.sessions[conv_uuid@].event_rx == Some(event_rx),
            forall|i: int|
                0 <= i < tool_use_ids@.len() ==> final(self)@.resumable(
                    #[trigger] tool_use_ids@[i]@,
                ),
    {
        let ghost ids = texts(tool_use_ids@);
        let ghost before = self@;
        for i in 0..tool_use_ids.len()
            invariant
                ids == texts(tool_use_ids@),
                self.wf(),
                self.sessions == old(self).sessions,
                before == old(self)@,
                self@.tool_index == index_all(before.tool_index, ids.take(i as int), conv_uuid@),
        {
            let ghost step = self@.tool_index;
            let ghost sessions = self@.sessions;
            self.tool_index.insert(tool_use_ids[i].clone(), conv_uuid.clone());
            proof {
                assert(self@.sessions =~= sessions);
                let id = tool_use_ids@[i as int]@;
                assert(ids[i as int] == id);
                assert(self@.tool_index =~= step.insert(id, conv_uuid@));
                lemma_contains_push(ids, i as int);
                assert(self@.tool_index =~= index_all(
                    before.tool_index,
                    ids.take(i + 1),
                    conv_uuid@,
                ));
            }
        }
        assert(ids.take(ids.len() as int) =~= ids);
        let session = PausedSession {
            state,
            message_start,
            event_rx: Some(event_rx),
            tool_use_ids,
            created_at: now,
        };
        let ghost kept = session@;
        self.sessions.insert(conv_uuid, session);
        assert(self@ =~= before.paused(conv_uuid@, kept));
        proof {
            law_pause_keeps_keyed(before, conv_uuid@, kept);
            assert forall|i: int| 0 <= i < ids.len() implies self@.resumable(#[trigger] ids[i]) by {
                assert(ids.contains(ids[i]));
            }
            assert forall|i: int| 0 <= i < tool_use_ids@.len() implies self@.resumable(
                #[trigger] tool_use_ids@[i]@,
            ) by {
                assert(ids[i] == tool_use_ids@[i]@);
            }
        }
    }

    /// Hands out the session that the tool call leads to: a copy of its state and
    /// of its message, and its events, which only the first call gets.
    pub fn resume_by_tool_id(&mut self, tool_use_id: &str) -> (resumed: Option<
        (ClaudeWebState<T>, MessageStartContent, SharedEventReceiver),
    >)
        requires
            old(self).wf(),
        ensures
            final(self).wf(),
            final(self)@ == old(self)@.resumed(tool_use_id@),
            resumed is Some <==> old(self)@.resumable(tool_use_id@),
            match resumed {
                Some((state, message_start, event_rx)) => {
                    &&& old(self)@.resumable(tool_use_id@)
                    &&& state@ == old(self)@.session_of(tool_use_id@).state
                    &&& message_start@ == old(self)@.session_of(tool_use_id@).message_start
                    &&& Some(event_rx) == old(self)@.session_of(tool_use_id@).event_rx
                },
                None => !old(self)@.resumable(tool_use_id@),
            },
    {
        let ghost before = self@;
        let conv_uuid: String = match self.tool_index.get(tool_use_id) {
            Some(conv) => conv.clone(),
            None => {
                return None;
            },
        };
        let resumed = match self.sessions.get_mut(conv_uuid.as_str()) {
            Some(session) => {
                let ghost kept = session@;
                match session.event_rx.take() {
                    Some(event_rx) => {
                        let resumed = (session.state.clone(), session.message_start.clone(), event_rx);
                        assert(session@ == kept.taken());
                        Some(resumed)
                    },
                    None => None,
                }
            },
            None => None,
        };
        proof {
            law_resume_keeps_keyed(before, tool_use_id@);
            assert(self@ =~= before.resumed(tool_use_id@));
        }
        resumed
    }

    /// Drops the session of a conversation together with the tool calls that it
    /// names.
    pub fn complete(&mut self, conv_uuid: &str)
        requires
            old(self).wf(),
        ensures
            final(self).wf(),
            final(self)@ == old(self)@.completed(conv_uuid@),
    {
        let ghost before = self@;
        match self.sessions.remove(conv_uuid) {
            Some(session) => {
                let ghost sessions = self.sessions;
                let ghost ids = texts(session.tool_use_ids@);
                assert(before.sessions[conv_uuid@].tool_use_ids == ids);
                assert(self@.sessions =~= before.sessions.remove(conv_uuid@));
                proof {
                    law_complete_keeps_keyed(before, conv_uuid@);
                }
                assert(unindex_all(before.tool_index, ids.take(0)) =~= before.tool_index);
                for i in 0..session.tool_use_ids.len()
                    invariant
                        ids == texts(session.tool_use_ids@),
                        self.wf(),
                        self.sessions == sessions,
                        self@.tool_index == unindex_all(before.tool_index, ids.take(i as int)),
                {
                    let ghost step = self@.tool_index;
                    let ghost rest = self@.sessions;
                    self.tool_index.remove(session.tool_use_ids[i].as_str());
                    proof {
                        assert(self@.sessions =~= rest);
                        assert(ids[i as int] == session.tool_use_ids@[i as int]@);
                        assert(self@.tool_index =~= step.remove(ids[i as int]));
                        lemma_contains_push(ids, i as int);
                        assert(self@.tool_index =~= unindex_all(before.tool_index, ids.take(i + 1)));
                    }
                }
                assert(ids.take(ids.len() as int) =~= ids);
                assert(self@ =~= before.completed(conv_uuid@));
            },
            None => {
                assert(self@ =~= before);
            },
        }
    }

    fn expired_keys(&self, now: u128) -> (keys: Vec<String>)
        requires
            self.wf(),
        ensures
            texts(keys@).no_duplicates(),
            forall|conv: Seq<char>| #[trigger]
                texts(keys@).contains(conv) <==> self@.expired_at(conv, now),
    {
        let mut keys: Vec<String> = Vec::new();
        let ghost listed = self.sessions.listed();
        let ghost mut at: Seq<int> = Seq::empty();
        proof {
            self.sessions.lemma_listed();
        }
        let len = self.sessions.len();
        for i in 0..len
            invariant
                self.wf(),
                listed == self.sessions.listed(),
                len == listed.len(),
                at.len() == keys@.len(),
                forall|k: int|
                    0 <= k < at.len() ==> 0 <= #[trigger] at[k] < i && listed[at[k]].0 == keys@[k]
                        && listed[at[k]].1@.expired(now),
                forall|a: int, b: int| 0 <= a < b < at.len() ==> at[a] < at[b],
                forall|j: int| 0 <= j < i && (#[trigger] listed[j]).1@.expired(now) ==> at.contains(j),
        {
            let (key, session) = self.sessions.entry(i);
            if now > session.created_at && now - session.created_at > SESSION_TIMEOUT_NANOS {
                keys.push(key.clone());
                proof {
                    let shorter = at;
                    at = at.push(i as int);
                    assert forall|j: int|
                        0 <= j < i + 1 && (#[trigger] listed[j]).1@.expired(now) implies at.contains(
                        j,
                    ) by {
                        if j < i {
                            let k = choose|k: int| 0 <= k < shorter.len() && shorter[k] == j;
                            assert(at[k] == j);
                        } else {
                            assert(at[shorter.len() as int] == j);
                        }
                    }
                }
            }
        }
        proof {
            let all = texts(keys@);
            let model = self@;
            assert forall|a: int, b: int|
                0 <= a < all.len() && 0 <= b < all.len() && a != b implies all[a] != all[b] by {
                assert(at[a] != at[b]);
                assert(listed[at[a]].0@ != listed[at[b]].0@);
            }
            assert forall|conv: Seq<char>| #[trigger] all.contains(conv) <==> model.expired_at(
                conv,
                now,
            ) by {
                if all.contains(conv) {
                    let k = choose|k: int| 0 <= k < all.len() && all[k] == conv;
                    assert(self.sessions@.contains_key(listed[at[k]].0@));
                }
                if model.expired_at(conv, now) {
                    assert(entries_map(listed).contains_key(conv));
                    let j = choose|j: int| key_at(listed, j, conv);
                    assert(self.sessions@[listed[j].0@] == listed[j].1);
                    let k = choose|k: int| 0 <= k < at.len() && at[k] == j;
                    assert(all[k] == conv);
                }
            }
        }
        keys
    }

    /// Drops every session that is older than the timeout at the time `now`.
    pub fn cleanup_expired(&mut self, now: u128)
        requires
            old(self).wf(),
        ensures
            final(self).wf(),
            final(self)@ == old(self)@.swept(now),
    {
        let ghost before = self@;
        let expired = self.expired_keys(now);
        let ghost convs = texts(expired@);
        assert(before.completed_all(convs.take(0)) == before);
        for i in 0..expired.len()
            invariant
                self.wf(),
                convs == texts(expired@),
                self@ == before.completed_all(convs.take(i as int)),
        {
            self.complete(expired[i].as_str());
            proof {
                assert(convs.take(i + 1).drop_last() =~= convs.take(i as int));
                assert(convs.take(i + 1).last() == expired@[i as int]@);
            }
        }
        proof {
            assert(convs.take(convs.len() as int) =~= convs);
            lemma_completed_all(before, convs);
            let after = before.completed_all(convs);
            assert forall|id: Seq<char>| before.expiring(id, now) == #[trigger] named_by(
                before,
                convs,
                id,
            ) by {
                if before.expiring(id, now) {
                    let conv = choose|conv: Seq<char>| #[trigger]
                        before.expired_at(conv, now) && before.sessions[conv].tool_use_ids.contains(
                            id,
                        );
                    assert(convs.contains(conv));
                    let k = choose|k: int| 0 <= k < convs.len() && convs[k] == conv;
                    assert(before.sessions[convs[k]].tool_use_ids.contains(id));
                }
                if named_by(before, convs, id) {
                    let k = choose|k: int|
                        0 <= k < convs.len() && before.sessions[#[trigger] convs[k]].tool_use_ids.contains(
                            id,
                        );
                    assert(convs.contains(convs[k]));
                    assert(before.expired_at(convs[k], now));
                }
            }
            assert(after.sessions =~= before.swept(now).sessions);
            assert(after.tool_index =~= before.swept(now).tool_index);
        }
    }
}

/// One of the sessions of `convs` names the tool call.
spec fn named_by<T>(s: Sessions<T>, convs: Seq<Seq<char>>, id: Seq<char>) -> bool {
    exists|k: int|
        0 <= k < convs.len() && s.sessions[#[trigger] convs[k]].tool_use_ids.contains(id)
}

proof fn lemma_completed_all<T>(s: Sessions<T>, convs: Seq<Seq<char>>)
    requires
        convs.no_duplicates(),
        forall|conv: Seq<char>| #[trigger] convs.contains(conv) ==> s.sessions.contains_key(conv),
    ensures
        s.completed_all(convs) == (Sessions {
            sessions: Map::new(
                |conv: Seq<char>| s.sessions.contains_key(conv) && !convs.contains(conv),
                |conv: Seq<char>| s.sessions[conv],
            ),
            tool_index: Map::new(
                |id: Seq<char>| s.tool_index.contains_key(id) && !named_by(s, convs, id),
                |id: Seq<char>| s.tool_index[id],
            ),
        }),
    decreases convs.len(),
{
    if convs.len() > 0 {
        let shorter = convs.drop_last();
        let last = convs.last();
        let n = shorter.len() as int;
        assert(convs[n] == last);
        assert forall|conv: Seq<char>| #[trigger] shorter.contains(conv) implies s.sessions.contains_key(
            conv,
        ) by {
            let k = choose|k: int| 0 <= k < shorter.len() && shorter[k] == conv;
            assert(convs[k] == conv);
            assert(convs.contains(conv));
        }
        lemma_completed_all(s, shorter);
        assert(convs.contains(last));
        assert(!shorter.contains(last)) by {
            if shorter.contains(last) {
                let k = choose|k: int| 0 <= k < shorter.len() && shorter[k] == last;
                assert(convs[k] == convs[n]);
            }
        }
        assert forall|conv: Seq<char>| #[trigger] convs.contains(conv) <==> shorter.contains(conv)
            || conv == last by {
            if convs.contains(conv) {
                let k = choose|k: int| 0 <= k < convs.len() && convs[k] == conv;
                if k < n {
                    assert(shorter[k] == conv);
                }
            }
            if shorter.contains(conv) {
                let k = choose|k: int| 0 <= k < shorter.len() && shorter[k] == conv;
                assert(convs[k] == conv);
            }
        }
        assert forall|id: Seq<char>| #[trigger] named_by(s, convs, id) <==> named_by(s, shorter, id)
            || s.sessions[last].tool_use_ids.contains(id) by {
            if named_by(s, convs, id) {
                let k = choose|k: int|
                    0 <= k < convs.len() && s.sessions[#[trigger] convs[k]].tool_use_ids.contains(id);
                if k < n {
                    assert(shorter[k] == convs[k]);
                }
            }
            if named_by(s, shorter, id) {
                let k = choose|k: int|
                    0 <= k < shorter.len() && s.sessions[#[trigger] shorter[k]].tool_use_ids.contains(
                        id,
                    );
                assert(convs[k] == shorter[k]);
            }
        }
    }
    let expect = Sessions {
        sessions: Map::new(
            |conv: Seq<char>| s.sessions.contains_key(conv) && !convs.contains(conv),
            |conv: Seq<char>| s.sessions[conv],
        ),
        tool_index: Map::new(
            |id: Seq<char>| s.tool_index.contains_key(id) && !named_by(s, convs, id),
            |id: Seq<char>| s.tool_index[id],
        ),
    };
    assert(s.completed_all(convs).sessions =~= expect.sessions);
    assert(s.completed_all(convs).tool_index =~= expect.tool_index);
}

proof fn lemma_contains_push(ids: Seq<Seq<char>>, i: int)
    requires
        0 <= i < ids.len(),
    ensures
        forall|id: Seq<char>| #[trigger]
            ids.take(i + 1).contains(id) <==> ids.take(i).contains(id) || id == ids[i],
{
    let short = ids.take(i);
    let long = ids.take(i + 1);
    assert forall|id: Seq<char>| #[trigger] long.contains(id) <==> short.contains(id) || id
        == ids[i] by {
        if long.contains(id) {
            let k = choose|k: int| 0 <= k < long.len() && long[k] == id;
            if k < i {
                assert(short[k] == id);
            }
        }
        if short.contains(id) {
            let k = choose|k: int| 0 <= k < short.len() && short[k] == id;
            assert(long[k] == id);
        }
        assert(long[i] == ids[i]);
    }
}

} // verus!
