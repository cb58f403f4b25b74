//! What holds of paused sessions across several calls.
use crate::session::{
    PausedSession, SessionView, Sessions, CLEANUP_INTERVAL_SECS, SESSION_TIMEOUT_NANOS,
};
use vstd::prelude::*;

verus! {

/// Every tool call of a session that was just paused resumes exactly that
/// session, whatever was paused before.
pub proof fn law_pause_then_resume<T>(
    s: Sessions<T>,
    conv: Seq<char>,
    session: SessionView<T>,
    id: Seq<char>,
)
    requires
        session.event_rx is Some,
        session.tool_use_ids.contains(id),
    ensures
        s.paused(conv, session).resumable(id),
        s.paused(conv, session).session_of(id) == session,
{
}

/// A session is resumed once: afterwards no tool call that leads to it resumes
/// it again.
pub proof fn law_resume_only_once<T>(s: Sessions<T>, id: Seq<char>, other: Seq<char>)
    requires
        s.resumable(id),
        s.tool_index.contains_key(other),
        s.tool_index[other] == s.tool_index[id],
    ensures
        !s.resumed(id).resumable(id),
        !s.resumed(id).resumable(other),
{
}

/// To resume one session changes nothing for a tool call that does not lead to
/// it.
pub proof fn law_resume_leaves_other_sessions<T>(s: Sessions<T>, id: Seq<char>, other: Seq<char>)
    requires
        !(s.tool_index.contains_key(id) && s.tool_index.contains_key(other) && s.tool_index[id]
            == s.tool_index[other]),
    ensures
        s.resumed(id).resumable(other) == s.resumable(other),
        s.resumable(other) ==> s.resumed(id).session_of(other) == s.session_of(other),
{
}

/// Once a session is completed it is gone, and no tool call that it named
/// resumes anything.
pub proof fn law_complete_forgets<T>(s: Sessions<T>, conv: Seq<char>, id: Seq<char>)
    requires
        s.sessions.contains_key(conv),
        s.sessions[conv].tool_use_ids.contains(id),
    ensures
        !s.completed(conv).sessions.contains_key(conv),
        !s.completed(conv).tool_index.contains_key(id),
        !s.completed(conv).resumable(id),
{
}

/// A conversation with new tool calls that is paused, resumed and completed
/// leaves nothing behind, whether or not it was resumed in between.
pub proof fn law_complete_undoes_pause<T>(
    s: Sessions<T>,
    conv: Seq<char>,
    session: SessionView<T>,
    id: Seq<char>,
)
    requires
        !s.sessions.contains_key(conv),
        forall|t: Seq<char>| #[trigger]
            session.tool_use_ids.contains(t) ==> !s.tool_index.contains_key(t),
        session.tool_use_ids.contains(id),
    ensures
        s.paused(conv, session).completed(conv) == s,
        s.paused(conv, session).resumed(id).completed(conv) == s,
{
    let there = s.paused(conv, session);
    assert(there.completed(conv).sessions =~= s.sessions);
    assert(there.completed(conv).tool_index =~= s.tool_index);
    let taken = there.resumed(id);
    assert(taken.completed(conv).sessions =~= s.sessions);
    assert(taken.completed(conv).tool_index =~= s.tool_index);
}

/// It does not matter in which order two conversations are completed.
pub proof fn law_complete_commutes<T>(s: Sessions<T>, a: Seq<char>, b: Seq<char>)
    ensures
        s.completed(a).completed(b) == s.completed(b).completed(a),
{
    let ab = s.completed(a).completed(b);
    let ba = s.completed(b).completed(a);
    assert(ab.sessions =~= ba.sessions);
    assert(ab.tool_index =~= ba.tool_index);
}

/// At the start, with no session, tool calls and sessions agree.
pub proof fn law_empty_is_linked<T>(s: Sessions<T>)
    requires
        s.sessions == Map::<Seq<char>, SessionView<T>>::empty(),
        s.tool_index == Map::<Seq<char>, Seq<char>>::empty(),
    ensures
        s.linked(),
{
}

/// Tool calls and sessions still agree after a pause, provided that none of its
/// tool calls leads to another conversation, and that it names again what an
/// earlier session of its conversation named.
pub proof fn law_pause_keeps_linked<T>(s: Sessions<T>, conv: Seq<char>, session: SessionView<T>)
    requires
        s.linked(),
        forall|id: Seq<char>| #[trigger]
            session.tool_use_ids.contains(id) && s.tool_index.contains_key(id)
                ==> s.tool_index[id] == conv,
        s.sessions.contains_key(conv) ==> forall|id: Seq<char>| #[trigger]
            s.sessions[conv].tool_use_ids.contains(id) ==> session.tool_use_ids.contains(id),
    ensures
        s.paused(conv, session).linked(),
{
    let t = s.paused(conv, session);
    assert forall|id: Seq<char>| #[trigger] t.tool_index.contains_key(id) implies {
        &&& t.sessions.contains_key(t.tool_index[id])
        &&& t.session_of(id).tool_use_ids.contains(id)
    } by {
        if !session.tool_use_ids.contains(id) {
            assert(s.tool_index.contains_key(id));
        }
    }
    assert forall|c: Seq<char>, id: Seq<char>|
        #![trigger t.sessions[c].tool_use_ids.contains(id)]
        t.sessions.contains_key(c) && t.sessions[c].tool_use_ids.contains(id) implies t.tool_index.contains_key(
        id,
    ) && t.tool_index[id] == c by {
        if c != conv {
            assert(s.sessions[c].tool_use_ids.contains(id));
        }
    }
}

/// Tool calls and sessions still agree after a session was resumed.
pub proof fn law_resume_keeps_linked<T>(s: Sessions<T>, id: Seq<char>)
    requires
        s.linked(),
    ensures
        s.resumed(id).linked(),
{
    let t = s.resumed(id);
    assert forall|other: Seq<char>| #[trigger] t.tool_index.contains_key(other) implies {
        &&& t.sessions.contains_key(t.tool_index[other])
        &&& t.session_of(other).tool_use_ids.contains(other)
    } by {
        assert(s.tool_index.contains_key(other));
    }
    assert forall|c: Seq<char>, other: Seq<char>|
        #![trigger t.sessions[c].tool_use_ids.contains(other)]
        t.sessions.contains_key(c) && t.sessions[c].tool_use_ids.contains(
            other,
        ) implies t.tool_index.contains_key(other) && t.tool_index[other] == c by {
        assert(s.sessions[c].tool_use_ids.contains(other));
    }
}

/// Tool calls and sessions still agree after a session was completed.
pub proof fn law_complete_keeps_linked<T>(s: Sessions<T>, conv: Seq<char>)
    requires
        s.linked(),
    ensures
        s.completed(conv).linked(),
{
    let t = s.completed(conv);
    assert forall|id: Seq<char>| #[trigger] t.tool_index.contains_key(id) implies {
        &&& t.sessions.contains_key(t.tool_index[id])
        &&& t.session_of(id).tool_use_ids.contains(id)
    } by {
        assert(s.tool_index.contains_key(id));
    }
    assert forall|c: Seq<char>, id: Seq<char>|
        #![trigger t.sessions[c].tool_use_ids.contains(id)]
        t.sessions.contains_key(c) && t.sessions[c].tool_use_ids.contains(id) implies t.tool_index.contains_key(
        id,
    ) && t.tool_index[id] == c by {
        assert(s.sessions[c].tool_use_ids.contains(id));
        if s.sessions.contains_key(conv) && s.sessions[conv].tool_use_ids.contains(id) {
            assert(s.tool_index[id] == conv);
        }
    }
}

/// Tool calls and sessions still agree after expired sessions were dropped.
pub proof fn law_sweep_keeps_linked<T>(s: Sessions<T>, now: u128)
    requires
        s.linked(),
    ensures
        s.swept(now).linked(),
{
    let t = s.swept(now);
    assert forall|id: Seq<char>| #[trigger] t.tool_index.contains_key(id) implies {
        &&& t.sessions.contains_key(t.tool_index[id])
        &&& t.session_of(id).tool_use_ids.contains(id)
    } by {
        assert(s.tool_index.contains_key(id));
        if s.expired_at(s.tool_index[id], now) {
            assert(s.expiring(id, now));
        }
    }
    assert forall|c: Seq<char>, id: Seq<char>|
        #![trigger t.sessions[c].tool_use_ids.contains(id)]
        t.sessions.contains_key(c) && t.sessions[c].tool_use_ids.contains(id) implies t.tool_index.contains_key(
        id,
    ) && t.tool_index[id] == c by {
        assert(s.sessions[c].tool_use_ids.contains(id));
        if s.expiring(id, now) {
            let gone = choose|gone: Seq<char>| #[trigger]
                s.expired_at(gone, now) && s.sessions[gone].tool_use_ids.contains(id);
            assert(s.tool_index[id] == gone);
        }
    }
}

/// At the start, with no session, every session is kept under its own identifier.
pub proof fn law_empty_is_keyed<T>(s: Sessions<T>)
    requires
        s.sessions == Map::<Seq<char>, SessionView<T>>::empty(),
    ensures
        s.keyed(),
{
}

/// Every session is still kept under its own identifier after one more was paused
/// under its own.
pub proof fn law_pause_keeps_keyed<T>(s: Sessions<T>, conv: Seq<char>, session: SessionView<T>)
    requires
        s.keyed(),
        session.fits(conv),
    ensures
        s.paused(conv, session).keyed(),
{
}

/// Every session is still kept under its own identifier after one was resumed.
pub proof fn law_resume_keeps_keyed<T>(s: Sessions<T>, id: Seq<char>)
    requires
        s.keyed(),
    ensures
        s.resumed(id).keyed(),
{
}

/// Every session is still kept under its own identifier after one was completed.
pub proof fn law_complete_keeps_keyed<T>(s: Sessions<T>, conv: Seq<char>)
    requires
        s.keyed(),
    ensures
        s.completed(conv).keyed(),
{
}

/// Every session is still kept under its own identifier after expired sessions
/// were dropped.
pub proof fn law_sweep_keeps_keyed<T>(s: Sessions<T>, now: u128)
    requires
        s.keyed(),
    ensures
        s.swept(now).keyed(),
{
}

/// Where tool calls and sessions agree, a tool call can be resumed exactly where
/// some session names it whose events nobody took yet.
pub proof fn law_resumable_iff_waiting<T>(s: Sessions<T>, id: Seq<char>)
    requires
        s.linked(),
    ensures
        s.resumable(id) <==> exists|conv: Seq<char>|
            #![trigger s.sessions[conv]]
            s.sessions.contains_key(conv) && s.sessions[conv].tool_use_ids.contains(id)
                && s.sessions[conv].event_rx is Some,
{
    if s.resumable(id) {
        assert(s.session_of(id).tool_use_ids.contains(id));
        assert(s.sessions[s.tool_index[id]].event_rx is Some);
    }
}

/// A sweep drops every expired session and every tool call that it names.
pub proof fn law_sweep_drops_expired<T>(s: Sessions<T>, now: u128, conv: Seq<char>, id: Seq<char>)
    requires
        s.expired_at(conv, now),
        s.sessions[conv].tool_use_ids.contains(id),
    ensures
        !s.swept(now).sessions.contains_key(conv),
        !s.swept(now).tool_index.contains_key(id),
        !s.swept(now).resumable(id),
{
    assert(s.expiring(id, now));
}

/// A sweep leaves a session that is not expired as it was, and where tool calls
/// and sessions agree its tool calls still resume it.
pub proof fn law_sweep_keeps_live<T>(s: Sessions<T>, now: u128, conv: Seq<char>)
    requires
        s.sessions.contains_key(conv),
        !s.sessions[conv].expired(now),
    ensures
        s.swept(now).sessions.contains_key(conv),
        s.swept(now).sessions[conv] == s.sessions[conv],
        s.linked() ==> forall|id: Seq<char>| #[trigger]
            s.sessions[conv].tool_use_ids.contains(id) ==> {
                &&& s.swept(now).resumable(id) == s.resumable(id)
                &&& s.swept(now).session_of(id) == s.session_of(id)
            },
{
    let t = s.swept(now);
    if s.linked() {
        assert forall|id: Seq<char>| #[trigger] s.sessions[conv].tool_use_ids.contains(id) implies {
            &&& t.resumable(id) == s.resumable(id)
            &&& t.session_of(id) == s.session_of(id)
        } by {
            assert(s.tool_index[id] == conv);
            if s.expiring(id, now) {
                let gone = choose|gone: Seq<char>| #[trigger]
                    s.expired_at(gone, now) && s.sessions[gone].tool_use_ids.contains(id);
                assert(s.tool_index[id] == gone);
            }
        }
    }
}

/// A sweep in between changes nothing for a later one.
pub proof fn law_sweep_again<T>(s: Sessions<T>, earlier: u128, later: u128)
    requires
        earlier <= later,
    ensures
        s.swept(earlier).swept(later) == s.swept(later),
{
    let e = s.swept(earlier);
    assert forall|id: Seq<char>| #[trigger]
        e.swept(later).tool_index.contains_key(id) == s.swept(later).tool_index.contains_key(id) by {
        lemma_expiring_later(s, earlier, later, id);
    }
    assert(e.swept(later).sessions =~= s.swept(later).sessions);
    assert(e.swept(later).tool_index =~= s.swept(later).tool_index);
}

proof fn lemma_expiring_later<T>(s: Sessions<T>, earlier: u128, later: u128, id: Seq<char>)
    requires
        earlier <= later,
    ensures
        s.expiring(id, later) == (s.expiring(id, earlier) || s.swept(earlier).expiring(id, later)),
{
    let e = s.swept(earlier);
    if s.expiring(id, later) {
        let gone = choose|gone: Seq<char>| #[trigger]
            s.expired_at(gone, later) && s.sessions[gone].tool_use_ids.contains(id);
        if s.expired_at(gone, earlier) {
            assert(s.expiring(id, earlier));
        } else {
            assert(e.expired_at(gone, later));
            assert(e.expiring(id, later));
        }
    }
    if s.expiring(id, earlier) {
        let gone = choose|gone: Seq<char>| #[trigger]
            s.expired_at(gone, earlier) && s.sessions[gone].tool_use_ids.contains(id);
        assert(s.expired_at(gone, later));
    }
    if e.expiring(id, later) {
        let gone = choose|gone: Seq<char>| #[trigger]
            e.expired_at(gone, later) && e.sessions[gone].tool_use_ids.contains(id);
        assert(s.expired_at(gone, later));
    }
}

/// A session is expired exactly where more than five minutes have passed since it
/// was paused, whatever it holds.
pub proof fn law_when_a_session_expires<T>(session: SessionView<T>, now: u128)
    ensures
        session.expired(now) <==> now > session.created_at + 300_000_000_000,
        SESSION_TIMEOUT_NANOS == 300_000_000_000,
        CLEANUP_INTERVAL_SECS == 60,
{
}

/// A pause keeps the session as it was given, makes each of its tool calls lead to
/// it, and changes nothing else.
pub proof fn law_pause_changes_only_its_own<T>(
    s: Sessions<T>,
    conv: Seq<char>,
    session: SessionView<T>,
    other: Seq<char>,
    id: Seq<char>,
)
    ensures
        ({
            let t = s.paused(conv, session);
            &&& t.sessions.contains_key(conv) && t.sessions[conv] == session
            &&& other != conv ==> {
                &&& t.sessions.contains_key(other) == s.sessions.contains_key(other)
                &&& s.sessions.contains_key(other) ==> t.sessions[other] == s.sessions[other]
            }
            &&& session.tool_use_ids.contains(id) ==> t.tool_index.contains_key(id)
                && t.tool_index[id] == conv
            &&& !session.tool_use_ids.contains(id) ==> {
                &&& t.tool_index.contains_key(id) == s.tool_index.contains_key(id)
                &&& s.tool_index.contains_key(id) ==> t.tool_index[id] == s.tool_index[id]
            }
        }),
{
}

/// A tool call can be resumed exactly where it leads to a conversation whose
/// session still has its events.
pub proof fn law_what_can_be_resumed<T>(s: Sessions<T>, id: Seq<char>)
    ensures
        s.resumable(id) <==> exists|conv: Seq<char>|
            #![trigger s.sessions.contains_key(conv)]
            {
                &&& s.tool_index.contains_key(id) && s.tool_index[id] == conv
                &&& s.sessions.contains_key(conv)
                &&& s.sessions[conv].event_rx is Some
            },
        s.resumable(id) ==> s.session_of(id) == s.sessions[s.tool_index[id]],
{
    if s.resumable(id) {
        assert(s.sessions.contains_key(s.tool_index[id]));
    }
}

/// To resume takes the events out of the session and changes nothing else, neither
/// in the session nor beside it; where there is nothing to resume nothing changes.
pub proof fn law_resume_takes_only_the_events<T>(s: Sessions<T>, id: Seq<char>, other: Seq<char>)
    ensures
        !s.resumable(id) ==> s.resumed(id) == s,
        s.resumable(id) ==> {
            let conv = s.tool_index[id];
            let before = s.sessions[conv];
            let after = s.resumed(id).sessions[conv];
            &&& s.resumed(id).sessions.contains_key(conv)
            &&& after.event_rx is None
            &&& after.state == before.state
            &&& after.message_start == before.message_start
            &&& after.tool_use_ids == before.tool_use_ids
            &&& after.created_at == before.created_at
            &&& s.resumed(id).tool_index == s.tool_index
            &&& other != conv ==> {
                &&& s.resumed(id).sessions.contains_key(other) == s.sessions.contains_key(other)
                &&& s.sessions.contains_key(other) ==> s.resumed(id).sessions[other]
                    == s.sessions[other]
            }
        },
{
}

/// To complete drops one session and the tool calls that it names, and changes
/// nothing else; for a conversation without a session nothing changes.
pub proof fn law_complete_changes_only_its_own<T>(
    s: Sessions<T>,
    conv: Seq<char>,
    other: Seq<char>,
    id: Seq<char>,
)
    ensures
        !s.sessions.contains_key(conv) ==> s.completed(conv) == s,
        s.sessions.contains_key(conv) ==> {
            let t = s.completed(conv);
            &&& !t.sessions.contains_key(conv)
            &&& other != conv ==> {
                &&& t.sessions.contains_key(other) == s.sessions.contains_key(other)
                &&& s.sessions.contains_key(other) ==> t.sessions[other] == s.sessions[other]
            }
            &&& t.tool_index.contains_key(id) <==> s.tool_index.contains_key(id)
                && !s.sessions[conv].tool_use_ids.contains(id)
            &&& t.tool_index.contains_key(id) ==> t.tool_index[id] == s.tool_index[id]
        },
{
}

/// A sweep keeps exactly the sessions that were paused at most five minutes ago,
/// as they were, and drops exactly the tool calls that an older one names.
pub proof fn law_what_a_sweep_keeps<T>(s: Sessions<T>, now: u128, conv: Seq<char>, id: Seq<char>)
    ensures
        s.swept(now).sessions.contains_key(conv) <==> s.sessions.contains_key(conv) && now
            <= s.sessions[conv].created_at + 300_000_000_000,
        s.swept(now).sessions.contains_key(conv) ==> s.swept(now).sessions[conv]
            == s.sessions[conv],
        s.swept(now).tool_index.contains_key(id) <==> {
            &&& s.tool_index.contains_key(id)
            &&& forall|old: Seq<char>| #[trigger]
                s.sessions.contains_key(old) && s.sessions[old].tool_use_ids.contains(id) ==> now
                    <= s.sessions[old].created_at + 300_000_000_000
        },
        s.swept(now).tool_index.contains_key(id) ==> s.swept(now).tool_index[id]
            == s.tool_index[id],
{
    if s.tool_index.contains_key(id) {
        if s.expiring(id, now) {
            let old = choose|old: Seq<char>| #[trigger]
                s.expired_at(old, now) && s.sessions[old].tool_use_ids.contains(id);
            assert(s.sessions.contains_key(old));
        } else {
            assert forall|old: Seq<char>| #[trigger]
                s.sessions.contains_key(old) && s.sessions[old].tool_use_ids.contains(id) implies now
                <= s.sessions[old].created_at + 300_000_000_000 by {
                assert(!s.expired_at(old, now));
            }
        }
    }
}

/// A paused session is seen with all that it holds.
pub proof fn law_a_session_is_seen_whole<T>(session: PausedSession<T>)
    ensures
        session@.state == session.state@,
        session@.message_start == session.message_start@,
        session@.event_rx == session.event_rx,
        session@.created_at == session.created_at,
        session@.tool_use_ids.len() == session.tool_use_ids@.len(),
        forall|i: int|
            0 <= i < session.tool_use_ids@.len() ==> #[trigger] session@.tool_use_ids[i]
                == session.tool_use_ids@[i]@,
{
}

} // verus!
