//! The process-wide session registry: guild id to voice session, at most
//! one session per guild.
//!
//! A session is created lazily on `join` and removed on `leave`, on a
//! failed connect, and on idle timeout — every teardown funnels through the
//! same removal here, so the registry never holds a stale session.  The
//! registry is the guild's admission gate: while a `Connecting` session
//! holds a guild's slot, a second `join` for that guild is refused instead
//! of opening a second connection.  Exclusive access to the registry
//! serializes creation and removal; per-guild operations mutate only the
//! one session of that guild.

use vstd::prelude::*;

use crate::error::SunnyError;
use crate::queue::{spec_enqueue, EnqueueAt, QueuePage, PAGE_SIZE};
use crate::queue::{spec_saturate_u64, spec_total_secs};
use crate::randomness::fresh_small_rng;
use crate::session::{ConnState, IdleTick, NowPlaying, VoiceSession, IDLE_THRESHOLD};
use crate::session::same_routing;
use crate::track::Track;
use crate::urls::{is_absolute_url, parses_as_url};
use vstd::string::StringExecFns;

verus! {

/// No two slots serve the same guild.
pub open spec fn spec_distinct_guilds(s: Seq<VoiceSession>) -> bool {
    forall|i: int, j: int|
        0 <= i < j < s.len() ==> (#[trigger] s[i]).guild_id != (#[trigger] s[j]).guild_id
}

/// Every held session is well-formed.
pub open spec fn spec_all_wf(s: Seq<VoiceSession>) -> bool {
    forall|i: int| 0 <= i < s.len() ==> (#[trigger] s[i]).wf()
}

/// The slot serving a guild, where one exists.
pub open spec fn spec_index_of(s: Seq<VoiceSession>, g: u64) -> int {
    choose|i: int| 0 <= i < s.len() && s[i].guild_id == g
}

/// Whether some slot serves the guild.
pub open spec fn spec_has_guild(s: Seq<VoiceSession>, g: u64) -> bool {
    exists|i: int| 0 <= i < s.len() && (#[trigger] s[i]).guild_id == g
}

/// The sessions as a map from guild id, the shape the contracts speak of.
pub open spec fn spec_sessions_map(s: Seq<VoiceSession>) -> Map<u64, VoiceSession> {
    Map::new(|g: u64| spec_has_guild(s, g), |g: u64| s[spec_index_of(s, g)])
}

/// In a duplicate-free registry the slot found for a guild is the only one.
proof fn lemma_view_at(s: Seq<VoiceSession>, i: int)
    requires
        spec_distinct_guilds(s),
        0 <= i < s.len(),
    ensures
        spec_sessions_map(s).dom().contains(s[i].guild_id),
        spec_sessions_map(s)[s[i].guild_id] == s[i],
        spec_index_of(s, s[i].guild_id) == i,
{
    let g = s[i].guild_id;
    assert(spec_has_guild(s, g));
    let w = spec_index_of(s, g);
    assert(0 <= w < s.len() && s[w].guild_id == g);
    if w != i {
        if w < i {
            assert(s[w].guild_id != s[i].guild_id);
        } else {
            assert(s[i].guild_id != s[w].guild_id);
        }
    }
}

/// Absent guilds are outside the map's domain.
proof fn lemma_view_absent(s: Seq<VoiceSession>, g: u64)
    requires
        !spec_has_guild(s, g),
    ensures
        !spec_sessions_map(s).dom().contains(g),
{
}

/// Replacing one slot with a session of the same guild updates exactly that
/// guild's entry of the map.
proof fn lemma_view_update(s: Seq<VoiceSession>, i: int, v: VoiceSession)
    requires
        spec_distinct_guilds(s),
        spec_all_wf(s),
        0 <= i < s.len(),
        v.guild_id == s[i].guild_id,
        v.wf(),
    ensures
        spec_distinct_guilds(s.update(i, v)),
        spec_all_wf(s.update(i, v)),
        spec_sessions_map(s.update(i, v)) == spec_sessions_map(s).insert(v.guild_id, v),
{
    let post = s.update(i, v);
    let g = v.guild_id;
    assert forall|a: int, b: int| 0 <= a < b < post.len() implies post[a].guild_id
        != post[b].guild_id by {
        assert(s[a].guild_id != s[b].guild_id);
    }
    assert forall|k: int| 0 <= k < post.len() implies (#[trigger] post[k]).wf() by {
        if k != i {
            assert(s[k].wf());
        }
    }
    let m1 = spec_sessions_map(post);
    let m2 = spec_sessions_map(s).insert(g, v);
    assert forall|k: u64| m1.dom().contains(k) <==> m2.dom().contains(k) by {
        assert(spec_has_guild(post, k) <==> spec_has_guild(s, k) || k == g) by {
            if spec_has_guild(post, k) {
                let w = choose|w: int| 0 <= w < post.len() && post[w].guild_id == k;
                if w == i {
                } else {
                    assert(s[w].guild_id == k);
                }
            }
            if spec_has_guild(s, k) {
                let w = choose|w: int| 0 <= w < s.len() && s[w].guild_id == k;
                if w == i {
                    assert(post[i].guild_id == g);
                } else {
                    assert(post[w].guild_id == k);
                }
            }
            if k == g {
                assert(post[i].guild_id == k);
            }
        }
    }
    assert forall|k: u64| m1.dom().contains(k) implies m1[k] == m2[k] by {
        if k == g {
            lemma_view_at(post, i);
        } else {
            let w = spec_index_of(post, k);
            assert(0 <= w < post.len() && post[w].guild_id == k);
            assert(w != i);
            lemma_view_at(post, w);
            lemma_view_at(s, w);
        }
    }
    assert(m1 =~= m2);
}

/// Removing a slot removes exactly that guild's entry of the map.
proof fn lemma_view_remove(s: Seq<VoiceSession>, i: int)
    requires
        spec_distinct_guilds(s),
        spec_all_wf(s),
        0 <= i < s.len(),
    ensures
        spec_distinct_guilds(s.remove(i)),
        spec_all_wf(s.remove(i)),
        spec_sessions_map(s.remove(i)) == spec_sessions_map(s).remove(s[i].guild_id),
{
    let post = s.remove(i);
    let g = s[i].guild_id;
    assert forall|a: int, b: int| 0 <= a < b < post.len() implies post[a].guild_id
        != post[b].guild_id by {
        let a0 = if a < i { a } else { a + 1 };
        let b0 = if b < i { b } else { b + 1 };
        assert(post[a] == s[a0]);
        assert(post[b] == s[b0]);
        assert(s[a0].guild_id != s[b0].guild_id);
    }
    assert forall|k: int| 0 <= k < post.len() implies (#[trigger] post[k]).wf() by {
        let k0 = if k < i { k } else { k + 1 };
        assert(post[k] == s[k0]);
        assert(s[k0].wf());
    }
    let m1 = spec_sessions_map(post);
    let m2 = spec_sessions_map(s).remove(g);
    assert forall|k: u64| m1.dom().contains(k) <==> m2.dom().contains(k) by {
        if spec_has_guild(post, k) {
            let w = choose|w: int| 0 <= w < post.len() && post[w].guild_id == k;
            let w0 = if w < i { w } else { w + 1 };
            assert(post[w] == s[w0]);
            assert(spec_has_guild(s, k));
            if k == g {
                assert(s[w0].guild_id == s[i].guild_id && w0 != i);
                assert(false);
            }
        }
        if spec_has_guild(s, k) && k != g {
            let w = choose|w: int| 0 <= w < s.len() && s[w].guild_id == k;
            assert(w != i);
            let w1 = if w < i { w } else { w - 1 };
            assert(post[w1] == s[w]);
            assert(spec_has_guild(post, k));
        }
    }
    assert forall|k: u64| m1.dom().contains(k) implies m1[k] == m2[k] by {
        let w = spec_index_of(post, k);
        assert(0 <= w < post.len() && post[w].guild_id == k);
        let w0 = if w < i { w } else { w + 1 };
        assert(post[w] == s[w0]);
        lemma_view_at(post, w);
        lemma_view_at(s, w0);
    }
    assert(m1 =~= m2);
}

/// Appending a slot for a guild not yet served adds exactly that guild's
/// entry to the map.
proof fn lemma_view_push(s: Seq<VoiceSession>, v: VoiceSession)
    requires
        spec_distinct_guilds(s),
        spec_all_wf(s),
        !spec_has_guild(s, v.guild_id),
        v.wf(),
    ensures
        spec_distinct_guilds(s.push(v)),
        spec_all_wf(s.push(v)),
        spec_sessions_map(s.push(v)) == spec_sessions_map(s).insert(v.guild_id, v),
{
    let post = s.push(v);
    let g = v.guild_id;
    let n = s.len() as int;
    assert forall|a: int, b: int| 0 <= a < b < post.len() implies post[a].guild_id
        != post[b].guild_id by {
        if b < n {
            assert(s[a].guild_id != s[b].guild_id);
        } else {
            assert(post[b] == v);
            assert(post[a] == s[a]);
            if s[a].guild_id == g {
                assert(spec_has_guild(s, g));
            }
        }
    }
    assert forall|k: int| 0 <= k < post.len() implies (#[trigger] post[k]).wf() by {
        if k < n {
            assert(post[k] == s[k]);
            assert(s[k].wf());
        } else {
            assert(post[k] == v);
        }
    }
    let m1 = spec_sessions_map(post);
    let m2 = spec_sessions_map(s).insert(g, v);
    assert forall|k: u64| m1.dom().contains(k) <==> m2.dom().contains(k) by {
        if spec_has_guild(post, k) {
            let w = choose|w: int| 0 <= w < post.len() && post[w].guild_id == k;
            if w < n {
                assert(s[w].guild_id == k);
                assert(spec_has_guild(s, k));
            } else {
                assert(post[w] == v);
            }
        }
        if spec_has_guild(s, k) {
            let w = choose|w: int| 0 <= w < s.len() && s[w].guild_id == k;
            assert(post[w] == s[w]);
            assert(spec_has_guild(post, k));
        }
        if k == g {
            assert(post[n] == v);
            assert(spec_has_guild(post, k));
        }
    }
    assert forall|k: u64| m1.dom().contains(k) implies m1[k] == m2[k] by {
        if k == g {
            assert(post[n] == v);
            lemma_view_at(post, n);
        } else {
            let w = spec_index_of(post, k);
            assert(0 <= w < post.len() && post[w].guild_id == k);
            assert(w != n);
            assert(post[w] == s[w]);
            lemma_view_at(post, w);
            lemma_view_at(s, w);
        }
    }
    assert(m1 =~= m2);
}

/// Whether the guild currently has a connected session.
pub open spec fn spec_connected(m: Map<u64, VoiceSession>, g: u64) -> bool {
    m.dom().contains(g) && m[g].state is Connected
}

/// What the command layer must do next after asking to join.
#[derive(Debug)]
pub enum JoinDecision {
    /// Already connected to that very channel: report success; no second
    /// connection and no second set of event subscriptions is made.
    AlreadyConnected,
    /// Issue the platform connect call for the guild's `Connecting`
    /// session, then report the outcome through `join_complete`.
    Connect,
}

/// The process-wide map from guild id to that guild's one voice session.
pub struct SessionRegistry {
    sessions: Vec<VoiceSession>,
}

impl View for SessionRegistry {
    type V = Map<u64, VoiceSession>;

    closed spec fn view(&self) -> Map<u64, VoiceSession> {
        spec_sessions_map(self.sessions@)
    }
}

impl SessionRegistry {
    /// The raw slots behind the map view, for stating slot-level laws.
    pub closed spec fn spec_sessions(&self) -> Seq<VoiceSession> {
        self.sessions@
    }

    /// Well-formedness: no guild is served twice and every session is
    /// itself well-formed.
    pub open spec fn wf(&self) -> bool {
        spec_distinct_guilds(self.spec_sessions()) && spec_all_wf(self.spec_sessions())
    }

    /// At most one session exists per guild: in a well-formed registry two
    /// distinct slots never serve the same guild.
    pub proof fn lemma_one_session_per_guild(&self, i: int, j: int)
        requires
            self.wf(),
            0 <= i < self.spec_sessions().len(),
            0 <= j < self.spec_sessions().len(),
            i != j,
        ensures
            self.spec_sessions()[i].guild_id != self.spec_sessions()[j].guild_id,
    {
    }

    /// Every entry of a well-formed registry is keyed by its session's own
    /// guild id and is well-formed.
    pub proof fn lemma_wf_entries(&self, g: u64)
        requires
            self.wf(),
            self@.dom().contains(g),
        ensures
            self@[g].guild_id == g,
            self@[g].wf(),
    {
        let s = self.spec_sessions();
        let w = spec_index_of(s, g);
        assert(0 <= w < s.len() && s[w].guild_id == g);
        lemma_view_at(s, w);
    }

    pub fn new() -> (r: SessionRegistry)
        ensures
            r.wf(),
            r@ == Map::<u64, VoiceSession>::empty(),
    {
        let r = SessionRegistry { sessions: Vec::new() };
        proof {
            assert(r@ =~= Map::<u64, VoiceSession>::empty());
        }
        r
    }

    /// The slot serving a guild, if any.
    fn find_index(&self, guild_id: u64) -> (r: Option<usize>)
        ensures
            match r {
                Some(i) => i < self.spec_sessions().len() && self.spec_sessions()[i as int].guild_id
                    == guild_id,
                None => !spec_has_guild(self.spec_sessions(), guild_id),
            },
    {
        let mut i: usize = 0;
        while i < self.sessions.len()
            invariant
                0 <= i <= self.spec_sessions().len(),
                forall|k: int|
                    0 <= k < i ==> (#[trigger] self.spec_sessions()[k]).guild_id != guild_id,
            decreases self.spec_sessions().len() - i,
        {
            if self.sessions[i].guild_id == guild_id {
                return Some(i);
            }
            i += 1;
        }
        None
    }

    /// Lookup without creation: the session of a guild, if one exists.
    pub fn get(&self, guild_id: u64) -> (r: Option<&VoiceSession>)
        requires
            self.wf(),
        ensures
            r is Some <==> self@.dom().contains(guild_id),
            match r {
                Some(s) => *s == self@[guild_id],
                None => true,
            },
    {
        match self.find_index(guild_id) {
            None => {
                proof {
                    lemma_view_absent(self.spec_sessions(), guild_id);
                }
                None
            },
            Some(i) => {
                proof {
                    lemma_view_at(self.spec_sessions(), i as int);
                }
                Some(&self.sessions[i])
            },
        }
    }

    /// Asks to join a voice channel.  The only path that may create a
    /// session: a guild without one gets a fresh `Connecting` session that
    /// holds the admission slot while the connect call is in flight, so a
    /// concurrent second `join` is refused rather than doubling the
    /// connection.  A `join` while already connected to the same channel
    /// succeeds at once and changes nothing.
    pub fn join_request(&mut self, guild_id: u64, voice_channel_id: u64, text_channel_id: u64) -> (
        r: Result<JoinDecision, SunnyError>)
        requires
            old(self).wf(),
        ensures
            final(self).wf(),
            r is Err <==> (old(self)@.dom().contains(guild_id)
                && old(self)@[guild_id].state is Connecting),
            r == Ok::<JoinDecision, SunnyError>(JoinDecision::AlreadyConnected) <==> (old(
                self,
            )@.dom().contains(guild_id)
                && old(self)@[guild_id].state is Connected
                && old(self)@[guild_id].voice_channel_id == voice_channel_id),
            match r {
                Ok(JoinDecision::AlreadyConnected) => final(self)@ == old(self)@,
                Ok(JoinDecision::Connect) => ({
                    let post = final(self)@[guild_id];
                    final(self)@ == old(self)@.insert(guild_id, post) && post.guild_id == guild_id
                        && post.state is Connecting && post.voice_channel_id == voice_channel_id
                        && post.text_channel_id == text_channel_id && post.queue@ == (
                    if old(self)@.dom().contains(guild_id) {
                        old(self)@[guild_id].queue@
                    } else {
                        Seq::<Track>::empty()
                    })
                }),
                Err(e) => final(self)@ == old(self)@ && e is User && e.spec_user_msg() == Some(
                    "Already connecting to a voice channel"@,
                ),
            },
    {
        match self.find_index(guild_id) {
            None => {
                proof {
                    lemma_view_absent(self.spec_sessions(), guild_id);
                }
                let ghost pre = self.sessions@;
                let s = VoiceSession::connecting(guild_id, voice_channel_id, text_channel_id);
                self.sessions.push(s);
                proof {
                    lemma_view_push(pre, self.sessions@[pre.len() as int]);
                }
                Ok(JoinDecision::Connect)
            },
            Some(i) => {
                proof {
                    lemma_view_at(self.spec_sessions(), i as int);
                }
                if self.sessions[i].state == ConnState::Connecting {
                    Err(SunnyError::user("Already connecting to a voice channel"))
                } else if self.sessions[i].voice_channel_id == voice_channel_id {
                    Ok(JoinDecision::AlreadyConnected)
                } else {
                    let ghost pre = self.sessions@;
                    let mut s = self.sessions.remove(i);
                    s.state = ConnState::Connecting;
                    s.voice_channel_id = voice_channel_id;
                    s.text_channel_id = text_channel_id;
                    self.sessions.insert(i, s);
                    proof {
                        assert(self.sessions@ =~= pre.update(
                            i as int,
                            self.sessions@[i as int],
                        ));
                        lemma_view_update(pre, i as int, self.sessions@[i as int]);
                    }
                    Ok(JoinDecision::Connect)
                }
            },
        }
    }

    /// Reports the outcome of the platform connect call issued for a
    /// `Connecting` session.  Success makes the session `Connected` with
    /// fresh event subscriptions; failure removes the session again, so no
    /// partial state stays behind, and surfaces a user-facing summary with
    /// the raw cause for the log.
    pub fn join_complete(&mut self, guild_id: u64, connected: bool, cause: &str) -> (r: Result<
        (),
        SunnyError,
    >)
        requires
            old(self).wf(),
        ensures
            final(self).wf(),
            r is Ok <==> (old(self)@.dom().contains(guild_id)
                && old(self)@[guild_id].state is Connecting && connected),
            match r {
                Ok(()) => ({
                    let post = final(self)@[guild_id];
                    final(self)@ == old(self)@.insert(guild_id, post) && post == (VoiceSession {
                        state: ConnState::Connected,
                        idle_ticks: 0,
                        ..old(self)@[guild_id]
                    })
                }),
                Err(e) => if old(self)@.dom().contains(guild_id)
                    && old(self)@[guild_id].state is Connecting {
                    final(self)@ == old(self)@.remove(guild_id) && e is UserAndLog
                        && e.spec_user_msg() == Some("Failed to join channel"@)
                        && e.spec_log_msg() == Some(cause@)
                } else {
                    final(self)@ == old(self)@ && e is Log && e.spec_log_msg() == Some(
                        "no connect attempt in flight"@,
                    )
                },
            },
    {
        match self.find_index(guild_id) {
            None => {
                proof {
                    lemma_view_absent(self.spec_sessions(), guild_id);
                }
                Err(SunnyError::log("no connect attempt in flight"))
            },
            Some(i) => {
                proof {
                    lemma_view_at(self.spec_sessions(), i as int);
                }
                if self.sessions[i].state == ConnState::Connected {
                    Err(SunnyError::log("no connect attempt in flight"))
                } else if connected {
                    let ghost pre = self.sessions@;
                    let mut s = self.sessions.remove(i);
                    s.mark_connected();
                    self.sessions.insert(i, s);
                    proof {
                        assert(self.sessions@ =~= pre.update(
                            i as int,
                            self.sessions@[i as int],
                        ));
                        lemma_view_update(pre, i as int, self.sessions@[i as int]);
                    }
                    Ok(())
                } else {
                    let ghost pre = self.sessions@;
                    let _ = self.sessions.remove(i);
                    proof {
                        lemma_view_remove(pre, i as int);
                    }
                    Err(SunnyError::user_and_log("Failed to join channel", cause))
                }
            },
        }
    }

    /// Tears the guild's session down: the connection is released and the
    /// queue discarded.  Idle timeout and forced disconnects converge on
    /// this same removal.  On an already-disconnected guild it reports a
    /// log-only error and changes nothing further.
    pub fn leave(&mut self, guild_id: u64) -> (r: Result<(), SunnyError>)
        requires
            old(self).wf(),
        ensures
            final(self).wf(),
            r is Ok <==> old(self)@.dom().contains(guild_id),
            match r {
                Ok(()) => final(self)@ == old(self)@.remove(guild_id),
                Err(e) => final(self)@ == old(self)@ && e is Log && e.spec_log_msg() == Some(
                    "no active session"@,
                ),
            },
    {
        match self.find_index(guild_id) {
            None => {
                proof {
                    lemma_view_absent(self.spec_sessions(), guild_id);
                }
                Err(SunnyError::log("no active session"))
            },
            Some(i) => {
                let ghost pre = self.sessions@;
                proof {
                    lemma_view_at(pre, i as int);
                }
                let _ = self.sessions.remove(i);
                proof {
                    lemma_view_remove(pre, i as int);
                }
                Ok(())
            },
        }
    }

    /// Validates a `play` request before any stream is opened: the guild
    /// must have a connected session and the text must parse as an
    /// absolute URL.  The two rejections are distinct user errors, and
    /// neither creates a session as a side effect.
    pub fn play_request(&self, guild_id: u64, url: &str) -> (r: Result<(), SunnyError>)
        requires
            self.wf(),
        ensures
            r is Ok <==> (spec_connected(self@, guild_id) && is_absolute_url(url@)),
            match r {
                Ok(()) => true,
                Err(e) => e is User && e.spec_user_msg() == Some(
                    if !spec_connected(self@, guild_id) {
                        "Not currently in a call"@
                    } else {
                        "Must provide a valid URL"@
                    },
                ),
            },
    {
        match self.find_index(guild_id) {
            None => {
                proof {
                    lemma_view_absent(self.spec_sessions(), guild_id);
                }
                Err(SunnyError::user("Not currently in a call"))
            },
            Some(i) => {
                proof {
                    lemma_view_at(self.spec_sessions(), i as int);
                }
                if self.sessions[i].state == ConnState::Connecting {
                    Err(SunnyError::user("Not currently in a call"))
                } else if !parses_as_url(url) {
                    Err(SunnyError::user("Must provide a valid URL"))
                } else {
                    Ok(())
                }
            },
        }
    }

    /// Enqueues a freshly opened track for a connected guild and returns
    /// the new queue length.  With the queue previously empty the track
    /// stands at index 0, so its playback begins at once.
    pub fn play_enqueue(&mut self, guild_id: u64, t: Track, at: EnqueueAt) -> (r: Result<
        usize,
        SunnyError,
    >)
        requires
            old(self).wf(),
        ensures
            final(self).wf(),
            r is Ok <==> spec_connected(old(self)@, guild_id),
            match r {
                Ok(n) => ({
                    let pre = old(self)@[guild_id];
                    let post = final(self)@[guild_id];
                    final(self)@ == old(self)@.insert(guild_id, post) && same_routing(post, pre)
                        && post.state is Connected && post.queue@ == spec_enqueue(
                        pre.queue@,
                        t,
                        at,
                    ) && post.paused == pre.paused && post.idle_ticks == pre.idle_ticks && n
                        == pre.queue@.len() + 1 && post.queue@[0] == (if pre.queue@.len() == 0 {
                        t
                    } else {
                        pre.queue@[0]
                    })
                }),
                Err(e) => final(self)@ == old(self)@ && e is User && e.spec_user_msg() == Some(
                    "Not currently in a call"@,
                ),
            },
    {
        match self.find_index(guild_id) {
            None => {
                proof {
                    lemma_view_absent(self.spec_sessions(), guild_id);
                }
                Err(SunnyError::user("Not currently in a call"))
            },
            Some(i) => {
                proof {
                    lemma_view_at(self.spec_sessions(), i as int);
                }
                if self.sessions[i].state == ConnState::Connecting {
                    Err(SunnyError::user("Not currently in a call"))
                } else {
                    let ghost pre = self.sessions@;
                    let mut s = self.sessions.remove(i);
                    let n = s.play_enqueue(t, at);
                    self.sessions.insert(i, s);
                    proof {
                        assert(self.sessions@ =~= pre.update(
                            i as int,
                            self.sessions@[i as int],
                        ));
                        lemma_view_update(pre, i as int, self.sessions@[i as int]);
                    }
                    Ok(n)
                }
            },
        }
    }

    /// Advances a connected guild past its current track and returns the
    /// remaining queue length; emptying the queue simply stops playback
    /// and leaves the session connected.
    pub fn skip(&mut self, guild_id: u64) -> (r: Result<usize, SunnyError>)
        requires
            old(self).wf(),
        ensures
            final(self).wf(),
            r is Ok <==> spec_connected(old(self)@, guild_id),
            match r {
                Ok(n) => ({
                    let pre = old(self)@[guild_id];
                    let post = final(self)@[guild_id];
                    final(self)@ == old(self)@.insert(guild_id, post) && same_routing(post, pre)
                        && post.state is Connected && post.queue@ == (if pre.queue@.len() == 0 {
                        pre.queue@
                    } else {
                        pre.queue@.drop_first()
                    }) && !post.paused && post.idle_ticks == pre.idle_ticks && n
                        == post.queue@.len()
                }),
                Err(e) => final(self)@ == old(self)@ && e is User && e.spec_user_msg() == Some(
                    "Not currently in a call"@,
                ),
            },
    {
        match self.find_index(guild_id) {
            None => {
                proof {
                    lemma_view_absent(self.spec_sessions(), guild_id);
                }
                Err(SunnyError::user("Not currently in a call"))
            },
            Some(i) => {
                proof {
                    lemma_view_at(self.spec_sessions(), i as int);
                }
                if self.sessions[i].state == ConnState::Connecting {
                    Err(SunnyError::user("Not currently in a call"))
                } else {
                    let ghost pre = self.sessions@;
                    let mut s = self.sessions.remove(i);
                    let n = s.skip();
                    self.sessions.insert(i, s);
                    proof {
                        assert(self.sessions@ =~= pre.update(
                            i as int,
                            self.sessions@[i as int],
                        ));
                        lemma_view_update(pre, i as int, self.sessions@[i as int]);
                    }
                    Ok(n)
                }
            },
        }
    }

    /// Clears a connected guild's whole queue and halts playback.
    pub fn stop(&mut self, guild_id: u64) -> (r: Result<(), SunnyError>)
        requires
            old(self).wf(),
        ensures
            final(self).wf(),
            r is Ok <==> spec_connected(old(self)@, guild_id),
            match r {
                Ok(()) => ({
                    let pre = old(self)@[guild_id];
                    let post = final(self)@[guild_id];
                    final(self)@ == old(self)@.insert(guild_id, post) && same_routing(post, pre)
                        && post.state is Connected && post.queue@.len() == 0 && !post.paused
                        && post.idle_ticks == pre.idle_ticks
                }),
                Err(e) => final(self)@ == old(self)@ && e is User && e.spec_user_msg() == Some(
                    "Not currently in a call"@,
                ),
            },
    {
        match self.find_index(guild_id) {
            None => {
                proof {
                    lemma_view_absent(self.spec_sessions(), guild_id);
                }
                Err(SunnyError::user("Not currently in a call"))
            },
            Some(i) => {
                proof {
                    lemma_view_at(self.spec_sessions(), i as int);
                }
                if self.sessions[i].state == ConnState::Connecting {
                    Err(SunnyError::user("Not currently in a call"))
                } else {
                    let ghost pre = self.sessions@;
                    let mut s = self.sessions.remove(i);
                    s.stop();
                    self.sessions.insert(i, s);
                    proof {
                        assert(self.sessions@ =~= pre.update(
                            i as int,
                            self.sessions@[i as int],
                        ));
                        lemma_view_update(pre, i as int, self.sessions@[i as int]);
                    }
                    Ok(())
                }
            },
        }
    }

    /// Pauses the current track of a connected guild.
    pub fn pause(&mut self, guild_id: u64) -> (r: Result<(), SunnyError>)
        requires
            old(self).wf(),
        ensures
            final(self).wf(),
            r is Ok <==> (spec_connected(old(self)@, guild_id) && old(
                self,
            )@[guild_id].queue@.len() > 0),
            match r {
                Ok(()) => ({
                    let pre = old(self)@[guild_id];
                    let post = final(self)@[guild_id];
                    final(self)@ == old(self)@.insert(guild_id, post) && same_routing(post, pre)
                        && post.state is Connected && post.queue@ == pre.queue@ && post.paused
                        && post.idle_ticks == pre.idle_ticks
                }),
                Err(e) => final(self)@ == old(self)@ && e is User && e.spec_user_msg() == Some(
                    if !spec_connected(old(self)@, guild_id) {
                        "Not currently in a call"@
                    } else {
                        "No track playing"@
                    },
                ),
            },
    {
        match self.find_index(guild_id) {
            None => {
                proof {
                    lemma_view_absent(self.spec_sessions(), guild_id);
                }
                Err(SunnyError::user("Not currently in a call"))
            },
            Some(i) => {
                proof {
                    lemma_view_at(self.spec_sessions(), i as int);
                }
                if self.sessions[i].state == ConnState::Connecting {
                    Err(SunnyError::user("Not currently in a call"))
                } else {
                    let ghost pre = self.sessions@;
                    let mut s = self.sessions.remove(i);
                    let res = s.pause();
                    self.sessions.insert(i, s);
                    proof {
                        assert(self.sessions@ =~= pre.update(
                            i as int,
                            self.sessions@[i as int],
                        ));
                        lemma_view_update(pre, i as int, self.sessions@[i as int]);
                        if res is Err {
                            assert(pre.update(i as int, pre[i as int]) =~= pre);
                            assert(old(self)@.insert(guild_id, old(self)@[guild_id]) =~= old(
                                self,
                            )@);
                        }
                    }
                    res
                }
            },
        }
    }

    /// Resumes the current track of a connected guild.
    pub fn resume(&mut self, guild_id: u64) -> (r: Result<(), SunnyError>)
        requires
            old(self).wf(),
        ensures
            final(self).wf(),
            r is Ok <==> (spec_connected(old(self)@, guild_id) && old(
                self,
            )@[guild_id].queue@.len() > 0),
            match r {
                Ok(()) => ({
                    let pre = old(self)@[guild_id];
                    let post = final(self)@[guild_id];
                    final(self)@ == old(self)@.insert(guild_id, post) && same_routing(post, pre)
                        && post.state is Connected && post.queue@ == pre.queue@ && !post.paused
                        && post.idle_ticks == pre.idle_ticks
                }),
                Err(e) => final(self)@ == old(self)@ && e is User && e.spec_user_msg() == Some(
                    if !spec_connected(old(self)@, guild_id) {
                        "Not currently in a call"@
                    } else {
                        "No track playing"@
                    },
                ),
            },
    {
        match self.find_index(guild_id) {
            None => {
                proof {
                    lemma_view_absent(self.spec_sessions(), guild_id);
                }
                Err(SunnyError::user("Not currently in a call"))
            },
            Some(i) => {
                proof {
                    lemma_view_at(self.spec_sessions(), i as int);
                }
                if self.sessions[i].state == ConnState::Connecting {
                    Err(SunnyError::user("Not currently in a call"))
                } else {
                    let ghost pre = self.sessions@;
                    let mut s = self.sessions.remove(i);
                    let res = s.resume();
                    self.sessions.insert(i, s);
                    proof {
                        assert(self.sessions@ =~= pre.update(
                            i as int,
                            self.sessions@[i as int],
                        ));
                        lemma_view_update(pre, i as int, self.sessions@[i as int]);
                        if res is Err {
                            assert(pre.update(i as int, pre[i as int]) =~= pre);
                            assert(old(self)@.insert(guild_id, old(self)@[guild_id]) =~= old(
                                self,
                            )@);
                        }
                    }
                    res
                }
            },
        }
    }

    /// A track of the guild finished playing: the queue advances and the
    /// finished track comes back, for the event layer to dispose of.
    pub fn track_ended(&mut self, guild_id: u64) -> (r: Result<Option<Track>, SunnyError>)
        requires
            old(self).wf(),
        ensures
            final(self).wf(),
            r is Ok <==> old(self)@.dom().contains(guild_id),
            match r {
                Ok(popped) => ({
                    let pre = old(self)@[guild_id];
                    let post = final(self)@[guild_id];
                    final(self)@ == old(self)@.insert(guild_id, post) && same_routing(post, pre)
                        && post.state == pre.state && !post.paused && post.idle_ticks
                        == pre.idle_ticks && (pre.queue@.len() == 0 ==> popped is None
                        && post.queue@ == pre.queue@) && (pre.queue@.len() > 0 ==> popped == Some(
                        pre.queue@[0],
                    ) && post.queue@ == pre.queue@.drop_first())
                }),
                Err(e) => final(self)@ == old(self)@ && e is Log && e.spec_log_msg() == Some(
                    "no active session"@,
                ),
            },
    {
        match self.find_index(guild_id) {
            None => {
                proof {
                    lemma_view_absent(self.spec_sessions(), guild_id);
                }
                Err(SunnyError::log("no active session"))
            },
            Some(i) => {
                proof {
                    lemma_view_at(self.spec_sessions(), i as int);
                }
                let ghost pre = self.sessions@;
                let mut s = self.sessions.remove(i);
                let popped = s.track_ended();
                self.sessions.insert(i, s);
                proof {
                    assert(self.sessions@ =~= pre.update(i as int, self.sessions@[i as int]));
                    lemma_view_update(pre, i as int, self.sessions@[i as int]);
                }
                Ok(popped)
            },
        }
    }

    /// Removes the track at a non-zero queue position of a connected
    /// guild; the playing track itself cannot be removed this way.
    pub fn remove_track(&mut self, guild_id: u64, index: usize) -> (r: Result<Track, SunnyError>)
        requires
            old(self).wf(),
        ensures
            final(self).wf(),
            r is Ok <==> (spec_connected(old(self)@, guild_id) && 1 <= index < old(
                self,
            )@[guild_id].queue@.len()),
            match r {
                Ok(t) => ({
                    let pre = old(self)@[guild_id];
                    let post = final(self)@[guild_id];
                    final(self)@ == old(self)@.insert(guild_id, post) && same_routing(post, pre)
                        && post.state is Connected && t == pre.queue@[index as int] && post.queue@
                        == pre.queue@.remove(index as int) && post.paused == pre.paused
                        && post.idle_ticks == pre.idle_ticks
                }),
                Err(e) => final(self)@ == old(self)@ && e is User && e.spec_user_msg() == Some(
                    if !spec_connected(old(self)@, guild_id) {
                        "Not currently in a call"@
                    } else if index == 0 {
                        "A song index of 0 is invalid (The queue starts at 1)"@
                    } else {
                        "Nothing to remove..."@
                    },
                ),
            },
    {
        match self.find_index(guild_id) {
            None => {
                proof {
                    lemma_view_absent(self.spec_sessions(), guild_id);
                }
                Err(SunnyError::user("Not currently in a call"))
            },
            Some(i) => {
                proof {
                    lemma_view_at(self.spec_sessions(), i as int);
                }
                if self.sessions[i].state == ConnState::Connecting {
                    Err(SunnyError::user("Not currently in a call"))
                } else {
                    let ghost pre = self.sessions@;
                    let mut s = self.sessions.remove(i);
                    let res = s.queue.remove_at(index);
                    self.sessions.insert(i, s);
                    proof {
                        assert(self.sessions@ =~= pre.update(
                            i as int,
                            self.sessions@[i as int],
                        ));
                        lemma_view_update(pre, i as int, self.sessions@[i as int]);
                        if res is Err {
                            assert(pre.update(i as int, pre[i as int]) =~= pre);
                            assert(old(self)@.insert(guild_id, old(self)@[guild_id]) =~= old(
                                self,
                            )@);
                        }
                    }
                    res
                }
            },
        }
    }

    /// Exchanges two non-zero queue positions of a connected guild and
    /// returns the pair now standing there.
    pub fn swap_tracks(&mut self, guild_id: u64, a: usize, b: usize) -> (r: Result<
        (Track, Track),
        SunnyError,
    >)
        requires
            old(self).wf(),
        ensures
            final(self).wf(),
            r is Ok <==> (spec_connected(old(self)@, guild_id) && 1 <= a < old(
                self,
            )@[guild_id].queue@.len() && 1 <= b < old(self)@[guild_id].queue@.len()),
            match r {
                Ok(p) => ({
                    let pre = old(self)@[guild_id];
                    let post = final(self)@[guild_id];
                    final(self)@ == old(self)@.insert(guild_id, post) && same_routing(post, pre)
                        && post.state is Connected && post.queue@ == pre.queue@.update(
                        a as int,
                        pre.queue@[b as int],
                    ).update(b as int, pre.queue@[a as int]) && p.0 == pre.queue@[b as int] && p.1
                        == pre.queue@[a as int] && post.paused == pre.paused && post.idle_ticks
                        == pre.idle_ticks
                }),
                Err(e) => final(self)@ == old(self)@ && e is User && e.spec_user_msg() == Some(
                    if !spec_connected(old(self)@, guild_id) {
                        "Not currently in a call"@
                    } else if a == 0 || b == 0 {
                        "A song index of 0 is invalid (The queue starts at 1)"@
                    } else {
                        "Can't swap non-existing index"@
                    },
                ),
            },
    {
        match self.find_index(guild_id) {
            None => {
                proof {
                    lemma_view_absent(self.spec_sessions(), guild_id);
                }
                Err(SunnyError::user("Not currently in a call"))
            },
            Some(i) => {
                proof {
                    lemma_view_at(self.spec_sessions(), i as int);
                }
                if self.sessions[i].state == ConnState::Connecting {
                    Err(SunnyError::user("Not currently in a call"))
                } else {
                    let ghost pre = self.sessions@;
                    let mut s = self.sessions.remove(i);
                    let res = s.queue.swap(a, b);
                    self.sessions.insert(i, s);
                    proof {
                        assert(self.sessions@ =~= pre.update(
                            i as int,
                            self.sessions@[i as int],
                        ));
                        lemma_view_update(pre, i as int, self.sessions@[i as int]);
                        if res is Err {
                            assert(pre.update(i as int, pre[i as int]) =~= pre);
                            assert(old(self)@.insert(guild_id, old(self)@[guild_id]) =~= old(
                                self,
                            )@);
                        }
                    }
                    res
                }
            },
        }
    }

    /// Randomizes the order of everything queued after the playing track
    /// of a connected guild; index 0 never moves and the contents stay the
    /// same as a multiset.
    pub fn shuffle(&mut self, guild_id: u64) -> (r: Result<(), SunnyError>)
        requires
            old(self).wf(),
        ensures
            final(self).wf(),
            r is Ok <==> spec_connected(old(self)@, guild_id),
            match r {
                Ok(()) => ({
                    let pre = old(self)@[guild_id];
                    let post = final(self)@[guild_id];
                    final(self)@ == old(self)@.insert(guild_id, post) && same_routing(post, pre)
                        && post.state is Connected && post.queue@.len() == pre.queue@.len() && (
                    pre.queue@.len() > 0 ==> post.queue@[0] == pre.queue@[0])
                        && post.queue@.to_multiset() == pre.queue@.to_multiset() && post.paused
                        == pre.paused && post.idle_ticks == pre.idle_ticks
                }),
                Err(e) => final(self)@ == old(self)@ && e is User && e.spec_user_msg() == Some(
                    "Not currently in a call"@,
                ),
            },
    {
        match self.find_index(guild_id) {
            None => {
                proof {
                    lemma_view_absent(self.spec_sessions(), guild_id);
                }
                Err(SunnyError::user("Not currently in a call"))
            },
            Some(i) => {
                proof {
                    lemma_view_at(self.spec_sessions(), i as int);
                }
                if self.sessions[i].state == ConnState::Connecting {
                    Err(SunnyError::user("Not currently in a call"))
                } else {
                    let ghost pre = self.sessions@;
                    let mut s = self.sessions.remove(i);
                    let mut rng = fresh_small_rng();
                    s.queue.shuffle(&mut rng);
                    self.sessions.insert(i, s);
                    proof {
                        assert(self.sessions@ =~= pre.update(
                            i as int,
                            self.sessions@[i as int],
                        ));
                        lemma_view_update(pre, i as int, self.sessions@[i as int]);
                    }
                    Ok(())
                }
            },
        }
    }

    /// The read-only paged queue view of a guild with a session.
    pub fn queue_page(&self, guild_id: u64, page: usize) -> (r: Result<QueuePage, SunnyError>)
        requires
            self.wf(),
        ensures
            r is Ok <==> self@.dom().contains(guild_id),
            match r {
                Ok(p) => ({
                    let q = self@[guild_id].queue@;
                    p.total_pages == q.len() as int / PAGE_SIZE as int + 1 && p.total_secs
                        == spec_saturate_u64(spec_total_secs(q)) && ({
                        let lo = if PAGE_SIZE * page > q.len() {
                            q.len() as int
                        } else {
                            PAGE_SIZE * page
                        };
                        let hi = if PAGE_SIZE * page + PAGE_SIZE > q.len() {
                            q.len() as int
                        } else {
                            PAGE_SIZE * page + PAGE_SIZE
                        };
                        p.entries@ == q.subrange(lo, hi)
                    })
                }),
                Err(e) => e is User && e.spec_user_msg() == Some("Not currently in a call"@),
            },
    {
        match self.find_index(guild_id) {
            None => {
                proof {
                    lemma_view_absent(self.spec_sessions(), guild_id);
                }
                Err(SunnyError::user("Not currently in a call"))
            },
            Some(i) => {
                proof {
                    lemma_view_at(self.spec_sessions(), i as int);
                }
                Ok(self.sessions[i].queue.page(page))
            },
        }
    }

    /// The now-playing snapshot of a guild with a session, paired with the
    /// elapsed playing time the audio collaborator reported.
    pub fn now_playing(&self, guild_id: u64, elapsed_secs: u64) -> (r: Result<
        NowPlaying,
        SunnyError,
    >)
        requires
            self.wf(),
        ensures
            r is Ok <==> (self@.dom().contains(guild_id) && self@[guild_id].queue@.len() > 0),
            match r {
                Ok(np) => ({
                    let q = self@[guild_id].queue@;
                    np.current == q[0] && np.elapsed_secs == elapsed_secs && np.next == (if q.len()
                        > 1 {
                        Some(q[1])
                    } else {
                        None::<Track>
                    })
                }),
                Err(e) => e is User && e.spec_user_msg() == Some(
                    if !self@.dom().contains(guild_id) {
                        "Not currently in a call"@
                    } else {
                        "No song playing"@
                    },
                ),
            },
    {
        match self.find_index(guild_id) {
            None => {
                proof {
                    lemma_view_absent(self.spec_sessions(), guild_id);
                }
                Err(SunnyError::user("Not currently in a call"))
            },
            Some(i) => {
                proof {
                    lemma_view_at(self.spec_sessions(), i as int);
                }
                self.sessions[i].now_playing_snapshot(elapsed_secs)
            },
        }
    }

    /// One idle-watchdog tick for a guild.  A human present resets the
    /// counter; the bot alone raises it; the fifth consecutive idle tick
    /// removes the session — the same teardown `leave` takes — and the
    /// watchdog then stops.  A tick for a guild whose session is already
    /// gone reports a log-only error, so a stale watchdog stops cleanly.
    pub fn idle_tick(&mut self, guild_id: u64, alone: bool) -> (r: Result<IdleTick, SunnyError>)
        requires
            old(self).wf(),
        ensures
            final(self).wf(),
            r is Ok <==> old(self)@.dom().contains(guild_id),
            match r {
                Ok(tick) => ({
                    let pre = old(self)@[guild_id];
                    match tick {
                        IdleTick::Occupied => !alone && ({
                            let post = final(self)@[guild_id];
                            final(self)@ == old(self)@.insert(guild_id, post) && same_routing(
                                post,
                                pre,
                            ) && post.state == pre.state && post.queue@ == pre.queue@ && post.paused
                                == pre.paused && post.idle_ticks == 0
                        }),
                        IdleTick::CountedTo(k) => alone && pre.idle_ticks + 1 < IDLE_THRESHOLD && k
                            == pre.idle_ticks + 1 && ({
                            let post = final(self)@[guild_id];
                            final(self)@ == old(self)@.insert(guild_id, post) && same_routing(
                                post,
                                pre,
                            ) && post.state == pre.state && post.queue@ == pre.queue@ && post.paused
                                == pre.paused && post.idle_ticks == k
                        }),
                        IdleTick::TimedOut => alone && pre.idle_ticks + 1 >= IDLE_THRESHOLD
                            && final(self)@ == old(self)@.remove(guild_id),
                    }
                }),
                Err(e) => final(self)@ == old(self)@ && e is Log && e.spec_log_msg() == Some(
                    "no active session"@,
                ),
            },
    {
        match self.find_index(guild_id) {
            None => {
                proof {
                    lemma_view_absent(self.spec_sessions(), guild_id);
                }
                Err(SunnyError::log("no active session"))
            },
            Some(i) => {
                proof {
                    lemma_view_at(self.spec_sessions(), i as int);
                }
                let ghost pre = self.sessions@;
                let mut s = self.sessions.remove(i);
                match s.note_idle_tick(alone) {
                    IdleTick::TimedOut => {
                        proof {
                            lemma_view_remove(pre, i as int);
                        }
                        Ok(IdleTick::TimedOut)
                    },
                    IdleTick::Occupied => {
                        self.sessions.insert(i, s);
                        proof {
                            assert(self.sessions@ =~= pre.update(
                                i as int,
                                self.sessions@[i as int],
                            ));
                            lemma_view_update(pre, i as int, self.sessions@[i as int]);
                        }
                        Ok(IdleTick::Occupied)
                    },
                    IdleTick::CountedTo(k) => {
                        self.sessions.insert(i, s);
                        proof {
                            assert(self.sessions@ =~= pre.update(
                                i as int,
                                self.sessions@[i as int],
                            ));
                            lemma_view_update(pre, i as int, self.sessions@[i as int]);
                        }
                        Ok(IdleTick::CountedTo(k))
                    },
                }
            },
        }
    }
}

/// The combined error for a stream that failed to open: the user-safe
/// summary `play` shows and the raw cause for the operator log.
pub fn stream_open_error(cause: &str) -> (e: SunnyError)
    ensures
        e is UserAndLog,
        e.spec_user_msg() == Some("Error starting stream"@),
        e.spec_log_msg() == Some("Error sourcing ffmpeg "@ + cause@),
{
    let log = String::from_str("Error sourcing ffmpeg ").concat(cause);
    SunnyError::UserAndLog { user: "Error starting stream".to_owned(), log }
}

} // verus!
