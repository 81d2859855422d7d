//! The per-guild voice session: one live connection, its queue, its pause
//! flag, and the idle counter of the watchdog.
//!
//! A guild with no session is disconnected.  A session is created in
//! `Connecting` while the platform connect call is in flight and becomes
//! `Connected` on success; a failed connect removes it again, leaving no
//! partial state behind.  All mutation of a guild's queue and connection
//! passes through its one session, and the registry hands out at most one
//! session per guild, so exclusive access to the session serializes the
//! guild's operations.

use vstd::prelude::*;

use crate::error::SunnyError;
use crate::queue::{spec_enqueue, EnqueueAt, Queue};
use crate::track::Track;

verus! {

/// Consecutive idle ticks after which the watchdog disconnects.
pub const IDLE_THRESHOLD: u32 = 5;

/// Seconds between two idle-watchdog ticks.
pub const IDLE_PERIOD_SECS: u64 = 60;

/// Connection state: `Connecting` while the platform connect call is in
/// flight, `Connected` once it succeeded.
#[derive(Clone, Copy, Debug, PartialEq, Eq, Structural)]
pub enum ConnState {
    Connecting,
    Connected,
}

/// What one idle-watchdog tick decided.
#[derive(Debug)]
pub enum IdleTick {
    /// A human is present; the counter was reset to zero.
    Occupied,
    /// The bot is alone; the counter rose to the given value, still below
    /// the threshold.
    CountedTo(u32),
    /// The bot has been alone for the whole grace period: tear the session
    /// down.
    TimedOut,
}

/// The now-playing snapshot: the current track, the elapsed playing time,
/// and the track coming up next.
#[derive(Debug)]
pub struct NowPlaying {
    pub current: Track,
    pub elapsed_secs: u64,
    pub next: Option<Track>,
}

/// One guild's voice session.
pub struct VoiceSession {
    pub guild_id: u64,
    pub voice_channel_id: u64,
    /// Routing destination for notifications.
    pub text_channel_id: u64,
    pub queue: Queue,
    pub state: ConnState,
    /// Whether playback of the current track is paused.
    pub paused: bool,
    /// Consecutive idle-watchdog ticks with no human present.
    pub idle_ticks: u32,
}

/// The fields that name a session stay fixed over its whole life.
pub open spec fn same_routing(a: VoiceSession, b: VoiceSession) -> bool {
    &&& a.guild_id == b.guild_id
    &&& a.voice_channel_id == b.voice_channel_id
    &&& a.text_channel_id == b.text_channel_id
}

impl VoiceSession {
    /// Well-formedness: a paused session has a current track, and the idle
    /// counter stays below the threshold (reaching it tears the session
    /// down).
    pub open spec fn wf(&self) -> bool {
        &&& (self.paused ==> self.queue@.len() > 0)
        &&& self.idle_ticks < IDLE_THRESHOLD
    }

    /// A fresh session for a guild whose connect call was just issued.
    pub fn connecting(guild_id: u64, voice_channel_id: u64, text_channel_id: u64) -> (s:
        VoiceSession)
        ensures
            s.wf(),
            s.guild_id == guild_id,
            s.voice_channel_id == voice_channel_id,
            s.text_channel_id == text_channel_id,
            s.state is Connecting,
            s.queue@.len() == 0,
            s.idle_ticks == 0,
            !s.paused,
    {
        VoiceSession {
            guild_id,
            voice_channel_id,
            text_channel_id,
            queue: Queue::new(),
            state: ConnState::Connecting,
            paused: false,
            idle_ticks: 0,
        }
    }

    /// Marks the in-flight connect as succeeded.  The event subscriptions
    /// are registered afresh at this point, so the idle counter starts
    /// over.
    pub fn mark_connected(&mut self)
        requires
            old(self).wf(),
        ensures
            final(self).wf(),
            *final(self) == (VoiceSession {
                state: ConnState::Connected,
                idle_ticks: 0,
                ..*old(self)
            }),
    {
        self.state = ConnState::Connected;
        self.idle_ticks = 0;
    }

    /// Enqueues a freshly opened track; `Back` appends, `Front` slots it in
    /// right after the playing track.  Returns the new queue length.
    pub fn play_enqueue(&mut self, t: Track, at: EnqueueAt) -> (n: usize)
        requires
            old(self).wf(),
            old(self).state is Connected,
        ensures
            final(self).wf(),
            same_routing(*final(self), *old(self)),
            final(self).state is Connected,
            final(self).queue@ == spec_enqueue(old(self).queue@, t, at),
            final(self).paused == old(self).paused,
            final(self).idle_ticks == old(self).idle_ticks,
            n == old(self).queue@.len() + 1,
            final(self).queue@[0] == if old(self).queue@.len() == 0 {
                t
            } else {
                old(self).queue@[0]
            },
    {
        self.queue.enqueue(t, at)
    }

    /// Advances past the current track; if the queue empties, playback
    /// simply stops and the session stays connected.  Returns the
    /// remaining length.
    pub fn skip(&mut self) -> (n: usize)
        requires
            old(self).wf(),
            old(self).state is Connected,
        ensures
            final(self).wf(),
            same_routing(*final(self), *old(self)),
            final(self).state is Connected,
            final(self).queue@ == if old(self).queue@.len() == 0 {
                old(self).queue@
            } else {
                old(self).queue@.drop_first()
            },
            !final(self).paused,
            final(self).idle_ticks == old(self).idle_ticks,
            n == final(self).queue@.len(),
    {
        let _ = self.queue.pop_current();
        self.paused = false;
        self.queue.len()
    }

    /// The track whose playback just ended is removed; the next one, if
    /// any, becomes current.
    pub fn track_ended(&mut self) -> (r: Option<Track>)
        requires
            old(self).wf(),
        ensures
            final(self).wf(),
            same_routing(*final(self), *old(self)),
            final(self).state == old(self).state,
            final(self).idle_ticks == old(self).idle_ticks,
            !final(self).paused,
            old(self).queue@.len() == 0 ==> r is None && final(self).queue@ == old(self).queue@,
            old(self).queue@.len() > 0 ==> r == Some(old(self).queue@[0]) && final(self).queue@
                == old(self).queue@.drop_first(),
    {
        self.paused = false;
        self.queue.pop_current()
    }

    /// Clears the whole queue and halts playback.
    pub fn stop(&mut self)
        requires
            old(self).wf(),
        ensures
            final(self).wf(),
            same_routing(*final(self), *old(self)),
            final(self).state == old(self).state,
            final(self).idle_ticks == old(self).idle_ticks,
            final(self).queue@.len() == 0,
            !final(self).paused,
    {
        self.queue.clear();
        self.paused = false;
    }

    /// Pauses the current track; with nothing playing it fails with the
    /// user error `No track playing`.
    pub fn pause(&mut self) -> (r: Result<(), SunnyError>)
        requires
            old(self).wf(),
            old(self).state is Connected,
        ensures
            final(self).wf(),
            same_routing(*final(self), *old(self)),
            final(self).state is Connected,
            final(self).queue@ == old(self).queue@,
            final(self).idle_ticks == old(self).idle_ticks,
            r is Ok <==> old(self).queue@.len() > 0,
            r is Ok ==> final(self).paused,
            match r {
                Ok(()) => true,
                Err(e) => *final(self) == *old(self) && e is User && e.spec_user_msg() == Some(
                    "No track playing"@,
                ),
            },
    {
        if self.queue.len() == 0 {
            Err(SunnyError::user("No track playing"))
        } else {
            self.paused = true;
            Ok(())
        }
    }

    /// Resumes the current track; with nothing playing it fails with the
    /// user error `No track playing`.
    pub fn resume(&mut self) -> (r: Result<(), SunnyError>)
        requires
            old(self).wf(),
            old(self).state is Connected,
        ensures
            final(self).wf(),
            same_routing(*final(self), *old(self)),
            final(self).state is Connected,
            final(self).queue@ == old(self).queue@,
            final(self).idle_ticks == old(self).idle_ticks,
            r is Ok <==> old(self).queue@.len() > 0,
            r is Ok ==> !final(self).paused,
            match r {
                Ok(()) => true,
                Err(e) => *final(self) == *old(self) && e is User && e.spec_user_msg() == Some(
                    "No track playing"@,
                ),
            },
    {
        if self.queue.len() == 0 {
            Err(SunnyError::user("No track playing"))
        } else {
            self.paused = false;
            Ok(())
        }
    }

    /// The now-playing snapshot for display: the current track, the
    /// elapsed playing time the audio collaborator reported, and the next
    /// track.  With nothing playing it fails with the user error
    /// `No song playing`.
    pub fn now_playing_snapshot(&self, elapsed_secs: u64) -> (r: Result<NowPlaying, SunnyError>)
        ensures
            r is Ok <==> self.queue@.len() > 0,
            match r {
                Ok(np) => np.current == self.queue@[0] && np.elapsed_secs == elapsed_secs
                    && np.next == if self.queue@.len() > 1 {
                    Some(self.queue@[1])
                } else {
                    None::<Track>
                },
                Err(e) => e is User && e.spec_user_msg() == Some("No song playing"@),
            },
    {
        match self.queue.current() {
            None => Err(SunnyError::user("No song playing")),
            Some(current) => {
                let next = self.queue.peek_next();
                Ok(NowPlaying { current, elapsed_secs, next })
            },
        }
    }

    /// One idle-watchdog tick: a human present resets the counter; the bot
    /// alone raises it, and the fifth consecutive idle tick times the
    /// session out.
    pub fn note_idle_tick(&mut self, alone: bool) -> (r: IdleTick)
        requires
            old(self).wf(),
        ensures
            final(self).wf(),
            same_routing(*final(self), *old(self)),
            final(self).state == old(self).state,
            final(self).queue@ == old(self).queue@,
            final(self).paused == old(self).paused,
            !alone ==> r is Occupied && final(self).idle_ticks == 0,
            alone && old(self).idle_ticks + 1 < IDLE_THRESHOLD ==> r == IdleTick::CountedTo(
                (old(self).idle_ticks + 1) as u32,
            ) && final(self).idle_ticks == old(self).idle_ticks + 1,
            alone && old(self).idle_ticks + 1 >= IDLE_THRESHOLD ==> r is TimedOut
                && final(self).idle_ticks == old(self).idle_ticks,
    {
        if !alone {
            self.idle_ticks = 0;
            IdleTick::Occupied
        } else if self.idle_ticks + 1 < IDLE_THRESHOLD {
            self.idle_ticks = self.idle_ticks + 1;
            IdleTick::CountedTo(self.idle_ticks)
        } else {
            IdleTick::TimedOut
        }
    }
}

} // verus!
