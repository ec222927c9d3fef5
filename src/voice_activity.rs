//! Tracks when each speaker was last heard and reports, once per stretch of
//! speech, the speakers that have gone quiet for the silence timeout.
//!
//! The caller owns the timer: it asks for `next_deadline`, sleeps until
//! then, and calls `poll_silent` with the time it woke up.
use vstd::prelude::*;

verus! {

/// How long a speaker must stay quiet to be reported silent, in ms.
pub const VAD_SILENCE_MS: u64 = 2000;

/// A speaker unheard for this long has its audio dropped, in ms.
pub const DISCARD_USER_AUDIO_AFTER_MS: u64 = 600000;

/// What the monitor knows of one speaker.
#[derive(Clone, Copy, Debug, PartialEq, Eq, Structural)]
pub struct SpeakerActivity {
    pub user_id: u64,
    /// Wall-clock instant of the speaker's latest audio, in ms.
    pub last_heard: u64,
    /// False once the speaker was reported silent, until audio comes again.
    pub speaking: bool,
}

/// Whether `s` holds an entry for `user_id`.
pub open spec fn has_speaker(s: Seq<SpeakerActivity>, user_id: u64) -> bool {
    exists|i: int| 0 <= i < s.len() && s[i].user_id == user_id
}

/// No two entries share a speaker.
pub open spec fn unique_speakers(s: Seq<SpeakerActivity>) -> bool {
    forall|i: int, j: int|
        0 <= i < s.len() && 0 <= j < s.len() && i != j ==> s[i].user_id != s[j].user_id
}

/// The entries after audio from `user_id` arrives at `now`.
pub open spec fn mark_heard(s: Seq<SpeakerActivity>, user_id: u64, now: u64) -> Seq<
    SpeakerActivity,
> {
    let e = SpeakerActivity { user_id, last_heard: now, speaking: true };
    if has_speaker(s, user_id) {
        Seq::new(s.len(), |i: int| if s[i].user_id == user_id { e } else { s[i] })
    } else {
        s.push(e)
    }
}

/// The instant at which a speaking entry falls silent.
pub open spec fn deadline(e: SpeakerActivity, timeout: u64) -> int {
    e.last_heard + timeout
}

/// Whether `e` is to be reported silent at `now`.
pub open spec fn is_due(e: SpeakerActivity, now: u64, timeout: u64) -> bool {
    e.speaking && now >= deadline(e, timeout)
}

pub open spec fn due_pred(now: u64, timeout: u64) -> spec_fn(SpeakerActivity) -> bool {
    |e: SpeakerActivity| is_due(e, now, timeout)
}

/// The speakers reported silent at `now`, in entry order.
pub open spec fn due_ids(s: Seq<SpeakerActivity>, now: u64, timeout: u64) -> Seq<u64> {
    s.filter(due_pred(now, timeout)).map_values(|e: SpeakerActivity| e.user_id)
}

/// The entries after the speakers due at `now` are reported silent.
pub open spec fn silenced(s: Seq<SpeakerActivity>, now: u64, timeout: u64) -> Seq<
    SpeakerActivity,
> {
    Seq::new(
        s.len(),
        |i: int|
            if is_due(s[i], now, timeout) {
                SpeakerActivity { speaking: false, ..s[i] }
            } else {
                s[i]
            },
    )
}

/// Whether `e` has been unheard for at least `limit` at `now`.
pub open spec fn is_idle(e: SpeakerActivity, now: u64, limit: u64) -> bool {
    now >= e.last_heard + limit
}

pub open spec fn idle_pred(now: u64, limit: u64) -> spec_fn(SpeakerActivity) -> bool {
    |e: SpeakerActivity| is_idle(e, now, limit)
}

/// The speakers unheard for at least `limit` at `now`, in entry order.
pub open spec fn idle_ids(s: Seq<SpeakerActivity>, now: u64, limit: u64) -> Seq<u64> {
    s.filter(idle_pred(now, limit)).map_values(|e: SpeakerActivity| e.user_id)
}

/// Per-speaker voice activity.
#[derive(Clone, Debug, PartialEq, Eq)]
pub struct VoiceActivity {
    pub speakers: Vec<SpeakerActivity>,
    pub silence_timeout_ms: u64,
}

impl VoiceActivity {
    pub open spec fn wf(&self) -> bool {
        unique_speakers(self.speakers@)
    }

    /// A monitor that knows no speaker yet.
    pub fn new(silence_timeout_ms: u64) -> (r: VoiceActivity)
        ensures
            r.wf(),
            r.speakers@ == Seq::<SpeakerActivity>::empty(),
            r.silence_timeout_ms == silence_timeout_ms,
    {
        VoiceActivity { speakers: Vec::new(), silence_timeout_ms }
    }

    /// Records audio from `user_id` at `now`.  Returns true when the speaker
    /// was not speaking before: new, or reported silent since.
    pub fn heard(&mut self, user_id: u64, now: u64) -> (started: bool)
        requires
            old(self).wf(),
        ensures
            final(self).wf(),
            final(self).speakers@ == mark_heard(old(self).speakers@, user_id, now),
            final(self).silence_timeout_ms == old(self).silence_timeout_ms,
            started == !exists|i: int|
                0 <= i < old(self).speakers@.len() && old(self).speakers@[i].user_id == user_id
                    && old(self).speakers@[i].speaking,
    {
        let ghost before = self.speakers@;
        let mut i: usize = 0;
        while i < self.speakers.len()
            invariant
                self.wf(),
                self.speakers@ == before,
                before == old(self).speakers@,
                self.silence_timeout_ms == old(self).silence_timeout_ms,
                i <= self.speakers@.len(),
                forall|k: int| 0 <= k < i ==> before[k].user_id != user_id,
            decreases self.speakers@.len() - i,
        {
            if self.speakers[i].user_id == user_id {
                let was_speaking = self.speakers[i].speaking;
                self.speakers.set(i, SpeakerActivity { user_id, last_heard: now, speaking: true });
                proof {
                    assert(has_speaker(before, user_id));
                    assert(self.speakers@ =~= mark_heard(before, user_id, now));
                }
                return !was_speaking;
            }
            i += 1;
        }
        self.speakers.push(SpeakerActivity { user_id, last_heard: now, speaking: true });
        proof {
            assert(!has_speaker(before, user_id));
            assert(self.speakers@ =~= mark_heard(before, user_id, now));
        }
        true
    }

    /// Reports the speakers that were speaking and have been quiet for the
    /// timeout at `now`, and marks them silent, so that each stretch of
    /// speech is reported once.
    pub fn poll_silent(&mut self, now: u64) -> (r: Vec<u64>)
        requires
            old(self).wf(),
        ensures
            final(self).wf(),
            final(self).silence_timeout_ms == old(self).silence_timeout_ms,
            final(self).speakers@ == silenced(
                old(self).speakers@,
                now,
                old(self).silence_timeout_ms,
            ),
            r@ == due_ids(old(self).speakers@, now, old(self).silence_timeout_ms),
    {
        let ghost before = self.speakers@;
        let timeout = self.silence_timeout_ms;
        let mut out: Vec<u64> = Vec::new();
        let mut i: usize = 0;
        while i < self.speakers.len()
            invariant
                timeout == self.silence_timeout_ms,
                self.silence_timeout_ms == old(self).silence_timeout_ms,
                before == old(self).speakers@,
                unique_speakers(before),
                self.speakers@.len() == before.len(),
                i <= before.len(),
                forall|k: int|
                    0 <= k < before.len() ==> self.speakers@[k] == if k < i {
                        silenced(before, now, timeout)[k]
                    } else {
                        before[k]
                    },
                out@ == due_ids(before.subrange(0, i as int), now, timeout),
            decreases before.len() - i,
        {
            let e = self.speakers[i];
            proof {
                let sub = before.subrange(0, i + 1);
                assert(sub.drop_last() =~= before.subrange(0, i as int));
                reveal(Seq::filter);
                assert(sub.filter(due_pred(now, timeout)) == if due_pred(now, timeout)(e) {
                    before.subrange(0, i as int).filter(due_pred(now, timeout)).push(e)
                } else {
                    before.subrange(0, i as int).filter(due_pred(now, timeout))
                });
            }
            if e.speaking && now >= e.last_heard && now - e.last_heard >= timeout {
                self.speakers.set(i, SpeakerActivity { speaking: false, ..e });
                out.push(e.user_id);
                proof {
                    assert(out@ =~= due_ids(before.subrange(0, i + 1), now, timeout));
                }
            } else {
                proof {
                    assert(out@ =~= due_ids(before.subrange(0, i + 1), now, timeout));
                }
            }
            i += 1;
        }
        proof {
            assert(before.subrange(0, i as int) =~= before);
            assert(self.speakers@ =~= silenced(before, now, timeout));
        }
        out
    }

    /// The earliest instant at which a speaking speaker falls silent, held
    /// at the largest instant; none when nobody is speaking.
    pub fn next_deadline(&self) -> (r: Option<u64>)
        ensures
            r is None <==> forall|i: int|
                0 <= i < self.speakers@.len() ==> !self.speakers@[i].speaking,
            r matches Some(d) ==> {
                &&& exists|i: int|
                    0 <= i < self.speakers@.len() && self.speakers@[i].speaking && d == min_instant(
                        deadline(self.speakers@[i], self.silence_timeout_ms),
                    )
                &&& forall|i: int|
                    0 <= i < self.speakers@.len() && self.speakers@[i].speaking ==> d <= deadline(
                        self.speakers@[i],
                        self.silence_timeout_ms,
                    )
            },
    {
        let mut best: Option<u64> = None;
        let mut i: usize = 0;
        while i < self.speakers.len()
            invariant
                i <= self.speakers@.len(),
                best is None <==> forall|k: int| 0 <= k < i ==> !self.speakers@[k].speaking,
                best matches Some(d) ==> {
                    &&& exists|k: int|
                        0 <= k < i && self.speakers@[k].speaking && d == min_instant(
                            deadline(self.speakers@[k], self.silence_timeout_ms),
                        )
                    &&& forall|k: int|
                        0 <= k < i && self.speakers@[k].speaking ==> d <= deadline(
                            self.speakers@[k],
                            self.silence_timeout_ms,
                        )
                },
            decreases self.speakers@.len() - i,
        {
            let e = self.speakers[i];
            if e.speaking {
                let d = e.last_heard.saturating_add(self.silence_timeout_ms);
                match best {
                    Some(b) => {
                        if d < b {
                            best = Some(d);
                        }
                    },
                    None => {
                        best = Some(d);
                    },
                }
            }
            i += 1;
        }
        best
    }

    /// The speakers unheard for at least `limit` at `now`.
    pub fn idle_speakers(&self, now: u64, limit: u64) -> (r: Vec<u64>)
        ensures
            r@ == idle_ids(self.speakers@, now, limit),
    {
        let mut out: Vec<u64> = Vec::new();
        let mut i: usize = 0;
        while i < self.speakers.len()
            invariant
                i <= self.speakers@.len(),
                out@ == idle_ids(self.speakers@.subrange(0, i as int), now, limit),
            decreases self.speakers@.len() - i,
        {
            let e = self.speakers[i];
            proof {
                let sub = self.speakers@.subrange(0, i + 1);
                assert(sub.drop_last() =~= self.speakers@.subrange(0, i as int));
                reveal(Seq::filter);
                assert(sub.filter(idle_pred(now, limit)) == if idle_pred(now, limit)(e) {
                    self.speakers@.subrange(0, i as int).filter(idle_pred(now, limit)).push(e)
                } else {
                    self.speakers@.subrange(0, i as int).filter(idle_pred(now, limit))
                });
            }
            if now >= e.last_heard && now - e.last_heard >= limit {
                out.push(e.user_id);
            }
            proof {
                assert(out@ =~= idle_ids(self.speakers@.subrange(0, i + 1), now, limit));
            }
            i += 1;
        }
        proof {
            assert(self.speakers@.subrange(0, i as int) =~= self.speakers@);
        }
        out
    }

    /// Forgets a speaker.
    pub fn forget(&mut self, user_id: u64)
        requires
            old(self).wf(),
        ensures
            final(self).wf(),
            final(self).silence_timeout_ms == old(self).silence_timeout_ms,
            !has_speaker(final(self).speakers@, user_id),
            has_speaker(old(self).speakers@, user_id) ==> exists|i: int|
                0 <= i < old(self).speakers@.len() && old(self).speakers@[i].user_id == user_id
                    && final(self).speakers@ == old(self).speakers@.remove(i),
            !has_speaker(old(self).speakers@, user_id) ==> final(self).speakers@ == old(
                self,
            ).speakers@,
    {
        let ghost before = self.speakers@;
        let mut i: usize = 0;
        while i < self.speakers.len()
            invariant
                self.speakers@ == before,
                before == old(self).speakers@,
                self.silence_timeout_ms == old(self).silence_timeout_ms,
                unique_speakers(before),
                i <= before.len(),
                forall|k: int| 0 <= k < i ==> before[k].user_id != user_id,
            decreases before.len() - i,
        {
            if self.speakers[i].user_id == user_id {
                self.speakers.remove(i);
                proof {
                    let after = self.speakers@;
                    assert(after == before.remove(i as int));
                    assert(before[i as int].user_id == user_id);
                    assert forall|a: int, b: int|
                        0 <= a < after.len() && 0 <= b < after.len() && a != b implies
                        after[a].user_id != after[b].user_id by {
                        let ia = if a < i { a } else { a + 1 };
                        let ib = if b < i { b } else { b + 1 };
                        assert(after[a] == before[ia]);
                        assert(after[b] == before[ib]);
                    }
                    assert forall|k: int| 0 <= k < after.len() implies after[k].user_id
                        != user_id by {
                        let ik = if k < i { k } else { k + 1 };
                        assert(after[k] == before[ik]);
                    }
                }
                return;
            }
            i += 1;
        }
    }
}

/// A deadline as an instant, held at the largest instant.
pub open spec fn min_instant(d: int) -> u64 {
    if d <= u64::MAX {
        d as u64
    } else {
        u64::MAX
    }
}

} // verus!
