//! The voice bridge: one voice per key, note events in, one tick of
//! bookkeeping per output sample.
//!
//! Per sample, every voice's clock first moves on by one tick. The host
//! plays the voices that `live_voices_into` lists (those whose envelope
//! stage is then not `Finished`, in order, at their new clocks and stages)
//! and hands the gain of each back to `record_tick`, which moves the clocks
//! on, drops the finished voices and records the gains. The
//! voices' evolution is modelled on sequences: `after_event` for a note
//! event, `live_voices` and `after_tick` for a sample.
use vstd::prelude::*;

use crate::envelope::{EnvelopeTiming, Stage};
use crate::voice::KeyState;

verus! {

/// No two voices share a key.
pub open spec fn keys_unique<G>(s: Seq<KeyState<G>>) -> bool {
    forall|i: int, j: int|
        0 <= i < s.len() && 0 <= j < s.len() && i != j ==> #[trigger] s[i].key != #[trigger] s[j].key
}

/// Some voice plays `key`.
pub open spec fn holds_key<G>(s: Seq<KeyState<G>>, key: u8) -> bool {
    exists|i: int| 0 <= i < s.len() && #[trigger] s[i].key == key
}

/// The position of the voice that plays `key` (meaningful when
/// `holds_key`; with unique keys there is one).
pub open spec fn index_of_key<G>(s: Seq<KeyState<G>>, key: u8) -> int {
    choose|i: int| 0 <= i < s.len() && #[trigger] s[i].key == key
}

/// The voice that plays `key`, if any.
pub open spec fn voice_for<G>(s: Seq<KeyState<G>>, key: u8) -> Option<KeyState<G>> {
    if holds_key(s, key) {
        Some(s[index_of_key(s, key)])
    } else {
        None
    }
}

/// The voices after a note event. A press or release of a sounding key
/// changes that voice in place; a press of a silent key adds a fresh voice
/// at the end; a release of a silent key changes nothing.
pub open spec fn after_event<G>(s: Seq<KeyState<G>>, silence: G, pressed: bool, key: u8, velocity: u8) -> Seq<
    KeyState<G>,
> {
    if holds_key(s, key) {
        let i = index_of_key(s, key);
        if pressed {
            s.update(i, s[i].pressed(velocity))
        } else {
            s.update(i, s[i].released())
        }
    } else if pressed {
        s.push(KeyState::fresh(key, silence).pressed(velocity))
    } else {
        s
    }
}

/// The voices among the first `n` one tick on, those whose stage is then
/// not `Finished`, in order, each with that stage: the voices a sample
/// plays, at the time it plays them.
pub open spec fn live_prefix<G>(s: Seq<KeyState<G>>, envelope: EnvelopeTiming, n: nat) -> Seq<
    (KeyState<G>, Stage),
>
    decreases n,
{
    if n == 0 {
        Seq::empty()
    } else {
        let prev = live_prefix(s, envelope, (n - 1) as nat);
        let v = s[n - 1].ticked();
        if v.stage_in(envelope) == Stage::Finished {
            prev
        } else {
            prev.push((v, v.stage_in(envelope)))
        }
    }
}

/// All voices that a sample plays, each one tick on, in order, with its
/// stage.
pub open spec fn live_voices<G>(s: Seq<KeyState<G>>, envelope: EnvelopeTiming) -> Seq<(KeyState<G>, Stage)> {
    live_prefix(s, envelope, s.len())
}

/// The voices after a sample in which the `j`-th live voice was played at
/// gain `gains[j]`: every clock has moved on by one tick, the voices then
/// finished are gone, and the others, in order, have recorded their gains.
pub open spec fn after_tick<G>(s: Seq<KeyState<G>>, envelope: EnvelopeTiming, gains: Seq<G>) -> Seq<KeyState<G>> {
    Seq::new(live_voices(s, envelope).len(), |j: int| live_voices(s, envelope)[j].0.recorded(gains[j]))
}

/// Every live entry is a voice of the first `n` that is not finished,
/// paired with its stage; and there are no more entries than voices.
pub proof fn lemma_live_origin<G>(s: Seq<KeyState<G>>, envelope: EnvelopeTiming, n: nat)
    requires
        n <= s.len(),
    ensures
        live_prefix(s, envelope, n).len() <= n,
        forall|j: int|
            0 <= j < live_prefix(s, envelope, n).len() ==> exists|i: int|
                0 <= i < n && s[i].ticked().stage_in(envelope) != Stage::Finished && #[trigger] live_prefix(
                    s,
                    envelope,
                    n,
                )[j] == (s[i].ticked(), s[i].ticked().stage_in(envelope)),
    decreases n,
{
    if n > 0 {
        lemma_live_origin(s, envelope, (n - 1) as nat);
        let prev = live_prefix(s, envelope, (n - 1) as nat);
        let cur = live_prefix(s, envelope, n);
        assert forall|j: int| 0 <= j < cur.len() implies exists|i: int|
            0 <= i < n && s[i].ticked().stage_in(envelope) != Stage::Finished && #[trigger] cur[j] == (
                s[i].ticked(),
                s[i].ticked().stage_in(envelope),
            ) by {
            if j < prev.len() {
                assert(cur[j] == prev[j]);
            } else {
                let i = n - 1;
                assert(cur[j] == (s[i].ticked(), s[i].ticked().stage_in(envelope)));
            }
        }
    }
}

/// The live entries of a shorter prefix begin the live entries of a longer
/// one.
pub proof fn lemma_live_extends<G>(s: Seq<KeyState<G>>, envelope: EnvelopeTiming, m: nat, n: nat)
    requires
        m <= n,
    ensures
        live_prefix(s, envelope, m).len() <= live_prefix(s, envelope, n).len(),
        forall|j: int|
            0 <= j < live_prefix(s, envelope, m).len() ==> #[trigger] live_prefix(s, envelope, m)[j]
                == live_prefix(s, envelope, n)[j],
    decreases n,
{
    if m < n {
        lemma_live_extends(s, envelope, m, (n - 1) as nat);
    }
}

/// Every voice of the first `n` that is not finished has a live entry.
pub proof fn lemma_live_keeps<G>(s: Seq<KeyState<G>>, envelope: EnvelopeTiming, n: nat)
    requires
        n <= s.len(),
    ensures
        forall|i: int|
            0 <= i < n && #[trigger] s[i].ticked().stage_in(envelope) != Stage::Finished ==> exists|j: int|
                0 <= j < live_prefix(s, envelope, n).len() && live_prefix(s, envelope, n)[j] == (
                    s[i].ticked(),
                    s[i].ticked().stage_in(envelope),
                ),
    decreases n,
{
    if n > 0 {
        lemma_live_keeps(s, envelope, (n - 1) as nat);
        let prev = live_prefix(s, envelope, (n - 1) as nat);
        let cur = live_prefix(s, envelope, n);
        assert forall|i: int| 0 <= i < n && #[trigger] s[i].ticked().stage_in(envelope) != Stage::Finished implies exists|
            j: int,
        | 0 <= j < cur.len() && cur[j] == (s[i].ticked(), s[i].ticked().stage_in(envelope)) by {
            if i < n - 1 {
                let j = choose|j: int| 0 <= j < prev.len() && prev[j] == (s[i].ticked(), s[i].ticked().stage_in(envelope));
                assert(cur[j] == prev[j]);
            } else {
                assert(cur[prev.len() as int] == (s[i].ticked(), s[i].ticked().stage_in(envelope)));
            }
        }
    }
}

/// No two live entries share a key.
pub open spec fn live_keys_unique<G>(live: Seq<(KeyState<G>, Stage)>) -> bool {
    forall|a: int, b: int|
        0 <= a < live.len() && 0 <= b < live.len() && a != b ==> #[trigger] live[a].0.key
            != #[trigger] live[b].0.key
}

/// Unique keys stay unique among the live entries, and after a tick.
pub proof fn lemma_live_unique<G>(s: Seq<KeyState<G>>, envelope: EnvelopeTiming, n: nat)
    requires
        n <= s.len(),
        keys_unique(s),
    ensures
        live_keys_unique(live_prefix(s, envelope, n)),
    decreases n,
{
    if n > 0 {
        lemma_live_unique(s, envelope, (n - 1) as nat);
        lemma_live_origin(s, envelope, (n - 1) as nat);
        let prev = live_prefix(s, envelope, (n - 1) as nat);
        let cur = live_prefix(s, envelope, n);
        if s[n - 1].ticked().stage_in(envelope) != Stage::Finished {
            assert forall|a: int| 0 <= a < prev.len() implies #[trigger] prev[a].0.key != s[n - 1].key by {
                let i = choose|i: int|
                    0 <= i < n - 1 && s[i].ticked().stage_in(envelope) != Stage::Finished && #[trigger] prev[a] == (
                        s[i].ticked(),
                        s[i].ticked().stage_in(envelope),
                    );
                assert(s[i].key != s[n - 1].key);
            }
            assert forall|a: int, b: int|
                0 <= a < cur.len() && 0 <= b < cur.len() && a != b implies #[trigger] cur[a].0.key
                != #[trigger] cur[b].0.key by {
                if a < prev.len() && b < prev.len() {
                    assert(cur[a] == prev[a] && cur[b] == prev[b]);
                } else if a < prev.len() {
                    assert(cur[a] == prev[a]);
                } else {
                    assert(cur[b] == prev[b]);
                }
            }
        }
    }
}

/// A tick keeps keys unique and velocities nonzero.
pub proof fn lemma_after_tick_wf<G>(s: Seq<KeyState<G>>, envelope: EnvelopeTiming, gains: Seq<G>)
    requires
        keys_unique(s),
        forall|i: int| 0 <= i < s.len() ==> #[trigger] s[i].velocity >= 1,
    ensures
        keys_unique(after_tick(s, envelope, gains)),
        forall|i: int|
            0 <= i < after_tick(s, envelope, gains).len() ==> #[trigger] after_tick(s, envelope, gains)[i].velocity
                >= 1,
{
    let live = live_voices(s, envelope);
    let t = after_tick(s, envelope, gains);
    lemma_live_unique(s, envelope, s.len());
    lemma_live_origin(s, envelope, s.len());
    assert forall|a: int, b: int|
        0 <= a < t.len() && 0 <= b < t.len() && a != b implies #[trigger] t[a].key != #[trigger] t[b].key by {
        assert(live[a].0.key != live[b].0.key);
    }
    assert forall|a: int| 0 <= a < t.len() implies #[trigger] t[a].velocity >= 1 by {
        let i = choose|i: int|
            0 <= i < s.len() && s[i].ticked().stage_in(envelope) != Stage::Finished && #[trigger] live_prefix(
                s,
                envelope,
                s.len(),
            )[a] == (s[i].ticked(), s[i].ticked().stage_in(envelope));
        assert(s[i].velocity >= 1);
    }
}

/// With unique keys, the voice at a position is the voice of its key, and
/// replacing it by one with the same key keeps keys unique.
pub proof fn lemma_voice_at<G>(s: Seq<KeyState<G>>, i: int, v: KeyState<G>)
    requires
        keys_unique(s),
        0 <= i < s.len(),
        v.key == s[i].key,
    ensures
        holds_key(s, s[i].key),
        index_of_key(s, s[i].key) == i,
        keys_unique(s.update(i, v)),
        holds_key(s.update(i, v), v.key),
        index_of_key(s.update(i, v), v.key) == i,
        voice_for(s.update(i, v), v.key) == Some(v),
{
    let t = s.update(i, v);
    assert(s[i].key == s[i].key);
    assert(t[i].key == v.key);
    assert forall|a: int, b: int|
        0 <= a < t.len() && 0 <= b < t.len() && a != b implies #[trigger] t[a].key != #[trigger] t[b].key by {
        if a != i && b != i {
            assert(s[a].key != s[b].key);
        } else if a == i {
            assert(s[i].key != s[b].key);
        } else {
            assert(s[a].key != s[i].key);
        }
    }
}

/// Re-pressing a key whose release is still under way continues from where
/// the sound is: the releasing voice is played in the next sample (one tick
/// on), and after that sample a press anchors the new attack at exactly the
/// gain it was played at, restarts the pressed clock and holds the voice
/// again.
pub proof fn lemma_retrigger_anchors_at_last_gain<G>(
    s: Seq<KeyState<G>>,
    envelope: EnvelopeTiming,
    gains: Seq<G>,
    silence: G,
    key: u8,
    velocity: u8,
)
    requires
        keys_unique(s),
        holds_key(s, key),
        s[index_of_key(s, key)].is_released,
        s[index_of_key(s, key)].ticked().stage_in(envelope) != Stage::Finished,
    ensures
        ({
            let live = live_voices(s, envelope);
            let j = choose|j: int| 0 <= j < live.len() && #[trigger] live[j].0.key == key;
            let t = after_event(after_tick(s, envelope, gains), silence, true, key, velocity);
            &&& 0 <= j < live.len()
            &&& live[j].0 == s[index_of_key(s, key)].ticked()
            &&& voice_for(t, key) matches Some(v)
            &&& v.start_volume == gains[j]
            &&& v.ticks_since_pressed == 0
            &&& !v.is_released
            &&& v.velocity == crate::voice::press_velocity(velocity)
        }),
{
    let i = index_of_key(s, key);
    let live = live_voices(s, envelope);
    let u = after_tick(s, envelope, gains);
    lemma_live_keeps(s, envelope, s.len());
    lemma_live_unique(s, envelope, s.len());
    assert(s[i].key == key);
    assert(s[i].ticked().stage_in(envelope) != Stage::Finished);
    let j0 = choose|j: int| 0 <= j < live.len() && live[j] == (s[i].ticked(), s[i].ticked().stage_in(envelope));
    assert(live[j0].0.key == key);
    let j = choose|j: int| 0 <= j < live.len() && #[trigger] live[j].0.key == key;
    assert(j == j0);
    assert(u[j] == s[i].ticked().recorded(gains[j]));
    assert(u.len() == live.len());
    assert forall|a: int, b: int|
        0 <= a < u.len() && 0 <= b < u.len() && a != b implies #[trigger] u[a].key != #[trigger] u[b].key by {
        assert(live[a].0.key != live[b].0.key);
    }
    lemma_voice_at(u, j, u[j].pressed(velocity));
}

/// A released voice whose release clock reaches the release time in this
/// sample is finished: it is not among the voices the sample plays, so it
/// adds nothing to the mix, and no voice of its key survives the tick. (In
/// particular this holds once the release clock already reads the release
/// time.)
pub proof fn lemma_finished_voice_is_dropped<G>(
    s: Seq<KeyState<G>>,
    envelope: EnvelopeTiming,
    gains: Seq<G>,
    key: u8,
)
    requires
        keys_unique(s),
        holds_key(s, key),
        s[index_of_key(s, key)].is_released,
        s[index_of_key(s, key)].ticks_since_released + 1 >= envelope.release,
    ensures
        s[index_of_key(s, key)].ticked().stage_in(envelope) == Stage::Finished,
        forall|j: int| 0 <= j < live_voices(s, envelope).len() ==> #[trigger] live_voices(s, envelope)[j].0.key != key,
        !holds_key(after_tick(s, envelope, gains), key),
{
    let i = index_of_key(s, key);
    let live = live_voices(s, envelope);
    let u = after_tick(s, envelope, gains);
    lemma_live_origin(s, envelope, s.len());
    assert forall|j: int| 0 <= j < live.len() implies #[trigger] live[j].0.key != key by {
        let k = choose|k: int|
            0 <= k < s.len() && s[k].ticked().stage_in(envelope) != Stage::Finished && #[trigger] live_prefix(
                s,
                envelope,
                s.len(),
            )[j] == (s[k].ticked(), s[k].ticked().stage_in(envelope));
        if s[k].key == key {
            assert(k == i);
        }
    }
    if holds_key(u, key) {
        let j = index_of_key(u, key);
        assert(u[j].key == live[j].0.key);
    }
}

/// A voice still sounding one tick on is played and survives the tick:
/// one tick on, having recorded the gain it was played at.
pub proof fn lemma_live_voice_survives<G>(s: Seq<KeyState<G>>, envelope: EnvelopeTiming, gains: Seq<G>, key: u8)
    requires
        keys_unique(s),
        holds_key(s, key),
        s[index_of_key(s, key)].ticked().stage_in(envelope) != Stage::Finished,
    ensures
        holds_key(after_tick(s, envelope, gains), key),
        voice_for(after_tick(s, envelope, gains), key) matches Some(u) && u == s[index_of_key(
            s,
            key,
        )].ticked().recorded(u.last_volume),
{
    let i = index_of_key(s, key);
    let live = live_voices(s, envelope);
    let u = after_tick(s, envelope, gains);
    lemma_live_keeps(s, envelope, s.len());
    lemma_live_unique(s, envelope, s.len());
    assert(s[i].key == key);
    let j = choose|j: int| 0 <= j < live.len() && live[j] == (s[i].ticked(), s[i].ticked().stage_in(envelope));
    assert(u[j] == s[i].ticked().recorded(gains[j]));
    assert forall|a: int, b: int|
        0 <= a < u.len() && 0 <= b < u.len() && a != b implies #[trigger] u[a].key != #[trigger] u[b].key by {
        assert(live[a].0.key != live[b].0.key);
    }
    lemma_voice_at(u, j, u[j]);
    assert(u.update(j, u[j]) =~= u);
}

/// The voices after `k` samples with no note events, the `t`-th sample
/// playing its live voices at the gains `gains[t]`.
pub open spec fn after_ticks<G>(s: Seq<KeyState<G>>, envelope: EnvelopeTiming, gains: Seq<Seq<G>>, k: nat) -> Seq<
    KeyState<G>,
>
    decreases k,
{
    if k == 0 {
        s
    } else {
        after_tick(after_ticks(s, envelope, gains, (k - 1) as nat), envelope, gains[k - 1])
    }
}

/// A release runs its course: a voice released `r` ticks ago, with
/// `r < release`, is played in exactly `release - r - 1` more samples
/// (its release clock then reads one tick short of the release time) and is
/// gone after the next one, whatever gains it is played at.
pub proof fn lemma_release_runs_its_course<G>(
    s: Seq<KeyState<G>>,
    envelope: EnvelopeTiming,
    gains: Seq<Seq<G>>,
    key: u8,
)
    requires
        keys_unique(s),
        forall|i: int| 0 <= i < s.len() ==> #[trigger] s[i].velocity >= 1,
        holds_key(s, key),
        s[index_of_key(s, key)].is_released,
        s[index_of_key(s, key)].ticks_since_released < envelope.release,
    ensures
        ({
            let d = (envelope.release - s[index_of_key(s, key)].ticks_since_released - 1) as nat;
            &&& voice_for(after_ticks(s, envelope, gains, d), key) matches Some(u)
            &&& u.is_released
            &&& u.ticks_since_released + 1 == envelope.release
            &&& !holds_key(after_ticks(s, envelope, gains, d + 1), key)
        }),
{
    let r0 = s[index_of_key(s, key)].ticks_since_released;
    let d = (envelope.release - r0 - 1) as nat;
    lemma_release_steps(s, envelope, gains, key, d);
    let t = after_ticks(s, envelope, gains, d);
    lemma_finished_voice_is_dropped(t, envelope, gains[d as int], key);
}

/// The induction behind `lemma_release_runs_its_course`: while the release
/// clock stays short of the release time, the voice is still there,
/// released, with its release clock `k` ticks on.
pub proof fn lemma_release_steps<G>(s: Seq<KeyState<G>>, envelope: EnvelopeTiming, gains: Seq<Seq<G>>, key: u8, k: nat)
    requires
        keys_unique(s),
        forall|i: int| 0 <= i < s.len() ==> #[trigger] s[i].velocity >= 1,
        holds_key(s, key),
        s[index_of_key(s, key)].is_released,
        s[index_of_key(s, key)].ticks_since_released + k < envelope.release,
    ensures
        keys_unique(after_ticks(s, envelope, gains, k)),
        forall|i: int|
            0 <= i < after_ticks(s, envelope, gains, k).len() ==> #[trigger] after_ticks(
                s,
                envelope,
                gains,
                k,
            )[i].velocity >= 1,
        holds_key(after_ticks(s, envelope, gains, k), key),
        voice_for(after_ticks(s, envelope, gains, k), key) matches Some(u) && u.is_released
            && u.ticks_since_released == s[index_of_key(s, key)].ticks_since_released + k,
    decreases k,
{
    if k > 0 {
        lemma_release_steps(s, envelope, gains, key, (k - 1) as nat);
        let p = after_ticks(s, envelope, gains, (k - 1) as nat);
        let i = index_of_key(p, key);
        assert(p[i].ticks_since_released + 1 < envelope.release);
        assert(p[i].ticked().stage_in(envelope) != Stage::Finished);
        lemma_after_tick_wf(p, envelope, gains[k - 1]);
        lemma_live_voice_survives(p, envelope, gains[k - 1], key);
    }
}

/// The voices of all keys that are held or still releasing, together with
/// the envelope timing that decides when a released voice ends and the gain
/// a new voice starts from.
pub struct VoiceBridge<G> {
    voices: Vec<KeyState<G>>,
    envelope: EnvelopeTiming,
    silence: G,
}

impl<G> VoiceBridge<G> {
    /// The voices, in the order in which their keys were first pressed.
    pub closed spec fn voices_spec(&self) -> Seq<KeyState<G>> {
        self.voices@
    }

    /// The envelope timing.
    pub closed spec fn envelope_spec(&self) -> EnvelopeTiming {
        self.envelope
    }

    /// The gain a new voice starts from.
    pub closed spec fn silence_spec(&self) -> G {
        self.silence
    }

    /// One voice per key, and every recorded velocity nonzero.
    pub open spec fn wf(&self) -> bool {
        &&& keys_unique(self.voices_spec())
        &&& forall|i: int|
            0 <= i < self.voices_spec().len() ==> #[trigger] self.voices_spec()[i].velocity >= 1
    }
}

impl<G: Copy> VoiceBridge<G> {
    /// A bridge with no voices.
    pub fn new(envelope: EnvelopeTiming, silence: G) -> (r: VoiceBridge<G>)
        ensures
            r.wf(),
            r.voices_spec() == Seq::<KeyState<G>>::empty(),
            r.envelope_spec() == envelope,
            r.silence_spec() == silence,
    {
        VoiceBridge { voices: Vec::new(), envelope, silence }
    }

    /// Applies a note event: a press or release of a sounding key changes
    /// its voice in place, a press of a silent key adds a voice, a release
    /// of a silent key does nothing.
    pub fn on_event(&mut self, pressed: bool, key: u8, velocity: u8)
        requires
            old(self).wf(),
        ensures
            final(self).wf(),
            final(self).voices_spec() == after_event(
                old(self).voices_spec(),
                old(self).silence_spec(),
                pressed,
                key,
                velocity,
            ),
            final(self).envelope_spec() == old(self).envelope_spec(),
            final(self).silence_spec() == old(self).silence_spec(),
    {
        let ghost s = self.voices@;
        let n = self.voices.len();
        let mut i: usize = 0;
        while i < n
            invariant
                self.voices@ == s,
                s == old(self).voices_spec(),
                old(self).wf(),
                self.envelope == old(self).envelope_spec(),
                self.silence == old(self).silence_spec(),
                n == s.len(),
                0 <= i <= n,
                forall|j: int| 0 <= j < i ==> #[trigger] s[j].key != key,
            decreases n - i,
        {
            if self.voices[i].key == key {
                proof {
                    assert(holds_key(s, key));
                    let k = index_of_key(s, key);
                    assert(k == i);
                }
                let mut v = self.voices[i];
                v.apply(pressed, velocity);
                self.voices.set(i, v);
                proof {
                    assert(self.voices@ =~= after_event(s, self.silence, pressed, key, velocity));
                }
                return;
            }
            i = i + 1;
        }
        assert(!holds_key(s, key));
        if pressed {
            let mut v = KeyState::new(key, self.silence);
            v.apply(true, velocity);
            self.voices.push(v);
            proof {
                let t = self.voices@;
                assert forall|a: int, b: int|
                    0 <= a < t.len() && 0 <= b < t.len() && a != b implies #[trigger] t[a].key
                    != #[trigger] t[b].key by {
                    if a < s.len() && b < s.len() {
                    } else if a < s.len() {
                        assert(s[a].key != key);
                    } else {
                        assert(s[b].key != key);
                    }
                }
            }
        }
    }

    /// The number of voices.
    pub fn len(&self) -> (r: usize)
        ensures
            r == self.voices_spec().len(),
    {
        self.voices.len()
    }

    /// The voice at position `i`.
    pub fn voice(&self, i: usize) -> (r: KeyState<G>)
        requires
            i < self.voices_spec().len(),
        ensures
            r == self.voices_spec()[i as int],
    {
        self.voices[i]
    }

    /// The envelope timing.
    pub fn envelope(&self) -> (r: EnvelopeTiming)
        ensures
            r == self.envelope_spec(),
    {
        self.envelope
    }

    /// Fills `out` with the voices a sample plays, at the time it plays
    /// them: each voice with its clock moved on by one tick, if its stage
    /// is then not `Finished`, in order, with that stage. Whatever `out`
    /// held is dropped; its storage is reused.
    pub fn live_voices_into(&self, out: &mut Vec<(KeyState<G>, Stage)>)
        ensures
            final(out)@ == live_voices(self.voices_spec(), self.envelope_spec()),
    {
        out.clear();
        let n = self.voices.len();
        let mut i: usize = 0;
        while i < n
            invariant
                n == self.voices@.len(),
                i <= n,
                out@ == live_prefix(self.voices@, self.envelope, i as nat),
            decreases n - i,
        {
            let mut v = self.voices[i];
            v.advance();
            let stage = v.stage(&self.envelope);
            match stage {
                Stage::Finished => {},
                _ => {
                    out.push((v, stage));
                },
            }
            i = i + 1;
        }
    }

    /// Ends a sample in which the `j`-th live voice was played at gain
    /// `gains[j]`: every clock moves on by one tick, the voices then
    /// finished are dropped, and the others record their gains, in order.
    pub fn record_tick(&mut self, gains: &[G])
        requires
            old(self).wf(),
            gains@.len() == live_voices(old(self).voices_spec(), old(self).envelope_spec()).len(),
        ensures
            final(self).wf(),
            final(self).voices_spec() == after_tick(
                old(self).voices_spec(),
                old(self).envelope_spec(),
                gains@,
            ),
            final(self).envelope_spec() == old(self).envelope_spec(),
            final(self).silence_spec() == old(self).silence_spec(),
    {
        let ghost s = self.voices@;
        let ghost total = live_voices(s, self.envelope).len();
        let n = self.voices.len();
        let mut w: usize = 0;
        let mut i: usize = 0;
        while i < n
            invariant
                self.voices@.len() == n,
                s == old(self).voices_spec(),
                self.envelope == old(self).envelope_spec(),
                self.silence == old(self).silence_spec(),
                n == s.len(),
                gains@.len() == total,
                total == live_prefix(s, self.envelope, n as nat).len(),
                w <= i <= n,
                w == live_prefix(s, self.envelope, i as nat).len(),
                self.voices@.subrange(0, w as int) =~= Seq::new(
                    w as nat,
                    |j: int| live_prefix(s, self.envelope, i as nat)[j].0.recorded(gains@[j]),
                ),
                forall|j: int| i <= j < n ==> #[trigger] self.voices@[j] == s[j],
            decreases n - i,
        {
            proof {
                lemma_live_origin(s, self.envelope, i as nat);
                lemma_live_extends(s, self.envelope, (i + 1) as nat, n as nat);
            }
            let ghost before = self.voices@;
            let ghost w0 = w;
            let ghost lp = live_prefix(s, self.envelope, i as nat);
            assert forall|j: int| 0 <= j < w0 implies #[trigger] before[j] == lp[j].0.recorded(gains@[j]) by {
                assert(before.subrange(0, w0 as int)[j] == before[j]);
            }
            let mut v = self.voices[i];
            v.advance();
            match v.stage(&self.envelope) {
                Stage::Finished => {},
                _ => {
                    v.record(gains[w]);
                    self.voices.set(w, v);
                    w = w + 1;
                },
            }
            proof {
                let lq = live_prefix(s, self.envelope, (i + 1) as nat);
                assert forall|j: int| 0 <= j < w implies #[trigger] self.voices@[j] == lq[j].0.recorded(gains@[j]) by {
                    if j < w0 {
                        assert(lq[j] == lp[j]);
                    }
                }
            }
            i = i + 1;
        }
        self.voices.truncate(w);
        proof {
            lemma_after_tick_wf(s, self.envelope, gains@);
            assert(self.voices@ =~= after_tick(s, self.envelope, gains@));
        }
    }
}

} // verus!
