//! The synthesizer facade: it owns the managed kernel, the note stack, the
//! routine runtime and the preset tables, translates note events into
//! parameter changes, and drives everything one host sample at a time.

use vstd::prelude::*;
use crate::benihora::{BenihoraManaged, Params as BenihoraParams, HOST_RATE_MIN};
use crate::fixed::{
    clamp_fix, exp2_fix, fclamp, fix_mul, fmul, lemma_fmul_bound, spec_exp2, FIX_BOUND, FIX_ONE,
};
use crate::managed::{FREQ_MAX, FREQ_MIN};
use crate::routine::{merge_events, process_queue, remove_kinds, Routine, Runtime};
use crate::routine::{kinds_of, Event as RoutineEvent, TongueIndex};
use crate::voice::VoiceManager;

verus! {

/// Who steers the tongue: the host, or the internal routine machinery.
#[derive(Debug, Clone, Copy, PartialEq, Eq, Structural)]
pub enum Control {
    Host,
    Internal,
}

/// A host-side event.
#[derive(Debug, Clone, Copy)]
pub enum Event {
    NoteOn { note: u8, velocity: i64 },
    NoteOff { note: u8 },
    PitchBend { value: i64 },
}

/// What a note number means under the facade's layout: the low ranges are
/// parameter controls, everything above them plays a voiced note.
#[derive(Debug, Clone, Copy, PartialEq, Eq, Structural)]
pub enum NoteRole {
    TonguePreset,
    ConstrictionKey,
    VelumKey,
    RoutineKey,
    Voice,
}

/// The role of a note number given the preset table sizes: tongue presets
/// first, then constriction keys, one velum key, routine keys, and voiced
/// notes above them all.
pub open spec fn spec_note_role(note: int, tongues: int, constrictions: int, routines: int)
    -> NoteRole {
    if note < tongues {
        NoteRole::TonguePreset
    } else if note < tongues + constrictions {
        NoteRole::ConstrictionKey
    } else if note == tongues + constrictions {
        NoteRole::VelumKey
    } else if note < tongues + constrictions + 1 + routines {
        NoteRole::RoutineKey
    } else {
        NoteRole::Voice
    }
}

/// The ratio of semitone `r` above a whole octave.
pub open spec fn spec_semitone(r: int) -> int {
    if r == 0 {
        65536
    } else if r == 1 {
        69433
    } else if r == 2 {
        73562
    } else if r == 3 {
        77936
    } else if r == 4 {
        82570
    } else if r == 5 {
        87480
    } else if r == 6 {
        92682
    } else if r == 7 {
        98193
    } else if r == 8 {
        104032
    } else if r == 9 {
        110218
    } else if r == 10 {
        116772
    } else {
        123715
    }
}

/// The equal-tempered frequency of a note: concert pitch at note 69,
/// doubling every twelve semitones, clamped into the audible band.
pub open spec fn spec_note_frequency(note: int) -> int {
    let m = note - 69 + 120;
    let q = m / 12;
    let r = m % 12;
    let base = fmul(28835840, spec_semitone(r));
    let shifted = if q >= 10 {
        base * vstd::arithmetic::power2::pow2((q - 10) as nat)
    } else {
        base / (vstd::arithmetic::power2::pow2((10 - q) as nat) as int)
    };
    fclamp(shifted, FREQ_MIN as int, FREQ_MAX as int)
}

/// The frequency of a MIDI note; exact per `spec_note_frequency`.
pub fn note_frequency(note: u8) -> (f: i64)
    requires
        note < 128,
    ensures
        f == spec_note_frequency(note as int),
        FREQ_MIN <= f <= FREQ_MAX,
{
    let m: i64 = (note as i64) - 69 + 120;
    let q: i64 = crate::fixed::div_pos(m, 12);
    let r: i64 = m - q * 12;
    proof {
        vstd::arithmetic::div_mod::lemma_fundamental_div_mod(m as int, 12);
        vstd::arithmetic::div_mod::lemma_mod_bound(m as int, 12);
        crate::fixed::lemma_udiv_bound(m as int, 12, 15);
        assert((m as int) / 12 * 12 <= m as int);
    }
    let ratio: i64 = if r == 0 {
        65536
    } else if r == 1 {
        69433
    } else if r == 2 {
        73562
    } else if r == 3 {
        77936
    } else if r == 4 {
        82570
    } else if r == 5 {
        87480
    } else if r == 6 {
        92682
    } else if r == 7 {
        98193
    } else if r == 8 {
        104032
    } else if r == 9 {
        110218
    } else if r == 10 {
        116772
    } else {
        123715
    };
    proof {
        lemma_fmul_bound(28835840, ratio as int, 28835840, 123715);
        crate::fixed::lemma_sdiv_abs(28835840 * (ratio as int), FIX_ONE as int);
        vstd::arithmetic::div_mod::lemma_div_pos_is_pos(
            28835840 * (ratio as int),
            FIX_ONE as int,
        );
        assert(28835840 * (ratio as int) >= 0) by (nonlinear_arith)
            requires
                ratio >= 0,
        ;
        vstd::arithmetic::power2::lemma2_to64();
    }
    let base: i64 = fix_mul(28835840, ratio);
    let shifted: i64 = if q >= 10 {
        let mut p: i64 = 1;
        let mut k: i64 = 10;
        while k < q
            invariant
                10 <= k <= q <= 14,
                p == vstd::arithmetic::power2::pow2((k - 10) as nat),
                1 <= p <= 16,
            decreases q - k,
        {
            proof {
                vstd::arithmetic::power2::lemma_pow2_unfold((k + 1 - 10) as nat);
                lemma_pow2_small((k + 1 - 10) as nat);
                vstd::arithmetic::power2::lemma2_to64();
                if k - 10 < 3 {
                    vstd::arithmetic::power2::lemma_pow2_strictly_increases(
                        (k - 10) as nat,
                        3,
                    );
                }
            }
            p = p * 2;
            k = k + 1;
        }
        proof {
            assert((base as int) * (p as int) <= 54438384 * 16) by (nonlinear_arith)
                requires
                    0 <= base <= 54438384,
                    1 <= p <= 16,
            ;
        }
        base * p
    } else {
        let shift: i64 = 10 - q;
        let mut p: i64 = 1;
        let mut c: i64 = 0;
        while c < shift
            invariant
                0 <= c <= shift <= 10,
                p == vstd::arithmetic::power2::pow2(c as nat),
                1 <= p <= 1024,
            decreases shift - c,
        {
            proof {
                vstd::arithmetic::power2::lemma_pow2_unfold((c + 1) as nat);
                lemma_pow2_small((c + 1) as nat);
            }
            p = p * 2;
            c = c + 1;
        }
        crate::fixed::div_pos(base, p)
    };
    clamp_fix(shifted, FREQ_MIN, FREQ_MAX)
}

/// Removing one note from a stack of valid notes leaves valid notes.
proof fn lemma_filter_small(s: Seq<u8>, note: u8)
    requires
        forall|i: int| 0 <= i < s.len() ==> (#[trigger] s[i]) < 128,
    ensures
        ({
            let f = s.filter(|n: u8| n != note);
            forall|i: int| 0 <= i < f.len() ==> (#[trigger] f[i]) < 128
        }),
    decreases s.len(),
{
    reveal(Seq::filter);
    if s.len() > 0 {
        assert(forall|i: int| 0 <= i < s.drop_last().len() ==> (#[trigger] s.drop_last()[i])
            < 128);
        lemma_filter_small(s.drop_last(), note);
        let f0 = s.drop_last().filter(|n: u8| n != note);
        let f = s.filter(|n: u8| n != note);
        assert(forall|i: int| 0 <= i < f0.len() ==> (#[trigger] f0[i]) < 128);
        assert(f == if (s.last() != note) {
            f0.push(s.last())
        } else {
            f0
        });
    }
}

/// Powers of two up to the tenth stay small.
proof fn lemma_pow2_small(n: nat)
    requires
        n <= 10,
    ensures
        1 <= vstd::arithmetic::power2::pow2(n) <= 1024,
{
    vstd::arithmetic::power2::lemma2_to64();
    vstd::arithmetic::power::lemma_pow_positive(2, n);
    if n < 10 {
        vstd::arithmetic::power2::lemma_pow2_strictly_increases(n, 10);
    }
}

/// Exactly what applying one routine event does (the dispatch semantics):
/// tongue events retarget the tongue (a random pick draws from the routine
/// stream), constriction events set a preset's diameter, velum events aim
/// the velum, pitch events bend by `2^((2v-1)/12)`, sound events gate the
/// voice, and force-diameter recomputes the targets and snaps the current
/// profile onto them; events with out-of-range indices do nothing.
pub open spec fn dispatch_rel(pre: Synth, post: Synth, ev: RoutineEvent) -> bool {
    &&& post.wf()
    &&& post.benihora is Some
    &&& post.routine_runtime == pre.routine_runtime
    &&& post.routines == pre.routines
    &&& post.tongue_poses == pre.tongue_poses
    &&& post.other_constrictions == pre.other_constrictions
    &&& post.voice_manager == pre.voice_manager
    &&& post.benihora_params == pre.benihora_params
    &&& post.time == pre.time
    &&& post.note_off_time == pre.note_off_time
    &&& post.seed == pre.seed
    &&& match ev {
        RoutineEvent::Tongue { index, speed } => {
            let picked: (bool, int, int) = match index {
                TongueIndex::Index(i) => (
                    (i as int) < pre.tongue_poses@.len(),
                    pre.random_tongue as int,
                    i as int,
                ),
                TongueIndex::Random => (
                    pre.tongue_poses@.len() > 0,
                    crate::noise::lcg_next(pre.random_tongue as int),
                    crate::noise::lcg_next(pre.random_tongue as int) % (
                    pre.tongue_poses@.len() as int),
                ),
            };
            if !picked.0 {
                post == pre
            } else {
                &&& post.random_tongue as int == picked.1
                &&& post.benihora->Some_0.tract.tongue_target == pre.tongue_poses@[picked.2]
                &&& post.benihora->Some_0.tract.speed == (match speed {
                    Option::Some(s) => fclamp(s as int, 0, 20971520) as i64,
                    Option::None => pre.benihora->Some_0.tract.speed,
                })
                &&& post.benihora->Some_0.benihora == pre.benihora->Some_0.benihora
                &&& post.benihora->Some_0.sound == pre.benihora->Some_0.sound
                &&& post.benihora->Some_0.frequency == pre.benihora->Some_0.frequency
                &&& post.benihora->Some_0.tenseness == pre.benihora->Some_0.tenseness
                &&& post.benihora->Some_0.intensity == pre.benihora->Some_0.intensity
                &&& post.benihora->Some_0.loudness == pre.benihora->Some_0.loudness
            }
        },
        RoutineEvent::Constriction { i, strength } => {
            if (i as int) >= pre.other_constrictions@.len() {
                post == pre
            } else {
                let preset = pre.other_constrictions@[i as int];
                let d = match strength {
                    Option::Some(s0) => fmul(
                        preset.1 as int,
                        (FIX_ONE as int) - fclamp(s0 as int, 0, FIX_ONE as int),
                    ),
                    Option::None => 655360int,
                };
                let src0 = pre.benihora->Some_0.benihora.tract.source;
                let cs2 = if (i as int) < src0.other_constrictions@.len() {
                    src0.other_constrictions@.update(i as int, (preset.0, d as i64))
                } else {
                    src0.other_constrictions@
                };
                &&& post.benihora->Some_0.benihora.tract.source.other_constrictions@ == cs2
                &&& post.benihora->Some_0.benihora.tract.source.tongue == src0.tongue
                &&& post.benihora->Some_0.benihora.tract.target_diameter
                    == pre.benihora->Some_0.benihora.tract.target_diameter
                &&& post.benihora->Some_0.sound == pre.benihora->Some_0.sound
                &&& post.benihora->Some_0.frequency == pre.benihora->Some_0.frequency
                &&& post.random_tongue == pre.random_tongue
            }
        },
        RoutineEvent::Velum { openness } => {
            &&& post.benihora->Some_0.benihora.tract.target_diameter.nose@
                == pre.benihora->Some_0.benihora.tract.target_diameter.nose@.update(
                0,
                (655 + fmul(25559, fclamp(openness as int, 0, FIX_ONE as int))) as i64,
            )
            &&& post.benihora->Some_0.benihora.tract.target_diameter.mouth@
                == pre.benihora->Some_0.benihora.tract.target_diameter.mouth@
            &&& post.benihora->Some_0.sound == pre.benihora->Some_0.sound
            &&& post.benihora->Some_0.frequency == pre.benihora->Some_0.frequency
            &&& post.random_tongue == pre.random_tongue
        },
        RoutineEvent::Pitch { value } => {
            &&& post.benihora->Some_0.frequency.pitchbend == spec_exp2(
                fclamp(
                    crate::fixed::sdiv(
                        2 * fclamp(value as int, -131072, 131072) - (FIX_ONE as int),
                        12,
                    ),
                    -131072,
                    131072,
                ),
            )
            &&& post.benihora->Some_0.benihora == pre.benihora->Some_0.benihora
            &&& post.benihora->Some_0.sound == pre.benihora->Some_0.sound
            &&& post.random_tongue == pre.random_tongue
        },
        RoutineEvent::Sound { sound } => {
            &&& post.benihora->Some_0.sound == sound
            &&& post.benihora->Some_0.benihora == pre.benihora->Some_0.benihora
            &&& post.benihora->Some_0.frequency == pre.benihora->Some_0.frequency
            &&& post.random_tongue == pre.random_tongue
        },
        RoutineEvent::ForceDiameter => {
            let src0 = pre.benihora->Some_0.benihora.tract.source;
            &&& post.benihora->Some_0.benihora.tract.target_diameter.mouth@
                == crate::shape::apply_constrictions(
                crate::shape::mouth_after_tongue(src0.tongue.0 as int, src0.tongue.1 as int),
                src0.other_constrictions@,
            )
            &&& post.benihora->Some_0.benihora.tract.current_diameter.mouth@
                == post.benihora->Some_0.benihora.tract.target_diameter.mouth@
            &&& post.benihora->Some_0.benihora.tract.current_diameter.nose@
                == post.benihora->Some_0.benihora.tract.target_diameter.nose@
            &&& post.benihora->Some_0.sound == pre.benihora->Some_0.sound
            &&& post.benihora->Some_0.frequency == pre.benihora->Some_0.frequency
            &&& post.random_tongue == pre.random_tongue
        },
    }
}

/// The queue phase of one facade sample: the due routine events pop per
/// `process_queue` and nothing else moves yet.
pub open spec fn queue_step_rel(pre: Synth, post: Synth, dt: int) -> bool {
    &&& post.routine_runtime.events@ == crate::routine::process_queue(
        pre.routine_runtime.events@,
        dt,
    ).0
    &&& post.benihora == pre.benihora
    &&& post.voice_manager == pre.voice_manager
    &&& post.routines == pre.routines
    &&& post.tongue_poses == pre.tongue_poses
    &&& post.other_constrictions == pre.other_constrictions
    &&& post.benihora_params == pre.benihora_params
    &&& post.time == pre.time
    &&& post.note_off_time == pre.note_off_time
    &&& post.seed == pre.seed
    &&& post.random_tongue == pre.random_tongue
    &&& post.sound_speed == pre.sound_speed
    &&& post.noteon_routine == pre.noteon_routine
    &&& post.noteoff_routine == pre.noteoff_routine
    &&& post.tongue_control == pre.tongue_control
    &&& post.reset_required == pre.reset_required
}

/// The synthesizer: configuration, control state, and (once a host rate is
/// known) the managed kernel.
pub struct Synth {
    pub sound_speed: i64,
    pub seed: u32,
    pub benihora_params: BenihoraParams,
    pub tongue_poses: Vec<(i64, i64)>,
    pub other_constrictions: Vec<(i64, i64)>,
    pub routines: Vec<Routine>,
    pub noteon_routine: usize,
    pub noteoff_routine: usize,
    pub tongue_control: Control,
    pub time: i64,
    pub note_off_time: i64,
    pub benihora: Option<BenihoraManaged>,
    pub voice_manager: VoiceManager,
    pub routine_runtime: Runtime,
    pub reset_required: bool,
    pub random_tongue: u32,
}

impl Synth {
    pub open spec fn wf(self) -> bool {
        &&& FIX_ONE <= self.sound_speed <= 5 * FIX_ONE
        &&& self.seed < 0xFFFFFF00
        &&& self.benihora_params.wf()
        &&& self.tongue_poses@.len() <= 16
        &&& forall|i: int|
            0 <= i < self.tongue_poses@.len() ==> crate::shape::TONGUE_INDEX_MIN <= (
            #[trigger] self.tongue_poses@[i]).0 <= crate::shape::TONGUE_INDEX_MAX
                && crate::shape::TONGUE_INNER <= (self.tongue_poses@[i]).1
                <= crate::shape::TONGUE_OUTER
        &&& self.other_constrictions@.len() <= 16
        &&& forall|i: int|
            0 <= i < self.other_constrictions@.len() ==> 0 <= (
            #[trigger] self.other_constrictions@[i]).0 <= 0x4000000 && 0 <= (
            self.other_constrictions@[i]).1 <= 0x4000000
        &&& self.routines@.len() <= 16
        &&& forall|i: int|
            0 <= i < self.routines@.len() ==> crate::routine::events_wf(
                (#[trigger] self.routines@[i]).events@,
            )
        &&& 0 <= self.time <= 0x100000000000
        &&& 0 <= self.note_off_time <= 0x100000000000
        &&& match self.benihora {
            Option::Some(b) => b.wf(),
            Option::None => true,
        }
        &&& self.routine_runtime.wf()
        &&& forall|i: int|
            0 <= i < self.voice_manager.voices@.len() ==> (
            #[trigger] self.voice_manager.voices@[i]) < 128
    }

    /// A synthesizer with the stock configuration: five vowel tongue
    /// presets, four consonant constrictions, and two demonstration
    /// routines. The kernel itself is built lazily once the host rate is
    /// known.
    pub fn new() -> (r: Synth)
        ensures
            r.wf(),
            r.benihora is None,
            r.reset_required,
            r.tongue_poses@.len() == 5,
            r.other_constrictions@.len() == 4,
            r.routines@.len() == 2,
            r.voice_manager.voices@.len() == 0,
            r.routine_runtime.events@.len() == 0,
            r.time == 0,
            r.note_off_time == 0,
            r.noteon_routine == 0,
            r.noteoff_routine == 0,
            r.seed == 0,
            r.sound_speed == 3 * FIX_ONE,
            r.random_tongue == 1,
    {
        let mut tongue_poses: Vec<(i64, i64)> = Vec::new();
        tongue_poses.push((1782579, 144179));
        tongue_poses.push((1271398, 224789));
        tongue_poses.push((845414, 159252));
        tongue_poses.push((917504, 136971));
        tongue_poses.push((1494221, 134349));
        let mut other_constrictions: Vec<(i64, i64)> = Vec::new();
        other_constrictions.push((1638400, 65536));
        other_constrictions.push((1966080, 65536));
        other_constrictions.push((2293760, 65536));
        other_constrictions.push((2686976, 104858));
        let mut tongue_move: Vec<(i64, RoutineEvent)> = Vec::new();
        tongue_move.push(
            (
                0,
                RoutineEvent::Tongue {
                    index: TongueIndex::Index(0),
                    speed: Option::Some(13107200),
                },
            ),
        );
        tongue_move.push(
            (
                6554,
                RoutineEvent::Tongue {
                    index: TongueIndex::Index(1),
                    speed: Option::Some(1310720),
                },
            ),
        );
        let mut tap: Vec<(i64, RoutineEvent)> = Vec::new();
        tap.push((0, RoutineEvent::Sound { sound: false }));
        tap.push((0, RoutineEvent::Constriction { i: 1, strength: Option::Some(45875) }));
        tap.push((0, RoutineEvent::ForceDiameter));
        tap.push((0, RoutineEvent::Constriction { i: 1, strength: Option::None }));
        tap.push((655, RoutineEvent::Sound { sound: true }));
        let mut routines: Vec<Routine> = Vec::new();
        routines.push(Routine { name: new_name_tongue_move(), events: tongue_move });
        routines.push(Routine { name: new_name_tap(), events: tap });
        Synth {
            sound_speed: 3 * FIX_ONE,
            seed: 0,
            benihora_params: BenihoraParams::new(),
            tongue_poses,
            other_constrictions,
            routines,
            noteon_routine: 0,
            noteoff_routine: 0,
            tongue_control: Control::Internal,
            time: 0,
            note_off_time: 0,
            benihora: Option::None,
            voice_manager: VoiceManager::new(),
            routine_runtime: Runtime::new(),
            reset_required: true,
            random_tongue: 1,
        }
    }

    /// Queue the routine at `index`; an index past the table does nothing.
    pub fn trigger_routine(&mut self, index: usize)
        requires
            old(self).wf(),
        ensures
            final(self).wf(),
            index < old(self).routines@.len() ==> final(self).routine_runtime.events@
                == merge_events(
                remove_kinds(
                    old(self).routine_runtime.events@,
                    kinds_of(old(self).routines@[index as int].events@),
                ),
                old(self).routines@[index as int].events@,
            ),
            index >= old(self).routines@.len() ==> final(self).routine_runtime
                == old(self).routine_runtime,
            final(self).benihora == old(self).benihora,
            final(self).voice_manager == old(self).voice_manager,
            final(self).routines == old(self).routines,
            final(self).note_off_time == old(self).note_off_time,
            final(self).time == old(self).time,
            final(self).tongue_poses == old(self).tongue_poses,
            final(self).other_constrictions == old(self).other_constrictions,
    {
        if self.routines.len() <= index {
            return ;
        }
        let routine: &Routine = &self.routines[index];
        self.routine_runtime.push_routine(routine);
    }

    /// One host sample: dispatch every routine event that has come due,
    /// then advance the kernel.
    #[verifier::rlimit(100)]
    pub fn process(&mut self, dtime: i64) -> (out: i64)
        requires
            old(self).wf(),
            old(self).benihora is Some,
            0 <= dtime <= FIX_ONE,
        ensures
            final(self).wf(),
            final(self).benihora is Some,
            -FIX_ONE <= out <= FIX_ONE,
            final(self).routine_runtime.events@ == process_queue(
                old(self).routine_runtime.events@,
                dtime as int,
            ).0,
            final(self).routines == old(self).routines,
            final(self).tongue_poses == old(self).tongue_poses,
            final(self).other_constrictions == old(self).other_constrictions,
            final(self).voice_manager == old(self).voice_manager,
            final(self).note_off_time == old(self).note_off_time,
            ({
                let pq = process_queue(old(self).routine_runtime.events@, dtime as int);
                exists|chain: Seq<Synth>|
                    (#[trigger] chain.len()) == pq.1.len() + 1 && queue_step_rel(
                        *old(self),
                        chain[0],
                        dtime as int,
                    ) && (forall|i: int|
                        0 <= i < pq.1.len() ==> dispatch_rel(chain[i], chain[i + 1], pq.1[i]))
                        && ({
                        let last = chain[pq.1.len() as int];
                        &&& last.benihora is Some
                        &&& final(self).voice_manager == last.voice_manager
                        &&& final(self).routine_runtime == last.routine_runtime
                        &&& final(self).random_tongue == last.random_tongue
                        &&& final(self).note_off_time == last.note_off_time
                        &&& crate::benihora::managed_process_rel(
                            last.benihora->Some_0,
                            final(self).benihora->Some_0,
                            last.benihora_params,
                            out as int,
                        )
                    })
            }),
    {
        let fired: Vec<RoutineEvent> = self.routine_runtime.process(dtime);
        let ghost mut chain: Seq<Synth> = seq![*self];
        proof {
            assert(queue_step_rel(*old(self), chain[0], dtime as int));
        }
        let mut i: usize = 0;
        while i < fired.len()
            invariant
                i <= fired@.len(),
                self.wf(),
                self.benihora is Some,
                fired@ == process_queue(old(self).routine_runtime.events@, dtime as int).1,
                chain.len() == i + 1,
                chain.last() == *self,
                queue_step_rel(*old(self), chain[0], dtime as int),
                forall|j: int| 0 <= j < i ==> dispatch_rel(chain[j], chain[j + 1], fired@[j]),
                self.routine_runtime.events@ == process_queue(
                    old(self).routine_runtime.events@,
                    dtime as int,
                ).0,
                self.routines == old(self).routines,
                self.tongue_poses == old(self).tongue_poses,
                self.other_constrictions == old(self).other_constrictions,
                self.voice_manager == old(self).voice_manager,
                self.note_off_time == old(self).note_off_time,
                self.benihora_params == old(self).benihora_params,
            decreases fired@.len() - i,
        {
            let ev: RoutineEvent = fired[i];
            let ghost pre_ev: Synth = *self;
            self.dispatch(ev);
            proof {
                chain = chain.push(*self);
                assert(dispatch_rel(pre_ev, *self, ev));
            }
            i = i + 1;
        }
        let params: BenihoraParams = self.benihora_params;
        let ghost last: Synth = *self;
        let out: i64 = match &mut self.benihora {
            Option::Some(b) => b.process(&params),
            Option::None => 0,
        };
        proof {
            let pq = process_queue(old(self).routine_runtime.events@, dtime as int);
            assert((chain.len()) == pq.1.len() + 1 && queue_step_rel(
                *old(self),
                chain[0],
                dtime as int,
            ) && (forall|j: int|
                0 <= j < pq.1.len() ==> dispatch_rel(chain[j], chain[j + 1], pq.1[j])) && ({
                let last2 = chain[pq.1.len() as int];
                &&& last2.benihora is Some
                &&& self.voice_manager == last2.voice_manager
                &&& self.routine_runtime == last2.routine_runtime
                &&& self.random_tongue == last2.random_tongue
                &&& self.note_off_time == last2.note_off_time
                &&& crate::benihora::managed_process_rel(
                    last2.benihora->Some_0,
                    self.benihora->Some_0,
                    last2.benihora_params,
                    out as int,
                )
            }));
        }
        out
    }

    /// Apply one routine event to the kernel (see the event list for what
    /// each kind means); events whose indices fall outside the preset
    /// tables are ignored.
    fn dispatch(&mut self, ev: RoutineEvent)
        requires
            old(self).wf(),
            old(self).benihora is Some,
        ensures
            dispatch_rel(*old(self), *final(self), ev),
            final(self).wf(),
            final(self).benihora is Some,
            final(self).routine_runtime == old(self).routine_runtime,
            final(self).routines == old(self).routines,
            final(self).tongue_poses == old(self).tongue_poses,
            final(self).other_constrictions == old(self).other_constrictions,
            final(self).voice_manager == old(self).voice_manager,
            final(self).benihora_params == old(self).benihora_params,
            final(self).time == old(self).time,
            final(self).note_off_time == old(self).note_off_time,
            final(self).seed == old(self).seed,
    {
        match ev {
            RoutineEvent::Tongue { index, speed } => {
                let pose: (i64, i64) = match index {
                    TongueIndex::Index(i) => {
                        if self.tongue_poses.len() <= i {
                            return ;
                        }
                        self.tongue_poses[i]
                    },
                    TongueIndex::Random => {
                        if self.tongue_poses.len() == 0 {
                            return ;
                        }
                        self.random_tongue = self.random_tongue.wrapping_mul(48271) % 0x7FFFFFFF;
                        let pick: usize = (self.random_tongue as usize) % self.tongue_poses.len();
                        self.tongue_poses[pick]
                    },
                };
                match &mut self.benihora {
                    Option::Some(b) => {
                        b.tract.tongue_target = pose;
                        if let Option::Some(s) = speed {
                            b.tract.speed = clamp_fix(s, 0, 20971520);
                        }
                    },
                    Option::None => {},
                }
            },
            RoutineEvent::Constriction { i, strength } => {
                if self.other_constrictions.len() <= i {
                    return ;
                }
                let preset: (i64, i64) = self.other_constrictions[i];
                let d: i64 = match strength {
                    Option::Some(s0) => {
                        let s: i64 = clamp_fix(s0, 0, FIX_ONE);
                        proof {
                            lemma_fmul_bound(preset.1 as int, (FIX_ONE - s) as int, 0x4000000, FIX_ONE as int);
                            crate::fixed::lemma_sdiv_abs(
                                (preset.1 as int) * ((FIX_ONE - s) as int),
                                FIX_ONE as int,
                            );
                            vstd::arithmetic::div_mod::lemma_div_pos_is_pos(
                                (preset.1 as int) * ((FIX_ONE - s) as int),
                                FIX_ONE as int,
                            );
                            assert((preset.1 as int) * ((FIX_ONE - s) as int) >= 0)
                                by (nonlinear_arith)
                                requires
                                    preset.1 >= 0,
                                    s <= FIX_ONE,
                            ;
                        }
                        fix_mul(preset.1, FIX_ONE - s)
                    },
                    Option::None => 655360,
                };
                match &mut self.benihora {
                    Option::Some(b) => {
                        if i < b.benihora.tract.source.other_constrictions.len() {
                            b.benihora.tract.source.other_constrictions.set(i, (preset.0, d));
                        }
                    },
                    Option::None => {},
                }
            },
            RoutineEvent::Velum { openness: openness0 } => {
                let openness: i64 = clamp_fix(openness0, 0, FIX_ONE);
                proof {
                    lemma_fmul_bound(25559, openness as int, 25559, FIX_ONE as int);
                    crate::fixed::lemma_sdiv_abs(25559 * (openness as int), FIX_ONE as int);
                    crate::fixed::lemma_udiv_bound(25559 * (openness as int), FIX_ONE as int, 25559);
                    vstd::arithmetic::div_mod::lemma_div_pos_is_pos(
                        25559 * (openness as int),
                        FIX_ONE as int,
                    );
                    assert(0 <= 25559 * (openness as int) <= (FIX_ONE as int) * 25559)
                        by (nonlinear_arith)
                        requires
                            0 <= openness <= FIX_ONE,
                    ;
                }
                let target: i64 = 655 + fix_mul(25559, openness);
                match &mut self.benihora {
                    Option::Some(b) => b.benihora.tract.set_velum_target(target),
                    Option::None => {},
                }
            },
            RoutineEvent::Pitch { value: value0 } => {
                let value: i64 = clamp_fix(value0, -131072, 131072);
                let semis: i64 = crate::fixed::div_trunc(2 * value - FIX_ONE, 12);
                let bend: i64 = exp2_fix(clamp_fix(semis, -131072, 131072));
                match &mut self.benihora {
                    Option::Some(b) => {
                        b.frequency.pitchbend = bend;
                    },
                    Option::None => {},
                }
            },
            RoutineEvent::Sound { sound } => {
                match &mut self.benihora {
                    Option::Some(b) => {
                        b.sound = sound;
                    },
                    Option::None => {},
                }
            },
            RoutineEvent::ForceDiameter => {
                match &mut self.benihora {
                    Option::Some(b) => {
                        b.benihora.tract.update_diameter();
                        b.benihora.tract.snap_to_target();
                    },
                    Option::None => {},
                }
            },
        }
    }

    /// Translate one host event per the note layout: tongue presets,
    /// constriction keys, the velum key and routine keys in the low range,
    /// voiced notes (last-note priority) above.
    pub fn handle_event(&mut self, time: i64, event: &Event)
        requires
            old(self).wf(),
            old(self).benihora is Some,
            0 <= time <= 0x100000000000,
            match *event {
                Event::NoteOn { note, velocity } => note < 128 && 0 <= velocity <= FIX_ONE,
                Event::NoteOff { note } => note < 128,
                Event::PitchBend { value } => -131072 <= value <= 131072,
            },
        ensures
            final(self).wf(),
            final(self).benihora is Some,
            ({
                let tongues = old(self).tongue_poses@.len() as int;
                let constrictions = old(self).other_constrictions@.len() as int;
                let routines = old(self).routines@.len() as int;
                match *event {
                    Event::NoteOn { note, velocity } => {
                        let role = spec_note_role(note as int, tongues, constrictions, routines);
                        &&& role is Voice ==> {
                            &&& final(self).voice_manager.voices@ == old(self).voice_manager.voices@.push(note)
                            &&& final(self).benihora->Some_0.sound
                            &&& final(self).benihora->Some_0.frequency.target_frequency
                                == spec_note_frequency(note as int)
                        }
                        &&& role is TonguePreset ==> ({
                            let pose = old(self).tongue_poses@[note as int];
                            let clamped = crate::shape::spec_tongue_clamp(
                                pose.0 as int,
                                pose.1 as int,
                            );
                            &&& final(self).benihora->Some_0.tract.tongue_target.0
                                == clamped.0
                            &&& final(self).benihora->Some_0.tract.tongue_target.1
                                == clamped.1
                            &&& final(self).voice_manager == old(self).voice_manager
                            &&& final(self).routine_runtime == old(self).routine_runtime
                            &&& final(self).benihora->Some_0.sound == old(self).benihora->Some_0.sound
                            &&& final(self).benihora->Some_0.frequency == old(self).benihora->Some_0.frequency
                        })
                        &&& role is VelumKey ==> {
                            &&& final(self).benihora->Some_0.benihora.tract.target_diameter.nose@
                                == old(self).benihora->Some_0.benihora.tract.target_diameter.nose@.update(
                                0,
                                (655 + fmul(25559, velocity as int)) as i64,
                            )
                            &&& final(self).voice_manager == old(self).voice_manager
                            &&& final(self).routine_runtime == old(self).routine_runtime
                        }
                        &&& role is ConstrictionKey ==> ({
                            let i = note as int - tongues;
                            let src0 = old(self).benihora->Some_0.benihora.tract.source;
                            let d = fmul(
                                old(self).other_constrictions@[i].1 as int,
                                (FIX_ONE as int) - velocity,
                            );
                            let cs2 = if i < src0.other_constrictions@.len() {
                                src0.other_constrictions@.update(
                                    i,
                                    (old(self).other_constrictions@[i].0, d as i64),
                                )
                            } else {
                                src0.other_constrictions@
                            };
                            &&& final(self).benihora->Some_0.benihora.tract.source.other_constrictions@ == cs2
                            &&& final(self).benihora->Some_0.benihora.tract.target_diameter.mouth@
                                == crate::shape::apply_constrictions(
                                crate::shape::mouth_after_tongue(
                                    src0.tongue.0 as int,
                                    src0.tongue.1 as int,
                                ),
                                cs2,
                            )
                            &&& final(self).voice_manager == old(self).voice_manager
                            &&& final(self).routine_runtime == old(self).routine_runtime
                        })
                        &&& role is RoutineKey ==> ({
                            let idx = note as int - (tongues + constrictions + 1);
                            &&& final(self).routine_runtime.events@ == merge_events(
                                remove_kinds(
                                    old(self).routine_runtime.events@,
                                    kinds_of(old(self).routines@[idx].events@),
                                ),
                                old(self).routines@[idx].events@,
                            )
                            &&& final(self).voice_manager == old(self).voice_manager
                            &&& final(self).benihora == old(self).benihora
                        })
                    },
                    Event::NoteOff { note } => {
                        let role = spec_note_role(note as int, tongues, constrictions, routines);
                        &&& role is Voice ==> {
                            &&& final(self).voice_manager.voices@ == old(self).voice_manager.voices@.filter(|n: u8| n != note)
                            &&& (final(self).voice_manager.voices@.len() == 0 ==> !final(self).benihora->Some_0.sound && final(self).note_off_time == time)
                            &&& (final(self).voice_manager.voices@.len() > 0 ==> final(self).benihora->Some_0.sound && final(self).benihora->Some_0.frequency.target_frequency == spec_note_frequency(
                                final(self).voice_manager.voices@.last() as int,
                            ))
                        }
                        &&& role is TonguePreset ==> *final(self) == *old(self)
                        &&& role is RoutineKey ==> *final(self) == *old(self)
                        &&& role is VelumKey ==> {
                            &&& final(self).benihora->Some_0.benihora.tract.target_diameter.nose@
                                == old(self).benihora->Some_0.benihora.tract.target_diameter.nose@.update(
                                0,
                                655i64,
                            )
                            &&& final(self).voice_manager == old(self).voice_manager
                            &&& final(self).routine_runtime == old(self).routine_runtime
                        }
                        &&& role is ConstrictionKey ==> ({
                            let i = note as int - tongues;
                            let src0 = old(self).benihora->Some_0.benihora.tract.source;
                            let cs2 = if i < src0.other_constrictions@.len() {
                                src0.other_constrictions@.update(
                                    i,
                                    (old(self).other_constrictions@[i].0, 655360i64),
                                )
                            } else {
                                src0.other_constrictions@
                            };
                            &&& final(self).benihora->Some_0.benihora.tract.source.other_constrictions@ == cs2
                            &&& final(self).benihora->Some_0.benihora.tract.target_diameter.mouth@
                                == crate::shape::apply_constrictions(
                                crate::shape::mouth_after_tongue(
                                    src0.tongue.0 as int,
                                    src0.tongue.1 as int,
                                ),
                                cs2,
                            )
                            &&& final(self).voice_manager == old(self).voice_manager
                            &&& final(self).routine_runtime == old(self).routine_runtime
                        })
                    },
                    Event::PitchBend { value } => final(self).benihora->Some_0.frequency.pitchbend == spec_exp2(value as int),
                }
            }),
    {
        match event {
            Event::NoteOn { note, velocity } => {
                let note: u8 = *note;
                let velocity: i64 = *velocity;
                let tongues: usize = self.tongue_poses.len();
                let constrictions: usize = self.other_constrictions.len();
                let routines: usize = self.routines.len();
                if (note as usize) < tongues {
                    let pose: (i64, i64) = self.tongue_poses[note as usize];
                    match &mut self.benihora {
                        Option::Some(b) => {
                            let clamped: (i64, i64) = b.benihora.tract.source.tongue_clamp(
                                pose.0,
                                pose.1,
                            );
                            b.tract.tongue_target = clamped;
                        },
                        Option::None => {},
                    }
                    return ;
                }
                if (note as usize) < tongues + constrictions {
                    let i: usize = (note as usize) - tongues;
                    let preset: (i64, i64) = self.other_constrictions[i];
                    proof {
                        lemma_fmul_bound(preset.1 as int, (FIX_ONE - velocity) as int, 0x4000000, FIX_ONE as int);
                        crate::fixed::lemma_sdiv_abs(
                            (preset.1 as int) * ((FIX_ONE - velocity) as int),
                            FIX_ONE as int,
                        );
                        vstd::arithmetic::div_mod::lemma_div_pos_is_pos(
                            (preset.1 as int) * ((FIX_ONE - velocity) as int),
                            FIX_ONE as int,
                        );
                        assert((preset.1 as int) * ((FIX_ONE - velocity) as int) >= 0)
                            by (nonlinear_arith)
                            requires
                                preset.1 >= 0,
                                velocity <= FIX_ONE,
                        ;
                    }
                    let d: i64 = fix_mul(preset.1, FIX_ONE - velocity);
                    match &mut self.benihora {
                        Option::Some(b) => {
                            if i < b.benihora.tract.source.other_constrictions.len() {
                                b.benihora.tract.source.other_constrictions.set(i, (preset.0, d));
                            }
                            b.benihora.tract.update_diameter();
                        },
                        Option::None => {},
                    }
                    return ;
                }
                if (note as usize) == tongues + constrictions {
                    proof {
                        lemma_fmul_bound(25559, velocity as int, 25559, FIX_ONE as int);
                        crate::fixed::lemma_sdiv_abs(25559 * (velocity as int), FIX_ONE as int);
                        crate::fixed::lemma_udiv_bound(25559 * (velocity as int), FIX_ONE as int, 25559);
                        vstd::arithmetic::div_mod::lemma_div_pos_is_pos(
                            25559 * (velocity as int),
                            FIX_ONE as int,
                        );
                        assert(0 <= 25559 * (velocity as int) <= (FIX_ONE as int) * 25559)
                            by (nonlinear_arith)
                            requires
                                0 <= velocity <= FIX_ONE,
                        ;
                    }
                    let target: i64 = 655 + fix_mul(25559, velocity);
                    match &mut self.benihora {
                        Option::Some(b) => b.benihora.tract.set_velum_target(target),
                        Option::None => {},
                    }
                    return ;
                }
                if (note as usize) < tongues + constrictions + 1 + routines {
                    let idx: usize = (note as usize) - (tongues + constrictions + 1);
                    self.trigger_routine(idx);
                    return ;
                }
                let muted: bool = match &self.benihora {
                    Option::Some(b) => b.intensity.get() < 655 && self.note_off_time + 16384
                        < time,
                    Option::None => false,
                };
                self.voice_manager.noteon(note);
                let freq: i64 = note_frequency(note);
                match &mut self.benihora {
                    Option::Some(b) => {
                        b.frequency.set(freq, muted);
                        b.set_tenseness(velocity);
                        b.sound = true;
                    },
                    Option::None => {},
                }
                if 1 <= self.noteon_routine && self.noteon_routine <= self.routines.len() {
                    let idx: usize = self.noteon_routine - 1;
                    self.trigger_routine(idx);
                }
            },
            Event::NoteOff { note } => {
                let note: u8 = *note;
                let tongues: usize = self.tongue_poses.len();
                let constrictions: usize = self.other_constrictions.len();
                let routines: usize = self.routines.len();
                if (note as usize) < tongues {
                    return ;
                }
                if (note as usize) < tongues + constrictions {
                    let i: usize = (note as usize) - tongues;
                    let preset: (i64, i64) = self.other_constrictions[i];
                    match &mut self.benihora {
                        Option::Some(b) => {
                            if i < b.benihora.tract.source.other_constrictions.len() {
                                b.benihora.tract.source.other_constrictions.set(
                                    i,
                                    (preset.0, 655360),
                                );
                            }
                            b.benihora.tract.update_diameter();
                        },
                        Option::None => {},
                    }
                    return ;
                }
                if (note as usize) == tongues + constrictions {
                    match &mut self.benihora {
                        Option::Some(b) => b.benihora.tract.set_velum_target(655),
                        Option::None => {},
                    }
                    return ;
                }
                if (note as usize) < tongues + constrictions + 1 + routines {
                    return ;
                }
                let ghost held: Seq<u8> = self.voice_manager.voices@;
                self.voice_manager.noteoff(note);
                proof {
                    lemma_filter_small(held, note);
                }
                let active: Option<u8> = self.voice_manager.get_voice();
                match active {
                    Option::Some(n) => {
                        let freq: i64 = note_frequency(n);
                        match &mut self.benihora {
                            Option::Some(b) => {
                                b.frequency.set(freq, false);
                                b.sound = true;
                            },
                            Option::None => {},
                        }
                    },
                    Option::None => {
                        match &mut self.benihora {
                            Option::Some(b) => {
                                b.sound = false;
                            },
                            Option::None => {},
                        }
                        self.note_off_time = time;
                        if 1 <= self.noteoff_routine && self.noteoff_routine
                            <= self.routines.len() {
                            let idx: usize = self.noteoff_routine - 1;
                            self.trigger_routine(idx);
                        }
                    },
                }
            },
            Event::PitchBend { value } => {
                let bend: i64 = exp2_fix(*value);
                match &mut self.benihora {
                    Option::Some(b) => {
                        b.frequency.pitchbend = bend;
                    },
                    Option::None => {},
                }
            },
        }
    }

    /// Build the kernel if it is missing or a reset was requested: the
    /// fresh kernel is silent, its constriction table is seeded from the
    /// configuration with every constriction fully open, and the
    /// routine-random stream is re-seeded one past the synth seed. With a
    /// live kernel and no pending reset this is a no-op.
    pub fn ensure_benihora(&mut self, sample_rate: i64)
        requires
            old(self).wf(),
            HOST_RATE_MIN <= sample_rate <= FIX_BOUND,
        ensures
            final(self).wf(),
            final(self).benihora is Some,
            !final(self).reset_required,
            old(self).benihora is Some && !old(self).reset_required ==> *final(self) == *old(self),
            old(self).benihora is None || old(self).reset_required ==> {
                &&& !final(self).benihora->Some_0.sound
                &&& final(self).random_tongue == old(self).seed + 1
                &&& final(self).benihora->Some_0.benihora.tract.source.other_constrictions@
                    == Seq::new(
                    old(self).other_constrictions@.len(),
                    |i: int| (old(self).other_constrictions@[i].0, 655360i64),
                )
                &&& final(self).voice_manager == old(self).voice_manager
                &&& final(self).routine_runtime == old(self).routine_runtime
            },
    {
        if self.benihora.is_none() || self.reset_required {
            let fresh: BenihoraManaged = BenihoraManaged::new(
                self.sound_speed,
                sample_rate,
                FIX_ONE,
                self.seed,
            );
            self.benihora = Option::Some(fresh);
            self.ensure_other_constriction();
            self.random_tongue = self.seed + 1;
            self.reset_required = false;
        } else {
            proof {
                assert(self.benihora is Some);
            }
        }
    }

    /// Seed the kernel's constriction table from the configuration, fully
    /// open, if it is still empty.
    pub fn ensure_other_constriction(&mut self)
        requires
            old(self).wf(),
            old(self).benihora is Some,
        ensures
            final(self).wf(),
            final(self).benihora is Some,
            old(self).benihora->Some_0.benihora.tract.source.other_constrictions@.len() == 0
                ==> final(self).benihora->Some_0.benihora.tract.source.other_constrictions@
                == Seq::new(
                old(self).other_constrictions@.len(),
                |i: int| (old(self).other_constrictions@[i].0, 655360i64),
            ),
            old(self).benihora->Some_0.benihora.tract.source.other_constrictions@.len() != 0
                ==> *final(self) == *old(self),
            final(self).voice_manager == old(self).voice_manager,
            final(self).routine_runtime == old(self).routine_runtime,
            final(self).benihora->Some_0.sound == old(self).benihora->Some_0.sound,
            final(self).random_tongue == old(self).random_tongue,
            final(self).other_constrictions == old(self).other_constrictions,
            final(self).tongue_poses == old(self).tongue_poses,
            final(self).routines == old(self).routines,
            final(self).seed == old(self).seed,
            final(self).reset_required == old(self).reset_required,
    {
        let mut fill: Vec<(i64, i64)> = Vec::new();
        let mut i: usize = 0;
        while i < self.other_constrictions.len()
            invariant
                i <= self.other_constrictions@.len(),
                self.wf(),
                *self == *old(self),
                self.benihora is Some,
                fill@.len() == i,
                forall|j: int| 0 <= j < i ==> #[trigger] fill@[j] == (
                    self.other_constrictions@[j].0,
                    655360i64,
                ),
                forall|j: int|
                    0 <= j < i ==> -0x4000000 <= (#[trigger] fill@[j]).0 <= 0x4000000
                        && -0x4000000 <= (fill@[j]).1 <= 0x4000000,
            decreases self.other_constrictions@.len() - i,
        {
            let c: (i64, i64) = self.other_constrictions[i];
            fill.push((c.0, 655360));
            i = i + 1;
        }
        proof {
            assert(fill@ =~= Seq::new(
                old(self).other_constrictions@.len(),
                |i: int| (old(self).other_constrictions@[i].0, 655360i64),
            ));
        }
        match &mut self.benihora {
            Option::Some(b) => {
                if b.benihora.tract.source.other_constrictions.len() == 0 {
                    if fill.len() <= 64 {
                        b.benihora.tract.source.other_constrictions = fill;
                    }
                }
            },
            Option::None => {},
        }
    }

    /// Ask for the kernel to be rebuilt at the next opportunity.
    pub fn request_reset(&mut self)
        requires
            old(self).wf(),
        ensures
            final(self).wf(),
            final(self).reset_required,
    {
        self.reset_required = true;
    }
}

/// The display name of the stock tongue routine.
fn new_name_tongue_move() -> (r: String) {
    "Tongue move".to_owned()
}

/// The display name of the stock tap routine.
fn new_name_tap() -> (r: String) {
    "Tap".to_owned()
}

} // verus!
