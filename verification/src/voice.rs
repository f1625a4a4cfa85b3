//! Monophonic note stack with last-note priority: the active voice is the
//! most recently pressed note that is still held.

use vstd::prelude::*;

verus! {

/// Held MIDI note numbers, oldest first.
pub struct VoiceManager {
    pub voices: Vec<u8>,
}

impl VoiceManager {
    /// An empty stack: no note is held.
    pub fn new() -> (r: VoiceManager)
        ensures
            r.voices@ == Seq::<u8>::empty(),
    {
        VoiceManager { voices: Vec::new() }
    }

    /// The active voice: the last held note, if any note is held.
    pub fn get_voice(&mut self) -> (r: Option<u8>)
        ensures
            *final(self) == *old(self),
            r == if old(self).voices@.len() == 0 {
                Option::<u8>::None
            } else {
                Option::Some(old(self).voices@.last())
            },
    {
        if self.voices.len() == 0 {
            Option::None
        } else {
            Option::Some(self.voices[self.voices.len() - 1])
        }
    }

    /// Pressing a note pushes it on the stack, making it the active voice.
    pub fn noteon(&mut self, note: u8)
        ensures
            final(self).voices@ == old(self).voices@.push(note),
    {
        self.voices.push(note);
    }

    /// Releasing a note removes every held copy of it; the remaining notes
    /// keep their order.
    pub fn noteoff(&mut self, note: u8)
        ensures
            final(self).voices@ == old(self).voices@.filter(|n: u8| n != note),
    {
        let mut kept: Vec<u8> = Vec::new();
        let mut i: usize = 0;
        proof {
            assert(old(self).voices@.subrange(0, 0) =~= Seq::<u8>::empty());
            assert(Seq::<u8>::empty().filter(|n: u8| n != note) =~= Seq::<u8>::empty()) by {
                reveal(Seq::filter);
            }
        }
        while i < self.voices.len()
            invariant
                i <= self.voices@.len(),
                self.voices@ == old(self).voices@,
                kept@ == self.voices@.subrange(0, i as int).filter(|n: u8| n != note),
            decreases self.voices@.len() - i,
        {
            let v: u8 = self.voices[i];
            let ghost pre: Seq<u8> = self.voices@.subrange(0, i as int);
            let ghost post: Seq<u8> = self.voices@.subrange(0, i as int + 1);
            proof {
                assert(post.drop_last() =~= pre);
                assert(post.last() == v);
                reveal(Seq::filter);
            }
            if v != note {
                kept.push(v);
            }
            i = i + 1;
        }
        proof {
            assert(self.voices@.subrange(0, self.voices@.len() as int) =~= self.voices@);
        }
        self.voices = kept;
    }
}

} // verus!
