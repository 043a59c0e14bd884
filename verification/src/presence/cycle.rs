//! The rotation of the dynamic presence: presets are shown from the first to
//! the last, then from the first again.
use vstd::prelude::*;
use crate::model::preset::{Preset, PresetView};

verus! {

/// How long each preset stays before the next update, in milliseconds
/// (about every four seconds).
pub const UPDATE_INTERVAL_MILLIS: u64 = 4010;

/// The values of a list of presets.
pub open spec fn presets_view(v: Seq<Preset>) -> Seq<PresetView> {
    v.map_values(|p: Preset| p@)
}

/// A list of presets, the position of the next one to show, and how many
/// have been shown since the list was put in.
pub struct PresetCycle {
    presets: Vec<Preset>,
    place: Place,
}

/// Where a rotation stands: the position of the next preset and the count
/// of presets shown.
struct Place {
    position: usize,
    shown: Ghost<nat>,
}

impl PresetCycle {
    #[verifier::type_invariant]
    spec fn position_follows_count(self) -> bool {
        if self.presets.len() == 0 {
            self.place.position == 0
        } else {
            self.place.position == self.place.shown@ % (self.presets.len() as nat)
        }
    }

    /// The presets, in the order in which they are shown.
    pub closed spec fn presets(self) -> Seq<Preset> {
        self.presets@
    }

    /// How many presets have been shown since the list was put in, by `new`
    /// or `reload`.
    pub closed spec fn shown(self) -> nat {
        self.place.shown@
    }

    /// The position of the preset that is shown next: the count of presets
    /// shown so far modulo the length of the list.
    pub open spec fn position(self) -> nat {
        if self.presets().len() == 0 {
            0
        } else {
            self.shown() % self.presets().len()
        }
    }

    /// A rotation that starts at the first of `presets`.
    pub fn new(presets: Vec<Preset>) -> (res: Self)
        ensures
            res.presets() == presets@,
            res.shown() == 0,
    {
        proof {
            if presets.len() > 0 {
                vstd::arithmetic::div_mod::lemma_small_mod(0, presets.len() as nat);
            }
        }
        PresetCycle { presets, place: Place { position: 0, shown: Ghost(0) } }
    }

    /// How many presets are in the rotation.
    pub fn len(&self) -> (res: usize)
        ensures
            res == self.presets().len(),
    {
        self.presets.len()
    }

    /// The preset at `index`.
    pub fn preset(&self, index: usize) -> (res: &Preset)
        requires
            index < self.presets().len(),
        ensures
            *res == self.presets()[index as int],
    {
        &self.presets[index]
    }

    /// The position of the preset to show now, moving on to the one after
    /// it (after the last, the first); `None` where the list is empty. The
    /// `k`-th call (from 0) since the list was put in gives `k` modulo the
    /// length of the list: the presets come from the first to the last, then
    /// from the first again.
    pub fn next(&mut self) -> (res: Option<usize>)
        ensures
            final(self).presets() == old(self).presets(),
            res is Some <==> old(self).presets().len() > 0,
            res matches Some(i) ==> {
                &&& i < old(self).presets().len()
                &&& i == old(self).shown() % old(self).presets().len()
                &&& i == old(self).position()
            },
            old(self).presets().len() == 0 ==> final(self).shown() == old(self).shown(),
            old(self).presets().len() > 0 ==> final(self).shown() == old(self).shown() + 1,
    {
        proof {
            use_type_invariant(&*self);
        }
        let n = self.presets.len();
        if n == 0 {
            None
        } else {
            let shown = self.place.position;
            let ghost count = self.place.shown@;
            proof {
                let m = n as nat;
                vstd::arithmetic::div_mod::lemma_mod_bound(count as int, m as int);
                vstd::arithmetic::div_mod::lemma_add_mod_noop(count as int, 1, m as int);
                if m == 1 {
                    vstd::arithmetic::div_mod::lemma_mod_self_0(1);
                } else {
                    vstd::arithmetic::div_mod::lemma_small_mod(1, m);
                }
                if shown + 1 < n {
                    vstd::arithmetic::div_mod::lemma_small_mod((shown + 1) as nat, m);
                } else {
                    vstd::arithmetic::div_mod::lemma_mod_self_0(m as int);
                }
            }
            let next_position: usize = if shown + 1 == n {
                0
            } else {
                shown + 1
            };
            self.place = Place { position: next_position, shown: Ghost(count + 1) };
            Some(shown)
        }
    }

    /// Puts a new list of presets in the rotation, which starts again at
    /// its first.
    pub fn reload(&mut self, presets: Vec<Preset>)
        ensures
            final(self).presets() == presets@,
            final(self).shown() == 0,
    {
        proof {
            if presets.len() > 0 {
                vstd::arithmetic::div_mod::lemma_small_mod(0, presets.len() as nat);
            }
        }
        *self = PresetCycle { presets, place: Place { position: 0, shown: Ghost(0) } };
    }
}

} // verus!
