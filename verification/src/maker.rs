use vstd::prelude::*;
use crate::formation::Formation;

verus! {

/// What a maker remembers between two calls.
pub struct MakerState {
    /// The path that the current batch shares, if one was made yet.
    pub template: Option<Formation>,
    /// How many enemies were given that path so far.
    pub members: nat,
}

impl MakerState {
    /// The state at startup: no path, nobody served.
    pub open spec fn empty() -> MakerState {
        MakerState { template: None, members: 0 }
    }

    /// A path is stored exactly as long as somebody was served with it.
    pub open spec fn wf(self) -> bool {
        (self.template is None) == (self.members == 0)
    }

    /// Whether the next call hands out the stored path once more: there is
    /// one, and the batch is not full.
    pub open spec fn reuses(self, batch_max: nat) -> bool {
        self.template is Some && self.members < batch_max
    }

    /// The path that the next call hands out, where `fresh` is the path that
    /// would be generated if one is needed.
    pub open spec fn hands_out(self, batch_max: nat, fresh: Formation) -> Formation {
        if self.reuses(batch_max) {
            self.template->0
        } else {
            fresh
        }
    }

    /// The state after the next call. A path that is shared again counts one
    /// more member; a fresh one replaces the stored path and counts its first.
    pub open spec fn step(self, batch_max: nat, fresh: Formation) -> MakerState {
        if self.reuses(batch_max) {
            MakerState { template: self.template, members: self.members + 1 }
        } else {
            MakerState { template: Some(fresh), members: 1 }
        }
    }
}

/// Generator of flight paths that lets up to `batch_max` consecutive enemies
/// share one path before it asks for a new one.
#[derive(Debug)]
pub struct FormationMaker {
    current_template: Option<Formation>,
    current_members: u32,
}

impl View for FormationMaker {
    type V = MakerState;

    closed spec fn view(&self) -> MakerState {
        MakerState { template: self.current_template, members: self.current_members as nat }
    }
}

impl Default for FormationMaker {
    fn default() -> (maker: FormationMaker)
        ensures
            maker@ == MakerState::empty(),
    {
        FormationMaker::new()
    }
}

impl FormationMaker {
    /// A maker that has not made any path yet.
    pub fn new() -> (maker: FormationMaker)
        ensures
            maker@ == MakerState::empty(),
    {
        FormationMaker { current_template: None, current_members: 0 }
    }

    /// The path that the current batch shares, if any.
    pub fn current_template(&self) -> (template: Option<Formation>)
        ensures
            template == self@.template,
    {
        self.current_template
    }

    /// How many enemies share the current path.
    pub fn current_members(&self) -> (members: u32)
        ensures
            members == self@.members,
    {
        self.current_members
    }

    /// Whether the next call of [`FormationMaker::make`] has to generate a
    /// path instead of sharing the stored one.
    pub fn needs_fresh(&self, batch_max: u32) -> (needed: bool)
        ensures
            needed == !self@.reuses(batch_max as nat),
    {
        match self.current_template {
            Some(_) => self.current_members >= batch_max,
            None => true,
        }
    }

    /// Hands out the path for one more enemy.
    ///
    /// While a path is stored and fewer than `batch_max` enemies have it,
    /// that path is returned once more and the count grows by one;
    /// `generate` is not called. Otherwise `generate` is called once, and
    /// its result is stored, counted as given to one enemy, and returned.
    pub fn make<F: FnOnce() -> Formation>(&mut self, batch_max: u32, generate: F) -> (out: Formation)
        requires
            !old(self)@.reuses(batch_max as nat) ==> generate.requires(()),
        ensures
            old(self)@.reuses(batch_max as nat) ==> old(self)@.template == Some(out),
            !old(self)@.reuses(batch_max as nat) ==> generate.ensures((), out),
            final(self)@ == old(self)@.step(batch_max as nat, out),
            out == old(self)@.hands_out(batch_max as nat, out),
            final(self)@.wf(),
    {
        match self.current_template {
            Some(template) if self.current_members < batch_max => {
                self.current_members = self.current_members + 1;
                template
            },
            _ => {
                let fresh = generate();
                self.current_template = Some(fresh);
                self.current_members = 1;
                fresh
            },
        }
    }
}

} // verus!
