//! The preset catalog and the per-user sticky preset selection.

use vstd::prelude::*;
use crate::clock::{now_millis, random_below};
use crate::models::{Millis, same_text};

verus! {

/// A prompt template from the catalog.
#[derive(Debug)]
pub struct Preset {
    pub id: String,
    pub name: String,
    pub description: String,
    pub tags: Vec<String>,
    pub button_text: String,
    pub loading_text: String,
    pub instruction_text: String,
    pub system_prompt: String,
    pub user_prompts: Vec<String>,
}

/// Two presets carry the same content.
pub open spec fn same_preset(a: Preset, b: Preset) -> bool {
    &&& a.id == b.id
    &&& a.name == b.name
    &&& a.description == b.description
    &&& a.tags@ == b.tags@
    &&& a.button_text == b.button_text
    &&& a.loading_text == b.loading_text
    &&& a.instruction_text == b.instruction_text
    &&& a.system_prompt == b.system_prompt
    &&& a.user_prompts@ == b.user_prompts@
}

/// A preset is usable: it has an id, a name, a system prompt and at least
/// one user prompt.
pub open spec fn valid_preset(p: Preset) -> bool {
    p.id@.len() > 0 && p.name@.len() > 0 && p.system_prompt@.len() > 0 && p.user_prompts@.len() > 0
}

/// Copies a vector of texts.
pub fn copy_texts(v: &Vec<String>) -> (r: Vec<String>)
    ensures
        r@ == v@,
{
    let mut out: Vec<String> = Vec::new();
    let mut i: usize = 0;
    while i < v.len()
        invariant
            0 <= i <= v@.len(),
            out@ =~= v@.take(i as int),
        decreases v@.len() - i,
    {
        out.push(v[i].clone());
        i = i + 1;
    }
    assert(out@ =~= v@);
    out
}

impl Preset {
    /// A copy of this preset.
    pub fn duplicate(&self) -> (r: Preset)
        ensures
            same_preset(r, *self),
    {
        Preset {
            id: self.id.clone(),
            name: self.name.clone(),
            description: self.description.clone(),
            tags: copy_texts(&self.tags),
            button_text: self.button_text.clone(),
            loading_text: self.loading_text.clone(),
            instruction_text: self.instruction_text.clone(),
            system_prompt: self.system_prompt.clone(),
            user_prompts: copy_texts(&self.user_prompts),
        }
    }

    /// Whether this preset is usable (see `valid_preset`).
    pub fn is_valid(&self) -> (r: bool)
        ensures
            r == valid_preset(*self),
    {
        !self.id.as_str().is_empty() && !self.name.as_str().is_empty()
            && !self.system_prompt.as_str().is_empty() && self.user_prompts.len() > 0
    }
}

/// A preset pinned to a user until `expires_at`.
#[derive(Debug)]
pub struct PresetSelection {
    pub preset: Preset,
    pub selected_at: Millis,
    pub expires_at: Millis,
}

/// Failures of catalog operations.
#[derive(Debug, Clone, Copy, PartialEq, Eq, Structural)]
pub enum PresetError {
    /// No preset has the requested id.
    NotFound,
    /// There is nothing to choose from.
    EmptyCatalog,
    /// A catalog entry lacks an id, a name, a system prompt or user prompts.
    InvalidPreset,
}

/// `i` is the first position of `s` whose preset has id `id`.
pub open spec fn first_with_id(s: Seq<Preset>, i: int, id: Seq<char>) -> bool {
    0 <= i < s.len() && s[i].id@ == id && forall|j: int| 0 <= j < i ==> s[j].id@ != id
}

/// The position of the first preset of `s` with id `id`, if any.
pub open spec fn position_of_id(s: Seq<Preset>, id: Seq<char>) -> Option<int> {
    if exists|i: int| first_with_id(s, i, id) {
        Some(choose|i: int| first_with_id(s, i, id))
    } else {
        None
    }
}

/// The id of the preset preferred as the default.
pub open spec fn default_preset_id() -> Seq<char> {
    "oracle"@
}

#[derive(Debug)]
struct Pin {
    user_id: String,
    selection: PresetSelection,
}

/// The catalog of presets, with the preset currently pinned to each user.
#[derive(Debug)]
pub struct Presets {
    presets: Vec<Preset>,
    pins: Vec<Pin>,
}

/// The outcome of a sticky selection for `user` at `now`, with `draw`
/// choosing among the catalog when a fresh pick is needed.
pub open spec fn selection_outcome(
    pre: Presets,
    post: Presets,
    user: Seq<char>,
    reset_at: Millis,
    now: Millis,
    draw: usize,
    r: Result<Preset, PresetError>,
) -> bool {
    &&& post.catalog() == pre.catalog()
    &&& forall|u: Seq<char>| u != user ==> post.pin(u) == pre.pin(u)
    &&& match pre.pin(user) {
        Some(sel) if sel.expires_at > now => {
            &&& post.pin(user) == pre.pin(user)
            &&& r matches Ok(p) && same_preset(p, sel.preset)
        },
        _ => if pre.catalog().len() == 0 {
            &&& post.pin(user) == pre.pin(user)
            &&& r == Err::<Preset, PresetError>(PresetError::EmptyCatalog)
        } else {
            let chosen = pre.catalog()[draw as int % pre.catalog().len() as int];
            &&& r matches Ok(p) && same_preset(p, chosen)
            &&& post.pin(user) matches Some(sel) && same_preset(sel.preset, chosen)
                && sel.selected_at == now && sel.expires_at == reset_at
        },
    }
}

impl Presets {
    /// The catalog, in load order.
    pub closed spec fn catalog(&self) -> Seq<Preset> {
        self.presets@
    }

    closed spec fn has_pin(&self, user: Seq<char>) -> bool {
        exists|i: int| 0 <= i < self.pins@.len() && self.pins@[i].user_id@ == user
    }

    /// The selection pinned to `user`, if any (it may have expired).
    pub closed spec fn pin(&self, user: Seq<char>) -> Option<PresetSelection> {
        if self.has_pin(user) {
            Some(
                self.pins@[choose|i: int|
                    0 <= i < self.pins@.len() && self.pins@[i].user_id@ == user].selection,
            )
        } else {
            None
        }
    }

    /// One pin per user, and every catalog entry usable.
    pub closed spec fn wf(&self) -> bool {
        &&& forall|i: int, j: int|
            0 <= i < self.pins@.len() && 0 <= j < self.pins@.len() && i != j
                ==> self.pins@[i].user_id@ != self.pins@[j].user_id@
        &&& forall|i: int| 0 <= i < self.presets@.len() ==> valid_preset(#[trigger] self.presets@[i])
    }

    /// Every entry of a well-formed catalog is usable.
    pub proof fn lemma_catalog_valid(&self)
        requires
            self.wf(),
        ensures
            forall|i: int| 0 <= i < self.catalog().len() ==> valid_preset(#[trigger] self.catalog()[i]),
    {
    }

    proof fn lemma_pin_at(&self, i: int)
        requires
            self.wf(),
            0 <= i < self.pins@.len(),
        ensures
            self.pin(self.pins@[i].user_id@) == Some(self.pins@[i].selection),
    {
        let u = self.pins@[i].user_id@;
        assert(self.has_pin(u));
        let c = choose|c: int| 0 <= c < self.pins@.len() && self.pins@[c].user_id@ == u;
        assert(c == i);
    }

    /// A catalog with no pins. Fails with `InvalidPreset` if some entry is
    /// not usable.
    pub fn from_presets(presets: Vec<Preset>) -> (r: Result<Presets, PresetError>)
        ensures
            match r {
                Ok(c) => c.wf() && c.catalog() == presets@ && (forall|u: Seq<char>| #[trigger] c.pin(u) is None)
                    && (forall|i: int| 0 <= i < presets@.len() ==> valid_preset(#[trigger] presets@[i])),
                Err(e) => e == PresetError::InvalidPreset && exists|i: int|
                    0 <= i < presets@.len() && !valid_preset(#[trigger] presets@[i]),
            },
    {
        let mut i: usize = 0;
        while i < presets.len()
            invariant
                0 <= i <= presets@.len(),
                forall|j: int| 0 <= j < i ==> valid_preset(#[trigger] presets@[j]),
            decreases presets@.len() - i,
        {
            if !presets[i].is_valid() {
                return Err(PresetError::InvalidPreset);
            }
            i = i + 1;
        }
        let c = Presets { presets, pins: Vec::new() };
        assert forall|u: Seq<char>| #[trigger] c.pin(u) is None by {
            assert(!c.has_pin(u));
        }
        Ok(c)
    }

    fn find_preset(&self, id: &str) -> (r: Option<usize>)
        ensures
            match r {
                Some(i) => position_of_id(self.catalog(), id@) == Some(i as int),
                None => position_of_id(self.catalog(), id@) is None,
            },
    {
        let mut i: usize = 0;
        while i < self.presets.len()
            invariant
                0 <= i <= self.presets@.len(),
                forall|j: int| 0 <= j < i ==> self.presets@[j].id@ != id@,
            decreases self.presets@.len() - i,
        {
            if same_text(self.presets[i].id.as_str(), id) {
                assert(first_with_id(self.catalog(), i as int, id@));
                assert forall|k: int| first_with_id(self.catalog(), k, id@) implies k == i by {
                    if k < i {
                    } else if k > i {
                        assert(self.presets@[i as int].id@ == id@);
                    }
                }
                return Some(i);
            }
            i = i + 1;
        }
        None
    }

    fn find_pin(&self, user_id: &str) -> (r: Option<usize>)
        ensures
            match r {
                Some(i) => i < self.pins@.len() && self.pins@[i as int].user_id@ == user_id@,
                None => !self.has_pin(user_id@),
            },
    {
        let mut i: usize = 0;
        while i < self.pins.len()
            invariant
                0 <= i <= self.pins@.len(),
                forall|j: int| 0 <= j < i ==> self.pins@[j].user_id@ != user_id@,
            decreases self.pins@.len() - i,
        {
            if same_text(self.pins[i].user_id.as_str(), user_id) {
                return Some(i);
            }
            i = i + 1;
        }
        None
    }

    /// The preset with id `id` (the first, should several share it).
    pub fn get_preset_by_id(&self, id: &str) -> (r: Option<Preset>)
        ensures
            match position_of_id(self.catalog(), id@) {
                Some(i) => r matches Some(p) && same_preset(p, self.catalog()[i]),
                None => r is None,
            },
    {
        match self.find_preset(id) {
            Some(i) => Some(self.presets[i].duplicate()),
            None => None,
        }
    }

    /// The number of presets in the catalog.
    pub fn preset_count(&self) -> (r: usize)
        ensures
            r == self.catalog().len(),
    {
        self.presets.len()
    }

    /// The whole catalog.
    pub fn get_all_presets(&self) -> (r: Vec<Preset>)
        ensures
            r@.len() == self.catalog().len(),
            forall|i: int| 0 <= i < r@.len() ==> same_preset(#[trigger] r@[i], self.catalog()[i]),
    {
        let mut out: Vec<Preset> = Vec::new();
        let mut i: usize = 0;
        while i < self.presets.len()
            invariant
                0 <= i <= self.presets@.len(),
                out@.len() == i,
                forall|j: int| 0 <= j < i ==> same_preset(#[trigger] out@[j], self.presets@[j]),
            decreases self.presets@.len() - i,
        {
            out.push(self.presets[i].duplicate());
            i = i + 1;
        }
        out
    }

    /// The catalog entry at `draw` modulo the catalog size.
    pub fn preset_for_draw(&self, draw: usize) -> (r: Result<Preset, PresetError>)
        ensures
            self.catalog().len() == 0 ==> r == Err::<Preset, PresetError>(PresetError::EmptyCatalog),
            self.catalog().len() > 0 ==> (r matches Ok(p) && same_preset(
                p,
                self.catalog()[draw as int % self.catalog().len() as int],
            )),
    {
        if self.presets.len() == 0 {
            return Err(PresetError::EmptyCatalog);
        }
        Ok(self.presets[draw % self.presets.len()].duplicate())
    }

    /// A preset drawn uniformly from the catalog.
    pub fn random_preset(&self) -> (r: Result<Preset, PresetError>)
        ensures
            self.catalog().len() == 0 ==> r == Err::<Preset, PresetError>(PresetError::EmptyCatalog),
            self.catalog().len() > 0 ==> exists|i: int|
                0 <= i < self.catalog().len() && (r matches Ok(p) && same_preset(
                    p,
                    #[trigger] self.catalog()[i],
                )),
    {
        if self.presets.len() == 0 {
            return Err(PresetError::EmptyCatalog);
        }
        let draw = random_below(self.presets.len());
        let r = self.preset_for_draw(draw);
        proof {
            vstd::arithmetic::div_mod::lemma_small_mod(draw as nat, self.catalog().len());
        }
        r
    }

    /// The prompt at `draw` modulo the prompt count of the preset `preset_id`.
    /// Fails with `NotFound` for an unknown id and with `EmptyCatalog` for a
    /// preset without prompts.
    pub fn user_prompt_for_draw(&self, preset_id: &str, draw: usize) -> (r: Result<String, PresetError>)
        ensures
            match position_of_id(self.catalog(), preset_id@) {
                None => r == Err::<String, PresetError>(PresetError::NotFound),
                Some(i) => {
                    let prompts = self.catalog()[i].user_prompts@;
                    if prompts.len() == 0 {
                        r == Err::<String, PresetError>(PresetError::EmptyCatalog)
                    } else {
                        r == Ok::<String, PresetError>(prompts[draw as int % prompts.len() as int])
                    }
                },
            },
    {
        match self.find_preset(preset_id) {
            None => Err(PresetError::NotFound),
            Some(i) => {
                let prompts = &self.presets[i].user_prompts;
                if prompts.len() == 0 {
                    Err(PresetError::EmptyCatalog)
                } else {
                    Ok(prompts[draw % prompts.len()].clone())
                }
            },
        }
    }

    /// A prompt drawn uniformly from the preset `preset_id`.
    pub fn random_user_prompt(&self, preset_id: &str) -> (r: Result<String, PresetError>)
        ensures
            match position_of_id(self.catalog(), preset_id@) {
                None => r == Err::<String, PresetError>(PresetError::NotFound),
                Some(i) => {
                    let prompts = self.catalog()[i].user_prompts@;
                    if prompts.len() == 0 {
                        r == Err::<String, PresetError>(PresetError::EmptyCatalog)
                    } else {
                        exists|k: int| 0 <= k < prompts.len() && r == Ok::<String, PresetError>(#[trigger] prompts[k])
                    }
                },
            },
    {
        let n = match self.find_preset(preset_id) {
            Some(i) => self.presets[i].user_prompts.len(),
            None => 0,
        };
        let draw = if n > 0 {
            random_below(n)
        } else {
            0
        };
        let r = self.user_prompt_for_draw(preset_id, draw);
        proof {
            if n > 0 {
                vstd::arithmetic::div_mod::lemma_small_mod(draw as nat, n as nat);
            }
        }
        r
    }

    /// The preset with id `oracle` if there is one, else the first entry.
    pub fn get_default_preset(&self) -> (r: Result<Preset, PresetError>)
        ensures
            match position_of_id(self.catalog(), default_preset_id()) {
                Some(i) => r matches Ok(p) && same_preset(p, self.catalog()[i]),
                None => if self.catalog().len() > 0 {
                    r matches Ok(p) && same_preset(p, self.catalog()[0])
                } else {
                    r == Err::<Preset, PresetError>(PresetError::EmptyCatalog)
                },
            },
    {
        let oracle = "oracle";
        proof {
            assert(oracle@ == default_preset_id());
        }
        if let Some(i) = self.find_preset(oracle) {
            return Ok(self.presets[i].duplicate());
        }
        if self.presets.len() == 0 {
            return Err(PresetError::EmptyCatalog);
        }
        Ok(self.presets[0].duplicate())
    }

    /// Returns the preset pinned to `user_id` if its pin has not expired at
    /// `now`; otherwise pins the catalog entry at `draw` modulo the catalog
    /// size until `reset_at` and returns it.
    pub fn get_or_select_preset_at(
        &mut self,
        user_id: &str,
        reset_at: Millis,
        now: Millis,
        draw: usize,
    ) -> (r: Result<Preset, PresetError>)
        requires
            old(self).wf(),
        ensures
            final(self).wf(),
            selection_outcome(*old(self), *final(self), user_id@, reset_at, now, draw, r),
    {
        let ghost pre = *self;
        let slot = self.find_pin(user_id);
        if let Some(i) = slot {
            proof {
                self.lemma_pin_at(i as int);
            }
            if self.pins[i].selection.expires_at > now {
                return Ok(self.pins[i].selection.preset.duplicate());
            }
        }
        if self.presets.len() == 0 {
            return Err(PresetError::EmptyCatalog);
        }
        let preset = self.presets[draw % self.presets.len()].duplicate();
        let pin = Pin {
            user_id: user_id.to_owned(),
            selection: PresetSelection { preset: preset.duplicate(), selected_at: now, expires_at: reset_at },
        };
        let n = self.pins.len();
        match slot {
            Some(i) => {
                self.pins.set(i, pin);
                proof {
                    self.lemma_pin_at(i as int);
                    assert forall|u: Seq<char>| u != user_id@ implies self.pin(u) == pre.pin(u) by {
                        if pre.has_pin(u) {
                            let c = choose|c: int| 0 <= c < pre.pins@.len() && pre.pins@[c].user_id@ == u;
                            pre.lemma_pin_at(c);
                            self.lemma_pin_at(c);
                        } else if self.has_pin(u) {
                            let c = choose|c: int| 0 <= c < self.pins@.len() && self.pins@[c].user_id@ == u;
                            assert(pre.pins@[c].user_id@ == u);
                        }
                    }
                }
            },
            None => {
                self.pins.push(pin);
                proof {
                    assert forall|i: int, j: int|
                        0 <= i < self.pins@.len() && 0 <= j < self.pins@.len() && i != j
                            implies self.pins@[i].user_id@ != self.pins@[j].user_id@ by {
                        if i == n {
                            assert(pre.pins@[j].user_id@ != user_id@);
                        } else if j == n {
                            assert(pre.pins@[i].user_id@ != user_id@);
                        }
                    }
                    self.lemma_pin_at(n as int);
                    assert forall|u: Seq<char>| u != user_id@ implies self.pin(u) == pre.pin(u) by {
                        if pre.has_pin(u) {
                            let c = choose|c: int| 0 <= c < pre.pins@.len() && pre.pins@[c].user_id@ == u;
                            pre.lemma_pin_at(c);
                            self.lemma_pin_at(c);
                        } else if self.has_pin(u) {
                            let c = choose|c: int| 0 <= c < self.pins@.len() && self.pins@[c].user_id@ == u;
                            assert(c != n);
                            assert(pre.pins@[c].user_id@ == u);
                        }
                    }
                }
            },
        }
        Ok(preset)
    }

    /// `get_or_select_preset_at` at the current time, with a uniform draw.
    pub fn get_or_select_preset(&mut self, user_id: &str, reset_at: Millis) -> (r: Result<Preset, PresetError>)
        requires
            old(self).wf(),
        ensures
            final(self).wf(),
            exists|now: Millis, draw: usize|
                selection_outcome(*old(self), *final(self), user_id@, reset_at, now, draw, r),
    {
        let now = now_millis();
        let draw = if self.presets.len() > 0 {
            random_below(self.presets.len())
        } else {
            0
        };
        self.get_or_select_preset_at(user_id, reset_at, now, draw)
    }
}

} // verus!
