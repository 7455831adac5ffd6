//! The system registry: systems run in three update phases, in phase order,
//! and within a phase in the order they were added. A name is used at most once
//! per phase.
//!
//! A system's function and its timer are whatever the caller runs and measures
//! with; the registry only stores them.
use vstd::prelude::*;

verus! {

/// The phase a system runs in; phases run in declaration order.
#[derive(Debug, PartialEq, Eq, Structural, Hash, Clone, Copy)]
pub enum UpdatePhase {
    PreGame,
    Game,
    PostGame,
}

/// The place of a phase in the run order.
pub open spec fn phase_index(p: UpdatePhase) -> int {
    match p {
        UpdatePhase::PreGame => 0,
        UpdatePhase::Game => 1,
        UpdatePhase::PostGame => 2,
    }
}

/// The name of a phase as the engine prints it.
pub open spec fn phase_name(p: UpdatePhase) -> Seq<char> {
    match p {
        UpdatePhase::PreGame => seq!['P', 'r', 'e', 'G', 'a', 'm', 'e'],
        UpdatePhase::Game => seq!['G', 'a', 'm', 'e'],
        UpdatePhase::PostGame => seq!['P', 'o', 's', 't', 'G', 'a', 'm', 'e'],
    }
}

impl UpdatePhase {
    /// The name of the phase as the engine prints it.
    pub fn name(&self) -> (r: &'static str)
        ensures
            r@ == phase_name(*self),
    {
        match self {
            UpdatePhase::PreGame => {
                proof {
                    reveal_strlit("PreGame");
                }
                "PreGame"
            },
            UpdatePhase::Game => {
                proof {
                    reveal_strlit("Game");
                }
                "Game"
            },
            UpdatePhase::PostGame => {
                proof {
                    reveal_strlit("PostGame");
                }
                "PostGame"
            },
        }
    }
}

/// A registered system: its name and phase, the function the engine calls,
/// whether it runs, and its timer while the engine is not measuring it.
pub struct System<F, T> {
    pub name: String,
    pub update_phase: UpdatePhase,
    pub system_function: F,
    pub enabled: bool,
    pub timer: Option<T>,
}

/// Why a registry request was refused.
#[derive(Debug)]
pub enum SystemError {
    /// No system of that name is registered in that phase.
    SystemNotFound { name: String, update_phase: UpdatePhase },
    /// A system of that name is already registered in that phase.
    SystemAlreadyExists { name: String, update_phase: UpdatePhase },
}

/// Whether the entries of a phase are well formed: each key is its system's
/// name, each system belongs to the phase, and no name occurs twice.
pub open spec fn phase_wf<F, T>(p: UpdatePhase, entries: Seq<(String, System<F, T>)>) -> bool {
    &&& forall|i: int| 0 <= i < entries.len() ==> #[trigger] entries[i].0@ == entries[i].1.name@
    &&& forall|i: int| 0 <= i < entries.len() ==> #[trigger] entries[i].1.update_phase == p
    &&& forall|i: int, j: int|
        0 <= i < entries.len() && 0 <= j < entries.len() && i != j ==> #[trigger] entries[i].0@
            != #[trigger] entries[j].0@
}

/// Whether a system named `name` is among the entries.
pub open spec fn has_name<F, T>(entries: Seq<(String, System<F, T>)>, name: Seq<char>) -> bool {
    exists|i: int| 0 <= i < entries.len() && #[trigger] entries[i].0@ == name
}

/// The systems of each phase, in run order.
pub struct SystemManager<F, T> {
    update_phases: Vec<(UpdatePhase, Vec<(String, System<F, T>)>)>,
}

/// The first entry at or after `from` whose key is `name`, or the length.
fn find_entry<F, T>(entries: &Vec<(String, System<F, T>)>, name: &String) -> (r: usize)
    ensures
        r <= entries.len(),
        forall|j: int| 0 <= j < r ==> entries@[j].0@ != name@,
        r < entries.len() ==> entries@[r as int].0@ == name@,
{
    let mut i: usize = 0;
    while i < entries.len()
        invariant
            i <= entries.len(),
            forall|j: int| 0 <= j < i ==> entries@[j].0@ != name@,
        decreases entries.len() - i,
    {
        if entries[i].0.eq(name) {
            return i;
        }
        i = i + 1;
    }
    i
}

impl<F, T> SystemManager<F, T> {
    /// The entries of a phase: each system under its name, in the order added.
    pub closed spec fn entries(&self, p: UpdatePhase) -> Seq<(String, System<F, T>)> {
        self.update_phases@[phase_index(p)].1@
    }

    /// The three phases are present, in run order, and each is well formed.
    pub closed spec fn wf(&self) -> bool {
        &&& self.update_phases@.len() == 3
        &&& self.update_phases@[0].0 == UpdatePhase::PreGame
        &&& self.update_phases@[1].0 == UpdatePhase::Game
        &&& self.update_phases@[2].0 == UpdatePhase::PostGame
        &&& forall|p: UpdatePhase| #[trigger] phase_wf(p, self.entries(p))
    }

    /// An empty registry.
    pub fn new() -> (r: Self)
        ensures
            r.wf(),
            forall|p: UpdatePhase| #[trigger] r.entries(p).len() == 0,
    {
        let mut update_phases: Vec<(UpdatePhase, Vec<(String, System<F, T>)>)> = Vec::new();
        update_phases.push((UpdatePhase::PreGame, Vec::new()));
        update_phases.push((UpdatePhase::Game, Vec::new()));
        update_phases.push((UpdatePhase::PostGame, Vec::new()));
        let r = SystemManager { update_phases };
        assert forall|p: UpdatePhase| #[trigger] phase_wf(p, r.entries(p)) by {
            assert(r.entries(p).len() == 0);
        }
        r
    }

    /// The place of a phase in the registry.
    fn phase_slot(update_phase: UpdatePhase) -> (r: usize)
        ensures
            r == phase_index(update_phase),
    {
        match update_phase {
            UpdatePhase::PreGame => 0,
            UpdatePhase::Game => 1,
            UpdatePhase::PostGame => 2,
        }
    }

    /// The phases keep their places; only `p`'s entries become `new_entries`.
    proof fn lemma_replace_phase(
        old_m: &Self,
        new_m: &Self,
        p: UpdatePhase,
        new_entries: Seq<(String, System<F, T>)>,
    )
        requires
            old_m.wf(),
            new_m.update_phases@.len() == 3,
            forall|i: int| 0 <= i < 3 ==> #[trigger] new_m.update_phases@[i].0 == old_m.update_phases@[i].0,
            forall|i: int| 0 <= i < 3 && i != phase_index(p) ==> #[trigger] new_m.update_phases@[i].1@
                == old_m.update_phases@[i].1@,
            new_m.update_phases@[phase_index(p)].1@ == new_entries,
            phase_wf(p, new_entries),
        ensures
            new_m.wf(),
            new_m.entries(p) == new_entries,
            forall|q: UpdatePhase| q != p ==> #[trigger] new_m.entries(q) == old_m.entries(q),
    {
        assert(new_m.update_phases@[0].0 == old_m.update_phases@[0].0);
        assert(new_m.update_phases@[1].0 == old_m.update_phases@[1].0);
        assert(new_m.update_phases@[2].0 == old_m.update_phases@[2].0);
        assert forall|q: UpdatePhase| #[trigger] phase_wf(q, new_m.entries(q)) by {
            if q != p {
                assert(phase_index(q) != phase_index(p));
                assert(new_m.entries(q) == old_m.entries(q));
            }
        }
        assert forall|q: UpdatePhase| q != p implies #[trigger] new_m.entries(q) == old_m.entries(q) by {
            assert(phase_index(q) != phase_index(p));
        }
    }

    /// Takes a phase's entries out of the registry, leaving them empty.
    fn take_phase(&mut self, slot: usize) -> (r: Vec<(String, System<F, T>)>)
        requires
            old(self).wf(),
            slot < 3,
        ensures
            r@ == old(self).update_phases@[slot as int].1@,
            final(self).update_phases@.len() == 3,
            forall|i: int| 0 <= i < 3 ==> #[trigger] final(self).update_phases@[i].0 == old(self).update_phases@[i].0,
            forall|i: int| 0 <= i < 3 && i != slot ==> #[trigger] final(self).update_phases@[i].1@
                == old(self).update_phases@[i].1@,
    {
        let (phase, entries) = self.update_phases.remove(slot);
        self.update_phases.insert(slot, (phase, Vec::new()));
        entries
    }

    /// Puts a phase's entries back.
    fn put_phase(&mut self, slot: usize, entries: Vec<(String, System<F, T>)>)
        requires
            old(self).update_phases@.len() == 3,
            slot < 3,
        ensures
            final(self).update_phases@.len() == 3,
            final(self).update_phases@[slot as int].1@ == entries@,
            forall|i: int| 0 <= i < 3 ==> #[trigger] final(self).update_phases@[i].0 == old(self).update_phases@[i].0,
            forall|i: int| 0 <= i < 3 && i != slot ==> #[trigger] final(self).update_phases@[i].1@
                == old(self).update_phases@[i].1@,
    {
        let (phase, _empty) = self.update_phases.remove(slot);
        self.update_phases.insert(slot, (phase, entries));
    }

    /// The system registered under `name` in `update_phase`.
    pub fn get_system(&self, name: &str, update_phase: UpdatePhase) -> (r: Result<&System<F, T>, SystemError>)
        requires
            self.wf(),
        ensures
            r is Ok <==> has_name(self.entries(update_phase), name@),
            r matches Ok(s) ==> exists|i: int|
                0 <= i < self.entries(update_phase).len() && #[trigger] self.entries(update_phase)[i].0@
                    == name@ && self.entries(update_phase)[i].1 == *s,
            r matches Err(e) ==> e == (SystemError::SystemNotFound {
                name: e->SystemNotFound_name,
                update_phase,
            }) && e->SystemNotFound_name@ == name@,
    {
        let slot = Self::phase_slot(update_phase);
        let key = name.to_string();
        let entries = &self.update_phases[slot].1;
        let i = find_entry(entries, &key);
        if i == entries.len() {
            return Err(SystemError::SystemNotFound { name: key, update_phase });
        }
        Ok(&entries[i].1)
    }

    /// Registers a system, enabled and with the given timer, at the end of its
    /// phase; refused if the phase already has a system of that name.
    pub fn add_system(&mut self, name: &str, system_function: F, update_phase: UpdatePhase, timer: T) -> (r:
        Result<(), SystemError>)
        requires
            old(self).wf(),
        ensures
            final(self).wf(),
            r is Ok <==> !has_name(old(self).entries(update_phase), name@),
            r is Ok ==> {
                let e = final(self).entries(update_phase);
                &&& e.len() == old(self).entries(update_phase).len() + 1
                &&& e.drop_last() == old(self).entries(update_phase)
                &&& e.last().0@ == name@
                &&& e.last().1.name@ == name@
                &&& e.last().1.update_phase == update_phase
                &&& e.last().1.system_function == system_function
                &&& e.last().1.enabled
                &&& e.last().1.timer == Some(timer)
            },
            r is Err ==> final(self).entries(update_phase) == old(self).entries(update_phase),
            r matches Err(e) ==> e == (SystemError::SystemAlreadyExists {
                name: e->SystemAlreadyExists_name,
                update_phase,
            }) && e->SystemAlreadyExists_name@ == name@,
            forall|q: UpdatePhase| q != update_phase ==> #[trigger] final(self).entries(q) == old(self).entries(q),
    {
        let slot = Self::phase_slot(update_phase);
        let key = name.to_string();
        let i = find_entry(&self.update_phases[slot].1, &key);
        if i < self.update_phases[slot].1.len() {
            return Err(SystemError::SystemAlreadyExists { name: key, update_phase });
        }
        let ghost old_m = *self;
        let mut entries = self.take_phase(slot);
        let system = System {
            name: name.to_string(),
            update_phase,
            system_function,
            enabled: true,
            timer: Some(timer),
        };
        entries.push((key, system));
        proof {
            let e = entries@;
            let o = old_m.entries(update_phase);
            assert(phase_wf(update_phase, o));
            assert(e.last().0@ == name@);
            assert(forall|j: int| 0 <= j < o.len() ==> o[j].0@ != name@);
            assert(e.drop_last() == old_m.entries(update_phase));
            assert forall|a: int, b: int|
                0 <= a < e.len() && 0 <= b < e.len() && a != b implies #[trigger] e[a].0@ != #[trigger] e[b].0@ by {
                if a == e.len() - 1 {
                    assert(e[b] == old_m.entries(update_phase)[b]);
                } else if b == e.len() - 1 {
                    assert(e[a] == old_m.entries(update_phase)[a]);
                } else {
                    assert(e[a] == old_m.entries(update_phase)[a]);
                    assert(e[b] == old_m.entries(update_phase)[b]);
                }
            }
            assert(phase_wf(update_phase, e));
        }
        self.put_phase(slot, entries);
        proof {
            Self::lemma_replace_phase(&old_m, self, update_phase, entries@);
        }
        Ok(())
    }

    /// Removes the system registered under `name`; refused if there is none.
    pub fn remove_system(&mut self, name: &str, update_phase: UpdatePhase) -> (r: Result<(), SystemError>)
        requires
            old(self).wf(),
        ensures
            final(self).wf(),
            r is Ok <==> has_name(old(self).entries(update_phase), name@),
            r is Ok ==> exists|i: int|
                0 <= i < old(self).entries(update_phase).len() && #[trigger] old(self).entries(
                    update_phase,
                )[i].0@ == name@ && final(self).entries(update_phase) == old(self).entries(
                    update_phase,
                ).remove(i),
            r is Ok ==> !has_name(final(self).entries(update_phase), name@),
            r is Err ==> final(self).entries(update_phase) == old(self).entries(update_phase),
            r matches Err(e) ==> e == (SystemError::SystemNotFound {
                name: e->SystemNotFound_name,
                update_phase,
            }) && e->SystemNotFound_name@ == name@,
            forall|q: UpdatePhase| q != update_phase ==> #[trigger] final(self).entries(q) == old(self).entries(q),
    {
        let slot = Self::phase_slot(update_phase);
        let key = name.to_string();
        let i = find_entry(&self.update_phases[slot].1, &key);
        if i == self.update_phases[slot].1.len() {
            return Err(SystemError::SystemNotFound { name: key, update_phase });
        }
        let ghost old_m = *self;
        let mut entries = self.take_phase(slot);
        let _removed = entries.remove(i);
        proof {
            let o = old_m.entries(update_phase);
            let e = entries@;
            assert(phase_wf(update_phase, o));
            assert(e == o.remove(i as int));
            assert forall|a: int| 0 <= a < e.len() implies #[trigger] e[a] == (if a < i {
                o[a]
            } else {
                o[a + 1]
            }) by {}
            assert forall|a: int, b: int|
                0 <= a < e.len() && 0 <= b < e.len() && a != b implies #[trigger] e[a].0@ != #[trigger] e[b].0@ by {
                let oa = if a < i { a } else { a + 1 };
                let ob = if b < i { b } else { b + 1 };
                assert(e[a] == o[oa]);
                assert(e[b] == o[ob]);
            }
            assert forall|a: int| 0 <= a < e.len() implies #[trigger] e[a].0@ != name@ by {
                let oa = if a < i { a } else { a + 1 };
                assert(e[a] == o[oa]);
                assert(o[i as int].0@ == name@);
            }
            assert(phase_wf(update_phase, e));
        }
        self.put_phase(slot, entries);
        proof {
            Self::lemma_replace_phase(&old_m, self, update_phase, entries@);
        }
        Ok(())
    }

    /// Sets the enabled flag and the timer of the system registered under
    /// `name`, each where a new value is given, and hands back the timer it
    /// replaced (none where the timer stays).
    fn change_system(
        &mut self,
        name: &str,
        update_phase: UpdatePhase,
        enabled: Option<bool>,
        timer: Option<Option<T>>,
    ) -> (r: Result<Option<T>, SystemError>)
        requires
            old(self).wf(),
        ensures
            final(self).wf(),
            r is Ok <==> has_name(old(self).entries(update_phase), name@),
            r matches Ok(t) ==> exists|i: int|
                0 <= i < old(self).entries(update_phase).len() && #[trigger] old(self).entries(
                    update_phase,
                )[i].0@ == name@ && t == (if (timer is Some) {
                    old(self).entries(update_phase)[i].1.timer
                } else {
                    None
                }) && final(self).entries(update_phase) == old(self).entries(update_phase).update(
                    i,
                    (
                        old(self).entries(update_phase)[i].0,
                        (System {
                            name: old(self).entries(update_phase)[i].1.name,
                            update_phase: old(self).entries(update_phase)[i].1.update_phase,
                            system_function: old(self).entries(update_phase)[i].1.system_function,
                            enabled: match enabled {
                                Some(b) => b,
                                None => old(self).entries(update_phase)[i].1.enabled,
                            },
                            timer: match timer {
                                Some(t) => t,
                                None => old(self).entries(update_phase)[i].1.timer,
                            },
                        }),
                    ),
                ),
            r is Err ==> final(self).entries(update_phase) == old(self).entries(update_phase),
            r matches Err(e) ==> e == (SystemError::SystemNotFound {
                name: e->SystemNotFound_name,
                update_phase,
            }) && e->SystemNotFound_name@ == name@,
            forall|q: UpdatePhase| q != update_phase ==> #[trigger] final(self).entries(q) == old(self).entries(q),
    {
        let slot = Self::phase_slot(update_phase);
        let key = name.to_string();
        let i = find_entry(&self.update_phases[slot].1, &key);
        if i == self.update_phases[slot].1.len() {
            return Err(SystemError::SystemNotFound { name: key, update_phase });
        }
        let ghost old_m = *self;
        let mut entries = self.take_phase(slot);
        let (k, system) = entries.remove(i);
        let System { name: sname, update_phase: sphase, system_function, enabled: senabled, timer: stimer } =
            system;
        let new_enabled = match enabled {
            Some(b) => b,
            None => senabled,
        };
        let (new_timer, old_timer) = match timer {
            Some(t) => (t, stimer),
            None => (stimer, None),
        };
        let changed = System {
            name: sname,
            update_phase: sphase,
            system_function,
            enabled: new_enabled,
            timer: new_timer,
        };
        entries.insert(i, (k, changed));
        proof {
            let o = old_m.entries(update_phase);
            let e = entries@;
            assert(phase_wf(update_phase, o));
            assert(e == o.update(i as int, e[i as int]));
            assert forall|a: int, b: int|
                0 <= a < e.len() && 0 <= b < e.len() && a != b implies #[trigger] e[a].0@ != #[trigger] e[b].0@ by {
                assert(e[a].0@ == o[a].0@);
                assert(e[b].0@ == o[b].0@);
            }
            assert forall|a: int| 0 <= a < e.len() implies #[trigger] e[a].0@ == e[a].1.name@ by {
                assert(e[a].0@ == o[a].0@);
            }
            assert(phase_wf(update_phase, e));
        }
        self.put_phase(slot, entries);
        proof {
            Self::lemma_replace_phase(&old_m, self, update_phase, entries@);
        }
        Ok(old_timer)
    }

    /// Enables or disables the system registered under `name`.
    pub fn toggle_system(&mut self, name: &str, update_phase: UpdatePhase, enabled: bool) -> (r: Result<
        (),
        SystemError,
    >)
        requires
            old(self).wf(),
        ensures
            final(self).wf(),
            r is Ok <==> has_name(old(self).entries(update_phase), name@),
            r is Ok ==> exists|i: int|
                0 <= i < old(self).entries(update_phase).len() && #[trigger] old(self).entries(
                    update_phase,
                )[i].0@ == name@ && final(self).entries(update_phase) == old(self).entries(
                    update_phase,
                ).update(
                    i,
                    (
                        old(self).entries(update_phase)[i].0,
                        (System { enabled, ..old(self).entries(update_phase)[i].1 }),
                    ),
                ),
            r is Err ==> final(self).entries(update_phase) == old(self).entries(update_phase),
            r matches Err(e) ==> e == (SystemError::SystemNotFound {
                name: e->SystemNotFound_name,
                update_phase,
            }) && e->SystemNotFound_name@ == name@,
            forall|q: UpdatePhase| q != update_phase ==> #[trigger] final(self).entries(q) == old(self).entries(q),
    {
        match self.change_system(name, update_phase, Some(enabled), None) {
            Ok(_) => Ok(()),
            Err(e) => Err(e),
        }
    }

    /// Takes the timer of the system registered under `name`, leaving none.
    pub fn get_system_timer(&mut self, name: &str, update_phase: UpdatePhase) -> (r: Result<
        Option<T>,
        SystemError,
    >)
        requires
            old(self).wf(),
        ensures
            final(self).wf(),
            r is Ok <==> has_name(old(self).entries(update_phase), name@),
            r matches Ok(t) ==> exists|i: int|
                0 <= i < old(self).entries(update_phase).len() && #[trigger] old(self).entries(
                    update_phase,
                )[i].0@ == name@ && t == old(self).entries(update_phase)[i].1.timer && final(self).entries(update_phase) == old(self).entries(update_phase).update(
                    i,
                    (
                        old(self).entries(update_phase)[i].0,
                        (System { timer: None, ..old(self).entries(update_phase)[i].1 }),
                    ),
                ),
            r is Err ==> final(self).entries(update_phase) == old(self).entries(update_phase),
            r matches Err(e) ==> e == (SystemError::SystemNotFound {
                name: e->SystemNotFound_name,
                update_phase,
            }) && e->SystemNotFound_name@ == name@,
            forall|q: UpdatePhase| q != update_phase ==> #[trigger] final(self).entries(q) == old(self).entries(q),
    {
        self.change_system(name, update_phase, None, Some(None))
    }

    /// Gives the system registered under `name` the timer back.
    pub fn update_system_timer(&mut self, name: &str, update_phase: UpdatePhase, timer: T) -> (r: Result<
        (),
        SystemError,
    >)
        requires
            old(self).wf(),
        ensures
            final(self).wf(),
            r is Ok <==> has_name(old(self).entries(update_phase), name@),
            r is Ok ==> exists|i: int|
                0 <= i < old(self).entries(update_phase).len() && #[trigger] old(self).entries(
                    update_phase,
                )[i].0@ == name@ && final(self).entries(update_phase) == old(self).entries(
                    update_phase,
                ).update(
                    i,
                    (
                        old(self).entries(update_phase)[i].0,
                        (System { timer: Some(timer), ..old(self).entries(update_phase)[i].1 }),
                    ),
                ),
            r is Err ==> final(self).entries(update_phase) == old(self).entries(update_phase),
            r matches Err(e) ==> e == (SystemError::SystemNotFound {
                name: e->SystemNotFound_name,
                update_phase,
            }) && e->SystemNotFound_name@ == name@,
            forall|q: UpdatePhase| q != update_phase ==> #[trigger] final(self).entries(q) == old(self).entries(q),
    {
        match self.change_system(name, update_phase, None, Some(Some(timer))) {
            Ok(_) => Ok(()),
            Err(e) => Err(e),
        }
    }

    /// The number of registered systems, over all phases.
    pub fn system_count(&self) -> (r: usize)
        requires
            self.wf(),
            self.entries(UpdatePhase::PreGame).len() + self.entries(UpdatePhase::Game).len() + self.entries(
                UpdatePhase::PostGame,
            ).len() <= usize::MAX,
        ensures
            r == self.entries(UpdatePhase::PreGame).len() + self.entries(UpdatePhase::Game).len()
                + self.entries(UpdatePhase::PostGame).len(),
    {
        self.update_phases[0].1.len() + self.update_phases[1].1.len() + self.update_phases[2].1.len()
    }
}

/// A system that was added is found under its name.
pub proof fn lemma_added_is_found<F, T>(
    before: Seq<(String, System<F, T>)>,
    after: Seq<(String, System<F, T>)>,
    name: Seq<char>,
)
    requires
        after.len() == before.len() + 1,
        after.drop_last() == before,
        after.last().0@ == name,
    ensures
        has_name(after, name),
{
    assert(after[after.len() - 1].0@ == name);
}

/// Removing a system right after adding it gives the phase back as it was:
/// names are unique, so the removed entry is the added one.
pub proof fn lemma_remove_undoes_add<F, T>(
    p: UpdatePhase,
    before: Seq<(String, System<F, T>)>,
    after: Seq<(String, System<F, T>)>,
    name: Seq<char>,
    i: int,
)
    requires
        phase_wf(p, after),
        after.len() == before.len() + 1,
        after.drop_last() == before,
        after.last().0@ == name,
        0 <= i < after.len(),
        after[i].0@ == name,
    ensures
        after.remove(i) == before,
{
    let last = after.len() - 1;
    if i != last {
        assert(after[i].0@ != after[last].0@);
    }
    assert(after.remove(i) =~= before);
}

} // verus!
