//! How far each container is.

use vstd::prelude::*;

use super::types::ContainerState;
use crate::paths;
use crate::paths::{same_path, Location};

verus! {

/// The states of containers, by their paths.
pub struct ContainerStates {
    pub entries: Vec<(String, ContainerState)>,
}

/// Containers and their states, in the order in which they came.
pub type StatesView = Seq<(Location, ContainerState)>;

/// The place of a container, from `k` on.
pub open spec fn place_from(states: StatesView, at: Location, k: int) -> Option<int>
    decreases states.len() - k,
{
    if k >= states.len() {
        None
    } else if states[k].0 == at {
        Some(k)
    } else {
        place_from(states, at, k + 1)
    }
}

/// The state of a container.
pub open spec fn state_of(states: StatesView, at: Location) -> Option<ContainerState> {
    match place_from(states, at, 0) {
        Some(i) => Some(states[i].1),
        None => None,
    }
}

/// The states with one container's set.
pub open spec fn with_state(states: StatesView, at: Location, state: ContainerState)
    -> StatesView {
    match place_from(states, at, 0) {
        Some(i) => states.update(i, (at, state)),
        None => states.push((at, state)),
    }
}

/// The states with those of several containers set.
pub open spec fn with_all(states: StatesView, paths: Seq<String>, state: ContainerState)
    -> StatesView
    decreases paths.len(),
{
    if paths.len() == 0 {
        states
    } else {
        with_state(
            with_all(states, paths.drop_last(), state),
            paths::location(paths.last()@),
            state,
        )
    }
}

/// The number of expanded containers.
pub open spec fn expanded(states: StatesView) -> nat {
    states.filter(|e: (Location, ContainerState)| e.1 == ContainerState::Expanded).len()
}

/// How many of the containers are expanded; none where none is left to expand.
pub open spec fn progress(states: StatesView) -> Option<(nat, nat)> {
    if expanded(states) < states.len() {
        Some((expanded(states), states.len()))
    } else {
        None
    }
}

/// No container stands twice.
pub open spec fn distinct(states: StatesView) -> bool {
    forall|i: int, j: int|
        0 <= i < j < states.len() ==> (#[trigger] states[i]).0 != (#[trigger] states[j]).0
}

/// A found place holds the container, and no place before it does.
pub proof fn place_is_first(states: StatesView, at: Location, k: int)
    requires
        0 <= k,
    ensures
        match place_from(states, at, k) {
            Some(i) => k <= i < states.len() && states[i].0 == at && forall|j: int|
                k <= j < i ==> (#[trigger] states[j]).0 != at,
            None => forall|j: int| k <= j < states.len() ==> (#[trigger] states[j]).0 != at,
        },
    decreases states.len() - k,
{
    if k < states.len() && states[k].0 != at {
        place_is_first(states, at, k + 1);
    }
}

/// Setting a state keeps the containers distinct.
pub proof fn stays_distinct(states: StatesView, at: Location, state: ContainerState)
    requires
        distinct(states),
    ensures
        distinct(with_state(states, at, state)),
{
    place_is_first(states, at, 0);
}

/// Setting states keeps the containers distinct.
pub proof fn all_stay_distinct(states: StatesView, paths: Seq<String>, state: ContainerState)
    requires
        distinct(states),
    ensures
        distinct(with_all(states, paths, state)),
    decreases paths.len(),
{
    if paths.len() > 0 {
        all_stay_distinct(states, paths.drop_last(), state);
        stays_distinct(
            with_all(states, paths.drop_last(), state),
            paths::location(paths.last()@),
            state,
        );
    }
}

/// A state that was set is found, and the states of the other containers stay.
pub proof fn set_is_found(
    states: StatesView,
    at: Location,
    state: ContainerState,
    other: Location,
)
    requires
        distinct(states),
    ensures
        state_of(with_state(states, at, state), at) == Some(state),
        other != at ==> state_of(with_state(states, at, state), other) == state_of(states, other),
{
    let after = with_state(states, at, state);
    place_is_first(states, at, 0);
    place_is_first(after, at, 0);
    place_is_first(states, other, 0);
    place_is_first(after, other, 0);
    stays_distinct(states, at, state);
    match place_from(states, at, 0) {
        Some(i) => {
            assert(after[i] == (at, state));
        },
        None => {
            assert(after[states.len() as int] == (at, state));
        },
    }
    if other != at {
        match place_from(states, other, 0) {
            Some(j) => {
                assert(after[j] == states[j]);
            },
            None => {
                match place_from(after, other, 0) {
                    Some(j) => {
                        assert(after[j].0 == other);
                    },
                    None => {},
                }
            },
        }
    }
}

impl View for ContainerStates {
    type V = StatesView;

    open spec fn view(&self) -> StatesView {
        self.entries@.map_values(
            |e: (String, ContainerState)| (paths::location(e.0@), e.1),
        )
    }
}

impl ContainerStates {
    /// No containers.
    pub fn new() -> (r: Self)
        ensures
            r@ == StatesView::empty(),
    {
        let r = ContainerStates { entries: Vec::new() };
        assert(r@ =~= StatesView::empty());
        r
    }

    /// Forgets all containers.
    pub fn clear(&mut self)
        ensures
            final(self)@ == StatesView::empty(),
    {
        self.entries.clear();
        assert(self@ =~= StatesView::empty());
    }

    fn place(&self, path: &str) -> (r: Option<usize>)
        ensures
            place_from(self@, paths::location(path@), 0) == (match r {
                Some(i) => Some(i as int),
                None => None,
            }),
            r matches Some(i) ==> i < self.entries@.len(),
    {
        let mut i: usize = 0;
        while i < self.entries.len()
            invariant
                i <= self.entries@.len(),
                place_from(self@, paths::location(path@), 0) == place_from(
                    self@,
                    paths::location(path@),
                    i as int,
                ),
            decreases self.entries.len() - i,
        {
            if same_path(self.entries[i].0.as_str(), path) {
                return Some(i);
            }
            i = i + 1;
        }
        None
    }

    /// The state of a container.
    pub fn get(&self, path: &str) -> (r: Option<ContainerState>)
        ensures
            r == state_of(self@, paths::location(path@)),
    {
        match self.place(path) {
            Some(i) => Some(self.entries[i].1),
            None => None,
        }
    }

    /// Sets the state of a container.
    pub fn set(&mut self, path: &str, state: ContainerState)
        ensures
            final(self)@ == with_state(old(self)@, paths::location(path@), state),
    {
        let ghost before = self@;
        match self.place(path) {
            Some(i) => {
                self.entries.set(i, (path.to_owned(), state));
                assert(self@ =~= before.update(i as int, (paths::location(path@), state)));
            },
            None => {
                self.entries.push((path.to_owned(), state));
                assert(self@ =~= before.push((paths::location(path@), state)));
            },
        }
    }

    /// Sets the states of several containers.
    pub fn set_all(&mut self, paths: &Vec<String>, state: ContainerState)
        ensures
            final(self)@ == with_all(old(self)@, paths@, state),
    {
        let ghost before = self@;
        let mut i: usize = 0;
        assert(paths@.take(0) =~= Seq::empty());
        while i < paths.len()
            invariant
                i <= paths@.len(),
                self@ == with_all(before, paths@.take(i as int), state),
            decreases paths.len() - i,
        {
            self.set(paths[i].as_str(), state);
            assert(paths@.take(i + 1).drop_last() =~= paths@.take(i as int));
            i = i + 1;
        }
        assert(paths@.take(paths@.len() as int) =~= paths@);
    }

    /// How many of the containers are expanded, and how many there are; none
    /// where none is left to expand.
    pub fn progress(&self) -> (r: Option<(usize, usize)>)
        ensures
            progress(self@) == (match r {
                Some((done, total)) => Some((done as nat, total as nat)),
                None => None,
            }),
    {
        let ghost done_test = |e: (Location, ContainerState)| e.1 == ContainerState::Expanded;
        let mut done: usize = 0;
        let mut i: usize = 0;
        proof {
            reveal(Seq::filter);
            assert(self@.take(0).filter(done_test) =~= Seq::empty());
        }
        while i < self.entries.len()
            invariant
                i <= self.entries@.len(),
                done <= i,
                done_test == (|e: (Location, ContainerState)| e.1 == ContainerState::Expanded),
                done == self@.take(i as int).filter(done_test).len(),
            decreases self.entries.len() - i,
        {
            proof {
                reveal(Seq::filter);
                assert(self@.take(i + 1).drop_last() =~= self@.take(i as int));
                assert(self@.take(i + 1).last() == self@[i as int]);
            }
            if self.entries[i].1 == ContainerState::Expanded {
                done = done + 1;
            }
            i = i + 1;
        }
        assert(self@.take(self@.len() as int) =~= self@);
        if done < self.entries.len() {
            Some((done, self.entries.len()))
        } else {
            None
        }
    }
}

/// After the states of several containers were set, each of them has that state, and every
/// other has the one it had.
pub proof fn all_set_are_found(
    states: StatesView,
    paths: Seq<String>,
    state: ContainerState,
    at: Location,
)
    requires
        distinct(states),
    ensures
        state_of(with_all(states, paths, state), at) == (if exists|i: int|
            0 <= i < paths.len() && paths::location(#[trigger] paths[i]@) == at {
            Some(state)
        } else {
            state_of(states, at)
        }),
    decreases paths.len(),
{
    if paths.len() > 0 {
        let less = paths.drop_last();
        let before = with_all(states, less, state);
        let last = paths::location(paths.last()@);
        all_stay_distinct(states, less, state);
        all_set_are_found(states, less, state, at);
        set_is_found(before, last, state, at);
        if last == at {
            assert(paths::location(paths[paths.len() - 1]@) == at);
        } else if exists|i: int|
            0 <= i < less.len() && paths::location(#[trigger] less[i]@) == at {
            let i = choose|i: int|
                0 <= i < less.len() && paths::location(#[trigger] less[i]@) == at;
            assert(paths::location(paths[i]@) == at);
        } else if exists|i: int|
            0 <= i < paths.len() && paths::location(#[trigger] paths[i]@) == at {
            let i = choose|i: int|
                0 <= i < paths.len() && paths::location(#[trigger] paths[i]@) == at;
            assert(less[i] == paths[i]);
        }
    }
}

} // verus!
