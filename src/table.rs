//! The table of examples still in flight.
use vstd::prelude::*;
use crate::error::{AppError, ErrorV};
use crate::example::{ExampleId, ReplExample};
use crate::session::{ReplExampleState, SessionV};

verus! {

/// An evaluation's lifecycle: asked for, then running.
#[derive(PartialEq, Eq, Structural, Clone, Copy, Debug)]
pub enum ExpressionExampleState {
    Pending,
    Spawned,
}

pub enum ExampleState {
    Repl(ReplExampleState),
    Expression(ExpressionExampleState),
}

/// An example's state with its buffers seen as sequences.
pub enum ExampleStateV {
    Repl { example: ReplExample, session: SessionV },
    Expression(ExpressionExampleState),
}

impl View for ExampleState {
    type V = ExampleStateV;

    open spec fn view(&self) -> ExampleStateV {
        match self {
            ExampleState::Repl(s) => ExampleStateV::Repl { example: s.example, session: s.state@ },
            ExampleState::Expression(s) => ExampleStateV::Expression(*s),
        }
    }
}

/// The examples in flight, each under its own identifier.
pub struct ExamplesState {
    pub entries: Vec<(ExampleId, ExampleState)>,
}

impl ExamplesState {
    /// No identifier is held twice.
    pub open spec fn wf(&self) -> bool {
        forall|i: int, j: int|
            0 <= i < j < self.entries@.len() ==> #[trigger] self.entries@[i].0@
                != #[trigger] self.entries@[j].0@
    }

    /// Whether an entry is held under `k`.
    pub open spec fn has(&self, k: (Seq<char>, usize)) -> bool {
        exists|i: int| 0 <= i < self.entries@.len() && #[trigger] self.entries@[i].0@ == k
    }

    /// Where the entry under `k` stands.
    pub open spec fn index_of(&self, k: (Seq<char>, usize)) -> int {
        choose|i: int| 0 <= i < self.entries@.len() && #[trigger] self.entries@[i].0@ == k
    }

    proof fn lemma_index_of(&self, i: int)
        requires
            self.wf(),
            0 <= i < self.entries@.len(),
        ensures
            self.has(self.entries@[i].0@),
            self.index_of(self.entries@[i].0@) == i,
    {
        let k = self.entries@[i].0@;
        assert(self.has(k));
        let j = self.index_of(k);
        if j < i {
            assert(self.entries@[j].0@ != self.entries@[i].0@);
        } else if i < j {
            assert(self.entries@[i].0@ != self.entries@[j].0@);
        }
    }
}

impl View for ExamplesState {
    type V = Map<(Seq<char>, usize), ExampleStateV>;

    open spec fn view(&self) -> Map<(Seq<char>, usize), ExampleStateV> {
        Map::new(|k: (Seq<char>, usize)| self.has(k), |k: (Seq<char>, usize)| self.entries@[self.index_of(k)].1@)
    }
}

impl ExamplesState {
    pub fn new() -> (r: Self)
        ensures
            r.wf(),
            r@ == Map::<(Seq<char>, usize), ExampleStateV>::empty(),
    {
        let r = ExamplesState { entries: Vec::new() };
        assert(r@ =~= Map::<(Seq<char>, usize), ExampleStateV>::empty());
        r
    }

    /// Where the entry under `id` stands, if there is one.
    fn find(&self, id: &ExampleId) -> (r: Option<usize>)
        requires
            self.wf(),
        ensures
            r matches Some(i) ==> i < self.entries@.len() && self.entries@[i as int].0@ == id@
                && self.index_of(id@) == i,
            r is None ==> !self.has(id@),
    {
        let mut i: usize = 0;
        while i < self.entries.len()
            invariant
                self.wf(),
                i <= self.entries@.len(),
                forall|j: int| 0 <= j < i ==> #[trigger] self.entries@[j].0@ != id@,
            decreases self.entries@.len() - i,
        {
            if self.entries[i].0.same(id) {
                proof {
                    self.lemma_index_of(i as int);
                }
                return Some(i);
            }
            i = i + 1;
        }
        None
    }

    /// Adds `state` under `id`; fails, changing nothing, when `id` is taken.
    pub fn insert(&mut self, id: ExampleId, state: ExampleState) -> (r: Result<(), AppError>)
        requires
            old(self).wf(),
        ensures
            final(self).wf(),
            old(self)@.contains_key(id@) ==> (r matches Err(e) && e@ == ErrorV::DuplicateId(id)
                && final(self)@ == old(self)@),
            !old(self)@.contains_key(id@) ==> r is Ok && final(self)@ == old(self)@.insert(
                id@,
                state@,
            ),
    {
        if let Some(_) = self.find(&id) {
            return Err(AppError::DuplicateId(id));
        }
        let ghost before = *self;
        let ghost k = id@;
        let ghost v = state@;
        self.entries.push((id, state));
        proof {
            let n = before.entries@.len() as int;
            assert(self.entries@[n].0@ == k);
            assert forall|i: int, j: int|
                0 <= i < j < self.entries@.len() implies #[trigger] self.entries@[i].0@
                != #[trigger] self.entries@[j].0@ by {
                if j == n {
                    assert(before.entries@[i] == self.entries@[i]);
                    assert(!before.has(k));
                } else {
                    assert(before.entries@[i] == self.entries@[i]);
                    assert(before.entries@[j] == self.entries@[j]);
                }
            }
            self.lemma_index_of(n);
            assert forall|key: (Seq<char>, usize)| #[trigger] self@.contains_key(key) == before@.insert(k, v).contains_key(key) by {
                if self.has(key) {
                    let i = choose|i: int| 0 <= i < self.entries@.len() && #[trigger] self.entries@[i].0@ == key;
                    if i < n {
                        assert(before.entries@[i] == self.entries@[i]);
                    }
                }
                if before.has(key) {
                    let i = choose|i: int| 0 <= i < before.entries@.len() && #[trigger] before.entries@[i].0@ == key;
                    assert(before.entries@[i] == self.entries@[i]);
                }
            }
            assert forall|key: (Seq<char>, usize)| #[trigger] self@.contains_key(key) implies self@[key] == before@.insert(k, v)[key] by {
                if key != k {
                    let i = before.index_of(key);
                    before.lemma_index_of(i);
                    assert(before.entries@[i] == self.entries@[i]);
                    self.lemma_index_of(i);
                }
            }
            assert(self@ =~= before@.insert(k, v));
        }
        Ok(())
    }

    /// Takes out the entry under `id`; fails, changing nothing, when there is none.
    pub fn remove(&mut self, id: &ExampleId) -> (r: Result<ExampleState, AppError>)
        requires
            old(self).wf(),
        ensures
            final(self).wf(),
            !old(self)@.contains_key(id@) ==> (r matches Err(e) && e@ == ErrorV::NotFound(*id)
                && final(self)@ == old(self)@),
            old(self)@.contains_key(id@) ==> (r matches Ok(s) && s@ == old(self)@[id@]
                && final(self)@ == old(self)@.remove(id@)),
    {
        let i = match self.find(id) {
            Some(i) => i,
            None => {
                return Err(AppError::NotFound(id.duplicate()));
            },
        };
        let ghost before = *self;
        let ghost k = id@;
        let (_, state) = self.entries.remove(i);
        proof {
            let n = before.entries@.len() as int;
            assert forall|a: int| 0 <= a < self.entries@.len() implies #[trigger] self.entries@[a]
                == before.entries@[if a < i { a } else { a + 1 }] by {}
            assert forall|a: int, b: int|
                0 <= a < b < self.entries@.len() implies #[trigger] self.entries@[a].0@
                != #[trigger] self.entries@[b].0@ by {
                let a2 = if a < i { a } else { a + 1 };
                let b2 = if b < i { b } else { b + 1 };
                assert(self.entries@[a] == before.entries@[a2]);
                assert(self.entries@[b] == before.entries@[b2]);
                assert(before.entries@[a2].0@ != before.entries@[b2].0@);
            }
            assert forall|key: (Seq<char>, usize)| #[trigger] self@.contains_key(key) == before@.remove(k).contains_key(key) by {
                if self.has(key) {
                    let a = choose|a: int| 0 <= a < self.entries@.len() && #[trigger] self.entries@[a].0@ == key;
                    let a2 = if a < i { a } else { a + 1 };
                    assert(self.entries@[a] == before.entries@[a2]);
                    assert(before.entries@[a2].0@ == key);
                    if key == k {
                        assert(before.entries@[i as int].0@ == k);
                    }
                }
                if before.has(key) && key != k {
                    let a = choose|a: int| 0 <= a < before.entries@.len() && #[trigger] before.entries@[a].0@ == key;
                    assert(a != i);
                    let a1 = if a < i { a } else { a - 1 };
                    assert(self.entries@[a1] == before.entries@[a]);
                }
            }
            assert forall|key: (Seq<char>, usize)| #[trigger] self@.contains_key(key) implies self@[key] == before@.remove(k)[key] by {
                let a = self.index_of(key);
                self.lemma_index_of(a);
                let a2 = if a < i { a } else { a + 1 };
                assert(self.entries@[a] == before.entries@[a2]);
                before.lemma_index_of(a2);
            }
            assert(self@ =~= before@.remove(k));
            before.lemma_index_of(i as int);
        }
        Ok(state)
    }

    /// The state held under `id`, to be changed in place.
    pub fn get_mut(&mut self, id: &ExampleId) -> (r: Result<&mut ExampleState, AppError>)
        requires
            old(self).wf(),
        ensures
            !old(self)@.contains_key(id@) ==> (r matches Err(e) && e@ == ErrorV::NotFound(*id)
                && *final(self) == *old(self)),
            old(self)@.contains_key(id@) ==> (r matches Ok(s) && (*s)@ == old(self)@[id@]
                && final(self).wf() && final(self)@ == old(self)@.insert(id@, (*final(s))@)),
    {
        let i = match self.find(id) {
            Some(i) => i,
            None => {
                return Err(AppError::NotFound(id.duplicate()));
            },
        };
        let ghost before = *self;
        proof {
            assert forall|t: ExamplesState|
                t.entries@ == before.entries@.update(i as int, (before.entries@[i as int].0, t.entries@[i as int].1))
                implies #[trigger] t.wf() && t@ == before@.insert(id@, t.entries@[i as int].1@) by {
                Self::lemma_replaced(before, i as int, t);
            }
            before.lemma_index_of(i as int);
        }
        Ok(&mut self.entries[i].1)
    }

    proof fn lemma_replaced(before: Self, i: int, t: Self)
        requires
            before.wf(),
            0 <= i < before.entries@.len(),
            t.entries@ == before.entries@.update(i, (before.entries@[i].0, t.entries@[i].1)),
        ensures
            t.wf(),
            t@ == before@.insert(before.entries@[i].0@, t.entries@[i].1@),
    {
        let k = before.entries@[i].0@;
        assert forall|a: int, b: int|
            0 <= a < b < t.entries@.len() implies #[trigger] t.entries@[a].0@
            != #[trigger] t.entries@[b].0@ by {
            assert(t.entries@[a].0 == before.entries@[a].0);
            assert(t.entries@[b].0 == before.entries@[b].0);
        }
        assert forall|key: (Seq<char>, usize)| #[trigger] t@.contains_key(key) == before@.insert(k, t.entries@[i].1@).contains_key(key) by {
            if t.has(key) {
                let a = choose|a: int| 0 <= a < t.entries@.len() && #[trigger] t.entries@[a].0@ == key;
                assert(t.entries@[a].0 == before.entries@[a].0);
            }
            if before.has(key) {
                let a = choose|a: int| 0 <= a < before.entries@.len() && #[trigger] before.entries@[a].0@ == key;
                assert(t.entries@[a].0 == before.entries@[a].0);
            }
            if key == k {
                assert(t.entries@[i].0@ == k);
            }
        }
        assert forall|key: (Seq<char>, usize)| #[trigger] t@.contains_key(key) implies t@[key] == before@.insert(k, t.entries@[i].1@)[key] by {
            let a = t.index_of(key);
            t.lemma_index_of(a);
            assert(t.entries@[a].0 == before.entries@[a].0);
            before.lemma_index_of(a);
        }
        assert(t@ =~= before@.insert(k, t.entries@[i].1@));
    }

    /// The interactive state held under `id`, to be changed in place.
    pub fn get_mut_repl(&mut self, id: &ExampleId) -> (r: Result<&mut ReplExampleState, AppError>)
        requires
            old(self).wf(),
        ensures
            !old(self)@.contains_key(id@) ==> (r matches Err(e) && e@ == ErrorV::NotFound(*id)
                && *final(self) == *old(self)),
            old(self)@.contains_key(id@) && old(self)@[id@] is Expression ==> (r matches Err(e)
                && e@ == ErrorV::NotRepl(*id) && final(self)@ == old(self)@ && final(self).wf()),
            old(self)@.contains_key(id@) && old(self)@[id@] is Repl ==> (r matches Ok(s)
                && old(self)@[id@] == (ExampleStateV::Repl { example: s.example, session: s.state@ })
                && final(self).wf() && final(self)@ == old(self)@.insert(
                id@,
                ExampleStateV::Repl { example: final(s).example, session: final(s).state@ },
            )),
    {
        let state = match self.get_mut(id) {
            Ok(state) => state,
            Err(e) => {
                return Err(e);
            },
        };
        match state {
            ExampleState::Repl(s) => Ok(s),
            ExampleState::Expression(_) => Err(AppError::NotRepl(id.duplicate())),
        }
    }

    /// The evaluation state held under `id`, to be changed in place.
    pub fn get_mut_expression(&mut self, id: &ExampleId) -> (r: Result<&mut ExpressionExampleState, AppError>)
        requires
            old(self).wf(),
        ensures
            !old(self)@.contains_key(id@) ==> (r matches Err(e) && e@ == ErrorV::NotFound(*id)
                && *final(self) == *old(self)),
            old(self)@.contains_key(id@) && old(self)@[id@] is Repl ==> (r matches Err(e)
                && e@ == ErrorV::NotExpression(*id) && final(self)@ == old(self)@ && final(self).wf()),
            old(self)@.contains_key(id@) && old(self)@[id@] is Expression ==> (r matches Ok(s)
                && old(self)@[id@] == ExampleStateV::Expression(*s)
                && final(self).wf() && final(self)@ == old(self)@.insert(
                id@,
                ExampleStateV::Expression(*final(s)),
            )),
    {
        let state = match self.get_mut(id) {
            Ok(state) => state,
            Err(e) => {
                return Err(e);
            },
        };
        match state {
            ExampleState::Expression(s) => Ok(s),
            ExampleState::Repl(_) => Err(AppError::NotExpression(id.duplicate())),
        }
    }

    pub fn is_empty(&self) -> (r: bool)
        ensures
            r == (self@ == Map::<(Seq<char>, usize), ExampleStateV>::empty()),
    {
        proof {
            if self.entries@.len() > 0 {
                assert(self.entries@[0].0@ == self.entries@[0].0@);
                assert(self@.contains_key(self.entries@[0].0@));
            } else {
                assert(self@ =~= Map::<(Seq<char>, usize), ExampleStateV>::empty());
            }
        }
        self.entries.len() == 0
    }
}

impl Default for ExamplesState {
    fn default() -> (r: Self)
        ensures
            r.wf(),
            r@ == Map::<(Seq<char>, usize), ExampleStateV>::empty(),
    {
        ExamplesState::new()
    }
}

/// The table model after inserting `states[i]` under `ids[i]` for each `i < n`,
/// starting from an empty table.
pub open spec fn inserted(
    ids: Seq<(Seq<char>, usize)>,
    states: Seq<ExampleStateV>,
    n: nat,
) -> Map<(Seq<char>, usize), ExampleStateV>
    decreases n,
{
    if n == 0 {
        Map::empty()
    } else {
        inserted(ids, states, (n - 1) as nat).insert(ids[n - 1], states[n - 1])
    }
}

/// The table model after all of `ids` were inserted and then the first `n`
/// of them removed.
pub open spec fn removed(
    ids: Seq<(Seq<char>, usize)>,
    states: Seq<ExampleStateV>,
    n: nat,
) -> Map<(Seq<char>, usize), ExampleStateV>
    decreases n,
{
    if n == 0 {
        inserted(ids, states, ids.len())
    } else {
        removed(ids, states, (n - 1) as nat).remove(ids[n - 1])
    }
}

proof fn lemma_inserted_keys(ids: Seq<(Seq<char>, usize)>, states: Seq<ExampleStateV>, n: nat)
    requires
        n <= ids.len(),
    ensures
        forall|k: (Seq<char>, usize)|
            #[trigger] inserted(ids, states, n).contains_key(k) <==> exists|j: int|
                0 <= j < n && ids[j] == k,
    decreases n,
{
    if n > 0 {
        lemma_inserted_keys(ids, states, (n - 1) as nat);
        let prev = inserted(ids, states, (n - 1) as nat);
        assert(inserted(ids, states, n) == prev.insert(ids[n - 1], states[n - 1]));
        assert forall|k: (Seq<char>, usize)|
            #[trigger] inserted(ids, states, n).contains_key(k) <==> exists|j: int|
                0 <= j < n && ids[j] == k by {
            if k == ids[n - 1] {
                assert(0 <= n - 1 < n && ids[n - 1] == k);
            } else {
                if prev.contains_key(k) {
                    let j = choose|j: int| 0 <= j < n - 1 && ids[j] == k;
                    assert(0 <= j < n && ids[j] == k);
                }
                if exists|j: int| 0 <= j < n && ids[j] == k {
                    let j = choose|j: int| 0 <= j < n && ids[j] == k;
                    assert(0 <= j < n - 1 && ids[j] == k);
                }
            }
        }
    }
}

proof fn lemma_removed_keys(ids: Seq<(Seq<char>, usize)>, states: Seq<ExampleStateV>, n: nat)
    requires
        n <= ids.len(),
        ids.no_duplicates(),
    ensures
        forall|k: (Seq<char>, usize)|
            #[trigger] removed(ids, states, n).contains_key(k) <==> exists|j: int|
                n <= j < ids.len() && ids[j] == k,
    decreases n,
{
    if n == 0 {
        lemma_inserted_keys(ids, states, ids.len());
    } else {
        lemma_removed_keys(ids, states, (n - 1) as nat);
        let prev = removed(ids, states, (n - 1) as nat);
        assert(removed(ids, states, n) == prev.remove(ids[n - 1]));
        assert forall|k: (Seq<char>, usize)|
            #[trigger] removed(ids, states, n).contains_key(k) <==> exists|j: int|
                n <= j < ids.len() && ids[j] == k by {
            if exists|j: int| n <= j < ids.len() && ids[j] == k {
                let j = choose|j: int| n <= j < ids.len() && ids[j] == k;
                assert(ids[j] != ids[n - 1]);
                assert(n - 1 <= j < ids.len() && ids[j] == k);
            }
            if removed(ids, states, n).contains_key(k) {
                let j = choose|j: int| n - 1 <= j < ids.len() && ids[j] == k;
                assert(j != n - 1);
                assert(n <= j < ids.len() && ids[j] == k);
            }
        }
    }
}

/// Inserting distinct identifiers one by one into an empty table, then
/// removing each once, never meets a taken identifier on insertion nor a
/// missing one on removal, and leaves the table empty; once an identifier is
/// in, inserting it again meets it taken (and so fails with a duplicate-id
/// error by the contract of `insert`).
pub proof fn lemma_insert_remove_all(ids: Seq<(Seq<char>, usize)>, states: Seq<ExampleStateV>)
    requires
        ids.no_duplicates(),
        states.len() == ids.len(),
    ensures
        forall|i: int| 0 <= i < ids.len() ==> !(#[trigger] inserted(ids, states, i as nat)).contains_key(ids[i]),
        forall|i: int| 0 <= i < ids.len() ==> (#[trigger] inserted(ids, states, (i + 1) as nat)).contains_key(ids[i]),
        forall|i: int| 0 <= i < ids.len() ==> (#[trigger] removed(ids, states, i as nat)).contains_key(ids[i]),
        removed(ids, states, ids.len()) == Map::<(Seq<char>, usize), ExampleStateV>::empty(),
{
    assert forall|i: int| 0 <= i < ids.len() implies !(#[trigger] inserted(ids, states, i as nat)).contains_key(ids[i]) by {
        lemma_inserted_keys(ids, states, i as nat);
        if inserted(ids, states, i as nat).contains_key(ids[i]) {
            let j = choose|j: int| 0 <= j < i && ids[j] == ids[i];
            assert(ids[j] != ids[i]);
        }
    }
    assert forall|i: int| 0 <= i < ids.len() implies (#[trigger] removed(ids, states, i as nat)).contains_key(ids[i]) by {
        lemma_removed_keys(ids, states, i as nat);
        assert(i <= i < ids.len() && ids[i] == ids[i]);
    }
    lemma_removed_keys(ids, states, ids.len());
    assert(removed(ids, states, ids.len()) =~= Map::<(Seq<char>, usize), ExampleStateV>::empty());
}

} // verus!
