//! The registry: plugin ids mapped to the handles through which they are called.
use vstd::prelude::*;
use crate::ident::same_text;

verus! {

/// A mapping from plugin id to handle, passed into every call so that any
/// plugin can reach any other by id. Ids are unique; inserting under an id
/// that is present replaces its handle.
pub struct Registry<H> {
    entries: Vec<(String, H)>,
    model: Ghost<Map<Seq<char>, H>>,
}

impl<H> View for Registry<H> {
    type V = Map<Seq<char>, H>;

    closed spec fn view(&self) -> Map<Seq<char>, H> {
        self.model@
    }
}

impl<H> Registry<H> {
    #[verifier::type_invariant]
    spec fn inv(self) -> bool {
        entries_match(self.entries@, self.model@)
    }
}

/// The entries hold unique ids, and they and the model hold the same pairs.
spec fn entries_match<H>(entries: Seq<(String, H)>, model: Map<Seq<char>, H>) -> bool {
    &&& forall|i: int, j: int|
        0 <= i < entries.len() && 0 <= j < entries.len() && i != j ==> #[trigger] entries[i].0@
            != #[trigger] entries[j].0@
    &&& forall|i: int|
        0 <= i < entries.len() ==> model.contains_key(#[trigger] entries[i].0@) && model[entries[i].0@]
            == entries[i].1
    &&& forall|k: Seq<char>|
        #[trigger] model.contains_key(k) ==> exists|i: int|
            0 <= i < entries.len() && #[trigger] entries[i].0@ == k
}

impl<H: Copy> Registry<H> {
    /// An empty registry.
    pub fn new() -> (r: Self)
        ensures
            r@ == Map::<Seq<char>, H>::empty(),
    {
        Registry { entries: Vec::new(), model: Ghost(Map::empty()) }
    }

    /// Where `id` stands among the entries, if it does.
    fn position(&self, id: &str) -> (r: Option<usize>)
        ensures
            match r {
                Some(i) => i < self.entries@.len() && self.entries@[i as int].0@ == id@,
                None => forall|i: int|
                    0 <= i < self.entries@.len() ==> #[trigger] self.entries@[i].0@ != id@,
            },
    {
        let mut i: usize = 0;
        while i < self.entries.len()
            invariant
                i <= self.entries@.len(),
                forall|j: int| 0 <= j < i ==> #[trigger] self.entries@[j].0@ != id@,
            decreases self.entries@.len() - i,
        {
            if same_text(self.entries[i].0.as_str(), id) {
                return Some(i);
            }
            i += 1;
        }
        None
    }

    /// Registers `handle` under `id`, replacing any handle registered there.
    pub fn insert(&mut self, id: &str, handle: H)
        ensures
            final(self)@ == old(self)@.insert(id@, handle),
    {
        proof {
            use_type_invariant(&*self);
        }
        let key = String::from_str(id);
        let pos = self.position(id);
        let mut taken = Registry::new();
        std::mem::swap(self, &mut taken);
        proof {
            use_type_invariant(&taken);
        }
        let ghost prev = taken;
        let Registry { mut entries, model } = taken;
        let ghost at: int = match pos {
            Some(i) => i as int,
            None => entries@.len() as int,
        };
        match pos {
            Some(i) => {
                entries.set(i, (key, handle));
            },
            None => {
                entries.push((key, handle));
            },
        }
        let ghost m = model@.insert(id@, handle);
        proof {
            assert(entries@[at].0@ == id@);
            assert(prev.entries@ == old(self).entries@);
            assert forall|i: int| 0 <= i < entries@.len() && i != at implies #[trigger] entries@[i]
                == prev.entries@[i] && entries@[i].0@ != id@ by {}
            assert forall|k: Seq<char>| #[trigger] m.contains_key(k) implies exists|i: int|
                0 <= i < entries@.len() && #[trigger] entries@[i].0@ == k by {
                if k != id@ {
                    let i = choose|i: int|
                        0 <= i < prev.entries@.len() && #[trigger] prev.entries@[i].0@ == k;
                    assert(entries@[i].0@ == k);
                } else {
                    assert(entries@[at].0@ == k);
                }
            }
        }
        proof {
            assert forall|i: int, j: int|
                0 <= i < entries@.len() && 0 <= j < entries@.len() && i != j implies #[trigger] entries@[i].0@
                    != #[trigger] entries@[j].0@ by {
                if i != at && j != at {
                    assert(prev.entries@[i].0@ != prev.entries@[j].0@);
                }
            }
            assert forall|i: int| 0 <= i < entries@.len() implies m.contains_key(
                #[trigger] entries@[i].0@,
            ) && m[entries@[i].0@] == entries@[i].1 by {
                if i != at {
                    assert(prev.model@.contains_key(prev.entries@[i].0@));
                }
            }
        }
        assert(entries_match(entries@, m));
        *self = Registry { entries, model: Ghost(m) };
    }

    /// The handle registered under `id`; `None` where nothing was.
    pub fn get(&self, id: &str) -> (r: Option<H>)
        ensures
            r == (if self@.contains_key(id@) {
                Some(self@[id@])
            } else {
                None
            }),
    {
        proof {
            use_type_invariant(self);
        }
        match self.position(id) {
            Some(i) => Some(self.entries[i].1),
            None => None,
        }
    }
}

impl<H: Copy> Default for Registry<H> {
    fn default() -> (r: Self)
        ensures
            r@ == Map::<Seq<char>, H>::empty(),
    {
        Registry::new()
    }
}

/// The registry's contents after inserting `hs[i]` under `ids[i]`, in order,
/// into one whose contents were `m`.
pub open spec fn after_inserts<H>(m: Map<Seq<char>, H>, ids: Seq<Seq<char>>, hs: Seq<H>) -> Map<
    Seq<char>,
    H,
>
    recommends
        ids.len() == hs.len(),
    decreases ids.len(),
{
    if ids.len() == 0 || hs.len() == 0 {
        m
    } else {
        after_inserts(m, ids.drop_last(), hs.drop_last()).insert(ids.last(), hs.last())
    }
}

/// Inserts under ids other than `id` leave what a lookup of `id` finds as it was.
pub proof fn lemma_inserts_elsewhere_keep<H>(
    m: Map<Seq<char>, H>,
    ids: Seq<Seq<char>>,
    hs: Seq<H>,
    id: Seq<char>,
)
    requires
        ids.len() == hs.len(),
        !ids.contains(id),
    ensures
        after_inserts(m, ids, hs).contains_key(id) == m.contains_key(id),
        m.contains_key(id) ==> after_inserts(m, ids, hs)[id] == m[id],
    decreases ids.len(),
{
    if ids.len() > 0 {
        assert(!ids.drop_last().contains(id)) by {
            if ids.drop_last().contains(id) {
                let i = choose|i: int| 0 <= i < ids.drop_last().len() && ids.drop_last()[i] == id;
                assert(ids[i] == id);
            }
        }
        assert(ids.last() != id) by {
            assert(ids[ids.len() - 1] == ids.last());
        }
        lemma_inserts_elsewhere_keep(m, ids.drop_last(), hs.drop_last(), id);
    }
}

/// A lookup in a fresh registry, after any run of inserts none of which was
/// under `id`, finds nothing: no default or placeholder handle appears.
pub proof fn lemma_never_inserted_is_absent<H>(ids: Seq<Seq<char>>, hs: Seq<H>, id: Seq<char>)
    requires
        ids.len() == hs.len(),
        !ids.contains(id),
    ensures
        !after_inserts(Map::<Seq<char>, H>::empty(), ids, hs).contains_key(id),
{
    lemma_inserts_elsewhere_keep(Map::<Seq<char>, H>::empty(), ids, hs, id);
}

/// Inserting a second handle under an id replaces the first: every lookup
/// after the second insert finds the second handle, whatever is inserted
/// under other ids afterwards.
pub proof fn lemma_reinsert_replaces<H>(
    m: Map<Seq<char>, H>,
    id: Seq<char>,
    first: H,
    second: H,
    later_ids: Seq<Seq<char>>,
    later_handles: Seq<H>,
)
    requires
        later_ids.len() == later_handles.len(),
        !later_ids.contains(id),
    ensures
        after_inserts(m.insert(id, first).insert(id, second), later_ids, later_handles).contains_key(
            id,
        ),
        after_inserts(m.insert(id, first).insert(id, second), later_ids, later_handles)[id]
            == second,
{
    lemma_inserts_elsewhere_keep(m.insert(id, first).insert(id, second), later_ids, later_handles, id);
}

/// A handle registered under `id`, from a loaded library or built in this
/// process alike, is exactly what a lookup of `id` then hands back, so calls
/// through it behave as calls through that handle.
pub proof fn lemma_lookup_returns_registered<H>(m: Map<Seq<char>, H>, id: Seq<char>, handle: H)
    ensures
        m.insert(id, handle).contains_key(id),
        m.insert(id, handle)[id] == handle,
{
}

} // verus!
