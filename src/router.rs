//! Routing of a call identifier to a trait and a method of one plugin.
use vstd::prelude::*;
use crate::ident::{call_id, has_trait_prefix, in_trait, is_prefix, matches_at, same_text, trait_prefix};

verus! {

/// Why a call could not be carried out. Each of these is a mismatch between
/// the caller's and the callee's build, never a transient fault.
#[derive(Debug, Clone, Copy, PartialEq, Eq, Structural)]
pub enum CallError {
    /// No implemented trait's prefix begins the identifier.
    UnknownTrait,
    /// The identifier falls under a trait but names none of its methods.
    UnknownMethod,
    /// The argument bytes do not decode to the method's parameters.
    BadArguments,
    /// The result bytes of a nested call do not decode to its return type.
    BadReply,
    /// The method's integer result does not fit its type.
    Overflow,
}

/// One implemented trait: its name and the names of its methods.
pub struct TraitRoutes {
    pub name: String,
    pub methods: Vec<String>,
}

/// The routing table of a plugin, with its traits in matching order.
pub struct Router {
    pub traits: Vec<TraitRoutes>,
}

/// Where an identifier leads: the trait's and the method's position.
#[derive(Debug, Clone, Copy, PartialEq, Eq, Structural)]
pub struct Route {
    pub trait_index: usize,
    pub method_index: usize,
}

/// No name in `names` is a prefix of a different name in `names`.
pub open spec fn prefix_free(names: Seq<Seq<char>>) -> bool {
    forall|i: int, j: int|
        0 <= i < names.len() && 0 <= j < names.len() && names[i] != names[j] ==> !is_prefix(
            #[trigger] names[i],
            #[trigger] names[j],
        )
}

/// Where no trait name of a plugin is a prefix of another, the traits whose
/// prefix begins an identifier all bear one name, so the order in which the
/// router tries them cannot change where a call goes.
pub proof fn lemma_prefix_free_routes_uniquely(names: Seq<Seq<char>>, id: Seq<char>, i: int, j: int)
    requires
        prefix_free(names),
        0 <= i < names.len(),
        0 <= j < names.len(),
        in_trait(names[i], id),
        in_trait(names[j], id),
    ensures
        names[i] == names[j],
{
    let a = names[i];
    let b = names[j];
    let pa = trait_prefix(a);
    let pb = trait_prefix(b);
    assert(id.subrange(0, pa.len() as int) == pa);
    assert(id.subrange(0, pb.len() as int) == pb);
    if a != b {
        if a.len() <= b.len() {
            assert(b.subrange(0, a.len() as int) =~= a) by {
                assert forall|k: int| 0 <= k < a.len() implies #[trigger] b[k] == a[k] by {
                    assert(pa[k] == id[k]);
                    assert(pb[k] == id[k]);
                }
            }
            assert(!is_prefix(names[i], names[j]));
        } else {
            assert(a.subrange(0, b.len() as int) =~= b) by {
                assert forall|k: int| 0 <= k < b.len() implies #[trigger] a[k] == b[k] by {
                    assert(pa[k] == id[k]);
                    assert(pb[k] == id[k]);
                }
            }
            assert(!is_prefix(names[j], names[i]));
        }
    }
}

impl TraitRoutes {
    pub open spec fn method_names(&self) -> Seq<Seq<char>> {
        self.methods@.map_values(|m: String| m@)
    }
}

impl Router {
    /// The trait names, in matching order.
    pub open spec fn names(&self) -> Seq<Seq<char>> {
        self.traits@.map_values(|t: TraitRoutes| t.name@)
    }

    /// The method names of trait `i`.
    pub open spec fn methods_of(&self, i: int) -> Seq<Seq<char>> {
        self.traits@[i].method_names()
    }

    /// Trait `i` is the first whose prefix begins `id`.
    pub open spec fn selects(&self, id: Seq<char>, i: int) -> bool {
        &&& 0 <= i < self.traits@.len()
        &&& in_trait(self.names()[i], id)
        &&& forall|j: int| 0 <= j < i ==> !in_trait(#[trigger] self.names()[j], id)
    }

    /// Some trait's prefix begins `id`.
    pub open spec fn any_trait(&self, id: Seq<char>) -> bool {
        exists|i: int| 0 <= i < self.traits@.len() && in_trait(#[trigger] self.names()[i], id)
    }

    /// Method `k` is the first of trait `i` whose full identifier is `id`.
    pub open spec fn names_method(&self, id: Seq<char>, i: int, k: int) -> bool {
        &&& 0 <= k < self.methods_of(i).len()
        &&& call_id(self.names()[i], self.methods_of(i)[k]) == id
        &&& forall|l: int| 0 <= l < k ==> call_id(self.names()[i], #[trigger] self.methods_of(i)[l]) != id
    }

    /// The outcome of routing `id`: the first trait whose prefix matches,
    /// then the first of its methods whose full identifier is `id`.
    pub open spec fn route_spec(&self, id: Seq<char>, r: Result<Route, CallError>) -> bool {
        match r {
            Ok(route) => self.selects(id, route.trait_index as int) && self.names_method(
                id,
                route.trait_index as int,
                route.method_index as int,
            ),
            Err(CallError::UnknownTrait) => !self.any_trait(id),
            Err(CallError::UnknownMethod) => exists|i: int|
                #![trigger self.selects(id, i)]
                self.selects(id, i) && forall|k: int|
                    0 <= k < self.methods_of(i).len() ==> call_id(
                        self.names()[i],
                        #[trigger] self.methods_of(i)[k],
                    ) != id,
            Err(_) => false,
        }
    }

    /// Whether no trait name of this table is a prefix of a different one.
    pub fn is_prefix_free(&self) -> (r: bool)
        ensures
            r == prefix_free(self.names()),
    {
        let n = self.traits.len();
        let mut i: usize = 0;
        while i < n
            invariant
                n == self.traits@.len(),
                i <= n,
                forall|a: int, b: int|
                    0 <= a < i && 0 <= b < n && self.names()[a] != self.names()[b] ==> !is_prefix(
                        #[trigger] self.names()[a],
                        #[trigger] self.names()[b],
                    ),
            decreases n - i,
        {
            let mut j: usize = 0;
            while j < n
                invariant
                    n == self.traits@.len(),
                    i < n,
                    j <= n,
                    forall|a: int, b: int|
                        0 <= a < i && 0 <= b < n && self.names()[a] != self.names()[b]
                            ==> !is_prefix(#[trigger] self.names()[a], #[trigger] self.names()[b]),
                    forall|b: int|
                        0 <= b < j && self.names()[i as int] != self.names()[b] ==> !is_prefix(
                            self.names()[i as int],
                            #[trigger] self.names()[b],
                        ),
                decreases n - j,
            {
                let x = self.traits[i].name.as_str();
                let y = self.traits[j].name.as_str();
                assert(self.names()[i as int] == x@);
                assert(self.names()[j as int] == y@);
                if !same_text(x, y) && matches_at(y, 0, x) {
                    proof {
                        assert(y@.subrange(0, y@.len() as int) =~= y@);
                    }
                    return false;
                }
                proof {
                    assert(y@.subrange(0, y@.len() as int) =~= y@);
                }
                j += 1;
            }
            i += 1;
        }
        true
    }

    /// Finds the method that `id` names: the first trait whose
    /// `"<Trait>::"` prefix begins `id`, then, in that trait alone, the
    /// first method whose full `"<Trait>::<Method>"` identifier equals `id`.
    pub fn route(&self, id: &str) -> (r: Result<Route, CallError>)
        ensures
            self.route_spec(id@, r),
    {
        let mut i: usize = 0;
        while i < self.traits.len()
            invariant
                i <= self.traits@.len(),
                forall|j: int| 0 <= j < i ==> !in_trait(#[trigger] self.names()[j], id@),
            decreases self.traits@.len() - i,
        {
            let t = &self.traits[i];
            if has_trait_prefix(id, t.name.as_str()) {
                assert(self.selects(id@, i as int));
                let id_len = id.unicode_len();
                let start = t.name.as_str().unicode_len() + 2;
                let mut k: usize = 0;
                while k < t.methods.len()
                    invariant
                        self.selects(id@, i as int),
                        t == self.traits@[i as int],
                        start == trait_prefix(t.name@).len(),
                        start <= id@.len(),
                        id_len == id@.len(),
                        k <= t.methods@.len(),
                        forall|l: int|
                            0 <= l < k ==> call_id(t.name@, #[trigger] t.methods@[l]@) != id@,
                    decreases t.methods@.len() - k,
                {
                    let m = t.methods[k].as_str();
                    let rest_len = id_len - start;
                    if m.unicode_len() == rest_len && matches_at(id, start, m) {
                        proof {
                            let p = trait_prefix(t.name@);
                            let rest = id@.subrange(start as int, id@.len() as int);
                            assert(rest.subrange(0, m@.len() as int) =~= rest);
                            assert(id@.subrange(0, p.len() as int) == p);
                            assert(id@ =~= p + rest);
                            assert(self.methods_of(i as int)[k as int] == m@);
                        }
                        return Ok(Route { trait_index: i, method_index: k });
                    }
                    proof {
                        let p = trait_prefix(t.name@);
                        let rest = id@.subrange(start as int, id@.len() as int);
                        if call_id(t.name@, m@) == id@ {
                            assert(id@.subrange(0, p.len() as int) == p);
                            assert((p + m@).subrange(p.len() as int, (p + m@).len() as int) =~= m@);
                            assert(rest =~= m@);
                            assert(rest.subrange(0, m@.len() as int) =~= rest);
                        }
                    }
                    k += 1;
                }
                proof {
                    assert forall|l: int|
                        0 <= l < self.methods_of(i as int).len() implies call_id(
                        self.names()[i as int],
                        #[trigger] self.methods_of(i as int)[l],
                    ) != id@ by {
                        assert(self.methods_of(i as int)[l] == t.methods@[l]@);
                    }
                }
                return Err(CallError::UnknownMethod);
            }
            i += 1;
        }
        Err(CallError::UnknownTrait)
    }
}

} // verus!
