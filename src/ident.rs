//! Call identifiers of the form `"<Trait>::<Method>"`.
use vstd::prelude::*;

verus! {

/// The separator between a trait name and a method name.
pub open spec fn sep() -> Seq<char> {
    seq![':', ':']
}

/// The prefix that selects a trait's sub-router: `"<Trait>::"`.
pub open spec fn trait_prefix(t: Seq<char>) -> Seq<char> {
    t + sep()
}

/// The identifier of method `m` of trait `t`.
pub open spec fn call_id(t: Seq<char>, m: Seq<char>) -> Seq<char> {
    trait_prefix(t) + m
}

/// `p` is a prefix of `s`.
pub open spec fn is_prefix(p: Seq<char>, s: Seq<char>) -> bool {
    p.len() <= s.len() && s.subrange(0, p.len() as int) == p
}

/// The identifier `id` falls under trait `t`.
pub open spec fn in_trait(t: Seq<char>, id: Seq<char>) -> bool {
    is_prefix(trait_prefix(t), id)
}

/// A method's identifier falls under its own trait.
pub proof fn lemma_call_id_in_trait(t: Seq<char>, m: Seq<char>)
    ensures
        in_trait(t, call_id(t, m)),
{
    assert(call_id(t, m).subrange(0, trait_prefix(t).len() as int) =~= trait_prefix(t));
}

/// Builds the identifier of method `m` of trait `t`.
pub fn call_identifier(t: &str, m: &str) -> (r: String)
    ensures
        r@ == call_id(t@, m@),
{
    let mut r = String::from_str(t);
    proof {
        reveal_strlit("::");
    }
    r.append("::");
    r.append(m);
    proof {
        assert(r@ =~= call_id(t@, m@));
    }
    r
}

/// Whether the characters of `s` from position `at` on begin with `p`.
pub fn matches_at(s: &str, at: usize, p: &str) -> (r: bool)
    requires
        at <= s@.len(),
    ensures
        r == is_prefix(p@, s@.subrange(at as int, s@.len() as int)),
{
    let n = s.unicode_len();
    let m = p.unicode_len();
    if m > n - at {
        return false;
    }
    let mut i: usize = 0;
    while i < m
        invariant
            n == s@.len(),
            m == p@.len(),
            at + m <= n,
            i <= m,
            forall|j: int| 0 <= j < i ==> s@[at + j] == p@[j],
        decreases m - i,
    {
        if s.get_char(at + i) != p.get_char(i) {
            proof {
                let rest = s@.subrange(at as int, s@.len() as int);
                assert(rest.subrange(0, m as int)[i as int] != p@[i as int]);
            }
            return false;
        }
        i += 1;
    }
    proof {
        let rest = s@.subrange(at as int, s@.len() as int);
        assert(rest.subrange(0, m as int) =~= p@);
    }
    true
}

/// Whether `a` and `b` hold the same characters.
pub fn same_text(a: &str, b: &str) -> (r: bool)
    ensures
        r == (a@ == b@),
{
    if a.unicode_len() != b.unicode_len() {
        return false;
    }
    let r = matches_at(a, 0, b);
    proof {
        assert(a@.subrange(0, a@.len() as int) =~= a@);
        if r {
            assert(a@.subrange(0, b@.len() as int) =~= a@);
        }
    }
    r
}

/// Whether `id` falls under trait `t`, that is, begins with `"<t>::"`.
pub fn has_trait_prefix(id: &str, t: &str) -> (r: bool)
    ensures
        r == in_trait(t@, id@),
{
    let n = id.unicode_len();
    let k = t.unicode_len();
    if !matches_at(id, 0, t) {
        proof {
            assert(id@.subrange(0, n as int) =~= id@);
            if in_trait(t@, id@) {
                assert(id@.subrange(0, k as int) =~= id@.subrange(0, trait_prefix(t@).len() as int).subrange(0, k as int));
                assert(trait_prefix(t@).subrange(0, k as int) =~= t@);
            }
        }
        return false;
    }
    proof {
        assert(id@.subrange(0, n as int) =~= id@);
    }
    if n - k < 2 {
        return false;
    }
    let r = id.get_char(k) == ':' && id.get_char(k + 1) == ':';
    proof {
        let p = trait_prefix(t@);
        if r {
            assert(id@.subrange(0, p.len() as int) =~= p);
        } else {
            if in_trait(t@, id@) {
                assert(id@.subrange(0, p.len() as int)[k as int] == p[k as int]);
                assert(id@.subrange(0, p.len() as int)[k + 1] == p[k + 1]);
            }
        }
    }
    r
}

} // verus!
