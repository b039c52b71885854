use vstd::prelude::*;

verus! {

/// Outcome of a practical comparison of two entities.
#[derive(Clone, Copy, Debug, PartialEq, Eq, Structural)]
pub enum EntityCmpResult {
    /// Entities match exactly (according to the practical comparison rules)
    Equal,
    /// Entities contain conflicting data OR different parts of data is missing from both of them
    Conflict,
    /// Left entity has more data than right entity, otherwise they are equal
    LeftHasMore,
    /// Right entity has more data than left entity, otherwise they are equal
    RightHasMore,
}

/// Combined outcome of two comparisons of parts of the same pair of entities.
pub open spec fn combine(a: EntityCmpResult, b: EntityCmpResult) -> EntityCmpResult {
    if a == b {
        a
    } else if a == EntityCmpResult::Equal {
        b
    } else if b == EntityCmpResult::Equal {
        a
    } else {
        EntityCmpResult::Conflict
    }
}

/// Combined outcome of a sequence of comparisons: a conflict anywhere, or one part where
/// the left side has more and another where the right side has more, is a conflict; otherwise
/// the side that has more anywhere has more; otherwise the entities are equal.
pub open spec fn chain_result(s: Seq<EntityCmpResult>) -> EntityCmpResult {
    if s.contains(EntityCmpResult::Conflict) || (s.contains(EntityCmpResult::LeftHasMore)
        && s.contains(EntityCmpResult::RightHasMore)) {
        EntityCmpResult::Conflict
    } else if s.contains(EntityCmpResult::LeftHasMore) {
        EntityCmpResult::LeftHasMore
    } else if s.contains(EntityCmpResult::RightHasMore) {
        EntityCmpResult::RightHasMore
    } else {
        EntityCmpResult::Equal
    }
}

/// `Equal` for `true`, `Conflict` for `false`.
pub open spec fn from_bool_spec(b: bool) -> EntityCmpResult {
    if b {
        EntityCmpResult::Equal
    } else {
        EntityCmpResult::Conflict
    }
}

proof fn lemma_chain_push(s: Seq<EntityCmpResult>, x: EntityCmpResult)
    requires
        s.len() > 0,
    ensures
        chain_result(s.push(x)) == combine(chain_result(s), x),
{
    let t = s.push(x);
    assert(t.last() == x);
    assert forall|y: EntityCmpResult| t.contains(y) <==> (s.contains(y) || y == x) by {
        if t.contains(y) {
            let k = choose|k: int| 0 <= k < t.len() && t[k] == y;
            if k < s.len() {
                assert(s[k] == y);
            }
        }
        if s.contains(y) {
            let k = choose|k: int| 0 <= k < s.len() && s[k] == y;
            assert(t[k] == y);
        }
        if y == x {
            assert(t[s.len() as int] == y);
        }
    }
    assert(s.contains(s[0]));
}

impl EntityCmpResult {
    pub fn is_eq(self) -> (r: bool)
        ensures
            r == (self == EntityCmpResult::Equal),
    {
        self == Self::Equal
    }

    pub fn is_conflict(self) -> (r: bool)
        ensures
            r == (self == EntityCmpResult::Conflict),
    {
        self == Self::Conflict
    }

    pub fn is_left_more(self) -> (r: bool)
        ensures
            r == (self == EntityCmpResult::LeftHasMore),
    {
        self == Self::LeftHasMore
    }

    pub fn is_right_more(self) -> (r: bool)
        ensures
            r == (self == EntityCmpResult::RightHasMore),
    {
        self == Self::RightHasMore
    }

    /// `Equal` for `true`, `Conflict` for `false`.
    pub fn from_bool(b: bool) -> (r: EntityCmpResult)
        ensures
            r == from_bool_spec(b),
    {
        if b {
            Self::Equal
        } else {
            Self::Conflict
        }
    }

    /// Combines the outcomes of comparisons of parts of one pair of entities.
    pub fn chain(vals: Vec<EntityCmpResult>) -> (r: EntityCmpResult)
        requires
            vals.len() > 0,
        ensures
            r == chain_result(vals@),
    {
        let mut result = vals[0];
        let n = vals.len();
        assert(vals@.take(1) =~= seq![vals@[0]]);
        assert(seq![vals@[0]][0] == vals@[0]);
        let mut i: usize = 1;
        while i < n
            invariant
                1 <= i <= n,
                n == vals.len(),
                result == chain_result(vals@.take(i as int)),
            decreases n - i,
        {
            let val = vals[i];
            proof {
                assert(vals@.take(i as int + 1) =~= vals@.take(i as int).push(val));
                lemma_chain_push(vals@.take(i as int), val);
            }
            if result == val {
            } else if result == Self::Equal {
                result = val;
            } else if val == Self::Equal {
            } else {
                proof {
                    assert(vals@.take(i as int + 1).contains(EntityCmpResult::Conflict)
                        || (vals@.take(i as int + 1).contains(EntityCmpResult::LeftHasMore)
                        && vals@.take(i as int + 1).contains(EntityCmpResult::RightHasMore)));
                    lemma_contains_prefix(vals@, i as int + 1);
                }
                return Self::Conflict;
            }
            i = i + 1;
        }
        assert(vals@.take(n as int) =~= vals@);
        result
    }
}

proof fn lemma_contains_prefix(s: Seq<EntityCmpResult>, k: int)
    requires
        0 <= k <= s.len(),
    ensures
        forall|x: EntityCmpResult| s.take(k).contains(x) ==> s.contains(x),
{
    assert forall|x: EntityCmpResult| s.take(k).contains(x) implies s.contains(x) by {
        let j = choose|j: int| 0 <= j < k && s.take(k)[j] == x;
        assert(s[j] == x);
    }
}

/// Combining outcomes is commutative.
pub proof fn law_combine_commutative(a: EntityCmpResult, b: EntityCmpResult)
    ensures
        combine(a, b) == combine(b, a),
{
}

/// Combining outcomes is associative.
pub proof fn law_combine_associative(a: EntityCmpResult, b: EntityCmpResult, c: EntityCmpResult)
    ensures
        combine(combine(a, b), c) == combine(a, combine(b, c)),
{
}

/// `Equal` is neutral and `Conflict` absorbs every other outcome when combining.
pub proof fn law_combine_identity_and_absorption(a: EntityCmpResult)
    ensures
        combine(EntityCmpResult::Equal, a) == a,
        combine(a, EntityCmpResult::Equal) == a,
        combine(EntityCmpResult::Conflict, a) == EntityCmpResult::Conflict,
        combine(a, a) == a,
{
}

/// Chaining a sequence of outcomes is folding it from the left with `combine`.
pub proof fn law_chain_is_left_fold(s: Seq<EntityCmpResult>, x: EntityCmpResult)
    requires
        s.len() > 0,
    ensures
        chain_result(seq![x]) == x,
        chain_result(s.push(x)) == combine(chain_result(s), x),
{
    assert(seq![x][0] == x);
    lemma_chain_push(s, x);
}

/// The order of the chained outcomes does not matter: chaining a sequence and its reverse
/// (or any rearrangement of it, as only membership counts) gives the same outcome.
pub proof fn law_chain_order_independent(s: Seq<EntityCmpResult>)
    ensures
        chain_result(s) == chain_result(s.reverse()),
{
    assert forall|x: EntityCmpResult| s.contains(x) <==> s.reverse().contains(x) by {
        if s.contains(x) {
            let k = choose|k: int| 0 <= k < s.len() && s[k] == x;
            assert(s.reverse()[s.len() - 1 - k] == x);
        }
        if s.reverse().contains(x) {
            let k = choose|k: int| 0 <= k < s.len() && s.reverse()[k] == x;
            assert(s[s.len() - 1 - k] == x);
        }
    }
}

} // verus!
