use vstd::prelude::*;

verus! {

/// Which side of a bracket pair a query starts from.
#[allow(non_camel_case_types)]
#[derive(Clone, Copy, Debug, PartialEq, Eq, Structural)]
pub enum BracketPair {
    /// The query index holds a `[`; its closing `]` is wanted.
    LEFT,
    /// The query index holds a `]`; its opening `[` is wanted.
    RIGHT,
}

/// How one character changes the bracket nesting depth.
pub open spec fn delta(c: char) -> int {
    if c == '[' {
        1
    } else if c == ']' {
        -1
    } else {
        0
    }
}

/// Nesting depth gained over `p[a..b]`: opening minus closing brackets.
pub open spec fn depth(p: Seq<char>, a: int, b: int) -> int
    decreases b - a,
{
    if b <= a {
        0
    } else {
        depth(p, a, b - 1) + delta(p[b - 1])
    }
}

/// `p[i]` is a `[` and `p[j]` is the `]` that closes it.
///
/// No prefix of the text up to `i` closes more brackets than it opens, the
/// text strictly between the two never drops below its starting depth, and
/// it ends at that depth.
pub open spec fn pairs(p: Seq<char>, i: int, j: int) -> bool {
    &&& 0 <= i < j < p.len()
    &&& p[i] == '['
    &&& p[j] == ']'
    &&& forall|m: int| 0 <= m <= i ==> #[trigger] depth(p, 0, m) >= 0
    &&& forall|m: int| i + 1 <= m <= j ==> #[trigger] depth(p, i + 1, m) >= 0
    &&& depth(p, i + 1, j) == 0
}

/// The partner of the bracket at `i`, queried from `side`, if it has one.
pub open spec fn partner(p: Seq<char>, i: int, side: BracketPair) -> Option<int> {
    match side {
        BracketPair::LEFT => if exists|j: int| pairs(p, i, j) {
            Some(choose|j: int| pairs(p, i, j))
        } else {
            None
        },
        BracketPair::RIGHT => if exists|k: int| pairs(p, k, i) {
            Some(choose|k: int| pairs(p, k, i))
        } else {
            None
        },
    }
}

/// Depth is additive over adjacent ranges.
pub proof fn lemma_depth_split(p: Seq<char>, a: int, b: int, c: int)
    requires
        a <= b <= c,
    ensures
        depth(p, a, c) == depth(p, a, b) + depth(p, b, c),
    decreases c - b,
{
    if c > b {
        lemma_depth_split(p, a, b, c - 1);
    }
}

/// An opening bracket closes at no more than one place.
proof fn lemma_closing_unique(p: Seq<char>, i: int, j1: int, j2: int)
    requires
        pairs(p, i, j1),
        pairs(p, i, j2),
    ensures
        j1 == j2,
{
    if j1 < j2 {
        assert(depth(p, i + 1, j1 + 1) == -1);
        assert(depth(p, i + 1, j1 + 1) >= 0);
    } else if j2 < j1 {
        assert(depth(p, i + 1, j2 + 1) == -1);
        assert(depth(p, i + 1, j2 + 1) >= 0);
    }
}

/// A closing bracket closes no more than one opening bracket.
proof fn lemma_opening_unique(p: Seq<char>, i1: int, i2: int, j: int)
    requires
        pairs(p, i1, j),
        pairs(p, i2, j),
    ensures
        i1 == i2,
{
    if i1 < i2 {
        lemma_depth_split(p, i1 + 1, i2 + 1, j);
        assert(depth(p, i1 + 1, i2) == -1);
        assert(depth(p, i1 + 1, i2) >= 0);
    } else if i2 < i1 {
        lemma_depth_split(p, i2 + 1, i1 + 1, j);
        assert(depth(p, i2 + 1, i1) == -1);
        assert(depth(p, i2 + 1, i1) >= 0);
    }
}

/// Querying either end of a pair gives the other end, and only a pair does.
pub proof fn lemma_pairing_symmetric(p: Seq<char>, i: int, j: int)
    ensures
        partner(p, i, BracketPair::LEFT) == Some(j) <==> pairs(p, i, j),
        partner(p, j, BracketPair::RIGHT) == Some(i) <==> pairs(p, i, j),
        partner(p, i, BracketPair::LEFT) == Some(j) <==> partner(p, j, BracketPair::RIGHT)
            == Some(i),
{
    if pairs(p, i, j) {
        let j2 = choose|j2: int| pairs(p, i, j2);
        lemma_closing_unique(p, i, j, j2);
        let i2 = choose|i2: int| pairs(p, i2, j);
        lemma_opening_unique(p, i, i2, j);
    }
}

/// Every prefix up to the closing end of a pair stays at non-negative depth,
/// and the text before the closing end has at least one bracket open.
proof fn lemma_pair_prefixes(p: Seq<char>, i: int, j: int)
    requires
        pairs(p, i, j),
    ensures
        forall|m: int| 0 <= m <= j ==> #[trigger] depth(p, 0, m) >= 0,
        depth(p, 0, j) >= 1,
{
    assert forall|m: int| 0 <= m <= j implies #[trigger] depth(p, 0, m) >= 0 by {
        if m > i {
            lemma_depth_split(p, 0, i, i + 1);
            lemma_depth_split(p, 0, i + 1, m);
            assert(depth(p, i, i + 1) == 1);
        }
    }
    lemma_depth_split(p, 0, i, i + 1);
    lemma_depth_split(p, 0, i + 1, j);
    assert(depth(p, i, i + 1) == 1);
}

/// A query result as an index into the program.
pub open spec fn as_index(r: Option<usize>) -> Option<int> {
    match r {
        Some(j) => Some(j as int),
        None => None,
    }
}

/// The depth reached after `p[..end]`, provided that no prefix of it
/// closes more brackets than it opens.
fn prefix_depth(p: &Vec<char>, end: usize) -> (r: Option<usize>)
    requires
        end <= p@.len(),
    ensures
        match r {
            Some(d) => d == depth(p@, 0, end as int) && forall|m: int|
                0 <= m <= end ==> #[trigger] depth(p@, 0, m) >= 0,
            None => exists|m: int| 0 <= m <= end && #[trigger] depth(p@, 0, m) < 0,
        },
{
    let mut d: usize = 0;
    let mut k: usize = 0;
    while k < end
        invariant
            k <= end <= p@.len(),
            d <= k,
            d == depth(p@, 0, k as int),
            forall|m: int| 0 <= m <= k ==> #[trigger] depth(p@, 0, m) >= 0,
        decreases end - k,
    {
        let c = p[k];
        if c == '[' {
            d = d + 1;
        } else if c == ']' {
            if d == 0 {
                assert(depth(p@, 0, k + 1) < 0);
                return None;
            }
            d = d - 1;
        }
        k = k + 1;
    }
    Some(d)
}

/// The closing partner of the `[` at `i`, found by scanning forward.
pub(crate) fn closing_of(p: &Vec<char>, i: usize) -> (r: Option<usize>)
    ensures
        as_index(r) == partner(p@, i as int, BracketPair::LEFT),
{
    if i >= p.len() || p[i] != '[' {
        return None;
    }
    if prefix_depth(p, i).is_none() {
        return None;
    }
    let mut d: usize = 0;
    let mut k: usize = i + 1;
    while k < p.len()
        invariant
            i < k <= p@.len(),
            p@[i as int] == '[',
            forall|m: int| 0 <= m <= i ==> #[trigger] depth(p@, 0, m) >= 0,
            d <= k,
            d == depth(p@, i + 1, k as int),
            forall|m: int| i + 1 <= m <= k ==> #[trigger] depth(p@, i + 1, m) >= 0,
            forall|j: int| i < j < k ==> !pairs(p@, i as int, j),
        decreases p@.len() - k,
    {
        let c = p[k];
        if c == ']' {
            if d == 0 {
                proof {
                    lemma_pairing_symmetric(p@, i as int, k as int);
                }
                return Some(k);
            }
            d = d - 1;
        } else if c == '[' {
            d = d + 1;
        }
        k = k + 1;
    }
    None
}

/// The opening partner of the `]` at `j`, found by scanning backward.
pub(crate) fn opening_of(p: &Vec<char>, j: usize) -> (r: Option<usize>)
    ensures
        as_index(r) == partner(p@, j as int, BracketPair::RIGHT),
{
    if j >= p.len() || p[j] != ']' {
        return None;
    }
    let open = prefix_depth(p, j);
    if open.is_none() || open == Some(0usize) {
        proof {
            assert forall|i: int| !pairs(p@, i, j as int) by {
                if pairs(p@, i, j as int) {
                    lemma_pair_prefixes(p@, i, j as int);
                }
            }
        }
        return None;
    }
    let mut e: usize = 0;
    let mut k: usize = j;
    while k > 0
        invariant
            k <= j < p@.len(),
            p@[j as int] == ']',
            forall|m: int| 0 <= m <= j ==> #[trigger] depth(p@, 0, m) >= 0,
            depth(p@, 0, j as int) >= 1,
            e <= j - k,
            e == -depth(p@, k as int, j as int),
            forall|m: int| k <= m <= j ==> #[trigger] depth(p@, m, j as int) <= 0,
        decreases k,
    {
        k = k - 1;
        let c = p[k];
        proof {
            lemma_depth_split(p@, k as int, k + 1, j as int);
            assert(depth(p@, k as int, k as int) == 0);
            assert(depth(p@, k as int, k + 1) == delta(p@[k as int]));
        }
        if c == '[' {
            if e == 0 {
                proof {
                    assert forall|m: int| k + 1 <= m <= j implies #[trigger] depth(
                        p@,
                        k + 1,
                        m,
                    ) >= 0 by {
                        lemma_depth_split(p@, k + 1, m, j as int);
                    }
                    lemma_pairing_symmetric(p@, k as int, j as int);
                }
                return Some(k);
            }
            e = e - 1;
        } else if c == ']' {
            e = e + 1;
        }
    }
    None
}

} // verus!
