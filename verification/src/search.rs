//! The search for packages by name: which packages a query finds and in
//! which order they are listed.

use vstd::prelude::*;
use vstd::string::*;
use crate::metadata::effective_per_page;
use crate::text::{bytes_of, lowercase, range_is_ignoring_case};

verus! {

/// The rank of a name that begins with the query.
pub const RANK_PREFIX: u8 = 0;

/// The rank of a name that holds the query further in.
pub const RANK_SUBSTRING: u8 = 1;

/// The rank of a name that does not hold the query.
pub const RANK_NONE: u8 = 2;

/// A package as the search sees it.
#[derive(Clone, Debug)]
pub struct CrateSummary {
    /// The name of the package.
    pub name: String,
    /// The downloads of all its versions together.
    pub downloads: u64,
}

/// Whether the query stands in the name at the given position, when the case
/// of ASCII letters is ignored.
pub open spec fn occurs_at(name: Seq<u8>, query: Seq<u8>, at: int) -> bool {
    0 <= at && at + query.len() <= name.len() && lowercase(name.subrange(at, at + query.len()))
        == lowercase(query)
}

/// Whether the query stands somewhere in the name.
pub open spec fn occurs(name: Seq<u8>, query: Seq<u8>) -> bool {
    exists|at: int| #[trigger] occurs_at(name, query, at)
}

/// How well a name answers a query: it begins with the query, or it holds
/// the query further in, or it does not hold it.
pub open spec fn rank_of(name: Seq<u8>, query: Seq<u8>) -> u8 {
    if occurs_at(name, query, 0) {
        RANK_PREFIX
    } else if occurs(name, query) {
        RANK_SUBSTRING
    } else {
        RANK_NONE
    }
}

/// How well a name answers a query.
pub fn search_rank(name: &str, query: &str) -> (r: u8)
    ensures
        r == rank_of(name.spec_bytes(), query.spec_bytes()),
{
    let bytes = name.as_bytes();
    let n = bytes.len();
    let m = query.as_bytes().len();
    if m > n {
        return RANK_NONE;
    }
    if range_is_ignoring_case(bytes, 0, m, query) {
        return RANK_PREFIX;
    }
    let last = n - m;
    let mut at: usize = 0;
    while at < last
        invariant
            m <= n,
            last == n - m,
            at <= last,
            n == bytes@.len(),
            bytes@ == name.spec_bytes(),
            m == query.spec_bytes().len(),
            forall|i: int| 0 <= i <= at ==> !occurs_at(bytes@, query.spec_bytes(), i),
        decreases last - at,
    {
        at += 1;
        if range_is_ignoring_case(bytes, at, at + m, query) {
            assert(occurs_at(bytes@, query.spec_bytes(), at as int));
            return RANK_SUBSTRING;
        }
    }
    RANK_NONE
}

/// Whether the package at position `i` is listed before the one at `j`: it
/// has the better rank, or the same rank and more downloads, or the same of
/// both and the earlier position.
pub open spec fn precedes(ranks: Seq<u8>, crates: Seq<CrateSummary>, i: int, j: int) -> bool {
    ranks[i] < ranks[j] || (ranks[i] == ranks[j] && (crates[i].downloads > crates[j].downloads || (
    crates[i].downloads == crates[j].downloads && i < j)))
}

/// The ranks of packages for a query.
pub open spec fn ranks_of(crates: Seq<CrateSummary>, query: Seq<u8>) -> Seq<u8> {
    Seq::new(crates.len(), |i: int| rank_of(bytes_of(crates[i].name@), query))
}

/// Whether `found` is the page of results of a query: positions of packages
/// that the query finds, each once, the best first, and as many as the page
/// holds or all there are.
pub open spec fn is_result_page(
    crates: Seq<CrateSummary>,
    query: Seq<u8>,
    limit: int,
    found: Seq<usize>,
) -> bool {
    let ranks = ranks_of(crates, query);
    &&& found.len() <= limit
    &&& forall|k: int|
        0 <= k < found.len() ==> (#[trigger] found[k]) < crates.len() && ranks[found[k] as int]
            < RANK_NONE
    &&& forall|k: int, l: int|
        0 <= k < l < found.len() ==> precedes(ranks, crates, found[k] as int, found[l] as int)
    &&& forall|m: int|
        0 <= m < crates.len() && #[trigger] ranks[m] < RANK_NONE && !found.contains(m as usize)
            ==> found.len() == limit && forall|k: int|
            0 <= k < found.len() ==> precedes(ranks, crates, #[trigger] found[k] as int, m)
}

fn is_before(ranks: &Vec<u8>, crates: &Vec<CrateSummary>, i: usize, j: usize) -> (r: bool)
    requires
        ranks@.len() == crates@.len(),
        i < crates@.len(),
        j < crates@.len(),
    ensures
        r == precedes(ranks@, crates@, i as int, j as int),
{
    ranks[i] < ranks[j] || (ranks[i] == ranks[j] && (crates[i].downloads > crates[j].downloads || (
    crates[i].downloads == crates[j].downloads && i < j)))
}

/// Searches the packages for a query and gives one page of results, as
/// positions in `crates`: first the packages whose name begins with the query,
/// then those whose name holds it further in, within each group those with
/// more downloads first. The page holds ten results if `per_page` names no
/// number, and never more than a hundred.
pub fn search_crates(crates: &Vec<CrateSummary>, query: &str, per_page: Option<usize>) -> (found:
    Vec<usize>)
    ensures
        is_result_page(
            crates@,
            query.spec_bytes(),
            match per_page {
                None => 10,
                Some(n) => if n > 100 {
                    100
                } else {
                    n as int
                },
            },
            found@,
        ),
{
    let limit = effective_per_page(per_page);
    let n = crates.len();
    let mut ranks: Vec<u8> = Vec::new();
    let mut i: usize = 0;
    while i < n
        invariant
            i <= n,
            n == crates@.len(),
            ranks@.len() == i,
            forall|j: int|
                0 <= j < i ==> #[trigger] ranks@[j] == rank_of(
                    bytes_of(crates@[j].name@),
                    query.spec_bytes(),
                ),
        decreases n - i,
    {
        ranks.push(search_rank(crates[i].name.as_str(), query));
        i += 1;
    }
    assert(ranks@ =~= ranks_of(crates@, query.spec_bytes()));
    let mut found: Vec<usize> = Vec::new();
    while found.len() < limit
        invariant
            n == crates@.len(),
            ranks@.len() == n,
            ranks@ == ranks_of(crates@, query.spec_bytes()),
            limit == (match per_page {
                None => 10,
                Some(n) => if n > 100 {
                    100
                } else {
                    n as int
                },
            }),
            found@.len() <= limit,
            forall|k: int|
                0 <= k < found@.len() ==> (#[trigger] found@[k]) < n && ranks@[found@[k] as int]
                    < RANK_NONE,
            forall|k: int, l: int|
                0 <= k < l < found@.len() ==> precedes(
                    ranks@,
                    crates@,
                    found@[k] as int,
                    found@[l] as int,
                ),
            forall|m: int|
                0 <= m < n && #[trigger] ranks@[m] < RANK_NONE && !found@.contains(m as usize)
                    && found@.len() > 0 ==> precedes(ranks@, crates@, found@.last() as int, m),
        decreases limit - found@.len(),
    {
        let ghost held = found@;
        let mut best: Option<usize> = None;
        let mut j: usize = 0;
        while j < n
            invariant
                j <= n,
                n == crates@.len(),
                ranks@.len() == n,
                found@ == held,
                forall|k: int| 0 <= k < held.len() ==> (#[trigger] held[k]) < n,
                best is Some ==> best->0 < j && ranks@[best->0 as int] < RANK_NONE && (held.len()
                    > 0 ==> precedes(ranks@, crates@, held.last() as int, best->0 as int)),
                forall|m: int|
                    0 <= m < j && #[trigger] ranks@[m] < RANK_NONE && (held.len() > 0 ==> precedes(
                        ranks@,
                        crates@,
                        held.last() as int,
                        m,
                    )) ==> best is Some && (best->0 == m || precedes(
                        ranks@,
                        crates@,
                        best->0 as int,
                        m,
                    )),
            decreases n - j,
        {
            let after_last = found.len() == 0 || is_before(&ranks, crates, found[found.len() - 1], j);
            if ranks[j] < RANK_NONE && after_last {
                let better = match best {
                    None => true,
                    Some(b) => is_before(&ranks, crates, j, b),
                };
                if better {
                    best = Some(j);
                }
            }
            j += 1;
        }
        match best {
            None => {
                assert forall|m: int|
                    0 <= m < n && #[trigger] ranks@[m] < RANK_NONE implies found@.contains(
                    m as usize,
                ) by {
                    if !found@.contains(m as usize) {
                        assert(held.len() > 0 ==> precedes(ranks@, crates@, held.last() as int, m));
                    }
                }
                return found;
            },
            Some(b) => {
                found.push(b);
                assert forall|m: int|
                    0 <= m < n && #[trigger] ranks@[m] < RANK_NONE && !found@.contains(
                        m as usize,
                    ) implies precedes(ranks@, crates@, b as int, m) by {
                    vstd::seq_lib::lemma_seq_contains_after_push(held, b, m as usize);
                    assert(!held.contains(m as usize));
                    assert(m != b);
                }
                assert forall|k: int, l: int| 0 <= k < l < found@.len() implies precedes(
                    ranks@,
                    crates@,
                    found@[k] as int,
                    found@[l] as int,
                ) by {
                    if l == held.len() && k < held.len() - 1 {
                        assert(precedes(ranks@, crates@, held[k] as int, held.last() as int));
                    }
                }
            },
        }
    }
    assert forall|m: int|
        0 <= m < n && #[trigger] ranks@[m] < RANK_NONE && !found@.contains(m as usize) implies (
    forall|k: int|
        0 <= k < found@.len() ==> precedes(ranks@, crates@, #[trigger] found@[k] as int, m)) by {
        assert forall|k: int| 0 <= k < found@.len() implies precedes(
            ranks@,
            crates@,
            #[trigger] found@[k] as int,
            m,
        ) by {
            if k < found@.len() - 1 {
                assert(precedes(ranks@, crates@, found@[k] as int, found@.last() as int));
            }
        }
    }
    found
}

} // verus!
