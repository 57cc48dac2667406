//! Bus routing: following a bus's output chain.
//!
//! A bus that feeds back into itself would make the mix unrenderable, every bus
//! waiting on itself, so validation rejects it.

use vstd::prelude::*;

use crate::model::{MixerBus, Project};

verus! {

/// The output of the first bus in `buses[i..]` whose id is `x`; `None` when
/// no such bus exists or it has no output.
pub open spec fn route_next_from(buses: Seq<MixerBus>, x: u128, i: int) -> Option<u128>
    decreases buses.len() - i,
{
    if i < 0 || i >= buses.len() {
        None
    } else if buses[i].id.0 == x {
        match buses[i].output_bus_id {
            Some(o) => Some(o.0),
            None => None,
        }
    } else {
        route_next_from(buses, x, i + 1)
    }
}

/// Where the bus with id `x` sends its output: the first bus with that id
/// decides.
pub open spec fn route_next(buses: Seq<MixerBus>, x: u128) -> Option<u128> {
    route_next_from(buses, x, 0)
}

/// The bus reached after following `k` outputs from `start`.
pub open spec fn route_chain(buses: Seq<MixerBus>, start: u128, k: nat) -> Option<u128>
    decreases k,
{
    if k == 0 {
        Some(start)
    } else {
        match route_chain(buses, start, (k - 1) as nat) {
            Some(y) => route_next(buses, y),
            None => None,
        }
    }
}

/// Following outputs from `start` comes back to `start`.
pub open spec fn routes_back(buses: Seq<MixerBus>, start: u128) -> bool {
    exists|k: nat| k >= 1 && #[trigger] route_chain(buses, start, k) == Some(start)
}

/// Every bus's output id, with 0 standing in for "no output".
pub open spec fn outputs(buses: Seq<MixerBus>) -> Seq<u128> {
    buses.map_values(
        |b: MixerBus|
            match b.output_bus_id {
                Some(o) => o.0,
                None => 0,
            },
    )
}

proof fn lemma_route_next_from_is_an_output(buses: Seq<MixerBus>, x: u128, i: int, v: u128)
    requires
        route_next_from(buses, x, i) == Some(v),
    ensures
        outputs(buses).contains(v),
    decreases buses.len() - i,
{
    if i < 0 || i >= buses.len() {
    } else if buses[i].id.0 == x {
        assert(outputs(buses)[i] == v);
    } else {
        lemma_route_next_from_is_an_output(buses, x, i + 1, v);
    }
}

/// Once a route has ended, following it further finds nothing either.
pub proof fn lemma_chain_none_stays(buses: Seq<MixerBus>, start: u128, a: nat, k: nat)
    requires
        route_chain(buses, start, a) is None,
        a <= k,
    ensures
        route_chain(buses, start, k) is None,
    decreases k - a,
{
    if k > a {
        lemma_chain_none_stays(buses, start, a, (k - 1) as nat);
    }
}

proof fn lemma_chain_shift(buses: Seq<MixerBus>, start: u128, a: nat, b: nat, j: nat)
    requires
        route_chain(buses, start, a) == route_chain(buses, start, b),
    ensures
        route_chain(buses, start, a + j) == route_chain(buses, start, b + j),
    decreases j,
{
    if j > 0 {
        lemma_chain_shift(buses, start, a, b, (j - 1) as nat);
        assert(route_chain(buses, start, a + j) == match route_chain(
            buses,
            start,
            (a + j - 1) as nat,
        ) {
            Some(y) => route_next(buses, y),
            None => None,
        });
        assert(route_chain(buses, start, b + j) == match route_chain(
            buses,
            start,
            (b + j - 1) as nat,
        ) {
            Some(y) => route_next(buses, y),
            None => None,
        });
        assert((a + j - 1) as nat == a + (j - 1) as nat);
        assert((b + j - 1) as nat == b + (j - 1) as nat);
    }
}

/// Once the chain repeats at `a < b` (both at most `n + 1`, `b == n + 1`),
/// every later step is one of the first `n` steps.
proof fn lemma_chain_cycles(
    buses: Seq<MixerBus>,
    start: u128,
    visited: Seq<u128>,
    a: nat,
    k: nat,
)
    requires
        1 <= a <= visited.len(),
        forall|m: int| 0 <= m < visited.len() ==> route_chain(buses, start, (m + 1) as nat)
            == Some(#[trigger] visited[m]),
        route_chain(buses, start, a) == route_chain(buses, start, (visited.len() + 1) as nat),
        k >= 1,
    ensures
        exists|m: int| 0 <= m < visited.len() && route_chain(buses, start, k) == Some(
            #[trigger] visited[m],
        ),
    decreases k,
{
    let n = visited.len();
    if k <= n {
        assert(route_chain(buses, start, ((k - 1) + 1) as nat) == Some(visited[k - 1]));
    } else {
        let d = (n + 1 - a) as nat;
        let smaller = (k - d) as nat;
        assert(smaller >= a);
        lemma_chain_shift(buses, start, a, (n + 1) as nat, (smaller - a) as nat);
        assert(a + (smaller - a) as nat == smaller);
        assert((n + 1) as nat + (smaller - a) as nat == k);
        lemma_chain_cycles(buses, start, visited, a, smaller);
    }
}

/// The index of `x` in `ids`, if it occurs.
fn position_of(ids: &Vec<u128>, x: u128) -> (found: Option<usize>)
    ensures
        found matches Some(i) ==> i < ids@.len() && ids@[i as int] == x,
        found is None ==> !ids@.contains(x),
{
    let mut i: usize = 0;
    while i < ids.len()
        invariant
            i <= ids.len(),
            forall|j: int| 0 <= j < i ==> ids@[j] != x,
        decreases ids.len() - i,
    {
        if ids[i] == x {
            return Some(i);
        }
        i = i + 1;
    }
    None
}

/// The output of the first bus whose id is `x`.
fn route_step(buses: &Vec<MixerBus>, x: u128) -> (next: Option<u128>)
    ensures
        next == route_next(buses@, x),
{
    let mut i: usize = 0;
    while i < buses.len()
        invariant
            i <= buses.len(),
            route_next_from(buses@, x, 0) == route_next_from(buses@, x, i as int),
        decreases buses.len() - i,
    {
        if buses[i].id.0 == x {
            return match buses[i].output_bus_id {
                Some(o) => Some(o.0),
                None => None,
            };
        }
        i = i + 1;
    }
    None
}

impl Project {
    /// Follows a bus's output chain looking for the bus it started from.
    ///
    /// A loop that does not pass through `start` is not reported here: the
    /// buses on it report it themselves.
    pub fn bus_route_loops(&self, start: crate::model::BusId) -> (loops: bool)
        ensures
            loops == routes_back(self.buses@, start.0),
    {
        let ghost buses = self.buses@;
        let ghost s = start.0;
        let mut visited: Vec<u128> = Vec::new();
        let mut current = start.0;
        loop
            invariant
                buses == self.buses@,
                s == start.0,
                route_chain(buses, s, visited@.len()) == Some(current),
                forall|m: int| 0 <= m < visited@.len() ==> route_chain(buses, s, (m + 1) as nat)
                    == Some(#[trigger] visited@[m]),
                forall|m: int| 0 <= m < visited@.len() ==> #[trigger] visited@[m] != s,
                forall|m: int|
                    0 <= m < visited@.len() ==> outputs(buses).contains(#[trigger] visited@[m]),
                visited@.no_duplicates(),
                visited@.len() <= buses.len(),
            decreases buses.len() - visited@.len(),
        {
            let ghost n = visited@.len();
            let step = route_step(&self.buses, current);
            assert(route_chain(buses, s, (n + 1) as nat) == step);
            match step {
                None => {
                    proof {
                        assert forall|k: nat| k >= 1 implies #[trigger] route_chain(buses, s, k)
                            != Some(s) by {
                            if k <= n {
                                assert(route_chain(buses, s, ((k - 1) + 1) as nat) == Some(
                                    visited@[k - 1],
                                ));
                            } else {
                                lemma_chain_none_stays(buses, s, (n + 1) as nat, k);
                            }
                        }
                    }
                    return false;
                },
                Some(next) => {
                    if next == start.0 {
                        assert(route_chain(buses, s, (n + 1) as nat) == Some(s));
                        return true;
                    }
                    let found = position_of(&visited, next);
                    if let Some(i) = found {
                        proof {
                            let a = (i + 1) as nat;
                            assert(route_chain(buses, s, ((i as int) + 1) as nat) == Some(
                                visited@[i as int],
                            ));
                            assert forall|k: nat| k >= 1 implies #[trigger] route_chain(
                                buses,
                                s,
                                k,
                            ) != Some(s) by {
                                lemma_chain_cycles(buses, s, visited@, a, k);
                            }
                        }
                        return false;
                    }
                    proof {
                        lemma_route_next_from_is_an_output(buses, current, 0, next);
                    }
                    let ghost old_visited = visited@;
                    visited.push(next);
                    current = next;
                    proof {
                        assert(visited@ == old_visited.push(next));
                        assert forall|m: int| 0 <= m < visited@.len() implies route_chain(
                            buses,
                            s,
                            (m + 1) as nat,
                        ) == Some(#[trigger] visited@[m]) by {
                            if m < n {
                                assert(visited@[m] == old_visited[m]);
                            }
                        }
                        assert forall|m: int|
                            0 <= m < visited@.len() implies outputs(buses).contains(
                            #[trigger] visited@[m],
                        ) by {
                            if m < n {
                                assert(visited@[m] == old_visited[m]);
                            }
                        }
                        assert(visited@.no_duplicates()) by {
                            assert forall|p: int, q: int|
                                0 <= p < visited@.len() && 0 <= q < visited@.len() && p
                                    != q implies visited@[p] != visited@[q] by {
                                if p < n && q < n {
                                    assert(visited@[p] == old_visited[p]);
                                    assert(visited@[q] == old_visited[q]);
                                } else if p < n {
                                    assert(visited@[p] == old_visited[p]);
                                } else if q < n {
                                    assert(visited@[q] == old_visited[q]);
                                }
                            }
                        }
                        let out = outputs(buses);
                        assert(visited@.to_set().subset_of(out.to_set())) by {
                            assert forall|v: u128| visited@.to_set().contains(v) implies out.to_set().contains(
                                v,
                            ) by {
                                let m = choose|m: int| 0 <= m < visited@.len() && visited@[m] == v;
                                assert(out.contains(visited@[m]));
                            }
                        }
                        visited@.unique_seq_to_set();
                        out.lemma_cardinality_of_set();
                        vstd::set_lib::lemma_len_subset(visited@.to_set(), out.to_set());
                    }
                },
            }
        }
    }
}

} // verus!
