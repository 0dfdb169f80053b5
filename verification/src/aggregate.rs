//! The aggregator: folds the per-address probe results, collected in whatever
//! order the concurrent probes completed, into the final counts and the list
//! of addresses classified valid. A per-address transport failure counts
//! toward the total processed but never toward the valid list.

use vstd::prelude::*;
use vstd::multiset::Multiset;
use vstd::seq_lib::group_to_multiset_ensures;
use crate::classify::Outcome;

verus! {

/// A transport failure of one probing unit. It aborts nothing outside its own
/// unit; the aggregate merely leaves the address out of the valid list.
#[derive(Debug, Clone, PartialEq, Eq)]
pub struct ProbeError {
    pub message: String,
}

/// The terminal fold of all outcomes: how many addresses were processed, how
/// many were valid, and the valid addresses in completion order.
#[derive(Debug)]
pub struct Aggregate {
    pub total: usize,
    pub valid: usize,
    pub valid_list: Vec<String>,
}

/// True for a probe result that contributes an address to the valid list.
pub open spec fn is_valid_result(r: Result<Outcome, ProbeError>) -> bool {
    match r {
        Ok(Outcome::Valid(_)) => true,
        _ => false,
    }
}

/// `is_valid_result` as a value, so that two uses denote one function.
pub open spec fn valid_pred() -> spec_fn(Result<Outcome, ProbeError>) -> bool {
    |r: Result<Outcome, ProbeError>| is_valid_result(r)
}

/// The addresses of the valid results of `rs`, in the order of `rs`.
pub open spec fn spec_valid_list(rs: Seq<Result<Outcome, ProbeError>>) -> Seq<Seq<char>>
    decreases rs.len(),
{
    if rs.len() == 0 {
        Seq::empty()
    } else {
        spec_valid_list(rs.drop_last()) + (match rs.last() {
            Ok(Outcome::Valid(a)) => seq![a@],
            _ => Seq::empty(),
        })
    }
}

/// True when `r` is a valid result carrying exactly the address `x`.
pub open spec fn is_valid_with(r: Result<Outcome, ProbeError>, x: Seq<char>) -> bool {
    match r {
        Ok(Outcome::Valid(a)) => a@ == x,
        _ => false,
    }
}

/// Well-formedness of an aggregate: the valid count is the length of the
/// valid list and never exceeds the total.
pub open spec fn aggregate_wf(a: Aggregate) -> bool {
    a.valid == a.valid_list@.len() && a.valid <= a.total
}

/// Folds all probe results into the aggregate. Single-threaded: concurrency
/// ends before this runs. Failed probes count toward `total` only.
pub fn aggregate(results: &Vec<Result<Outcome, ProbeError>>) -> (a: Aggregate)
    ensures
        a.total == results@.len(),
        a.valid_list.deep_view() == spec_valid_list(results@),
        a.valid == spec_valid_list(results@).len(),
        aggregate_wf(a),
{
    let mut valid_list: Vec<String> = Vec::new();
    let mut idx: usize = 0;
    while idx < results.len()
        invariant
            idx <= results@.len(),
            valid_list.deep_view() == spec_valid_list(results@.take(idx as int)),
        decreases results@.len() - idx,
    {
        let ghost pre = valid_list.deep_view();
        match &results[idx] {
            Ok(Outcome::Valid(a)) => {
                valid_list.push(a.clone());
                assert(valid_list.deep_view() =~= pre.push(a@));
            },
            _ => {},
        }
        proof {
            assert(results@.take(idx + 1).drop_last() =~= results@.take(idx as int));
            assert(results@.take(idx + 1).last() == results@[idx as int]);
            assert(valid_list.deep_view() =~= spec_valid_list(results@.take(idx + 1)));
        }
        idx += 1;
    }
    proof {
        assert(results@.take(results@.len() as int) =~= results@);
        lemma_valid_list_len_le(results@);
    }
    let valid = valid_list.len();
    proof {
        assert(valid_list.deep_view().len() == valid_list@.len());
    }
    Aggregate { total: results.len(), valid, valid_list }
}

/// At most one valid address comes out of each probe result.
pub proof fn lemma_valid_list_len_le(rs: Seq<Result<Outcome, ProbeError>>)
    ensures
        spec_valid_list(rs).len() <= rs.len(),
    decreases rs.len(),
{
    if rs.len() > 0 {
        lemma_valid_list_len_le(rs.drop_last());
    }
}

/// The length of the valid list is a function of the multiset of results
/// alone: it is the size of the valid part of that multiset.
pub proof fn lemma_valid_list_len_multiset(rs: Seq<Result<Outcome, ProbeError>>)
    ensures
        spec_valid_list(rs).len() == rs.to_multiset().filter(valid_pred()).len(),
    decreases rs.len(),
{
    broadcast use group_to_multiset_ensures;
    broadcast use vstd::multiset::group_multiset_axioms;
    broadcast use vstd::multiset::group_multiset_properties;

    if rs.len() == 0 {
        assert(rs.to_multiset().filter(valid_pred()) =~= Multiset::<Result<Outcome,
            ProbeError>>::empty()) by {
            assert forall|v: Result<Outcome, ProbeError>|
                rs.to_multiset().filter(valid_pred()).count(v) == 0 by {
                assert(rs.to_multiset().count(v) <= rs.to_multiset().len());
            }
        }
    } else {
        let prefix = rs.drop_last();
        let last = rs.last();
        lemma_valid_list_len_multiset(prefix);
        assert(rs =~= prefix.push(last));
        assert(rs.to_multiset() =~= prefix.to_multiset().insert(last));
        if valid_pred()(last) {
            assert(rs.to_multiset().filter(valid_pred()) =~= prefix.to_multiset().filter(
                valid_pred(),
            ).insert(last));
        } else {
            assert(rs.to_multiset().filter(valid_pred()) =~= prefix.to_multiset().filter(
                valid_pred(),
            ));
        }
    }
}

/// An address stands in the valid list exactly when some result of `rs` is a
/// valid outcome carrying it. In particular a result classified `Unknown` or
/// `Invalid`, or a failed probe, never contributes to the valid list.
pub proof fn lemma_valid_list_membership(rs: Seq<Result<Outcome, ProbeError>>, x: Seq<char>)
    ensures
        spec_valid_list(rs).contains(x) <==> exists|i: int|
            0 <= i < rs.len() && is_valid_with(rs[i], x),
    decreases rs.len(),
{
    if rs.len() == 0 {
    } else {
        let prefix = rs.drop_last();
        lemma_valid_list_membership(prefix, x);
        if exists|i: int| 0 <= i < rs.len() && is_valid_with(rs[i], x) {
            let i = choose|i: int| 0 <= i < rs.len() && is_valid_with(rs[i], x);
            if i < rs.len() - 1 {
                assert(is_valid_with(prefix[i], x));
                assert(spec_valid_list(prefix).contains(x));
                let j = choose|j: int|
                    0 <= j < spec_valid_list(prefix).len() && spec_valid_list(prefix)[j] == x;
                assert(spec_valid_list(rs)[j] == x);
            } else {
                assert(is_valid_with(rs.last(), x));
                assert(spec_valid_list(rs).last() == x);
            }
            assert(spec_valid_list(rs).contains(x));
        }
        if spec_valid_list(rs).contains(x) {
            let j = choose|j: int|
                0 <= j < spec_valid_list(rs).len() && spec_valid_list(rs)[j] == x;
            if j < spec_valid_list(prefix).len() {
                assert(spec_valid_list(prefix)[j] == x);
                assert(spec_valid_list(prefix).contains(x));
                let i = choose|i: int| 0 <= i < prefix.len() && is_valid_with(prefix[i], x);
                assert(is_valid_with(rs[i], x));
            } else {
                assert(is_valid_with(rs.last(), x));
                assert(is_valid_with(rs[rs.len() - 1], x));
            }
        }
    }
}

/// The aggregate is order-independent: two result sequences that are
/// permutations of one another yield the same total, the same valid count,
/// and the same set of valid addresses.
pub proof fn lemma_aggregate_order_independent(
    r1: Seq<Result<Outcome, ProbeError>>,
    r2: Seq<Result<Outcome, ProbeError>>,
)
    requires
        r1.to_multiset() == r2.to_multiset(),
    ensures
        r1.len() == r2.len(),
        spec_valid_list(r1).len() == spec_valid_list(r2).len(),
        spec_valid_list(r1).to_set() == spec_valid_list(r2).to_set(),
{
    broadcast use group_to_multiset_ensures;

    assert(r1.to_multiset().len() == r1.len());
    assert(r2.to_multiset().len() == r2.len());
    lemma_valid_list_len_multiset(r1);
    lemma_valid_list_len_multiset(r2);
    assert forall|x: Seq<char>|
        spec_valid_list(r1).contains(x) == spec_valid_list(r2).contains(x) by {
        lemma_valid_list_membership(r1, x);
        lemma_valid_list_membership(r2, x);
        if exists|i: int| 0 <= i < r1.len() && is_valid_with(r1[i], x) {
            let i = choose|i: int| 0 <= i < r1.len() && is_valid_with(r1[i], x);
            assert(r1.contains(r1[i]));
            assert(r2.to_multiset().count(r1[i]) > 0);
            assert(r2.contains(r1[i]));
            let j = choose|j: int| 0 <= j < r2.len() && r2[j] == r1[i];
            assert(is_valid_with(r2[j], x));
        }
        if exists|i: int| 0 <= i < r2.len() && is_valid_with(r2[i], x) {
            let i = choose|i: int| 0 <= i < r2.len() && is_valid_with(r2[i], x);
            assert(r2.contains(r2[i]));
            assert(r1.to_multiset().count(r2[i]) > 0);
            assert(r1.contains(r2[i]));
            let j = choose|j: int| 0 <= j < r1.len() && r1[j] == r2[i];
            assert(is_valid_with(r1[j], x));
        }
    }
    assert(spec_valid_list(r1).to_set() =~= spec_valid_list(r2).to_set());
}

} // verus!
