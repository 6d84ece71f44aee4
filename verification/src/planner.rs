//! Turns permits into a plan whose operations come in an order that works.
use std::collections::HashSet;
use vstd::prelude::*;

use crate::domain::candidate::Candidate;
use crate::domain::decision::PolicyPermit;
use crate::domain::plan::{OperationType, PlannedOperation, PlannedPlan};
use crate::domain::types::{
    ByteCount, CatalogGeneration, ConfigGeneration, JobId, OperationId, PlanId, UnixTimestamp,
};
use crate::error::CleanerError;
use crate::sorting;
use crate::sorting::SortKey;
use crate::text;

verus! {

/// The largest number of operations in a plan.
pub const DEFAULT_MAX_OPERATIONS_PER_PLAN: usize = 10_000;

/// How deep a path lies: the number of pieces between its slashes.
pub open spec fn depth(path: Seq<char>) -> nat {
    text::split_on(path, '/').len()
}

fn depth_of(path: &str) -> (r: usize)
    ensures
        r == depth(path@),
{
    let pieces = text::split_text(path, '/');
    assert(text::texts(pieces@).len() == pieces.len());
    pieces.len()
}

/// A place, given by its target and its path, comes before another: by target, the
/// deepest path of a target first, paths of one depth by their characters.
pub open spec fn place_before(
    target: Seq<char>,
    path: Seq<char>,
    other_target: Seq<char>,
    other_path: Seq<char>,
) -> bool {
    ||| text::text_before(target, other_target)
    ||| target == other_target && (depth(path) > depth(other_path) || (depth(path) == depth(
        other_path,
    ) && text::text_before(path, other_path)))
}

impl SortKey for Candidate {
    /// By the places at which they stand.
    open spec fn before(&self, other: &Candidate) -> bool {
        place_before(
            self.target_id@,
            self.rel_path@,
            other.target_id@,
            other.rel_path@,
        )
    }

    proof fn lemma_asymmetric(a: &Candidate, b: &Candidate) {
        text::lemma_text_before_total(a.target_id@, b.target_id@);
        text::lemma_text_before_total(a.rel_path@, b.rel_path@);
    }

    proof fn lemma_split(a: &Candidate, b: &Candidate, c: &Candidate) {
        text::lemma_text_before_total(a.target_id@, b.target_id@);
        text::lemma_text_before_total(b.target_id@, c.target_id@);
        if text::text_before(a.target_id@, c.target_id@) {
            text::lemma_text_before_split(a.target_id@, b.target_id@, c.target_id@);
        }
        if text::text_before(a.rel_path@, c.rel_path@) {
            text::lemma_text_before_split(a.rel_path@, b.rel_path@, c.rel_path@);
        }
    }

    fn is_before(&self, other: &Candidate) -> (r: bool) {
        let a = text::chars_of(self.target_id.0.as_str());
        let b = text::chars_of(other.target_id.0.as_str());
        if text::chars_before(&a, &b) {
            return true;
        }
        if !text::same_chars(&a, &b) {
            return false;
        }
        let da: usize = depth_of(self.rel_path.as_str());
        let db: usize = depth_of(other.rel_path.as_str());
        da > db || (da == db && text::chars_before(
            &text::chars_of(self.rel_path.as_str()),
            &text::chars_of(other.rel_path.as_str()),
        ))
    }
}

/// The candidates of the permits, either the directories or everything else.
pub open spec fn permitted(permits: Seq<PolicyPermit>, dirs: bool) -> Seq<Candidate>
    decreases permits.len(),
{
    if permits.len() == 0 {
        Seq::empty()
    } else {
        let done = permitted(permits.drop_last(), dirs);
        let last = permits.last().candidate.candidate;
        if last.is_dir == dirs {
            done.push(last)
        } else {
            done
        }
    }
}

/// `to` is `from` in stable sorted order.
pub open spec fn is_sorted_form(from: Seq<Candidate>, to: Seq<Candidate>) -> bool {
    exists|order: Seq<usize>| #[trigger] is_arranged(from, to, order)
}

/// `to` is `from` arranged by `order`, a stable sorted order.
pub open spec fn is_arranged(from: Seq<Candidate>, to: Seq<Candidate>, order: Seq<usize>) -> bool {
    &&& sorting::is_stable_order(from, order)
    &&& to.len() == order.len()
    &&& forall|i: int| 0 <= i < to.len() ==> #[trigger] to[i] == from[order[i] as int]
}

/// Two candidates stand at the same place.
pub open spec fn same_place(a: Candidate, b: Candidate) -> bool {
    a.target_id@ == b.target_id@ && a.rel_path@ == b.rel_path@
}

/// The operation on `items[k]` waits for the one on `items[j]`: that item comes
/// earlier and lies inside, and no item between the two stands at its place.
pub open spec fn waits_for(items: Seq<Candidate>, k: int, j: int) -> bool {
    &&& 0 <= j < k
    &&& items[j].target_id@ == items[k].target_id@
    &&& text::has_prefix(items[j].rel_path@, items[k].rel_path@.push('/'))
    &&& forall|i: int| j < i < k ==> !same_place(items[j], #[trigger] items[i])
}

/// The operations among the first `n` that the one on `items[k]` waits for, in
/// rising order. Operations are numbered from one.
pub open spec fn waits(items: Seq<Candidate>, k: int, n: int) -> Seq<OperationId>
    decreases n,
{
    if n <= 0 {
        Seq::empty()
    } else {
        let done = waits(items, k, n - 1);
        if waits_for(items, k, n - 1) {
            done.push(OperationId(n as u64))
        } else {
            done
        }
    }
}

/// What is done to the `k`-th item.
pub open spec fn action_on(item: Candidate) -> OperationType {
    if item.is_dir {
        OperationType::DeleteDirEmpty {
            target_id: item.target_id,
            rel_path: item.rel_path,
            expected_identity: item.identity,
        }
    } else {
        OperationType::DeleteFile {
            target_id: item.target_id,
            rel_path: item.rel_path,
            expected_identity: item.identity,
            estimated_size: item.size_bytes,
        }
    }
}

/// `op` is the operation on the `k`-th item: files wait for nothing, directories
/// for what lies inside them.
pub open spec fn is_op_on(op: PlannedOperation, items: Seq<Candidate>, k: int) -> bool {
    &&& op.op_id.0 == k + 1
    &&& op.op_type == action_on(items[k])
    &&& op.dependencies@ == if items[k].is_dir {
        waits(items, k, k)
    } else {
        Seq::empty()
    }
    &&& op.estimated_reclaim.0 == if items[k].is_dir {
        0
    } else {
        items[k].size_bytes.0
    }
}

/// The size of all items together.
pub open spec fn total_size(items: Seq<Candidate>) -> int
    decreases items.len(),
{
    if items.len() == 0 {
        0
    } else {
        total_size(items.drop_last()) + items.last().size_bytes.0
    }
}

/// `n`, or the largest number of 64 bits where `n` is larger.
pub open spec fn capped(n: int) -> int {
    if n <= u64::MAX {
        n
    } else {
        u64::MAX as int
    }
}

/// The plan holds one operation per permit: first the files, then the directories,
/// each in sorted order.
pub open spec fn is_plan_for(plan: PlannedPlan, permits: Seq<PolicyPermit>) -> bool {
    exists|files: Seq<Candidate>, dirs: Seq<Candidate>| #[trigger]
        is_plan_of(plan, permits, files, dirs)
}

/// The plan deals with `files`, then with `dirs`, the sorted candidates of the
/// permits.
pub open spec fn is_plan_of(
    plan: PlannedPlan,
    permits: Seq<PolicyPermit>,
    files: Seq<Candidate>,
    dirs: Seq<Candidate>,
) -> bool {
    &&& is_sorted_form(permitted(permits, false), files)
    &&& is_sorted_form(permitted(permits, true), dirs)
    &&& plan.operations@.len() == files.len() + dirs.len()
    &&& forall|k: int|
        0 <= k < plan.operations@.len() ==> is_op_on(
            #[trigger] plan.operations@[k],
            files + dirs,
            k,
        )
    &&& plan.total_estimated_reclaim.0 == capped(total_size(files))
}

/// What can be wrong with a plan.
pub enum Fault {
    /// An operation number occurs twice.
    Duplicate(OperationId),
    /// An operation waits for one that does not come before it.
    Dependency(OperationId, OperationId),
}

impl Fault {
    /// The text shown for it.
    pub open spec fn shown(self) -> Seq<char> {
        match self {
            Fault::Duplicate(op) => "Duplicate OperationId "@ + op.shown() + " detected in plan"@,
            Fault::Dependency(op, dep) => "Invalid DAG dependency: Operation "@ + op.shown()
                + " depends on unfulfilled or succeeding operation "@ + dep.shown(),
        }
    }
}

/// One of the first `n` operations has the number `id`.
pub open spec fn is_defined(ops: Seq<PlannedOperation>, n: int, id: OperationId) -> bool {
    exists|j: int| 0 <= j < n && (#[trigger] ops[j]).op_id == id
}

/// The first of the first `m` dependencies of operation `n` that is not defined
/// before it.
pub open spec fn first_undefined(ops: Seq<PlannedOperation>, n: int, m: int) -> Option<OperationId>
    decreases m,
{
    if m <= 0 {
        None
    } else {
        let earlier = first_undefined(ops, n, m - 1);
        let dep = ops[n].dependencies@[m - 1];
        if earlier is Some {
            earlier
        } else if is_defined(ops, n, dep) {
            None
        } else {
            Some(dep)
        }
    }
}

/// What is wrong with operation `n`, given what comes before it.
pub open spec fn fault_at(ops: Seq<PlannedOperation>, n: int) -> Option<Fault> {
    if is_defined(ops, n, ops[n].op_id) {
        Some(Fault::Duplicate(ops[n].op_id))
    } else {
        match first_undefined(ops, n, ops[n].dependencies@.len() as int) {
            Some(dep) => Some(Fault::Dependency(ops[n].op_id, dep)),
            None => None,
        }
    }
}

/// The first fault among the first `n` operations.
pub open spec fn first_fault(ops: Seq<PlannedOperation>, n: int) -> Option<Fault>
    decreases n,
{
    if n <= 0 {
        None
    } else if first_fault(ops, n - 1) is Some {
        first_fault(ops, n - 1)
    } else {
        fault_at(ops, n - 1)
    }
}

fn fault_duplicate(op: OperationId) -> (r: CleanerError)
    ensures
        r matches CleanerError::PlanValidationFailed(m) && m@ == Fault::Duplicate(op).shown(),
{
    let mut m = "Duplicate OperationId ".to_owned();
    m.append(op.to_text().as_str());
    m.append(" detected in plan");
    CleanerError::PlanValidationFailed(m)
}

fn fault_dependency(op: OperationId, dep: OperationId) -> (r: CleanerError)
    ensures
        r matches CleanerError::PlanValidationFailed(m) && m@ == Fault::Dependency(op, dep).shown(),
{
    let mut m = "Invalid DAG dependency: Operation ".to_owned();
    m.append(op.to_text().as_str());
    m.append(" depends on unfulfilled or succeeding operation ");
    m.append(dep.to_text().as_str());
    CleanerError::PlanValidationFailed(m)
}

fn select_candidates(permits: &Vec<PolicyPermit>, dirs: bool) -> (r: Vec<Candidate>)
    ensures
        r@ == permitted(permits@, dirs),
        r.len() <= permits.len(),
        forall|i: int| 0 <= i < r.len() ==> (#[trigger] r@[i]).is_dir == dirs,
{
    let mut r: Vec<Candidate> = Vec::new();
    let mut i: usize = 0;
    assert(permits@.subrange(0, 0) =~= Seq::<PolicyPermit>::empty());
    while i < permits.len()
        invariant
            i <= permits.len(),
            r.len() <= i,
            r@ == permitted(permits@.subrange(0, i as int), dirs),
            forall|j: int| 0 <= j < r.len() ==> (#[trigger] r@[j]).is_dir == dirs,
        decreases permits.len() - i,
    {
        assert(permits@.subrange(0, i + 1).drop_last() =~= permits@.subrange(0, i as int));
        let item = &permits[i].candidate.candidate;
        if item.is_dir == dirs {
            r.push(item.copy());
        }
        i = i + 1;
    }
    assert(permits@.subrange(0, permits.len() as int) =~= permits@);
    r
}

fn sort_candidates(from: &Vec<Candidate>) -> (to: Vec<Candidate>)
    ensures
        is_sorted_form(from@, to@),
        to.len() == from.len(),
{
    let order = sorting::stable_order(from);
    let mut to: Vec<Candidate> = Vec::new();
    let mut i: usize = 0;
    while i < order.len()
        invariant
            i <= order.len(),
            sorting::is_stable_order(from@, order@),
            to.len() == i,
            forall|j: int| 0 <= j < i ==> #[trigger] to@[j] == from@[order@[j] as int],
        decreases order.len() - i,
    {
        to.push(from[order[i]].copy());
        i = i + 1;
    }
    assert(is_arranged(from@, to@, order@));
    to
}

proof fn lemma_sorted_kind(from: Seq<Candidate>, to: Seq<Candidate>, dirs: bool)
    requires
        is_sorted_form(from, to),
        forall|i: int| 0 <= i < from.len() ==> (#[trigger] from[i]).is_dir == dirs,
    ensures
        forall|i: int| 0 <= i < to.len() ==> (#[trigger] to[i]).is_dir == dirs,
{
    let order = choose|order: Seq<usize>| is_arranged(from, to, order);
    assert forall|i: int| 0 <= i < to.len() implies (#[trigger] to[i]).is_dir == dirs by {
        assert(to[i] == from[order[i] as int]);
    }
}

/// The characters of an item's target and path.
struct Place {
    target: Vec<char>,
    path: Vec<char>,
}

spec fn are_places(places: Seq<Place>, items: Seq<Candidate>) -> bool {
    &&& places.len() == items.len()
    &&& forall|i: int|
        0 <= i < items.len() ==> (#[trigger] places[i]).target@ == items[i].target_id@
            && places[i].path@ == items[i].rel_path@
}

fn places_of(items: &Vec<Candidate>) -> (r: Vec<Place>)
    ensures
        are_places(r@, items@),
{
    let mut r: Vec<Place> = Vec::new();
    let mut i: usize = 0;
    while i < items.len()
        invariant
            i <= items.len(),
            r.len() == i,
            forall|j: int|
                0 <= j < i ==> (#[trigger] r@[j]).target@ == items@[j].target_id@ && r@[j].path@
                    == items@[j].rel_path@,
        decreases items.len() - i,
    {
        r.push(
            Place {
                target: text::chars_of(items[i].target_id.0.as_str()),
                path: text::chars_of(items[i].rel_path.as_str()),
            },
        );
        i = i + 1;
    }
    r
}

/// `next` is the first position after `j` at which an item stands at the place of
/// `items[j]`, or the number of items.
spec fn is_next_same(items: Seq<Candidate>, j: int, next: int) -> bool {
    &&& j < next <= items.len()
    &&& forall|i: int| j < i < next ==> !same_place(items[j], #[trigger] items[i])
    &&& next < items.len() ==> same_place(items[j], items[next])
}

fn next_same(Ghost(items): Ghost<Seq<Candidate>>, places: &Vec<Place>, j: usize) -> (r: usize)
    requires
        are_places(places@, items),
        j < places.len(),
    ensures
        is_next_same(items, j as int, r as int),
{
    let mut i: usize = j + 1;
    while i < places.len()
        invariant
            j < i <= places.len(),
            are_places(places@, items),
            forall|k: int| j < k < i ==> !same_place(items[j as int], #[trigger] items[k]),
        decreases places.len() - i,
    {
        if text::same_chars(&places[i].path, &places[j].path) && text::same_chars(
            &places[i].target,
            &places[j].target,
        ) {
            return i;
        }
        i = i + 1;
    }
    i
}

fn all_next_same(Ghost(items): Ghost<Seq<Candidate>>, places: &Vec<Place>) -> (r: Vec<usize>)
    requires
        are_places(places@, items),
    ensures
        r.len() == places.len(),
        forall|j: int| 0 <= j < r.len() ==> is_next_same(items, j, (#[trigger] r@[j]) as int),
{
    let mut r: Vec<usize> = Vec::new();
    while r.len() < places.len()
        invariant
            are_places(places@, items),
            r.len() <= places.len(),
            forall|j: int| 0 <= j < r.len() ==> is_next_same(items, j, (#[trigger] r@[j]) as int),
        decreases places.len() - r.len(),
    {
        let n = next_same(Ghost(items), places, r.len());
        r.push(n);
    }
    r
}

fn path_is_inside(child: &Vec<char>, dir: &Vec<char>) -> (r: bool)
    ensures
        r == text::has_prefix(child@, dir@.push('/')),
{
    if child.len() <= dir.len() {
        return false;
    }
    let ghost lead = child@.subrange(0, dir.len() + 1);
    let mut i: usize = 0;
    while i < dir.len()
        invariant
            i <= dir.len() < child.len(),
            lead == child@.subrange(0, dir.len() + 1),
            forall|j: int| 0 <= j < i ==> child@[j] == dir@[j],
        decreases dir.len() - i,
    {
        if child[i] != dir[i] {
            assert(lead[i as int] != dir@.push('/')[i as int]);
            return false;
        }
        i = i + 1;
    }
    if child[dir.len()] != '/' {
        assert(lead[dir.len() as int] != dir@.push('/')[dir.len() as int]);
        return false;
    }
    assert(lead =~= dir@.push('/'));
    true
}

fn collect_waits(
    Ghost(items): Ghost<Seq<Candidate>>,
    places: &Vec<Place>,
    next: &Vec<usize>,
    k: usize,
) -> (r: Vec<OperationId>)
    requires
        are_places(places@, items),
        k < places.len() <= DEFAULT_MAX_OPERATIONS_PER_PLAN,
        next.len() == places.len(),
        forall|j: int| 0 <= j < next.len() ==> is_next_same(items, j, (#[trigger] next@[j]) as int),
    ensures
        r@ == waits(items, k as int, k as int),
{
    let mut r: Vec<OperationId> = Vec::new();
    let mut j: usize = 0;
    while j < k
        invariant
            j <= k < places.len() <= DEFAULT_MAX_OPERATIONS_PER_PLAN,
            are_places(places@, items),
            next.len() == places.len(),
            forall|i: int|
                0 <= i < next.len() ==> is_next_same(items, i, (#[trigger] next@[i]) as int),
            r@ == waits(items, k as int, j as int),
        decreases k - j,
    {
        let current = next[j] >= k;
        proof {
            assert(is_next_same(items, j as int, next@[j as int] as int));
            assert(current <==> (forall|i: int|
                j < i < k ==> !same_place(items[j as int], #[trigger] items[i])));
        }
        if current && path_is_inside(&places[j].path, &places[k].path) && text::same_chars(
            &places[j].target,
            &places[k].target,
        ) {
            assert(waits_for(items, k as int, j as int));
            r.push(OperationId(j as u64 + 1));
        } else {
            assert(!waits_for(items, k as int, j as int));
        }
        j = j + 1;
    }
    r
}

proof fn lemma_waits_are_earlier(items: Seq<Candidate>, k: int, n: int)
    requires
        0 <= n <= DEFAULT_MAX_OPERATIONS_PER_PLAN,
    ensures
        forall|i: int|
            0 <= i < waits(items, k, n).len() ==> 1 <= (#[trigger] waits(items, k, n)[i]).0 <= n,
    decreases n,
{
    if n > 0 {
        lemma_waits_are_earlier(items, k, n - 1);
        let done = waits(items, k, n - 1);
        assert forall|i: int| 0 <= i < waits(items, k, n).len() implies 1 <= (
        #[trigger] waits(items, k, n)[i]).0 <= n by {
            if i < done.len() {
                assert(waits(items, k, n)[i] == done[i]);
            }
        }
    }
}

proof fn lemma_ops_are_sound(ops: Seq<PlannedOperation>, items: Seq<Candidate>, n: int)
    requires
        0 <= n <= ops.len() == items.len() <= DEFAULT_MAX_OPERATIONS_PER_PLAN,
        forall|k: int| 0 <= k < ops.len() ==> is_op_on(#[trigger] ops[k], items, k),
    ensures
        first_fault(ops, n) is None,
    decreases n,
{
    if n > 0 {
        lemma_ops_are_sound(ops, items, n - 1);
        let k = n - 1;
        assert(is_op_on(ops[k], items, k));
        assert(!is_defined(ops, k, ops[k].op_id)) by {
            assert forall|j: int| 0 <= j < k implies (#[trigger] ops[j]).op_id != ops[k].op_id by {
                assert(is_op_on(ops[j], items, j));
            }
        }
        let deps = ops[k].dependencies@;
        assert forall|i: int| 0 <= i < deps.len() implies is_defined(ops, k, #[trigger] deps[i]) by {
            lemma_waits_are_earlier(items, k, k);
            let j = deps[i].0 - 1;
            assert(is_op_on(ops[j], items, j));
            assert(ops[j].op_id == deps[i]);
        }
        lemma_all_defined(ops, k, deps.len() as int);
    }
}

proof fn lemma_all_defined(ops: Seq<PlannedOperation>, n: int, m: int)
    requires
        0 <= m <= ops[n].dependencies@.len(),
        forall|i: int|
            0 <= i < ops[n].dependencies@.len() ==> is_defined(
                ops,
                n,
                #[trigger] ops[n].dependencies@[i],
            ),
    ensures
        first_undefined(ops, n, m) is None,
    decreases m,
{
    if m > 0 {
        lemma_all_defined(ops, n, m - 1);
        assert(is_defined(ops, n, ops[n].dependencies@[m - 1]));
    }
}

fn plan_operations(items: &Vec<Candidate>) -> (ops: Vec<PlannedOperation>)
    requires
        items.len() <= DEFAULT_MAX_OPERATIONS_PER_PLAN,
    ensures
        ops.len() == items.len(),
        forall|k: int| 0 <= k < ops.len() ==> is_op_on(#[trigger] ops@[k], items@, k),
{
    let places = places_of(items);
    let next = all_next_same(Ghost(items@), &places);
    let mut ops: Vec<PlannedOperation> = Vec::new();
    while ops.len() < items.len()
        invariant
            ops.len() <= items.len() <= DEFAULT_MAX_OPERATIONS_PER_PLAN,
            are_places(places@, items@),
            next.len() == places.len(),
            forall|j: int|
                0 <= j < next.len() ==> is_next_same(items@, j, (#[trigger] next@[j]) as int),
            forall|k: int| 0 <= k < ops.len() ==> is_op_on(#[trigger] ops@[k], items@, k),
        decreases items.len() - ops.len(),
    {
        let k: usize = ops.len();
        let item = &items[k];
        let op = if item.is_dir {
            PlannedOperation {
                op_id: OperationId(k as u64 + 1),
                op_type: OperationType::DeleteDirEmpty {
                    target_id: item.target_id.copy(),
                    rel_path: item.rel_path.copy(),
                    expected_identity: item.identity,
                },
                dependencies: collect_waits(Ghost(items@), &places, &next, k),
                estimated_reclaim: ByteCount(0),
            }
        } else {
            PlannedOperation {
                op_id: OperationId(k as u64 + 1),
                op_type: OperationType::DeleteFile {
                    target_id: item.target_id.copy(),
                    rel_path: item.rel_path.copy(),
                    expected_identity: item.identity,
                    estimated_size: item.size_bytes,
                },
                dependencies: Vec::new(),
                estimated_reclaim: item.size_bytes,
            }
        };
        assert(is_op_on(op, items@, k as int));
        ops.push(op);
    }
    ops
}

fn sum_sizes(items: &Vec<Candidate>) -> (r: ByteCount)
    ensures
        r.0 == capped(total_size(items@)),
{
    let mut r = ByteCount(0);
    let mut i: usize = 0;
    assert(items@.subrange(0, 0) =~= Seq::<Candidate>::empty());
    while i < items.len()
        invariant
            i <= items.len(),
            r.0 == capped(total_size(items@.subrange(0, i as int))),
            total_size(items@.subrange(0, i as int)) >= 0,
        decreases items.len() - i,
    {
        assert(items@.subrange(0, i + 1).drop_last() =~= items@.subrange(0, i as int));
        r = r.saturating_add(items[i].size_bytes);
        i = i + 1;
    }
    assert(items@.subrange(0, items.len() as int) =~= items@);
    r
}

fn append_candidates(front: &Vec<Candidate>, back: &Vec<Candidate>) -> (r: Vec<Candidate>)
    ensures
        r@ == front@ + back@,
{
    let mut r: Vec<Candidate> = Vec::new();
    let mut i: usize = 0;
    while i < front.len()
        invariant
            i <= front.len(),
            r@ == front@.subrange(0, i as int),
        decreases front.len() - i,
    {
        r.push(front[i].copy());
        i = i + 1;
        assert(r@ =~= front@.subrange(0, i as int));
    }
    let mut j: usize = 0;
    assert(r@ =~= front@ + back@.subrange(0, 0));
    while j < back.len()
        invariant
            j <= back.len(),
            r@ == front@ + back@.subrange(0, j as int),
        decreases back.len() - j,
    {
        r.push(back[j].copy());
        j = j + 1;
        assert(r@ =~= front@ + back@.subrange(0, j as int));
    }
    assert(r@ =~= front@ + back@);
    r
}

/// Makes plans.
#[derive(Debug)]
pub struct CleanupPlanner;

impl Default for CleanupPlanner {
    fn default() -> (r: Self) {
        CleanupPlanner
    }
}

impl CleanupPlanner {
    pub fn new() -> (r: Self) {
        CleanupPlanner
    }

    /// The number of a plan.
    pub open spec fn plan_number(job_id: JobId, catalog_gen: CatalogGeneration) -> u64 {
        (job_id.0 << 16) ^ (catalog_gen.0 << 8) ^ 1
    }

    /// Plans, as of now, the removal of everything permitted.
    pub fn build_plan(
        &self,
        job_id: JobId,
        catalog_gen: CatalogGeneration,
        config_gen: ConfigGeneration,
        permits: Vec<PolicyPermit>,
    ) -> (r: Result<PlannedPlan, CleanerError>)
        ensures
            r is Ok <==> permits@.len() <= DEFAULT_MAX_OPERATIONS_PER_PLAN,
            r matches Err(e) ==> e == (CleanerError::PlanBudgetExceeded {
                count: permits@.len() as usize,
                limit: DEFAULT_MAX_OPERATIONS_PER_PLAN,
            }),
            r matches Ok(plan) ==> {
                &&& plan.plan_id.0 == CleanupPlanner::plan_number(job_id, catalog_gen)
                &&& plan.job_id == job_id
                &&& plan.catalog_generation == catalog_gen
                &&& plan.config_generation == config_gen
                &&& is_plan_for(plan, permits@)
            },
    {
        if permits.len() > DEFAULT_MAX_OPERATIONS_PER_PLAN {
            return Err(
                CleanerError::PlanBudgetExceeded {
                    count: permits.len(),
                    limit: DEFAULT_MAX_OPERATIONS_PER_PLAN,
                },
            );
        }
        let loose_files = select_candidates(&permits, false);
        let loose_dirs = select_candidates(&permits, true);
        proof {
            lemma_permitted_len(permits@);
        }
        let files = sort_candidates(&loose_files);
        let dirs = sort_candidates(&loose_dirs);
        let items = append_candidates(&files, &dirs);
        let plan = PlannedPlan {
            plan_id: PlanId((job_id.0 << 16) ^ (catalog_gen.0 << 8) ^ 1),
            job_id,
            catalog_generation: catalog_gen,
            config_generation: config_gen,
            operations: plan_operations(&items),
            total_estimated_reclaim: sum_sizes(&files),
            created_at: UnixTimestamp::now(),
        };
        proof {
            assert(is_plan_of(plan, permits@, files@, dirs@));
            lemma_ops_are_sound(plan.operations@, items@, items@.len() as int);
        }
        match self.validate_plan(&plan) {
            Ok(()) => Ok(plan),
            Err(e) => Err(e),
        }
    }

    /// Checks that a plan is within bounds, that no operation number occurs twice
    /// and that every operation waits only for operations that come before it.
    pub fn validate_plan(&self, plan: &PlannedPlan) -> (r: Result<(), CleanerError>)
        ensures
            r is Ok <==> plan.operations@.len() <= DEFAULT_MAX_OPERATIONS_PER_PLAN && first_fault(
                plan.operations@,
                plan.operations@.len() as int,
            ) is None,
            plan.operations@.len() > DEFAULT_MAX_OPERATIONS_PER_PLAN ==> r == Err::<(), _>(
                CleanerError::PlanBudgetExceeded {
                    count: plan.operations@.len() as usize,
                    limit: DEFAULT_MAX_OPERATIONS_PER_PLAN,
                },
            ),
            (plan.operations@.len() <= DEFAULT_MAX_OPERATIONS_PER_PLAN && r is Err) ==> (r->Err_0
                matches CleanerError::PlanValidationFailed(m) && m@ == first_fault(
                plan.operations@,
                plan.operations@.len() as int,
            )->0.shown()),
    {
        broadcast use vstd::std_specs::hash::group_hash_axioms;

        if plan.operations.len() > DEFAULT_MAX_OPERATIONS_PER_PLAN {
            return Err(
                CleanerError::PlanBudgetExceeded {
                    count: plan.operations.len(),
                    limit: DEFAULT_MAX_OPERATIONS_PER_PLAN,
                },
            );
        }
        let ops = &plan.operations;
        let mut seen: HashSet<u64> = HashSet::new();
        let mut n: usize = 0;
        while n < ops.len()
            invariant
                n <= ops.len() <= DEFAULT_MAX_OPERATIONS_PER_PLAN,
                *ops == plan.operations,
                first_fault(ops@, n as int) is None,
                forall|id: u64| seen@.contains(id) <==> is_defined(ops@, n as int, OperationId(id)),
            decreases ops.len() - n,
        {
            broadcast use vstd::std_specs::hash::group_hash_axioms;

            let op = &ops[n];
            let ghost whole = ops@.len() as int;
            if seen.contains(&op.op_id.0) {
                proof {
                    assert(fault_at(ops@, n as int) == Some(Fault::Duplicate(op.op_id)));
                    lemma_fault_stays(ops@, n + 1, whole);
                }
                return Err(fault_duplicate(op.op_id));
            }
            let mut m: usize = 0;
            while m < op.dependencies.len()
                invariant
                    n < ops.len() <= DEFAULT_MAX_OPERATIONS_PER_PLAN,
                    m <= op.dependencies.len(),
                    *op == ops@[n as int],
                    *ops == plan.operations,
                    whole == ops@.len(),
                    first_fault(ops@, n as int) is None,
                    !is_defined(ops@, n as int, op.op_id),
                    first_undefined(ops@, n as int, m as int) is None,
                    forall|id: u64|
                        seen@.contains(id) <==> is_defined(ops@, n as int, OperationId(id)),
                decreases op.dependencies.len() - m,
            {
                broadcast use vstd::std_specs::hash::group_hash_axioms;

                let dep = op.dependencies[m];
                if !seen.contains(&dep.0) {
                    proof {
                        assert(!is_defined(ops@, n as int, dep));
                        lemma_undefined_stays(
                            ops@,
                            n as int,
                            m + 1,
                            op.dependencies@.len() as int,
                        );
                        assert(fault_at(ops@, n as int) == Some(Fault::Dependency(op.op_id, dep)));
                        lemma_fault_stays(ops@, n + 1, whole);
                    }
                    return Err(fault_dependency(op.op_id, dep));
                }
                m = m + 1;
            }
            let ghost before = seen@;
            seen.insert(op.op_id.0);
            proof {
                assert forall|id: u64| seen@.contains(id) <==> is_defined(
                    ops@,
                    n + 1,
                    OperationId(id),
                ) by {
                    if before.contains(id) {
                        let j = choose|j: int| 0 <= j < n && (#[trigger] ops@[j]).op_id
                            == OperationId(id);
                        assert(ops@[j].op_id == OperationId(id));
                    }
                    if id == op.op_id.0 {
                        assert(ops@[n as int].op_id == OperationId(id));
                    }
                    if is_defined(ops@, n + 1, OperationId(id)) {
                        let j = choose|j: int| 0 <= j < n + 1 && (#[trigger] ops@[j]).op_id
                            == OperationId(id);
                        if j < n {
                            assert(is_defined(ops@, n as int, OperationId(id)));
                        }
                    }
                }
            }
            n = n + 1;
        }
        Ok(())
    }
}

proof fn lemma_permitted_len(permits: Seq<PolicyPermit>)
    ensures
        permitted(permits, false).len() + permitted(permits, true).len() == permits.len(),
    decreases permits.len(),
{
    if permits.len() > 0 {
        lemma_permitted_len(permits.drop_last());
    }
}

proof fn lemma_fault_stays(ops: Seq<PlannedOperation>, n: int, m: int)
    requires
        first_fault(ops, n) is Some,
        0 <= n <= m,
    ensures
        first_fault(ops, m) == first_fault(ops, n),
    decreases m - n,
{
    if n < m {
        lemma_fault_stays(ops, n, m - 1);
    }
}

proof fn lemma_undefined_stays(ops: Seq<PlannedOperation>, n: int, a: int, b: int)
    requires
        first_undefined(ops, n, a) is Some,
        0 <= a <= b,
    ensures
        first_undefined(ops, n, b) == first_undefined(ops, n, a),
    decreases b - a,
{
    if a < b {
        lemma_undefined_stays(ops, n, a, b - 1);
    }
}

/// A plan is found sound, and holds one operation per permit.
pub proof fn law_plan_is_sound(plan: PlannedPlan, permits: Seq<PolicyPermit>)
    requires
        is_plan_for(plan, permits),
        permits.len() <= DEFAULT_MAX_OPERATIONS_PER_PLAN,
    ensures
        plan.operations@.len() == permits.len(),
        first_fault(plan.operations@, plan.operations@.len() as int) is None,
{
    let (files, dirs) = choose|files: Seq<Candidate>, dirs: Seq<Candidate>|
        is_plan_of(plan, permits, files, dirs);
    lemma_permitted_len(permits);
    lemma_sorted_len(permitted(permits, false), files);
    lemma_sorted_len(permitted(permits, true), dirs);
    lemma_ops_are_sound(plan.operations@, files + dirs, plan.operations@.len() as int);
}

proof fn lemma_sorted_len(from: Seq<Candidate>, to: Seq<Candidate>)
    requires
        is_sorted_form(from, to),
    ensures
        from.len() == to.len(),
{
    let order = choose|order: Seq<usize>| is_arranged(from, to, order);
}

/// No operation of a plan waits for itself or for a later one.
pub proof fn law_plan_has_no_cycle(
    plan: PlannedPlan,
    permits: Seq<PolicyPermit>,
    k: int,
    i: int,
)
    requires
        is_plan_for(plan, permits),
        permits.len() <= DEFAULT_MAX_OPERATIONS_PER_PLAN,
        0 <= k < plan.operations@.len(),
        0 <= i < plan.operations@[k].dependencies@.len(),
    ensures
        plan.operations@[k].dependencies@[i].0 < plan.operations@[k].op_id.0,
{
    law_plan_is_sound(plan, permits);
    let (files, dirs) = choose|files: Seq<Candidate>, dirs: Seq<Candidate>|
        is_plan_of(plan, permits, files, dirs);
    assert(is_op_on(plan.operations@[k], files + dirs, k));
    lemma_waits_are_earlier(files + dirs, k, k);
}

/// The item lies inside the directory.
pub open spec fn lies_inside(item: Candidate, dir: Candidate) -> bool {
    item.target_id@ == dir.target_id@ && text::has_prefix(item.rel_path@, dir.rel_path@.push('/'))
}

proof fn lemma_inside_is_deeper(item: Candidate, dir: Candidate)
    requires
        lies_inside(item, dir),
    ensures
        depth(item.rel_path@) > depth(dir.rel_path@),
{
    let whole = item.rel_path@;
    let front = dir.rel_path@;
    let rest = whole.subrange(front.len() as int + 1, whole.len() as int);
    assert(whole =~= front.push('/') + rest);
    text::lemma_split_on_join(front, rest, '/');
    text::lemma_split_on_nonempty(rest, '/');
}

proof fn lemma_sorted_pair(from: Seq<Candidate>, to: Seq<Candidate>, i: int, j: int)
    requires
        is_sorted_form(from, to),
        0 <= i < j < to.len(),
    ensures
        !to[j].before(&to[i]),
{
    let order = choose|order: Seq<usize>| is_arranged(from, to, order);
    assert(sorting::precedes(from, order[i] as int, order[j] as int));
    assert(to[i] == from[order[i] as int]);
    assert(to[j] == from[order[j] as int]);
    Candidate::lemma_asymmetric(&to[i], &to[j]);
}

/// What lies inside a directory is dealt with before the directory, and the
/// directory waits for the last operation at its place.
pub proof fn law_contents_come_first(
    plan: PlannedPlan,
    permits: Seq<PolicyPermit>,
    files: Seq<Candidate>,
    dirs: Seq<Candidate>,
    j: int,
    k: int,
)
    requires
        is_plan_of(plan, permits, files, dirs),
        permits.len() <= DEFAULT_MAX_OPERATIONS_PER_PLAN,
        0 <= j < plan.operations@.len(),
        0 <= k < plan.operations@.len(),
        (files + dirs)[k].is_dir,
        lies_inside((files + dirs)[j], (files + dirs)[k]),
    ensures
        j < k,
        (forall|i: int| j < i < k ==> !same_place((files + dirs)[j], #[trigger] (files + dirs)[i]))
            ==> plan.operations@[k].dependencies@.contains(OperationId((j + 1) as u64)),
{
    let items = files + dirs;
    law_plan_is_sound(plan, permits);
    lemma_permitted_kind(permits, false);
    lemma_permitted_kind(permits, true);
    lemma_sorted_kind(permitted(permits, false), files, false);
    lemma_sorted_kind(permitted(permits, true), dirs, true);
    assert(k >= files.len()) by {
        if k < files.len() {
            assert(items[k] == files[k]);
        }
    }
    assert(items[k] == dirs[k - files.len()]);
    lemma_inside_is_deeper(items[j], items[k]);
    if j >= files.len() {
        assert(items[j] == dirs[j - files.len()]);
        if k < j {
            lemma_sorted_pair(permitted(permits, true), dirs, k - files.len(), j - files.len());
        }
    }
    if forall|i: int| j < i < k ==> !same_place(items[j], #[trigger] items[i]) {
        assert(waits_for(items, k, j));
        assert(is_op_on(plan.operations@[k], items, k));
        lemma_wait_is_listed(items, k, j, k);
    }
}

proof fn lemma_permitted_kind(permits: Seq<PolicyPermit>, dirs: bool)
    ensures
        forall|i: int|
            0 <= i < permitted(permits, dirs).len() ==> (#[trigger] permitted(
                permits,
                dirs,
            )[i]).is_dir == dirs,
    decreases permits.len(),
{
    if permits.len() > 0 {
        lemma_permitted_kind(permits.drop_last(), dirs);
        let done = permitted(permits.drop_last(), dirs);
        assert forall|i: int| 0 <= i < permitted(permits, dirs).len() implies (
        #[trigger] permitted(permits, dirs)[i]).is_dir == dirs by {
            if i < done.len() {
                assert(permitted(permits, dirs)[i] == done[i]);
            }
        }
    }
}

proof fn lemma_wait_is_listed(items: Seq<Candidate>, k: int, j: int, n: int)
    requires
        waits_for(items, k, j),
        0 <= j < n,
    ensures
        waits(items, k, n).contains(OperationId((j + 1) as u64)),
    decreases n,
{
    let done = waits(items, k, n - 1);
    if j == n - 1 {
        assert(waits(items, k, n)[done.len() as int] == OperationId((j + 1) as u64));
    } else {
        lemma_wait_is_listed(items, k, j, n - 1);
        let i = choose|i: int| 0 <= i < done.len() && done[i] == OperationId((j + 1) as u64);
        assert(waits(items, k, n)[i] == OperationId((j + 1) as u64));
    }
}

/// Planning is deterministic: two plans for the same permits hold the same
/// operations, each with the same number, action, dependencies and estimate.
pub proof fn law_planning_is_deterministic(
    a: PlannedPlan,
    b: PlannedPlan,
    permits: Seq<PolicyPermit>,
    k: int,
)
    requires
        is_plan_for(a, permits),
        is_plan_for(b, permits),
        0 <= k < a.operations@.len(),
    ensures
        a.operations@.len() == b.operations@.len(),
        a.total_estimated_reclaim == b.total_estimated_reclaim,
        a.operations@[k].op_id == b.operations@[k].op_id,
        a.operations@[k].op_type == b.operations@[k].op_type,
        a.operations@[k].dependencies@ == b.operations@[k].dependencies@,
        a.operations@[k].estimated_reclaim == b.operations@[k].estimated_reclaim,
{
    let (fa, da) = choose|files: Seq<Candidate>, dirs: Seq<Candidate>|
        is_plan_of(a, permits, files, dirs);
    let (fb, db) = choose|files: Seq<Candidate>, dirs: Seq<Candidate>|
        is_plan_of(b, permits, files, dirs);
    lemma_sorted_form_is_unique(permitted(permits, false), fa, fb);
    lemma_sorted_form_is_unique(permitted(permits, true), da, db);
    assert(is_op_on(a.operations@[k], fa + da, k));
    assert(is_op_on(b.operations@[k], fa + da, k));
}

proof fn lemma_sorted_form_is_unique(
    from: Seq<Candidate>,
    a: Seq<Candidate>,
    b: Seq<Candidate>,
)
    requires
        is_sorted_form(from, a),
        is_sorted_form(from, b),
    ensures
        a == b,
{
    let oa = choose|order: Seq<usize>| is_arranged(from, a, order);
    let ob = choose|order: Seq<usize>| is_arranged(from, b, order);
    sorting::law_stable_order_is_unique(from, oa, ob);
    assert(a =~= b);
}

/// No two permits are for the same place.
pub open spec fn places_differ(permits: Seq<PolicyPermit>) -> bool {
    forall|i: int, j: int|
        0 <= i < j < permits.len() ==> !same_place(
            (#[trigger] permits[i]).candidate.candidate,
            (#[trigger] permits[j]).candidate.candidate,
        )
}

/// No two items stand at the same place.
spec fn items_differ(items: Seq<Candidate>) -> bool {
    forall|i: int, j: int|
        0 <= i < j < items.len() ==> !same_place(#[trigger] items[i], #[trigger] items[j])
}

/// Each item comes before all that follow it.
spec fn is_rising(items: Seq<Candidate>) -> bool {
    forall|i: int, j: int|
        #![trigger items[i], items[j]]
        0 <= i < j < items.len() ==> items[i].before(&items[j])
}

/// Some permit is for this candidate.
spec fn permits_hold(permits: Seq<PolicyPermit>, c: Candidate) -> bool {
    exists|i: int| 0 <= i < permits.len() && (#[trigger] permits[i]).candidate.candidate == c
}

proof fn lemma_permitted_holds(permits: Seq<PolicyPermit>, dirs: bool, c: Candidate)
    ensures
        permitted(permits, dirs).contains(c) <==> permits_hold(permits, c) && c.is_dir == dirs,
    decreases permits.len(),
{
    let all = permitted(permits, dirs);
    if permits.len() == 0 {
        assert(all.len() == 0);
    } else {
        let rest = permits.drop_last();
        let last = permits.last().candidate.candidate;
        let done = permitted(rest, dirs);
        lemma_permitted_holds(rest, dirs, c);
        if all.contains(c) {
            let i = choose|i: int| 0 <= i < all.len() && all[i] == c;
            if i < done.len() {
                assert(done[i] == c);
                let k = choose|k: int|
                    0 <= k < rest.len() && (#[trigger] rest[k]).candidate.candidate == c;
                assert(permits[k].candidate.candidate == c);
            } else {
                assert(permits[permits.len() - 1].candidate.candidate == c);
            }
        }
        if permits_hold(permits, c) && c.is_dir == dirs {
            let k = choose|k: int|
                0 <= k < permits.len() && (#[trigger] permits[k]).candidate.candidate == c;
            if k < rest.len() {
                assert(rest[k].candidate.candidate == c);
                let i = choose|i: int| 0 <= i < done.len() && done[i] == c;
                assert(all[i] == c);
            } else {
                assert(last == c);
                assert(all[done.len() as int] == c);
            }
        }
    }
}

proof fn lemma_permitted_differ(permits: Seq<PolicyPermit>, dirs: bool)
    requires
        places_differ(permits),
    ensures
        items_differ(permitted(permits, dirs)),
    decreases permits.len(),
{
    if permits.len() > 0 {
        let rest = permits.drop_last();
        let last = permits.last().candidate.candidate;
        let done = permitted(rest, dirs);
        let all = permitted(permits, dirs);
        assert(places_differ(rest)) by {
            assert forall|i: int, j: int| 0 <= i < j < rest.len() implies !same_place(
                (#[trigger] rest[i]).candidate.candidate,
                (#[trigger] rest[j]).candidate.candidate,
            ) by {
                assert(rest[i] == permits[i] && rest[j] == permits[j]);
            }
        }
        lemma_permitted_differ(rest, dirs);
        assert forall|i: int, j: int| 0 <= i < j < all.len() implies !same_place(
            #[trigger] all[i],
            #[trigger] all[j],
        ) by {
            assert(all[i] == done[i]);
            if j < done.len() {
                assert(all[j] == done[j]);
            } else {
                lemma_permitted_holds(rest, dirs, done[i]);
                let k = choose|k: int|
                    0 <= k < rest.len() && (#[trigger] rest[k]).candidate.candidate == done[i];
                assert(permits[k] == rest[k]);
                assert(!same_place(
                    permits[k].candidate.candidate,
                    permits[permits.len() - 1].candidate.candidate,
                ));
            }
        }
    }
}

proof fn lemma_sorted_rises(from: Seq<Candidate>, to: Seq<Candidate>)
    requires
        is_sorted_form(from, to),
        items_differ(from),
        from.len() <= DEFAULT_MAX_OPERATIONS_PER_PLAN,
    ensures
        is_rising(to),
        forall|c: Candidate| to.contains(c) <==> from.contains(c),
{
    let order = choose|order: Seq<usize>| is_arranged(from, to, order);
    assert forall|i: int, j: int|
        #![trigger to[i], to[j]]
        0 <= i < j < to.len() implies to[i].before(&to[j]) by {
        let (a, b) = (order[i] as int, order[j] as int);
        assert(to[i] == from[a] && to[j] == from[b]);
        assert(sorting::precedes(from, a, b));
        Candidate::lemma_asymmetric(&from[a], &from[a]);
        assert(a != b);
        if a < b {
            assert(!same_place(from[a], from[b]));
        } else {
            assert(!same_place(from[b], from[a]));
        }
        text::lemma_text_before_total(from[a].target_id@, from[b].target_id@);
        text::lemma_text_before_total(from[a].rel_path@, from[b].rel_path@);
    }
    assert forall|c: Candidate| to.contains(c) <==> from.contains(c) by {
        if to.contains(c) {
            let i = choose|i: int| 0 <= i < to.len() && to[i] == c;
            assert(from[order[i] as int] == c);
        }
        if from.contains(c) {
            let k = choose|k: int| 0 <= k < from.len() && from[k] == c;
            assert(order.contains(k as usize));
            let i = choose|i: int| 0 <= i < order.len() && order[i] == k as usize;
            assert(to[i] == from[k]);
        }
    }
}

proof fn lemma_rising_agree(a: Seq<Candidate>, b: Seq<Candidate>, n: int)
    requires
        is_rising(a),
        is_rising(b),
        forall|c: Candidate| a.contains(c) <==> b.contains(c),
        0 <= n < a.len(),
    ensures
        n < b.len(),
        a[n] == b[n],
    decreases n,
{
    assert forall|i: int| 0 <= i < n implies i < b.len() && a[i] == b[i] by {
        lemma_rising_agree(a, b, i);
    }
    assert(b.contains(a[n]));
    let m = choose|m: int| 0 <= m < b.len() && b[m] == a[n];
    if m < n {
        assert(a[m] == b[m]);
        assert(a[m].before(&a[n]));
        Candidate::lemma_asymmetric(&a[n], &a[n]);
    }
    assert(n <= m);
    assert(a.contains(b[n]));
    let k = choose|k: int| 0 <= k < a.len() && a[k] == b[n];
    if k < n {
        assert(a[k] == b[k]);
        assert(b[k].before(&b[n]));
        Candidate::lemma_asymmetric(&b[n], &b[n]);
    }
    if n < m && n < k {
        assert(b[n].before(&b[m]));
        assert(a[n].before(&a[k]));
        Candidate::lemma_asymmetric(&a[n], &b[n]);
    }
}

proof fn lemma_rising_is_unique(a: Seq<Candidate>, b: Seq<Candidate>)
    requires
        is_rising(a),
        is_rising(b),
        forall|c: Candidate| a.contains(c) <==> b.contains(c),
    ensures
        a == b,
{
    if a.len() > b.len() {
        lemma_rising_agree(a, b, b.len() as int);
    }
    if b.len() > a.len() {
        lemma_rising_agree(b, a, a.len() as int);
    }
    assert forall|i: int| 0 <= i < a.len() implies a[i] == b[i] by {
        lemma_rising_agree(a, b, i);
    }
    assert(a =~= b);
}

/// The order of the permits does not matter: plans for the same permits in any two
/// orders hold the same operations, as long as no two permits are for one place.
pub proof fn law_order_of_permits_does_not_matter(
    a: PlannedPlan,
    b: PlannedPlan,
    permits: Seq<PolicyPermit>,
    shuffled: Seq<PolicyPermit>,
    k: int,
)
    requires
        is_plan_for(a, permits),
        is_plan_for(b, shuffled),
        permits.to_multiset() == shuffled.to_multiset(),
        permits.len() <= DEFAULT_MAX_OPERATIONS_PER_PLAN,
        places_differ(permits),
        0 <= k < a.operations@.len(),
    ensures
        a.operations@.len() == b.operations@.len(),
        a.total_estimated_reclaim == b.total_estimated_reclaim,
        a.operations@[k].op_id == b.operations@[k].op_id,
        a.operations@[k].op_type == b.operations@[k].op_type,
        a.operations@[k].dependencies@ == b.operations@[k].dependencies@,
        a.operations@[k].estimated_reclaim == b.operations@[k].estimated_reclaim,
{
    let (fa, da) = choose|files: Seq<Candidate>, dirs: Seq<Candidate>|
        is_plan_of(a, permits, files, dirs);
    let (fb, db) = choose|files: Seq<Candidate>, dirs: Seq<Candidate>|
        is_plan_of(b, shuffled, files, dirs);
    assert forall|c: Candidate| permits_hold(permits, c) <==> permits_hold(shuffled, c) by {
        permits.to_multiset_ensures();
        shuffled.to_multiset_ensures();
        if permits_hold(permits, c) {
            let i = choose|i: int|
                0 <= i < permits.len() && (#[trigger] permits[i]).candidate.candidate == c;
            assert(permits.contains(permits[i]));
            assert(permits.to_multiset().count(permits[i]) > 0);
            assert(shuffled.contains(permits[i]));
        }
        if permits_hold(shuffled, c) {
            let i = choose|i: int|
                0 <= i < shuffled.len() && (#[trigger] shuffled[i]).candidate.candidate == c;
            assert(shuffled.contains(shuffled[i]));
            assert(shuffled.to_multiset().count(shuffled[i]) > 0);
            assert(permits.contains(shuffled[i]));
        }
    }
    permits.to_multiset_ensures();
    shuffled.to_multiset_ensures();
    lemma_shuffled_differ(permits, shuffled);
    lemma_same_sorted_form(permits, shuffled, false, fa, fb);
    lemma_same_sorted_form(permits, shuffled, true, da, db);
    assert(is_op_on(a.operations@[k], fa + da, k));
    assert(is_op_on(b.operations@[k], fa + da, k));
}

proof fn lemma_shuffled_differ(permits: Seq<PolicyPermit>, shuffled: Seq<PolicyPermit>)
    requires
        permits.to_multiset() == shuffled.to_multiset(),
        places_differ(permits),
    ensures
        places_differ(shuffled),
{
    permits.to_multiset_ensures();
    shuffled.to_multiset_ensures();
    assert(permits.no_duplicates()) by {
        assert forall|i: int, j: int|
            0 <= i < permits.len() && 0 <= j < permits.len() && i != j implies permits[i]
            != permits[j] by {
            let (a, b) = if i < j {
                (i, j)
            } else {
                (j, i)
            };
            assert(!same_place(permits[a].candidate.candidate, permits[b].candidate.candidate));
        }
    }
    permits.lemma_multiset_has_no_duplicates();
    shuffled.lemma_multiset_has_no_duplicates_conv();
    assert forall|i: int, j: int| 0 <= i < j < shuffled.len() implies !same_place(
        (#[trigger] shuffled[i]).candidate.candidate,
        (#[trigger] shuffled[j]).candidate.candidate,
    ) by {
        assert(shuffled.contains(shuffled[i]) && shuffled.contains(shuffled[j]));
        assert(permits.to_multiset().count(shuffled[i]) > 0);
        assert(permits.to_multiset().count(shuffled[j]) > 0);
        let a = choose|a: int| 0 <= a < permits.len() && permits[a] == shuffled[i];
        let b = choose|b: int| 0 <= b < permits.len() && permits[b] == shuffled[j];
        assert(a != b);
        let (x, y) = if a < b {
            (a, b)
        } else {
            (b, a)
        };
        assert(!same_place(permits[x].candidate.candidate, permits[y].candidate.candidate));
    }
}

proof fn lemma_same_sorted_form(
    permits: Seq<PolicyPermit>,
    shuffled: Seq<PolicyPermit>,
    dirs: bool,
    a: Seq<Candidate>,
    b: Seq<Candidate>,
)
    requires
        places_differ(permits),
        places_differ(shuffled),
        permits.len() <= DEFAULT_MAX_OPERATIONS_PER_PLAN,
        shuffled.len() <= DEFAULT_MAX_OPERATIONS_PER_PLAN,
        forall|c: Candidate| permits_hold(permits, c) <==> permits_hold(shuffled, c),
        is_sorted_form(permitted(permits, dirs), a),
        is_sorted_form(permitted(shuffled, dirs), b),
    ensures
        a == b,
{
    lemma_permitted_differ(permits, dirs);
    lemma_permitted_differ(shuffled, dirs);
    lemma_permitted_len(permits);
    lemma_permitted_len(shuffled);
    lemma_sorted_rises(permitted(permits, dirs), a);
    lemma_sorted_rises(permitted(shuffled, dirs), b);
    assert forall|c: Candidate| a.contains(c) <==> b.contains(c) by {
        lemma_permitted_holds(permits, dirs, c);
        lemma_permitted_holds(shuffled, dirs, c);
        assert(a.contains(c) <==> permitted(permits, dirs).contains(c));
        assert(b.contains(c) <==> permitted(shuffled, dirs).contains(c));
    }
    lemma_rising_is_unique(a, b);
}

/// A plan deals with all files before all directories, and with either by target,
/// the deepest paths of a target first.
pub proof fn law_plan_is_ordered(plan: PlannedPlan, permits: Seq<PolicyPermit>, i: int, j: int)
    requires
        is_plan_for(plan, permits),
        0 <= i < j < plan.operations@.len(),
    ensures
        ({
            let (a, b) = (plan.operations@[i].op_type, plan.operations@[j].op_type);
            &&& a is DeleteFile || a is DeleteDirEmpty
            &&& a is DeleteDirEmpty ==> b is DeleteDirEmpty
            &&& (a is DeleteDirEmpty <==> b is DeleteDirEmpty) ==> !place_before(
                b.target()->0,
                b.path()->0,
                a.target()->0,
                a.path()->0,
            )
        }),
{
    let (files, dirs) = choose|files: Seq<Candidate>, dirs: Seq<Candidate>|
        is_plan_of(plan, permits, files, dirs);
    let items = files + dirs;
    lemma_permitted_kind(permits, false);
    lemma_permitted_kind(permits, true);
    lemma_sorted_kind(permitted(permits, false), files, false);
    lemma_sorted_kind(permitted(permits, true), dirs, true);
    assert(is_op_on(plan.operations@[i], items, i));
    assert(is_op_on(plan.operations@[j], items, j));
    let n = files.len() as int;
    if j < n {
        assert(items[i] == files[i] && items[j] == files[j]);
        lemma_sorted_pair(permitted(permits, false), files, i, j);
    } else if i >= n {
        assert(items[i] == dirs[i - n] && items[j] == dirs[j - n]);
        lemma_sorted_pair(permitted(permits, true), dirs, i - n, j - n);
    } else {
        assert(items[i] == files[i] && items[j] == dirs[j - n]);
    }
}

proof fn lemma_items_are_permitted(
    plan: PlannedPlan,
    permits: Seq<PolicyPermit>,
    files: Seq<Candidate>,
    dirs: Seq<Candidate>,
    c: Candidate,
)
    requires
        is_plan_of(plan, permits, files, dirs),
        permits.len() <= DEFAULT_MAX_OPERATIONS_PER_PLAN,
    ensures
        (files + dirs).contains(c) <==> permits_hold(permits, c),
        files.len() + dirs.len() == permits.len(),
{
    lemma_permitted_len(permits);
    lemma_sorted_len(permitted(permits, false), files);
    lemma_sorted_len(permitted(permits, true), dirs);
    lemma_sorted_contents(permitted(permits, false), files, c);
    lemma_sorted_contents(permitted(permits, true), dirs, c);
    lemma_permitted_holds(permits, false, c);
    lemma_permitted_holds(permits, true, c);
    let items = files + dirs;
    if items.contains(c) {
        let k = choose|k: int| 0 <= k < items.len() && items[k] == c;
        if k < files.len() {
            assert(files[k] == c);
        } else {
            assert(dirs[k - files.len()] == c);
        }
    }
    if files.contains(c) {
        let k = choose|k: int| 0 <= k < files.len() && files[k] == c;
        assert(items[k] == c);
    }
    if dirs.contains(c) {
        let k = choose|k: int| 0 <= k < dirs.len() && dirs[k] == c;
        assert(items[files.len() + k] == c);
    }
}

proof fn lemma_sorted_contents(from: Seq<Candidate>, to: Seq<Candidate>, c: Candidate)
    requires
        is_sorted_form(from, to),
        from.len() <= DEFAULT_MAX_OPERATIONS_PER_PLAN,
    ensures
        to.contains(c) <==> from.contains(c),
{
    let order = choose|order: Seq<usize>| #[trigger] is_arranged(from, to, order);
    assert(sorting::holds_range(order, 0, from.len() as int));
    if to.contains(c) {
        let i = choose|i: int| 0 <= i < to.len() && to[i] == c;
        assert(from[order[i] as int] == c);
    }
    if from.contains(c) {
        let j = choose|j: int| 0 <= j < from.len() && from[j] == c;
        assert(order.contains(j as usize));
        let i = choose|i: int| 0 <= i < order.len() && order[i] == j as usize;
        assert(to[i] == c);
    }
}

/// The operation removes this candidate: from its target, at its path, with the identity
/// that was seen, as a directory where it is one, and for its size where it is a file.
pub open spec fn removes(op: PlannedOperation, candidate: Candidate) -> bool {
    match op.op_type {
        OperationType::DeleteFile { target_id, rel_path, expected_identity, estimated_size } => {
            &&& !candidate.is_dir
            &&& target_id == candidate.target_id
            &&& rel_path == candidate.rel_path
            &&& expected_identity == candidate.identity
            &&& estimated_size == candidate.size_bytes
            &&& op.estimated_reclaim == candidate.size_bytes
        },
        OperationType::DeleteDirEmpty { target_id, rel_path, expected_identity } => {
            &&& candidate.is_dir
            &&& target_id == candidate.target_id
            &&& rel_path == candidate.rel_path
            &&& expected_identity == candidate.identity
            &&& op.estimated_reclaim.0 == 0
        },
        _ => false,
    }
}

/// A plan removes what is permitted and nothing else: each operation removes the
/// candidate of some permit, each permit has an operation, and there are as many of the
/// one as of the other. Operations are numbered from one in the order of the plan. There
/// is no plan for more than ten thousand permits.
pub proof fn law_plan_removes_what_is_permitted(
    planner: &CleanupPlanner,
    job_id: JobId,
    catalog: CatalogGeneration,
    config: ConfigGeneration,
    permits: Vec<PolicyPermit>,
    r: Result<PlannedPlan, CleanerError>,
)
    requires
        call_ensures(CleanupPlanner::build_plan, (planner, job_id, catalog, config, permits), r),
    ensures
        r is Ok <==> permits@.len() <= 10_000,
        r matches Ok(plan) ==> {
            &&& plan.job_id == job_id
            &&& plan.catalog_generation == catalog
            &&& plan.config_generation == config
            &&& plan.operations@.len() == permits@.len()
            &&& forall|k: int|
                0 <= k < plan.operations@.len() ==> (#[trigger] plan.operations@[k]).op_id.0 == k
                    + 1
            &&& forall|k: int|
                0 <= k < plan.operations@.len() ==> exists|i: int|
                    0 <= i < permits@.len() && removes(
                        #[trigger] plan.operations@[k],
                        (#[trigger] permits@[i]).candidate.candidate,
                    )
            &&& forall|i: int|
                0 <= i < permits@.len() ==> exists|k: int|
                    0 <= k < plan.operations@.len() && removes(
                        #[trigger] plan.operations@[k],
                        (#[trigger] permits@[i]).candidate.candidate,
                    )
        },
{
    if r is Ok {
        let plan = r->Ok_0;
        let (files, dirs) = choose|files: Seq<Candidate>, dirs: Seq<Candidate>|
            is_plan_of(plan, permits@, files, dirs);
        let items = files + dirs;
        lemma_items_are_permitted(plan, permits@, files, dirs, items[0]);
        assert forall|k: int| 0 <= k < plan.operations@.len() implies (
        #[trigger] plan.operations@[k]).op_id.0 == k + 1 by {
            assert(is_op_on(plan.operations@[k], items, k));
        }
        assert forall|k: int| 0 <= k < plan.operations@.len() implies exists|i: int|
            0 <= i < permits@.len() && removes(
                #[trigger] plan.operations@[k],
                (#[trigger] permits@[i]).candidate.candidate,
            ) by {
            assert(is_op_on(plan.operations@[k], items, k));
            lemma_items_are_permitted(plan, permits@, files, dirs, items[k]);
            assert(items.contains(items[k]));
            let i = choose|i: int|
                0 <= i < permits@.len() && (#[trigger] permits@[i]).candidate.candidate == items[k];
            assert(removes(plan.operations@[k], permits@[i].candidate.candidate));
        }
        assert forall|i: int| 0 <= i < permits@.len() implies exists|k: int|
            0 <= k < plan.operations@.len() && removes(
                #[trigger] plan.operations@[k],
                (#[trigger] permits@[i]).candidate.candidate,
            ) by {
            let c = permits@[i].candidate.candidate;
            assert(permits_hold(permits@, c));
            lemma_items_are_permitted(plan, permits@, files, dirs, c);
            let k = choose|k: int| 0 <= k < items.len() && items[k] == c;
            assert(is_op_on(plan.operations@[k], items, k));
            assert(removes(plan.operations@[k], c));
        }
    }
}

/// The bytes that operations are expected to reclaim, added up.
pub open spec fn expected_bytes(ops: Seq<PlannedOperation>) -> int
    decreases ops.len(),
{
    if ops.len() == 0 {
        0
    } else {
        expected_bytes(ops.drop_last()) + ops.last().estimated_reclaim.0
    }
}

proof fn lemma_expected_bytes(
    ops: Seq<PlannedOperation>,
    files: Seq<Candidate>,
    dirs: Seq<Candidate>,
    n: int,
)
    requires
        0 <= n <= ops.len() == files.len() + dirs.len(),
        forall|k: int| 0 <= k < ops.len() ==> is_op_on(#[trigger] ops[k], files + dirs, k),
        forall|i: int| 0 <= i < files.len() ==> !(#[trigger] files[i]).is_dir,
        forall|i: int| 0 <= i < dirs.len() ==> (#[trigger] dirs[i]).is_dir,
    ensures
        n <= files.len() ==> expected_bytes(ops.take(n)) == total_size(files.take(n)),
        n >= files.len() ==> expected_bytes(ops.take(n)) == total_size(files),
    decreases n,
{
    if n > 0 {
        lemma_expected_bytes(ops, files, dirs, n - 1);
        assert(ops.take(n).drop_last() =~= ops.take(n - 1));
        assert(ops.take(n).last() == ops[n - 1]);
        assert(is_op_on(ops[n - 1], files + dirs, n - 1));
        if n <= files.len() {
            assert(files.take(n).drop_last() =~= files.take(n - 1));
            assert((files + dirs)[n - 1] == files[n - 1]);
            if n == files.len() {
                assert(files.take(n) =~= files);
            }
        } else {
            assert((files + dirs)[n - 1] == dirs[n - 1 - files.len()]);
        }
    } else if files.len() == 0 {
        assert(files.take(0) =~= files);
    }
}

/// A plan is expected to reclaim what its operations are expected to reclaim together,
/// as far as that can be held.
pub proof fn law_plan_adds_up_its_operations(
    planner: &CleanupPlanner,
    job_id: JobId,
    catalog: CatalogGeneration,
    config: ConfigGeneration,
    permits: Vec<PolicyPermit>,
    plan: PlannedPlan,
)
    requires
        call_ensures(
            CleanupPlanner::build_plan,
            (planner, job_id, catalog, config, permits),
            Ok::<PlannedPlan, CleanerError>(plan),
        ),
    ensures
        expected_bytes(plan.operations@) <= u64::MAX ==> plan.total_estimated_reclaim.0
            == expected_bytes(plan.operations@),
        expected_bytes(plan.operations@) > u64::MAX ==> plan.total_estimated_reclaim.0 == u64::MAX,
{
    let (files, dirs) = choose|files: Seq<Candidate>, dirs: Seq<Candidate>|
        is_plan_of(plan, permits@, files, dirs);
    lemma_permitted_kind(permits@, false);
    lemma_permitted_kind(permits@, true);
    lemma_sorted_kind(permitted(permits@, false), files, false);
    lemma_sorted_kind(permitted(permits@, true), dirs, true);
    let n = plan.operations@.len() as int;
    lemma_expected_bytes(plan.operations@, files, dirs, n);
    assert(plan.operations@.take(n) =~= plan.operations@);
}

/// A file waits for nothing. A directory waits for operations before its own on what
/// lies inside it, and for nothing else; and whatever lies inside it is dealt with
/// before it, and waited for where no two permits are for one place.
pub proof fn law_directories_wait_for_their_contents(
    planner: &CleanupPlanner,
    job_id: JobId,
    catalog: CatalogGeneration,
    config: ConfigGeneration,
    permits: Vec<PolicyPermit>,
    plan: PlannedPlan,
    j: int,
    k: int,
)
    requires
        call_ensures(
            CleanupPlanner::build_plan,
            (planner, job_id, catalog, config, permits),
            Ok::<PlannedPlan, CleanerError>(plan),
        ),
        0 <= j < plan.operations@.len(),
        0 <= k < plan.operations@.len(),
    ensures
        ({
            let inner = plan.operations@[j];
            let outer = plan.operations@[k];
            let inside = inner.op_type.target() == outer.op_type.target() && text::has_prefix(
                inner.op_type.path()->0,
                outer.op_type.path()->0.push('/'),
            );
            &&& outer.op_type is DeleteFile ==> outer.dependencies@.len() == 0
            &&& outer.dependencies@.contains(inner.op_id) ==> j < k && inside
            &&& outer.op_type is DeleteDirEmpty && inside ==> j < k
            &&& outer.op_type is DeleteDirEmpty && inside && places_differ(permits@)
                ==> outer.dependencies@.contains(inner.op_id)
        }),
{
    let (files, dirs) = choose|files: Seq<Candidate>, dirs: Seq<Candidate>|
        is_plan_of(plan, permits@, files, dirs);
    let items = files + dirs;
    assert(is_op_on(plan.operations@[j], items, j));
    assert(is_op_on(plan.operations@[k], items, k));
    lemma_permitted_len(permits@);
    lemma_sorted_len(permitted(permits@, false), files);
    lemma_sorted_len(permitted(permits@, true), dirs);
    let outer = plan.operations@[k];
    if outer.dependencies@.contains(plan.operations@[j].op_id) {
        lemma_waits_listed(items, k, k, plan.operations@[j].op_id);
    }
    if items[k].is_dir && lies_inside(items[j], items[k]) {
        law_contents_come_first(plan, permits@, files, dirs, j, k);
        if places_differ(permits@) {
            lemma_permitted_differ(permits@, false);
            lemma_permitted_differ(permits@, true);
            lemma_sorted_rises(permitted(permits@, false), files);
            lemma_sorted_rises(permitted(permits@, true), dirs);
            lemma_items_all_differ(plan, permits@, files, dirs);
        }
    }
}

proof fn lemma_waits_listed(items: Seq<Candidate>, k: int, n: int, id: OperationId)
    requires
        0 <= n <= DEFAULT_MAX_OPERATIONS_PER_PLAN,
        waits(items, k, n).contains(id),
    ensures
        1 <= id.0 <= n,
        waits_for(items, k, id.0 - 1),
    decreases n,
{
    if n > 0 {
        let done = waits(items, k, n - 1);
        let all = waits(items, k, n);
        let i = choose|i: int| 0 <= i < all.len() && all[i] == id;
        if i < done.len() {
            assert(done[i] == id);
            lemma_waits_listed(items, k, n - 1, id);
        } else {
            assert(id == OperationId(n as u64));
        }
    }
}

proof fn lemma_items_all_differ(
    plan: PlannedPlan,
    permits: Seq<PolicyPermit>,
    files: Seq<Candidate>,
    dirs: Seq<Candidate>,
)
    requires
        is_plan_of(plan, permits, files, dirs),
        places_differ(permits),
        is_rising(files),
        is_rising(dirs),
        permits.len() <= DEFAULT_MAX_OPERATIONS_PER_PLAN,
    ensures
        items_differ(files + dirs),
{
    let items = files + dirs;
    lemma_permitted_kind(permits, false);
    lemma_permitted_kind(permits, true);
    lemma_sorted_kind(permitted(permits, false), files, false);
    lemma_sorted_kind(permitted(permits, true), dirs, true);
    assert forall|i: int, j: int| 0 <= i < j < items.len() implies !same_place(
        #[trigger] items[i],
        #[trigger] items[j],
    ) by {
        if same_place(items[i], items[j]) {
            let n = files.len() as int;
            if j < n {
                assert(files[i].before(&files[j]));
                text::lemma_text_before_total(items[i].target_id@, items[i].target_id@);
                text::lemma_text_before_total(items[i].rel_path@, items[i].rel_path@);
            } else if i >= n {
                assert(dirs[i - n].before(&dirs[j - n]));
                text::lemma_text_before_total(items[i].target_id@, items[i].target_id@);
                text::lemma_text_before_total(items[i].rel_path@, items[i].rel_path@);
            } else {
                lemma_items_are_permitted(plan, permits, files, dirs, items[i]);
                lemma_items_are_permitted(plan, permits, files, dirs, items[j]);
                assert(items.contains(items[i]));
                assert(items.contains(items[j]));
                let a = choose|a: int|
                    0 <= a < permits.len() && (#[trigger] permits[a]).candidate.candidate
                        == items[i];
                let b = choose|b: int|
                    0 <= b < permits.len() && (#[trigger] permits[b]).candidate.candidate
                        == items[j];
                assert(items[i] == files[i]);
                assert(items[j] == dirs[j - n]);
                assert(a != b);
                if a < b {
                    assert(!same_place(
                        permits[a].candidate.candidate,
                        permits[b].candidate.candidate,
                    ));
                } else {
                    assert(!same_place(
                        permits[b].candidate.candidate,
                        permits[a].candidate.candidate,
                    ));
                }
            }
        }
    }
}

/// The order of a plan: files come before directories; of either kind targets come in
/// the order of their names, the paths of one target by the number of slashes in them,
/// the most first, and paths with as many slashes in the order of their characters.
pub proof fn law_plan_comes_in_order(
    planner: &CleanupPlanner,
    job_id: JobId,
    catalog: CatalogGeneration,
    config: ConfigGeneration,
    permits: Vec<PolicyPermit>,
    plan: PlannedPlan,
    i: int,
    j: int,
)
    requires
        call_ensures(
            CleanupPlanner::build_plan,
            (planner, job_id, catalog, config, permits),
            Ok::<PlannedPlan, CleanerError>(plan),
        ),
        0 <= i < j < plan.operations@.len(),
    ensures
        ({
            let (a, b) = (plan.operations@[i].op_type, plan.operations@[j].op_type);
            &&& a is DeleteDirEmpty ==> b is DeleteDirEmpty
            &&& (a is DeleteFile <==> b is DeleteFile) ==> {
                let slashes_a = text::split_on(a.path()->0, '/').len();
                let slashes_b = text::split_on(b.path()->0, '/').len();
                &&& !text::text_before(b.target()->0, a.target()->0)
                &&& a.target() == b.target() ==> slashes_a >= slashes_b
                &&& a.target() == b.target() && slashes_a == slashes_b ==> !text::text_before(
                    b.path()->0,
                    a.path()->0,
                )
            }
        }),
{
    law_plan_is_ordered(plan, permits@, i, j);
    let (files, dirs) = choose|files: Seq<Candidate>, dirs: Seq<Candidate>|
        is_plan_of(plan, permits@, files, dirs);
    assert(is_op_on(plan.operations@[i], files + dirs, i));
    assert(is_op_on(plan.operations@[j], files + dirs, j));
}

/// The number of a plan tells the job and the generation that it is made for.
pub proof fn law_plan_number_tells_its_job(
    planner: &CleanupPlanner,
    job_id: JobId,
    catalog: CatalogGeneration,
    config: ConfigGeneration,
    permits: Vec<PolicyPermit>,
    plan: PlannedPlan,
)
    requires
        call_ensures(
            CleanupPlanner::build_plan,
            (planner, job_id, catalog, config, permits),
            Ok::<PlannedPlan, CleanerError>(plan),
        ),
        job_id.0 < 0x1_0000_0000_0000,
        catalog.0 < 0x100,
    ensures
        plan.plan_id.0 == job_id.0 * 0x1_0000 + catalog.0 * 0x100 + 1,
{
    let a = job_id.0;
    let b = catalog.0;
    assert((a << 16) ^ (b << 8) ^ 1u64 == a * 0x1_0000u64 + b * 0x100u64 + 1u64) by (bit_vector)
        requires
            a < 0x1_0000_0000_0000u64,
            b < 0x100u64,
    ;
}

/// An operation before the `n`-th has this number.
pub open spec fn is_numbered_before(ops: Seq<PlannedOperation>, n: int, id: OperationId) -> bool {
    exists|j: int| 0 <= j < n && (#[trigger] ops[j]).op_id == id
}

/// A plan is found sound exactly where it holds no more than ten thousand operations, no
/// two of them have one number, and each waits only for numbers of operations before it.
pub proof fn law_sound_plans_are_accepted(
    planner: &CleanupPlanner,
    plan: &PlannedPlan,
    r: Result<(), CleanerError>,
)
    requires
        call_ensures(CleanupPlanner::validate_plan, (planner, plan), r),
    ensures
        r is Ok <==> {
            let ops = plan.operations@;
            &&& ops.len() <= 10_000
            &&& forall|i: int, j: int|
                #![trigger ops[i], ops[j]]
                0 <= i < j < ops.len() ==> ops[i].op_id != ops[j].op_id
            &&& forall|n: int, d: int|
                #![trigger ops[n].dependencies@[d]]
                0 <= n < ops.len() && 0 <= d < ops[n].dependencies@.len() ==> is_numbered_before(ops, n, ops[n].dependencies@[d])
        },
{
    let ops = plan.operations@;
    let n = ops.len() as int;
    if first_fault(ops, n) is None {
        lemma_no_fault(ops, n);
        assert forall|i: int, j: int|
            #![trigger ops[i], ops[j]]
            0 <= i < j < ops.len() implies ops[i].op_id != ops[j].op_id by {
            assert(fault_at(ops, j) is None);
            if ops[i].op_id == ops[j].op_id {
                assert(is_defined(ops, j, ops[j].op_id));
            }
        }
        assert forall|m: int, d: int|
            #![trigger ops[m].dependencies@[d]]
            0 <= m < ops.len() && 0 <= d < ops[m].dependencies@.len() implies is_numbered_before(ops, m, ops[m].dependencies@[d]) by {
            assert(fault_at(ops, m) is None);
            lemma_none_undefined(ops, m, ops[m].dependencies@.len() as int, d);
            let id = ops[m].dependencies@[d];
            let j = choose|j: int| 0 <= j < m && (#[trigger] ops[j]).op_id == id;
            assert(ops[j].op_id == id);
        }
    }
    if {
        &&& forall|i: int, j: int|
            #![trigger ops[i], ops[j]]
            0 <= i < j < ops.len() ==> ops[i].op_id != ops[j].op_id
        &&& forall|m: int, d: int|
            #![trigger ops[m].dependencies@[d]]
            0 <= m < ops.len() && 0 <= d < ops[m].dependencies@.len() ==> is_numbered_before(ops, m, ops[m].dependencies@[d])
    } {
        lemma_faultless(ops, n);
    }
}

proof fn lemma_no_fault(ops: Seq<PlannedOperation>, n: int)
    requires
        first_fault(ops, n) is None,
    ensures
        forall|i: int| 0 <= i < n ==> #[trigger] fault_at(ops, i) is None,
    decreases n,
{
    if n > 0 {
        lemma_no_fault(ops, n - 1);
    }
}

proof fn lemma_none_undefined(ops: Seq<PlannedOperation>, n: int, m: int, d: int)
    requires
        first_undefined(ops, n, m) is None,
        0 <= d < m,
    ensures
        is_defined(ops, n, ops[n].dependencies@[d]),
    decreases m,
{
    if d < m - 1 {
        lemma_none_undefined(ops, n, m - 1, d);
    }
}

proof fn lemma_faultless(ops: Seq<PlannedOperation>, n: int)
    requires
        n <= ops.len(),
        forall|i: int, j: int|
            #![trigger ops[i], ops[j]]
            0 <= i < j < ops.len() ==> ops[i].op_id != ops[j].op_id,
        forall|m: int, d: int|
            #![trigger ops[m].dependencies@[d]]
            0 <= m < ops.len() && 0 <= d < ops[m].dependencies@.len() ==> is_numbered_before(ops, m, ops[m].dependencies@[d]),
    ensures
        first_fault(ops, n) is None,
    decreases n,
{
    if n > 0 {
        lemma_faultless(ops, n - 1);
        let k = n - 1;
        assert forall|i: int| 0 <= i < ops[k].dependencies@.len() implies is_defined(
            ops,
            k,
            #[trigger] ops[k].dependencies@[i],
        ) by {
            let id = ops[k].dependencies@[i];
            assert(is_numbered_before(ops, k, id));
            let j = choose|j: int| 0 <= j < k && (#[trigger] ops[j]).op_id == id;
            assert(ops[j].op_id == id);
        }
        lemma_all_defined(ops, k, ops[k].dependencies@.len() as int);
        if is_defined(ops, k, ops[k].op_id) {
            let j = choose|j: int| 0 <= j < k && (#[trigger] ops[j]).op_id == ops[k].op_id;
            assert(ops[j].op_id != ops[k].op_id);
        }
    }
}

} // verus!
