//! The queues a logical device is created with.
use vstd::prelude::*;

use crate::queue_indices::QueueIndices;

verus! {

/// The (family, queue) pairs in use: graphics, present, transfer.
pub open spec fn used_queues(q: QueueIndices) -> Seq<(u32, u32)> {
    seq![(q.graphics_family, q.graphics_index), (q.present_family, q.present_index), (q.transfer_family, q.transfer_index)]
}

/// The first entry of `s` for family `f`.
pub open spec fn entry_of(s: Seq<(u32, u32)>, f: u32, k: int) -> Option<int>
    decreases s.len() - k,
{
    if k < 0 || k >= s.len() {
        None
    } else if s[k].0 == f {
        Some(k)
    } else {
        entry_of(s, f, k + 1)
    }
}

/// Notes that queue `i` of family `f` is used: the family's count becomes at least
/// `i + 1`, and a family seen for the first time is appended.
pub open spec fn use_queue(s: Seq<(u32, u32)>, f: u32, i: u32) -> Seq<(u32, u32)> {
    match entry_of(s, f, 0) {
        Some(k) => s.update(k, (f, if s[k].1 >= i + 1 { s[k].1 } else { (i + 1) as u32 })),
        None => s.push((f, (i + 1) as u32)),
    }
}

/// For each queue family in use, in order of first use among graphics, present and
/// transfer, the number of queues to create.
pub open spec fn queue_counts_spec(q: QueueIndices) -> Seq<(u32, u32)> {
    use_queue(
        use_queue(use_queue(Seq::empty(), q.graphics_family, q.graphics_index), q.present_family, q.present_index),
        q.transfer_family,
        q.transfer_index,
    )
}

proof fn lemma_entry_of(s: Seq<(u32, u32)>, f: u32, k: int)
    requires
        k >= 0,
    ensures
        entry_of(s, f, k) matches Some(j) ==> k <= j < s.len() && s[j].0 == f,
        entry_of(s, f, k) is None ==> forall|j: int| k <= j < s.len() ==> s[j].0 != f,
    decreases s.len() - k,
{
    if k < s.len() && s[k].0 != f {
        lemma_entry_of(s, f, k + 1);
    }
}

/// Notes a used queue in `s` (see `use_queue`).
fn note_queue(s: &mut Vec<(u32, u32)>, f: u32, i: u32)
    requires
        i < u32::MAX,
    ensures
        final(s)@ == use_queue(old(s)@, f, i),
{
    let ghost o = s@;
    let mut k: usize = 0;
    while k < s.len()
        invariant
            0 <= k <= s@.len(),
            s@ == o,
            o == old(s)@,
            i < u32::MAX,
            entry_of(o, f, 0) == entry_of(o, f, k as int),
        decreases s.len() - k,
    {
        if s[k].0 == f {
            let c = s[k].1;
            let n = if c >= i + 1 { c } else { i + 1 };
            s.set(k, (f, n));
            return;
        }
        k = k + 1;
    }
    s.push((f, i + 1));
}

/// For each queue family in use, in order of first use among graphics, present and
/// transfer, the number of queues to create: one more than the highest queue index
/// used in that family.
pub fn queue_create_counts(q: &QueueIndices) -> (r: Vec<(u32, u32)>)
    requires
        q.graphics_index < u32::MAX,
        q.present_index < u32::MAX,
        q.transfer_index < u32::MAX,
    ensures
        r@ == queue_counts_spec(*q),
{
    let mut r: Vec<(u32, u32)> = Vec::new();
    note_queue(&mut r, q.graphics_family, q.graphics_index);
    note_queue(&mut r, q.present_family, q.present_index);
    note_queue(&mut r, q.transfer_family, q.transfer_index);
    r
}

/// Noting a queue keeps families distinct, lists family `f` with room for queue `i`,
/// and keeps room for every queue already noted.
proof fn lemma_use_queue(s: Seq<(u32, u32)>, f: u32, i: u32)
    requires
        i < u32::MAX,
        forall|a: int, b: int| 0 <= a < b < s.len() ==> s[a].0 != s[b].0,
    ensures
        forall|a: int, b: int| 0 <= a < b < use_queue(s, f, i).len() ==> use_queue(s, f, i)[a].0 != use_queue(s, f, i)[b].0,
        exists|k: int| 0 <= k < use_queue(s, f, i).len() && use_queue(s, f, i)[k].0 == f && i < use_queue(s, f, i)[k].1,
        forall|j: int| 0 <= j < s.len() ==> use_queue(s, f, i)[j].0 == s[j].0 && s[j].1 <= use_queue(s, f, i)[j].1,
        s.len() <= use_queue(s, f, i).len(),
{
    lemma_entry_of(s, f, 0);
    let t = use_queue(s, f, i);
    match entry_of(s, f, 0) {
        Some(k) => {
            assert(t[k].0 == f && i < t[k].1);
        },
        None => {
            assert(t[s.len() as int].0 == f && i < t[s.len() as int].1);
        },
    }
}

/// Each family in use is listed once, and with room for every queue used in it.
pub proof fn lemma_queue_counts_cover(q: QueueIndices)
    requires
        q.graphics_index < u32::MAX,
        q.present_index < u32::MAX,
        q.transfer_index < u32::MAX,
    ensures
        forall|a: int, b: int| 0 <= a < b < queue_counts_spec(q).len() ==> queue_counts_spec(q)[a].0 != queue_counts_spec(q)[b].0,
        forall|u: int| 0 <= u < 3 ==> exists|k: int| 0 <= k < queue_counts_spec(q).len()
            && queue_counts_spec(q)[k].0 == (#[trigger] used_queues(q)[u]).0 && used_queues(q)[u].1 < queue_counts_spec(q)[k].1,
{
    let s0: Seq<(u32, u32)> = Seq::empty();
    lemma_use_queue(s0, q.graphics_family, q.graphics_index);
    let s1 = use_queue(s0, q.graphics_family, q.graphics_index);
    lemma_use_queue(s1, q.present_family, q.present_index);
    let s2 = use_queue(s1, q.present_family, q.present_index);
    lemma_use_queue(s2, q.transfer_family, q.transfer_index);
    let s3 = use_queue(s2, q.transfer_family, q.transfer_index);
    assert(queue_counts_spec(q) == s3);
    assert forall|u: int| 0 <= u < 3 implies exists|k: int| 0 <= k < s3.len()
        && s3[k].0 == (#[trigger] used_queues(q)[u]).0 && used_queues(q)[u].1 < s3[k].1 by {
        if u == 0 {
            let k = choose|k: int| 0 <= k < s1.len() && s1[k].0 == q.graphics_family && q.graphics_index < s1[k].1;
            assert(s3[k].0 == s2[k].0 && s2[k].1 <= s3[k].1);
        } else if u == 1 {
            let k = choose|k: int| 0 <= k < s2.len() && s2[k].0 == q.present_family && q.present_index < s2[k].1;
            assert(s3[k].0 == s2[k].0);
        } else {
            let k = choose|k: int| 0 <= k < s3.len() && s3[k].0 == q.transfer_family && q.transfer_index < s3[k].1;
            assert(used_queues(q)[u] == (q.transfer_family, q.transfer_index));
        }
    }
}

/// Every count in `s` is one more than the index of a queue in `used` of the same family.
pub open spec fn counts_from(s: Seq<(u32, u32)>, used: Seq<(u32, u32)>) -> bool {
    forall|k: int| 0 <= k < s.len() ==> exists|u: int| 0 <= u < used.len() && (#[trigger] used[u]).0 == (
        #[trigger] s[k]).0 && s[k].1 == used[u].1 + 1
}

/// Noting queue `i` of family `f` keeps every count one more than some queue noted.
proof fn lemma_use_queue_from(s: Seq<(u32, u32)>, used: Seq<(u32, u32)>, f: u32, i: u32)
    requires
        i < u32::MAX,
        counts_from(s, used),
    ensures
        counts_from(use_queue(s, f, i), used.push((f, i))),
{
    lemma_entry_of(s, f, 0);
    let t = use_queue(s, f, i);
    let nu = used.push((f, i));
    assert(nu[used.len() as int] == (f, i));
    assert forall|k: int| 0 <= k < t.len() implies exists|u: int| 0 <= u < nu.len() && (#[trigger] nu[u]).0
        == (#[trigger] t[k]).0 && t[k].1 == nu[u].1 + 1 by {
        if k < s.len() && t[k] == s[k] {
            let u = choose|u: int| 0 <= u < used.len() && (#[trigger] used[u]).0 == s[k].0 && s[k].1 == used[u].1 + 1;
            assert(nu[u] == used[u]);
        } else {
            assert(t[k] == (f, (i + 1) as u32));
        }
    }
}

/// Only families in use are listed, and each with exactly as many queues as its
/// highest queue in use needs: every count is one more than the index of a queue used
/// in that family (and, by `lemma_queue_counts_cover`, no queue used is beyond it).
pub proof fn lemma_queue_counts_exact(q: QueueIndices)
    requires
        q.graphics_index < u32::MAX,
        q.present_index < u32::MAX,
        q.transfer_index < u32::MAX,
    ensures
        forall|k: int| 0 <= k < queue_counts_spec(q).len() ==> exists|u: int| 0 <= u < 3
            && (#[trigger] used_queues(q)[u]).0 == (#[trigger] queue_counts_spec(q)[k]).0
            && queue_counts_spec(q)[k].1 == used_queues(q)[u].1 + 1,
{
    let s0: Seq<(u32, u32)> = Seq::empty();
    let u0: Seq<(u32, u32)> = Seq::empty();
    lemma_use_queue_from(s0, u0, q.graphics_family, q.graphics_index);
    let s1 = use_queue(s0, q.graphics_family, q.graphics_index);
    let u1 = u0.push((q.graphics_family, q.graphics_index));
    lemma_use_queue_from(s1, u1, q.present_family, q.present_index);
    let s2 = use_queue(s1, q.present_family, q.present_index);
    let u2 = u1.push((q.present_family, q.present_index));
    lemma_use_queue_from(s2, u2, q.transfer_family, q.transfer_index);
    let u3 = u2.push((q.transfer_family, q.transfer_index));
    assert(u3 =~= used_queues(q));
}

} // verus!
