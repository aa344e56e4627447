//! Choice of the queue families (and queues within them) used for transfers,
//! graphics and presentation.
//!
//! Each role has the set of usable families (at least one queue) that support
//! it. The transfer queue is preferably in a family apart from graphics and
//! presentation; graphics is preferably apart from transfer and able to
//! present. Within a set, the family of lowest index is taken.
use vstd::prelude::*;

use crate::error::{Error, Unsuitable};

verus! {

/// Queue flag: the family supports graphics.
pub const QUEUE_GRAPHICS: u32 = 0x1;
/// Queue flag: the family supports compute.
pub const QUEUE_COMPUTE: u32 = 0x2;
/// Queue flag: the family supports transfers.
pub const QUEUE_TRANSFER: u32 = 0x4;

/// The properties of a queue family that the choice reads.
#[derive(Debug, Clone, Copy, PartialEq, Eq, Structural)]
pub struct QueueFamily {
    pub queue_count: u32,
    /// Queue flags (`QUEUE_*`).
    pub queue_flags: u32,
}

/// The families and queues chosen for each role.
#[derive(Debug, Clone, Copy, PartialEq, Eq, Structural)]
pub struct QueueIndices {
    pub transfer_family: u32,
    pub transfer_index: u32,
    pub graphics_family: u32,
    pub graphics_index: u32,
    pub present_family: u32,
    pub present_index: u32,
}

/// A set of queue families that the choice considers.
#[derive(Debug, Clone, Copy, PartialEq, Eq, Structural)]
pub enum FamilySet {
    /// Families that can present to the surface.
    Present,
    /// Families that support graphics.
    Graphics,
    /// Families that support transfers.
    Transfer,
    /// Transfer families that support neither graphics nor presentation.
    TransferOnly,
    /// Transfer families that do not support graphics.
    TransferNotGraphics,
    /// Transfer families that cannot present.
    TransferNotPresent,
    /// Graphics families that can present, other than the transfer family.
    GraphicsPresentNotTransfer,
    /// Graphics families other than the transfer family.
    GraphicsNotTransfer,
    /// Present families other than the transfer family.
    PresentNotTransfer,
}

/// Family `i` exists and has at least one queue.
pub open spec fn usable(f: Seq<QueueFamily>, i: int) -> bool {
    0 <= i < f.len() && f[i].queue_count >= 1
}

pub open spec fn can_present(f: Seq<QueueFamily>, present: Seq<bool>, i: int) -> bool {
    usable(f, i) && present[i]
}

/// Family `i` is usable and has the graphics bit among its queue flags.
pub open spec fn does_graphics(f: Seq<QueueFamily>, i: int) -> bool {
    usable(f, i) && f[i].queue_flags & QUEUE_GRAPHICS != 0
}

pub open spec fn does_transfer(f: Seq<QueueFamily>, i: int) -> bool {
    usable(f, i) && f[i].queue_flags & QUEUE_TRANSFER != 0
}

/// Family `i` belongs to `set`, where `tf` is the transfer family already chosen.
pub open spec fn member(f: Seq<QueueFamily>, present: Seq<bool>, set: FamilySet, tf: int, i: int) -> bool {
    let p = can_present(f, present, i);
    let g = does_graphics(f, i);
    let t = does_transfer(f, i);
    match set {
        FamilySet::Present => p,
        FamilySet::Graphics => g,
        FamilySet::Transfer => t,
        FamilySet::TransferOnly => t && !g && !p,
        FamilySet::TransferNotGraphics => t && !g,
        FamilySet::TransferNotPresent => t && !p,
        FamilySet::GraphicsPresentNotTransfer => g && p && i != tf,
        FamilySet::GraphicsNotTransfer => g && i != tf,
        FamilySet::PresentNotTransfer => p && i != tf,
    }
}

/// The lowest member of `set` from index `i` on.
pub open spec fn lowest_from(f: Seq<QueueFamily>, present: Seq<bool>, set: FamilySet, tf: int, i: int) -> Option<int>
    decreases f.len() - i,
{
    if i < 0 || i >= f.len() {
        None
    } else if member(f, present, set, tf, i) {
        Some(i)
    } else {
        lowest_from(f, present, set, tf, i + 1)
    }
}

/// The lowest member of `set`.
pub open spec fn lowest(f: Seq<QueueFamily>, present: Seq<bool>, set: FamilySet, tf: int) -> Option<int> {
    lowest_from(f, present, set, tf, 0)
}

/// The transfer family: preferably one that supports neither graphics nor
/// presentation, then one without graphics, then one that cannot present, then any.
pub open spec fn transfer_choice(f: Seq<QueueFamily>, present: Seq<bool>) -> int {
    match lowest(f, present, FamilySet::TransferOnly, 0) {
        Some(i) => i,
        None => match lowest(f, present, FamilySet::TransferNotGraphics, 0) {
            Some(i) => i,
            None => match lowest(f, present, FamilySet::TransferNotPresent, 0) {
                Some(i) => i,
                None => lowest(f, present, FamilySet::Transfer, 0)->0,
            },
        },
    }
}

/// The graphics family and queue: preferably a presenting family other than the
/// transfer family, then any other family; otherwise the transfer family itself,
/// using its second queue when it has three or more, its first when it has two,
/// and none when it has one.
pub open spec fn graphics_choice(f: Seq<QueueFamily>, present: Seq<bool>, tf: int) -> Option<(int, int)> {
    match lowest(f, present, FamilySet::GraphicsPresentNotTransfer, tf) {
        Some(i) => Some((i, 0)),
        None => match lowest(f, present, FamilySet::GraphicsNotTransfer, tf) {
            Some(i) => Some((i, 0)),
            None => {
                let qc = f[tf].queue_count;
                if qc >= 3 {
                    Some((tf, 1))
                } else if qc >= 2 {
                    Some((tf, 0))
                } else {
                    None
                }
            },
        },
    }
}

/// The present family and queue: the graphics queue when its family can present;
/// otherwise the lowest presenting family other than the transfer family; only when
/// there is none, the transfer family, using its second queue when it has two or more.
/// Falling back to the transfer family only when no other family can present is
/// deliberate: a test for more than one other presenting family would skip a single
/// one and could choose a family that cannot present.
pub open spec fn present_choice(f: Seq<QueueFamily>, present: Seq<bool>, tf: int, gf: int, gi: int) -> (int, int) {
    if can_present(f, present, gf) {
        (gf, gi)
    } else if lowest(f, present, FamilySet::PresentNotTransfer, tf) is Some {
        (lowest(f, present, FamilySet::PresentNotTransfer, tf)->0, 0)
    } else if f[tf].queue_count >= 2 {
        (tf, 1)
    } else {
        (tf, 0)
    }
}

/// The whole choice, or why the device's queues do not suffice.
pub open spec fn select_queues(f: Seq<QueueFamily>, present: Seq<bool>) -> Result<QueueIndices, Unsuitable> {
    if lowest(f, present, FamilySet::Present, 0) is None {
        Err(Unsuitable::NoPresentQueue)
    } else if lowest(f, present, FamilySet::Graphics, 0) is None {
        Err(Unsuitable::NoGraphicsQueue)
    } else if lowest(f, present, FamilySet::Transfer, 0) is None {
        Err(Unsuitable::NoTransferQueue)
    } else {
        let tf = transfer_choice(f, present);
        match graphics_choice(f, present, tf) {
            None => Err(Unsuitable::NotEnoughQueues),
            Some((gf, gi)) => {
                let (pf, pi) = present_choice(f, present, tf, gf, gi);
                Ok(QueueIndices {
                    transfer_family: tf as u32,
                    transfer_index: 0,
                    graphics_family: gf as u32,
                    graphics_index: gi as u32,
                    present_family: pf as u32,
                    present_index: pi as u32,
                })
            },
        }
    }
}

/// What `lowest_from` finds: the first member from `i` on.
pub proof fn lemma_lowest_from(f: Seq<QueueFamily>, present: Seq<bool>, set: FamilySet, tf: int, i: int)
    requires
        i >= 0,
    ensures
        lowest_from(f, present, set, tf, i) matches Some(k) ==> i <= k < f.len()
            && member(f, present, set, tf, k)
            && forall|j: int| i <= j < k ==> !member(f, present, set, tf, j),
        lowest_from(f, present, set, tf, i) is None ==> forall|j: int|
            i <= j < f.len() ==> !member(f, present, set, tf, j),
    decreases f.len() - i,
{
    if i < f.len() && !member(f, present, set, tf, i) {
        lemma_lowest_from(f, present, set, tf, i + 1);
    }
}

/// The lowest member of `set` at index `start` or above.
fn lowest_member(
    families: &Vec<QueueFamily>,
    present: &Vec<bool>,
    set: FamilySet,
    tf: usize,
    start: usize,
) -> (r: Option<usize>)
    requires
        present@.len() == families@.len(),
    ensures
        r matches Some(i) ==> lowest_from(families@, present@, set, tf as int, start as int) == Some(i as int)
            && i < families@.len(),
        r is None ==> lowest_from(families@, present@, set, tf as int, start as int) is None,
{
    let n = families.len();
    let mut i = start;
    if i >= n {
        return None;
    }
    while i < n
        invariant
            start <= i <= n,
            n == families@.len(),
            present@.len() == n,
            lowest_from(families@, present@, set, tf as int, start as int)
                == lowest_from(families@, present@, set, tf as int, i as int),
        decreases n - i,
    {
        let fam = families[i];
        let usable = fam.queue_count >= 1;
        let p = usable && present[i];
        let g = usable && fam.queue_flags & QUEUE_GRAPHICS != 0;
        let t = usable && fam.queue_flags & QUEUE_TRANSFER != 0;
        let is_member = match set {
            FamilySet::Present => p,
            FamilySet::Graphics => g,
            FamilySet::Transfer => t,
            FamilySet::TransferOnly => t && !g && !p,
            FamilySet::TransferNotGraphics => t && !g,
            FamilySet::TransferNotPresent => t && !p,
            FamilySet::GraphicsPresentNotTransfer => g && p && i != tf,
            FamilySet::GraphicsNotTransfer => g && i != tf,
            FamilySet::PresentNotTransfer => p && i != tf,
        };
        assert(is_member == member(families@, present@, set, tf as int, i as int));
        if is_member {
            return Some(i);
        }
        i = i + 1;
    }
    None
}

impl QueueIndices {
    /// Chooses the queues from the device's queue families and, for each family,
    /// whether it can present to the surface. Fails when no usable family presents,
    /// does graphics or does transfers, or when graphics would have to share a
    /// single-queue transfer family.
    pub fn new(families: &Vec<QueueFamily>, present_support: &Vec<bool>) -> (r: Result<QueueIndices, Error>)
        requires
            present_support@.len() == families@.len(),
            families@.len() <= u32::MAX,
        ensures
            match select_queues(families@, present_support@) {
                Ok(q) => r == Ok::<QueueIndices, Error>(q),
                Err(u) => r == Err::<QueueIndices, Error>(Error::DeviceNotSuitable(u)),
            },
            r matches Ok(q) ==> present_support@[q.present_family as int] && q.present_family < families@.len(),
            r matches Ok(q) ==> transfer_preference(families@, present_support@, q.transfer_family as int),
    {
        let ghost f = families@;
        let ghost pr = present_support@;
        if lowest_member(families, present_support, FamilySet::Present, 0, 0).is_none() {
            return Err(Error::DeviceNotSuitable(Unsuitable::NoPresentQueue));
        }
        if lowest_member(families, present_support, FamilySet::Graphics, 0, 0).is_none() {
            return Err(Error::DeviceNotSuitable(Unsuitable::NoGraphicsQueue));
        }
        let any_transfer = match lowest_member(families, present_support, FamilySet::Transfer, 0, 0) {
            None => {
                return Err(Error::DeviceNotSuitable(Unsuitable::NoTransferQueue));
            },
            Some(i) => i,
        };
        proof {
            lemma_lowest_from(f, pr, FamilySet::Transfer, 0, 0);
        }

        // The transfer queue is preferably apart from the graphics queue.
        let transfer_family = match lowest_member(families, present_support, FamilySet::TransferOnly, 0, 0) {
            Some(i) => i,
            None => match lowest_member(families, present_support, FamilySet::TransferNotGraphics, 0, 0) {
                Some(i) => i,
                None => match lowest_member(families, present_support, FamilySet::TransferNotPresent, 0, 0) {
                    Some(i) => i,
                    None => any_transfer,
                },
            },
        };
        assert(transfer_family as int == transfer_choice(f, pr));
        proof {
            lemma_lowest_from(f, pr, FamilySet::TransferOnly, 0, 0);
            lemma_lowest_from(f, pr, FamilySet::TransferNotGraphics, 0, 0);
            lemma_lowest_from(f, pr, FamilySet::TransferNotPresent, 0, 0);
        }
        let tf = transfer_family;

        // Graphics is preferably apart from transfer and on a presenting family.
        let (graphics_family, graphics_index) = match lowest_member(
            families, present_support, FamilySet::GraphicsPresentNotTransfer, tf, 0) {
            Some(i) => (i, 0u32),
            None => match lowest_member(families, present_support, FamilySet::GraphicsNotTransfer, tf, 0) {
                Some(i) => (i, 0u32),
                None => {
                    let qc = families[tf].queue_count;
                    if qc >= 3 {
                        (tf, 1u32)
                    } else if qc >= 2 {
                        (tf, 0u32)
                    } else {
                        return Err(Error::DeviceNotSuitable(Unsuitable::NotEnoughQueues));
                    }
                },
            },
        };
        assert(graphics_choice(f, pr, tf as int) == Some((graphics_family as int, graphics_index as int)));
        proof {
            lemma_lowest_from(f, pr, FamilySet::GraphicsPresentNotTransfer, tf as int, 0);
            lemma_lowest_from(f, pr, FamilySet::GraphicsNotTransfer, tf as int, 0);
        }

        let gf = families[graphics_family];
        let (present_family, present_index) = if gf.queue_count >= 1 && present_support[graphics_family] {
            (graphics_family, graphics_index)
        } else {
            match lowest_member(families, present_support, FamilySet::PresentNotTransfer, tf, 0) {
                Some(i) => (i, 0u32),
                None => {
                    if families[tf].queue_count >= 2 {
                        (tf, 1u32)
                    } else {
                        (tf, 0u32)
                    }
                },
            }
        };
        assert(present_choice(f, pr, tf as int, graphics_family as int, graphics_index as int)
            == (present_family as int, present_index as int));
        proof {
            lemma_queue_choice_sound(f, pr);
            lemma_transfer_preference(f, pr);
        }
        Ok(QueueIndices {
            transfer_family: transfer_family as u32,
            transfer_index: 0,
            graphics_family: graphics_family as u32,
            graphics_index: graphics_index,
            present_family: present_family as u32,
            present_index: present_index,
        })
    }
}

/// The chosen transfer family does transfers and the graphics family does graphics;
/// every chosen queue exists in its family; the present family can present; the
/// present queue is the graphics queue
/// whenever the graphics family can present; and a transfer family apart from
/// graphics and presentation is taken whenever one exists.
pub proof fn lemma_queue_choice_sound(f: Seq<QueueFamily>, present: Seq<bool>)
    requires
        present.len() == f.len(),
        f.len() <= u32::MAX,
    ensures
        select_queues(f, present) matches Ok(q) ==> {
            &&& does_transfer(f, q.transfer_family as int)
            &&& does_graphics(f, q.graphics_family as int)
            &&& q.transfer_index < f[q.transfer_family as int].queue_count
            &&& q.graphics_index < f[q.graphics_family as int].queue_count
            &&& q.present_family < f.len()
            &&& q.present_index < f[q.present_family as int].queue_count
            &&& can_present(f, present, q.present_family as int)
            &&& can_present(f, present, q.graphics_family as int) ==> q.present_family == q.graphics_family
                && q.present_index == q.graphics_index
            &&& (exists|i: int| member(f, present, FamilySet::TransferOnly, 0, i))
                ==> member(f, present, FamilySet::TransferOnly, 0, q.transfer_family as int)
        },
{
    lemma_lowest_from(f, present, FamilySet::Transfer, 0, 0);
    lemma_lowest_from(f, present, FamilySet::TransferOnly, 0, 0);
    lemma_lowest_from(f, present, FamilySet::TransferNotGraphics, 0, 0);
    lemma_lowest_from(f, present, FamilySet::TransferNotPresent, 0, 0);
    if let Ok(q) = select_queues(f, present) {
        let tf = transfer_choice(f, present);
        lemma_lowest_from(f, present, FamilySet::GraphicsPresentNotTransfer, tf, 0);
        lemma_lowest_from(f, present, FamilySet::GraphicsNotTransfer, tf, 0);
        lemma_lowest_from(f, present, FamilySet::PresentNotTransfer, tf, 0);
        lemma_lowest_from(f, present, FamilySet::Graphics, 0, 0);
        lemma_lowest_from(f, present, FamilySet::Present, 0, 0);
        if !can_present(f, present, q.graphics_family as int)
            && lowest(f, present, FamilySet::PresentNotTransfer, tf) is None {
            let p0 = lowest(f, present, FamilySet::Present, 0)->0;
            assert(can_present(f, present, p0));
            assert(!member(f, present, FamilySet::PresentNotTransfer, tf, p0));
            assert(p0 == tf);
        }
        if lowest(f, present, FamilySet::GraphicsPresentNotTransfer, tf) is None
            && lowest(f, present, FamilySet::GraphicsNotTransfer, tf) is None {
            let g = lowest(f, present, FamilySet::Graphics, 0)->0;
            assert(does_graphics(f, g));
            assert(!member(f, present, FamilySet::GraphicsNotTransfer, tf, g));
        }
    }
}

/// Family `i` exists, has a queue and supports transfers.
pub open spec fn transfer_family_ok(f: Seq<QueueFamily>, i: int) -> bool {
    0 <= i < f.len() && f[i].queue_count >= 1 && f[i].queue_flags & QUEUE_TRANSFER != 0
}

pub open spec fn transfer_only(f: Seq<QueueFamily>, present: Seq<bool>, i: int) -> bool {
    transfer_family_ok(f, i) && f[i].queue_flags & QUEUE_GRAPHICS == 0 && !present[i]
}

pub open spec fn transfer_not_graphics(f: Seq<QueueFamily>, present: Seq<bool>, i: int) -> bool {
    transfer_family_ok(f, i) && f[i].queue_flags & QUEUE_GRAPHICS == 0
}

pub open spec fn transfer_not_present(f: Seq<QueueFamily>, present: Seq<bool>, i: int) -> bool {
    transfer_family_ok(f, i) && !present[i]
}

pub open spec fn transfer_any(f: Seq<QueueFamily>, present: Seq<bool>, i: int) -> bool {
    transfer_family_ok(f, i)
}

/// `t` is the lowest family of the first kind, in this order of preference, that has
/// any member: transfer families without graphics that cannot present, then transfer
/// families without graphics, then transfer families that cannot present, then any
/// transfer family.
pub open spec fn transfer_preference(f: Seq<QueueFamily>, present: Seq<bool>, t: int) -> bool {
    if exists|i: int| #[trigger] transfer_only(f, present, i) {
        transfer_only(f, present, t) && forall|j: int| 0 <= j < t ==> !#[trigger] transfer_only(f, present, j)
    } else if exists|i: int| #[trigger] transfer_not_graphics(f, present, i) {
        transfer_not_graphics(f, present, t) && forall|j: int| 0 <= j < t ==> !#[trigger] transfer_not_graphics(f, present, j)
    } else if exists|i: int| #[trigger] transfer_not_present(f, present, i) {
        transfer_not_present(f, present, t) && forall|j: int| 0 <= j < t ==> !#[trigger] transfer_not_present(f, present, j)
    } else {
        transfer_any(f, present, t) && forall|j: int| 0 <= j < t ==> !#[trigger] transfer_any(f, present, j)
    }
}

/// Transfers go to a family apart from graphics and presentation when there is one,
/// else to one without graphics, else to one that cannot present, else to any transfer
/// family; within each kind the lowest family is taken.
pub proof fn lemma_transfer_preference(f: Seq<QueueFamily>, present: Seq<bool>)
    requires
        present.len() == f.len(),
        f.len() <= u32::MAX,
    ensures
        select_queues(f, present) matches Ok(q) ==> transfer_preference(f, present, q.transfer_family as int),
        lowest(f, present, FamilySet::Transfer, 0) is Some ==> transfer_preference(f, present,
            transfer_choice(f, present)),
{
    lemma_lowest_from(f, present, FamilySet::TransferOnly, 0, 0);
    assert forall|i: int| #[trigger] transfer_only(f, present, i) <==> member(f, present, FamilySet::TransferOnly, 0, i) by {}
    lemma_lowest_from(f, present, FamilySet::TransferNotGraphics, 0, 0);
    assert forall|i: int| #[trigger] transfer_not_graphics(f, present, i) <==> member(f, present, FamilySet::TransferNotGraphics, 0, i) by {}
    lemma_lowest_from(f, present, FamilySet::TransferNotPresent, 0, 0);
    assert forall|i: int| #[trigger] transfer_not_present(f, present, i) <==> member(f, present, FamilySet::TransferNotPresent, 0, i) by {}
    lemma_lowest_from(f, present, FamilySet::Transfer, 0, 0);
    assert forall|i: int| #[trigger] transfer_any(f, present, i) <==> member(f, present, FamilySet::Transfer, 0, i) by {}
    if lowest(f, present, FamilySet::Transfer, 0) is Some {
        if let Some(k) = lowest(f, present, FamilySet::TransferOnly, 0) {
            assert(member(f, present, FamilySet::TransferOnly, 0, k));
            assert(transfer_only(f, present, k));
        }
        if let Some(k) = lowest(f, present, FamilySet::TransferNotGraphics, 0) {
            assert(member(f, present, FamilySet::TransferNotGraphics, 0, k));
            assert(transfer_not_graphics(f, present, k));
        }
        if let Some(k) = lowest(f, present, FamilySet::TransferNotPresent, 0) {
            assert(member(f, present, FamilySet::TransferNotPresent, 0, k));
            assert(transfer_not_present(f, present, k));
        }
        let tc = transfer_choice(f, present);
        assert(0 <= tc < f.len());
        let t = tc;
        if exists|i: int| #[trigger] transfer_only(f, present, i) {
            let w = choose|i: int| #[trigger] transfer_only(f, present, i);
            assert(member(f, present, FamilySet::TransferOnly, 0, w));
            assert forall|j: int| 0 <= j < t implies !#[trigger] transfer_only(f, present, j) by {
                assert(!member(f, present, FamilySet::TransferOnly, 0, j));
            }
        }
        if !(exists|i: int| #[trigger] transfer_only(f, present, i)) && exists|i: int| #[trigger] transfer_not_graphics(f, present, i) {
            let w = choose|i: int| #[trigger] transfer_not_graphics(f, present, i);
            assert(member(f, present, FamilySet::TransferNotGraphics, 0, w));
            assert forall|j: int| 0 <= j < t implies !#[trigger] transfer_not_graphics(f, present, j) by {
                assert(!member(f, present, FamilySet::TransferNotGraphics, 0, j));
            }
        }
        if !(exists|i: int| #[trigger] transfer_only(f, present, i)) && !(exists|i: int| #[trigger] transfer_not_graphics(f, present, i)) && exists|i: int| #[trigger] transfer_not_present(f, present, i) {
            let w = choose|i: int| #[trigger] transfer_not_present(f, present, i);
            assert(member(f, present, FamilySet::TransferNotPresent, 0, w));
            assert forall|j: int| 0 <= j < t implies !#[trigger] transfer_not_present(f, present, j) by {
                assert(!member(f, present, FamilySet::TransferNotPresent, 0, j));
            }
        }
        if !(exists|i: int| #[trigger] transfer_only(f, present, i)) && !(exists|i: int| #[trigger] transfer_not_graphics(f, present, i)) && !(exists|i: int| #[trigger] transfer_not_present(f, present, i)) && exists|i: int| #[trigger] transfer_any(f, present, i) {
            let w = choose|i: int| #[trigger] transfer_any(f, present, i);
            assert(member(f, present, FamilySet::Transfer, 0, w));
            assert forall|j: int| 0 <= j < t implies !#[trigger] transfer_any(f, present, j) by {
                assert(!member(f, present, FamilySet::Transfer, 0, j));
            }
        }
    }
    if let Ok(q) = select_queues(f, present) {
        assert(q.transfer_family as int == transfer_choice(f, present));
    }
}

/// Family `i` does graphics, can present and is not the transfer family `t`.
pub open spec fn graphics_presenting_apart(f: Seq<QueueFamily>, present: Seq<bool>, t: int, i: int) -> bool {
    does_graphics(f, i) && can_present(f, present, i) && i != t
}

/// Family `i` does graphics and is not the transfer family `t`.
pub open spec fn graphics_apart(f: Seq<QueueFamily>, t: int, i: int) -> bool {
    does_graphics(f, i) && i != t
}

/// Family `i` can present and is not the transfer family `t`.
pub open spec fn presenting_apart(f: Seq<QueueFamily>, present: Seq<bool>, t: int, i: int) -> bool {
    can_present(f, present, i) && i != t
}

/// Given the transfer family `t`, the graphics queue `(g, gi)` is queue 0 of the lowest
/// presenting graphics family other than `t` when there is one, else of the lowest
/// graphics family other than `t`; only when every graphics family is `t` does graphics
/// share `t`, on its second queue when it has three or more and on its first otherwise.
pub open spec fn graphics_preference(f: Seq<QueueFamily>, present: Seq<bool>, t: int, g: int, gi: int) -> bool {
    if exists|i: int| #[trigger] graphics_presenting_apart(f, present, t, i) {
        &&& graphics_presenting_apart(f, present, t, g)
        &&& gi == 0
        &&& forall|j: int| 0 <= j < g ==> !#[trigger] graphics_presenting_apart(f, present, t, j)
    } else if exists|i: int| #[trigger] graphics_apart(f, t, i) {
        &&& graphics_apart(f, t, g)
        &&& gi == 0
        &&& forall|j: int| 0 <= j < g ==> !#[trigger] graphics_apart(f, t, j)
    } else {
        &&& g == t
        &&& f[t].queue_count >= 2
        &&& gi == (if f[t].queue_count >= 3 { 1int } else { 0int })
    }
}

/// Given the transfer family `t` and the graphics queue `(g, gi)`, the present queue
/// `(p, pi)` is the graphics queue when its family can present; else queue 0 of the lowest
/// presenting family other than `t`; else `t` itself, on its second queue when it has two
/// or more.
pub open spec fn present_queue_preference(
    f: Seq<QueueFamily>,
    present: Seq<bool>,
    t: int,
    g: int,
    gi: int,
    p: int,
    pi: int,
) -> bool {
    if can_present(f, present, g) {
        p == g && pi == gi
    } else if exists|i: int| #[trigger] presenting_apart(f, present, t, i) {
        &&& presenting_apart(f, present, t, p)
        &&& pi == 0
        &&& forall|j: int| 0 <= j < p ==> !#[trigger] presenting_apart(f, present, t, j)
    } else {
        p == t && pi == (if f[t].queue_count >= 2 { 1int } else { 0int })
    }
}

/// When the device's queues fall short, and which shortfall is reported: no usable
/// presenting family, else no usable graphics family, else no usable transfer family,
/// else graphics would have to share the chosen transfer family while it has a single
/// queue. Otherwise the graphics and present queues follow their orders of preference.
pub proof fn lemma_queue_outcome(f: Seq<QueueFamily>, present: Seq<bool>)
    requires
        present.len() == f.len(),
        f.len() <= u32::MAX,
    ensures
        (select_queues(f, present) == Err::<QueueIndices, Unsuitable>(Unsuitable::NoPresentQueue))
            <==> !exists|i: int| #[trigger] can_present(f, present, i),
        (select_queues(f, present) == Err::<QueueIndices, Unsuitable>(Unsuitable::NoGraphicsQueue))
            <==> (exists|i: int| #[trigger] can_present(f, present, i))
                && !exists|i: int| #[trigger] does_graphics(f, i),
        (select_queues(f, present) == Err::<QueueIndices, Unsuitable>(Unsuitable::NoTransferQueue))
            <==> (exists|i: int| #[trigger] can_present(f, present, i))
                && (exists|i: int| #[trigger] does_graphics(f, i))
                && !exists|i: int| #[trigger] does_transfer(f, i),
        select_queues(f, present) == Err::<QueueIndices, Unsuitable>(Unsuitable::NotEnoughQueues) ==> exists|t: int| #![trigger transfer_preference(f, present, t)] {
            &&& transfer_preference(f, present, t)
            &&& f[t].queue_count < 2
            &&& forall|i: int| #[trigger] does_graphics(f, i) ==> i == t
        },
        select_queues(f, present) matches Ok(q) ==> {
            &&& graphics_preference(f, present, q.transfer_family as int, q.graphics_family as int,
                q.graphics_index as int)
            &&& present_queue_preference(f, present, q.transfer_family as int, q.graphics_family as int,
                q.graphics_index as int, q.present_family as int, q.present_index as int)
        },
{
    lemma_lowest_from(f, present, FamilySet::Present, 0, 0);
    lemma_lowest_from(f, present, FamilySet::Graphics, 0, 0);
    lemma_lowest_from(f, present, FamilySet::Transfer, 0, 0);
    lemma_transfer_preference(f, present);
    assert forall|i: int| #[trigger] can_present(f, present, i) <==> member(f, present, FamilySet::Present, 0, i) by {}
    assert forall|i: int| #[trigger] does_graphics(f, i) <==> member(f, present, FamilySet::Graphics, 0, i) by {}
    assert forall|i: int| #[trigger] does_transfer(f, i) <==> member(f, present, FamilySet::Transfer, 0, i) by {}
    if let Some(k) = lowest(f, present, FamilySet::Present, 0) {
        assert(can_present(f, present, k));
    }
    if let Some(k) = lowest(f, present, FamilySet::Graphics, 0) {
        assert(does_graphics(f, k));
    }
    if let Some(k) = lowest(f, present, FamilySet::Transfer, 0) {
        assert(does_transfer(f, k));
    }
    if lowest(f, present, FamilySet::Present, 0) is Some && lowest(f, present, FamilySet::Graphics, 0) is Some
        && lowest(f, present, FamilySet::Transfer, 0) is Some {
        let t = transfer_choice(f, present);
        lemma_lowest_from(f, present, FamilySet::GraphicsPresentNotTransfer, t, 0);
        lemma_lowest_from(f, present, FamilySet::GraphicsNotTransfer, t, 0);
        lemma_lowest_from(f, present, FamilySet::PresentNotTransfer, t, 0);
        assert forall|i: int| #[trigger] graphics_presenting_apart(f, present, t, i)
            <==> member(f, present, FamilySet::GraphicsPresentNotTransfer, t, i) by {}
        assert forall|i: int| #[trigger] graphics_apart(f, t, i)
            <==> member(f, present, FamilySet::GraphicsNotTransfer, t, i) by {}
        assert forall|i: int| #[trigger] presenting_apart(f, present, t, i)
            <==> member(f, present, FamilySet::PresentNotTransfer, t, i) by {}
        if let Some(k) = lowest(f, present, FamilySet::GraphicsPresentNotTransfer, t) {
            assert(graphics_presenting_apart(f, present, t, k));
        }
        if let Some(k) = lowest(f, present, FamilySet::GraphicsNotTransfer, t) {
            assert(graphics_apart(f, t, k));
        }
        if let Some(k) = lowest(f, present, FamilySet::PresentNotTransfer, t) {
            assert(presenting_apart(f, present, t, k));
        }
        if lowest(f, present, FamilySet::GraphicsNotTransfer, t) is None {
            assert forall|i: int| #[trigger] does_graphics(f, i) implies i == t by {
                assert(!member(f, present, FamilySet::GraphicsNotTransfer, t, i));
            }
        }
        if exists|i: int| #[trigger] graphics_presenting_apart(f, present, t, i) {
            let w = choose|i: int| #[trigger] graphics_presenting_apart(f, present, t, i);
            assert(member(f, present, FamilySet::GraphicsPresentNotTransfer, t, w));
        }
        if exists|i: int| #[trigger] graphics_apart(f, t, i) {
            let w = choose|i: int| #[trigger] graphics_apart(f, t, i);
            assert(member(f, present, FamilySet::GraphicsNotTransfer, t, w));
        }
        if exists|i: int| #[trigger] presenting_apart(f, present, t, i) {
            let w = choose|i: int| #[trigger] presenting_apart(f, present, t, i);
            assert(member(f, present, FamilySet::PresentNotTransfer, t, w));
        }
    }
}

} // verus!
