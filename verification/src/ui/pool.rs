//! The pool that gives out handles for pictures: numbers by which the
//! logic thread names what the render thread keeps.

use crate::ui::id_set::{bits, bits_contains, bits_insert, bits_new, bits_remove};
use crate::ui::loader::Loader;
use crate::ui::mailbox::{Mailbox, UiMsg};
use bit_set::BitSet;
use vstd::prelude::*;

verus! {

/// `id` is the lowest number that `used` does not hold.
pub open spec fn is_lowest_free(used: Set<usize>, id: usize) -> bool {
    !used.contains(id) && forall|j: usize| j < id ==> used.contains(j)
}

/// A handle for a picture. Whoever holds it may have the picture drawn; it
/// goes back to the pool that gave it out when the picture is no longer
/// needed.
pub struct OpaqueImg {
    id: usize,
}

impl OpaqueImg {
    /// The number of the picture.
    pub closed spec fn id(&self) -> usize {
        self.id
    }

    /// The number of the picture.
    pub fn get_id(&self) -> (id: usize)
        ensures
            id == self.id(),
    {
        self.id
    }
}

/// Gives out handles on the logic thread.
pub struct LogicImgPool {
    used_ids: BitSet,
}

impl LogicImgPool {
    /// The numbers of the handles that are out.
    pub closed spec fn used(&self) -> Set<usize> {
        bits(self.used_ids)
    }

    /// A pool with no handle out.
    pub fn new() -> (pool: Self)
        ensures
            pool.used() == Set::<usize>::empty(),
    {
        LogicImgPool { used_ids: bits_new() }
    }

    /// Gives out a handle with the lowest number that no handle out has,
    /// and asks the render thread to make the picture of `f` under that
    /// number. The picture is made later: the handle can be used at once,
    /// and drawing it shows nothing until then. There is no handle left
    /// only if every number below `usize::MAX` is out.
    pub fn allocate<S, K, W>(&mut self, f: Loader, mailbox: &mut Mailbox<S, K, W>) -> (handle: Option<
        OpaqueImg,
    >)
        ensures
            match handle {
                Some(img) => {
                    &&& img.id() < usize::MAX
                    &&& is_lowest_free(old(self).used(), img.id())
                    &&& final(self).used() == old(self).used().insert(img.id())
                    &&& final(mailbox)@ == old(mailbox)@.push(UiMsg::LoadImage(img.id(), f))
                },
                None => {
                    &&& forall|j: usize| j < usize::MAX ==> old(self).used().contains(j)
                    &&& final(self).used() == old(self).used()
                    &&& final(mailbox)@ == old(mailbox)@
                },
            },
    {
        let mut id: usize = 0;
        while id < usize::MAX && bits_contains(&self.used_ids, id)
            invariant
                forall|j: usize| j < id ==> bits(self.used_ids).contains(j),
            decreases usize::MAX - id,
        {
            id = id + 1;
        }
        if id == usize::MAX {
            return None;
        }
        let _ = bits_insert(&mut self.used_ids, id);
        mailbox.send(UiMsg::LoadImage(id, f));
        Some(OpaqueImg { id })
    }

    /// The same as `allocate`, for a boxed picture.
    pub fn alloc_box<S, K, W>(&mut self, f: Box<Loader>, mailbox: &mut Mailbox<S, K, W>) -> (handle:
        Option<OpaqueImg>)
        ensures
            match handle {
                Some(img) => {
                    &&& img.id() < usize::MAX
                    &&& is_lowest_free(old(self).used(), img.id())
                    &&& final(self).used() == old(self).used().insert(img.id())
                    &&& final(mailbox)@ == old(mailbox)@.push(UiMsg::LoadImage(img.id(), *f))
                },
                None => {
                    &&& forall|j: usize| j < usize::MAX ==> old(self).used().contains(j)
                    &&& final(self).used() == old(self).used()
                    &&& final(mailbox)@ == old(mailbox)@
                },
            },
    {
        self.allocate(*f, mailbox)
    }

    /// Takes a handle back: its number is free again, and the render thread
    /// is asked to let go of the picture.
    pub fn dealloc<S, K, W>(&mut self, img: OpaqueImg, mailbox: &mut Mailbox<S, K, W>)
        ensures
            final(self).used() == old(self).used().remove(img.id()),
            final(mailbox)@ == old(mailbox)@.push(UiMsg::UnloadImage(img.id())),
    {
        let _ = bits_remove(&mut self.used_ids, img.id);
        mailbox.send(UiMsg::UnloadImage(img.id));
    }
}

} // verus!

verus! {

/// What is done to a pool: a handle is given out, or the handle that
/// stands at the given place among the handles that are out goes back.
pub enum PoolOp {
    Allocate,
    Dealloc(int),
}

/// A pool and the handles that it has given out and not yet taken back, by
/// their numbers, in the order in which they were given out.
pub struct PoolState {
    pub used: Set<usize>,
    pub live: Seq<usize>,
}

/// The lowest number that `used` does not hold.
pub open spec fn lowest_free(used: Set<usize>) -> usize {
    choose|id: usize| is_lowest_free(used, id)
}

/// The pool after `op`, as `allocate` and `dealloc` leave it.
pub open spec fn pool_step(s: PoolState, op: PoolOp) -> PoolState {
    match op {
        PoolOp::Allocate => {
            if exists|id: usize| is_lowest_free(s.used, id) {
                let id = lowest_free(s.used);
                PoolState { used: s.used.insert(id), live: s.live.push(id) }
            } else {
                s
            }
        },
        PoolOp::Dealloc(k) => {
            if 0 <= k < s.live.len() {
                PoolState { used: s.used.remove(s.live[k]), live: s.live.remove(k) }
            } else {
                s
            }
        },
    }
}

/// A new pool after `ops`, one after the other.
pub open spec fn pool_run(ops: Seq<PoolOp>) -> PoolState
    decreases ops.len(),
{
    if ops.len() == 0 {
        PoolState { used: Set::empty(), live: Seq::empty() }
    } else {
        pool_step(pool_run(ops.drop_last()), ops.last())
    }
}

/// Whatever is done to a pool, no two handles that are out have the same
/// number, and a number is in use exactly while a handle with it is out: a
/// number is free again as soon as its handle has gone back.
pub proof fn lemma_live_handles_distinct(ops: Seq<PoolOp>)
    ensures
        pool_run(ops).live.no_duplicates(),
        forall|id: usize| pool_run(ops).used.contains(id) <==> pool_run(ops).live.contains(id),
    decreases ops.len(),
{
    if ops.len() > 0 {
        lemma_live_handles_distinct(ops.drop_last());
        let s = pool_run(ops.drop_last());
        let t = pool_run(ops);
        match ops.last() {
            PoolOp::Allocate => {
                if exists|id: usize| is_lowest_free(s.used, id) {
                    let id = lowest_free(s.used);
                    assert(!s.live.contains(id));
                    assert forall|x: usize| t.used.contains(x) <==> t.live.contains(x) by {
                        if t.live.contains(x) {
                            let i = choose|i: int| 0 <= i < t.live.len() && t.live[i] == x;
                            if i < s.live.len() {
                                assert(s.live[i] == x);
                            }
                        }
                        if s.live.contains(x) {
                            let i = choose|i: int| 0 <= i < s.live.len() && s.live[i] == x;
                            assert(t.live[i] == x);
                        }
                        if x == id {
                            assert(t.live[s.live.len() as int] == x);
                        }
                    }
                    assert forall|i: int, j: int|
                        0 <= i < t.live.len() && 0 <= j < t.live.len() && i != j implies t.live[i]
                        != t.live[j] by {
                        if i == s.live.len() {
                            assert(s.live[j] == t.live[j]);
                        } else if j == s.live.len() {
                            assert(s.live[i] == t.live[i]);
                        }
                    }
                }
            },
            PoolOp::Dealloc(k) => {
                if 0 <= k < s.live.len() {
                    let gone = s.live[k];
                    assert forall|i: int, j: int|
                        0 <= i < t.live.len() && 0 <= j < t.live.len() && i != j implies t.live[i]
                        != t.live[j] by {
                        let a = if i < k { i } else { i + 1 };
                        let b = if j < k { j } else { j + 1 };
                        assert(t.live[i] == s.live[a] && t.live[j] == s.live[b]);
                    }
                    assert forall|x: usize| t.used.contains(x) <==> t.live.contains(x) by {
                        if t.live.contains(x) {
                            let i = choose|i: int| 0 <= i < t.live.len() && t.live[i] == x;
                            let a = if i < k { i } else { i + 1 };
                            assert(s.live[a] == x);
                            assert(a != k);
                        }
                        if s.live.contains(x) && x != gone {
                            let i = choose|i: int| 0 <= i < s.live.len() && s.live[i] == x;
                            let a = if i < k { i } else { i - 1 };
                            assert(t.live[a] == x);
                        }
                    }
                }
            },
        }
    }
}

} // verus!
