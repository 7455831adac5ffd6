//! The per-frame decisions of the rendering system: the first frame installs
//! the pass chain; later frames pick the first enabled camera and draw the
//! render queue, which holds every mesh that has a render-queue key, sorted by
//! key and then by entity.
use vstd::prelude::*;
use vstd::relations::{sorted_by, total_ordering};

verus! {

broadcast use vstd::seq_lib::group_to_multiset_ensures;

/// One mesh to draw: its render-queue key and the index of its entity.
#[derive(Clone, Copy, Debug, PartialEq, Eq, Structural)]
pub struct RenderQueueItem {
    pub key: u64,
    pub entity_index: u32,
}

/// Whether items come in ascending order of their full `u64` key, and of
/// entity index among equal keys.
pub open spec fn keys_ascending(s: Seq<RenderQueueItem>) -> bool {
    forall|i: int, j: int|
        0 <= i < j < s.len() ==> #[trigger] s[i].key <= #[trigger] s[j].key && (s[i].key == s[j].key
            ==> s[i].entity_index <= s[j].entity_index)
}

/// Items sorted by draw order come in ascending order of key, then entity.
proof fn lemma_sorted_keys_ascending(s: Seq<RenderQueueItem>)
    requires
        sorted_by(s, queue_order()),
    ensures
        keys_ascending(s),
{
    assert forall|i: int, j: int| 0 <= i < j < s.len() implies #[trigger] s[i].key <= #[trigger] s[j].key && (
    s[i].key == s[j].key ==> s[i].entity_index <= s[j].entity_index) by {
        assert((queue_order())(s[i], s[j]));
    }
}

/// Draw order: by key, then by entity index.
pub open spec fn item_le(a: RenderQueueItem, b: RenderQueueItem) -> bool {
    a.key < b.key || (a.key == b.key && a.entity_index <= b.entity_index)
}

/// Draw order as a relation.
pub open spec fn queue_order() -> spec_fn(RenderQueueItem, RenderQueueItem) -> bool {
    |a: RenderQueueItem, b: RenderQueueItem| item_le(a, b)
}

/// Draw order is a total order.
pub proof fn lemma_queue_order_total()
    ensures
        total_ordering(queue_order()),
{
    let r = queue_order();
    assert(vstd::relations::reflexive(r));
    assert(vstd::relations::antisymmetric(r)) by {
        assert forall|x: RenderQueueItem, y: RenderQueueItem| #[trigger] r(x, y) && #[trigger] r(y, x) implies x
            == y by {
            assert(x.key == y.key && x.entity_index == y.entity_index);
        }
    }
    assert(vstd::relations::transitive(r));
    assert(vstd::relations::strongly_connected(r));
}

/// The queue items of the meshes, in order: those with a key, each under its
/// entity's index.
pub open spec fn queued(entries: Seq<(Option<u64>, u32)>) -> Seq<RenderQueueItem>
    decreases entries.len(),
{
    if entries.len() == 0 {
        Seq::empty()
    } else {
        match entries.last().0 {
            Some(k) => queued(entries.drop_last()).push(RenderQueueItem { key: k, entity_index: entries.last().1 }),
            None => queued(entries.drop_last()),
        }
    }
}

/// Inserts `x` after the items that do not come after it, keeping `q` sorted.
fn insert_sorted(q: &mut Vec<RenderQueueItem>, x: RenderQueueItem)
    requires
        sorted_by(old(q)@, queue_order()),
    ensures
        sorted_by(final(q)@, queue_order()),
        keys_ascending(final(q)@),
        final(q)@.to_multiset() == old(q)@.to_multiset().insert(x),
{
    let mut p: usize = 0;
    while p < q.len() && (q[p].key < x.key || (q[p].key == x.key && q[p].entity_index <= x.entity_index))
        invariant
            p <= q.len(),
            forall|j: int| 0 <= j < p ==> item_le(#[trigger] q@[j], x),
        decreases q.len() - p,
    {
        p = p + 1;
    }
    let ghost before = q@;
    q.insert(p, x);
    proof {
        let s = q@;
        assert(s == before.insert(p as int, x));
        assert forall|a: int, b: int| 0 <= a < b < s.len() implies #[trigger] (queue_order())(s[a], s[b]) by {
            if b < p {
                assert(s[a] == before[a] && s[b] == before[b]);
                assert((queue_order())(before[a], before[b]));
            } else if b == p {
                assert(s[a] == before[a]);
            } else if a < p {
                assert(s[a] == before[a] && s[b] == before[b - 1]);
                assert((queue_order())(before[a], before[b - 1]));
            } else if a == p {
                assert(s[b] == before[b - 1]);
                assert(p < before.len());
                assert(!item_le(before[p as int], x));
                assert((queue_order())(before[p as int], before[b - 1]) || b - 1 == p);
            } else {
                assert(s[a] == before[a - 1] && s[b] == before[b - 1]);
                assert((queue_order())(before[a - 1], before[b - 1]));
            }
        }
        vstd::seq_lib::to_multiset_insert(before, p as int, x);
        lemma_sorted_keys_ascending(s);
    }
}

/// The render queue of a frame: the meshes that have a key, sorted by draw
/// order.
pub fn prepare_render_queue(entries: &Vec<(Option<u64>, u32)>) -> (r: Vec<RenderQueueItem>)
    ensures
        r@ == queued(entries@).sort_by(queue_order()),
        keys_ascending(r@),
{
    let mut q: Vec<RenderQueueItem> = Vec::new();
    let mut i: usize = 0;
    while i < entries.len()
        invariant
            i <= entries.len(),
            sorted_by(q@, queue_order()),
            q@.to_multiset() == queued(entries@.subrange(0, i as int)).to_multiset(),
        decreases entries.len() - i,
    {
        let ghost pre = entries@.subrange(0, i as int);
        let ghost next = entries@.subrange(0, i + 1);
        assert(next.drop_last() == pre);
        assert(next.last() == entries@[i as int]);
        match entries[i].0 {
            Some(key) => {
                let x = RenderQueueItem { key, entity_index: entries[i].1 };
                insert_sorted(&mut q, x);
                proof {
                    vstd::seq_lib::to_multiset_build(queued(pre), x);
                }
            },
            None => {},
        }
        i = i + 1;
    }
    proof {
        assert(entries@.subrange(0, entries@.len() as int) == entries@);
        lemma_queue_order_total();
        queued(entries@).lemma_sort_by_ensures(queue_order());
        vstd::seq_lib::lemma_sorted_unique(q@, queued(entries@).sort_by(queue_order()), queue_order());
        lemma_sorted_keys_ascending(q@);
    }
    q
}

/// The render queue is in draw order and holds exactly the meshes that have
/// a key, each once.
pub proof fn lemma_queue_sorted_and_complete(entries: Seq<(Option<u64>, u32)>)
    ensures
        sorted_by(queued(entries).sort_by(queue_order()), queue_order()),
        queued(entries).sort_by(queue_order()).to_multiset() == queued(entries).to_multiset(),
{
    lemma_queue_order_total();
    queued(entries).lemma_sort_by_ensures(queue_order());
}

/// The first enabled camera, if any.
pub fn active_camera(cameras_enabled: &Vec<bool>) -> (r: Option<usize>)
    ensures
        r matches Some(i) ==> i < cameras_enabled@.len() && cameras_enabled@[i as int] && forall|j: int|
            0 <= j < i ==> !cameras_enabled@[j],
        r is None ==> forall|j: int| 0 <= j < cameras_enabled@.len() ==> !cameras_enabled@[j],
{
    let mut i: usize = 0;
    while i < cameras_enabled.len()
        invariant
            i <= cameras_enabled.len(),
            forall|j: int| 0 <= j < i ==> !cameras_enabled@[j],
        decreases cameras_enabled.len() - i,
    {
        if cameras_enabled[i] {
            return Some(i);
        }
        i = i + 1;
    }
    None
}

/// What the rendering system does this frame.
#[derive(Clone, Debug, PartialEq, Eq)]
pub enum RenderFrame {
    /// Install the default pass chain and mark the boot done.
    Boot,
    /// Draw the queue through the camera at this position.
    Draw { camera: usize, queue: Vec<RenderQueueItem> },
}

/// Why a frame could not be rendered.
#[derive(Clone, Copy, Debug, PartialEq, Eq, Structural)]
pub enum RenderError {
    /// No camera is enabled.
    NoActiveCamera,
}

/// Decides the frame: boot on the first frame; otherwise draw the sorted
/// queue through the first enabled camera, or fail when no camera is enabled.
/// `cameras_enabled` tells, for each camera, whether it is enabled; `entries`
/// holds each mesh's key (if it has one) and entity index.
pub fn rendering_system(boot_done: bool, cameras_enabled: &Vec<bool>, entries: &Vec<(Option<u64>, u32)>) -> (r:
    Result<RenderFrame, RenderError>)
    ensures
        !boot_done ==> r == Ok::<RenderFrame, RenderError>(RenderFrame::Boot),
        boot_done && (forall|j: int| 0 <= j < cameras_enabled@.len() ==> !cameras_enabled@[j]) ==> r
            == Err::<RenderFrame, RenderError>(RenderError::NoActiveCamera),
        r matches Ok(RenderFrame::Draw { camera, queue }) ==> {
            &&& boot_done
            &&& camera < cameras_enabled@.len()
            &&& cameras_enabled@[camera as int]
            &&& forall|j: int| 0 <= j < camera ==> !cameras_enabled@[j]
            &&& queue@ == queued(entries@).sort_by(queue_order())
        },
        boot_done ==> (r is Ok <==> exists|j: int| 0 <= j < cameras_enabled@.len() && cameras_enabled@[j]),
        boot_done ==> !(r matches Ok(RenderFrame::Boot)),
{
    if !boot_done {
        return Ok(RenderFrame::Boot);
    }
    match active_camera(cameras_enabled) {
        None => Err(RenderError::NoActiveCamera),
        Some(camera) => {
            let queue = prepare_render_queue(entries);
            Ok(RenderFrame::Draw { camera, queue })
        },
    }
}

/// How a renderer failure is handled: a lost surface is recovered by a
/// resize, other failures are passed on. An out-of-memory surface is not
/// recoverable and is not handled here.
#[derive(Clone, Copy, Debug, PartialEq, Eq, Structural)]
pub enum RenderFailure {
    SurfaceLost,
    SurfaceOutOfMemory,
    Other,
}

/// Whether the frame ends well after a renderer failure: only a lost surface,
/// which is resized, is recovered.
pub fn recovers_from(failure: RenderFailure) -> (r: bool)
    requires
        failure != RenderFailure::SurfaceOutOfMemory,
    ensures
        r == (failure == RenderFailure::SurfaceLost),
{
    match failure {
        RenderFailure::SurfaceLost => true,
        _ => false,
    }
}

/// The render queue runs by the full `u64` key, and by entity index among
/// equal keys: an item with a smaller key, or the same key and a smaller
/// entity, is never drawn after another, and every keyed mesh is in it once.
pub proof fn lemma_queue_by_full_key(entries: Seq<(Option<u64>, u32)>)
    ensures
        forall|i: int, j: int|
            0 <= i < j < queued(entries).sort_by(queue_order()).len() ==> {
                let a = #[trigger] queued(entries).sort_by(queue_order())[i];
                let b = #[trigger] queued(entries).sort_by(queue_order())[j];
                a.key <= b.key && (a.key == b.key ==> a.entity_index <= b.entity_index)
            },
        queued(entries).sort_by(queue_order()).to_multiset() == queued(entries).to_multiset(),
{
    lemma_queue_order_total();
    queued(entries).lemma_sort_by_ensures(queue_order());
    lemma_sorted_keys_ascending(queued(entries).sort_by(queue_order()));
}

} // verus!
