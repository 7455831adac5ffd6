//! Draw batching of the static PBR pass: the visible meshes, in render-queue
//! order, are ordered by material (a stable sort), grouped by material, and
//! within a group batched by mesh; each instance gets a slot in the per-draw
//! ring, consecutive within a batch.
//!
//! An instance is named by its position in the visible list; its matrices
//! carry floating-point values and stay with the caller.
use vstd::prelude::*;
use vstd::relations::{sorted_by, total_ordering};

use crate::graphics::{RendererMaterialHandle, RendererMeshHandle, RendererTextureHandle};

verus! {

broadcast use vstd::seq_lib::group_to_multiset_ensures;

/// The sort key of a material: its generation above its slot, as one number.
pub open spec fn material_key(m: RendererMaterialHandle) -> int {
    m.version * 4294967296 + m.index
}

/// Draw order of the visible entries by position: by material key, and
/// positions with the same key in their original order.
pub open spec fn position_order(vis: Seq<(RendererMaterialHandle, RendererMeshHandle)>) -> spec_fn(
    usize,
    usize,
) -> bool {
    |a: usize, b: usize|
        material_key(vis[a as int].0) < material_key(vis[b as int].0) || (material_key(vis[a as int].0)
            == material_key(vis[b as int].0) && a <= b)
}

/// Draw order is a total order.
pub proof fn lemma_position_order_total(vis: Seq<(RendererMaterialHandle, RendererMeshHandle)>)
    ensures
        total_ordering(position_order(vis)),
{
    let r = position_order(vis);
    assert(vstd::relations::reflexive(r));
    assert(vstd::relations::antisymmetric(r));
    assert(vstd::relations::transitive(r));
    assert(vstd::relations::strongly_connected(r));
}

/// The positions of the visible entries, `0 .. n`.
pub open spec fn positions(n: nat) -> Seq<usize> {
    Seq::new(n, |i: int| i as usize)
}

/// The positions in draw order.
pub open spec fn draw_order(vis: Seq<(RendererMaterialHandle, RendererMeshHandle)>) -> Seq<usize> {
    positions(vis.len()).sort_by(position_order(vis))
}

/// The first batch of mesh `mesh`, or the number of batches if there is none.
pub open spec fn find_mesh(bs: Seq<(RendererMeshHandle, Seq<usize>)>, mesh: RendererMeshHandle) -> int
    decreases bs.len(),
{
    if bs.len() == 0 {
        0
    } else if bs[0].0 == mesh {
        0
    } else {
        1 + find_mesh(bs.drop_first(), mesh)
    }
}

/// The batches with instance `p` of mesh `mesh` added: to the mesh's batch,
/// or as a new batch at the end.
pub open spec fn add_instance(bs: Seq<(RendererMeshHandle, Seq<usize>)>, mesh: RendererMeshHandle, p: usize) -> Seq<
    (RendererMeshHandle, Seq<usize>),
> {
    let j = find_mesh(bs, mesh);
    if j < bs.len() {
        bs.update(j, (mesh, bs[j].1.push(p)))
    } else {
        bs.push((mesh, seq![p]))
    }
}

/// The groups made from the positions, in order: a position joins the last
/// group when it has the same material, and starts a new group otherwise.
pub open spec fn group_positions(
    vis: Seq<(RendererMaterialHandle, RendererMeshHandle)>,
    ps: Seq<usize>,
) -> Seq<(RendererMaterialHandle, Seq<(RendererMeshHandle, Seq<usize>)>)>
    decreases ps.len(),
{
    if ps.len() == 0 {
        Seq::empty()
    } else {
        let gs = group_positions(vis, ps.drop_last());
        let p = ps.last();
        let m = vis[p as int].0;
        let h = vis[p as int].1;
        if gs.len() > 0 && gs.last().0 == m {
            gs.update(gs.len() - 1, (m, add_instance(gs.last().1, h, p)))
        } else {
            gs.push((m, seq![(h, seq![p])]))
        }
    }
}

/// The number of instances in the batches.
pub open spec fn batch_total(bs: Seq<(RendererMeshHandle, Seq<usize>)>) -> int
    decreases bs.len(),
{
    if bs.len() == 0 {
        0
    } else {
        batch_total(bs.drop_last()) + bs.last().1.len()
    }
}

/// The number of instances in the groups.
pub open spec fn group_total(gs: Seq<(RendererMaterialHandle, Seq<(RendererMeshHandle, Seq<usize>)>)>) -> int
    decreases gs.len(),
{
    if gs.len() == 0 {
        0
    } else {
        group_total(gs.drop_last()) + batch_total(gs.last().1)
    }
}

/// A batch: the mesh drawn, the visible entries it draws, and the ring offset
/// of its first instance.
pub struct MeshBatch {
    pub mesh_handle: RendererMeshHandle,
    pub instances: Vec<usize>,
    pub base_offset_u32: u32,
}

/// A group: one material and its batches.
pub struct GroupCmd {
    pub material_handle: RendererMaterialHandle,
    pub batches: Vec<MeshBatch>,
}

/// A batch without its offset.
pub open spec fn batch_view(b: MeshBatch) -> (RendererMeshHandle, Seq<usize>) {
    (b.mesh_handle, b.instances@)
}

/// A group without offsets.
pub open spec fn group_view(g: GroupCmd) -> (RendererMaterialHandle, Seq<(RendererMeshHandle, Seq<usize>)>) {
    (g.material_handle, g.batches@.map_values(|b: MeshBatch| batch_view(b)))
}

/// Groups without offsets.
pub open spec fn groups_view(gs: Seq<GroupCmd>) -> Seq<(RendererMaterialHandle, Seq<(RendererMeshHandle, Seq<usize>)>)> {
    gs.map_values(|g: GroupCmd| group_view(g))
}

/// Whether `x` comes before `y` in draw order, for positions of `vis`.
fn before(vis: &Vec<(RendererMaterialHandle, RendererMeshHandle)>, x: usize, y: usize) -> (r: bool)
    requires
        x < vis@.len(),
        y < vis@.len(),
    ensures
        r == (position_order(vis@))(x, y),
{
    let a = &vis[x].0;
    let b = &vis[y].0;
    a.version < b.version || (a.version == b.version && (a.index < b.index || (a.index == b.index && x <= y)))
}

/// The positions of `vis`, sorted by draw order (stable by material key).
fn sort_positions(vis: &Vec<(RendererMaterialHandle, RendererMeshHandle)>) -> (r: Vec<usize>)
    ensures
        r@ == draw_order(vis@),
        forall|k: int| 0 <= k < r@.len() ==> #[trigger] r@[k] < vis@.len(),
{
    let ghost ord = position_order(vis@);
    let mut q: Vec<usize> = Vec::new();
    let mut i: usize = 0;
    while i < vis.len()
        invariant
            i <= vis.len(),
            ord == position_order(vis@),
            sorted_by(q@, ord),
            q@.to_multiset() == positions(i as nat).to_multiset(),
            forall|k: int| 0 <= k < q@.len() ==> q@[k] < i,
        decreases vis.len() - i,
    {
        let mut p: usize = 0;
        while p < q.len() && before(vis, q[p], i)
            invariant
                p <= q.len(),
                i < vis.len(),
                ord == position_order(vis@),
                forall|k: int| 0 <= k < q@.len() ==> q@[k] < i,
                forall|j: int| 0 <= j < p ==> ord(#[trigger] q@[j], i),
            decreases q.len() - p,
        {
            p = p + 1;
        }
        let ghost old_q = q@;
        q.insert(p, i);
        proof {
            let s = q@;
            assert(s == old_q.insert(p as int, i));
            assert forall|a: int, b: int| 0 <= a < b < s.len() implies #[trigger] ord(s[a], s[b]) by {
                if b < p {
                    assert(s[a] == old_q[a] && s[b] == old_q[b]);
                } else if b == p {
                    assert(s[a] == old_q[a]);
                } else if a < p {
                    assert(s[a] == old_q[a] && s[b] == old_q[b - 1]);
                    assert(ord(old_q[a], old_q[b - 1]));
                } else if a == p {
                    assert(s[b] == old_q[b - 1]);
                    assert(!ord(old_q[p as int], i));
                    assert(ord(old_q[p as int], old_q[b - 1]) || b - 1 == p);
                } else {
                    assert(s[a] == old_q[a - 1] && s[b] == old_q[b - 1]);
                    assert(ord(old_q[a - 1], old_q[b - 1]));
                }
            }
            vstd::seq_lib::to_multiset_insert(old_q, p as int, i);
            assert(positions((i + 1) as nat) =~= positions(i as nat).push(i));
            vstd::seq_lib::to_multiset_build(positions(i as nat), i);
            assert forall|k: int| 0 <= k < s.len() implies s[k] < i + 1 by {
                if k < p {
                    assert(s[k] == old_q[k]);
                } else if k > p {
                    assert(s[k] == old_q[k - 1]);
                }
            }
        }
        i = i + 1;
    }
    proof {
        lemma_position_order_total(vis@);
        positions(vis@.len()).lemma_sort_by_ensures(ord);
        vstd::seq_lib::lemma_sorted_unique(q@, draw_order(vis@), ord);
    }
    q
}

/// `find_mesh` is the first position whose batch has the mesh.
proof fn lemma_find_mesh(bs: Seq<(RendererMeshHandle, Seq<usize>)>, mesh: RendererMeshHandle, j: int)
    requires
        0 <= j <= bs.len(),
        forall|k: int| 0 <= k < j ==> bs[k].0 != mesh,
        j < bs.len() ==> bs[j].0 == mesh,
    ensures
        find_mesh(bs, mesh) == j,
    decreases bs.len(),
{
    if bs.len() > 0 && j > 0 {
        assert(bs[0].0 != mesh);
        assert forall|k: int| 0 <= k < j - 1 implies bs.drop_first()[k].0 != mesh by {
            assert(bs.drop_first()[k] == bs[k + 1]);
        }
        if j < bs.len() {
            assert(bs.drop_first()[j - 1] == bs[j]);
        }
        lemma_find_mesh(bs.drop_first(), mesh, j - 1);
    }
}

/// The batch of mesh `mesh`, or the number of batches if there is none.
fn find_batch(bs: &Vec<MeshBatch>, mesh: RendererMeshHandle) -> (r: usize)
    ensures
        r == find_mesh(bs@.map_values(|b: MeshBatch| batch_view(b)), mesh),
        r <= bs@.len(),
        r < bs@.len() ==> bs@[r as int].mesh_handle == mesh,
{
    let ghost v = bs@.map_values(|b: MeshBatch| batch_view(b));
    let mut j: usize = 0;
    while j < bs.len() && bs[j].mesh_handle != mesh
        invariant
            j <= bs.len(),
            v == bs@.map_values(|b: MeshBatch| batch_view(b)),
            forall|k: int| 0 <= k < j ==> v[k].0 != mesh,
        decreases bs.len() - j,
    {
        assert(v[j as int].0 == bs@[j as int].mesh_handle);
        j = j + 1;
    }
    proof {
        if j < bs.len() {
            assert(v[j as int].0 == bs@[j as int].mesh_handle);
        }
        lemma_find_mesh(v, mesh, j as int);
    }
    j
}

/// Adds instance `p` of mesh `mesh` to the batches, as `add_instance` says.
fn add_to_batches(bs: &mut Vec<MeshBatch>, mesh: RendererMeshHandle, p: usize)
    ensures
        final(bs)@.map_values(|b: MeshBatch| batch_view(b)) == add_instance(
            old(bs)@.map_values(|b: MeshBatch| batch_view(b)),
            mesh,
            p,
        ),
{
    let ghost v = bs@.map_values(|b: MeshBatch| batch_view(b));
    let j = find_batch(bs, mesh);
    if j < bs.len() {
        let mut b = bs.remove(j);
        b.instances.push(p);
        bs.insert(j, b);
        proof {
            assert(v[j as int].0 == mesh);
            let w = bs@.map_values(|b: MeshBatch| batch_view(b));
            assert(w =~= v.update(j as int, (mesh, v[j as int].1.push(p))));
        }
    } else {
        let mut inst: Vec<usize> = Vec::new();
        inst.push(p);
        bs.push(MeshBatch { mesh_handle: mesh, instances: inst, base_offset_u32: 0 });
        proof {
            let w = bs@.map_values(|b: MeshBatch| batch_view(b));
            assert(w =~= v.push((mesh, seq![p])));
        }
    }
}

/// Groups the positions, in the given order, as `group_positions` says; every
/// offset is still zero.
fn group_in_order(vis: &Vec<(RendererMaterialHandle, RendererMeshHandle)>, order: &Vec<usize>) -> (r: Vec<GroupCmd>)
    requires
        forall|k: int| 0 <= k < order@.len() ==> #[trigger] order@[k] < vis@.len(),
    ensures
        groups_view(r@) == group_positions(vis@, order@),
{
    let mut groups: Vec<GroupCmd> = Vec::new();
    let mut k: usize = 0;
    while k < order.len()
        invariant
            k <= order.len(),
            forall|i: int| 0 <= i < order@.len() ==> #[trigger] order@[i] < vis@.len(),
            groups_view(groups@) == group_positions(vis@, order@.subrange(0, k as int)),
        decreases order.len() - k,
    {
        let ghost pre = order@.subrange(0, k as int);
        let ghost next = order@.subrange(0, k + 1);
        assert(next.drop_last() == pre);
        assert(next.last() == order@[k as int]);
        let ghost gv = groups_view(groups@);
        let p = order[k];
        let m = vis[p].0;
        let h = vis[p].1;
        let n = groups.len();
        if n > 0 && groups[n - 1].material_handle == m {
            let mut g = groups.pop().unwrap();
            assert(gv.last() == group_view(g));
            add_to_batches(&mut g.batches, h, p);
            groups.push(g);
            proof {
                let w = groups_view(groups@);
                assert(w =~= gv.update(gv.len() - 1, (m, add_instance(gv.last().1, h, p))));
            }
        } else {
            let mut inst: Vec<usize> = Vec::new();
            inst.push(p);
            let mut batches: Vec<MeshBatch> = Vec::new();
            batches.push(MeshBatch { mesh_handle: h, instances: inst, base_offset_u32: 0 });
            groups.push(GroupCmd { material_handle: m, batches });
            proof {
                let w = groups_view(groups@);
                assert(batches@.map_values(|b: MeshBatch| batch_view(b)) =~= seq![(h, seq![p])]);
                assert(w =~= gv.push((m, seq![(h, seq![p])])));
            }
        }
        k = k + 1;
    }
    assert(order@.subrange(0, order@.len() as int) == order@);
    groups
}

/// The ring offset of the slot after `count` instances of `stride` bytes,
/// wrapping at 2^32 as `u32` arithmetic does.
pub open spec fn ring_offset(count: int, stride: u32) -> u32 {
    ((count * stride) % 4294967296) as u32
}

/// One more instance moves the offset on by one stride.
proof fn lemma_ring_step(count: nat, stride: u32)
    ensures
        vstd::wrapping::u32_specs::wrapping_add(ring_offset(count as int, stride), stride) == ring_offset(
            (count + 1) as int,
            stride,
        ),
{
    let m: int = 4294967296;
    let a = count * stride;
    vstd::arithmetic::div_mod::lemma_add_mod_noop(a, stride as int, m);
    vstd::arithmetic::div_mod::lemma_mod_twice(stride as int, m);
    assert((count + 1) * stride == count * stride + stride) by (nonlinear_arith);
    vstd::arithmetic::div_mod::lemma_mod_bound(a, m);
}

/// Whether every batch's offset is the ring slot after the instances of all
/// batches before it, in group and batch order.
pub open spec fn offsets_ok(gs: Seq<GroupCmd>, stride: u32) -> bool {
    forall|g: int, b: int|
        0 <= g < gs.len() && 0 <= b < gs[g].batches@.len() ==> #[trigger] gs[g].batches@[b].base_offset_u32
            == ring_offset(
            group_total(groups_view(gs).subrange(0, g)) + batch_total(groups_view(gs)[g].1.subrange(0, b)),
            stride,
        )
}

/// Gives each batch of a group its ring offset, starting at `count` instances.
fn place_batches(bs: Vec<MeshBatch>, count: Ghost<nat>, next: u32, stride: u32) -> (r: (Vec<MeshBatch>, u32))
    requires
        next == ring_offset(count@ as int, stride),
    ensures
        r.0@.map_values(|b: MeshBatch| batch_view(b)) == bs@.map_values(|b: MeshBatch| batch_view(b)),
        r.1 == ring_offset(count@ + batch_total(bs@.map_values(|b: MeshBatch| batch_view(b))), stride),
        forall|b: int|
            0 <= b < r.0@.len() ==> #[trigger] r.0@[b].base_offset_u32 == ring_offset(
                count@ + batch_total(bs@.map_values(|b: MeshBatch| batch_view(b)).subrange(0, b)),
                stride,
            ),
{
    let ghost v = bs@.map_values(|b: MeshBatch| batch_view(b));
    let mut rest = bs;
    let mut out: Vec<MeshBatch> = Vec::new();
    let mut next = next;
    let ghost mut done: nat = count@;
    while rest.len() > 0
        invariant
            out@.len() + rest@.len() == v.len(),
            out@.map_values(|b: MeshBatch| batch_view(b)) == v.subrange(0, out@.len() as int),
            rest@.map_values(|b: MeshBatch| batch_view(b)) == v.subrange(out@.len() as int, v.len() as int),
            done == count@ + batch_total(v.subrange(0, out@.len() as int)),
            next == ring_offset(done as int, stride),
            forall|b: int|
                0 <= b < out@.len() ==> #[trigger] out@[b].base_offset_u32 == ring_offset(
                    count@ + batch_total(v.subrange(0, b)),
                    stride,
                ),
        decreases rest.len(),
    {
        let ghost k = out@.len() as int;
        let ghost rv = rest@.map_values(|b: MeshBatch| batch_view(b));
        let ghost old_rest = rest@;
        let mut b = rest.remove(0);
        assert(rv[0] == v[k]);
        proof {
            let nv = rest@.map_values(|b: MeshBatch| batch_view(b));
            assert(rest@ == old_rest.remove(0));
            assert forall|t: int| 0 <= t < nv.len() implies nv[t] == v.subrange(k + 1, v.len() as int)[t] by {
                assert(rest@[t] == old_rest[t + 1]);
                assert(rv[t + 1] == v.subrange(k, v.len() as int)[t + 1]);
            }
            assert(nv =~= v.subrange(k + 1, v.len() as int));
        }
        b.base_offset_u32 = next;
        let n = b.instances.len();
        let mut i: usize = 0;
        while i < n
            invariant
                i <= n,
                next == ring_offset(done + i, stride),
            decreases n - i,
        {
            proof {
                lemma_ring_step((done + i) as nat, stride);
            }
            next = next.wrapping_add(stride);
            i = i + 1;
        }
        proof {
            assert(v.subrange(0, k + 1).drop_last() =~= v.subrange(0, k));
            assert(v.subrange(0, k + 1).last() == v[k]);
            assert(v[k].1.len() == n);
            done = done + n as nat;
        }
        out.push(b);
        proof {
            assert(out@.map_values(|b: MeshBatch| batch_view(b)) =~= v.subrange(0, k + 1));
        }
    }
    proof {
        assert(v.subrange(0, v.len() as int) == v);
        assert(out@.map_values(|b: MeshBatch| batch_view(b)) == v);
    }
    (out, next)
}


/// Replacing one batch changes the total by the difference of the two counts.
proof fn lemma_batch_total_update(bs: Seq<(RendererMeshHandle, Seq<usize>)>, j: int, e: (RendererMeshHandle, Seq<usize>))
    requires
        0 <= j < bs.len(),
    ensures
        batch_total(bs.update(j, e)) == batch_total(bs) - bs[j].1.len() + e.1.len(),
    decreases bs.len(),
{
    let u = bs.update(j, e);
    if j == bs.len() - 1 {
        assert(u.drop_last() =~= bs.drop_last());
    } else {
        assert(u.drop_last() =~= bs.drop_last().update(j, e));
        lemma_batch_total_update(bs.drop_last(), j, e);
    }
}

/// Adding an instance adds one to the total.
proof fn lemma_batch_total_add(bs: Seq<(RendererMeshHandle, Seq<usize>)>, mesh: RendererMeshHandle, p: usize)
    ensures
        batch_total(add_instance(bs, mesh, p)) == batch_total(bs) + 1,
{
    let j = find_mesh(bs, mesh);
    if j < bs.len() {
        lemma_find_mesh_bounds(bs, mesh);
        lemma_batch_total_update(bs, j, (mesh, bs[j].1.push(p)));
    } else {
        assert(bs.push((mesh, seq![p])).drop_last() =~= bs);
    }
}

/// `find_mesh` stays in range, and where it points at a batch, that batch has the mesh.
proof fn lemma_find_mesh_bounds(bs: Seq<(RendererMeshHandle, Seq<usize>)>, mesh: RendererMeshHandle)
    ensures
        0 <= find_mesh(bs, mesh) <= bs.len(),
        find_mesh(bs, mesh) < bs.len() ==> bs[find_mesh(bs, mesh)].0 == mesh,
    decreases bs.len(),
{
    if bs.len() > 0 && bs[0].0 != mesh {
        lemma_find_mesh_bounds(bs.drop_first(), mesh);
        let j = find_mesh(bs.drop_first(), mesh);
        if j < bs.drop_first().len() {
            assert(bs.drop_first()[j] == bs[j + 1]);
        }
    }
}

/// Every visible entry is drawn once: the groups hold as many instances as
/// there are positions.
pub proof fn lemma_every_entry_is_drawn_once(
    vis: Seq<(RendererMaterialHandle, RendererMeshHandle)>,
    ps: Seq<usize>,
)
    ensures
        group_total(group_positions(vis, ps)) == ps.len(),
    decreases ps.len(),
{
    if ps.len() > 0 {
        let gs = group_positions(vis, ps.drop_last());
        lemma_every_entry_is_drawn_once(vis, ps.drop_last());
        let p = ps.last();
        let m = vis[p as int].0;
        let h = vis[p as int].1;
        if gs.len() > 0 && gs.last().0 == m {
            let u = gs.update(gs.len() - 1, (m, add_instance(gs.last().1, h, p)));
            assert(u.drop_last() =~= gs.drop_last());
            lemma_batch_total_add(gs.last().1, h, p);
            assert(group_total(u) == group_total(gs.drop_last()) + batch_total(u.last().1));
            assert(group_total(gs) == group_total(gs.drop_last()) + batch_total(gs.last().1));
        } else {
            let u = gs.push((m, seq![(h, seq![p])]));
            assert(u.drop_last() =~= gs);
            let one: Seq<(RendererMeshHandle, Seq<usize>)> = seq![(h, seq![p])];
            assert(one.drop_last() =~= Seq::<(RendererMeshHandle, Seq<usize>)>::empty());
            assert(batch_total(one.drop_last()) == 0);
            assert(one.last().1.len() == 1);
            assert(batch_total(one) == 1);
            assert(group_total(u) == group_total(gs) + batch_total(one));
        }
    }
}

/// Every instance of every batch is a visible entry of the batch's material
/// (`m`) and of the batch's mesh.
pub open spec fn batches_match(
    vis: Seq<(RendererMaterialHandle, RendererMeshHandle)>,
    m: RendererMaterialHandle,
    bs: Seq<(RendererMeshHandle, Seq<usize>)>,
) -> bool {
    forall|b: int, i: int|
        0 <= b < bs.len() && 0 <= i < bs[b].1.len() ==> (#[trigger] bs[b].1[i] as int) < vis.len()
            && vis[bs[b].1[i] as int] == (m, bs[b].0)
}

/// Every group's batches match the group's material.
pub open spec fn groups_match(
    vis: Seq<(RendererMaterialHandle, RendererMeshHandle)>,
    gs: Seq<(RendererMaterialHandle, Seq<(RendererMeshHandle, Seq<usize>)>)>,
) -> bool {
    forall|g: int| 0 <= g < gs.len() ==> #[trigger] batches_match(vis, gs[g].0, gs[g].1)
}

proof fn lemma_add_instance_matches(
    vis: Seq<(RendererMaterialHandle, RendererMeshHandle)>,
    m: RendererMaterialHandle,
    bs: Seq<(RendererMeshHandle, Seq<usize>)>,
    p: usize,
)
    requires
        batches_match(vis, m, bs),
        (p as int) < vis.len(),
        vis[p as int].0 == m,
    ensures
        batches_match(vis, m, add_instance(bs, vis[p as int].1, p)),
{
    let h = vis[p as int].1;
    let j = find_mesh(bs, h);
    lemma_find_mesh_bounds(bs, h);
    let u = add_instance(bs, h, p);
    assert forall|b: int, i: int| 0 <= b < u.len() && 0 <= i < u[b].1.len() implies (#[trigger] u[b].1[i] as int)
        < vis.len() && vis[u[b].1[i] as int] == (m, u[b].0) by {
        if j < bs.len() && b == j {
            if i < bs[j].1.len() {
                assert(u[b].1[i] == bs[j].1[i]);
            }
        } else if b < bs.len() {
            assert(u[b] == bs[b]);
            assert(u[b].1[i] == bs[b].1[i]);
        } else {
            assert(u[b] == (h, seq![p]));
        }
    }
}

/// Each batch draws only visible entries of its group's material and of its
/// own mesh.
pub proof fn lemma_batches_hold_their_material_and_mesh(
    vis: Seq<(RendererMaterialHandle, RendererMeshHandle)>,
    ps: Seq<usize>,
)
    requires
        forall|k: int| 0 <= k < ps.len() ==> (#[trigger] ps[k] as int) < vis.len(),
    ensures
        groups_match(vis, group_positions(vis, ps)),
    decreases ps.len(),
{
    if ps.len() > 0 {
        let gs = group_positions(vis, ps.drop_last());
        assert forall|k: int| 0 <= k < ps.drop_last().len() implies (#[trigger] ps.drop_last()[k] as int)
            < vis.len() by {
            assert(ps.drop_last()[k] == ps[k]);
        }
        lemma_batches_hold_their_material_and_mesh(vis, ps.drop_last());
        let p = ps.last();
        assert(ps[ps.len() - 1] == p);
        let m = vis[p as int].0;
        let h = vis[p as int].1;
        let r = group_positions(vis, ps);
        if gs.len() > 0 && gs.last().0 == m {
            assert(batches_match(vis, gs[gs.len() - 1].0, gs[gs.len() - 1].1));
            lemma_add_instance_matches(vis, m, gs.last().1, p);
            assert forall|g: int| 0 <= g < r.len() implies #[trigger] batches_match(vis, r[g].0, r[g].1) by {
                if g < gs.len() - 1 {
                    assert(r[g] == gs[g]);
                    assert(batches_match(vis, gs[g].0, gs[g].1));
                }
            }
        } else {
            assert forall|g: int| 0 <= g < r.len() implies #[trigger] batches_match(vis, r[g].0, r[g].1) by {
                if g < gs.len() {
                    assert(r[g] == gs[g]);
                    assert(batches_match(vis, gs[g].0, gs[g].1));
                } else {
                    let one: Seq<(RendererMeshHandle, Seq<usize>)> = seq![(h, seq![p])];
                    assert(r[g] == (m, one));
                    assert forall|b: int, i: int| 0 <= b < one.len() && 0 <= i < one[b].1.len() implies (
                    #[trigger] one[b].1[i] as int) < vis.len() && vis[one[b].1[i] as int] == (m, one[b].0) by {
                        assert(one[b] == (h, seq![p]));
                    }
                }
            }
        }
    }
}


/// Gives every batch of every group its ring offset, in group and batch order.
fn place_groups(groups: Vec<GroupCmd>, stride: u32) -> (r: Vec<GroupCmd>)
    ensures
        groups_view(r@) == groups_view(groups@),
        offsets_ok(r@, stride),
{
    let ghost gv = groups_view(groups@);
    let mut rest = groups;
    let mut out: Vec<GroupCmd> = Vec::new();
    let mut next: u32 = 0;
    let ghost mut count: nat = 0;
    proof {
        assert(ring_offset(0, stride) == 0);
    }
    while rest.len() > 0
        invariant
            out@.len() + rest@.len() == gv.len(),
            groups_view(out@) == gv.subrange(0, out@.len() as int),
            groups_view(rest@) == gv.subrange(out@.len() as int, gv.len() as int),
            count == group_total(gv.subrange(0, out@.len() as int)),
            next == ring_offset(count as int, stride),
            forall|g: int, b: int|
                0 <= g < out@.len() && 0 <= b < out@[g].batches@.len() ==> #[trigger] out@[g].batches@[b].base_offset_u32
                    == ring_offset(group_total(gv.subrange(0, g)) + batch_total(gv[g].1.subrange(0, b)), stride),
        decreases rest.len(),
    {
        let ghost k = out@.len() as int;
        let ghost rv = groups_view(rest@);
        let ghost old_rest = rest@;
        let g = rest.remove(0);
        assert(rv[0] == gv[k]);
        assert(group_view(g) == gv[k]);
        proof {
            let nv = groups_view(rest@);
            assert(rest@ == old_rest.remove(0));
            assert forall|t: int| 0 <= t < nv.len() implies nv[t] == gv.subrange(k + 1, gv.len() as int)[t] by {
                assert(rest@[t] == old_rest[t + 1]);
                assert(rv[t + 1] == gv.subrange(k, gv.len() as int)[t + 1]);
            }
            assert(nv =~= gv.subrange(k + 1, gv.len() as int));
        }
        let GroupCmd { material_handle, batches } = g;
        let (placed, after) = place_batches(batches, Ghost(count), next, stride);
        let ng = GroupCmd { material_handle, batches: placed };
        assert(group_view(ng) == gv[k]);
        proof {
            assert(gv.subrange(0, k + 1).drop_last() =~= gv.subrange(0, k));
            assert(gv.subrange(0, k + 1).last() == gv[k]);
            lemma_batch_total_nonneg(gv[k].1);
            assert(batches@.map_values(|b: MeshBatch| batch_view(b)) == gv[k].1);
            count = count + batch_total(gv[k].1) as nat;
        }
        next = after;
        let ghost old_out = out@;
        out.push(ng);
        proof {
            assert(groups_view(out@) =~= gv.subrange(0, k + 1));
            assert forall|g: int, b: int|
                0 <= g < out@.len() && 0 <= b < out@[g].batches@.len() implies #[trigger] out@[g].batches@[b].base_offset_u32
                    == ring_offset(group_total(gv.subrange(0, g)) + batch_total(gv[g].1.subrange(0, b)), stride) by {
                if g < k {
                    assert(out@[g] == old_out[g]);
                } else {
                    assert(out@[g] == ng);
                    assert(placed@.map_values(|b: MeshBatch| batch_view(b)) == gv[k].1);
                }
            }
        }
    }
    proof {
        assert(gv.subrange(0, gv.len() as int) == gv);
    }
    out
}

/// The draw commands of the static PBR pass for the visible entries, in
/// render-queue order: the entries sorted by material key (stable), grouped
/// by material, batched by mesh within a group, and each batch given the ring
/// offset of its first instance (`stride` bytes a slot, wrapping as `u32`).
pub fn build_draw_groups(visible: &Vec<(RendererMaterialHandle, RendererMeshHandle)>, stride: u32) -> (r: Vec<
    GroupCmd,
>)
    ensures
        groups_view(r@) == group_positions(visible@, draw_order(visible@)),
        offsets_ok(r@, stride),
{
    let order = sort_positions(visible);
    let groups = group_in_order(visible, &order);
    place_groups(groups, stride)
}

/// The number of per-draw slots the groups need: one an instance.
pub fn instances_needed(groups: &Vec<GroupCmd>) -> (r: u64)
    requires
        group_total(groups_view(groups@)) <= u64::MAX,
    ensures
        r == group_total(groups_view(groups@)),
{
    let ghost gv = groups_view(groups@);
    let mut total: u64 = 0;
    let mut g: usize = 0;
    while g < groups.len()
        invariant
            g <= groups.len(),
            gv == groups_view(groups@),
            group_total(gv) <= u64::MAX,
            total == group_total(gv.subrange(0, g as int)),
        decreases groups.len() - g,
    {
        let ghost bv = gv[g as int].1;
        assert(bv == groups@[g as int].batches@.map_values(|b: MeshBatch| batch_view(b)));
        proof {
            lemma_group_total_prefix(gv, g as int + 1);
            assert(gv.subrange(0, g + 1).drop_last() =~= gv.subrange(0, g as int));
            assert(gv.subrange(0, g + 1).last() == gv[g as int]);
        }
        let mut b: usize = 0;
        let mut sub: u64 = 0;
        while b < groups[g].batches.len()
            invariant
                g < groups.len(),
                b <= groups@[g as int].batches@.len(),
                bv == groups@[g as int].batches@.map_values(|b: MeshBatch| batch_view(b)),
                total + batch_total(bv) <= u64::MAX,
                sub == batch_total(bv.subrange(0, b as int)),
            decreases groups@[g as int].batches@.len() - b,
        {
            proof {
                lemma_batch_total_prefix(bv, b as int + 1);
                assert(bv.subrange(0, b + 1).drop_last() =~= bv.subrange(0, b as int));
                assert(bv.subrange(0, b + 1).last() == bv[b as int]);
            }
            sub = sub + groups[g].batches[b].instances.len() as u64;
            b = b + 1;
        }
        assert(bv.subrange(0, bv.len() as int) == bv);
        total = total + sub;
        g = g + 1;
    }
    assert(gv.subrange(0, gv.len() as int) == gv);
    total
}

/// A prefix of the batches holds no more instances than all of them.
proof fn lemma_batch_total_prefix(bs: Seq<(RendererMeshHandle, Seq<usize>)>, n: int)
    requires
        0 <= n <= bs.len(),
    ensures
        0 <= batch_total(bs.subrange(0, n)) <= batch_total(bs),
    decreases bs.len(),
{
    if n < bs.len() {
        assert(bs.drop_last().subrange(0, n) =~= bs.subrange(0, n));
        lemma_batch_total_prefix(bs.drop_last(), n);
    } else {
        assert(bs.subrange(0, n) =~= bs);
    }
    lemma_batch_total_nonneg(bs);
    lemma_batch_total_nonneg(bs.subrange(0, n));
}

proof fn lemma_batch_total_nonneg(bs: Seq<(RendererMeshHandle, Seq<usize>)>)
    ensures
        batch_total(bs) >= 0,
    decreases bs.len(),
{
    if bs.len() > 0 {
        lemma_batch_total_nonneg(bs.drop_last());
    }
}

/// A prefix of the groups holds no more instances than all of them.
proof fn lemma_group_total_prefix(gs: Seq<(RendererMaterialHandle, Seq<(RendererMeshHandle, Seq<usize>)>)>, n: int)
    requires
        0 <= n <= gs.len(),
    ensures
        0 <= group_total(gs.subrange(0, n)) <= group_total(gs),
    decreases gs.len(),
{
    if n < gs.len() {
        assert(gs.drop_last().subrange(0, n) =~= gs.subrange(0, n));
        lemma_group_total_prefix(gs.drop_last(), n);
        lemma_batch_total_nonneg(gs.last().1);
    } else {
        assert(gs.subrange(0, n) =~= gs);
        lemma_group_total_nonneg(gs);
    }
}

proof fn lemma_group_total_nonneg(gs: Seq<(RendererMaterialHandle, Seq<(RendererMeshHandle, Seq<usize>)>)>)
    ensures
        group_total(gs) >= 0,
    decreases gs.len(),
{
    if gs.len() > 0 {
        lemma_group_total_nonneg(gs.drop_last());
        lemma_batch_total_nonneg(gs.last().1);
    }
}

/// The ring offset of instance `instance_index` of a batch whose first
/// instance sits at `base_offset_u32`.
pub fn instance_offset(base_offset_u32: u32, instance_index: usize, stride: u32) -> (r: u32)
    requires
        (instance_index as u32) * stride <= u32::MAX,
    ensures
        r == (base_offset_u32 + (instance_index as u32) * stride) % 4294967296,
{
    let step: u32 = (instance_index as u32) * stride;
    base_offset_u32.wrapping_add(step)
}

/// Each instance is drawn from the slot it was given: with the offsets that
/// `build_draw_groups` sets, instance `i` of batch `b` of group `g` sits at
/// the ring slot after every instance before it.
pub proof fn lemma_instance_offset_is_its_slot(gs: Seq<GroupCmd>, stride: u32, g: int, b: int, i: int)
    requires
        offsets_ok(gs, stride),
        0 <= g < gs.len(),
        0 <= b < gs[g].batches@.len(),
        0 <= i,
    ensures
        (gs[g].batches@[b].base_offset_u32 + i * stride) % 4294967296 == ring_offset(
            group_total(groups_view(gs).subrange(0, g)) + batch_total(groups_view(gs)[g].1.subrange(0, b)) + i,
            stride,
        ),
{
    let before = group_total(groups_view(gs).subrange(0, g)) + batch_total(groups_view(gs)[g].1.subrange(0, b));
    let m: int = 4294967296;
    let base = gs[g].batches@[b].base_offset_u32;
    assert(base == ring_offset(before, stride));
    vstd::arithmetic::div_mod::lemma_add_mod_noop(before * stride, i * stride, m);
    vstd::arithmetic::div_mod::lemma_mod_twice(before * stride, m);
    vstd::arithmetic::div_mod::lemma_add_mod_noop(base as int, i * stride, m);
    vstd::arithmetic::div_mod::lemma_mod_bound(before * stride, m);
    assert((before + i) * stride == before * stride + i * stride) by (nonlinear_arith);
}


/// Two materials with the same key are the same material.
proof fn lemma_material_key_injective(a: RendererMaterialHandle, b: RendererMaterialHandle)
    ensures
        material_key(a) == material_key(b) ==> a == b,
{
    let c: int = 4294967296;
    if material_key(a) == material_key(b) {
        if a.version < b.version {
            assert(a.version * c + c <= b.version * c) by (nonlinear_arith)
                requires
                    a.version < b.version,
                    c > 0,
            ;
        } else if a.version > b.version {
            assert(b.version * c + c <= a.version * c) by (nonlinear_arith)
                requires
                    b.version < a.version,
                    c > 0,
            ;
        }
    }
}

/// Grouping positions sorted by draw order gives groups whose material keys
/// strictly increase, and the last group is that of the last position.
proof fn lemma_group_keys(vis: Seq<(RendererMaterialHandle, RendererMeshHandle)>, ps: Seq<usize>)
    requires
        sorted_by(ps, position_order(vis)),
        forall|k: int| 0 <= k < ps.len() ==> (#[trigger] ps[k] as int) < vis.len(),
    ensures
        forall|g1: int, g2: int|
            0 <= g1 < g2 < group_positions(vis, ps).len() ==> material_key(
                #[trigger] group_positions(vis, ps)[g1].0,
            ) < material_key(#[trigger] group_positions(vis, ps)[g2].0),
        ps.len() > 0 ==> group_positions(vis, ps).len() > 0 && group_positions(vis, ps).last().0
            == vis[ps.last() as int].0,
    decreases ps.len(),
{
    if ps.len() > 0 {
        let pre = ps.drop_last();
        assert forall|k: int| 0 <= k < pre.len() implies (#[trigger] pre[k] as int) < vis.len() by {
            assert(pre[k] == ps[k]);
        }
        assert forall|i: int, j: int| 0 <= i < j < pre.len() implies (position_order(vis))(pre[i], pre[j]) by {
            assert(pre[i] == ps[i] && pre[j] == ps[j]);
        }
        lemma_group_keys(vis, pre);
        let gs = group_positions(vis, pre);
        let r = group_positions(vis, ps);
        let p = ps.last();
        let m = vis[p as int].0;
        let h = vis[p as int].1;
        if gs.len() > 0 && gs.last().0 == m {
            assert forall|g1: int, g2: int| 0 <= g1 < g2 < r.len() implies material_key(#[trigger] r[g1].0)
                < material_key(#[trigger] r[g2].0) by {
                assert(r[g1].0 == gs[g1].0 && r[g2].0 == gs[g2].0);
            }
        } else {
            if gs.len() > 0 {
                let q = pre.last();
                assert(q == ps[ps.len() - 2]);
                assert(p == ps[ps.len() - 1]);
                assert((position_order(vis))(ps[ps.len() - 2], ps[ps.len() - 1]));
                assert(material_key(gs.last().0) <= material_key(m));
                lemma_material_key_injective(gs.last().0, m);
                assert(material_key(gs.last().0) < material_key(m));
            }
            assert forall|g1: int, g2: int| 0 <= g1 < g2 < r.len() implies material_key(#[trigger] r[g1].0)
                < material_key(#[trigger] r[g2].0) by {
                assert(r[g1].0 == gs[g1].0);
                if g2 < gs.len() {
                    assert(r[g2].0 == gs[g2].0);
                } else {
                    assert(r[g2].0 == m);
                    if g1 < gs.len() - 1 {
                        assert(material_key(gs[g1].0) < material_key(gs[gs.len() - 1].0));
                    }
                }
            }
        }
    }
}

/// One group per material: in draw order the groups' material keys strictly
/// increase, so no material is bound twice.
pub proof fn lemma_one_group_per_material(vis: Seq<(RendererMaterialHandle, RendererMeshHandle)>)
    ensures
        forall|g1: int, g2: int|
            0 <= g1 < g2 < group_positions(vis, draw_order(vis)).len() ==> material_key(
                #[trigger] group_positions(vis, draw_order(vis))[g1].0,
            ) < material_key(#[trigger] group_positions(vis, draw_order(vis))[g2].0),
{
    let ord = position_order(vis);
    lemma_position_order_total(vis);
    positions(vis.len()).lemma_sort_by_ensures(ord);
    let d = draw_order(vis);
    assert forall|k: int| 0 <= k < d.len() implies (#[trigger] d[k] as int) < vis.len() by {
        assert(d.to_multiset().count(d[k]) > 0) by {
            d.to_multiset_ensures();
            assert(d.contains(d[k]));
        }
        positions(vis.len()).to_multiset_ensures();
        assert(positions(vis.len()).contains(d[k]));
        let t = choose|t: int| 0 <= t < positions(vis.len()).len() && positions(vis.len())[t] == d[k];
        assert(positions(vis.len())[t] == t as usize);
    }
    lemma_group_keys(vis, d);
}


/// Bytes of one per-draw slot: the two 4x4 `f32` matrices of an instance
/// (128 bytes), rounded up to the 256-byte uniform offset alignment.
pub const PER_DRAW_STRIDE_BYTES: u64 = 256;

/// Per-draw slots the ring is made with.
pub const MAX_EXPECTED_PER_DRAW_INSTANCES: u64 = 100000;

/// Where an image-based-lighting input of the PBR pass is read from.
#[derive(Clone, Copy, Debug, PartialEq, Eq, Structural)]
pub enum IblSource {
    /// The view of the render target the pass was given.
    Target(RendererTextureHandle),
    /// The pass's 1x1 fallback texture.
    Fallback,
}

/// The one texel of the fallback texture: black with zero alpha, so that an
/// absent lighting input contributes nothing.
pub fn ibl_fallback_texel() -> (r: [u8; 4])
    ensures
        r@ == seq![0u8, 0u8, 0u8, 0u8],
{
    [0u8, 0u8, 0u8, 0u8]
}

/// Where a lighting input is read from: the target the pass was given, where
/// there is one and the renderer has a view of it (`has_view`); otherwise the
/// fallback texture.
pub fn ibl_source(handle: Option<RendererTextureHandle>, has_view: bool) -> (r: IblSource)
    ensures
        r == (match handle {
            Some(h) => if has_view {
                IblSource::Target(h)
            } else {
                IblSource::Fallback
            },
            None => IblSource::Fallback,
        }),
{
    match handle {
        Some(h) => if has_view {
            IblSource::Target(h)
        } else {
            IblSource::Fallback
        },
        None => IblSource::Fallback,
    }
}

/// The static PBR pass: its optional image-based-lighting textures, the depth
/// target it was given, its per-draw ring and the draw commands of the last
/// frame.
pub struct PassPBRStatic {
    pub ibl_irradiance_tex: Option<RendererTextureHandle>,
    pub ibl_prefilter_tex: Option<RendererTextureHandle>,
    pub ibl_brdf_lut_tex: Option<RendererTextureHandle>,
    pub depth_texture: Option<RendererTextureHandle>,
    pub per_draw_stride: u64,
    pub per_draw_capacity: u64,
    pub groups: Vec<GroupCmd>,
}

impl PassPBRStatic {
    /// A pass with the given lighting textures, no depth target, a ring of no
    /// slots yet and no draw commands.
    pub fn new(
        ibl_irradiance_tex: Option<RendererTextureHandle>,
        ibl_prefilter_tex: Option<RendererTextureHandle>,
        ibl_brdf_lut_tex: Option<RendererTextureHandle>,
    ) -> (r: Self)
        ensures
            r.ibl_irradiance_tex == ibl_irradiance_tex,
            r.ibl_prefilter_tex == ibl_prefilter_tex,
            r.ibl_brdf_lut_tex == ibl_brdf_lut_tex,
            r.depth_texture.is_none(),
            r.per_draw_stride == PER_DRAW_STRIDE_BYTES,
            r.per_draw_capacity == 0,
            r.groups@.len() == 0,
    {
        PassPBRStatic {
            ibl_irradiance_tex,
            ibl_prefilter_tex,
            ibl_brdf_lut_tex,
            depth_texture: None,
            per_draw_stride: PER_DRAW_STRIDE_BYTES,
            per_draw_capacity: 0,
            groups: Vec::new(),
        }
    }

    /// The pass's label.
    pub fn get_label(&self) -> (r: &'static str)
        ensures
            r@ == "pass_pbr_static"@,
    {
        "pass_pbr_static"
    }

    /// Sizes the per-draw ring on initialisation and returns its size in bytes.
    pub fn init_ring(&mut self) -> (r: u64)
        requires
            old(self).per_draw_stride * MAX_EXPECTED_PER_DRAW_INSTANCES <= u64::MAX,
        ensures
            final(self).per_draw_capacity == MAX_EXPECTED_PER_DRAW_INSTANCES,
            r == old(self).per_draw_stride * MAX_EXPECTED_PER_DRAW_INSTANCES,
            final(self).per_draw_stride == old(self).per_draw_stride,
            final(self).ibl_irradiance_tex == old(self).ibl_irradiance_tex,
            final(self).ibl_prefilter_tex == old(self).ibl_prefilter_tex,
            final(self).ibl_brdf_lut_tex == old(self).ibl_brdf_lut_tex,
            final(self).depth_texture == old(self).depth_texture,
            final(self).groups@ == old(self).groups@,
    {
        self.per_draw_capacity = MAX_EXPECTED_PER_DRAW_INSTANCES;
        self.per_draw_stride * self.per_draw_capacity
    }

    /// Builds this frame's draw commands from the visible entries (in
    /// render-queue order), as `build_draw_groups` does with the ring's
    /// stride taken as `u32`; returns whether the frame needs more slots than
    /// the ring has.
    pub fn prepare_draw(&mut self, visible: &Vec<(RendererMaterialHandle, RendererMeshHandle)>) -> (r: bool)
        ensures
            groups_view(final(self).groups@) == group_positions(visible@, draw_order(visible@)),
            group_total(groups_view(final(self).groups@)) == visible@.len(),
            offsets_ok(final(self).groups@, old(self).per_draw_stride as u32),
            r == (old(self).per_draw_capacity < visible@.len()),
            final(self).per_draw_stride == old(self).per_draw_stride,
            final(self).per_draw_capacity == old(self).per_draw_capacity,
            final(self).ibl_irradiance_tex == old(self).ibl_irradiance_tex,
            final(self).ibl_prefilter_tex == old(self).ibl_prefilter_tex,
            final(self).ibl_brdf_lut_tex == old(self).ibl_brdf_lut_tex,
            final(self).depth_texture == old(self).depth_texture,
    {
        let stride: u32 = self.per_draw_stride as u32;
        let count: usize = visible.len();
        let groups = build_draw_groups(visible, stride);
        proof {
            lemma_every_entry_is_drawn_once(visible@, draw_order(visible@));
            positions(visible@.len()).lemma_sort_by_ensures(position_order(visible@));
            assert(draw_order(visible@).len() == visible@.len()) by {
                positions(visible@.len()).to_multiset_ensures();
                draw_order(visible@).to_multiset_ensures();
            }
            assert(visible@.len() == count);
            assert(group_total(groups_view(groups@)) <= u64::MAX);
        }
        let needed = instances_needed(&groups);
        self.groups = groups;
        self.per_draw_capacity < needed
    }
}


/// The positions, in order, of the groups whose material is ready to draw.
pub open spec fn ready_indices(ready: Seq<bool>) -> Seq<usize>
    decreases ready.len(),
{
    if ready.len() == 0 {
        Seq::empty()
    } else if ready.last() {
        ready_indices(ready.drop_last()).push((ready.len() - 1) as usize)
    } else {
        ready_indices(ready.drop_last())
    }
}

/// The groups that are drawn, in order: those whose material has both its
/// texture and its parameter bind group (`ready[g]` for group `g`); a group
/// whose material lacks either is skipped.
pub fn groups_to_draw(groups: &Vec<GroupCmd>, ready: &Vec<bool>) -> (r: Vec<usize>)
    requires
        ready@.len() == groups@.len(),
    ensures
        r@ == ready_indices(ready@),
        forall|k: int| 0 <= k < r@.len() ==> #[trigger] r@[k] < groups@.len() && ready@[r@[k] as int],
{
    let mut r: Vec<usize> = Vec::new();
    let mut g: usize = 0;
    while g < ready.len()
        invariant
            g <= ready@.len(),
            ready@.len() == groups@.len(),
            r@ == ready_indices(ready@.subrange(0, g as int)),
            forall|k: int| 0 <= k < r@.len() ==> #[trigger] r@[k] < g && ready@[r@[k] as int],
        decreases ready.len() - g,
    {
        assert(ready@.subrange(0, g + 1).drop_last() =~= ready@.subrange(0, g as int));
        assert(ready@.subrange(0, g + 1).last() == ready@[g as int]);
        if ready[g] {
            r.push(g);
        }
        g = g + 1;
    }
    assert(ready@.subrange(0, ready@.len() as int) == ready@);
    r
}

/// The bytes of the per-draw upload: one slot of `stride` bytes for every
/// instance of every group, drawn or not.
pub fn upload_len(groups: &Vec<GroupCmd>, stride: u64) -> (r: u64)
    requires
        group_total(groups_view(groups@)) * stride <= u64::MAX,
    ensures
        r == group_total(groups_view(groups@)) * stride,
{
    proof {
        lemma_group_total_nonneg(groups_view(groups@));
        if stride > 0 {
            assert(group_total(groups_view(groups@)) <= group_total(groups_view(groups@)) * stride) by (nonlinear_arith)
                requires
                    stride > 0,
                    group_total(groups_view(groups@)) >= 0,
            ;
        }
    }
    if stride == 0 {
        return 0;
    }
    let n = instances_needed(groups);
    n * stride
}

} // verus!
