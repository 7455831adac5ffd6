//! Engine components and resources without GPU or device state of their own:
//! the debug UI and render-state flags, textures as resources, and the
//! force-feedback bookkeeping of the haptics system.
use indexmap::IndexMap;
use vstd::prelude::*;

verus! {

/// The debug UI component; its window is drawn from the engine's state.
pub struct EguiManagerComponent {}

impl EguiManagerComponent {
    /// The component.
    pub fn new() -> (r: Self) {
        EguiManagerComponent {}
    }
}

/// Whether the renderer has finished its boot sequence.
pub struct RenderStateComponent {
    pub boot_done: bool,
}

impl RenderStateComponent {
    /// The component in its pre-boot state.
    pub fn new() -> (r: Self)
        ensures
            !r.boot_done,
    {
        RenderStateComponent { boot_done: false }
    }
}

/// Directions relative to an object, or to the world.
#[derive(Debug, Clone, Copy, PartialEq, Eq, Structural)]
pub enum Direction {
    Forward,
    Backward,
    Right,
    Left,
    Up,
    Down,
    WorldForward,
    WorldBackward,
    WorldRight,
    WorldLeft,
    WorldUp,
    WorldDown,
}

/// How a texture is sampled.
#[derive(Clone, Copy, Debug, PartialEq, Eq, Structural)]
pub enum TextureType {
    Color,
    Normal,
}

/// Where a resource's data comes from: a file under the game's resource
/// directory, or bytes in memory.
#[derive(Clone, Debug)]
pub enum ResourceLoader {
    Path(String),
    Bytes(Vec<u8>),
}

/// A texture resource: its name, where its image comes from, and its type.
pub struct Texture {
    pub name: String,
    pub resource_loader: ResourceLoader,
    pub texture_type: TextureType,
}

impl Texture {
    /// A texture named `name`, loaded as `resource_loader` says.
    pub fn new(name: &str, texture_type: TextureType, resource_loader: ResourceLoader) -> (r: Self)
        ensures
            r.name@ == name@,
            r.texture_type == texture_type,
            r.resource_loader == resource_loader,
    {
        Texture { name: name.to_string(), resource_loader, texture_type }
    }

    /// A texture named `name` whose image is a copy of `bytes`.
    pub fn from_bytes(name: &str, texture_type: TextureType, bytes: &[u8]) -> (r: Self)
        ensures
            r.name@ == name@,
            r.texture_type == texture_type,
            r.resource_loader matches ResourceLoader::Bytes(b) && b@ == bytes@,
    {
        let mut copy: Vec<u8> = Vec::new();
        let mut i: usize = 0;
        while i < bytes.len()
            invariant
                i <= bytes.len(),
                copy@ == bytes@.subrange(0, i as int),
            decreases bytes.len() - i,
        {
            copy.push(bytes[i]);
            assert(bytes@.subrange(0, i + 1) == bytes@.subrange(0, i as int).push(bytes@[i as int]));
            i = i + 1;
        }
        assert(bytes@.subrange(0, bytes@.len() as int) == bytes@);
        Self::new(name, texture_type, ResourceLoader::Bytes(copy))
    }
}

/// A material's texture slots: each slot's name and the key of the texture in
/// it, in the order the slots were declared.
pub struct MaterialTextures {
    pub name: String,
    pub textures: IndexMap<String, u64>,
}

/// The slots of a texture map, in the map's order: each slot's name and the
/// key of its texture.
pub uninterp spec fn texture_entries(m: IndexMap<String, u64>) -> Seq<(Seq<char>, u64)>;

/// Whether some slot is named `name`.
pub open spec fn has_name(slots: Seq<(Seq<char>, u64)>, name: Seq<char>) -> bool {
    exists|i: int| 0 <= i < slots.len() && slots[i].0 == name
}

/// `IndexMap::new`: a map with no slots.
#[verifier::external_body]
fn texture_map_new() -> (r: IndexMap<String, u64>)
    ensures
        texture_entries(r) == Seq::<(Seq<char>, u64)>::empty(),
{
    IndexMap::new()
}

/// `IndexMap::len`: the number of slots.
#[verifier::external_body]
fn texture_count(m: &IndexMap<String, u64>) -> (r: usize)
    ensures
        r == texture_entries(*m).len(),
{
    m.len()
}

/// `IndexMap::get_index`: the slot at a position of the map's order; `None`
/// past the end. A map holds each name once, so no other slot has that name.
#[verifier::external_body]
fn texture_at(m: &IndexMap<String, u64>, i: usize) -> (r: Option<(&String, u64)>)
    ensures
        match r {
            Some((name, key)) => i < texture_entries(*m).len() && name@ == texture_entries(*m)[i as int].0 && key
                == texture_entries(*m)[i as int].1 && forall|j: int|
                0 <= j < texture_entries(*m).len() && j != i ==> texture_entries(*m)[j].0 != name@,
            None => i >= texture_entries(*m).len(),
        },
{
    m.get_index(i).map(|(name, key)| (name, *key))
}

/// `IndexMap::insert`: a name the map does not hold goes last, with its key;
/// a name it holds keeps its place and takes the new key.
#[verifier::external_body]
fn texture_insert(m: &mut IndexMap<String, u64>, name: String, key: u64)
    ensures
        !has_name(texture_entries(*old(m)), name@) ==> texture_entries(*final(m)) == texture_entries(*old(m)).push(
            (name@, key),
        ),
        forall|i: int|
            0 <= i < texture_entries(*old(m)).len() && texture_entries(*old(m))[i].0 == name@ ==> texture_entries(
                *final(m),
            ) == texture_entries(*old(m)).update(i, (name@, key)),
{
    m.insert(name, key);
}

/// The slots that do not hold the texture `key`, in order.
pub open spec fn without_texture(slots: Seq<(Seq<char>, u64)>, key: u64) -> Seq<(Seq<char>, u64)>
    decreases slots.len(),
{
    if slots.len() == 0 {
        Seq::empty()
    } else if slots.last().1 == key {
        without_texture(slots.drop_last(), key)
    } else {
        without_texture(slots.drop_last(), key).push(slots.last())
    }
}

/// The names, in order, of the materials that lose a slot when texture `key`
/// goes.
pub open spec fn affected_materials(ms: Seq<MaterialTextures>, key: u64) -> Seq<Seq<char>>
    decreases ms.len(),
{
    if ms.len() == 0 {
        Seq::empty()
    } else if without_texture(texture_entries(ms.last().textures), key).len() < texture_entries(
        ms.last().textures,
    ).len() {
        affected_materials(ms.drop_last(), key).push(ms.last().name@)
    } else {
        affected_materials(ms.drop_last(), key)
    }
}

/// The names of the given strings.
pub open spec fn names_of(v: Seq<String>) -> Seq<Seq<char>> {
    v.map_values(|s: String| s@)
}

/// Every slot that `without_texture` keeps is a slot of the input.
proof fn lemma_without_texture_from(slots: Seq<(Seq<char>, u64)>, key: u64, name: Seq<char>)
    requires
        has_name(without_texture(slots, key), name),
    ensures
        has_name(slots, name),
    decreases slots.len(),
{
    let w = without_texture(slots, key);
    let i = choose|i: int| 0 <= i < w.len() && w[i].0 == name;
    let rest = slots.drop_last();
    let wr = without_texture(rest, key);
    if slots.last().1 == key || i < wr.len() {
        if slots.last().1 != key {
            assert(w[i] == wr[i]);
        }
        assert(has_name(wr, name));
        lemma_without_texture_from(rest, key, name);
        let j = choose|j: int| 0 <= j < rest.len() && rest[j].0 == name;
        assert(slots[j] == rest[j]);
    } else {
        assert(slots[slots.len() - 1].0 == name);
    }
}

/// Removes texture `key` from the slots that hold it, keeping the others in
/// their order.
fn drop_texture(slots: &IndexMap<String, u64>, key: u64) -> (r: IndexMap<String, u64>)
    ensures
        texture_entries(r) == without_texture(texture_entries(*slots), key),
{
    let ghost all = texture_entries(*slots);
    let n = texture_count(slots);
    let mut r = texture_map_new();
    let mut i: usize = 0;
    while i < n
        invariant
            i <= n,
            n == all.len(),
            all == texture_entries(*slots),
            texture_entries(r) == without_texture(all.subrange(0, i as int), key),
        decreases n - i,
    {
        assert(all.subrange(0, i + 1).drop_last() == all.subrange(0, i as int));
        assert(all.subrange(0, i + 1).last() == all[i as int]);
        let (name, k) = texture_at(slots, i).unwrap();
        if k != key {
            proof {
                if has_name(texture_entries(r), name@) {
                    lemma_without_texture_from(all.subrange(0, i as int), key, name@);
                    let j = choose|j: int| 0 <= j < i && all.subrange(0, i as int)[j].0 == name@;
                    assert(all[j].0 == all[i as int].0);
                }
            }
            texture_insert(&mut r, name.clone(), k);
        }
        i = i + 1;
    }
    assert(all.subrange(0, all.len() as int) == all);
    r
}

/// When texture `key` is destroyed, every material slot holding it is
/// emptied; the names of the materials that changed are returned, in order,
/// for their texture bindings to be rebuilt.
pub fn detach_texture(materials: &mut Vec<MaterialTextures>, key: u64) -> (r: Vec<String>)
    ensures
        final(materials)@.len() == old(materials)@.len(),
        forall|i: int|
            0 <= i < old(materials)@.len() ==> #[trigger] texture_entries(final(materials)@[i].textures)
                == without_texture(texture_entries(old(materials)@[i].textures), key) && final(materials)@[i].name
                == old(materials)@[i].name,
        names_of(r@) == affected_materials(old(materials)@, key),
{
    let ghost start = materials@;
    let mut affected: Vec<String> = Vec::new();
    let mut i: usize = 0;
    while i < materials.len()
        invariant
            i <= materials.len(),
            materials@.len() == start.len(),
            forall|j: int|
                0 <= j < i ==> #[trigger] texture_entries(materials@[j].textures) == without_texture(
                    texture_entries(start[j].textures),
                    key,
                ) && materials@[j].name == start[j].name,
            forall|j: int| i <= j < start.len() ==> #[trigger] materials@[j] == start[j],
            names_of(affected@) == affected_materials(start.subrange(0, i as int), key),
        decreases materials.len() - i,
    {
        assert(start.subrange(0, i + 1).drop_last() == start.subrange(0, i as int));
        assert(start.subrange(0, i + 1).last() == start[i as int]);
        let m = materials.remove(i);
        let kept = drop_texture(&m.textures, key);
        let changed = texture_count(&kept) < texture_count(&m.textures);
        if changed {
            let name = m.name.clone();
            let ghost before = affected@;
            affected.push(name);
            assert(names_of(affected@) =~= names_of(before).push(m.name@));
        }
        materials.insert(i, MaterialTextures { name: m.name, textures: kept });
        i = i + 1;
    }
    assert(start.subrange(0, start.len() as int) == start);
    affected
}

/// After a texture is detached, no slot holds it, and a material counts as
/// changed exactly when one of its slots held it.
pub proof fn lemma_detached_texture_is_gone(slots: Seq<(Seq<char>, u64)>, key: u64)
    ensures
        forall|i: int| 0 <= i < without_texture(slots, key).len() ==> (#[trigger] without_texture(slots, key)[i]).1 != key,
        without_texture(slots, key).len() <= slots.len(),
        (without_texture(slots, key).len() < slots.len()) <==> (exists|i: int| 0 <= i < slots.len() && (#[trigger] slots[i]).1 == key),
    decreases slots.len(),
{
    if slots.len() > 0 {
        let rest = slots.drop_last();
        lemma_detached_texture_is_gone(rest, key);
        let w = without_texture(rest, key);
        if slots.last().1 == key {
            assert(slots[slots.len() - 1].1 == key);
        } else {
            assert forall|i: int| 0 <= i < without_texture(slots, key).len() implies (#[trigger] without_texture(
                slots,
                key,
            )[i]).1 != key by {
                if i < w.len() {
                    assert(without_texture(slots, key)[i] == w[i]);
                }
            }
            if exists|i: int| 0 <= i < slots.len() && (#[trigger] slots[i]).1 == key {
                let i = choose|i: int| 0 <= i < slots.len() && (#[trigger] slots[i]).1 == key;
                assert(i < slots.len() - 1);
                assert(rest[i] == slots[i]);
            }
            if exists|i: int| 0 <= i < rest.len() && (#[trigger] rest[i]).1 == key {
                let i = choose|i: int| 0 <= i < rest.len() && (#[trigger] rest[i]).1 == key;
                assert(slots[i] == rest[i]);
            }
        }
        if exists|i: int| 0 <= i < rest.len() && (#[trigger] rest[i]).1 == key {
            let i = choose|i: int| 0 <= i < rest.len() && (#[trigger] rest[i]).1 == key;
            assert(slots[i] == rest[i]);
        }
    }
}

/// A force-feedback effect that is playing, on gamepad `id`, until engine time
/// `end_at_ms`.
pub struct InFlight<E> {
    pub id: u64,
    pub effect: E,
    pub end_at_ms: u64,
}

/// A haptic request: the player whose gamepad should play it, and for how
/// long.
#[derive(Clone, Copy, Debug, PartialEq, Eq, Structural)]
pub struct HapticRequest {
    pub player_id: u32,
    pub duration_ms: u32,
}

/// The player slot a haptic request is for.
pub fn cmd_player_index(cmd: &HapticRequest) -> (r: usize)
    ensures
        r == cmd.player_id,
{
    cmd.player_id as usize
}

/// An effect to start: which request, on which gamepad, and until when.
#[derive(Clone, Copy, Debug, PartialEq, Eq, Structural)]
pub struct HapticPlay {
    pub request: usize,
    pub gamepad_id: u64,
    pub end_at_ms: u64,
}

/// The effects still playing at `now`: those that end later.
pub open spec fn still_playing<E>(fx: Seq<InFlight<E>>, now: u64) -> Seq<InFlight<E>>
    decreases fx.len(),
{
    if fx.len() == 0 {
        Seq::empty()
    } else if now < fx.last().end_at_ms {
        still_playing(fx.drop_last(), now).push(fx.last())
    } else {
        still_playing(fx.drop_last(), now)
    }
}

/// The effects to start for the requests, in order: a request goes to the
/// gamepad in its player's slot, and is dropped where the slot is empty or the
/// gamepad has no force feedback. Each plays for its duration from `now`.
pub open spec fn haptic_plays(
    reqs: Seq<HapticRequest>,
    slots: Seq<Option<u64>>,
    ff_supported: Seq<bool>,
    now: u64,
) -> Seq<HapticPlay>
    decreases reqs.len(),
{
    if reqs.len() == 0 {
        Seq::empty()
    } else {
        let before = haptic_plays(reqs.drop_last(), slots, ff_supported, now);
        let q = reqs.last();
        match slots[q.player_id as int] {
            Some(id) => if ff_supported[q.player_id as int] {
                before.push(
                    HapticPlay {
                        request: (reqs.len() - 1) as usize,
                        gamepad_id: id,
                        end_at_ms: crate::net_state::later(now, q.duration_ms as u64),
                    },
                )
            } else {
                before
            },
            None => before,
        }
    }
}

/// One frame of the haptics system at engine time `now_ms`: effects that have
/// ended are dropped, and the effects to start are chosen for the queued
/// requests, as `haptic_plays` says. `gamepad_ids` holds each player's gamepad,
/// `ff_supported` whether that gamepad has force feedback; every request names
/// a player slot.
pub fn haptics_system<E>(
    in_flight: &mut Vec<InFlight<E>>,
    now_ms: u64,
    requests: &Vec<HapticRequest>,
    gamepad_ids: &Vec<Option<u64>>,
    ff_supported: &Vec<bool>,
) -> (r: Vec<HapticPlay>)
    requires
        ff_supported@.len() == gamepad_ids@.len(),
        forall|i: int| 0 <= i < requests@.len() ==> (#[trigger] requests@[i]).player_id < gamepad_ids@.len(),
    ensures
        final(in_flight)@ == still_playing(old(in_flight)@, now_ms),
        r@ == haptic_plays(requests@, gamepad_ids@, ff_supported@, now_ms),
{
    let ghost start = in_flight@;
    let mut kept: Vec<InFlight<E>> = Vec::new();
    let mut rest: Vec<InFlight<E>> = Vec::new();
    std::mem::swap(&mut rest, in_flight);
    // Taken from the back, so the kept effects come out in reverse order.
    let mut reversed: Vec<InFlight<E>> = Vec::new();
    while rest.len() > 0
        invariant
            rest@ == start.subrange(0, rest@.len() as int),
            rest@.len() <= start.len(),
            still_playing(start, now_ms) == still_playing(rest@, now_ms) + reversed@.reverse(),
        decreases rest.len(),
    {
        let ghost pre = rest@;
        let f = rest.pop().unwrap();
        assert(pre.drop_last() == rest@);
        if now_ms < f.end_at_ms {
            let ghost rb = reversed@;
            reversed.push(f);
            assert(reversed@.reverse() =~= seq![pre.last()] + rb.reverse());
        }
    }
    while reversed.len() > 0
        invariant
            still_playing(start, now_ms) == kept@ + reversed@.reverse(),
        decreases reversed.len(),
    {
        let ghost rb = reversed@;
        let f = reversed.pop().unwrap();
        assert(rb.reverse() =~= seq![f] + reversed@.reverse());
        kept.push(f);
    }
    assert(reversed@.reverse() =~= Seq::<InFlight<E>>::empty());
    *in_flight = kept;
    let mut plays: Vec<HapticPlay> = Vec::new();
    let mut k: usize = 0;
    while k < requests.len()
        invariant
            k <= requests.len(),
            ff_supported@.len() == gamepad_ids@.len(),
            forall|i: int| 0 <= i < requests@.len() ==> (#[trigger] requests@[i]).player_id < gamepad_ids@.len(),
            plays@ == haptic_plays(requests@.subrange(0, k as int), gamepad_ids@, ff_supported@, now_ms),
        decreases requests.len() - k,
    {
        let ghost pre = requests@.subrange(0, k as int);
        let ghost next = requests@.subrange(0, k + 1);
        assert(next.drop_last() == pre);
        assert(next.last() == requests@[k as int]);
        let q = requests[k];
        let slot = cmd_player_index(&q);
        match gamepad_ids[slot] {
            Some(id) => {
                if ff_supported[slot] {
                    plays.push(
                        HapticPlay { request: k, gamepad_id: id, end_at_ms: now_ms.saturating_add(q.duration_ms as u64) },
                    );
                }
            },
            None => {},
        }
        k = k + 1;
    }
    assert(requests@.subrange(0, requests@.len() as int) == requests@);
    plays
}

} // verus!
