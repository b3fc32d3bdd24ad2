use vstd::prelude::*;
use crate::LightId;
use crate::draw::{BufferId, Draw, RenderResourceBindings};
use crate::fbits::{Mat4Bits, Vec3Bits};

verus! {

// The shadow light registry: the live set of shadow-casting lights, keyed by
// stable identity, each with its per-light GPU state. Slots into the shared
// depth texture array are reassigned densely every frame; when more lights
// are registered than the configured capacity, the excess get no slot and
// are silently excluded from rendering until capacity frees.

/// The per-light state the pipeline carries across frames.
#[derive(Debug)]
pub struct ShadowLight {
    /// The host-writable staging buffer for this light's view-projection
    /// matrix; created on first use.
    pub staging_buffer: Option<BufferId>,
    /// The draw commands recorded for this light this frame.
    pub draw: Draw,
    /// The light's dense slot in the depth texture array this frame, absent
    /// until the first reindex or while the light is over capacity.
    pub texture_index: Option<usize>,
    /// The light's world position when last observed.
    pub pos: Vec3Bits,
    /// The light's view-projection matrix when last computed.
    pub view_proj: Mat4Bits,
    /// The light's GPU bindings; `view_proj` is set once its device buffer
    /// exists.
    pub bindings: RenderResourceBindings,
}

impl ShadowLight {
    /// The state a light is registered with, before any frame touched it.
    pub open spec fn is_fresh(self) -> bool {
        &&& self.staging_buffer is None
        &&& self.draw.render_commands@ == Seq::<crate::draw::RenderCommand>::empty()
        &&& self.texture_index is None
        &&& self.pos == Vec3Bits::spec_zero()
        &&& self.view_proj.cols() == Mat4Bits::identity_cols()
        &&& self.bindings == RenderResourceBindings::spec_default()
    }
}

impl Default for ShadowLight {
    fn default() -> (r: Self)
        ensures
            r.is_fresh(),
    {
        ShadowLight {
            staging_buffer: None,
            draw: Draw::new(),
            texture_index: None,
            pos: Vec3Bits::zero(),
            view_proj: Mat4Bits::identity(),
            bindings: RenderResourceBindings::new(),
        }
    }
}

/// One registered light: its stable identity and its state.
#[derive(Debug)]
pub struct LightEntry {
    pub id: LightId,
    pub light: ShadowLight,
}

/// Holds of the new entry after a reindex gave the old one a slot: only the
/// slot changed.
pub open spec fn reslotted(o: LightEntry, n: LightEntry, slot: Option<usize>) -> bool {
    n == (LightEntry { id: o.id, light: ShadowLight { texture_index: slot, ..o.light } })
}

/// The registry of shadow-casting lights.
#[derive(Debug)]
pub struct ShadowLights {
    /// At most this many lights are rendered concurrently; the depth texture
    /// array has this many layers.
    pub capacity: usize,
    /// The registered lights, in registration order.
    pub lights: Vec<LightEntry>,
    /// Lights already unregistered whose GPU buffers still await release;
    /// they are freed only once no queued work can reference them.
    pub retired: Vec<ShadowLight>,
}

impl ShadowLights {
    /// The registered identities, in registration order.
    pub open spec fn ids(self) -> Seq<LightId> {
        self.lights@.map_values(|e: LightEntry| e.id)
    }

    /// Identities are unique: the registry is a keyed collection.
    pub open spec fn wf(self) -> bool {
        forall|i: int, j: int|
            0 <= i < j < self.lights@.len() ==> self.lights@[i].id != self.lights@[j].id
    }

    pub open spec fn contains_id(self, id: LightId) -> bool {
        exists|i: int| 0 <= i < self.lights@.len() && self.lights@[i].id == id
    }

    /// How many lights render this frame: the registered count, capped at
    /// capacity.
    pub open spec fn active_count(self) -> int {
        if self.lights@.len() <= self.capacity {
            self.lights@.len() as int
        } else {
            self.capacity as int
        }
    }

    /// Slots are dense over the first `active_count` lights and absent
    /// beyond them; holds after a reindex until the set changes.
    pub open spec fn slots_dense(self) -> bool {
        forall|j: int|
            0 <= j < self.lights@.len() ==> (#[trigger] self.lights@[j]).light.texture_index == (
            if j < self.capacity {
                Some(j as usize)
            } else {
                None::<usize>
            })
    }

    pub fn new(capacity: usize) -> (r: ShadowLights)
        ensures
            r.wf(),
            r.capacity == capacity,
            r.lights@.len() == 0,
            r.retired@.len() == 0,
    {
        ShadowLights { capacity, lights: Vec::new(), retired: Vec::new() }
    }

    /// The index a registered identity sits at.
    pub fn index_of(&self, id: LightId) -> (r: Option<usize>)
        ensures
            match r {
                Some(i) => i < self.lights@.len() && self.lights@[i as int].id == id,
                None => !self.contains_id(id),
            },
    {
        let mut i: usize = 0;
        while i < self.lights.len()
            invariant
                i <= self.lights@.len(),
                forall|k: int| 0 <= k < i ==> self.lights@[k].id != id,
            decreases self.lights@.len() - i,
        {
            if self.lights[i].id == id {
                return Some(i);
            }
            i = i + 1;
        }
        None
    }

    /// Registers a light under its identity with fresh default state.
    /// Registering an identity already present changes nothing.
    pub fn add(&mut self, id: LightId)
        requires
            old(self).wf(),
        ensures
            final(self).wf(),
            final(self).capacity == old(self).capacity,
            final(self).retired@ == old(self).retired@,
            final(self).contains_id(id),
            forall|x: LightId|
                x != id ==> (final(self).contains_id(x) <==> old(self).contains_id(x)),
            old(self).contains_id(id) ==> final(self).lights@ == old(self).lights@,
            !old(self).contains_id(id) ==> {
                &&& final(self).lights@.len() == old(self).lights@.len() + 1
                &&& final(self).lights@.last().id == id
                &&& final(self).lights@.last().light.is_fresh()
            },
            forall|j: int|
                0 <= j < old(self).lights@.len() ==> final(self).lights@[j] == old(self).lights@[j],
    {
        if self.index_of(id).is_none() {
            self.lights.push(LightEntry { id, light: ShadowLight::default() });
            proof {
                let n = self.lights@.len() - 1;
                assert(self.lights@[n].id == id);
                assert forall|i: int, j: int|
                    0 <= i < j < self.lights@.len() implies self.lights@[i].id
                    != self.lights@[j].id by {
                    if j == n {
                        assert(!old(self).contains_id(id));
                        assert(old(self).lights@[i].id != id);
                    }
                }
                assert forall|x: LightId| x != id && final(self).contains_id(x) implies old(
                    self,
                ).contains_id(x) by {
                    let w = choose|w: int|
                        0 <= w < self.lights@.len() && self.lights@[w].id == x;
                    assert(w != n);
                    assert(old(self).lights@[w].id == x);
                }
                assert forall|x: LightId| x != id && old(self).contains_id(x)
                    implies final(self).contains_id(x) by {
                    let w = choose|w: int|
                        0 <= w < old(self).lights@.len() && old(self).lights@[w].id == x;
                    assert(self.lights@[w].id == x);
                }
            }
        } else {
            proof {
                let w = choose|w: int|
                    0 <= w < self.lights@.len() && self.lights@[w].id == id;
                assert(self.contains_id(id));
            }
        }
    }

    /// Unregisters a light: its entry leaves the registry and its state
    /// moves to the retired list, so its GPU buffers are released only once
    /// no in-flight work references them. Unregistering an absent identity
    /// is a no-op: no state change, no error.
    pub fn remove(&mut self, id: LightId)
        requires
            old(self).wf(),
        ensures
            final(self).wf(),
            final(self).capacity == old(self).capacity,
            !final(self).contains_id(id),
            forall|x: LightId|
                x != id ==> (final(self).contains_id(x) <==> old(self).contains_id(x)),
            !old(self).contains_id(id) ==> final(self).lights@ == old(self).lights@
                && final(self).retired@ == old(self).retired@,
            old(self).contains_id(id) ==> exists|k: int|
                {
                    &&& 0 <= k < old(self).lights@.len()
                    &&& old(self).lights@[k].id == id
                    &&& final(self).lights@ == old(self).lights@.remove(k)
                    &&& final(self).retired@ == old(self).retired@.push(
                        old(self).lights@[k].light,
                    )
                },
    {
        match self.index_of(id) {
            None => {
            },
            Some(k) => {
                let e = self.lights.remove(k);
                self.retired.push(e.light);
                proof {
                    assert forall|i: int, j: int|
                        0 <= i < j < self.lights@.len() implies self.lights@[i].id
                        != self.lights@[j].id by {
                        if j < k {
                        } else if i < k {
                            assert(self.lights@[j] == old(self).lights@[j + 1]);
                        } else {
                            assert(self.lights@[i] == old(self).lights@[i + 1]);
                            assert(self.lights@[j] == old(self).lights@[j + 1]);
                        }
                    }
                    assert forall|w: int|
                        0 <= w < self.lights@.len() implies self.lights@[w].id != id by {
                        if w < k {
                            assert(self.lights@[w] == old(self).lights@[w]);
                            assert(old(self).lights@[w].id != old(self).lights@[k as int].id);
                        } else {
                            assert(self.lights@[w] == old(self).lights@[w + 1]);
                            assert(old(self).lights@[w + 1].id != old(self).lights@[k as int].id);
                        }
                    }
                    assert forall|x: LightId| x != id && old(self).contains_id(x)
                        implies self.contains_id(x) by {
                        let w = choose|w: int|
                            0 <= w < old(self).lights@.len() && old(self).lights@[w].id == x;
                        if w < k {
                            assert(self.lights@[w].id == x);
                        } else {
                            assert(self.lights@[w - 1] == old(self).lights@[w]);
                        }
                    }
                    assert forall|x: LightId| x != id && self.contains_id(x) implies old(
                        self,
                    ).contains_id(x) by {
                        let w = choose|w: int|
                            0 <= w < self.lights@.len() && self.lights@[w].id == x;
                        if w < k {
                            assert(old(self).lights@[w].id == x);
                        } else {
                            assert(old(self).lights@[w + 1].id == x);
                        }
                    }
                }
            },
        }
    }

    /// Reassigns every light's texture slot densely in registration order:
    /// the first `capacity` lights get slots `0, 1, ...`; lights beyond
    /// capacity get none and are excluded from rendering this frame. Runs
    /// once per frame before every other stage.
    pub fn reindex(&mut self)
        requires
            old(self).wf(),
        ensures
            final(self).wf(),
            final(self).capacity == old(self).capacity,
            final(self).retired@ == old(self).retired@,
            final(self).lights@.len() == old(self).lights@.len(),
            final(self).slots_dense(),
            forall|j: int|
                0 <= j < old(self).lights@.len() ==> reslotted(
                    old(self).lights@[j],
                    final(self).lights@[j],
                    if j < old(self).capacity {
                        Some(j as usize)
                    } else {
                        None::<usize>
                    },
                ),
    {
        let ghost orig = self.lights@;
        let mut out: Vec<LightEntry> = Vec::new();
        while self.lights.len() > 0
            invariant
                out@.len() + self.lights@.len() == orig.len(),
                self.capacity == old(self).capacity,
                self.retired@ == old(self).retired@,
                self.lights@ =~= orig.skip(out@.len() as int),
                forall|j: int|
                    0 <= j < out@.len() ==> reslotted(
                        orig[j],
                        out@[j],
                        if j < old(self).capacity {
                            Some(j as usize)
                        } else {
                            None::<usize>
                        },
                    ),
            decreases self.lights@.len(),
        {
            let i = out.len();
            let mut e = self.lights.remove(0);
            proof {
                assert(e == orig[i as int]);
            }
            if i < self.capacity {
                e.light.texture_index = Some(i);
            } else {
                e.light.texture_index = None;
            }
            out.push(e);
            proof {
                assert(self.lights@ =~= orig.skip(out@.len() as int));
            }
        }
        self.lights = out;
        proof {
            assert(self.lights@.len() == orig.len());
            assert forall|j: int|
                0 <= j < self.lights@.len() implies (#[trigger] self.lights@[j]).light.texture_index
                == (if j < self.capacity {
                Some(j as usize)
            } else {
                None::<usize>
            }) by {
                let slot = if j < old(self).capacity {
                    Some(j as usize)
                } else {
                    None::<usize>
                };
                assert(reslotted(orig[j], self.lights@[j], slot));
                assert(self.lights@[j].light == (ShadowLight {
                    texture_index: slot,
                    ..orig[j].light
                }));
            }
        }
        proof {
            assert forall|i2: int, j2: int|
                0 <= i2 < j2 < self.lights@.len() implies self.lights@[i2].id
                != self.lights@[j2].id by {
                assert(reslotted(
                    orig[i2],
                    self.lights@[i2],
                    if i2 < old(self).capacity {
                        Some(i2 as usize)
                    } else {
                        None::<usize>
                    },
                ));
                assert(reslotted(
                    orig[j2],
                    self.lights@[j2],
                    if j2 < old(self).capacity {
                        Some(j2 as usize)
                    } else {
                        None::<usize>
                    },
                ));
            }
        }
    }

    /// The identities that render this frame, in slot order: position `i`
    /// holds the light occupying slot `i`.
    pub fn active_lights(&self) -> (r: Vec<LightId>)
        requires
            self.wf(),
        ensures
            r@.len() == self.active_count(),
            forall|i: int| 0 <= i < r@.len() ==> r@[i] == self.ids()[i],
    {
        let n = if self.lights.len() <= self.capacity {
            self.lights.len()
        } else {
            self.capacity
        };
        let mut out: Vec<LightId> = Vec::new();
        let mut i: usize = 0;
        while i < n
            invariant
                i <= n,
                n == self.active_count(),
                self.lights@.len() >= n,
                out@.len() == i,
                forall|k: int| 0 <= k < i ==> out@[k] == self.ids()[k],
            decreases n - i,
        {
            out.push(self.lights[i].id);
            i = i + 1;
        }
        out
    }
}

/// Whatever sequence of register and unregister calls produced the registry,
/// once a reindex has run the lights holding slots are exactly the first
/// `min(count, capacity)` registered lights, each at the slot equal to its
/// registration position — a dense range — and every light past capacity
/// holds none until capacity frees.
pub proof fn lemma_active_lights_dense(s: ShadowLights)
    requires
        s.wf(),
        s.slots_dense(),
    ensures
        forall|j: int|
            0 <= j < s.active_count() ==> (#[trigger] s.lights@[j]).light.texture_index == Some(
                j as usize,
            ),
        forall|j: int|
            s.active_count() <= j < s.lights@.len() ==> (#[trigger] s.lights@[
                j
            ]).light.texture_index is None,
        s.lights@.len() <= s.capacity ==> s.active_count() == s.lights@.len(),
        s.lights@.len() > s.capacity ==> s.active_count() == s.capacity,
{
}

/// Registers every newly observed light; the scene collaborator supplies
/// the identities added since last frame.
pub fn shadow_lights_register_system(shadow_lights: &mut ShadowLights, added: &Vec<LightId>)
    requires
        old(shadow_lights).wf(),
    ensures
        final(shadow_lights).wf(),
        final(shadow_lights).capacity == old(shadow_lights).capacity,
        final(shadow_lights).retired@ == old(shadow_lights).retired@,
        // Every identity handed in is registered afterwards, and nothing is
        // registered that was not already there or handed in.
        forall|id: LightId| added@.contains(id) ==> final(shadow_lights).contains_id(id),
        forall|id: LightId|
            final(shadow_lights).contains_id(id) ==> old(shadow_lights).contains_id(id)
                || added@.contains(id),
        // Entries present before are untouched.
        forall|j: int|
            0 <= j < old(shadow_lights).lights@.len() ==> final(shadow_lights).lights@[j] == old(
                shadow_lights,
            ).lights@[j],
        final(shadow_lights).lights@.len() >= old(shadow_lights).lights@.len(),
        // Entries appended are fresh.
        forall|j: int|
            old(shadow_lights).lights@.len() <= j < final(shadow_lights).lights@.len() ==> (
            #[trigger] final(shadow_lights).lights@[j]).light.is_fresh() && added@.contains(
                final(shadow_lights).lights@[j].id,
            ),
{
    let mut i: usize = 0;
    while i < added.len()
        invariant
            i <= added@.len(),
            shadow_lights.wf(),
            shadow_lights.capacity == old(shadow_lights).capacity,
            shadow_lights.retired@ == old(shadow_lights).retired@,
            forall|k: int| 0 <= k < i ==> shadow_lights.contains_id(added@[k]),
            forall|id: LightId|
                shadow_lights.contains_id(id) ==> old(shadow_lights).contains_id(id)
                    || added@.contains(id),
            forall|j: int|
                0 <= j < old(shadow_lights).lights@.len() ==> shadow_lights.lights@[j] == old(
                    shadow_lights,
                ).lights@[j],
            shadow_lights.lights@.len() >= old(shadow_lights).lights@.len(),
            forall|j: int|
                old(shadow_lights).lights@.len() <= j < shadow_lights.lights@.len() ==> (
                #[trigger] shadow_lights.lights@[j]).light.is_fresh() && added@.contains(
                    shadow_lights.lights@[j].id,
                ),
        decreases added@.len() - i,
    {
        proof {
            assert(added@.contains(added@[i as int]));
        }
        shadow_lights.add(added[i]);
        i = i + 1;
    }
}

/// Unregisters every light the scene removed; absent identities are
/// silently ignored.
pub fn shadow_lights_remove_system(shadow_lights: &mut ShadowLights, removed: &Vec<LightId>)
    requires
        old(shadow_lights).wf(),
    ensures
        final(shadow_lights).wf(),
        final(shadow_lights).capacity == old(shadow_lights).capacity,
        // Every identity handed in is gone afterwards.
        forall|id: LightId| removed@.contains(id) ==> !final(shadow_lights).contains_id(id),
        // Nothing else was unregistered.
        forall|id: LightId|
            old(shadow_lights).contains_id(id) && !removed@.contains(id)
                ==> final(shadow_lights).contains_id(id),
        forall|id: LightId|
            final(shadow_lights).contains_id(id) ==> old(shadow_lights).contains_id(id),
{
    let mut i: usize = 0;
    while i < removed.len()
        invariant
            i <= removed@.len(),
            shadow_lights.wf(),
            shadow_lights.capacity == old(shadow_lights).capacity,
            forall|k: int| 0 <= k < i ==> !shadow_lights.contains_id(removed@[k]),
            forall|id: LightId|
                old(shadow_lights).contains_id(id) && !removed@.contains(id)
                    ==> shadow_lights.contains_id(id),
            forall|id: LightId|
                shadow_lights.contains_id(id) ==> old(shadow_lights).contains_id(id),
        decreases removed@.len() - i,
    {
        proof {
            assert(removed@.contains(removed@[i as int]));
        }
        shadow_lights.remove(removed[i]);
        i = i + 1;
    }
}

} // verus!
