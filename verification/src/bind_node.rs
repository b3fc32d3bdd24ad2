use vstd::prelude::*;
use crate::fbits::{F32_ZERO_BITS, Mat4Bits, Vec3Bits};
use crate::draw::{BufferBinding, BufferId, RenderResourceBindings};
use crate::gpu::{BufferInfo, BufferMapMode, BufferUsage, CommandQueue, GpuCommand,
    RenderResources};
use crate::registry::ShadowLights;

verus! {

// The light uniform bind stage: once per frame it packs every active
// light's {slot, position, view-projection} into the shared uniform buffer
// through the staging buffer, enqueues the staging-to-device copy — skipped
// entirely when no light is active — and publishes the device buffer under
// the binding the main pass samples.

/// One packed light as the main pass reads it: the texture slot repeated
/// over a four-word boundary, the position padded to four words, and the
/// view-projection matrix, column-major.
#[derive(Clone, Copy, Debug, PartialEq, Eq)]
pub struct DirectionalLightUniform {
    pub texture_index: [u32; 4],
    pub pos: [u32; 4],
    pub view_proj: [u32; 16],
}

impl DirectionalLightUniform {
    /// The uniform's 24 words in buffer order.
    pub open spec fn words(self) -> Seq<u32> {
        self.texture_index@ + self.pos@ + self.view_proj@
    }
}

/// A uniform's 24 words for a light at the given slot.
pub open spec fn spec_uniform_words(slot: u32, pos: Vec3Bits, view_proj: Seq<u32>) -> Seq<u32> {
    seq![slot, slot, slot, slot, pos.x, pos.y, pos.z, F32_ZERO_BITS] + view_proj
}

/// The four little-endian bytes of one word.
pub open spec fn u32_le_bytes(x: u32) -> Seq<u8> {
    seq![
        (x & 0xFF) as u8,
        ((x >> 8) & 0xFF) as u8,
        ((x >> 16) & 0xFF) as u8,
        ((x >> 24) & 0xFF) as u8,
    ]
}

/// The word read back from four little-endian bytes.
pub open spec fn u32_from_le(b0: u8, b1: u8, b2: u8, b3: u8) -> u32 {
    (b0 as u32) | ((b1 as u32) << 8) | ((b2 as u32) << 16) | ((b3 as u32) << 24)
}

/// Reading back the four bytes of a word yields the word.
pub proof fn lemma_u32_le_roundtrip(x: u32)
    ensures
        u32_from_le(
            u32_le_bytes(x)[0],
            u32_le_bytes(x)[1],
            u32_le_bytes(x)[2],
            u32_le_bytes(x)[3],
        ) == x,
{
    assert((((x & 0xFF) as u8) as u32) | (((((x >> 8) & 0xFF) as u8) as u32) << 8) | (((((x >> 16)
        & 0xFF) as u8) as u32) << 16) | (((((x >> 24) & 0xFF) as u8) as u32) << 24) == x)
        by (bit_vector);
}

/// A word sequence laid out as little-endian bytes, first word first.
pub open spec fn words_le_bytes(ws: Seq<u32>) -> Seq<u8>
    decreases ws.len(),
{
    if ws.len() == 0 {
        Seq::empty()
    } else {
        words_le_bytes(ws.drop_last()) + u32_le_bytes(ws.last())
    }
}

pub proof fn lemma_words_le_bytes_len(ws: Seq<u32>)
    ensures
        words_le_bytes(ws).len() == 4 * ws.len(),
    decreases ws.len(),
{
    if ws.len() > 0 {
        lemma_words_le_bytes_len(ws.drop_last());
    }
}

/// Word `k`'s bytes sit at offsets `4k .. 4k + 4`.
pub proof fn lemma_words_le_bytes_index(ws: Seq<u32>, k: int)
    requires
        0 <= k < ws.len(),
    ensures
        forall|b: int| 0 <= b < 4 ==> words_le_bytes(ws)[4 * k + b] == u32_le_bytes(ws[k])[b],
    decreases ws.len(),
{
    lemma_words_le_bytes_len(ws.drop_last());
    if k == ws.len() - 1 {
        assert forall|b: int| 0 <= b < 4 implies words_le_bytes(ws)[4 * k + b] == u32_le_bytes(
            ws[k],
        )[b] by {
            assert(words_le_bytes(ws)[4 * k + b] == u32_le_bytes(ws.last())[b]);
        }
    } else {
        lemma_words_le_bytes_index(ws.drop_last(), k);
        assert forall|b: int| 0 <= b < 4 implies words_le_bytes(ws)[4 * k + b] == u32_le_bytes(
            ws[k],
        )[b] by {
            assert(words_le_bytes(ws)[4 * k + b] == words_le_bytes(ws.drop_last())[4 * k + b]);
            assert(ws.drop_last()[k] == ws[k]);
        }
    }
}

/// Appends a word's four little-endian bytes.
pub fn push_u32_le(out: &mut Vec<u8>, x: u32)
    ensures
        final(out)@ == old(out)@ + u32_le_bytes(x),
{
    out.push((x & 0xFF) as u8);
    out.push(((x >> 8) & 0xFF) as u8);
    out.push(((x >> 16) & 0xFF) as u8);
    out.push(((x >> 24) & 0xFF) as u8);
    proof {
        assert(out@ =~= old(out)@ + u32_le_bytes(x));
    }
}

/// Appends every word's bytes, first word first.
pub fn push_words_le(out: &mut Vec<u8>, ws: &Vec<u32>)
    ensures
        final(out)@ == old(out)@ + words_le_bytes(ws@),
{
    let ghost start = out@;
    let mut k: usize = 0;
    while k < ws.len()
        invariant
            k <= ws@.len(),
            out@ == start + words_le_bytes(ws@.take(k as int)),
        decreases ws@.len() - k,
    {
        push_u32_le(out, ws[k]);
        proof {
            let t = ws@.take(k + 1 as int);
            assert(t.drop_last() =~= ws@.take(k as int));
            assert(t.last() == ws@[k as int]);
            assert(out@ =~= start + words_le_bytes(t));
        }
        k = k + 1;
    }
    proof {
        assert(ws@.take(ws@.len() as int) =~= ws@);
    }
}

/// Builds the 24 words of one light's uniform.
pub fn uniform_words_vec(slot: u32, pos: Vec3Bits, view_proj: &Mat4Bits) -> (r: Vec<u32>)
    ensures
        r@ == spec_uniform_words(slot, pos, view_proj.cols()),
{
    let mut ws: Vec<u32> = Vec::new();
    ws.push(slot);
    ws.push(slot);
    ws.push(slot);
    ws.push(slot);
    ws.push(pos.x);
    ws.push(pos.y);
    ws.push(pos.z);
    ws.push(F32_ZERO_BITS);
    let mut k: usize = 0;
    while k < 16
        invariant
            k <= 16,
            ws@ == seq![slot, slot, slot, slot, pos.x, pos.y, pos.z, F32_ZERO_BITS]
                + view_proj.m@.take(k as int),
        decreases 16 - k,
    {
        ws.push(view_proj.m[k]);
        proof {
            assert(view_proj.m@.take(k + 1 as int) =~= view_proj.m@.take(k as int).push(
                view_proj.m@[k as int],
            ));
            assert(ws@ =~= seq![slot, slot, slot, slot, pos.x, pos.y, pos.z, F32_ZERO_BITS]
                + view_proj.m@.take(k + 1 as int));
        }
        k = k + 1;
    }
    proof {
        assert(view_proj.m@.take(16) =~= view_proj.m@);
        assert(ws@ =~= spec_uniform_words(slot, pos, view_proj.cols()));
    }
    ws
}

/// Bytes per packed light uniform: 24 words of 4 bytes.
pub const UNIFORM_SIZE: usize = 96;

/// The words of the light at registry position `j`, under its assigned slot.
pub open spec fn spec_entry_words(s: ShadowLights, j: int) -> Seq<u32> {
    spec_uniform_words(
        s.lights@[j].light.texture_index.unwrap() as u32,
        s.lights@[j].light.pos,
        s.lights@[j].light.view_proj.cols(),
    )
}

/// The shared buffer's packed contents for the first `n` lights: each one's
/// uniform bytes, in slot order.
pub open spec fn spec_packed_bytes(s: ShadowLights, n: int) -> Seq<u8>
    decreases n,
{
    if n <= 0 {
        Seq::empty()
    } else {
        spec_packed_bytes(s, n - 1) + words_le_bytes(spec_entry_words(s, n - 1))
    }
}

pub proof fn lemma_packed_bytes_len(s: ShadowLights, n: int)
    requires
        n >= 0,
        forall|j: int| 0 <= j < n ==> #[trigger] spec_entry_words(s, j).len() == 24,
    ensures
        spec_packed_bytes(s, n).len() == 96 * n,
    decreases n,
{
    if n > 0 {
        lemma_packed_bytes_len(s, n - 1);
        lemma_words_le_bytes_len(spec_entry_words(s, n - 1));
    }
}

/// Slot `j`'s 96 bytes of the packed buffer are exactly light `j`'s uniform
/// bytes.
pub proof fn lemma_packed_bytes_slot(s: ShadowLights, n: int, j: int)
    requires
        0 <= j < n,
        forall|j2: int| 0 <= j2 < n ==> #[trigger] spec_entry_words(s, j2).len() == 24,
    ensures
        spec_packed_bytes(s, n).subrange(96 * j, 96 * j + 96) =~= words_le_bytes(
            spec_entry_words(s, j),
        ),
    decreases n,
{
    lemma_packed_bytes_len(s, n - 1);
    lemma_words_le_bytes_len(spec_entry_words(s, n - 1));
    if j == n - 1 {
        assert(spec_packed_bytes(s, n).subrange(96 * j, 96 * j + 96) =~= words_le_bytes(
            spec_entry_words(s, j),
        ));
    } else {
        lemma_packed_bytes_slot(s, n - 1, j);
        assert(spec_packed_bytes(s, n).subrange(96 * j, 96 * j + 96) =~= spec_packed_bytes(
            s,
            n - 1,
        ).subrange(96 * j, 96 * j + 96));
    }
}

/// Every active light's uniform holds 24 words.
pub proof fn lemma_entry_words_len(s: ShadowLights)
    ensures
        forall|j: int| 0 <= j < s.lights@.len() ==> #[trigger] spec_entry_words(s, j).len() == 24,
{
    assert forall|j: int|
        0 <= j < s.lights@.len() implies #[trigger] spec_entry_words(s, j).len() == 24 by {
        assert(s.lights@[j].light.view_proj.cols().len() == 16);
    }
}

/// Reading back the shared buffer at a slot yields that light's last packed
/// words: the slot, the position and the view-projection it was packed with.
pub proof fn lemma_shared_buffer_read_back(s: ShadowLights, bytes: Seq<u8>, j: int)
    requires
        bytes == spec_packed_bytes(s, s.active_count()),
        0 <= j < s.active_count(),
    ensures
        forall|k: int|
            0 <= k < 24 ==> u32_from_le(
                bytes[96 * j + 4 * k],
                bytes[96 * j + 4 * k + 1],
                bytes[96 * j + 4 * k + 2],
                bytes[96 * j + 4 * k + 3],
            ) == spec_entry_words(s, j)[k],
{
    lemma_entry_words_len(s);
    lemma_packed_bytes_len(s, s.active_count());
    lemma_packed_bytes_slot(s, s.active_count(), j);
    let ws = spec_entry_words(s, j);
    let slot_bytes = bytes.subrange(96 * j, 96 * j + 96);
    lemma_words_le_bytes_len(ws);
    assert forall|k: int|
        0 <= k < 24 implies u32_from_le(
        bytes[96 * j + 4 * k],
        bytes[96 * j + 4 * k + 1],
        bytes[96 * j + 4 * k + 2],
        bytes[96 * j + 4 * k + 3],
    ) == ws[k] by {
        lemma_words_le_bytes_index(ws, k);
        assert(slot_bytes[4 * k] == bytes[96 * j + 4 * k]);
        assert(slot_bytes[4 * k + 1] == bytes[96 * j + 4 * k + 1]);
        assert(slot_bytes[4 * k + 2] == bytes[96 * j + 4 * k + 2]);
        assert(slot_bytes[4 * k + 3] == bytes[96 * j + 4 * k + 3]);
        lemma_u32_le_roundtrip(ws[k]);
    }
}

/// Reads one word back out of a byte buffer.
pub fn read_u32_le(bytes: &Vec<u8>, offset: usize) -> (r: u32)
    requires
        offset + 4 <= bytes@.len(),
    ensures
        r == u32_from_le(
            bytes@[offset as int],
            bytes@[offset as int + 1],
            bytes@[offset as int + 2],
            bytes@[offset as int + 3],
        ),
{
    let n = bytes.len();
    proof {
        assert(offset + 4 <= n);
    }
    (bytes[offset] as u32) | ((bytes[offset + 1] as u32) << 8) | ((bytes[offset + 2] as u32) << 16)
        | ((bytes[offset + 3] as u32) << 24)
}

/// Decodes one slot of the shared buffer's bytes back into a uniform.
pub fn read_back_uniform(bytes: &Vec<u8>, slot: usize) -> (r: DirectionalLightUniform)
    requires
        (slot + 1) * 96 <= bytes@.len(),
    ensures
        forall|k: int|
            0 <= k < 24 ==> r.words()[k] == u32_from_le(
                bytes@[96 * slot + 4 * k],
                bytes@[96 * slot + 4 * k + 1],
                bytes@[96 * slot + 4 * k + 2],
                bytes@[96 * slot + 4 * k + 3],
            ),
{
    let n = bytes.len();
    let base = slot * 96;
    let mut texture_index: [u32; 4] = [0, 0, 0, 0];
    let mut pos: [u32; 4] = [0, 0, 0, 0];
    let mut view_proj: [u32; 16] = [0, 0, 0, 0, 0, 0, 0, 0, 0, 0, 0, 0, 0, 0, 0, 0];
    let mut k: usize = 0;
    while k < 4
        invariant
            k <= 4,
            base == 96 * slot,
            base + 96 <= bytes@.len() <= usize::MAX,
            forall|i: int|
                0 <= i < k ==> texture_index@[i] == u32_from_le(
                    bytes@[96 * slot + 4 * i],
                    bytes@[96 * slot + 4 * i + 1],
                    bytes@[96 * slot + 4 * i + 2],
                    bytes@[96 * slot + 4 * i + 3],
                ),
        decreases 4 - k,
    {
        texture_index[k] = read_u32_le(bytes, base + 4 * k);
        k = k + 1;
    }
    let mut k: usize = 0;
    while k < 4
        invariant
            k <= 4,
            base == 96 * slot,
            base + 96 <= bytes@.len() <= usize::MAX,
            forall|i: int|
                0 <= i < k ==> pos@[i] == u32_from_le(
                    bytes@[96 * slot + 16 + 4 * i],
                    bytes@[96 * slot + 16 + 4 * i + 1],
                    bytes@[96 * slot + 16 + 4 * i + 2],
                    bytes@[96 * slot + 16 + 4 * i + 3],
                ),
        decreases 4 - k,
    {
        pos[k] = read_u32_le(bytes, base + 16 + 4 * k);
        k = k + 1;
    }
    let mut k: usize = 0;
    while k < 16
        invariant
            k <= 16,
            base == 96 * slot,
            base + 96 <= bytes@.len() <= usize::MAX,
            forall|i: int|
                0 <= i < k ==> view_proj@[i] == u32_from_le(
                    bytes@[96 * slot + 32 + 4 * i],
                    bytes@[96 * slot + 32 + 4 * i + 1],
                    bytes@[96 * slot + 32 + 4 * i + 2],
                    bytes@[96 * slot + 32 + 4 * i + 3],
                ),
        decreases 16 - k,
    {
        view_proj[k] = read_u32_le(bytes, base + 32 + 4 * k);
        k = k + 1;
    }
    let r = DirectionalLightUniform { texture_index, pos, view_proj };
    proof {
        assert forall|k2: int| 0 <= k2 < 24 implies r.words()[k2] == u32_from_le(
            bytes@[96 * slot + 4 * k2],
            bytes@[96 * slot + 4 * k2 + 1],
            bytes@[96 * slot + 4 * k2 + 2],
            bytes@[96 * slot + 4 * k2 + 3],
        ) by {
            if k2 < 4 {
                assert(r.words()[k2] == r.texture_index@[k2]);
            } else if k2 < 8 {
                assert(r.words()[k2] == r.pos@[k2 - 4]);
                assert(96 * slot + 16 + 4 * (k2 - 4) == 96 * slot + 4 * k2);
            } else {
                assert(r.words()[k2] == r.view_proj@[k2 - 8]);
                assert(96 * slot + 32 + 4 * (k2 - 8) == 96 * slot + 4 * k2);
            }
        }
    }
    r
}

/// Packs every active light's uniform, in slot order.
pub fn pack_active_light_uniforms(lights: &ShadowLights) -> (r: Vec<u8>)
    requires
        lights.wf(),
        lights.slots_dense(),
        lights.capacity <= u32::MAX,
    ensures
        r@ == spec_packed_bytes(*lights, lights.active_count()),
        r@.len() == 96 * lights.active_count(),
{
    let n = if lights.lights.len() <= lights.capacity {
        lights.lights.len()
    } else {
        lights.capacity
    };
    proof {
        lemma_entry_words_len(*lights);
    }
    let mut out: Vec<u8> = Vec::new();
    let mut j: usize = 0;
    while j < n
        invariant
            j <= n,
            n == lights.active_count(),
            n <= lights.lights@.len(),
            lights.wf(),
            lights.slots_dense(),
            lights.capacity <= u32::MAX,
            out@ == spec_packed_bytes(*lights, j as int),
        decreases n - j,
    {
        let entry = &lights.lights[j];
        proof {
            assert(lights.lights@[j as int].light.texture_index == Some(j as usize));
        }
        let slot: usize = entry.light.texture_index.unwrap();
        let words = uniform_words_vec(slot as u32, entry.light.pos, &entry.light.view_proj);
        push_words_le(&mut out, &words);
        proof {
            assert(words@ == spec_entry_words(*lights, j as int));
        }
        j = j + 1;
    }
    proof {
        lemma_packed_bytes_len(*lights, n as int);
    }
    out
}

/// The creation-time description of the shared staging buffer.
pub open spec fn spec_staging_info(size: usize) -> BufferInfo {
    BufferInfo {
        size,
        buffer_usage: BufferUsage {
            map_write: true,
            copy_src: true,
            copy_dst: false,
            uniform: false,
        },
        mapped_at_creation: true,
    }
}

/// The creation-time description of the shared device-resident uniform
/// buffer.
pub open spec fn spec_device_info(size: usize) -> BufferInfo {
    BufferInfo {
        size,
        buffer_usage: BufferUsage {
            map_write: false,
            copy_src: false,
            copy_dst: true,
            uniform: true,
        },
        mapped_at_creation: false,
    }
}

/// The bind stage's cross-frame state: the shared staging and device
/// buffers, created on first use and reused ever after.
#[derive(Clone, Copy, Debug, PartialEq, Eq, Structural)]
pub struct ShadowLightsSystemState {
    pub light_buffer: Option<BufferId>,
    pub staging_buffer: Option<BufferId>,
}

impl ShadowLightsSystemState {
    /// Each buffer the state remembers is live, unmapped between frames,
    /// sized for the whole capacity, with its creation-time description; and
    /// the two are distinct.
    pub open spec fn wf(self, bufs: Seq<crate::gpu::BufView>, buffer_size: usize) -> bool {
        &&& match self.staging_buffer {
            Some(s) => s < bufs.len() && bufs[s as int].alive && !bufs[s as int].mapped && bufs[
                s as int
            ].info == spec_staging_info(buffer_size),
            None => true,
        }
        &&& match self.light_buffer {
            Some(l) => l < bufs.len() && bufs[l as int].alive && !bufs[l as int].mapped && bufs[
                l as int
            ].info == spec_device_info(buffer_size),
            None => true,
        }
        &&& (self.staging_buffer is Some && self.light_buffer is Some
            ==> self.staging_buffer.unwrap() != self.light_buffer.unwrap())
    }
}

impl Default for ShadowLightsSystemState {
    fn default() -> (r: Self)
        ensures
            r.light_buffer is None,
            r.staging_buffer is None,
    {
        ShadowLightsSystemState { light_buffer: None, staging_buffer: None }
    }
}

/// The per-frame node around the bind stage: its `prepare` runs the
/// registry reindex before every other stage, and its `update` executes the
/// copies the bind system queued.
#[derive(Debug)]
pub struct ShadowLightsBindNode {
    pub command_queue: CommandQueue,
}

impl Default for ShadowLightsBindNode {
    fn default() -> (r: Self)
        ensures
            r.command_queue.commands@ == Seq::<GpuCommand>::empty(),
    {
        ShadowLightsBindNode { command_queue: CommandQueue::new() }
    }
}

impl ShadowLightsBindNode {
    /// Reassigns every light's dense texture slot for this frame; runs once
    /// per frame before the other stages.
    pub fn prepare(&mut self, lights: &mut ShadowLights)
        requires
            old(lights).wf(),
        ensures
            *final(self) == *old(self),
            final(lights).wf(),
            final(lights).slots_dense(),
            final(lights).capacity == old(lights).capacity,
            final(lights).retired@ == old(lights).retired@,
            final(lights).lights@.len() == old(lights).lights@.len(),
            forall|j: int|
                0 <= j < old(lights).lights@.len() ==> crate::registry::reslotted(
                    old(lights).lights@[j],
                    final(lights).lights@[j],
                    if j < old(lights).capacity {
                        Some(j as usize)
                    } else {
                        None::<usize>
                    },
                ),
    {
        lights.reindex();
    }

    /// Executes every queued copy, first queued first, leaving the queue
    /// empty.
    pub fn update(&mut self, device: &mut RenderResources)
        requires
            old(device).wf(),
            crate::gpu::commands_valid(old(device).bufs(), old(self).command_queue.commands@),
        ensures
            final(device).wf(),
            final(device).bufs() =~= crate::gpu::apply_commands(
                old(device).bufs(),
                old(self).command_queue.commands@,
            ),
            final(device).texs() == old(device).texs(),
            final(self).command_queue.commands@ == Seq::<GpuCommand>::empty(),
    {
        self.command_queue.execute(device);
    }
}

/// Packs every active light into the shared uniform buffer: writes the
/// staging buffer and enqueues the staging-to-device copy — both skipped
/// when no light is active — and publishes the device buffer under the
/// binding the main pass reads. The main pass binds successfully either
/// way.
pub fn shadow_lights_bind_system(
    state: &mut ShadowLightsSystemState,
    render_resource_bindings: &mut RenderResourceBindings,
    lights: &ShadowLights,
    render_resource_context: &mut RenderResources,
    command_queue: &mut CommandQueue,
)
    requires
        lights.wf(),
        lights.slots_dense(),
        lights.capacity <= u32::MAX,
        lights.capacity * 96 <= usize::MAX,
        old(render_resource_context).wf(),
        old(state).wf(old(render_resource_context).bufs(), (lights.capacity * 96) as usize),
    ensures
        final(render_resource_context).wf(),
        final(state).wf(
            final(render_resource_context).bufs(),
            (lights.capacity * 96) as usize,
        ),
        final(state).staging_buffer is Some,
        final(state).light_buffer is Some,
        // Ids are stable across frames; fresh ones take identities at or
        // past the old device end.
        old(state).staging_buffer is Some ==> final(state).staging_buffer == old(state).staging_buffer,
        old(state).light_buffer is Some ==> final(state).light_buffer == old(state).light_buffer,
        old(state).staging_buffer is None ==> final(state).staging_buffer.unwrap() >= old(
            render_resource_context,
        ).bufs().len(),
        old(state).light_buffer is None ==> final(state).light_buffer.unwrap() >= old(
            render_resource_context,
        ).bufs().len(),
        // The main pass's binding is published, zero lights or not.
        *final(render_resource_bindings) == (RenderResourceBindings {
            shadow_lights: Some(
                BufferBinding {
                    buffer: final(state).light_buffer.unwrap(),
                    range_start: 0,
                    range_end: (lights.capacity * 96) as usize,
                    dynamic_index: None,
                },
            ),
            ..*old(render_resource_bindings)
        }),
        // With no active light, no copy is enqueued; otherwise exactly the
        // one staging-to-device copy of the packed bytes.
        lights.active_count() == 0 ==> final(command_queue).commands@ == old(command_queue).commands@,
        lights.active_count() > 0 ==> final(command_queue).commands@ == old(command_queue).commands@.push(
            GpuCommand::CopyBufferToBuffer {
                src: final(state).staging_buffer.unwrap(),
                src_offset: 0,
                dst: final(state).light_buffer.unwrap(),
                dst_offset: 0,
                size: (96 * lights.active_count()) as usize,
            },
        ),
        // The staging buffer holds the packed uniforms of every active
        // light, in slot order.
        lights.active_count() > 0 ==> {
            let s = final(state).staging_buffer.unwrap() as int;
            final(render_resource_context).bufs()[s].data.take(96 * lights.active_count())
                == spec_packed_bytes(*lights, lights.active_count())
        },
        // Untouched buffers are unchanged; only the staging buffer's bytes
        // and mapping state move, and fresh buffers may be appended.
        final(render_resource_context).bufs().len() >= old(render_resource_context).bufs().len(),
        forall|id: int|
            0 <= id < old(render_resource_context).bufs().len() && id != final(state).staging_buffer.unwrap() as int
                ==> final(render_resource_context).bufs()[id] == old(render_resource_context).bufs()[id],
        final(render_resource_context).texs() == old(render_resource_context).texs(),
{
    let buffer_size: usize = lights.capacity * 96;
    let packed = pack_active_light_uniforms(lights);
    let n = if lights.lights.len() <= lights.capacity {
        lights.lights.len()
    } else {
        lights.capacity
    };

    let staging_buffer: BufferId = match state.staging_buffer {
        Some(b) => {
            render_resource_context.map_buffer(b, BufferMapMode::Write);
            b
        },
        None => {
            let b = render_resource_context.create_buffer(
                BufferInfo {
                    size: buffer_size,
                    buffer_usage: BufferUsage {
                        map_write: true,
                        copy_src: true,
                        copy_dst: false,
                        uniform: false,
                    },
                    mapped_at_creation: true,
                },
            );
            state.staging_buffer = Some(b);
            b
        },
    };

    let light_buffer: BufferId = match state.light_buffer {
        Some(b) => b,
        None => {
            let b = render_resource_context.create_buffer(
                BufferInfo {
                    size: buffer_size,
                    buffer_usage: BufferUsage {
                        map_write: false,
                        copy_src: false,
                        copy_dst: true,
                        uniform: true,
                    },
                    mapped_at_creation: false,
                },
            );
            state.light_buffer = Some(b);
            b
        },
    };

    if n > 0 {
        render_resource_context.write_mapped_buffer(staging_buffer, 0, &packed);
    }
    render_resource_context.unmap_buffer(staging_buffer);
    if n > 0 {
        command_queue.copy_buffer_to_buffer(staging_buffer, 0, light_buffer, 0, packed.len());
    }

    render_resource_bindings.shadow_lights = Some(
        BufferBinding {
            buffer: light_buffer,
            range_start: 0,
            range_end: buffer_size,
            dynamic_index: None,
        },
    );
}

/// One whole bind step of a frame: packs the active lights through the
/// staging buffer and executes the queued copy, so the device-resident
/// shared buffer ends the frame holding every active light's packed
/// uniform, in slot order — and holding nothing new when no light is
/// active.
pub fn bind_lights_frame(
    state: &mut ShadowLightsSystemState,
    render_resource_bindings: &mut RenderResourceBindings,
    lights: &ShadowLights,
    render_resource_context: &mut RenderResources,
    bind_node: &mut ShadowLightsBindNode,
)
    requires
        old(bind_node).command_queue.commands@.len() == 0,
        lights.wf(),
        lights.slots_dense(),
        lights.capacity <= u32::MAX,
        lights.capacity * 96 <= usize::MAX,
        old(render_resource_context).wf(),
        old(state).wf(old(render_resource_context).bufs(), (lights.capacity * 96) as usize),
    ensures
        final(render_resource_context).wf(),
        final(render_resource_context).texs() == old(render_resource_context).texs(),
        final(state).wf(
            final(render_resource_context).bufs(),
            (lights.capacity * 96) as usize,
        ),
        final(state).staging_buffer is Some,
        final(state).light_buffer is Some,
        final(bind_node).command_queue.commands@.len() == 0,
        // The main pass's binding is published, zero lights or not.
        *final(render_resource_bindings) == (RenderResourceBindings {
            shadow_lights: Some(
                BufferBinding {
                    buffer: final(state).light_buffer.unwrap(),
                    range_start: 0,
                    range_end: (lights.capacity * 96) as usize,
                    dynamic_index: None,
                },
            ),
            ..*old(render_resource_bindings)
        }),
        // The shared device buffer holds the packed uniforms of every
        // active light, in slot order.
        lights.active_count() > 0 ==> {
            let l = final(state).light_buffer.unwrap() as int;
            final(render_resource_context).bufs()[l].data.take(96 * lights.active_count())
                == spec_packed_bytes(*lights, lights.active_count())
        },
        // Ids are stable across frames; fresh ones take identities at or
        // past the old device end.
        old(state).staging_buffer is Some ==> final(state).staging_buffer == old(state).staging_buffer,
        old(state).light_buffer is Some ==> final(state).light_buffer == old(state).light_buffer,
        old(state).staging_buffer is None ==> final(state).staging_buffer.unwrap() >= old(
            render_resource_context,
        ).bufs().len(),
        old(state).light_buffer is None ==> final(state).light_buffer.unwrap() >= old(
            render_resource_context,
        ).bufs().len(),
        // Every buffer but the two shared ones is untouched.
        final(render_resource_context).bufs().len() >= old(render_resource_context).bufs().len(),
        forall|id: int|
            0 <= id < old(render_resource_context).bufs().len()
                && id != final(state).staging_buffer.unwrap() as int
                && id != final(state).light_buffer.unwrap() as int
                ==> final(render_resource_context).bufs()[id]
                == old(render_resource_context).bufs()[id],
{
    shadow_lights_bind_system(
        state,
        render_resource_bindings,
        lights,
        render_resource_context,
        &mut bind_node.command_queue,
    );
    let ghost n = lights.active_count();
    let ghost mid_bufs = render_resource_context.bufs();
    let ghost cmds = bind_node.command_queue.commands@;
    let ghost s = state.staging_buffer.unwrap() as int;
    let ghost l = state.light_buffer.unwrap() as int;
    proof {
        if n > 0 {
            assert(cmds.len() == 1);
            assert(cmds[0] == GpuCommand::CopyBufferToBuffer {
                src: s as usize,
                src_offset: 0,
                dst: l as usize,
                dst_offset: 0,
                size: (96 * n) as usize,
            });
            assert(mid_bufs[s].info == spec_staging_info((lights.capacity * 96) as usize));
            assert(mid_bufs[l].info == spec_device_info((lights.capacity * 96) as usize));
            assert(96 * n <= 96 * lights.capacity);
            assert(crate::gpu::command_valid(mid_bufs, cmds[0]));
            assert(cmds.drop_first() =~= Seq::<GpuCommand>::empty());
            assert(crate::gpu::commands_valid(
                crate::gpu::apply_command(mid_bufs, cmds[0]),
                cmds.drop_first(),
            ));
        } else {
            assert(cmds.len() == 0);
        }
    }
    bind_node.update(render_resource_context);
    proof {
        crate::gpu::lemma_wf_views(*render_resource_context);
        if n > 0 {
            let out = crate::gpu::apply_commands(mid_bufs, cmds);
            assert(crate::gpu::apply_commands(
                crate::gpu::apply_command(mid_bufs, cmds[0]),
                cmds.drop_first(),
            ) == crate::gpu::apply_command(mid_bufs, cmds[0]));
            assert(out == crate::gpu::apply_command(mid_bufs, cmds[0]));
            crate::gpu::lemma_apply_command_shape(mid_bufs, cmds[0]);
            let chunk = mid_bufs[s].data.subrange(0, 96 * n);
            assert(chunk =~= mid_bufs[s].data.take(96 * n));
            assert(out[l].data == crate::gpu::splice_bytes(mid_bufs[l].data, 0, chunk));
            assert(mid_bufs[l].data.len() == lights.capacity * 96);
            assert(out[l].data.take(96 * n) =~= chunk);
            assert(render_resource_context.bufs()[l].data.take(96 * n) == spec_packed_bytes(
                *lights,
                n,
            ));
            // the state's buffers kept everything their validity reads
            assert(out[s].info == mid_bufs[s].info);
            assert(out[l].info == mid_bufs[l].info);
        }
    }
}

} // verus!
