use vstd::prelude::*;
use crate::draw::{BufferId, RenderCommand, TextureId};

verus! {

// A model of the GPU abstraction the pipeline drives: buffers that must be
// mapped before host writes, a queue of buffer copies executed later, and
// textures whose layers record what was rendered into them. The pipeline's
// upload discipline — write a host-visible staging buffer, then enqueue a
// copy into the device-resident buffer — is verified against this model.

#[derive(Clone, Copy, Debug, PartialEq, Eq, Structural)]
pub enum BufferMapMode {
    Read,
    Write,
}

#[derive(Clone, Copy, Debug, PartialEq, Eq, Structural)]
pub struct BufferUsage {
    pub map_write: bool,
    pub copy_src: bool,
    pub copy_dst: bool,
    pub uniform: bool,
}

#[derive(Clone, Copy, Debug, PartialEq, Eq, Structural)]
pub struct BufferInfo {
    pub size: usize,
    pub buffer_usage: BufferUsage,
    pub mapped_at_creation: bool,
}

/// One buffer of the model device.
#[derive(Debug)]
pub struct GpuBuffer {
    pub info: BufferInfo,
    pub mapped: bool,
    pub alive: bool,
    pub data: Vec<u8>,
}

impl GpuBuffer {
    pub open spec fn wf(self) -> bool {
        self.data@.len() == self.info.size
    }
}

/// The observable state of a buffer: its metadata and its bytes.
pub ghost struct BufView {
    pub info: BufferInfo,
    pub mapped: bool,
    pub alive: bool,
    pub data: Seq<u8>,
}

pub open spec fn buf_view(b: GpuBuffer) -> BufView {
    BufView { info: b.info, mapped: b.mapped, alive: b.alive, data: b.data@ }
}

#[derive(Clone, Copy, Debug, PartialEq, Eq, Structural)]
pub enum TextureFormat {
    Depth32Float,
}

#[derive(Clone, Copy, Debug, PartialEq, Eq, Structural)]
pub enum TextureDimension {
    D2,
}

#[derive(Clone, Copy, Debug, PartialEq, Eq, Structural)]
pub struct TextureUsage {
    pub output_attachment: bool,
    pub sampled: bool,
    pub copy_src: bool,
    pub copy_dst: bool,
}

#[derive(Clone, Copy, Debug, PartialEq, Eq, Structural)]
pub struct Extent3d {
    pub width: u32,
    pub height: u32,
    pub depth: u32,
}

impl Extent3d {
    pub fn new(width: u32, height: u32, depth: u32) -> (r: Extent3d)
        ensures
            r == (Extent3d { width, height, depth }),
    {
        Extent3d { width, height, depth }
    }
}

#[derive(Clone, Copy, Debug, PartialEq, Eq, Structural)]
pub struct TextureDescriptor {
    pub size: Extent3d,
    pub sample_count: u32,
    pub mip_level_count: u32,
    pub dimension: TextureDimension,
    pub format: TextureFormat,
    pub usage: TextureUsage,
}

/// What one depth pass left in a texture layer: the depth value it cleared
/// to and the command list it replayed.
#[derive(Debug)]
pub struct PassRecord {
    pub clear_depth: u32,
    pub commands: Vec<RenderCommand>,
}

/// The observable content of a texture layer: nothing yet, or the record of
/// the pass that last wrote it / was last copied into it.
pub open spec fn layer_view(l: Option<PassRecord>) -> Option<(u32, Seq<RenderCommand>)> {
    match l {
        None => None,
        Some(r) => Some((r.clear_depth, r.commands@)),
    }
}

/// One texture of the model device, with one content record per layer.
#[derive(Debug)]
pub struct GpuTexture {
    pub desc: TextureDescriptor,
    pub layers: Vec<Option<PassRecord>>,
}

impl GpuTexture {
    pub open spec fn wf(self) -> bool {
        self.layers@.len() == self.desc.size.depth
    }

    pub open spec fn view(self) -> Seq<Option<(u32, Seq<RenderCommand>)>> {
        self.layers@.map_values(|l: Option<PassRecord>| layer_view(l))
    }
}

/// The new byte contents after `src` is written into `data` at `offset`.
pub open spec fn splice_bytes(data: Seq<u8>, offset: int, src: Seq<u8>) -> Seq<u8> {
    data.subrange(0, offset) + src + data.subrange(offset + src.len(), data.len() as int)
}

/// One command enqueued for later execution on the device.
#[derive(Clone, Copy, Debug, PartialEq, Eq, Structural)]
pub enum GpuCommand {
    CopyBufferToBuffer {
        src: BufferId,
        src_offset: usize,
        dst: BufferId,
        dst_offset: usize,
        size: usize,
    },
}

/// When a queued copy is legal: both buffers live, unmapped, with the copy
/// usages, the ranges inside their sizes, and the two buffers distinct.
pub open spec fn command_valid(bufs: Seq<BufView>, c: GpuCommand) -> bool {
    match c {
        GpuCommand::CopyBufferToBuffer { src, src_offset, dst, dst_offset, size } => {
            &&& src < bufs.len()
            &&& dst < bufs.len()
            &&& src != dst
            &&& bufs[src as int].alive
            &&& bufs[dst as int].alive
            &&& !bufs[src as int].mapped
            &&& !bufs[dst as int].mapped
            &&& bufs[src as int].info.buffer_usage.copy_src
            &&& bufs[dst as int].info.buffer_usage.copy_dst
            &&& src_offset + size <= bufs[src as int].info.size
            &&& dst_offset + size <= bufs[dst as int].info.size
        },
    }
}

/// The buffer states after one queued copy ran.
pub open spec fn apply_command(bufs: Seq<BufView>, c: GpuCommand) -> Seq<BufView> {
    match c {
        GpuCommand::CopyBufferToBuffer { src, src_offset, dst, dst_offset, size } => bufs.update(
            dst as int,
            BufView {
                data: splice_bytes(
                    bufs[dst as int].data,
                    dst_offset as int,
                    bufs[src as int].data.subrange(src_offset as int, src_offset + size),
                ),
                ..bufs[dst as int]
            },
        ),
    }
}

/// The buffer states after a whole queue ran, first command first.
pub open spec fn apply_commands(bufs: Seq<BufView>, cmds: Seq<GpuCommand>) -> Seq<BufView>
    decreases cmds.len(),
{
    if cmds.len() == 0 {
        bufs
    } else {
        apply_commands(apply_command(bufs, cmds[0]), cmds.drop_first())
    }
}

/// Every command of the queue is legal at its turn.
pub open spec fn commands_valid(bufs: Seq<BufView>, cmds: Seq<GpuCommand>) -> bool
    decreases cmds.len(),
{
    cmds.len() == 0 || (command_valid(bufs, cmds[0]) && commands_valid(
        apply_command(bufs, cmds[0]),
        cmds.drop_first(),
    ))
}

/// Every buffer's byte count agrees with its declared size.
pub open spec fn views_wf(bufs: Seq<BufView>) -> bool {
    forall|i: int| 0 <= i < bufs.len() ==> (#[trigger] bufs[i]).data.len() == bufs[i].info.size
}

/// Two buffer-state sequences agree on everything a copy's legality reads:
/// count, liveness, mapping, usage and sizes.
pub open spec fn same_shape(a: Seq<BufView>, b: Seq<BufView>) -> bool {
    &&& a.len() == b.len()
    &&& forall|i: int|
        0 <= i < a.len() ==> #[trigger] b[i].info == a[i].info && b[i].mapped == a[i].mapped
            && b[i].alive == a[i].alive && b[i].data.len() == a[i].data.len()
}

/// A copy changes one buffer's bytes and nothing a later copy's legality
/// reads.
pub proof fn lemma_apply_command_shape(bufs: Seq<BufView>, c: GpuCommand)
    requires
        views_wf(bufs),
        command_valid(bufs, c),
    ensures
        same_shape(bufs, apply_command(bufs, c)),
        views_wf(apply_command(bufs, c)),
{
    match c {
        GpuCommand::CopyBufferToBuffer { src, src_offset, dst, dst_offset, size } => {
            let chunk = bufs[src as int].data.subrange(src_offset as int, src_offset + size);
            assert(chunk.len() == size);
            assert(splice_bytes(bufs[dst as int].data, dst_offset as int, chunk).len() == bufs[
                dst as int
            ].data.len());
        },
    }
}

/// Legality of a copy depends only on the shape of the buffer states.
pub proof fn lemma_command_valid_same_shape(a: Seq<BufView>, b: Seq<BufView>, c: GpuCommand)
    requires
        same_shape(a, b),
        command_valid(a, c),
    ensures
        command_valid(b, c),
{
    match c {
        GpuCommand::CopyBufferToBuffer { src, src_offset, dst, dst_offset, size } => {
            assert(b[src as int].info == a[src as int].info);
            assert(b[dst as int].info == a[dst as int].info);
        },
    }
}

/// A queue whose every command is legal against the initial buffer states is
/// legal when run, since copies keep the shape.
pub proof fn lemma_commands_valid_from_pointwise(bufs: Seq<BufView>, cmds: Seq<GpuCommand>)
    requires
        views_wf(bufs),
        forall|i: int| 0 <= i < cmds.len() ==> command_valid(bufs, #[trigger] cmds[i]),
    ensures
        commands_valid(bufs, cmds),
    decreases cmds.len(),
{
    if cmds.len() > 0 {
        let next = apply_command(bufs, cmds[0]);
        lemma_apply_command_shape(bufs, cmds[0]);
        assert forall|i: int| 0 <= i < cmds.drop_first().len() implies command_valid(
            next,
            #[trigger] cmds.drop_first()[i],
        ) by {
            assert(cmds.drop_first()[i] == cmds[i + 1]);
            lemma_command_valid_same_shape(bufs, next, cmds[i + 1]);
        }
        lemma_commands_valid_from_pointwise(next, cmds.drop_first());
    }
}

/// Running a queue and then one more command is running the queue extended
/// by that command.
pub proof fn lemma_apply_commands_push(bufs: Seq<BufView>, cmds: Seq<GpuCommand>, c: GpuCommand)
    ensures
        apply_commands(bufs, cmds.push(c)) == apply_command(apply_commands(bufs, cmds), c),
    decreases cmds.len(),
{
    if cmds.len() == 0 {
        assert(cmds.push(c).drop_first() =~= Seq::<GpuCommand>::empty());
        assert(cmds.push(c)[0] == c);
        assert(apply_commands(apply_command(bufs, c), cmds.push(c).drop_first()) == apply_command(
            bufs,
            c,
        ));
        assert(apply_commands(bufs, cmds.push(c)) == apply_command(bufs, c));
        assert(apply_commands(bufs, cmds) == bufs);
    } else {
        assert(cmds.push(c)[0] == cmds[0]);
        assert(cmds.push(c).drop_first() =~= cmds.drop_first().push(c));
        lemma_apply_commands_push(apply_command(bufs, cmds[0]), cmds.drop_first(), c);
        assert(apply_commands(bufs, cmds.push(c)) == apply_commands(
            apply_command(bufs, cmds[0]),
            cmds.drop_first().push(c),
        ));
        assert(apply_commands(bufs, cmds) == apply_commands(
            apply_command(bufs, cmds[0]),
            cmds.drop_first(),
        ));
    }
}

/// Running two queues in sequence is running their concatenation.
pub proof fn lemma_apply_commands_concat(bufs: Seq<BufView>, a: Seq<GpuCommand>, b: Seq<GpuCommand>)
    ensures
        apply_commands(bufs, a + b) == apply_commands(apply_commands(bufs, a), b),
    decreases a.len(),
{
    if a.len() == 0 {
        assert(a + b =~= b);
    } else {
        assert((a + b)[0] == a[0]);
        assert((a + b).drop_first() =~= a.drop_first() + b);
        lemma_apply_commands_concat(apply_command(bufs, a[0]), a.drop_first(), b);
    }
}

/// A well-formed device's buffer views carry as many bytes as they declare.
pub proof fn lemma_wf_views(device: RenderResources)
    requires
        device.wf(),
    ensures
        views_wf(device.bufs()),
{
    assert forall|i: int|
        0 <= i < device.bufs().len() implies (#[trigger] device.bufs()[i]).data.len()
        == device.bufs()[i].info.size by {
        assert(device.buffers@[i].wf());
    }
}

/// The queue of copies a pipeline stage records and later executes.
#[derive(Debug)]
pub struct CommandQueue {
    pub commands: Vec<GpuCommand>,
}

impl CommandQueue {
    pub fn new() -> (r: CommandQueue)
        ensures
            r.commands@ == Seq::<GpuCommand>::empty(),
    {
        CommandQueue { commands: Vec::new() }
    }

    /// Enqueues a staging-to-device copy.
    pub fn copy_buffer_to_buffer(
        &mut self,
        src: BufferId,
        src_offset: usize,
        dst: BufferId,
        dst_offset: usize,
        size: usize,
    )
        ensures
            final(self).commands@ == old(self).commands@.push(
                GpuCommand::CopyBufferToBuffer { src, src_offset, dst, dst_offset, size },
            ),
    {
        self.commands.push(GpuCommand::CopyBufferToBuffer {
            src,
            src_offset,
            dst,
            dst_offset,
            size,
        });
    }

    /// Runs every queued copy on the device, first queued first, and leaves
    /// the queue empty.
    pub fn execute(&mut self, device: &mut RenderResources)
        requires
            old(device).wf(),
            commands_valid(old(device).bufs(), old(self).commands@),
        ensures
            final(device).wf(),
            final(device).bufs() =~= apply_commands(old(device).bufs(), old(self).commands@),
            final(device).texs() == old(device).texs(),
            final(self).commands@ == Seq::<GpuCommand>::empty(),
    {
        let ghost all = self.commands@;
        let ghost bufs0 = device.bufs();
        proof {
            assert(all.take(0) =~= Seq::<GpuCommand>::empty());
            assert(all.skip(0) =~= all);
        }
        let mut i: usize = 0;
        while i < self.commands.len()
            invariant
                i <= all.len(),
                self.commands@ == all,
                device.wf(),
                device.bufs() =~= apply_commands(bufs0, all.take(i as int)),
                device.texs() == old(device).texs(),
                commands_valid(device.bufs(), all.skip(i as int)),
            decreases all.len() - i,
        {
            let c = self.commands[i];
            proof {
                assert(all.skip(i as int)[0] == all[i as int]);
            }
            device.apply_copy(c);
            proof {
                assert(all.take(i + 1 as int) =~= all.take(i as int).push(all[i as int]));
                lemma_apply_commands_push(bufs0, all.take(i as int), all[i as int]);
                assert(all.skip(i as int).drop_first() =~= all.skip(i + 1 as int));
            }
            i = i + 1;
        }
        proof {
            assert(all.take(all.len() as int) =~= all);
        }
        self.commands = Vec::new();
    }
}

impl Default for CommandQueue {
    fn default() -> (r: Self)
        ensures
            r.commands@ == Seq::<GpuCommand>::empty(),
    {
        CommandQueue::new()
    }
}

/// The model device: every buffer and texture the pipeline created.
#[derive(Debug)]
pub struct RenderResources {
    pub buffers: Vec<GpuBuffer>,
    pub textures: Vec<GpuTexture>,
}

impl RenderResources {
    pub open spec fn wf(self) -> bool {
        &&& forall|i: int| 0 <= i < self.buffers@.len() ==> self.buffers@[i].wf()
        &&& forall|i: int| 0 <= i < self.textures@.len() ==> self.textures@[i].wf()
    }

    /// The observable state of all buffers.
    pub open spec fn bufs(self) -> Seq<BufView> {
        self.buffers@.map_values(|b: GpuBuffer| buf_view(b))
    }

    /// The observable state of all textures: descriptor and layer contents.
    pub open spec fn texs(self) -> Seq<(TextureDescriptor, Seq<Option<(u32, Seq<RenderCommand>)>>)> {
        self.textures@.map_values(|t: GpuTexture| (t.desc, t.view()))
    }

    pub fn new() -> (r: RenderResources)
        ensures
            r.wf(),
            r.bufs() =~= Seq::<BufView>::empty(),
            r.texs() =~= Seq::<(TextureDescriptor, Seq<Option<(u32, Seq<RenderCommand>)>>)>::empty(),
    {
        RenderResources { buffers: Vec::new(), textures: Vec::new() }
    }

    /// Creates a buffer, zero-filled, mapped for host writes exactly when
    /// the caller asked for `mapped_at_creation`.
    pub fn create_buffer(&mut self, info: BufferInfo) -> (id: BufferId)
        requires
            old(self).wf(),
        ensures
            final(self).wf(),
            id == old(self).bufs().len(),
            final(self).bufs() =~= old(self).bufs().push(
                BufView {
                    info,
                    mapped: info.mapped_at_creation,
                    alive: true,
                    data: Seq::new(info.size as nat, |i: int| 0u8),
                },
            ),
            final(self).texs() == old(self).texs(),
    {
        let mut data: Vec<u8> = Vec::new();
        let mut i: usize = 0;
        while i < info.size
            invariant
                i <= info.size,
                data@ =~= Seq::new(i as nat, |j: int| 0u8),
            decreases info.size - i,
        {
            data.push(0u8);
            i = i + 1;
        }
        let id = self.buffers.len();
        self.buffers.push(GpuBuffer { info, mapped: info.mapped_at_creation, alive: true, data });
        id
    }

    /// Makes a live, host-mappable buffer visible to the host.
    pub fn map_buffer(&mut self, id: BufferId, mode: BufferMapMode)
        requires
            old(self).wf(),
            id < old(self).bufs().len(),
            old(self).bufs()[id as int].alive,
            old(self).bufs()[id as int].info.buffer_usage.map_write,
            !old(self).bufs()[id as int].mapped,
        ensures
            final(self).wf(),
            final(self).bufs() =~= old(self).bufs().update(
                id as int,
                BufView { mapped: true, ..old(self).bufs()[id as int] },
            ),
            final(self).texs() == old(self).texs(),
    {
        let mut b = self.buffers.remove(id);
        b.mapped = true;
        self.buffers.insert(id, b);
        proof {
            assert(self.buffers@ =~= old(self).buffers@.update(
                id as int,
                GpuBuffer {
                    info: old(self).buffers@[id as int].info,
                    mapped: true,
                    alive: old(self).buffers@[id as int].alive,
                    data: old(self).buffers@[id as int].data,
                },
            ));
        }
    }

    /// Writes bytes into a mapped buffer at the given offset.
    pub fn write_mapped_buffer(&mut self, id: BufferId, offset: usize, bytes: &Vec<u8>)
        requires
            old(self).wf(),
            id < old(self).bufs().len(),
            old(self).bufs()[id as int].alive,
            old(self).bufs()[id as int].mapped,
            offset + bytes@.len() <= old(self).bufs()[id as int].info.size,
        ensures
            final(self).wf(),
            final(self).bufs() =~= old(self).bufs().update(
                id as int,
                BufView {
                    data: splice_bytes(old(self).bufs()[id as int].data, offset as int, bytes@),
                    ..old(self).bufs()[id as int]
                },
            ),
            final(self).texs() == old(self).texs(),
    {
        self.write_bytes_at(id, offset, bytes);
    }

    /// Hides a mapped buffer from the host again; copies out of or into it
    /// are only legal while it is unmapped.
    pub fn unmap_buffer(&mut self, id: BufferId)
        requires
            old(self).wf(),
            id < old(self).bufs().len(),
            old(self).bufs()[id as int].alive,
            old(self).bufs()[id as int].mapped,
        ensures
            final(self).wf(),
            final(self).bufs() =~= old(self).bufs().update(
                id as int,
                BufView { mapped: false, ..old(self).bufs()[id as int] },
            ),
            final(self).texs() == old(self).texs(),
    {
        let mut b = self.buffers.remove(id);
        b.mapped = false;
        self.buffers.insert(id, b);
        proof {
            assert(self.bufs() =~= old(self).bufs().update(
                id as int,
                BufView { mapped: false, ..old(self).bufs()[id as int] },
            ));
        }
    }

    /// Releases a buffer; its identity is never reused.
    pub fn destroy_buffer(&mut self, id: BufferId)
        requires
            old(self).wf(),
            id < old(self).bufs().len(),
            old(self).bufs()[id as int].alive,
        ensures
            final(self).wf(),
            final(self).bufs() =~= old(self).bufs().update(
                id as int,
                BufView { alive: false, ..old(self).bufs()[id as int] },
            ),
            final(self).texs() == old(self).texs(),
    {
        let mut b = self.buffers.remove(id);
        b.alive = false;
        self.buffers.insert(id, b);
        proof {
            assert(self.bufs() =~= old(self).bufs().update(
                id as int,
                BufView { alive: false, ..old(self).bufs()[id as int] },
            ));
        }
    }

    /// Writes bytes into a buffer without touching its mapping state; the
    /// device's own side of a copy.
    fn write_bytes_at(&mut self, id: BufferId, offset: usize, bytes: &Vec<u8>)
        requires
            old(self).wf(),
            id < old(self).bufs().len(),
            offset + bytes@.len() <= old(self).bufs()[id as int].info.size,
        ensures
            final(self).wf(),
            final(self).bufs() =~= old(self).bufs().update(
                id as int,
                BufView {
                    data: splice_bytes(old(self).bufs()[id as int].data, offset as int, bytes@),
                    ..old(self).bufs()[id as int]
                },
            ),
            final(self).texs() == old(self).texs(),
    {
        let mut b = self.buffers.remove(id);
        let mut i: usize = 0;
        while i < bytes.len()
            invariant
                i <= bytes@.len(),
                offset + bytes@.len() <= old(self).bufs()[id as int].info.size,
                offset + bytes@.len() <= b.data@.len(),
                b.data@.len() == old(self).bufs()[id as int].data.len(),
                b.info == old(self).bufs()[id as int].info,
                b.mapped == old(self).bufs()[id as int].mapped,
                b.alive == old(self).bufs()[id as int].alive,
                forall|k: int| 0 <= k < i ==> b.data@[offset + k] == bytes@[k],
                forall|k: int|
                    0 <= k < b.data@.len() && !(offset <= k < offset + i) ==> b.data@[k] == old(
                        self,
                    ).bufs()[id as int].data[k],
            decreases bytes@.len() - i,
        {
            b.data[offset + i] = bytes[i];
            i = i + 1;
        }
        proof {
            assert(b.data@ =~= splice_bytes(
                old(self).bufs()[id as int].data,
                offset as int,
                bytes@,
            ));
        }
        self.buffers.insert(id, b);
        proof {
            assert(self.bufs() =~= old(self).bufs().update(
                id as int,
                BufView {
                    data: splice_bytes(old(self).bufs()[id as int].data, offset as int, bytes@),
                    ..old(self).bufs()[id as int]
                },
            ));
        }
    }

    /// Performs one queued buffer copy on the device.
    pub fn apply_copy(&mut self, c: GpuCommand)
        requires
            old(self).wf(),
            command_valid(old(self).bufs(), c),
        ensures
            final(self).wf(),
            final(self).bufs() =~= apply_command(old(self).bufs(), c),
            final(self).texs() == old(self).texs(),
    {
        let GpuCommand::CopyBufferToBuffer { src, src_offset, dst, dst_offset, size } = c;
        let chunk = self.read_buffer_bytes(src, src_offset, size);
        self.write_bytes_at(dst, dst_offset, &chunk);
    }

    /// Reads bytes back out of a buffer; the model's stand-in for mapping a
    /// buffer for reading.
    pub fn read_buffer_bytes(&self, id: BufferId, offset: usize, len: usize) -> (r: Vec<u8>)
        requires
            self.wf(),
            id < self.bufs().len(),
            offset + len <= self.bufs()[id as int].info.size,
        ensures
            r@ =~= self.bufs()[id as int].data.subrange(offset as int, offset + len),
    {
        let b = &self.buffers[id];
        let mut out: Vec<u8> = Vec::new();
        let mut i: usize = 0;
        while i < len
            invariant
                i <= len,
                offset + len <= b.data@.len(),
                b == &self.buffers[id as int],
                self.wf(),
                id < self.bufs().len(),
                offset + len <= self.bufs()[id as int].info.size,
                out@ =~= b.data@.subrange(offset as int, offset + i),
            decreases len - i,
        {
            out.push(b.data[offset + i]);
            proof {
                assert(b.data@.subrange(offset as int, offset + i + 1) =~= b.data@.subrange(
                    offset as int,
                    offset + i,
                ).push(b.data@[offset + i]));
            }
            i = i + 1;
        }
        out
    }

    /// Creates a texture with one unwritten layer per unit of depth.
    pub fn create_texture(&mut self, desc: TextureDescriptor) -> (id: TextureId)
        requires
            old(self).wf(),
        ensures
            final(self).wf(),
            id == old(self).texs().len(),
            final(self).texs() =~= old(self).texs().push(
                (desc, Seq::new(desc.size.depth as nat, |i: int| None::<(u32, Seq<RenderCommand>)>)),
            ),
            final(self).bufs() == old(self).bufs(),
    {
        let mut layers: Vec<Option<PassRecord>> = Vec::new();
        let mut i: u32 = 0;
        while i < desc.size.depth
            invariant
                i <= desc.size.depth,
                layers@.len() == i,
                forall|j: int| 0 <= j < i ==> layers@[j] is None,
            decreases desc.size.depth - i,
        {
            layers.push(None);
            i = i + 1;
        }
        let id = self.textures.len();
        let t = GpuTexture { desc, layers };
        proof {
            assert(t.view() =~= Seq::new(
                desc.size.depth as nat,
                |i: int| None::<(u32, Seq<RenderCommand>)>,
            ));
        }
        self.textures.push(t);
        id
    }

    /// Records the outcome of a depth pass into one texture layer: the clear
    /// depth and the command list the pass replayed.
    pub fn render_pass(
        &mut self,
        texture: TextureId,
        layer: usize,
        clear_depth: u32,
        commands: &Vec<RenderCommand>,
    )
        requires
            old(self).wf(),
            texture < old(self).texs().len(),
            layer < old(self).texs()[texture as int].1.len(),
            old(self).texs()[texture as int].0.usage.output_attachment,
        ensures
            final(self).wf(),
            final(self).bufs() == old(self).bufs(),
            final(self).texs() =~= old(self).texs().update(
                texture as int,
                (
                    old(self).texs()[texture as int].0,
                    old(self).texs()[texture as int].1.update(
                        layer as int,
                        Some((clear_depth, commands@)),
                    ),
                ),
            ),
    {
        let mut t = self.textures.remove(texture);
        let rec = PassRecord { clear_depth, commands: crate::draw::copy_commands(commands) };
        t.layers[layer] = Some(rec);
        self.textures.insert(texture, t);
        proof {
            assert(self.textures@[texture as int].view() =~= old(self).textures@[
                texture as int
            ].view().update(layer as int, Some((clear_depth, commands@))));
            assert(self.texs() =~= old(self).texs().update(
                texture as int,
                (
                    old(self).texs()[texture as int].0,
                    old(self).texs()[texture as int].1.update(
                        layer as int,
                        Some((clear_depth, commands@)),
                    ),
                ),
            ));
        }
    }

    /// Copies one texture layer into a layer of another texture.
    pub fn copy_texture_layer(
        &mut self,
        src: TextureId,
        src_layer: usize,
        dst: TextureId,
        dst_layer: usize,
    )
        requires
            old(self).wf(),
            src < old(self).texs().len(),
            dst < old(self).texs().len(),
            src != dst,
            src_layer < old(self).texs()[src as int].1.len(),
            dst_layer < old(self).texs()[dst as int].1.len(),
            old(self).texs()[src as int].0.usage.copy_src,
            old(self).texs()[dst as int].0.usage.copy_dst,
        ensures
            final(self).wf(),
            final(self).bufs() == old(self).bufs(),
            final(self).texs() =~= old(self).texs().update(
                dst as int,
                (
                    old(self).texs()[dst as int].0,
                    old(self).texs()[dst as int].1.update(
                        dst_layer as int,
                        old(self).texs()[src as int].1[src_layer as int],
                    ),
                ),
            ),
    {
        let content: Option<PassRecord> = match &self.textures[src].layers[src_layer] {
            None => None,
            Some(rec) => Some(
                PassRecord {
                    clear_depth: rec.clear_depth,
                    commands: crate::draw::copy_commands(&rec.commands),
                },
            ),
        };
        proof {
            assert(layer_view(content) == old(self).texs()[src as int].1[src_layer as int]);
        }
        let mut t = self.textures.remove(dst);
        t.layers[dst_layer] = content;
        self.textures.insert(dst, t);
        proof {
            assert(self.textures@[dst as int].view() =~= old(self).textures@[
                dst as int
            ].view().update(dst_layer as int, layer_view(content)));
            assert(self.texs() =~= old(self).texs().update(
                dst as int,
                (
                    old(self).texs()[dst as int].0,
                    old(self).texs()[dst as int].1.update(
                        dst_layer as int,
                        old(self).texs()[src as int].1[src_layer as int],
                    ),
                ),
            ));
        }
    }
}

} // verus!
