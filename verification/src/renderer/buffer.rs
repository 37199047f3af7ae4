//! Buffers of device memory: a few large pools per usage class, each cut into
//! virtual buffers by a free-list table.

use crate::renderer::alloc_table::{
    after_fit, after_free, align_up, fit_offset, fits, has_fit, is_first_fit,
    lemma_first_fit_unique, table_wf, total_length, BufferAllocCell, BufferAllocCellStatus,
    BufferAllocTable,
};
use crate::renderer::native::{
    buffer_usage_index, buffer_usage_transfer_dst, buffer_usage_transfer_src, buffer_usage_uniform,
    buffer_usage_union, buffer_usage_vertex, has_bits, memory_device_local, memory_host_coherent,
    memory_host_visible, memory_properties_contain, memory_properties_union,
};
use crate::renderer::RendererError;
use vstd::prelude::*;

verus! {

/// Number of bytes in a kibibyte.
pub const KIBIBYTE: u64 = 1024;

/// Number of bytes in a mebibyte.
pub const MEBIBYTE: u64 = KIBIBYTE * KIBIBYTE;

/// Size that a staging pool is created with.
pub const DEFAULT_STAGING_BUFFER_SIZE: u64 = 64 * MEBIBYTE;

/// Size that a vertex pool is created with.
pub const DEFAULT_VERTEX_BUFFER_SIZE: u64 = 64 * MEBIBYTE;

/// Size that an index pool is created with.
pub const DEFAULT_INDEX_BUFFER_SIZE: u64 = 64 * MEBIBYTE;

/// Size that a uniform pool is created with.
pub const DEFAULT_UNIFORM_BUFFER_SIZE: u64 = 64 * MEBIBYTE;

/// The most memory types that a device reports.
pub const MAX_MEMORY_TYPES: usize = 32;

/// The usage classes of buffers. Each class has pools of its own.
#[derive(Clone, Copy, PartialEq, Eq, Hash, Debug, Structural)]
pub enum BufferType {
    Staging,
    Vertex,
    Index,
    Uniform,
}

/// A logical buffer: `size` units at `offset` inside pool `buffer_idx` of its class.
#[derive(Clone, Copy, PartialEq, Eq, Debug, Structural)]
pub struct VirtualBuffer {
    pub buffer_idx: usize,
    pub buffer_type: BufferType,
    pub buffer_handle: u64,
    pub size: u64,
    pub offset: u64,
}

impl BufferType {
    /// Position of the class among the classes.
    pub open spec fn slot(self) -> int {
        match self {
            BufferType::Staging => 0,
            BufferType::Vertex => 1,
            BufferType::Index => 2,
            BufferType::Uniform => 3,
        }
    }

    /// The size that a pool of this class is created with, unless a request
    /// asks for more.
    pub open spec fn spec_default_size(self) -> u64 {
        match self {
            BufferType::Staging => DEFAULT_STAGING_BUFFER_SIZE,
            BufferType::Vertex => DEFAULT_VERTEX_BUFFER_SIZE,
            BufferType::Index => DEFAULT_INDEX_BUFFER_SIZE,
            BufferType::Uniform => DEFAULT_UNIFORM_BUFFER_SIZE,
        }
    }

    /// The usage bits that a pool of this class is created with: a staging pool
    /// is a source of transfers; the other classes are destinations of
    /// transfers, and vertex, index or uniform buffers.
    pub open spec fn spec_usage(self) -> u32 {
        match self {
            BufferType::Staging => 0x1u32,
            BufferType::Vertex => 0x80u32 | 0x2u32,
            BufferType::Index => 0x40u32 | 0x2u32,
            BufferType::Uniform => 0x10u32 | 0x2u32,
        }
    }

    /// The memory properties that a pool of this class needs: a staging pool is
    /// visible to the host and coherent; the other classes are local to the
    /// device.
    pub open spec fn spec_memory_properties(self) -> u32 {
        match self {
            BufferType::Staging => 0x2u32 | 0x4u32,
            _ => 0x1u32,
        }
    }

    /// Whether the host writes into buffers of this class directly.
    pub open spec fn spec_host_visible(self) -> bool {
        self == BufferType::Staging
    }

    /// The size that a pool of this class is created with, unless a request
    /// asks for more.
    #[verifier::when_used_as_spec(spec_default_size)]
    pub fn default_size(self) -> (size: u64)
        ensures
            size == self.spec_default_size(),
    {
        match self {
            BufferType::Staging => DEFAULT_STAGING_BUFFER_SIZE,
            BufferType::Vertex => DEFAULT_VERTEX_BUFFER_SIZE,
            BufferType::Index => DEFAULT_INDEX_BUFFER_SIZE,
            BufferType::Uniform => DEFAULT_UNIFORM_BUFFER_SIZE,
        }
    }

    /// Whether the host writes into buffers of this class directly.
    #[verifier::when_used_as_spec(spec_host_visible)]
    pub fn host_visible(self) -> (visible: bool)
        ensures
            visible == self.spec_host_visible(),
    {
        match self {
            BufferType::Staging => true,
            _ => false,
        }
    }

    /// Position of the class among the classes.
    pub fn index(self) -> (i: usize)
        ensures
            i == self.slot(),
    {
        match self {
            BufferType::Staging => 0,
            BufferType::Vertex => 1,
            BufferType::Index => 2,
            BufferType::Uniform => 3,
        }
    }
}

/// Memory type `i` is allowed by `type_filter` and has every property of
/// `property_flags`.
pub open spec fn memory_type_suits(
    memory_types: Seq<u32>,
    type_filter: u32,
    property_flags: u32,
    i: int,
) -> bool {
    &&& 0 <= i < memory_types.len()
    &&& i < 32
    &&& type_filter & (1u32 << (i as u32)) != 0
    &&& has_bits(memory_types[i], property_flags)
}

/// One allocation of device memory, and the native buffer that is bound to it.
#[derive(Clone, Copy, PartialEq, Eq, Debug, Structural)]
pub struct AllocRecord {
    pub handle: u64,
    pub size: u64,
    pub buffer: u64,
}

/// One native buffer, bound to the allocation `alloc_idx`.
#[derive(Clone, Copy, PartialEq, Eq, Debug, Structural)]
pub struct BufferRecord {
    pub handle: u64,
    pub alloc_idx: usize,
    pub size: u64,
}

/// A pool as the contracts see it: the native buffer, the allocation that backs
/// it, and the cells of its table.
pub struct PoolModel {
    pub buffer: u64,
    pub alloc_idx: int,
    pub size: u64,
    pub alignment: u64,
    pub cells: Seq<BufferAllocCell>,
}

impl PoolModel {
    /// The pool has a free cell for `size` units.
    pub open spec fn fits(self, size: u64) -> bool {
        has_fit(self.cells, align_up(size as int, self.alignment as int))
    }

    /// The pool after `size` units were allocated from it.
    pub open spec fn after_fit(self, size: u64) -> PoolModel {
        PoolModel {
            cells: after_fit(self.cells, self.alignment as int, size as int),
            ..self
        }
    }

    /// The pool after the allocation at `offset` was given back.
    pub open spec fn after_free(self, offset: u64) -> PoolModel {
        PoolModel { cells: after_free(self.cells, offset as int), ..self }
    }

    /// A pool that nothing was allocated from yet.
    pub open spec fn fresh(created: CreatedPool, alloc_idx: int) -> PoolModel {
        PoolModel {
            buffer: created.buffer,
            alloc_idx,
            size: created.size,
            alignment: created.alignment,
            cells: seq![
                BufferAllocCell { length: created.size, status: BufferAllocCellStatus::Free },
            ],
        }
    }

    /// The table of the pool is well formed and spans the pool.
    pub open spec fn wf(self) -> bool {
        &&& table_wf(self.cells, self.alignment as int)
        &&& total_length(self.cells) == self.size
        &&& self.alloc_idx >= 0
    }
}

/// Pool `p` is the first of `pools` with a free cell for `size` units.
pub open spec fn is_first_pool_fit(pools: Seq<PoolModel>, size: u64, p: int) -> bool {
    &&& 0 <= p < pools.len()
    &&& pools[p].fits(size)
    &&& forall|q: int| 0 <= q < p ==> !(#[trigger] pools[q]).fits(size)
}

/// No pool of `pools` has a free cell for `size` units.
pub open spec fn no_pool_fits(pools: Seq<PoolModel>, size: u64) -> bool {
    forall|q: int| 0 <= q < pools.len() ==> !(#[trigger] pools[q]).fits(size)
}

/// The native handles of the pools that `allocations` back, in order.
pub open spec fn pool_handles(allocations: Seq<AllocRecord>) -> Seq<PoolHandles> {
    Seq::new(
        allocations.len(),
        |i: int| PoolHandles { buffer: allocations[i].buffer, memory: allocations[i].handle },
    )
}

/// What the caller has to create before an allocation can go on: a native
/// buffer of `size` units with these usage bits, bound to memory with these
/// properties.
#[derive(Clone, Copy, PartialEq, Eq, Debug, Structural)]
pub struct PoolRequest {
    pub buffer_type: BufferType,
    pub size: u64,
    pub usage: u32,
    pub memory_properties: u32,
}

/// A native buffer and the memory bound to it, as the caller created them.
#[derive(Clone, Copy, PartialEq, Eq, Debug, Structural)]
pub struct CreatedPool {
    pub buffer: u64,
    pub memory: u64,
    pub size: u64,
    pub alignment: u64,
}

/// How an allocation went on the pools that exist.
#[derive(Clone, Copy, PartialEq, Eq, Debug, Structural)]
pub enum AllocStep {
    /// A pool had room.
    Placed(VirtualBuffer),
    /// No pool had room: a new pool is needed.
    NeedsPool(PoolRequest),
}

/// The range of device memory that an upload maps.
#[derive(Clone, Copy, PartialEq, Eq, Debug, Structural)]
pub struct MappedRange {
    pub memory: u64,
    pub offset: u64,
    pub size: u64,
}

/// The native handles of one pool: its buffer, and the allocation of device
/// memory that backs it.
#[derive(Clone, Copy, PartialEq, Eq, Debug, Structural)]
pub struct PoolHandles {
    pub buffer: u64,
    pub memory: u64,
}

/// The pools of one usage class.
pub struct SpecificBufferManager {
    buffers: Vec<BufferRecord>,
    buffer_tables: Vec<BufferAllocTable>,
    buffer_default_size: u64,
}

impl SpecificBufferManager {
    /// The pools of the class, in the order of their creation.
    pub closed spec fn pools(&self) -> Seq<PoolModel> {
        Seq::new(
            self.buffers@.len(),
            |i: int|
                PoolModel {
                    buffer: self.buffers@[i].handle,
                    alloc_idx: self.buffers@[i].alloc_idx as int,
                    size: self.buffers@[i].size,
                    alignment: self.buffer_tables@[i].alignment(),
                    cells: self.buffer_tables@[i]@,
                },
        )
    }

    /// The size that a pool of the class is created with, unless a request asks
    /// for more.
    pub closed spec fn default_size(&self) -> u64 {
        self.buffer_default_size
    }

    /// Every pool has a record and a table, and every table is well formed and
    /// spans its pool.
    pub closed spec fn wf(&self) -> bool {
        &&& self.buffers@.len() == self.buffer_tables@.len()
        &&& forall|i: int| 0 <= i < self.pools().len() ==> (#[trigger] self.pools()[i]).wf()
    }

    /// In a well-formed class every pool is well formed.
    pub proof fn lemma_pool_wf(&self, i: int)
        requires
            self.wf(),
            0 <= i < self.pools().len(),
        ensures
            self.pools()[i].wf(),
    {
    }

    /// A class without pools.
    pub fn new(buffer_default_size: u64) -> (manager: Self)
        ensures
            manager.wf(),
            manager.pools() == Seq::<PoolModel>::empty(),
            manager.default_size() == buffer_default_size,
    {
        let manager = SpecificBufferManager {
            buffers: Vec::new(),
            buffer_tables: Vec::new(),
            buffer_default_size,
        };
        assert(manager.pools() =~= Seq::<PoolModel>::empty());
        manager
    }

    /// Number of pools of the class.
    pub fn pool_count(&self) -> (n: usize)
        ensures
            n == self.pools().len(),
    {
        self.buffers.len()
    }

    /// Allocates `size` units from the first pool that has room, and returns
    /// that pool's index and the offset inside it.
    pub fn try_place(&mut self, size: u64) -> (placed: Option<(usize, u64)>)
        requires
            old(self).wf(),
        ensures
            final(self).wf(),
            final(self).default_size() == old(self).default_size(),
            match placed {
                Some((p, offset)) => {
                    &&& is_first_pool_fit(old(self).pools(), size, p as int)
                    &&& final(self).pools() == old(self).pools().update(
                        p as int,
                        old(self).pools()[p as int].after_fit(size),
                    )
                    &&& fit_offset(
                        old(self).pools()[p as int].cells,
                        old(self).pools()[p as int].alignment as int,
                        size as int,
                    ) == Some(offset as int)
                },
                None => no_pool_fits(old(self).pools(), size) && final(self).pools() == old(
                    self,
                ).pools(),
            },
    {
        let n = self.buffer_tables.len();
        let mut p: usize = 0;
        while p < n
            invariant
                self.wf(),
                n == self.buffer_tables@.len(),
                p <= n,
                self.pools() == old(self).pools(),
                self.buffer_default_size == old(self).buffer_default_size,
                forall|q: int| 0 <= q < p ==> !(#[trigger] old(self).pools()[q]).fits(size),
            decreases n - p,
        {
            let ghost before = self.pools();
            assert(before[p as int].wf());
            match self.buffer_tables[p].try_fit(size) {
                Some(offset) => {
                    proof {
                        assert(self.pools() =~= before.update(
                            p as int,
                            before[p as int].after_fit(size),
                        ));
                        assert forall|i: int| 0 <= i < self.pools().len() implies (
                        #[trigger] self.pools()[i]).wf() by {
                            if i != p {
                                assert(before[i].wf());
                            }
                        }
                    }
                    return Some((p, offset));
                },
                None => {
                    proof {
                        assert(self.pools() =~= before);
                    }
                },
            }
            p = p + 1;
        }
        None
    }

    /// Allocates `size` units from pool `p`, and returns the offset inside it.
    pub fn place_in(&mut self, p: usize, size: u64) -> (placed: Option<u64>)
        requires
            old(self).wf(),
            p < old(self).pools().len(),
        ensures
            final(self).wf(),
            final(self).default_size() == old(self).default_size(),
            final(self).pools() == old(self).pools().update(
                p as int,
                old(self).pools()[p as int].after_fit(size),
            ),
            match placed {
                Some(offset) => fit_offset(
                    old(self).pools()[p as int].cells,
                    old(self).pools()[p as int].alignment as int,
                    size as int,
                ) == Some(offset as int),
                None => !old(self).pools()[p as int].fits(size),
            },
    {
        let ghost before = self.pools();
        assert(before[p as int].wf());
        let placed = self.buffer_tables[p].try_fit(size);
        proof {
            assert(self.pools() =~= before.update(p as int, before[p as int].after_fit(size)));
            assert forall|i: int| 0 <= i < self.pools().len() implies (#[trigger] self.pools()[i]).wf() by {
                if i != p {
                    assert(before[i].wf());
                }
            }
        }
        placed
    }

    /// Adds a pool that nothing was allocated from yet, and returns its index.
    pub fn add_pool(&mut self, created: CreatedPool, alloc_idx: usize) -> (p: usize)
        requires
            old(self).wf(),
            created.alignment > 0,
        ensures
            final(self).wf(),
            final(self).default_size() == old(self).default_size(),
            p == old(self).pools().len(),
            final(self).pools() == old(self).pools().push(
                PoolModel::fresh(created, alloc_idx as int),
            ),
    {
        let ghost before = self.pools();
        let p = self.buffers.len();
        self.buffers.push(BufferRecord { handle: created.buffer, alloc_idx, size: created.size });
        self.buffer_tables.push(BufferAllocTable::new(created.size, created.alignment));
        proof {
            assert(self.pools() =~= before.push(PoolModel::fresh(created, alloc_idx as int)));
            assert forall|i: int| 0 <= i < self.pools().len() implies (#[trigger] self.pools()[i]).wf() by {
                if i < p {
                    assert(before[i].wf());
                }
            }
        }
        p
    }

    /// Gives back the allocation at `offset` of pool `p`.
    pub fn free_at(&mut self, p: usize, offset: u64)
        requires
            old(self).wf(),
            p < old(self).pools().len(),
        ensures
            final(self).wf(),
            final(self).default_size() == old(self).default_size(),
            final(self).pools() == old(self).pools().update(
                p as int,
                old(self).pools()[p as int].after_free(offset),
            ),
    {
        let ghost before = self.pools();
        assert(before[p as int].wf());
        self.buffer_tables[p].free(offset);
        proof {
            assert(self.pools() =~= before.update(p as int, before[p as int].after_free(offset)));
            assert forall|i: int| 0 <= i < self.pools().len() implies (#[trigger] self.pools()[i]).wf() by {
                if i != p {
                    assert(before[i].wf());
                }
            }
        }
    }

    /// The record of pool `p`.
    pub fn record(&self, p: usize) -> (record: BufferRecord)
        requires
            p < self.pools().len(),
        ensures
            record.handle == self.pools()[p as int].buffer,
            record.alloc_idx == self.pools()[p as int].alloc_idx,
            record.size == self.pools()[p as int].size,
    {
        self.buffers[p]
    }

    /// Forgets every pool of the class.
    pub fn clear(&mut self)
        requires
            old(self).wf(),
        ensures
            final(self).wf(),
            final(self).default_size() == old(self).default_size(),
            final(self).pools() == Seq::<PoolModel>::empty(),
    {
        self.buffers.clear();
        self.buffer_tables.clear();
        assert(self.pools() =~= Seq::<PoolModel>::empty());
    }
}

impl Default for BufferManager {
    fn default() -> (manager: Self)
        ensures
            manager.wf(),
            manager.allocations() == Seq::<AllocRecord>::empty(),
            forall|buffer_type: BufferType|
                #[trigger] manager.pools(buffer_type) == Seq::<PoolModel>::empty(),
    {
        BufferManager::new()
    }
}

/// The allocation that backs the pool is known, as large as the pool, and
/// bound to the pool's buffer.
pub open spec fn backed(pool: PoolModel, allocations: Seq<AllocRecord>) -> bool {
    &&& 0 <= pool.alloc_idx < allocations.len()
    &&& allocations[pool.alloc_idx].size == pool.size
    &&& allocations[pool.alloc_idx].buffer == pool.buffer
}

/// The pools of every usage class, and the allocations of device memory that
/// back them.
pub struct BufferManager {
    allocs: Vec<AllocRecord>,
    specific_managers: Vec<SpecificBufferManager>,
}

impl BufferManager {
    /// The pools of a class, in the order of their creation.
    pub closed spec fn pools(&self, buffer_type: BufferType) -> Seq<PoolModel> {
        self.specific_managers@[buffer_type.slot()].pools()
    }

    /// The allocations of device memory, in the order of their creation.
    pub closed spec fn allocations(&self) -> Seq<AllocRecord> {
        self.allocs@
    }

    /// Every class has its pools, every table is well formed and spans its pool,
    /// and every pool is backed by a known allocation of its size.
    pub closed spec fn wf(&self) -> bool {
        &&& self.specific_managers@.len() == 4
        &&& forall|k: int| 0 <= k < 4 ==> (#[trigger] self.specific_managers@[k]).wf()
        &&& forall|k: int, i: int|
            0 <= k < 4 && 0 <= i < self.specific_managers@[k].pools().len() ==> backed(
                #[trigger] self.specific_managers@[k].pools()[i],
                self.allocs@,
            )
        &&& self.specific_managers@[0].default_size() == DEFAULT_STAGING_BUFFER_SIZE
        &&& self.specific_managers@[1].default_size() == DEFAULT_VERTEX_BUFFER_SIZE
        &&& self.specific_managers@[2].default_size() == DEFAULT_INDEX_BUFFER_SIZE
        &&& self.specific_managers@[3].default_size() == DEFAULT_UNIFORM_BUFFER_SIZE
    }

    /// The virtual buffer names a pool of this manager.
    pub open spec fn owns(&self, vbuffer: VirtualBuffer) -> bool {
        vbuffer.buffer_idx < self.pools(vbuffer.buffer_type).len()
    }

    /// In a well-formed manager every pool is well formed and backed.
    pub proof fn lemma_pools_wf(&self, buffer_type: BufferType, i: int)
        requires
            self.wf(),
            0 <= i < self.pools(buffer_type).len(),
        ensures
            self.pools(buffer_type)[i].wf(),
            backed(self.pools(buffer_type)[i], self.allocations()),
    {
        let k = buffer_type.slot();
        assert(self.specific_managers@[k].wf());
        self.specific_managers@[k].lemma_pool_wf(i);
    }

    /// A manager without pools.
    pub fn new() -> (manager: Self)
        ensures
            manager.wf(),
            manager.allocations() == Seq::<AllocRecord>::empty(),
            forall|buffer_type: BufferType|
                #[trigger] manager.pools(buffer_type) == Seq::<PoolModel>::empty(),
    {
        let mut specific_managers: Vec<SpecificBufferManager> = Vec::new();
        specific_managers.push(SpecificBufferManager::new(DEFAULT_STAGING_BUFFER_SIZE));
        specific_managers.push(SpecificBufferManager::new(DEFAULT_VERTEX_BUFFER_SIZE));
        specific_managers.push(SpecificBufferManager::new(DEFAULT_INDEX_BUFFER_SIZE));
        specific_managers.push(SpecificBufferManager::new(DEFAULT_UNIFORM_BUFFER_SIZE));
        BufferManager { allocs: Vec::new(), specific_managers }
    }

    /// The usage bits that a pool of the class is created with.
    pub fn buffer_type_usage(buffer_type: BufferType) -> (usage: u32)
        ensures
            usage == buffer_type.spec_usage(),
    {
        match buffer_type {
            BufferType::Staging => buffer_usage_transfer_src(),
            BufferType::Vertex => buffer_usage_union(buffer_usage_vertex(), buffer_usage_transfer_dst()),
            BufferType::Index => buffer_usage_union(buffer_usage_index(), buffer_usage_transfer_dst()),
            BufferType::Uniform => buffer_usage_union(
                buffer_usage_uniform(),
                buffer_usage_transfer_dst(),
            ),
        }
    }

    /// The memory properties that a pool of the class needs.
    pub fn buffer_type_mem_props(buffer_type: BufferType) -> (properties: u32)
        ensures
            properties == buffer_type.spec_memory_properties(),
    {
        match buffer_type {
            BufferType::Staging => memory_properties_union(
                memory_host_visible(),
                memory_host_coherent(),
            ),
            _ => memory_device_local(),
        }
    }

    /// The first memory type that `type_filter` allows and that has every property
    /// of `property_flags`. `memory_types` holds the property flags of the device's
    /// memory types, in the device's order.
    pub fn find_memory_type(memory_types: &[u32], type_filter: u32, property_flags: u32) -> (found:
        Option<u32>)
        requires
            memory_types@.len() <= MAX_MEMORY_TYPES,
        ensures
            match found {
                Some(i) => memory_type_suits(memory_types@, type_filter, property_flags, i as int)
                    && forall|j: int|
                    0 <= j < i ==> !memory_type_suits(memory_types@, type_filter, property_flags, j),
                None => forall|j: int|
                    !memory_type_suits(memory_types@, type_filter, property_flags, j),
            },
    {
        let n = memory_types.len();
        let mut i: usize = 0;
        while i < n
            invariant
                n == memory_types@.len(),
                n <= MAX_MEMORY_TYPES,
                i <= n,
                forall|j: int|
                    0 <= j < i ==> !memory_type_suits(memory_types@, type_filter, property_flags, j),
            decreases n - i,
        {
            let bit: u32 = 1u32 << (i as u32);
            if (type_filter & bit != 0) && memory_properties_contain(memory_types[i], property_flags) {
                return Some(i as u32);
            }
            i = i + 1;
        }
        None
    }

    /// What has to be created for a new pool of the class that can hold `size`
    /// units: a pool of the class's default size, or of `size` units where that
    /// is more.
    pub fn new_pool_request(buffer_type: BufferType, size: u64) -> (request: PoolRequest)
        ensures
            request.buffer_type == buffer_type,
            request.size == if size > buffer_type.spec_default_size() {
                size
            } else {
                buffer_type.spec_default_size()
            },
            request.usage == buffer_type.spec_usage(),
            request.memory_properties == buffer_type.spec_memory_properties(),
    {
        let default_size = buffer_type.default_size();
        PoolRequest {
            buffer_type,
            size: if size > default_size {
                size
            } else {
                default_size
            },
            usage: Self::buffer_type_usage(buffer_type),
            memory_properties: Self::buffer_type_mem_props(buffer_type),
        }
    }

    /// What an allocation of `vbuffer_size` units of a class does. Where a pool
    /// has room, the first such pool gives the units, and the virtual buffer
    /// names that pool and the offset. Where none has room, the pools stay as
    /// they are, and the request is for a pool of the class's default size, or of
    /// `vbuffer_size` units where that is more.
    pub open spec fn alloc_outcome(
        before: Self,
        after: Self,
        vbuffer_size: u64,
        buffer_type: BufferType,
        step: AllocStep,
    ) -> bool {
        match step {
            AllocStep::Placed(vbuffer) => {
                let pools = before.pools(buffer_type);
                let p = vbuffer.buffer_idx as int;
                &&& is_first_pool_fit(pools, vbuffer_size, p)
                &&& after.pools(buffer_type) == pools.update(p, pools[p].after_fit(vbuffer_size))
                &&& vbuffer.buffer_type == buffer_type
                &&& vbuffer.buffer_handle == pools[p].buffer
                &&& vbuffer.size == vbuffer_size
                &&& fit_offset(pools[p].cells, pools[p].alignment as int, vbuffer_size as int)
                    == Some(vbuffer.offset as int)
            },
            AllocStep::NeedsPool(request) => {
                &&& no_pool_fits(before.pools(buffer_type), vbuffer_size)
                &&& after.pools(buffer_type) == before.pools(buffer_type)
                &&& request.buffer_type == buffer_type
                &&& request.size == if vbuffer_size > buffer_type.spec_default_size() {
                    vbuffer_size
                } else {
                    buffer_type.spec_default_size()
                }
                &&& request.usage == buffer_type.spec_usage()
                &&& request.memory_properties == buffer_type.spec_memory_properties()
            },
        }
    }

    /// A pool that nothing was allocated from has room for a request exactly
    /// where the request, rounded up to the pool's alignment, is no larger than
    /// the pool; the allocation then starts at offset 0.
    pub proof fn lemma_fresh_fit(created: CreatedPool, alloc_idx: int, vbuffer_size: u64)
        requires
            created.alignment > 0,
        ensures
            PoolModel::fresh(created, alloc_idx).fits(vbuffer_size) <==> align_up(
                vbuffer_size as int,
                created.alignment as int,
            ) <= created.size,
            PoolModel::fresh(created, alloc_idx).fits(vbuffer_size) ==> fit_offset(
                PoolModel::fresh(created, alloc_idx).cells,
                created.alignment as int,
                vbuffer_size as int,
            ) == Some(0int),
    {
        let cells = PoolModel::fresh(created, alloc_idx).cells;
        let need = align_up(vbuffer_size as int, created.alignment as int);
        if need <= created.size {
            assert(fits(cells[0], need));
            assert(is_first_fit(cells, need, 0));
            lemma_first_fit_unique(cells, need, 0);
            assert(cells.take(0).len() == 0);
        }
    }

    /// Allocates `vbuffer_size` units from the first pool of the class that has
    /// room. Where no pool has room, nothing changes and the result says what
    /// pool to create.
    pub fn alloc_vbuffer(&mut self, vbuffer_size: u64, buffer_type: BufferType) -> (step:
        AllocStep)
        requires
            old(self).wf(),
        ensures
            final(self).wf(),
            final(self).allocations() == old(self).allocations(),
            forall|other: BufferType|
                other != buffer_type ==> #[trigger] final(self).pools(other) == old(self).pools(
                    other,
                ),
            Self::alloc_outcome(*old(self), *final(self), vbuffer_size, buffer_type, step),
    {
        let k = buffer_type.index();
        let ghost before = self.specific_managers@;
        assert(before[k as int].wf());
        match self.specific_managers[k].try_place(vbuffer_size) {
            Some((index, offset)) => {
                let record = self.specific_managers[k].record(index);
                proof {
                    self.lemma_frame(*old(self), k as int);
                }
                AllocStep::Placed(
                    VirtualBuffer {
                        buffer_idx: index,
                        buffer_type,
                        buffer_handle: record.handle,
                        size: vbuffer_size,
                        offset,
                    },
                )
            },
            None => {
                proof {
                    self.lemma_frame(*old(self), k as int);
                }
                AllocStep::NeedsPool(Self::new_pool_request(buffer_type, vbuffer_size))
            },
        }
    }

    /// Allocates from the staging pools.
    pub fn alloc_staging_vbuffer(&mut self, vbuffer_size: u64) -> (step: AllocStep)
        requires
            old(self).wf(),
        ensures
            final(self).wf(),
            final(self).allocations() == old(self).allocations(),
            forall|other: BufferType|
                other != BufferType::Staging ==> #[trigger] final(self).pools(other) == old(
                    self,
                ).pools(other),
            Self::alloc_outcome(*old(self), *final(self), vbuffer_size, BufferType::Staging, step),
    {
        self.alloc_vbuffer(vbuffer_size, BufferType::Staging)
    }

    /// Allocates from the vertex pools.
    pub fn alloc_vertex_vbuffer(&mut self, vbuffer_size: u64) -> (step: AllocStep)
        requires
            old(self).wf(),
        ensures
            final(self).wf(),
            final(self).allocations() == old(self).allocations(),
            forall|other: BufferType|
                other != BufferType::Vertex ==> #[trigger] final(self).pools(other) == old(
                    self,
                ).pools(other),
            Self::alloc_outcome(*old(self), *final(self), vbuffer_size, BufferType::Vertex, step),
    {
        self.alloc_vbuffer(vbuffer_size, BufferType::Vertex)
    }

    /// Allocates from the index pools.
    pub fn alloc_index_vbuffer(&mut self, vbuffer_size: u64) -> (step: AllocStep)
        requires
            old(self).wf(),
        ensures
            final(self).wf(),
            final(self).allocations() == old(self).allocations(),
            forall|other: BufferType|
                other != BufferType::Index ==> #[trigger] final(self).pools(other) == old(
                    self,
                ).pools(other),
            Self::alloc_outcome(*old(self), *final(self), vbuffer_size, BufferType::Index, step),
    {
        self.alloc_vbuffer(vbuffer_size, BufferType::Index)
    }

    /// Allocates from the uniform pools.
    pub fn alloc_uniform_vbuffer(&mut self, vbuffer_size: u64) -> (step: AllocStep)
        requires
            old(self).wf(),
        ensures
            final(self).wf(),
            final(self).allocations() == old(self).allocations(),
            forall|other: BufferType|
                other != BufferType::Uniform ==> #[trigger] final(self).pools(other) == old(
                    self,
                ).pools(other),
            Self::alloc_outcome(*old(self), *final(self), vbuffer_size, BufferType::Uniform, step),
    {
        self.alloc_vbuffer(vbuffer_size, BufferType::Uniform)
    }

    /// Whether a pool that the caller created can hold `vbuffer_size` units: the
    /// size, rounded up to the pool's alignment, is no larger than the pool.
    pub fn pool_can_hold(created: &CreatedPool, vbuffer_size: u64) -> (holds: bool)
        requires
            created.alignment > 0,
        ensures
            holds == (align_up(vbuffer_size as int, created.alignment as int) <= created.size),
    {
        let align_remainder = vbuffer_size % created.alignment;
        if align_remainder > 0 {
            match vbuffer_size.checked_add(created.alignment - align_remainder) {
                Some(rounded) => rounded <= created.size,
                None => false,
            }
        } else {
            vbuffer_size <= created.size
        }
    }

    /// Takes a pool that the caller created, with the allocation that backs it,
    /// and allocates `vbuffer_size` units at its start. A request that, rounded
    /// up to the pool's alignment, is larger than the pool is refused with
    /// `ObjectTooBig`: then the pool is not taken, and the manager stays as it
    /// is.
    pub fn alloc_in_new_pool(
        &mut self,
        buffer_type: BufferType,
        created: CreatedPool,
        vbuffer_size: u64,
    ) -> (allocated: Result<VirtualBuffer, RendererError>)
        requires
            old(self).wf(),
            created.alignment > 0,
        ensures
            final(self).wf(),
            forall|other: BufferType|
                other != buffer_type ==> #[trigger] final(self).pools(other) == old(self).pools(
                    other,
                ),
            match allocated {
                Ok(vbuffer) => {
                    &&& align_up(vbuffer_size as int, created.alignment as int) <= created.size
                    &&& vbuffer == VirtualBuffer {
                        buffer_idx: old(self).pools(buffer_type).len() as usize,
                        buffer_type,
                        buffer_handle: created.buffer,
                        size: vbuffer_size,
                        offset: 0,
                    }
                    &&& final(self).allocations() == old(self).allocations().push(
                        AllocRecord {
                            handle: created.memory,
                            size: created.size,
                            buffer: created.buffer,
                        },
                    )
                    &&& final(self).pools(buffer_type) == old(self).pools(buffer_type).push(
                        PoolModel::fresh(created, old(self).allocations().len() as int).after_fit(
                            vbuffer_size,
                        ),
                    )
                },
                Err(error) => {
                    &&& align_up(vbuffer_size as int, created.alignment as int) > created.size
                    &&& error == RendererError::ObjectTooBig
                    &&& *final(self) == *old(self)
                    &&& final(self).allocations() == old(self).allocations()
                    &&& final(self).pools(buffer_type) == old(self).pools(buffer_type)
                },
            },
    {
        if !Self::pool_can_hold(&created, vbuffer_size) {
            return Err(RendererError::ObjectTooBig);
        }
        let k = buffer_type.index();
        let ghost before = self.specific_managers@;
        let ghost fresh = PoolModel::fresh(created, self.allocs@.len() as int);
        assert(before[k as int].wf());
        let alloc_idx = self.allocs.len();
        self.allocs.push(
            AllocRecord { handle: created.memory, size: created.size, buffer: created.buffer },
        );
        let index = self.specific_managers[k].add_pool(created, alloc_idx);
        let ghost added = self.specific_managers@[k as int].pools();
        assert(added[index as int] == fresh);
        let placed = self.specific_managers[k].place_in(index, vbuffer_size);
        proof {
            Self::lemma_fresh_fit(created, alloc_idx as int, vbuffer_size);
            let pools = self.specific_managers@[k as int].pools();
            assert(pools =~= before[k as int].pools().push(fresh.after_fit(vbuffer_size)));
            assert forall|i: int| 0 <= i < pools.len() implies backed(
                #[trigger] pools[i],
                self.allocs@,
            ) by {
                if i < index {
                    assert(backed(before[k as int].pools()[i], old(self).allocs@));
                }
            }
            self.lemma_frame(*old(self), k as int);
        }
        let offset = match placed {
            Some(offset) => offset,
            None => 0,
        };
        Ok(
            VirtualBuffer {
                buffer_idx: index,
                buffer_type,
                buffer_handle: created.buffer,
                size: vbuffer_size,
                offset,
            },
        )
    }

    /// Whether the virtual buffer names a pool of this manager.
    pub fn has_pool_of(&self, vbuffer: &VirtualBuffer) -> (known: bool)
        requires
            self.wf(),
        ensures
            known == self.owns(*vbuffer),
    {
        vbuffer.buffer_idx < self.specific_managers[vbuffer.buffer_type.index()].pool_count()
    }

    /// Gives the units of a virtual buffer back to its pool: the cell at its
    /// offset becomes free and is merged with the free cells next to it.
    pub fn free_vbuffer(&mut self, vbuffer: &VirtualBuffer)
        requires
            old(self).wf(),
            old(self).owns(*vbuffer),
        ensures
            final(self).wf(),
            final(self).allocations() == old(self).allocations(),
            forall|other: BufferType|
                other != vbuffer.buffer_type ==> #[trigger] final(self).pools(other) == old(
                    self,
                ).pools(other),
            final(self).pools(vbuffer.buffer_type) == old(self).pools(vbuffer.buffer_type).update(
                vbuffer.buffer_idx as int,
                old(self).pools(vbuffer.buffer_type)[vbuffer.buffer_idx as int].after_free(
                    vbuffer.offset,
                ),
            ),
    {
        let k = vbuffer.buffer_type.index();
        let ghost before = self.specific_managers@;
        assert(before[k as int].wf());
        self.specific_managers[k].free_at(vbuffer.buffer_idx, vbuffer.offset);
        proof {
            let pools = self.specific_managers@[k as int].pools();
            assert forall|i: int| 0 <= i < pools.len() implies backed(
                #[trigger] pools[i],
                self.allocs@,
            ) by {
                assert(backed(before[k as int].pools()[i], old(self).allocs@));
            }
            self.lemma_frame(*old(self), k as int);
        }
    }

    /// Index of the allocation that backs the pool of a virtual buffer.
    pub fn get_underlying_alloc_idx(&self, vbuffer: &VirtualBuffer) -> (alloc_idx: usize)
        requires
            self.wf(),
            self.owns(*vbuffer),
        ensures
            alloc_idx == self.pools(vbuffer.buffer_type)[vbuffer.buffer_idx as int].alloc_idx,
            alloc_idx < self.allocations().len(),
    {
        let k = vbuffer.buffer_type.index();
        proof {
            self.lemma_pools_wf(vbuffer.buffer_type, vbuffer.buffer_idx as int);
        }
        self.specific_managers[k].record(vbuffer.buffer_idx).alloc_idx
    }

    /// The range of device memory to map for writing `data_len` bytes into a
    /// host-visible virtual buffer: the allocation that backs its pool, from the
    /// buffer's offset on. Data that is longer than the buffer is refused with
    /// `ObjectTooBig`, whatever the buffer is.
    pub fn direct_upload(&self, vbuffer: &VirtualBuffer, data_len: usize) -> (range: Result<
        MappedRange,
        RendererError,
    >)
        requires
            self.wf(),
            data_len <= vbuffer.size ==> self.owns(*vbuffer)
                && vbuffer.buffer_type.spec_host_visible(),
        ensures
            match range {
                Ok(mapped) => {
                    &&& data_len <= vbuffer.size
                    &&& mapped.memory == self.allocations()[self.pools(
                        vbuffer.buffer_type,
                    )[vbuffer.buffer_idx as int].alloc_idx].handle
                    &&& mapped.offset == vbuffer.offset
                    &&& mapped.size == data_len
                },
                Err(error) => data_len > vbuffer.size && error == RendererError::ObjectTooBig,
            },
    {
        let size: u64 = data_len as u64;
        if size > vbuffer.size {
            return Err(RendererError::ObjectTooBig);
        }
        let alloc_record_idx = self.get_underlying_alloc_idx(vbuffer);
        let alloc_record = self.allocs[alloc_record_idx];
        Ok(MappedRange { memory: alloc_record.handle, offset: vbuffer.offset, size })
    }

    /// Forgets every pool and every allocation, and says what to destroy: the
    /// pools of all classes, the one that was created last first. Of each pool
    /// the buffer is destroyed and the memory is freed.
    pub fn destroy(&mut self) -> (plan: Vec<PoolHandles>)
        requires
            old(self).wf(),
        ensures
            final(self).wf(),
            final(self).allocations() == Seq::<AllocRecord>::empty(),
            forall|buffer_type: BufferType|
                #[trigger] final(self).pools(buffer_type) == Seq::<PoolModel>::empty(),
            plan@ == pool_handles(old(self).allocations()).reverse(),
    {
        let ghost before = self.specific_managers@;
        let ghost all = pool_handles(self.allocs@);
        assert(before[0].wf() && before[1].wf() && before[2].wf() && before[3].wf());
        self.specific_managers[0].clear();
        self.specific_managers[1].clear();
        self.specific_managers[2].clear();
        self.specific_managers[3].clear();

        let mut plan: Vec<PoolHandles> = Vec::new();
        let n = self.allocs.len();
        let mut left: usize = n;
        while left > 0
            invariant
                n == self.allocs@.len(),
                left <= n,
                self.allocs@ == old(self).allocs@,
                all == pool_handles(old(self).allocs@),
                plan@ == all.skip(left as int).reverse(),
            decreases left,
        {
            left = left - 1;
            let record = self.allocs[left];
            plan.push(PoolHandles { buffer: record.buffer, memory: record.handle });
            assert(plan@ =~= all.skip(left as int).reverse());
        }
        assert(all.skip(0) =~= all);
        self.allocs.clear();
        plan
    }

    /// The memory type for a new pool of the class: the first type of the device
    /// that the buffer's requirements allow and that has the properties of the
    /// class.
    pub fn select_memory_type(
        memory_types: &[u32],
        memory_type_bits: u32,
        buffer_type: BufferType,
    ) -> (selected: Result<u32, RendererError>)
        requires
            memory_types@.len() <= MAX_MEMORY_TYPES,
        ensures
            match selected {
                Ok(i) => memory_type_suits(
                    memory_types@,
                    memory_type_bits,
                    buffer_type.spec_memory_properties(),
                    i as int,
                ) && forall|j: int|
                    0 <= j < i ==> !memory_type_suits(
                        memory_types@,
                        memory_type_bits,
                        buffer_type.spec_memory_properties(),
                        j,
                    ),
                Err(error) => {
                    &&& forall|j: int|
                        !memory_type_suits(
                            memory_types@,
                            memory_type_bits,
                            buffer_type.spec_memory_properties(),
                            j,
                        )
                    &&& error == RendererError::UnavailableMemoryType {
                        memory_type_flags: memory_type_bits,
                        memory_property_flags: buffer_type.spec_memory_properties(),
                    }
                },
            },
    {
        let memory_property_flags = Self::buffer_type_mem_props(buffer_type);
        match Self::find_memory_type(memory_types, memory_type_bits, memory_property_flags) {
            Some(i) => Ok(i),
            None => Err(
                RendererError::UnavailableMemoryType {
                    memory_type_flags: memory_type_bits,
                    memory_property_flags,
                },
            ),
        }
    }

    /// Where only the class at slot `k` changed, kept its default size and its
    /// pools' backing, the manager is still well formed and the other classes
    /// have the pools they had.
    proof fn lemma_frame(&self, before: Self, k: int)
        requires
            before.wf(),
            0 <= k < 4,
            self.specific_managers@.len() == 4,
            forall|j: int| 0 <= j < 4 && j != k ==> self.specific_managers@[j] == before.specific_managers@[j],
            self.specific_managers@[k].wf(),
            self.specific_managers@[k].default_size() == before.specific_managers@[k].default_size(),
            forall|i: int|
                0 <= i < self.specific_managers@[k].pools().len() ==> backed(
                    #[trigger] self.specific_managers@[k].pools()[i],
                    self.allocs@,
                ),
            before.allocs@.len() <= self.allocs@.len(),
            forall|a: int| 0 <= a < before.allocs@.len() ==> self.allocs@[a] == before.allocs@[a],
        ensures
            self.wf(),
            forall|other: BufferType|
                other.slot() != k ==> #[trigger] self.pools(other) == before.pools(other),
    {
        assert forall|j: int| 0 <= j < 4 implies (#[trigger] self.specific_managers@[j]).wf() by {
            if j != k {
                assert(before.specific_managers@[j].wf());
            }
        }
        assert forall|j: int, i: int|
            0 <= j < 4 && 0 <= i < self.specific_managers@[j].pools().len() implies backed(
            #[trigger] self.specific_managers@[j].pools()[i],
            self.allocs@,
        ) by {
            if j != k {
                assert(backed(before.specific_managers@[j].pools()[i], before.allocs@));
            }
        }
    }
}

} // verus!
