use ash::vk;
use faisca::renderer::alloc_table::{BufferAllocCell, BufferAllocCellStatus};
use faisca::renderer::buffer::{
    AllocStep, BufferManager, BufferType, CreatedPool, MappedRange, PoolHandles, PoolRequest,
    VirtualBuffer, DEFAULT_INDEX_BUFFER_SIZE, DEFAULT_STAGING_BUFFER_SIZE,
    DEFAULT_UNIFORM_BUFFER_SIZE, DEFAULT_VERTEX_BUFFER_SIZE,
};
use faisca::renderer::RendererError;

const MIB: u64 = 1024 * 1024;

fn pool(buffer: u64, memory: u64, size: u64, alignment: u64) -> CreatedPool {
    CreatedPool { buffer, memory, size, alignment }
}

#[test]
fn default_sizes_of_the_classes() {
    assert_eq!(BufferType::Staging.default_size(), 64 * MIB);
    assert_eq!(BufferType::Vertex.default_size(), 64 * MIB);
    assert_eq!(BufferType::Index.default_size(), 64 * MIB);
    assert_eq!(BufferType::Uniform.default_size(), 64 * MIB);
    assert_eq!(DEFAULT_STAGING_BUFFER_SIZE, 67_108_864);
    assert_eq!(DEFAULT_VERTEX_BUFFER_SIZE, 67_108_864);
    assert_eq!(DEFAULT_INDEX_BUFFER_SIZE, 67_108_864);
    assert_eq!(DEFAULT_UNIFORM_BUFFER_SIZE, 67_108_864);
}

#[test]
fn only_staging_is_host_visible() {
    assert!(BufferType::Staging.host_visible());
    assert!(!BufferType::Vertex.host_visible());
    assert!(!BufferType::Index.host_visible());
    assert!(!BufferType::Uniform.host_visible());
}

#[test]
fn usage_bits_of_the_classes() {
    assert_eq!(
        BufferManager::buffer_type_usage(BufferType::Staging),
        vk::BufferUsageFlags::TRANSFER_SRC.as_raw()
    );
    assert_eq!(
        BufferManager::buffer_type_usage(BufferType::Vertex),
        (vk::BufferUsageFlags::VERTEX_BUFFER | vk::BufferUsageFlags::TRANSFER_DST).as_raw()
    );
    assert_eq!(
        BufferManager::buffer_type_usage(BufferType::Index),
        (vk::BufferUsageFlags::INDEX_BUFFER | vk::BufferUsageFlags::TRANSFER_DST).as_raw()
    );
    assert_eq!(
        BufferManager::buffer_type_usage(BufferType::Uniform),
        (vk::BufferUsageFlags::UNIFORM_BUFFER | vk::BufferUsageFlags::TRANSFER_DST).as_raw()
    );
    assert_eq!(BufferManager::buffer_type_usage(BufferType::Staging), 0x1);
    assert_eq!(BufferManager::buffer_type_usage(BufferType::Vertex), 0x82);
    assert_eq!(BufferManager::buffer_type_usage(BufferType::Index), 0x42);
    assert_eq!(BufferManager::buffer_type_usage(BufferType::Uniform), 0x12);
}

#[test]
fn memory_properties_of_the_classes() {
    assert_eq!(
        BufferManager::buffer_type_mem_props(BufferType::Staging),
        (vk::MemoryPropertyFlags::HOST_VISIBLE | vk::MemoryPropertyFlags::HOST_COHERENT).as_raw()
    );
    assert_eq!(BufferManager::buffer_type_mem_props(BufferType::Staging), 0x6);
    for class in [BufferType::Vertex, BufferType::Index, BufferType::Uniform] {
        assert_eq!(
            BufferManager::buffer_type_mem_props(class),
            vk::MemoryPropertyFlags::DEVICE_LOCAL.as_raw()
        );
        assert_eq!(BufferManager::buffer_type_mem_props(class), 0x1);
    }
}

#[test]
fn memory_type_is_the_first_allowed_with_all_properties() {
    let types = [0x1u32, 0x2, 0x6, 0x7, 0x6];
    // every type allowed
    assert_eq!(BufferManager::find_memory_type(&types, 0xffff_ffff, 0x6), Some(2));
    assert_eq!(BufferManager::find_memory_type(&types, 0xffff_ffff, 0x1), Some(0));
    assert_eq!(BufferManager::find_memory_type(&types, 0xffff_ffff, 0x0), Some(0));
    // type 2 and 3 not allowed
    assert_eq!(BufferManager::find_memory_type(&types, 0b10011, 0x6), Some(4));
    // only type 1 allowed, which lacks a property
    assert_eq!(BufferManager::find_memory_type(&types, 0b00010, 0x6), None);
    // a property that no type has
    assert_eq!(BufferManager::find_memory_type(&types, 0xffff_ffff, 0x8), None);
    // no type allowed
    assert_eq!(BufferManager::find_memory_type(&types, 0, 0x1), None);
    // no types
    assert_eq!(BufferManager::find_memory_type(&[], 0xffff_ffff, 0x1), None);
}

#[test]
fn memory_type_search_reaches_the_last_type() {
    let mut types = [0u32; 32];
    types[31] = 0x1;
    assert_eq!(BufferManager::find_memory_type(&types, 0xffff_ffff, 0x1), Some(31));
    assert_eq!(BufferManager::find_memory_type(&types, 0x7fff_ffff, 0x1), None);
    assert_eq!(BufferManager::find_memory_type(&types, 0x8000_0000, 0x1), Some(31));
}

#[test]
fn memory_type_for_a_class() {
    let types = [0x1u32, 0x6, 0x7];
    assert_eq!(
        BufferManager::select_memory_type(&types, 0xffff_ffff, BufferType::Vertex),
        Ok(0)
    );
    assert_eq!(
        BufferManager::select_memory_type(&types, 0xffff_ffff, BufferType::Staging),
        Ok(1)
    );
    assert_eq!(
        BufferManager::select_memory_type(&types, 0b100, BufferType::Staging),
        Ok(2)
    );
    assert_eq!(
        BufferManager::select_memory_type(&types, 0b001, BufferType::Staging),
        Err(RendererError::UnavailableMemoryType {
            memory_type_flags: 0b001,
            memory_property_flags: 0x6,
        })
    );
}

#[test]
fn pool_request_is_the_default_size_or_more() {
    assert_eq!(
        BufferManager::new_pool_request(BufferType::Vertex, 100),
        PoolRequest {
            buffer_type: BufferType::Vertex,
            size: 64 * MIB,
            usage: 0x82,
            memory_properties: 0x1,
        }
    );
    assert_eq!(
        BufferManager::new_pool_request(BufferType::Staging, 64 * MIB + 1),
        PoolRequest {
            buffer_type: BufferType::Staging,
            size: 64 * MIB + 1,
            usage: 0x1,
            memory_properties: 0x6,
        }
    );
    assert_eq!(BufferManager::new_pool_request(BufferType::Index, 64 * MIB).size, 64 * MIB);
}

#[test]
fn allocation_without_pools_asks_for_a_pool() {
    let mut manager = BufferManager::new();
    assert_eq!(
        manager.alloc_vertex_vbuffer(256),
        AllocStep::NeedsPool(PoolRequest {
            buffer_type: BufferType::Vertex,
            size: 64 * MIB,
            usage: 0x82,
            memory_properties: 0x1,
        })
    );
    assert_eq!(
        manager.alloc_staging_vbuffer(256),
        AllocStep::NeedsPool(BufferManager::new_pool_request(BufferType::Staging, 256))
    );
    assert_eq!(
        manager.alloc_index_vbuffer(256),
        AllocStep::NeedsPool(BufferManager::new_pool_request(BufferType::Index, 256))
    );
    assert_eq!(
        manager.alloc_uniform_vbuffer(256),
        AllocStep::NeedsPool(BufferManager::new_pool_request(BufferType::Uniform, 256))
    );
}

#[test]
fn allocation_in_a_new_pool_starts_at_zero() {
    let mut manager = BufferManager::new();
    let vbuffer = manager
        .alloc_in_new_pool(BufferType::Vertex, pool(11, 21, 1024, 16), 100)
        .unwrap();
    assert_eq!(
        vbuffer,
        VirtualBuffer {
            buffer_idx: 0,
            buffer_type: BufferType::Vertex,
            buffer_handle: 11,
            size: 100,
            offset: 0,
        }
    );
    assert!(manager.has_pool_of(&vbuffer));
    assert_eq!(manager.get_underlying_alloc_idx(&vbuffer), 0);
}

#[test]
fn later_allocations_go_to_the_first_pool_with_room() {
    let mut manager = BufferManager::new();
    manager.alloc_in_new_pool(BufferType::Vertex, pool(11, 21, 256, 16), 200).unwrap();
    manager.alloc_in_new_pool(BufferType::Vertex, pool(12, 22, 256, 16), 100).unwrap();
    // 48 units left in the first pool, 144 in the second
    assert_eq!(
        manager.alloc_vertex_vbuffer(40),
        AllocStep::Placed(VirtualBuffer {
            buffer_idx: 0,
            buffer_type: BufferType::Vertex,
            buffer_handle: 11,
            size: 40,
            offset: 208,
        })
    );
    assert_eq!(
        manager.alloc_vertex_vbuffer(40),
        AllocStep::Placed(VirtualBuffer {
            buffer_idx: 1,
            buffer_type: BufferType::Vertex,
            buffer_handle: 12,
            size: 40,
            offset: 112,
        })
    );
    assert_eq!(
        manager.alloc_vertex_vbuffer(200),
        AllocStep::NeedsPool(BufferManager::new_pool_request(BufferType::Vertex, 200))
    );
    // the classes do not share pools
    assert_eq!(
        manager.alloc_index_vbuffer(8),
        AllocStep::NeedsPool(BufferManager::new_pool_request(BufferType::Index, 8))
    );
}

#[test]
fn request_larger_than_the_new_pool_is_too_big() {
    let mut manager = BufferManager::new();
    manager.alloc_in_new_pool(BufferType::Vertex, pool(5, 6, 64, 8), 8).unwrap();
    // 250 units round up to 256 under an alignment of 16
    assert_eq!(
        manager.alloc_in_new_pool(BufferType::Uniform, pool(11, 21, 250, 16), 250),
        Err(RendererError::ObjectTooBig)
    );
    // the pool was not taken: the manager is as it was
    assert_eq!(
        manager.alloc_uniform_vbuffer(8),
        AllocStep::NeedsPool(BufferManager::new_pool_request(BufferType::Uniform, 8))
    );
    assert!(!manager.has_pool_of(&VirtualBuffer {
        buffer_idx: 0,
        buffer_type: BufferType::Uniform,
        buffer_handle: 11,
        size: 250,
        offset: 0,
    }));
    assert_eq!(manager.destroy(), vec![PoolHandles { buffer: 5, memory: 6 }]);
}

#[test]
fn a_pool_holds_what_fits_after_rounding() {
    assert!(BufferManager::pool_can_hold(&pool(1, 2, 256, 16), 256));
    assert!(BufferManager::pool_can_hold(&pool(1, 2, 256, 16), 241));
    assert!(BufferManager::pool_can_hold(&pool(1, 2, 256, 16), 0));
    assert!(!BufferManager::pool_can_hold(&pool(1, 2, 250, 16), 250));
    assert!(BufferManager::pool_can_hold(&pool(1, 2, 250, 16), 240));
    assert!(!BufferManager::pool_can_hold(&pool(1, 2, 250, 16), 241));
    assert!(BufferManager::pool_can_hold(&pool(1, 2, 250, 1), 250));
    assert!(!BufferManager::pool_can_hold(&pool(1, 2, 250, 1), 251));
    assert!(!BufferManager::pool_can_hold(&pool(1, 2, u64::MAX, 8), u64::MAX));
    assert!(BufferManager::pool_can_hold(&pool(1, 2, u64::MAX, 8), u64::MAX - 7));
    // a request beyond the default size asks for a pool of its own size, which
    // holds it only where the size is a multiple of the alignment
    let request = BufferManager::new_pool_request(BufferType::Vertex, 64 * MIB + 1);
    assert!(!BufferManager::pool_can_hold(&pool(1, 2, request.size, 16), 64 * MIB + 1));
    assert!(BufferManager::pool_can_hold(&pool(1, 2, request.size, 1), 64 * MIB + 1));
}

#[test]
fn upload_of_too_much_is_refused_whatever_the_buffer() {
    let manager = BufferManager::new();
    let unknown = VirtualBuffer {
        buffer_idx: 9,
        buffer_type: BufferType::Vertex,
        buffer_handle: 1,
        size: 10,
        offset: 0,
    };
    assert!(!manager.has_pool_of(&unknown));
    assert_eq!(manager.direct_upload(&unknown, 11), Err(RendererError::ObjectTooBig));
}

#[test]
fn freed_units_are_allocated_again() {
    let mut manager = BufferManager::new();
    let first = manager.alloc_in_new_pool(BufferType::Index, pool(11, 21, 64, 8), 32).unwrap();
    let second = match manager.alloc_index_vbuffer(32) {
        AllocStep::Placed(vbuffer) => vbuffer,
        AllocStep::NeedsPool(_) => panic!("the pool has room"),
    };
    assert_eq!(second.offset, 32);
    assert!(matches!(manager.alloc_index_vbuffer(8), AllocStep::NeedsPool(_)));
    manager.free_vbuffer(&first);
    assert_eq!(
        manager.alloc_index_vbuffer(8),
        AllocStep::Placed(VirtualBuffer {
            buffer_idx: 0,
            buffer_type: BufferType::Index,
            buffer_handle: 11,
            size: 8,
            offset: 0,
        })
    );
}

#[test]
fn upload_maps_the_backing_allocation_at_the_offset() {
    let mut manager = BufferManager::new();
    manager.alloc_in_new_pool(BufferType::Vertex, pool(11, 21, 64, 8), 8).unwrap();
    manager.alloc_in_new_pool(BufferType::Staging, pool(12, 22, 256, 8), 16).unwrap();
    let staging = match manager.alloc_staging_vbuffer(100) {
        AllocStep::Placed(vbuffer) => vbuffer,
        AllocStep::NeedsPool(_) => panic!("the pool has room"),
    };
    assert_eq!(staging.offset, 16);
    assert_eq!(manager.get_underlying_alloc_idx(&staging), 1);
    assert_eq!(
        manager.direct_upload(&staging, 100),
        Ok(MappedRange { memory: 22, offset: 16, size: 100 })
    );
    assert_eq!(
        manager.direct_upload(&staging, 0),
        Ok(MappedRange { memory: 22, offset: 16, size: 0 })
    );
    assert_eq!(manager.direct_upload(&staging, 101), Err(RendererError::ObjectTooBig));
}

#[test]
fn unknown_pool_is_not_owned() {
    let mut manager = BufferManager::new();
    let vbuffer = manager.alloc_in_new_pool(BufferType::Vertex, pool(11, 21, 64, 8), 8).unwrap();
    assert!(manager.has_pool_of(&vbuffer));
    assert!(!manager.has_pool_of(&VirtualBuffer { buffer_idx: 1, ..vbuffer }));
    assert!(!manager.has_pool_of(&VirtualBuffer { buffer_type: BufferType::Index, ..vbuffer }));
}

#[test]
fn destroy_lists_the_pools_newest_first() {
    let mut manager = BufferManager::new();
    manager.alloc_in_new_pool(BufferType::Vertex, pool(11, 21, 64, 8), 8).unwrap();
    manager.alloc_in_new_pool(BufferType::Staging, pool(12, 22, 64, 8), 8).unwrap();
    manager.alloc_in_new_pool(BufferType::Vertex, pool(13, 23, 64, 8), 8).unwrap();
    assert_eq!(
        manager.destroy(),
        vec![
            PoolHandles { buffer: 13, memory: 23 },
            PoolHandles { buffer: 12, memory: 22 },
            PoolHandles { buffer: 11, memory: 21 },
        ]
    );
    // nothing is left
    assert_eq!(manager.destroy(), vec![]);
    assert!(matches!(manager.alloc_vertex_vbuffer(8), AllocStep::NeedsPool(_)));
    assert!(matches!(manager.alloc_staging_vbuffer(8), AllocStep::NeedsPool(_)));
}

#[test]
fn cells_behind_a_pool_follow_the_table_rules() {
    let mut manager = BufferManager::new();
    let first = manager.alloc_in_new_pool(BufferType::Vertex, pool(11, 21, 64, 8), 7).unwrap();
    assert_eq!(first.offset, 0);
    let second = match manager.alloc_vertex_vbuffer(9) {
        AllocStep::Placed(vbuffer) => vbuffer,
        AllocStep::NeedsPool(_) => panic!("the pool has room"),
    };
    assert_eq!(second.offset, 8);
    let third = match manager.alloc_vertex_vbuffer(1) {
        AllocStep::Placed(vbuffer) => vbuffer,
        AllocStep::NeedsPool(_) => panic!("the pool has room"),
    };
    assert_eq!(third.offset, 24);
    let _ = BufferAllocCell { length: 8, status: BufferAllocCellStatus::Occupied };
}
