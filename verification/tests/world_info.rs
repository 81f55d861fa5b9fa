use fromsoft_bindings::world_info::{
    BlockId, UnknownStruct, WorldAreaInfo, WorldBlockInfo, WorldInfo, WorldRes,
};

fn area(n: u8, index: u32, first: u32, len: u32) -> WorldAreaInfo {
    WorldAreaInfo {
        area_number: n,
        world_area_index: index,
        world_block_index: first,
        block_info_length: len,
        is_lock: false,
    }
}

fn block(id: u32, area_index: u32, index: u32) -> WorldBlockInfo {
    WorldBlockInfo { block_id: BlockId(id), world_area_index: area_index, world_block_index: index }
}

fn sample_world() -> WorldInfo {
    let mut w = WorldInfo {
        world_area_info_len: 2,
        world_block_info_len: 3,
        is_lock: false,
        world_area_info: [area(0xFF, 0xFF, 0, 0); 0x14],
        world_block_info: [block(0, 0xFF, 0xFF); 0x20],
    };
    w.world_area_info[0] = area(30, 0, 0, 2);
    w.world_area_info[1] = area(31, 1, 2, 1);
    w.world_block_info[0] = block(0x1E00_0000, 0, 0);
    w.world_block_info[1] = block(0x1E01_0000, 0, 1);
    w.world_block_info[2] = block(0x1F00_0000, 1, 2);
    w
}

#[test]
fn block_id_fields() {
    let id = BlockId(0x1E01_ABCD);
    assert_eq!(id.area(), 0x1E);
    assert_eq!(id.group(), 0x01);
    assert_eq!(BlockId(0xFFFF_FFFF).area(), 0xFF);
    assert_eq!(BlockId(0xFFFF_FFFF).group(), 0xFF);
    assert_eq!(BlockId(0x0000_FFFF).group(), 0);
}

#[test]
fn area_info_is_the_prefix_in_use() {
    let w = sample_world();
    let areas = w.area_info();
    assert_eq!(areas.len(), 2);
    assert_eq!(areas[0].area_number, 30);
    assert_eq!(areas[1].area_number, 31);
}

#[test]
fn block_info_is_the_prefix_in_use() {
    let w = sample_world();
    let blocks = w.block_info();
    assert_eq!(blocks.len(), 3);
    assert_eq!(blocks[2].block_id, BlockId(0x1F00_0000));
}

#[test]
fn empty_world_has_no_areas() {
    let mut w = sample_world();
    w.world_area_info_len = 0;
    w.world_block_info_len = 0;
    assert!(w.area_info().is_empty());
    assert!(w.block_info().is_empty());
    assert!(w.area_and_block_info().is_empty());
}

#[test]
fn full_pools() {
    let mut w = sample_world();
    w.world_area_info_len = 0x14;
    w.world_block_info_len = 0x20;
    assert_eq!(w.area_info().len(), 0x14);
    assert_eq!(w.block_info().len(), 0x20);
}

#[test]
fn area_info_mut_changes_the_pool() {
    let mut w = sample_world();
    {
        let areas = w.area_info_mut();
        assert_eq!(areas.len(), 2);
        areas[1].is_lock = true;
    }
    assert!(w.world_area_info[1].is_lock);
    assert!(!w.world_area_info[0].is_lock);
}

#[test]
fn block_info_mut_changes_the_pool() {
    let mut w = sample_world();
    {
        let blocks = w.block_info_mut();
        assert_eq!(blocks.len(), 3);
        blocks[0].block_id = BlockId(0x2000_0000);
    }
    assert_eq!(w.world_block_info[0].block_id.area(), 0x20);
}

#[test]
fn areas_with_their_blocks() {
    let w = sample_world();
    let pairs = w.area_and_block_info();
    assert_eq!(pairs.len(), 2);
    assert_eq!(pairs[0].0.area_number, 30);
    assert_eq!(pairs[0].1.len(), 2);
    assert_eq!(pairs[0].1[1].block_id.group(), 1);
    assert_eq!(pairs[1].0.area_number, 31);
    assert_eq!(pairs[1].1.len(), 1);
    assert_eq!(pairs[1].1[0].block_id.area(), 31);
}

fn sample_res() -> WorldRes {
    let mut r = WorldRes {
        world_info: sample_world(),
        world_area_res_len: 2,
        world_block_res_len: 3,
        world_area_res: [UnknownStruct { bytes: [0u8; 0x108] }; 0x14],
        world_block_res: [UnknownStruct { bytes: [0u8; 0x438] }; 0x20],
    };
    r.world_area_res[1].bytes[0] = 7;
    r.world_block_res[2].bytes[0x437] = 9;
    r
}

#[test]
fn area_res_is_the_prefix_in_use() {
    let r = sample_res();
    assert_eq!(r.area_res().len(), 2);
    assert_eq!(r.area_res()[1].bytes[0], 7);
}

#[test]
fn block_res_is_the_prefix_in_use() {
    let r = sample_res();
    assert_eq!(r.block_res().len(), 3);
    assert_eq!(r.block_res()[2].bytes[0x437], 9);
}

#[test]
fn res_mut_changes_the_pools() {
    let mut r = sample_res();
    r.area_res_mut()[0].bytes[1] = 5;
    r.block_res_mut()[1].bytes[2] = 6;
    assert_eq!(r.world_area_res[0].bytes[1], 5);
    assert_eq!(r.world_block_res[1].bytes[2], 6);
    assert_eq!(r.area_res_mut().len(), 2);
    assert_eq!(r.block_res_mut().len(), 3);
}

#[test]
fn areas_with_their_blocks_mut() {
    let mut w = sample_world();
    {
        let mut pairs = w.area_and_block_info_mut();
        assert_eq!(pairs.len(), 2);
        assert_eq!(pairs[0].1.len(), 2);
        assert_eq!(pairs[1].1.len(), 1);
        pairs[1].0.is_lock = true;
        pairs[1].1[0].block_id = BlockId(0x2200_0000);
        pairs[0].1[1].world_block_index = 7;
    }
    assert!(w.world_area_info[1].is_lock);
    assert_eq!(w.world_block_info[2].block_id.area(), 0x22);
    assert_eq!(w.world_block_info[1].world_block_index, 7);
}

#[test]
fn areas_out_of_block_order_mut() {
    let mut w = sample_world();
    w.world_area_info_len = 3;
    w.world_area_info[0] = area(30, 0, 3, 2);
    w.world_area_info[1] = area(31, 1, 0, 3);
    w.world_area_info[2] = area(32, 2, 9, 0);
    w.world_block_info_len = 5;
    {
        let pairs = w.area_and_block_info_mut();
        assert_eq!(pairs.len(), 3);
        assert_eq!(pairs[0].0.area_number, 30);
        assert_eq!(pairs[0].1.len(), 2);
        assert_eq!(pairs[1].1.len(), 3);
        assert_eq!(pairs[1].1[0].block_id, BlockId(0x1E00_0000));
        assert!(pairs[2].1.is_empty());
        for (a, blocks) in pairs {
            for b in blocks.iter_mut() {
                b.world_area_index = a.world_area_index;
            }
        }
    }
    assert_eq!(w.world_block_info[0].world_area_index, 1);
    assert_eq!(w.world_block_info[2].world_area_index, 1);
    assert_eq!(w.world_block_info[3].world_area_index, 0);
    assert_eq!(w.world_block_info[4].world_area_index, 0);
}

#[test]
fn block_id_from_parts() {
    let id = BlockId((0x28u32 << 24) | (0x05u32 << 16) | 0x1234);
    assert_eq!(id.area(), 0x28);
    assert_eq!(id.group(), 0x05);
}

#[test]
fn area_blocks_are_blocks_in_use() {
    let w = sample_world();
    let in_use = w.block_info();
    for (a, blocks) in w.area_and_block_info() {
        let start = a.world_block_index as usize;
        let end = start + a.block_info_length as usize;
        assert_eq!(blocks, &in_use[start..end]);
    }
}

#[test]
fn blocks_outside_areas_stay_after_mut() {
    let mut w = sample_world();
    w.world_area_info[0] = area(30, 0, 0, 1);
    w.world_area_info[1] = area(31, 1, 2, 1);
    {
        let pairs = w.area_and_block_info_mut();
        for (_, blocks) in pairs {
            for b in blocks.iter_mut() {
                b.world_block_index = 99;
            }
        }
    }
    assert_eq!(w.world_block_info[0].world_block_index, 99);
    assert_eq!(w.world_block_info[1].world_block_index, 1);
    assert_eq!(w.world_block_info[2].world_block_index, 99);
    assert_eq!(w.world_block_info[31].world_block_index, 0xFF);
}
