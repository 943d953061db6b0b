use lane_lunacy::render::raytrace::{
    align_up, chunk_slot, dirty_slots, instance_plan, plan_repack, pool_layout, region_extent,
    RtSlot, SlotLayout, CHUNK_INDEX_CAP, CHUNK_INSTANCE_MASK, CHUNK_SLOT_COUNT, CHUNK_VERT_CAP,
    STATIC_INSTANCE_MASK, SUPERSAMPLE,
};

#[test]
fn align_up_rounds_to_the_next_multiple() {
    assert_eq!(align_up(0, 256), 0);
    assert_eq!(align_up(1, 256), 256);
    assert_eq!(align_up(256, 256), 256);
    assert_eq!(align_up(257, 256), 512);
    assert_eq!(align_up(1000, 7), 1001);
    assert_eq!(align_up(u64::MAX, 1), u64::MAX);
}

#[test]
fn region_extent_scales_both_axes() {
    assert_eq!(region_extent([640, 360], SUPERSAMPLE), [1280, 720, 1]);
    assert_eq!(region_extent([0, 5], 3), [0, 15, 1]);
}

#[test]
fn chunk_slots_wrap_every_eight_chunks() {
    assert_eq!(chunk_slot(5, 0), 5);
    assert_eq!(chunk_slot(5, 7), 12);
    assert_eq!(chunk_slot(5, 8), 5);
    assert_eq!(chunk_slot(5, -1), 12);
    assert_eq!(chunk_slot(5, -8), 5);
    assert_eq!(chunk_slot(0, i32::MIN), 0);
    assert_eq!(chunk_slot(0, i32::MAX), 7);
    let slots: Vec<usize> = (3..11).map(|i| chunk_slot(1, i)).collect();
    let mut sorted = slots.clone();
    sorted.sort();
    sorted.dedup();
    assert_eq!(sorted.len(), CHUNK_SLOT_COUNT);
}

#[test]
fn dirty_slots_lists_set_flags_in_order() {
    assert_eq!(dirty_slots(&[true, false, true, true, false]), vec![0, 2, 3]);
    assert!(dirty_slots(&[false, false]).is_empty());
    assert!(dirty_slots(&[]).is_empty());
}

#[test]
fn pool_layout_packs_statics_then_chunk_slots() {
    let (layouts, slots) = pool_layout(&[(100, 300), (10, 30)]);
    assert_eq!(layouts.len(), 2 + CHUNK_SLOT_COUNT);
    assert_eq!(
        layouts[0],
        SlotLayout { vertex_base: 0, vertex_cap: 100, index_base: 0, index_cap: 300 }
    );
    assert_eq!(
        layouts[1],
        SlotLayout { vertex_base: 300, vertex_cap: 10, index_base: 300, index_cap: 30 }
    );
    assert_eq!(
        layouts[2],
        SlotLayout {
            vertex_base: 330,
            vertex_cap: CHUNK_VERT_CAP,
            index_base: 330,
            index_cap: CHUNK_INDEX_CAP
        }
    );
    assert_eq!(layouts[3].vertex_base, 330 + 3 * CHUNK_VERT_CAP);
    assert_eq!(layouts[3].index_base, 330 + CHUNK_INDEX_CAP);
    assert_eq!(
        slots[1],
        RtSlot { vertex_base: 300, vertex_count: 10, index_base: 300, index_count: 30 }
    );
    assert_eq!(slots[9].vertex_count, 0);
    assert_eq!(slots[9].index_count, 0);
    assert_eq!(slots[9].vertex_base, layouts[9].vertex_base);
}

#[test]
fn repack_installs_a_fresh_window_and_then_only_the_entering_chunk() {
    let mut owner: Vec<Option<i32>> = vec![None; CHUNK_SLOT_COUNT];
    let window: Vec<i32> = (-1..=6).collect();
    let repacked = plan_repack(&mut owner, &window);
    assert_eq!(repacked, (0..8).collect::<Vec<usize>>());
    for &idx in &window {
        assert_eq!(owner[chunk_slot(0, idx)], Some(idx));
    }
    // same window again: nothing to do
    assert!(plan_repack(&mut owner, &window).is_empty());
    // +1 slide: only the entering chunk (last position) is repacked
    let slid: Vec<i32> = (0..=7).collect();
    assert_eq!(plan_repack(&mut owner, &slid), vec![7]);
    assert_eq!(owner[chunk_slot(0, 7)], Some(7));
    assert_eq!(owner[chunk_slot(0, 0)], Some(0));
}

#[test]
fn instance_plan_orders_player_traffic_then_chunks() {
    let plan = instance_plan(5, 4, 5, &[-1, 0, 1]);
    assert_eq!(plan.len(), 1 + 5 + 3);
    assert_eq!(plan[0], (0, STATIC_INSTANCE_MASK));
    assert_eq!(plan[1], (1, STATIC_INSTANCE_MASK));
    assert_eq!(plan[4], (4, STATIC_INSTANCE_MASK));
    assert_eq!(plan[5], (1, STATIC_INSTANCE_MASK));
    assert_eq!(plan[6], (12, CHUNK_INSTANCE_MASK));
    assert_eq!(plan[7], (5, CHUNK_INSTANCE_MASK));
    assert_eq!(plan[8], (6, CHUNK_INSTANCE_MASK));
}
