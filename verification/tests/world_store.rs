use axolotl_core::generator::BiomeSourceSettings;
use axolotl_core::generator::NoiseGenerator;
use axolotl_core::generator::NoiseSetting;
use axolotl_core::generator::Settings;
use axolotl_core::loading::DensityLoader;
use axolotl_core::loading::FunctionArgument;
use axolotl_core::store::ChunkMap;
use axolotl_core::store::ChunkUpdate;
use axolotl_core::store::MemoryAccessor;
use axolotl_core::tickets::ChunkTickets;
use axolotl_core::world::new_update_channel;
use axolotl_core::world::record;
use axolotl_core::world::section_key;
use axolotl_core::world::try_recv_update;
use axolotl_core::world::AxolotlWorld;
use axolotl_core::world::PlayerUpdate;
use axolotl_core::BlockPosition;
use axolotl_core::ChunkPos;
use axolotl_core::OwnedNameSpaceKey;
use axolotl_core::PlacedBlock;

fn test_world() -> AxolotlWorld<MemoryAccessor> {
    let settings = Settings {
        noise: NoiseSetting { density: FunctionArgument::Number(0), default_block: 1 },
        biome_source: BiomeSourceSettings {
            biome: OwnedNameSpaceKey::new("minecraft".to_string(), "plains".to_string()),
        },
    };
    let loader = DensityLoader::new();
    let generator = NoiseGenerator::new(settings, 42, &loader).unwrap();
    let chunk_map = ChunkMap::new(generator, MemoryAccessor::new());
    AxolotlWorld::new("world".to_string(), 8, 8, chunk_map)
}

#[test]
fn get_region_shifts_by_five() {
    let u = ChunkUpdate::Load { x: 33, z: -1, set_block: None };
    assert_eq!(u.get_region(), (1, -1));
    let u = ChunkUpdate::Unload { x: 64, z: 31 };
    assert_eq!(u.get_region(), (2, 0));
}

#[test]
fn set_block_required_loaded_on_absent_region() {
    let mut world = test_world();
    let pos = BlockPosition { x: 20, y: 5, z: 20 };
    let ok = world.set_block(pos, PlacedBlock::new(7), true);
    assert!(!ok);
    // Nothing was enqueued: draining the queue materializes nothing.
    world.chunk_map.handle_updates(&world.chunk_tickets).unwrap();
    assert!(world.chunk_map.get(ChunkPos::new(1, 1)).is_none());
    assert_eq!(world.chunk_map.get_block(pos), None);
}

#[test]
fn set_block_optimistic_on_absent_region() {
    let mut world = test_world();
    let pos = BlockPosition { x: 20, y: 5, z: 21 };
    let ok = world.set_block(pos, PlacedBlock::new(7), false);
    assert!(ok);
    assert_eq!(world.chunk_map.get_block(pos), None);
    world.chunk_map.handle_updates(&world.chunk_tickets).unwrap();
    assert!(world.chunk_map.get(ChunkPos::new(1, 1)).is_some());
    assert_eq!(world.chunk_map.get_block(pos), Some(7));
}

#[test]
fn set_block_mutates_resident_region() {
    let mut world = test_world();
    world.chunk_map.enqueue_load(0, 0, None);
    world.chunk_map.handle_updates(&world.chunk_tickets).unwrap();
    let pos = BlockPosition { x: 3, y: 17, z: 9 };
    assert_eq!(world.chunk_map.get_block(pos), Some(0));
    let ok = world.set_block(pos, PlacedBlock::new(5), true);
    assert!(ok);
    assert_eq!(world.chunk_map.get_block(pos), Some(5));
}

#[test]
fn set_blocks_requires_residency() {
    let mut world = test_world();
    let edits = vec![
        (BlockPosition { x: 1, y: 1, z: 1 }, PlacedBlock::new(3)),
        (BlockPosition { x: 2, y: 2, z: 2 }, PlacedBlock::new(4)),
    ];
    // Absent region: the whole batch is dropped, nothing is enqueued.
    world.set_blocks(ChunkPos::new(0, 0), edits);
    world.chunk_map.handle_updates(&world.chunk_tickets).unwrap();
    assert!(world.chunk_map.get(ChunkPos::new(0, 0)).is_none());

    world.chunk_map.enqueue_load(0, 0, None);
    world.chunk_map.handle_updates(&world.chunk_tickets).unwrap();
    let edits = vec![
        (BlockPosition { x: 1, y: 1, z: 1 }, PlacedBlock::new(3)),
        (BlockPosition { x: 1, y: 1, z: 1 }, PlacedBlock::new(4)),
    ];
    world.set_blocks(ChunkPos::new(0, 0), edits);
    // Applied in order: the later edit wins.
    assert_eq!(world.chunk_map.get_block(BlockPosition { x: 1, y: 1, z: 1 }), Some(4));
}

#[test]
fn unloadable_regions_and_ticket_retention() {
    let mut tickets = ChunkTickets::new();
    let pos = ChunkPos::new(4, 4);
    tickets.track(pos);
    let unloadable = tickets.find_unloadable();
    assert!(unloadable.iter().any(|p| p.x() == 4 && p.z() == 4));
    // Adding any ticket removes the region from the sequence.
    tickets.add_ticket(11, pos);
    let unloadable = tickets.find_unloadable();
    assert!(!unloadable.iter().any(|p| p.x() == 4 && p.z() == 4));
    // Removing the last ticket makes it unloadable again.
    tickets.remove_ticket(11, pos);
    let unloadable = tickets.find_unloadable();
    assert!(unloadable.iter().any(|p| p.x() == 4 && p.z() == 4));
}

#[test]
fn remove_viewer_clears_all_its_tickets() {
    let mut tickets = ChunkTickets::new();
    tickets.add_ticket(5, ChunkPos::new(0, 0));
    tickets.add_ticket(5, ChunkPos::new(1, 0));
    tickets.add_ticket(6, ChunkPos::new(1, 0));
    tickets.remove_viewer(5);
    assert!(tickets.find_unloadable().iter().any(|p| p.x() == 0 && p.z() == 0));
    assert!(!tickets.find_unloadable().iter().any(|p| p.x() == 1 && p.z() == 0));
}

#[test]
fn ticketed_region_is_never_unloaded() {
    let mut world = test_world();
    world.chunk_map.enqueue_load(0, 0, None);
    world.chunk_map.handle_updates(&world.chunk_tickets).unwrap();
    world.chunk_tickets.add_ticket(9, ChunkPos::new(0, 0));
    world.chunk_map.enqueue_unload(0, 0);
    world.chunk_map.handle_updates(&world.chunk_tickets).unwrap();
    assert!(world.chunk_map.get(ChunkPos::new(0, 0)).is_some());
    // Dropping the interest lets the unload pass.
    world.chunk_tickets.remove_ticket(9, ChunkPos::new(0, 0));
    world.chunk_map.enqueue_unload(0, 0);
    world.chunk_map.handle_updates(&world.chunk_tickets).unwrap();
    assert!(world.chunk_map.get(ChunkPos::new(0, 0)).is_none());
}

#[test]
fn save_all_keeps_residency() {
    let mut world = test_world();
    world.chunk_map.enqueue_load(0, 0, None);
    world.chunk_map.handle_updates(&world.chunk_tickets).unwrap();
    world.chunk_map.save_all().unwrap();
    world.chunk_map.force_close_all();
    assert!(world.chunk_map.get(ChunkPos::new(0, 0)).is_some());
}

#[test]
fn unload_persists_dirty_region() {
    let mut world = test_world();
    let pos = BlockPosition { x: 3, y: 3, z: 3 };
    world.set_block(pos, PlacedBlock::new(8), false);
    world.chunk_map.handle_updates(&world.chunk_tickets).unwrap();
    assert_eq!(world.chunk_map.get_block(pos), Some(8));
    world.chunk_map.enqueue_unload(0, 0);
    world.chunk_map.handle_updates(&world.chunk_tickets).unwrap();
    assert_eq!(world.chunk_map.get_block(pos), None);
    // Loading again finds the persisted content, edit included.
    world.chunk_map.enqueue_load(0, 0, None);
    world.chunk_map.handle_updates(&world.chunk_tickets).unwrap();
    assert_eq!(world.chunk_map.get_block(pos), Some(8));
}

#[test]
fn section_key_matches_documented_layout() {
    assert_eq!(section_key(1, 5, -1), 8796091973637i64);
    assert_eq!(record(7, 3, 5, 2), 29477i64);
}

#[test]
fn block_update_reaches_ticketed_viewer() {
    let mut world = test_world();
    world.chunk_map.enqueue_load(1, 1, None);
    world.chunk_map.handle_updates(&world.chunk_tickets).unwrap();
    let (sender, receiver) = new_update_channel();
    world.add_client(77, sender);
    world.chunk_tickets.add_ticket(77, ChunkPos::new(1, 1));
    let pos = BlockPosition { x: 20, y: 5, z: 20 };
    let ok = world.set_block(pos, PlacedBlock::new(7), true);
    assert!(ok);
    match try_recv_update(&receiver) {
        Some(PlayerUpdate::UpdateBlock(p, id)) => {
            assert_eq!((p.x, p.y, p.z), (20, 5, 20));
            assert_eq!(id, 7);
        },
        other => panic!("expected a block update, got {:?}", other),
    }
}

#[test]
fn batched_updates_are_grouped_per_section() {
    let mut world = test_world();
    world.chunk_map.enqueue_load(0, 0, None);
    world.chunk_map.handle_updates(&world.chunk_tickets).unwrap();
    let (sender, receiver) = new_update_channel();
    world.add_client(1, sender);
    world.chunk_tickets.add_ticket(1, ChunkPos::new(0, 0));
    let edits = vec![
        (BlockPosition { x: 1, y: 1, z: 1 }, PlacedBlock::new(3)),
        (BlockPosition { x: 2, y: 2, z: 2 }, PlacedBlock::new(4)),
        (BlockPosition { x: 3, y: 20, z: 3 }, PlacedBlock::new(5)),
        (BlockPosition { x: 2, y: 1, z: 2 }, PlacedBlock::new(6)),
    ];
    world.set_blocks(ChunkPos::new(0, 0), edits);
    match try_recv_update(&receiver) {
        Some(PlayerUpdate::SectionUpdate(groups)) => {
            // The key carries the global y, so each touched level groups
            // apart; records repeating a key append to its group.
            assert_eq!(groups.len(), 3);
            assert_eq!(groups[0].0, section_key(0, 1, 0));
            assert_eq!(groups[0].1, vec![record(3, 1, 1, 1), record(6, 2, 1, 2)]);
            assert_eq!(groups[1].0, section_key(0, 2, 0));
            assert_eq!(groups[1].1, vec![record(4, 2, 2, 2)]);
            assert_eq!(groups[2].0, section_key(0, 20, 0));
            assert_eq!(groups[2].1, vec![record(5, 3, 20, 3)]);
        },
        other => panic!("expected a section update, got {:?}", other),
    }
}

#[test]
fn disconnected_viewer_is_skipped() {
    let mut world = test_world();
    world.chunk_map.enqueue_load(0, 0, None);
    world.chunk_map.handle_updates(&world.chunk_tickets).unwrap();
    let (sender, receiver) = new_update_channel();
    drop(receiver);
    world.add_client(8, sender);
    world.chunk_tickets.add_ticket(8, ChunkPos::new(0, 0));
    let pos = BlockPosition { x: 0, y: 0, z: 0 };
    // The send fails on the dropped peer; the mutation still succeeds.
    let ok = world.set_block(pos, PlacedBlock::new(2), true);
    assert!(ok);
    assert_eq!(world.chunk_map.get_block(pos), Some(2));
}

#[test]
fn groups_with_two_sections_and_keys() {
    // The same y but different keys when chunk coordinates differ.
    assert_ne!(section_key(1, 5, -1), section_key(-1, 5, 1));
    assert_eq!(
        section_key(0, 0, 0),
        0i64,
    );
}

#[test]
fn batched_broadcast_skips_unresolvable_ids() {
    let mut world = test_world();
    world.chunk_map.enqueue_load(0, 0, None);
    world.chunk_map.handle_updates(&world.chunk_tickets).unwrap();
    let (sender, receiver) = new_update_channel();
    world.add_client(2, sender);
    world.chunk_tickets.add_ticket(2, ChunkPos::new(0, 0));
    let edits = vec![
        (BlockPosition { x: 1, y: 1, z: 1 }, PlacedBlock::new(3)),
        (BlockPosition { x: 2, y: 2, z: 2 }, PlacedBlock::new(usize::MAX)),
    ];
    world.set_blocks(ChunkPos::new(0, 0), edits);
    // The unresolvable id changed nothing and is not announced; the valid
    // edit is applied and broadcast.
    assert_eq!(world.chunk_map.get_block(BlockPosition { x: 1, y: 1, z: 1 }), Some(3));
    assert_eq!(world.chunk_map.get_block(BlockPosition { x: 2, y: 2, z: 2 }), Some(0));
    match try_recv_update(&receiver) {
        Some(PlayerUpdate::SectionUpdate(groups)) => {
            assert_eq!(groups.len(), 1);
            assert_eq!(groups[0].0, section_key(0, 1, 0));
            assert_eq!(groups[0].1, vec![record(3, 1, 1, 1)]);
        },
        other => panic!("expected a section update, got {:?}", other),
    }
}
