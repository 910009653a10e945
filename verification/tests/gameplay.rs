use survival_core::commands::{process_command, Command};
use survival_core::{CompoundAction, Items, MapHandler, Player, Tiles, TurnLog};

fn open_world() -> (Player, MapHandler, TurnLog) {
    (Player::new(2, 2), MapHandler::new(16, 16), TurnLog::new())
}

fn ground_slot(map: &MapHandler, x: i32, y: i32, i: usize) -> Option<Items> {
    *map.get_tile_at(x, y).unwrap().get_items().unwrap().slot(i)
}

fn set_ground_slot(map: &mut MapHandler, x: i32, y: i32, i: usize, v: Option<Items>) {
    *map.get_tile_at_mut(x, y)
        .unwrap()
        .get_items_mut()
        .unwrap()
        .slot_mut(i) = v;
}

#[test]
fn walking_east_five_times() {
    let (mut player, mut map, mut log) = open_world();
    for _ in 0..5 {
        process_command(&mut player, &mut map, &mut log, Command::Move(1, 0));
    }
    assert_eq!(player.x, 7);
    assert_eq!(player.y, 2);
    assert_eq!(player.hunger.value, 5);
    assert_eq!(player.health.value, 10);
    assert_eq!(log.len(), 5);
    assert_eq!(log.entry(0), "Player moved to (3/2)");
    assert_eq!(log.entry(4), "Player moved to (7/2)");
}

#[test]
fn walls_block_movement() {
    let (mut player, mut map, mut log) = open_world();
    map.set_tile_at(3, 2, Tiles::Wall);
    process_command(&mut player, &mut map, &mut log, Command::Move(1, 0));
    assert_eq!(player.x, 2);
    assert_eq!(player.y, 2);
    assert_eq!(player.hunger.value, 10);
    assert_eq!(log.len(), 0);
}

#[test]
fn closed_doors_block_and_open_doors_admit() {
    let (mut player, mut map, mut log) = open_world();
    map.set_tile_at(3, 2, Tiles::Door(false));
    process_command(&mut player, &mut map, &mut log, Command::Move(1, 0));
    assert_eq!(player.x, 2);
    assert_eq!(log.len(), 0);
    map.set_tile_at(3, 2, Tiles::Door(true));
    process_command(&mut player, &mut map, &mut log, Command::Move(1, 0));
    assert_eq!(player.x, 3);
    assert_eq!(player.hunger.value, 9);
    assert_eq!(log.len(), 1);
}

#[test]
fn exhausted_player_cannot_move() {
    let (mut player, mut map, mut log) = open_world();
    player.stamina.decrease(10);
    process_command(&mut player, &mut map, &mut log, Command::Move(1, 0));
    assert_eq!(player.x, 2);
    assert_eq!(player.hunger.value, 10);
    assert_eq!(log.len(), 0);
}

#[test]
fn movement_is_clamped_to_the_grid() {
    let (mut player, mut map, mut log) = open_world();
    player.x = 0;
    player.y = 0;
    process_command(&mut player, &mut map, &mut log, Command::Move(-1, 0));
    assert_eq!(player.x, 0);
    assert_eq!(player.y, 0);
    // The clamped target is the player's own tile, which is passable, so the
    // "move" still costs hunger and logs.
    assert_eq!(player.hunger.value, 9);
    assert_eq!(log.len(), 1);
}

#[test]
fn interact_toggles_every_adjacent_door_once() {
    let (mut player, mut map, mut log) = open_world();
    map.set_tile_at(2, 3, Tiles::Door(true));
    map.set_tile_at(3, 2, Tiles::Door(false));
    map.set_tile_at(5, 5, Tiles::Door(false));
    process_command(&mut player, &mut map, &mut log, Command::InteractAdjacent);
    assert!(matches!(map.get_tile_at(2, 3), Some(Tiles::Door(false))));
    assert!(matches!(map.get_tile_at(3, 2), Some(Tiles::Door(true))));
    assert!(matches!(map.get_tile_at(5, 5), Some(Tiles::Door(false))));
    assert_eq!(log.len(), 2);
    assert_eq!(log.entry(0), "Player closed the door.");
    assert_eq!(log.entry(1), "Player opened the door.");
    process_command(&mut player, &mut map, &mut log, Command::InteractAdjacent);
    assert!(matches!(map.get_tile_at(2, 3), Some(Tiles::Door(true))));
    assert!(matches!(map.get_tile_at(3, 2), Some(Tiles::Door(false))));
    assert_eq!(log.len(), 4);
}

#[test]
fn interact_in_a_corner_ignores_offgrid_cells() {
    let (mut player, mut map, mut log) = open_world();
    player.x = 0;
    player.y = 0;
    map.set_tile_at(1, 1, Tiles::Door(false));
    process_command(&mut player, &mut map, &mut log, Command::InteractAdjacent);
    assert!(matches!(map.get_tile_at(1, 1), Some(Tiles::Door(true))));
    assert_eq!(log.len(), 1);
}

#[test]
fn cursor_navigation_clamps_to_slot_range() {
    let (mut player, mut map, mut log) = open_world();
    process_command(&mut player, &mut map, &mut log, Command::CursorLeft);
    assert_eq!(player.selected_slot, 0);
    process_command(&mut player, &mut map, &mut log, Command::CursorRight);
    assert_eq!(player.selected_slot, 1);
    process_command(&mut player, &mut map, &mut log, Command::CursorDown);
    assert_eq!(player.selected_slot, 10);
    process_command(&mut player, &mut map, &mut log, Command::CursorUp);
    assert_eq!(player.selected_slot, 1);
    player.selected_slot = 17;
    process_command(&mut player, &mut map, &mut log, Command::CursorRight);
    assert_eq!(player.selected_slot, 17);
    process_command(&mut player, &mut map, &mut log, Command::CursorDown);
    assert_eq!(player.selected_slot, 17);
}

#[test]
fn eating_from_the_ground() {
    let (mut player, mut map, mut log) = open_world();
    set_ground_slot(&mut map, 2, 2, 0, Some(Items::Food));
    player.hunger.decrease(6);
    assert_eq!(player.hunger.value, 4);
    player.selected_slot = 9;
    process_command(&mut player, &mut map, &mut log, Command::UseSelected);
    assert_eq!(player.hunger.value, 10);
    assert_eq!(player.hunger.max, 10);
    assert_eq!(ground_slot(&map, 2, 2, 0), None);
    assert_eq!(log.len(), 0);
}

#[test]
fn bandage_heals_from_the_inventory() {
    let (mut player, mut map, mut log) = open_world();
    *player.items.slot_mut(3) = Some(Items::Bandage);
    player.health.decrease(5);
    player.selected_slot = 3;
    process_command(&mut player, &mut map, &mut log, Command::UseSelected);
    assert_eq!(player.health.value, 10);
    assert_eq!(*player.items.slot(3), None);
}

#[test]
fn using_at_full_stat_keeps_the_item() {
    let (mut player, mut map, mut log) = open_world();
    *player.items.slot_mut(0) = Some(Items::Food);
    process_command(&mut player, &mut map, &mut log, Command::UseSelected);
    assert_eq!(*player.items.slot(0), Some(Items::Food));
    assert_eq!(player.hunger.value, 10);
}

#[test]
fn using_an_empty_slot_is_a_noop() {
    let (mut player, mut map, mut log) = open_world();
    player.hunger.decrease(3);
    process_command(&mut player, &mut map, &mut log, Command::UseSelected);
    assert_eq!(player.hunger.value, 7);
    assert_eq!(player.health.value, 10);
    for i in 0..9 {
        assert_eq!(*player.items.slot(i), None);
    }
}

#[test]
fn begin_swap_records_source_and_hunts_empty_ground_slot() {
    let (mut player, mut map, mut log) = open_world();
    set_ground_slot(&mut map, 2, 2, 0, Some(Items::Food));
    player.selected_slot = 4;
    process_command(&mut player, &mut map, &mut log, Command::BeginSwap);
    assert!(matches!(player.action, Some(CompoundAction::SwapItem(4))));
    assert_eq!(player.selected_slot, 10);
}

#[test]
fn begin_swap_falls_back_when_opposite_space_is_full() {
    let (mut player, mut map, mut log) = open_world();
    for i in 0..9 {
        set_ground_slot(&mut map, 2, 2, i, Some(Items::Food));
    }
    player.selected_slot = 0;
    process_command(&mut player, &mut map, &mut log, Command::BeginSwap);
    assert!(matches!(player.action, Some(CompoundAction::SwapItem(0))));
    assert_eq!(player.selected_slot, 9);
}

#[test]
fn swapping_bandage_from_inventory_to_ground() {
    let (mut player, mut map, mut log) = open_world();
    *player.items.slot_mut(0) = Some(Items::Bandage);
    process_command(&mut player, &mut map, &mut log, Command::BeginSwap);
    assert!(matches!(player.action, Some(CompoundAction::SwapItem(0))));
    assert_eq!(player.selected_slot, 9);
    process_command(&mut player, &mut map, &mut log, Command::ConfirmSwap);
    assert_eq!(*player.items.slot(0), None);
    assert_eq!(ground_slot(&map, 2, 2, 0), Some(Items::Bandage));
    assert!(player.action.is_none());
    assert_eq!(log.len(), 1);
    assert_eq!(log.entry(0), "Swapped item from: 0, to: 9");
}

#[test]
fn swapping_both_directions_exchanges_contents() {
    let (mut player, mut map, mut log) = open_world();
    *player.items.slot_mut(2) = Some(Items::Bandage);
    set_ground_slot(&mut map, 2, 2, 2, Some(Items::Food));
    player.selected_slot = 2;
    process_command(&mut player, &mut map, &mut log, Command::BeginSwap);
    // Ground slot 0 is empty, so the cursor lands there; steer it to slot 11.
    assert_eq!(player.selected_slot, 9);
    process_command(&mut player, &mut map, &mut log, Command::CursorRight);
    process_command(&mut player, &mut map, &mut log, Command::CursorRight);
    assert_eq!(player.selected_slot, 11);
    process_command(&mut player, &mut map, &mut log, Command::ConfirmSwap);
    assert_eq!(*player.items.slot(2), Some(Items::Food));
    assert_eq!(ground_slot(&map, 2, 2, 2), Some(Items::Bandage));
    assert!(player.action.is_none());
}

#[test]
fn empty_source_clears_occupied_target() {
    let (mut player, mut map, mut log) = open_world();
    *player.items.slot_mut(5) = Some(Items::Food);
    player.selected_slot = 9;
    process_command(&mut player, &mut map, &mut log, Command::BeginSwap);
    // Source is the empty ground slot 9; the hunt lands on inventory slot 0.
    assert!(matches!(player.action, Some(CompoundAction::SwapItem(9))));
    assert_eq!(player.selected_slot, 0);
    for _ in 0..5 {
        process_command(&mut player, &mut map, &mut log, Command::CursorRight);
    }
    assert_eq!(player.selected_slot, 5);
    process_command(&mut player, &mut map, &mut log, Command::ConfirmSwap);
    assert_eq!(*player.items.slot(5), None);
    assert_eq!(ground_slot(&map, 2, 2, 0), Some(Items::Food));
}

#[test]
fn confirming_on_the_source_slot_changes_nothing_and_stays_pending() {
    let (mut player, mut map, mut log) = open_world();
    *player.items.slot_mut(0) = Some(Items::Bandage);
    set_ground_slot(&mut map, 2, 2, 1, Some(Items::Food));
    process_command(&mut player, &mut map, &mut log, Command::BeginSwap);
    assert!(matches!(player.action, Some(CompoundAction::SwapItem(0))));
    process_command(&mut player, &mut map, &mut log, Command::CursorUp);
    assert_eq!(player.selected_slot, 0);
    process_command(&mut player, &mut map, &mut log, Command::ConfirmSwap);
    assert_eq!(*player.items.slot(0), Some(Items::Bandage));
    assert_eq!(ground_slot(&map, 2, 2, 1), Some(Items::Food));
    assert!(matches!(player.action, Some(CompoundAction::SwapItem(0))));
    assert_eq!(log.len(), 0);
}

#[test]
fn cancel_clears_the_pending_action() {
    let (mut player, mut map, mut log) = open_world();
    process_command(&mut player, &mut map, &mut log, Command::BeginSwap);
    assert!(player.action.is_some());
    process_command(&mut player, &mut map, &mut log, Command::CancelAction);
    assert!(player.action.is_none());
    assert_eq!(log.len(), 0);
}

#[test]
fn confirm_without_pending_action_is_a_noop() {
    let (mut player, mut map, mut log) = open_world();
    *player.items.slot_mut(0) = Some(Items::Bandage);
    process_command(&mut player, &mut map, &mut log, Command::ConfirmSwap);
    assert_eq!(*player.items.slot(0), Some(Items::Bandage));
    assert!(player.action.is_none());
    assert_eq!(log.len(), 0);
}

#[test]
fn starvation_costs_one_health_per_command() {
    let (mut player, mut map, mut log) = open_world();
    player.hunger.decrease(10);
    assert_eq!(player.hunger.value, 0);
    process_command(&mut player, &mut map, &mut log, Command::CursorRight);
    assert_eq!(player.health.value, 9);
    process_command(&mut player, &mut map, &mut log, Command::CursorLeft);
    assert_eq!(player.health.value, 8);
    player.hunger.increase(1);
    process_command(&mut player, &mut map, &mut log, Command::CursorRight);
    assert_eq!(player.health.value, 8);
}

#[test]
fn walking_down_to_starvation_then_decay() {
    let (mut player, mut map, mut log) = open_world();
    for _ in 0..10 {
        process_command(&mut player, &mut map, &mut log, Command::Move(1, 0));
        process_command(&mut player, &mut map, &mut log, Command::Move(-1, 0));
    }
    // Twenty moves: hunger hits zero after the tenth, so the last ten
    // commands each cost one health.
    assert_eq!(player.hunger.value, 0);
    assert_eq!(player.health.value, 0);
    assert_eq!(player.x, 2);
}
