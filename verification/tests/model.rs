use survival_core::{generate_map, ItemContainer, Items, MapHandler, Player, Stat, Tiles, TurnLog};

#[test]
fn stat_starts_full() {
    let s = Stat::new(10);
    assert_eq!(s.value, 10);
    assert_eq!(s.max, 10);
    assert!(s.is_maxed());
}

#[test]
fn stat_increase_is_exact_and_capped() {
    let mut s = Stat::new(10);
    s.decrease(7);
    assert_eq!(s.value, 3);
    s.increase(4);
    assert_eq!(s.value, 7);
    s.increase(100);
    assert_eq!(s.value, 10);
    s.increase(0);
    assert_eq!(s.value, 10);
    assert!(s.is_maxed());
}

#[test]
fn stat_decrease_is_exact_and_floored() {
    let mut s = Stat::new(10);
    s.decrease(4);
    assert_eq!(s.value, 6);
    s.decrease(100);
    assert_eq!(s.value, 0);
    s.decrease(1);
    assert_eq!(s.value, 0);
    assert_eq!(s.max, 10);
}

#[test]
fn container_starts_empty() {
    let c = ItemContainer::new();
    for i in 0..9 {
        assert_eq!(*c.slot(i), None);
    }
}

#[test]
fn container_add_overwrites_first_slot() {
    let mut c = ItemContainer::new();
    c.add(Items::Bandage);
    assert_eq!(*c.slot(0), Some(Items::Bandage));
    c.add(Items::Food);
    assert_eq!(*c.slot(0), Some(Items::Food));
    for i in 1..9 {
        assert_eq!(*c.slot(i), None);
    }
}

#[test]
fn place_first_empty_scans_in_order() {
    let mut c = ItemContainer::new();
    assert!(c.place_first_empty(Items::Food));
    assert_eq!(*c.slot(0), Some(Items::Food));
    assert!(c.place_first_empty(Items::Bandage));
    assert_eq!(*c.slot(1), Some(Items::Bandage));
    *c.slot_mut(0) = None;
    assert!(c.place_first_empty(Items::Bandage));
    assert_eq!(*c.slot(0), Some(Items::Bandage));
}

#[test]
fn place_first_empty_rejects_when_full() {
    let mut c = ItemContainer::new();
    for _ in 0..9 {
        assert!(c.place_first_empty(Items::Food));
    }
    assert_eq!(c.first_empty_slot(), None);
    assert!(!c.place_first_empty(Items::Bandage));
    for i in 0..9 {
        assert_eq!(*c.slot(i), Some(Items::Food));
    }
}

#[test]
fn container_swap_slot_exchanges() {
    let mut c = ItemContainer::new();
    c.add(Items::Food);
    let mut held = Some(Items::Bandage);
    c.swap_slot(0, &mut held);
    assert_eq!(*c.slot(0), Some(Items::Bandage));
    assert_eq!(held, Some(Items::Food));
}

#[test]
fn map_dimensions_and_bounds() {
    let map = MapHandler::new(4, 3);
    assert_eq!(map.width(), 4);
    assert_eq!(map.height(), 3);
    assert!(map.is_in(3, 2));
    assert!(!map.is_in(4, 0));
    assert!(!map.is_in(0, 3));
}

#[test]
fn map_get_tile_checks_coordinates() {
    let map = MapHandler::new(4, 3);
    assert!(map.get_tile_at(-1, 0).is_none());
    assert!(map.get_tile_at(0, -1).is_none());
    assert!(map.get_tile_at(4, 0).is_none());
    assert!(map.get_tile_at(0, 3).is_none());
    assert!(matches!(map.get_tile_at(3, 2), Some(Tiles::Road(_))));
}

#[test]
fn map_set_tile_roundtrip() {
    let mut map = MapHandler::new(4, 3);
    map.set_tile_at(2, 1, Tiles::Wall);
    map.set_tile_at(0, 2, Tiles::Door(true));
    assert!(matches!(map.get_tile_at(2, 1), Some(Tiles::Wall)));
    assert!(matches!(map.get_tile_at(0, 2), Some(Tiles::Door(true))));
    assert!(matches!(map.get_tile_at(1, 1), Some(Tiles::Road(_))));
}

#[test]
fn tiles_expose_containers_only_on_road_and_floor() {
    let mut map = MapHandler::new(4, 3);
    map.set_tile_at(1, 0, Tiles::Wall);
    map.set_tile_at(2, 0, Tiles::Door(false));
    assert!(map.get_tile_at(0, 0).unwrap().get_items().is_some());
    assert!(map.get_tile_at(1, 0).unwrap().get_items().is_none());
    assert!(map.get_tile_at(2, 0).unwrap().get_items().is_none());
    assert!(map
        .get_tile_at_mut(0, 0)
        .unwrap()
        .get_items_mut()
        .is_some());
}

#[test]
fn generated_map_has_seeded_landmarks() {
    let map = generate_map();
    assert_eq!(map.width(), 16);
    assert_eq!(map.height(), 16);
    assert!(matches!(map.get_tile_at(8, 4), Some(Tiles::Door(false))));
    let corner = map.get_tile_at(0, 0).unwrap();
    assert!(matches!(corner, Tiles::Road(_)));
    assert_eq!(*corner.get_items().unwrap().slot(0), Some(Items::Food));
    assert!(matches!(map.get_tile_at(4, 4), Some(Tiles::Wall)));
    assert!(matches!(map.get_tile_at(12, 7), Some(Tiles::Wall)));
    assert!(matches!(map.get_tile_at(7, 12), Some(Tiles::Wall)));
    assert!(matches!(map.get_tile_at(6, 7), Some(Tiles::Floor(_))));
    assert!(matches!(map.get_tile_at(0, 15), Some(Tiles::Road(_))));
}

#[test]
fn player_is_born_with_full_stats() {
    let p = Player::new(2, 2);
    assert_eq!(p.x, 2);
    assert_eq!(p.y, 2);
    assert_eq!(p.selected_slot, 0);
    assert!(p.action.is_none());
    assert_eq!(p.health.value, 10);
    assert_eq!(p.hunger.value, 10);
    assert_eq!(p.stamina.value, 10);
    for i in 0..9 {
        assert_eq!(*p.items.slot(i), None);
    }
}

#[test]
fn turn_log_appends_in_order() {
    let mut log = TurnLog::new();
    assert_eq!(log.len(), 0);
    log.push("Player is born!".to_string());
    log.push("second".to_string());
    assert_eq!(log.len(), 2);
    assert_eq!(log.entry(0), "Player is born!");
    assert_eq!(log.entry(1), "second");
}
