//! The command processor: applies one decoded command to the player, the map
//! and the turn log, following the game rules.

use vstd::prelude::*;

use crate::items::{first_empty, Items};
use crate::map::MapHandler;
use crate::player::{CompoundAction, Player};
use crate::stat::Stat;
use crate::tiles::Tiles;
use crate::turnlog::TurnLog;

verus! {

/// One decoded player input. Anything else the surrounding layer may receive
/// is ignored before it reaches the processor.
pub enum Command {
    Move(i32, i32),
    InteractAdjacent,
    BeginSwap,
    ConfirmSwap,
    CancelAction,
    UseSelected,
    CursorUp,
    CursorDown,
    CursorLeft,
    CursorRight,
}

/// The processor's running assumption: player and map are well formed and
/// the player stands on the grid.
pub open spec fn state_wf(p: Player, m: MapHandler) -> bool {
    &&& p.wf()
    &&& m.wf()
    &&& m.in_bounds(p.x as int, p.y as int)
}

/// The ground container's slots at the player's tile; meaningful only when
/// `has_ground` holds.
pub open spec fn ground_of(p: Player, m: MapHandler) -> Seq<Option<Items>> {
    m.spec_tile(p.x as int, p.y as int).container_seq()
}

/// Whether the player stands on a container-bearing tile.
pub open spec fn has_ground(p: Player, m: MapHandler) -> bool {
    m.spec_tile(p.x as int, p.y as int).has_container()
}

/// Virtual slot resolution: indices `0..=8` read the inventory at the same
/// index, `9..=17` read the ground container at the index less nine.
pub open spec fn vslot(p: Player, m: MapHandler, s: int) -> Option<Items> {
    if s < 9 {
        p.items@[s]
    } else {
        ground_of(p, m)[s - 9]
    }
}

/// The four unit movement directions.
pub open spec fn is_unit_dir(dx: int, dy: int) -> bool {
    ||| dx == 0 && dy == -1
    ||| dx == 0 && dy == 1
    ||| dx == -1 && dy == 0
    ||| dx == 1 && dy == 0
}

/// Clamping as the processor performs it: values at or below `lo` become
/// `lo`, values at or above `hi` become `hi`.
pub open spec fn clamped(v: int, lo: int, hi: int) -> int {
    if v > lo {
        if v < hi {
            v
        } else {
            hi
        }
    } else {
        lo
    }
}

/// A stat after a saturating increase.
pub open spec fn stat_inc(s: Stat, v: int) -> Stat {
    Stat {
        value: (if s.value + v > s.max {
            s.max as int
        } else {
            s.value + v
        }) as i32,
        max: s.max,
    }
}

/// A stat after a saturating decrease.
pub open spec fn stat_dec(s: Stat, v: int) -> Stat {
    Stat {
        value: (if s.value - v < 0 {
            0int
        } else {
            s.value - v
        }) as i32,
        max: s.max,
    }
}

/// What the formatted movement line reads; a function of the new coordinates
/// alone.
pub uninterp spec fn move_message(x: int, y: int) -> Seq<char>;

/// Relies on `format!` of std: the rendered movement line depends on the
/// coordinates alone.
#[verifier::external_body]
fn describe_move(x: i32, y: i32) -> (r: String)
    ensures
        r@ == move_message(x as int, y as int),
{
    format!("Player moved to ({x}/{y})")
}

/// The log line for a door left in the given state.
pub open spec fn door_message(open: bool) -> Seq<char> {
    if open {
        "Player opened the door."@
    } else {
        "Player closed the door."@
    }
}

/// The fixed line describing a door toggle, per the door's new state.
fn describe_door(open: bool) -> (r: String)
    ensures
        r@ == door_message(open),
{
    if open {
        "Player opened the door.".to_string()
    } else {
        "Player closed the door.".to_string()
    }
}

/// What the formatted swap line reads; a function of the two slot indices
/// alone.
pub uninterp spec fn swap_message(from: int, to: int) -> Seq<char>;

/// Relies on `format!` of std: the rendered swap line depends on the slot
/// indices alone.
#[verifier::external_body]
fn describe_swap(from: i32, to: i32) -> (r: String)
    ensures
        r@ == swap_message(from as int, to as int),
{
    format!("Swapped item from: {from}, to: {to}")
}

/// Clamps `val` into `[lo, hi]`.
pub fn bound(val: i32, lo: i32, hi: i32) -> (r: i32)
    ensures
        r == clamped(val as int, lo as int, hi as int),
{
    if val > lo {
        if val < hi {
            val
        } else {
            hi
        }
    } else {
        lo
    }
}

/// The clamped x coordinate a move command aims at.
pub open spec fn move_target_x(p: Player, m: MapHandler, dx: int) -> int {
    clamped(p.x + dx, 0, m.spec_width() - 1)
}

/// The clamped y coordinate a move command aims at.
pub open spec fn move_target_y(p: Player, m: MapHandler, dy: int) -> int {
    clamped(p.y + dy, 0, m.spec_height() - 1)
}

/// A move is silently absorbed when stamina is spent or the target tile is a
/// wall or a closed door.
pub open spec fn move_blocked(p: Player, m: MapHandler, dx: int, dy: int) -> bool {
    ||| p.stamina.value == 0
    ||| m.spec_tile(move_target_x(p, m, dx), move_target_y(p, m, dy)) is Wall
    ||| m.spec_tile(move_target_x(p, m, dx), move_target_y(p, m, dy)) == Tiles::Door(false)
}

/// The player after a move command: in place when blocked, otherwise at the
/// clamped target with hunger down by one.
pub open spec fn move_result(p: Player, m: MapHandler, dx: int, dy: int) -> Player {
    if move_blocked(p, m, dx, dy) {
        p
    } else {
        Player {
            x: move_target_x(p, m, dx) as i32,
            y: move_target_y(p, m, dy) as i32,
            hunger: stat_dec(p.hunger, 1),
            ..p
        }
    }
}

/// Applies a move command: never an error, a silent no-op when blocked, and
/// one log line when the player actually moves. Stamina gates movement but
/// is deliberately never spent by it; only hunger pays for each step.
pub fn move_player(player: &mut Player, map: &MapHandler, log: &mut TurnLog, xv: i32, yv: i32)
    requires
        state_wf(*old(player), *map),
        is_unit_dir(xv as int, yv as int),
    ensures
        *final(player) == move_result(*old(player), *map, xv as int, yv as int),
        final(log)@ == if move_blocked(*old(player), *map, xv as int, yv as int) {
            old(log)@
        } else {
            old(log)@.push(move_message(
                move_target_x(*old(player), *map, xv as int),
                move_target_y(*old(player), *map, yv as int),
            ))
        },
        state_wf(*final(player), *map),
{
    let w = map.width();
    let h = map.height();
    let nx = bound(player.x + xv, 0, (w as i32) - 1);
    let ny = bound(player.y + yv, 0, (h as i32) - 1);

    if player.stamina.value == 0 {
        return;
    }

    match map.get_tile_at(nx, ny) {
        Some(tile) => {
            match tile {
                Tiles::Wall => {
                    return;
                }
                Tiles::Door(open) => {
                    if !*open {
                        return;
                    }
                }
                _ => {}
            }
        }
        None => {
            proof {
                assert(false);
            }
            return;
        }
    }

    player.x = nx;
    player.y = ny;
    player.hunger.decrease(1);
    log.push(describe_move(nx, ny));
}

/// The log lines one neighbor cell contributes to a door-interaction
/// command: one line if it holds a door, none otherwise.
pub open spec fn door_entry(m: MapHandler, x: int, y: int) -> Seq<Seq<char>> {
    if m.in_bounds(x, y) {
        match m.spec_tile(x, y) {
            Tiles::Door(open) => seq![door_message(!open)],
            _ => Seq::empty(),
        }
    } else {
        Seq::empty()
    }
}

/// Whether `(i, j)` is one of the eight cells around `(x, y)`.
pub open spec fn is_neighbor(x: int, y: int, i: int, j: int) -> bool {
    &&& x - 1 <= i <= x + 1
    &&& y - 1 <= j <= y + 1
    &&& !(i == x && j == y)
}

/// The log lines a door-interaction command appends, in the order the eight
/// neighbors are visited.
pub open spec fn neighbor_entries(m: MapHandler, x: int, y: int) -> Seq<Seq<char>> {
    door_entry(m, x - 1, y - 1) + door_entry(m, x - 1, y) + door_entry(m, x - 1, y + 1)
        + door_entry(m, x, y - 1) + door_entry(m, x, y + 1)
        + door_entry(m, x + 1, y - 1) + door_entry(m, x + 1, y) + door_entry(m, x + 1, y + 1)
}

/// Flips the door at one cell, if that cell is on the grid and holds a door,
/// and logs the door's new state.
fn toggle_neighbor(map: &mut MapHandler, log: &mut TurnLog, xi: i32, yi: i32)
    requires
        old(map).wf(),
    ensures
        final(map).wf(),
        final(map).spec_width() == old(map).spec_width(),
        final(map).spec_height() == old(map).spec_height(),
        forall|i: int, j: int|
            old(map).in_bounds(i, j) && !(i == xi as int && j == yi as int)
                ==> final(map).spec_tile(i, j) == old(map).spec_tile(i, j),
        old(map).in_bounds(xi as int, yi as int)
            ==> final(map).spec_tile(xi as int, yi as int)
                == old(map).spec_tile(xi as int, yi as int).toggled(),
        final(log)@ == old(log)@ + door_entry(*old(map), xi as int, yi as int),
{
    let ghost pre = *map;
    match map.get_tile_at_mut(xi, yi) {
        Some(tile) => {
            match tile {
                Tiles::Door(state) => {
                    let new_state = !*state;
                    *state = new_state;
                    log.push(describe_door(new_state));
                    proof {
                        MapHandler::lemma_update_other(
                            pre,
                            *map,
                            xi as int,
                            yi as int,
                            Tiles::Door(new_state),
                        );
                        assert(log@ =~= old(log)@ + door_entry(pre, xi as int, yi as int));
                    }
                }
                _ => {
                    proof {
                        MapHandler::lemma_update_other(
                            pre,
                            *map,
                            xi as int,
                            yi as int,
                            pre.spec_tile(xi as int, yi as int),
                        );
                        assert(log@ =~= old(log)@ + door_entry(pre, xi as int, yi as int));
                    }
                }
            }
        }
        None => {
            proof {
                assert(log@ =~= old(log)@ + door_entry(pre, xi as int, yi as int));
            }
        }
    }
}

/// Visits the eight neighbor cells in order, toggling each door found.
#[verifier::rlimit(100)]
fn toggle_ring(player: &Player, map: &mut MapHandler, log: &mut TurnLog)
    requires
        state_wf(*player, *old(map)),
    ensures
        final(map).wf(),
        final(map).spec_width() == old(map).spec_width(),
        final(map).spec_height() == old(map).spec_height(),
        forall|i: int, j: int|
            old(map).in_bounds(i, j) && !is_neighbor(player.x as int, player.y as int, i, j)
                ==> final(map).spec_tile(i, j) == old(map).spec_tile(i, j),
        forall|i: int, j: int|
            old(map).in_bounds(i, j) && is_neighbor(player.x as int, player.y as int, i, j)
                ==> final(map).spec_tile(i, j) == old(map).spec_tile(i, j).toggled(),
        final(log)@ == old(log)@ + neighbor_entries(*old(map), player.x as int, player.y as int),
{
    let ghost m0 = *old(map);
    let ghost px = player.x as int;
    let ghost py = player.y as int;
    let ghost e1 = door_entry(m0, px - 1, py - 1);
    let ghost e2 = door_entry(m0, px - 1, py);
    let ghost e3 = door_entry(m0, px - 1, py + 1);
    let ghost e4 = door_entry(m0, px, py - 1);
    let ghost e5 = door_entry(m0, px, py + 1);
    let ghost e6 = door_entry(m0, px + 1, py - 1);
    let ghost e7 = door_entry(m0, px + 1, py);
    let ghost e8 = door_entry(m0, px + 1, py + 1);
    let x = player.x;
    let y = player.y;
    toggle_neighbor(map, log, x - 1, y - 1);
    proof {
        assert(door_entry(*map, px - 1, py) == e2);
        assert(log@ == old(log)@ + e1);
    }
    toggle_neighbor(map, log, x - 1, y);
    proof {
        assert(door_entry(*map, px - 1, py + 1) == e3);
        assert(log@ =~= old(log)@ + (e1 + e2));
    }
    toggle_neighbor(map, log, x - 1, y + 1);
    proof {
        assert(door_entry(*map, px, py - 1) == e4);
        assert(log@ =~= old(log)@ + (e1 + e2 + e3));
    }
    toggle_neighbor(map, log, x, y - 1);
    proof {
        assert(door_entry(*map, px, py + 1) == e5);
        assert(log@ =~= old(log)@ + (e1 + e2 + e3 + e4));
    }
    toggle_neighbor(map, log, x, y + 1);
    proof {
        assert(door_entry(*map, px + 1, py - 1) == e6);
        assert(log@ =~= old(log)@ + (e1 + e2 + e3 + e4 + e5));
    }
    toggle_neighbor(map, log, x + 1, y - 1);
    proof {
        assert(door_entry(*map, px + 1, py) == e7);
        assert(log@ =~= old(log)@ + (e1 + e2 + e3 + e4 + e5 + e6));
    }
    toggle_neighbor(map, log, x + 1, y);
    proof {
        assert(door_entry(*map, px + 1, py + 1) == e8);
        assert(log@ =~= old(log)@ + (e1 + e2 + e3 + e4 + e5 + e6 + e7));
    }
    toggle_neighbor(map, log, x + 1, y + 1);
    proof {
        assert(log@ =~= old(log)@ + (e1 + e2 + e3 + e4 + e5 + e6 + e7 + e8));
    }
}

/// `b` is a tile of the same kind as `a`; walls and doors are identical,
/// road and floor tiles may differ only in their container contents.
pub open spec fn same_kind(a: Tiles, b: Tiles) -> bool {
    &&& (a is Road <==> b is Road)
    &&& (a is Floor <==> b is Floor)
    &&& (a is Wall ==> b == a)
    &&& (a is Door ==> b == a)
}

/// Exchanges the contents of one virtual slot with the value behind `held`:
/// slots below nine address the inventory, the rest the ground container.
fn swap_virtual(player: &mut Player, map: &mut MapHandler, slot: i32, held: &mut Option<Items>)
    requires
        state_wf(*old(player), *old(map)),
        0 <= slot <= 17,
        slot >= 9 ==> has_ground(*old(player), *old(map)),
    ensures
        state_wf(*final(player), *final(map)),
        final(player).x == old(player).x,
        final(player).y == old(player).y,
        final(player).selected_slot == old(player).selected_slot,
        final(player).action == old(player).action,
        final(player).health == old(player).health,
        final(player).hunger == old(player).hunger,
        final(player).stamina == old(player).stamina,
        final(map).spec_width() == old(map).spec_width(),
        final(map).spec_height() == old(map).spec_height(),
        forall|i: int, j: int|
            old(map).in_bounds(i, j) && !(i == old(player).x as int && j == old(player).y as int)
                ==> final(map).spec_tile(i, j) == old(map).spec_tile(i, j),
        same_kind(
            old(map).spec_tile(old(player).x as int, old(player).y as int),
            final(map).spec_tile(old(player).x as int, old(player).y as int),
        ),
        slot < 9 ==> *final(map) == *old(map) && final(player).items@ == old(player).items@
            .update(slot as int, *old(held)),
        slot >= 9 ==> final(player).items == old(player).items && has_ground(
            *final(player),
            *final(map),
        ) && ground_of(*final(player), *final(map)) == ground_of(*old(player), *old(map))
            .update(slot - 9, *old(held)),
        *final(held) == vslot(*old(player), *old(map), slot as int),
        forall|s: int|
            0 <= s < 18 && s != slot
                ==> vslot(*final(player), *final(map), s) == vslot(*old(player), *old(map), s),
        vslot(*final(player), *final(map), slot as int) == *old(held),
{
    if slot < 9 {
        player.items.swap_slot(slot as usize, held);
    } else {
        let ghost m0 = *map;
        let ghost px = player.x as int;
        let ghost py = player.y as int;
        let x = player.x;
        let y = player.y;
        proof {
            crate::map::lemma_row_major_in_range(m0.spec_width(), m0.spec_height(), px, py);
            assert(m0.spec_tile(px, py).wf());
        }
        match map.get_tile_at_mut(x, y) {
            Some(tile) => {
                match tile.get_items_mut() {
                    Some(c) => {
                        c.swap_slot((slot - 9) as usize, held);
                    }
                    None => {
                        proof {
                            assert(false);
                        }
                    }
                }
            }
            None => {
                proof {
                    assert(false);
                }
            }
        }
        proof {
            crate::map::lemma_row_major_in_range(m0.spec_width(), m0.spec_height(), px, py);
            MapHandler::lemma_update_other(m0, *map, px, py, map.spec_tile(px, py));
        }
    }
}

/// The first slot of the address space opposite the one `slot` lies in.
pub open spec fn opposite_begin(slot: int) -> int {
    if slot >= 9 {
        0int
    } else {
        9int
    }
}

/// Where a begin-swap command leaves the cursor: on the first empty slot of
/// the opposite address space, or on its first (or second) slot as a
/// fallback when that space is full.
pub open spec fn begin_swap_cursor(p: Player, m: MapHandler) -> int {
    let begin = opposite_begin(p.selected_slot as int);
    let opposite = if p.selected_slot >= 9 {
        p.items@
    } else {
        ground_of(p, m)
    };
    match first_empty(opposite) {
        Some(i) => begin + i,
        None => if p.selected_slot == begin {
            begin + 1
        } else {
            begin
        },
    }
}

/// The player after a begin-swap command: the pending action records the
/// selected slot (unless one is already pending) and the cursor hunts for an
/// empty destination in the opposite address space.
pub open spec fn begin_swap_result(p: Player, m: MapHandler) -> Player {
    Player {
        selected_slot: begin_swap_cursor(p, m) as i32,
        action: if p.action is None {
            Some(CompoundAction::SwapItem(p.selected_slot))
        } else {
            p.action
        },
        ..p
    }
}

/// Applies a begin-swap command. Initiating while the cursor is on a ground
/// slot hunts the inventory; initiating from the inventory hunts the ground
/// container, so the player must stand on a container-bearing tile.
pub fn begin_swap(player: &mut Player, map: &MapHandler)
    requires
        state_wf(*old(player), *map),
        old(player).selected_slot < 9 ==> has_ground(*old(player), *map),
    ensures
        *final(player) == begin_swap_result(*old(player), *map),
        state_wf(*final(player), *map),
{
    if player.action.is_none() {
        player.action = Some(CompoundAction::SwapItem(player.selected_slot));
    }
    let begin: i32 = if player.selected_slot >= 9 {
        0
    } else {
        9
    };
    let found: Option<usize>;
    if player.selected_slot >= 9 {
        found = player.items.first_empty_slot();
    } else {
        proof {
            crate::map::lemma_row_major_in_range(
                map.spec_width(),
                map.spec_height(),
                player.x as int,
                player.y as int,
            );
            assert(map.spec_tile(player.x as int, player.y as int).wf());
        }
        match map.get_tile_at(player.x, player.y) {
            Some(tile) => {
                match tile.get_items() {
                    Some(c) => {
                        found = c.first_empty_slot();
                    }
                    None => {
                        proof {
                            assert(false);
                        }
                        found = None;
                    }
                }
            }
            None => {
                proof {
                    assert(false);
                }
                found = None;
            }
        }
    }
    match found {
        Some(i) => {
            player.selected_slot = begin + (i as i32);
        }
        None => {
            player.selected_slot = if player.selected_slot == begin {
                begin + 1
            } else {
                begin
            };
        }
    }
}

/// Applies a cancel command: unconditionally clears the pending action and
/// touches nothing else.
pub fn cancel_action(player: &mut Player)
    ensures
        *final(player) == (Player { action: None, ..*old(player) }),
{
    player.action = None;
}

/// Everything a completed swap changes and preserves, apart from the
/// player's health and pending action: the two virtual slots exchange their
/// contents, every other slot, tile and player field stays.
pub open spec fn swap_frame(p0: Player, m0: MapHandler, p1: Player, m1: MapHandler, from: int, to: int) -> bool {
    &&& p1.x == p0.x && p1.y == p0.y
    &&& p1.selected_slot == p0.selected_slot
    &&& p1.hunger == p0.hunger && p1.stamina == p0.stamina
    &&& p1.items.wf()
    &&& m1.wf()
    &&& m1.spec_width() == m0.spec_width() && m1.spec_height() == m0.spec_height()
    &&& forall|i: int, j: int|
        m0.in_bounds(i, j) && !(i == p0.x as int && j == p0.y as int)
            ==> m1.spec_tile(i, j) == m0.spec_tile(i, j)
    &&& same_kind(m0.spec_tile(p0.x as int, p0.y as int), m1.spec_tile(p0.x as int, p0.y as int))
    &&& (from < 9 && to < 9 ==> m1 == m0)
    &&& forall|s: int|
        0 <= s < 18 && s != from && s != to ==> vslot(p1, m1, s) == vslot(p0, m0, s)
    &&& vslot(p1, m1, from) == vslot(p0, m0, to)
    &&& vslot(p1, m1, to) == vslot(p0, m0, from)
}

/// Applies a confirm command. Without a pending action, or with the cursor
/// still on the source slot, nothing changes (and a pending action stays
/// pending). Otherwise the source and selected slots exchange their
/// contents, the action is cleared, and one line is logged.
pub fn confirm_swap(player: &mut Player, map: &mut MapHandler, log: &mut TurnLog)
    requires
        state_wf(*old(player), *old(map)),
        match old(player).action {
            Some(CompoundAction::SwapItem(from)) => (from != old(player).selected_slot && (from
                >= 9 || old(player).selected_slot >= 9)) ==> has_ground(
                *old(player),
                *old(map),
            ),
            None => true,
        },
    ensures
        state_wf(*final(player), *final(map)),
        match old(player).action {
            None => *final(player) == *old(player) && *final(map) == *old(map) && final(log)@
                == old(log)@,
            Some(CompoundAction::SwapItem(from)) => if from == old(player).selected_slot {
                *final(player) == *old(player) && *final(map) == *old(map) && final(log)@ == old(
                    log,
                )@
            } else {
                &&& swap_frame(
                    *old(player),
                    *old(map),
                    *final(player),
                    *final(map),
                    from as int,
                    old(player).selected_slot as int,
                )
                &&& final(player).health == old(player).health
                &&& final(player).action is None
                &&& final(log)@ == old(log)@.push(swap_message(
                    from as int,
                    old(player).selected_slot as int,
                ))
            },
        },
{
    let from: i32;
    match &player.action {
        Some(CompoundAction::SwapItem(f)) => {
            from = *f;
        }
        None => {
            return;
        }
    }
    if from == player.selected_slot {
        return;
    }
    let to = player.selected_slot;
    let mut held: Option<Items> = None;
    swap_virtual(player, map, from, &mut held);
    swap_virtual(player, map, to, &mut held);
    swap_virtual(player, map, from, &mut held);
    log.push(describe_swap(from, to));
    player.action = None;
}

/// The item the cursor currently addresses.
pub open spec fn selected_item(p: Player, m: MapHandler) -> Option<Items> {
    vslot(p, m, p.selected_slot as int)
}

/// Whether a use command consumes the selected item: it holds a bandage with
/// health below its cap, or food with hunger below its cap.
pub open spec fn use_consumes(p: Player, m: MapHandler) -> bool {
    match selected_item(p, m) {
        Some(Items::Bandage) => p.health.value != p.health.max,
        Some(Items::Food) => p.hunger.value != p.hunger.max,
        None => false,
    }
}

/// Health after a use command: up ten, saturating, when a bandage is
/// consumed.
pub open spec fn use_health_after(p: Player, m: MapHandler) -> Stat {
    if selected_item(p, m) == Some(Items::Bandage) && p.health.value != p.health.max {
        stat_inc(p.health, 10)
    } else {
        p.health
    }
}

/// Hunger after a use command: up ten, saturating, when food is consumed.
pub open spec fn use_hunger_after(p: Player, m: MapHandler) -> Stat {
    if selected_item(p, m) == Some(Items::Food) && p.hunger.value != p.hunger.max {
        stat_inc(p.hunger, 10)
    } else {
        p.hunger
    }
}

/// Applies a use command: a consumed item restores its stat and clears its
/// slot; a maxed stat or an empty slot makes the command a silent no-op.
pub fn use_selected(player: &mut Player, map: &mut MapHandler)
    requires
        state_wf(*old(player), *old(map)),
        old(player).selected_slot >= 9 ==> has_ground(*old(player), *old(map)),
    ensures
        state_wf(*final(player), *final(map)),
        final(player).x == old(player).x,
        final(player).y == old(player).y,
        final(player).selected_slot == old(player).selected_slot,
        final(player).action == old(player).action,
        final(player).stamina == old(player).stamina,
        final(player).health == use_health_after(*old(player), *old(map)),
        final(player).hunger == use_hunger_after(*old(player), *old(map)),
        if use_consumes(*old(player), *old(map)) {
            &&& vslot(*final(player), *final(map), old(player).selected_slot as int) is None
            &&& forall|s: int|
                0 <= s < 18 && s != old(player).selected_slot as int
                    ==> vslot(*final(player), *final(map), s) == vslot(
                        *old(player),
                        *old(map),
                        s,
                    )
            &&& final(map).spec_width() == old(map).spec_width()
            &&& final(map).spec_height() == old(map).spec_height()
            &&& forall|i: int, j: int|
                old(map).in_bounds(i, j) && !(i == old(player).x as int && j == old(player).y
                    as int) ==> final(map).spec_tile(i, j) == old(map).spec_tile(i, j)
            &&& same_kind(
                old(map).spec_tile(old(player).x as int, old(player).y as int),
                final(map).spec_tile(old(player).x as int, old(player).y as int),
            )
            &&& (old(player).selected_slot < 9 ==> *final(map) == *old(map))
        } else {
            *final(map) == *old(map) && final(player).items == old(player).items
        },
{
    let s = player.selected_slot;
    let item: Option<Items>;
    if s < 9 {
        item = *player.items.slot(s as usize);
    } else {
        proof {
            crate::map::lemma_row_major_in_range(
                map.spec_width(),
                map.spec_height(),
                player.x as int,
                player.y as int,
            );
            assert(map.spec_tile(player.x as int, player.y as int).wf());
        }
        match map.get_tile_at(player.x, player.y) {
            Some(tile) => {
                match tile.get_items() {
                    Some(c) => {
                        item = *c.slot((s - 9) as usize);
                    }
                    None => {
                        proof {
                            assert(false);
                        }
                        item = None;
                    }
                }
            }
            None => {
                proof {
                    assert(false);
                }
                item = None;
            }
        }
    }
    match item {
        Some(Items::Bandage) => {
            if !player.health.is_maxed() {
                player.health.increase(10);
                let mut cleared: Option<Items> = None;
                swap_virtual(player, map, s, &mut cleared);
            }
        }
        Some(Items::Food) => {
            if !player.hunger.is_maxed() {
                player.hunger.increase(10);
                let mut cleared: Option<Items> = None;
                swap_virtual(player, map, s, &mut cleared);
            }
        }
        None => {}
    }
}

/// Applies a door-interaction command: every door among the eight neighbor
/// cells of the player flips exactly once, with one log line per toggled
/// door; every other cell is untouched.
pub fn interact_adjacent(player: &Player, map: &mut MapHandler, log: &mut TurnLog)
    requires
        state_wf(*player, *old(map)),
    ensures
        final(map).wf(),
        final(map).spec_width() == old(map).spec_width(),
        final(map).spec_height() == old(map).spec_height(),
        forall|i: int, j: int|
            old(map).in_bounds(i, j)
                ==> final(map).spec_tile(i, j) == if is_neighbor(
                    player.x as int,
                    player.y as int,
                    i,
                    j,
                ) {
                    old(map).spec_tile(i, j).toggled()
                } else {
                    old(map).spec_tile(i, j)
                },
        final(log)@ == old(log)@ + neighbor_entries(*old(map), player.x as int, player.y as int),
{
    toggle_ring(player, map, log);
}

/// `p` with its health replaced.
pub open spec fn with_health(p: Player, h: Stat) -> Player {
    Player { health: h, ..p }
}

/// The passive-damage rule applied after every processed command: health
/// drops by one exactly when hunger stands at zero.
pub open spec fn decayed(h: Stat, hunger: Stat) -> Stat {
    if hunger.value == 0 {
        stat_dec(h, 1)
    } else {
        h
    }
}

/// Where a cursor command leaves the selection: up and down jump between the
/// inventory and ground rows, left and right step by one, and the result is
/// clamped into the virtual slot range.
pub open spec fn cursor_after(slot: int, cmd: Command) -> int {
    let adjusted = match cmd {
        Command::CursorUp => if slot >= 9 {
            slot - 9
        } else {
            slot
        },
        Command::CursorDown => if slot < 9 {
            slot + 9
        } else {
            slot
        },
        Command::CursorLeft => slot - 1,
        Command::CursorRight => slot + 1,
        _ => slot,
    };
    clamped(adjusted, 0, 17)
}

/// The preconditions one command needs before the processor may run it;
/// violating them is a caller error, not a runtime condition.
pub open spec fn command_allowed(p: Player, m: MapHandler, cmd: Command) -> bool {
    match cmd {
        Command::Move(dx, dy) => is_unit_dir(dx as int, dy as int),
        Command::BeginSwap => p.selected_slot < 9 ==> has_ground(p, m),
        Command::ConfirmSwap => match p.action {
            Some(CompoundAction::SwapItem(from)) => (from != p.selected_slot && (from >= 9
                || p.selected_slot >= 9)) ==> has_ground(p, m),
            None => true,
        },
        Command::UseSelected => p.selected_slot >= 9 ==> has_ground(p, m),
        _ => true,
    }
}

/// Applies one decoded command to the whole game state, then the passive
/// stat-decay rule: if hunger stands at zero once the command is done,
/// health drops by exactly one; otherwise it is untouched.
pub fn process_command(player: &mut Player, map: &mut MapHandler, log: &mut TurnLog, cmd: Command)
    requires
        state_wf(*old(player), *old(map)),
        command_allowed(*old(player), *old(map), cmd),
    ensures
        state_wf(*final(player), *final(map)),
        match cmd {
            Command::Move(dx, dy) => {
                let mid = move_result(*old(player), *old(map), dx as int, dy as int);
                &&& *final(map) == *old(map)
                &&& *final(player) == with_health(mid, decayed(mid.health, mid.hunger))
                &&& final(log)@ == if move_blocked(*old(player), *old(map), dx as int, dy as int) {
                    old(log)@
                } else {
                    old(log)@.push(move_message(
                        move_target_x(*old(player), *old(map), dx as int),
                        move_target_y(*old(player), *old(map), dy as int),
                    ))
                }
            },
            Command::InteractAdjacent => {
                &&& *final(player) == with_health(
                    *old(player),
                    decayed(old(player).health, old(player).hunger),
                )
                &&& final(map).wf()
                &&& final(map).spec_width() == old(map).spec_width()
                &&& final(map).spec_height() == old(map).spec_height()
                &&& forall|i: int, j: int|
                    old(map).in_bounds(i, j)
                        ==> final(map).spec_tile(i, j) == if is_neighbor(
                            old(player).x as int,
                            old(player).y as int,
                            i,
                            j,
                        ) {
                            old(map).spec_tile(i, j).toggled()
                        } else {
                            old(map).spec_tile(i, j)
                        }
                &&& final(log)@ == old(log)@ + neighbor_entries(
                    *old(map),
                    old(player).x as int,
                    old(player).y as int,
                )
            },
            Command::BeginSwap => {
                let mid = begin_swap_result(*old(player), *old(map));
                &&& *final(map) == *old(map)
                &&& *final(player) == with_health(mid, decayed(mid.health, mid.hunger))
                &&& final(log)@ == old(log)@
            },
            Command::ConfirmSwap => {
                &&& final(log)@ == match old(player).action {
                    Some(CompoundAction::SwapItem(from)) => if from != old(player).selected_slot {
                        old(log)@.push(swap_message(
                            from as int,
                            old(player).selected_slot as int,
                        ))
                    } else {
                        old(log)@
                    },
                    None => old(log)@,
                }
                &&& match old(player).action {
                    None => *final(player) == with_health(
                        *old(player),
                        decayed(old(player).health, old(player).hunger),
                    ) && *final(map) == *old(map),
                    Some(CompoundAction::SwapItem(from)) => if from == old(
                        player,
                    ).selected_slot {
                        *final(player) == with_health(
                            *old(player),
                            decayed(old(player).health, old(player).hunger),
                        ) && *final(map) == *old(map)
                    } else {
                        &&& swap_frame(
                            *old(player),
                            *old(map),
                            *final(player),
                            *final(map),
                            from as int,
                            old(player).selected_slot as int,
                        )
                        &&& final(player).action is None
                        &&& final(player).health == decayed(
                            old(player).health,
                            old(player).hunger,
                        )
                    },
                }
            },
            Command::CancelAction => {
                &&& *final(map) == *old(map)
                &&& *final(player) == with_health(
                    Player { action: None, ..*old(player) },
                    decayed(old(player).health, old(player).hunger),
                )
                &&& final(log)@ == old(log)@
            },
            Command::UseSelected => {
                &&& final(log)@ == old(log)@
                &&& final(player).x == old(player).x
                &&& final(player).y == old(player).y
                &&& final(player).selected_slot == old(player).selected_slot
                &&& final(player).action == old(player).action
                &&& final(player).stamina == old(player).stamina
                &&& final(player).hunger == use_hunger_after(*old(player), *old(map))
                &&& final(player).health == decayed(
                    use_health_after(*old(player), *old(map)),
                    use_hunger_after(*old(player), *old(map)),
                )
                &&& if use_consumes(*old(player), *old(map)) {
                    &&& vslot(
                        *final(player),
                        *final(map),
                        old(player).selected_slot as int,
                    ) is None
                    &&& forall|s: int|
                        0 <= s < 18 && s != old(player).selected_slot as int
                            ==> vslot(*final(player), *final(map), s) == vslot(
                                *old(player),
                                *old(map),
                                s,
                            )
                    &&& final(map).spec_width() == old(map).spec_width()
                    &&& final(map).spec_height() == old(map).spec_height()
                    &&& forall|i: int, j: int|
                        old(map).in_bounds(i, j) && !(i == old(player).x as int && j == old(
                            player,
                        ).y as int) ==> final(map).spec_tile(i, j) == old(map).spec_tile(i, j)
                    &&& same_kind(
                        old(map).spec_tile(old(player).x as int, old(player).y as int),
                        final(map).spec_tile(old(player).x as int, old(player).y as int),
                    )
                    &&& (old(player).selected_slot < 9 ==> *final(map) == *old(map))
                } else {
                    *final(map) == *old(map) && final(player).items == old(player).items
                }
            },
            _ => {
                let mid = Player {
                    selected_slot: cursor_after(old(player).selected_slot as int, cmd) as i32,
                    ..*old(player)
                };
                &&& *final(map) == *old(map)
                &&& *final(player) == with_health(mid, decayed(mid.health, mid.hunger))
                &&& final(log)@ == old(log)@
            },
        },
{
    match cmd {
        Command::Move(dx, dy) => {
            move_player(player, map, log, dx, dy);
        }
        Command::InteractAdjacent => {
            interact_adjacent(player, map, log);
        }
        Command::BeginSwap => {
            begin_swap(player, map);
        }
        Command::ConfirmSwap => {
            confirm_swap(player, map, log);
        }
        Command::CancelAction => {
            cancel_action(player);
        }
        Command::UseSelected => {
            use_selected(player, map);
        }
        Command::CursorUp => {
            if player.selected_slot >= 9 {
                player.selected_slot = player.selected_slot - 9;
            }
            if player.selected_slot < 0 {
                player.selected_slot = 0;
            }
            if player.selected_slot > 17 {
                player.selected_slot = 17;
            }
        }
        Command::CursorDown => {
            if player.selected_slot < 9 {
                player.selected_slot = player.selected_slot + 9;
            }
            if player.selected_slot < 0 {
                player.selected_slot = 0;
            }
            if player.selected_slot > 17 {
                player.selected_slot = 17;
            }
        }
        Command::CursorLeft => {
            player.selected_slot = player.selected_slot - 1;
            if player.selected_slot < 0 {
                player.selected_slot = 0;
            }
            if player.selected_slot > 17 {
                player.selected_slot = 17;
            }
        }
        Command::CursorRight => {
            player.selected_slot = player.selected_slot + 1;
            if player.selected_slot < 0 {
                player.selected_slot = 0;
            }
            if player.selected_slot > 17 {
                player.selected_slot = 17;
            }
        }
    }

    if player.hunger.value == 0 {
        player.health.decrease(1);
    }
}

/// Law: movement into a wall or a closed door never changes the player.
pub proof fn lemma_move_blocked_keeps_position(p: Player, m: MapHandler, dx: int, dy: int)
    requires
        state_wf(p, m),
        m.spec_tile(move_target_x(p, m, dx), move_target_y(p, m, dy)) is Wall || m.spec_tile(
            move_target_x(p, m, dx),
            move_target_y(p, m, dy),
        ) == Tiles::Door(false),
    ensures
        move_result(p, m, dx, dy) == p,
{
}

/// Law: with stamina left, movement onto a passable tile puts the player on
/// the clamped target and lowers hunger by exactly one (never below zero).
pub proof fn lemma_move_passable(p: Player, m: MapHandler, dx: int, dy: int)
    requires
        state_wf(p, m),
        p.stamina.value != 0,
        m.spec_tile(move_target_x(p, m, dx), move_target_y(p, m, dy)).is_passable(),
    ensures
        move_result(p, m, dx, dy).x == move_target_x(p, m, dx),
        move_result(p, m, dx, dy).y == move_target_y(p, m, dy),
        move_result(p, m, dx, dy).hunger == stat_dec(p.hunger, 1),
{
}

/// Law: virtual slots below nine resolve to the same inventory index, the
/// rest to the ground container at the index less nine.
pub proof fn lemma_slot_resolution(p: Player, m: MapHandler)
    ensures
        p.selected_slot < 9 ==> selected_item(p, m) == p.items@[p.selected_slot as int],
        p.selected_slot >= 9 ==> selected_item(p, m) == ground_of(p, m)[p.selected_slot - 9],
{
}

/// Whether the cell at `(x, y)` contributes one toggled door.
pub open spec fn door_indicator(m: MapHandler, x: int, y: int) -> int {
    if m.in_bounds(x, y) && m.spec_tile(x, y) is Door {
        1int
    } else {
        0int
    }
}

/// The number of doors among the eight neighbor cells of `(x, y)`.
pub open spec fn neighbor_door_count(m: MapHandler, x: int, y: int) -> int {
    door_indicator(m, x - 1, y - 1) + door_indicator(m, x - 1, y) + door_indicator(m, x - 1, y + 1)
        + door_indicator(m, x, y - 1) + door_indicator(m, x, y + 1)
        + door_indicator(m, x + 1, y - 1) + door_indicator(m, x + 1, y) + door_indicator(
        m,
        x + 1,
        y + 1,
    )
}

/// Law: a door interaction logs exactly one line per door among the eight
/// neighbor cells, independent of the other neighbors.
pub proof fn lemma_one_line_per_door(m: MapHandler, x: int, y: int)
    ensures
        neighbor_entries(m, x, y).len() == neighbor_door_count(m, x, y),
{
}

} // verus!
