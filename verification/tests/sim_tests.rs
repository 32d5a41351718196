use world::{
    Ability, AreaSpec, Biome, Brain, Damage, Desc, Effect, Health, Intrinsic, Item, Location,
    Msg, Slot, Stats, Terrain, Volume, World,
};
use world::components::AnimState;
use world::effect::ActionOutcome;
use world::entity::Entity;
use world::form::Loadout;
use world::location::Dir6;

fn dungeon_world() -> World {
    // Depth -1: nothing can hatch, so turns are fully deterministic.
    World::new(7, AreaSpec::new(Biome::Dungeon, -1))
}

fn carve_room(w: &mut World, x0: i32, y0: i32, x1: i32, y1: i32) {
    for x in x0..=x1 {
        for y in y0..=y1 {
            w.set_terrain(Location::new(x, y, 1), Terrain::Floor);
        }
    }
}

fn mob_loadout(power: i32) -> Loadout {
    Loadout::new()
        .c(Stats::new(power, &[Intrinsic::Hands]))
        .c(Brain::enemy())
        .c(Health::new())
}

fn player_loadout() -> Loadout {
    Loadout::new().c(Stats::new(10, &[Intrinsic::Hands])).c(Health::new())
}

fn bolt_item(ability: Ability, charges: u32) -> Loadout {
    Loadout::new().c(Item { ability, charges })
}

fn drain_texts(w: &mut World) -> Vec<Msg> {
    let mut out = Vec::new();
    while let Some(m) = w.pop_msg() {
        out.push(m);
    }
    out
}

fn has_text(msgs: &[Msg], wanted: &str) -> bool {
    msgs.iter().any(|m| matches!(m, Msg::Text(s) if s == wanted))
}

#[test]
fn tick_advances_by_one() {
    let mut w = dungeon_world();
    assert_eq!(w.get_tick(), 0);
    for k in 1..=5u64 {
        w.next_tick();
        assert_eq!(w.get_tick(), k);
    }
}

#[test]
fn fx_entity_lives_for_the_horizon() {
    let mut w = dungeon_world();
    let loc = Location::new(0, 0, 1);
    let e = w.spawn_fx(loc, AnimState::Explosion);
    assert!(w.is_alive(e));
    let a = w.anim(e).unwrap();
    assert_eq!(a.anim_done_world_tick, Some(300));
    for _ in 0..299 {
        w.next_tick();
        assert!(w.is_alive(e), "fx must live while tick {} < 300", w.get_tick());
    }
    assert_eq!(w.get_tick(), 299);
    w.next_tick();
    assert_eq!(w.get_tick(), 300);
    assert!(!w.is_alive(e), "fx must be gone once the tick reaches its horizon");
    assert!(w.anim(e).is_none());
}

#[test]
fn apply_effect_touches_only_occupied_cells() {
    let mut w = dungeon_world();
    carve_room(&mut w, -3, -3, 3, 3);
    let a = Location::new(0, 0, 1);
    let b = Location::new(1, 0, 1);
    let c = Location::new(2, 0, 1);
    let m = w.spawn(&mob_loadout(2), a);
    assert_eq!(w.hp(m), Some(10));
    let vol = Volume(vec![a, b, c]);
    w.apply_effect(&Effect::Hit { amount: 3, damage: Damage::Physical }, &vol, None);
    // One resolution hit the mob once; the two empty cells changed nothing.
    assert_eq!(w.hp(m), Some(7));
    let msgs = drain_texts(&mut w);
    let dmg = msgs.iter().filter(|m| matches!(m, Msg::Damage(_))).count();
    assert_eq!(dmg, 1);
}

#[test]
fn gate_failure_changes_nothing() {
    let mut w = dungeon_world();
    carve_room(&mut w, -5, -5, 5, 5);
    let o = Location::new(0, 0, 1);
    let e = w.spawn(&player_loadout(), o);
    let m = w.spawn(&mob_loadout(2), Location::new(2, 0, 1));
    // The item carries a different ability than the one invoked.
    let item = w.spawn(&bolt_item(Ability::Fireball, 5), Location::new(0, 1, 1));
    let r: ActionOutcome = w.use_item_ability(e, item, Ability::LightningBolt);
    assert_eq!(r, None);
    assert_eq!(w.hp(m), Some(10));
    assert_eq!(w.charges(item), Some(5));
    assert_eq!(w.confusion(m), 0);
    assert!(drain_texts(&mut w).is_empty());
}

#[test]
fn lightning_strikes_the_only_mob_in_range() {
    let mut w = dungeon_world();
    carve_room(&mut w, -6, -6, 6, 6);
    let o = Location::new(0, 0, 1);
    let e = w.spawn(&player_loadout(), o);
    let m = w.spawn(&mob_loadout(2), Location::new(2, 2, 1));
    let item = w.spawn(&bolt_item(Ability::LightningBolt, 3), Location::new(0, 1, 1));
    assert!(w.equip_item(item, e, Slot::TrinketA));
    let r = w.use_item_ability(e, item, Ability::LightningBolt);
    assert_eq!(r, Some(true));
    // Hit { 12, Electricity } against 10 hit points, no mitigation.
    assert_eq!(w.hp(m), Some(-2));
    // The caster is never an eligible target of its own bolt.
    assert_eq!(w.hp(e), Some(10));
    assert!(!w.is_alive(m));
    assert_eq!(w.charges(item), Some(2));
    let msgs = drain_texts(&mut w);
    assert!(has_text(&msgs, "There is a peal of thunder."));
    assert!(!has_text(&msgs, "The spell fizzles."));
}

#[test]
fn lightning_fizzles_with_no_target() {
    let mut w = dungeon_world();
    carve_room(&mut w, -6, -6, 6, 6);
    let o = Location::new(0, 0, 1);
    let e = w.spawn(&player_loadout(), o);
    let item = w.spawn(&bolt_item(Ability::LightningBolt, 3), Location::new(0, 1, 1));
    let r = w.use_item_ability(e, item, Ability::LightningBolt);
    assert_eq!(r, Some(true), "a fizzle still consumes the turn");
    assert_eq!(w.charges(item), Some(2), "a fizzle still drains one charge");
    let msgs = drain_texts(&mut w);
    assert!(has_text(&msgs, "The spell fizzles."));
    assert_eq!(msgs.iter().filter(|m| matches!(m, Msg::Damage(_))).count(), 0);
}

#[test]
fn fireball_blasts_the_projected_sphere() {
    let mut w = dungeon_world();
    // Corridor east from the origin, so the bolt flies its full range.
    carve_room(&mut w, -1, -1, 12, 1);
    let o = Location::new(0, 0, 1);
    let e = w.spawn(&player_loadout(), o);
    let item = w.spawn(&bolt_item(Ability::Fireball, 2), Location::new(0, 1, 1));
    let center = Location::new(9, 0, 1);
    let m = w.spawn(&mob_loadout(2), center);
    let r = w.use_targeted_item_ability(e, item, Ability::Fireball, Dir6::SouthEast);
    assert_eq!(r, Some(true));
    assert_eq!(w.hp(m), Some(4), "Hit {{ 6, Fire }} against 10 hit points");
    assert_eq!(w.charges(item), Some(1));
    // The blast volume is every cell within radius 1 of the center.
    let vol = w.sphere_volume(center, 1);
    assert_eq!(vol.0.len(), 7);
    // One explosion entity per volume cell, delayed by the flight time.
    let mut explosions = 0;
    let mut projectiles = 0;
    for cell in &vol.0 {
        for ent in w.entities_at(*cell) {
            if let Some(a) = w.anim(ent) {
                match a.state {
                    AnimState::Explosion => {
                        explosions += 1;
                        assert_eq!(a.anim_start, 8);
                        assert_eq!(a.anim_done_world_tick, Some(300));
                    }
                    AnimState::Firespell => {
                        projectiles += 1;
                        assert_eq!(a.tween_from, o);
                        assert_eq!(a.tween_start, 0);
                        assert_eq!(a.tween_duration, 8);
                    }
                    _ => panic!("unexpected animation"),
                }
            }
        }
    }
    assert_eq!(explosions, 7);
    assert_eq!(projectiles, 1);
}

#[test]
fn fireball_stops_before_a_wall() {
    let mut w = dungeon_world();
    carve_room(&mut w, -1, -1, 12, 1);
    // A wall three cells east blocks the shot.
    w.set_terrain(Location::new(3, 0, 1), Terrain::Wall);
    let o = Location::new(0, 0, 1);
    let e = w.spawn(&player_loadout(), o);
    let item = w.spawn(&bolt_item(Ability::Fireball, 2), Location::new(0, 1, 1));
    let m = w.spawn(&mob_loadout(2), Location::new(2, 0, 1));
    let r = w.use_targeted_item_ability(e, item, Ability::Fireball, Dir6::SouthEast);
    assert_eq!(r, Some(true));
    // The bolt stops on the cell before the wall and catches the mob.
    assert_eq!(w.hp(m), Some(4));
}

#[test]
fn confuse_bolt_confuses_the_target() {
    let mut w = dungeon_world();
    carve_room(&mut w, -1, -1, 12, 1);
    let o = Location::new(0, 0, 1);
    let e = w.spawn(&player_loadout(), o);
    let item = w.spawn(&bolt_item(Ability::Confuse, 1), Location::new(0, 1, 1));
    let m = w.spawn(&mob_loadout(2).c(Desc::new("dreg", "dreg")), Location::new(9, 0, 1));
    let r = w.use_targeted_item_ability(e, item, Ability::Confuse, Dir6::SouthEast);
    assert_eq!(r, Some(true));
    assert_eq!(w.confusion(m), 40);
    assert_eq!(w.charges(item), Some(0));
    let msgs = drain_texts(&mut w);
    // The message names the struck creature as its subject.
    assert!(has_text(&msgs, "The dreg is confused."));
    // Statuses count down by one on each turn.
    w.next_tick();
    assert_eq!(w.confusion(m), 39);
}

#[test]
fn confusion_messages_render_their_subject() {
    let mut w = dungeon_world();
    carve_room(&mut w, -3, -3, 3, 3);
    let ploc = Location::new(0, 0, 1);
    w.spawn_player(ploc, &player_loadout());
    let p = w.player().unwrap();
    // The player is addressed in the second person.
    w.apply_effect(&Effect::Confuse, &Volume(vec![ploc]), None);
    assert_eq!(w.confusion(p), 40);
    let msgs = drain_texts(&mut w);
    assert!(has_text(&msgs, "You are confused."));
    // A creature without a descriptor gets a nameless subject.
    let anon = Location::new(1, 1, 1);
    let m = w.spawn(&mob_loadout(2), anon);
    w.apply_effect(&Effect::Confuse, &Volume(vec![anon]), None);
    assert_eq!(w.confusion(m), 40);
    let msgs = drain_texts(&mut w);
    assert!(has_text(&msgs, "Something is confused."));
}

#[test]
fn charges_stop_at_zero() {
    let mut w = dungeon_world();
    carve_room(&mut w, -5, -5, 5, 5);
    let e = w.spawn(&player_loadout(), Location::new(0, 0, 1));
    let item = w.spawn(&bolt_item(Ability::LightningBolt, 1), Location::new(0, 1, 1));
    assert_eq!(w.use_item_ability(e, item, Ability::LightningBolt), Some(true));
    assert_eq!(w.charges(item), Some(0));
    assert_eq!(w.use_item_ability(e, item, Ability::LightningBolt), Some(true));
    assert_eq!(w.charges(item), Some(0));
}

#[test]
fn melee_strikes_the_adjacent_mob() {
    let mut w = dungeon_world();
    carve_room(&mut w, -3, -3, 3, 3);
    let e = w.spawn(&player_loadout(), Location::new(0, 0, 1));
    let m = w.spawn(&mob_loadout(2), Location::new(1, 0, 1));
    let r = w.entity_melee(e, Dir6::SouthEast);
    assert_eq!(r, Some(true));
    // Power 10 against 10 hit points: the blow is lethal.
    assert_eq!(w.hp(m), Some(0));
    assert!(!w.is_alive(m));
    let msgs = drain_texts(&mut w);
    assert!(msgs.iter().any(|x| matches!(x, Msg::Damage(_))));
    assert!(msgs.iter().any(|x| matches!(x, Msg::Gib(_))));
    // The corpse is collected on the next turn.
    w.next_tick();
    assert!(w.location(m).is_none());
}

#[test]
fn melee_into_empty_air_fails() {
    let mut w = dungeon_world();
    carve_room(&mut w, -3, -3, 3, 3);
    let e = w.spawn(&player_loadout(), Location::new(0, 0, 1));
    assert_eq!(w.entity_melee(e, Dir6::North), None);
}

#[test]
fn armor_mitigates_physical_damage() {
    let mut w = dungeon_world();
    carve_room(&mut w, -3, -3, 3, 3);
    let m = w.spawn(&mob_loadout(2), Location::new(0, 0, 1));
    let armor_plate = Loadout::new().c(Stats { power: 0, armor: 3, intrinsics: 0 });
    let plate = w.spawn(&armor_plate, Location::new(1, 1, 1));
    assert!(w.equip_item(plate, m, Slot::Body));
    let vol = Volume(vec![Location::new(0, 0, 1)]);
    w.apply_effect(&Effect::Hit { amount: 5, damage: Damage::Physical }, &vol, None);
    // Five physical, three mitigated: two land.
    assert_eq!(w.hp(m), Some(8));
    // Fire ignores armor.
    w.apply_effect(&Effect::Hit { amount: 5, damage: Damage::Fire }, &vol, None);
    assert_eq!(w.hp(m), Some(3));
}

#[test]
fn equip_refuses_an_occupied_slot() {
    let mut w = dungeon_world();
    carve_room(&mut w, -3, -3, 3, 3);
    let m = w.spawn(&mob_loadout(2), Location::new(0, 0, 1));
    let a = w.spawn(&bolt_item(Ability::LightningBolt, 1), Location::new(1, 0, 1));
    let b = w.spawn(&bolt_item(Ability::Fireball, 1), Location::new(1, 1, 1));
    assert!(w.equip_item(a, m, Slot::Melee));
    assert!(!w.equip_item(b, m, Slot::Melee));
    assert!(w.equip_item(b, m, Slot::Ranged));
    // A held item leaves the map.
    assert!(w.location(a).is_none());
}

#[test]
fn ai_mob_attacks_the_adjacent_player() {
    let mut w = dungeon_world();
    carve_room(&mut w, -3, -3, 3, 3);
    w.spawn_player(Location::new(0, 0, 1), &player_loadout());
    let p = w.player().unwrap();
    let _m = w.spawn(&mob_loadout(2), Location::new(1, 0, 1));
    assert_eq!(w.hp(p), Some(10));
    w.next_tick();
    assert_eq!(w.hp(p), Some(8), "the enemy lands its power as damage");
}

#[test]
fn spawn_player_teleports_from_limbo_only() {
    let mut w = dungeon_world();
    carve_room(&mut w, -3, -3, 3, 3);
    let start = Location::new(0, 0, 1);
    w.spawn_player(start, &player_loadout());
    let p = w.player().unwrap();
    assert_eq!(w.location(p), Some(start));
    // A placed player stays put.
    w.spawn_player(Location::new(1, 1, 1), &player_loadout());
    assert_eq!(w.player(), Some(p));
    assert_eq!(w.location(p), Some(start));
}

#[test]
fn idle_consumes_the_turn_quietly() {
    let mut w = dungeon_world();
    carve_room(&mut w, -2, -2, 2, 2);
    let e = w.spawn(&player_loadout(), Location::new(0, 0, 1));
    assert_eq!(w.idle(e), Some(true));
    assert_eq!(w.hp(e), Some(10));
    assert_eq!(w.get_tick(), 0);
}

#[test]
fn non_item_abilities_never_act() {
    let mut w = dungeon_world();
    let e = w.spawn(&player_loadout(), Location::new(0, 0, 1));
    assert_eq!(w.use_ability(e, Ability::LightningBolt), None);
    assert_eq!(w.use_targeted_ability(e, Ability::Fireball, Dir6::North), None);
}

#[test]
fn stale_handles_stay_dead() {
    let mut w = dungeon_world();
    carve_room(&mut w, -3, -3, 3, 3);
    let m = w.spawn(&mob_loadout(2), Location::new(0, 0, 1));
    let vol = Volume(vec![Location::new(0, 0, 1)]);
    w.apply_effect(&Effect::Hit { amount: 100, damage: Damage::Fire }, &vol, None);
    w.next_tick();
    assert!(!w.is_alive(m));
    // New entities never reuse the retired handle.
    for k in 0..10 {
        let f = w.spawn(&mob_loadout(2), Location::new(1, k % 3, 1));
        assert_ne!(f, m);
        assert!(!w.is_alive(m));
    }
}

#[test]
fn same_seed_same_story() {
    let run = || {
        let mut w = dungeon_world();
        carve_room(&mut w, -6, -6, 6, 6);
        let e = w.spawn(&player_loadout(), Location::new(0, 0, 1));
        let m1 = w.spawn(&mob_loadout(2), Location::new(2, 0, 1));
        let m2 = w.spawn(&mob_loadout(2), Location::new(0, 2, 1));
        let item = w.spawn(&bolt_item(Ability::LightningBolt, 3), Location::new(0, 1, 1));
        let r = w.use_item_ability(e, item, Ability::LightningBolt);
        assert_eq!(r, Some(true));
        (w.hp(m1), w.hp(m2))
    };
    assert_eq!(run(), run(), "the same seed must pick the same target");
}

#[test]
fn message_log_is_first_in_first_out() {
    let mut w = dungeon_world();
    carve_room(&mut w, -3, -3, 3, 3);
    let m = w.spawn(&mob_loadout(2), Location::new(0, 0, 1));
    let vol = Volume(vec![Location::new(0, 0, 1)]);
    w.apply_effect(&Effect::Hit { amount: 100, damage: Damage::Fire }, &vol, None);
    // A lethal hit posts damage first, then the gib.
    match w.pop_msg() {
        Some(Msg::Damage(x)) => assert_eq!(x, m),
        other => panic!("expected a damage message, got {:?}", other),
    }
    assert!(matches!(w.pop_msg(), Some(Msg::Gib(_))));
    assert!(w.pop_msg().is_none());
}

#[test]
fn spawns_appear_near_the_player_at_depth() {
    // Depth 0 lets the standard forms hatch.
    let mut w = World::new(11, AreaSpec::new(Biome::Dungeon, 0));
    carve_room(&mut w, -12, -12, 12, 12);
    w.spawn_player(Location::new(0, 0, 1), &player_loadout());
    let p = w.player().unwrap();
    let mut seen_mob = false;
    for _ in 0..200 {
        w.next_tick();
        for x in -12..=12 {
            for y in -12..=12 {
                for ent in w.entities_at(Location::new(x, y, 1)) {
                    if ent != p && w.is_alive(ent) && w.hp(ent).is_some() {
                        seen_mob = true;
                    }
                }
            }
        }
        if seen_mob {
            break;
        }
    }
    assert!(seen_mob, "world spawns must eventually hatch a creature");
}

#[test]
fn nothing_hatches_below_its_depth() {
    let mut w = dungeon_world();
    carve_room(&mut w, -12, -12, 12, 12);
    w.spawn_player(Location::new(0, 0, 1), &player_loadout());
    let p = w.player().unwrap();
    for _ in 0..100 {
        w.next_tick();
    }
    for x in -12..=12 {
        for y in -12..=12 {
            for ent in w.entities_at(Location::new(x, y, 1)) {
                assert!(ent == p, "no creature may hatch in a depth nothing can hatch in");
            }
        }
    }
}

#[test]
fn entity_kind_of_unknown_cell_is_empty() {
    let w = dungeon_world();
    assert!(w.entities_at(Location::new(5, 5, 1)).is_empty());
    assert!(w.mob_at(Location::new(5, 5, 1)).is_none());
    let ghost = Entity { idx: 4, gen: 0 };
    assert!(!w.is_alive(ghost));
    assert!(w.hp(ghost).is_none());
}
