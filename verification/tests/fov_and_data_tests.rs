use world::{
    AreaSpec, Biome, Brain, FovStatus, Health, Intrinsic, Location, Stats, Terrain, World,
};
use world::form::{registry, Form, Loadout};
use world::geomorph::init_geomorphs;
use world::location::Dir6;
use world::viewutil::{
    cells_on_screen, chart_to_screen, chart_to_view, column_to_chart, ColumnRectIter, V2,
};

fn player_loadout() -> Loadout {
    Loadout::new().c(Stats::new(10, &[Intrinsic::Hands])).c(Health::new()).c(Brain::player())
}

fn fov_world() -> World {
    World::new(3, AreaSpec::new(Biome::Dungeon, -1))
}

fn carve(w: &mut World, x0: i32, y0: i32, x1: i32, y1: i32) {
    for x in x0..=x1 {
        for y in y0..=y1 {
            w.set_terrain(Location::new(x, y, 1), Terrain::Floor);
        }
    }
}

fn sorted(mut v: Vec<Location>) -> Vec<Location> {
    v.sort();
    v
}

#[test]
fn fov_is_stable_and_memory_grows() {
    let mut w = fov_world();
    carve(&mut w, -4, -4, 4, 4);
    w.set_terrain(Location::new(2, 0, 1), Terrain::Wall);
    let start = Location::new(0, 0, 1);
    w.spawn_player(start, &player_loadout());
    let p = w.player().unwrap();
    w.do_fov(p);
    let seen1 = sorted(w.seen_of(p));
    let rem1 = sorted(w.remembered_of(p));
    assert!(!seen1.is_empty());
    assert_eq!(seen1, rem1, "everything first seen is remembered");
    // Unchanged terrain, same origin, same range: bit-identical result.
    w.do_fov(p);
    let seen2 = sorted(w.seen_of(p));
    assert_eq!(seen1, seen2);
    let rem2 = sorted(w.remembered_of(p));
    assert_eq!(rem1, rem2);
    // After moving, the remembered set only grows.
    w.place_entity(p, Location::new(-2, -2, 1));
    w.do_fov(p);
    let rem3 = w.remembered_of(p);
    for loc in &rem1 {
        assert!(rem3.contains(loc), "remembered locations are never lost");
    }
}

#[test]
fn fov_sees_through_floor_not_rock() {
    let mut w = fov_world();
    carve(&mut w, 0, 0, 3, 0);
    let start = Location::new(0, 0, 1);
    w.spawn_player(start, &player_loadout());
    let p = w.player().unwrap();
    w.do_fov(p);
    let seen = w.seen_of(p);
    assert!(seen.contains(&start));
    // The corridor is visible; the wall cell itself is visible too.
    assert!(seen.contains(&Location::new(3, 0, 1)));
    assert!(seen.contains(&Location::new(4, 0, 1)), "the first blocking cell is seen");
    assert!(!seen.contains(&Location::new(5, 0, 1)), "sight stops inside rock");
    assert_eq!(w.fov_status(start), Some(FovStatus::Seen));
    assert_eq!(w.fov_status(Location::new(-7, 7, 1)), None);
}

#[test]
fn fov_status_remembers_after_leaving() {
    let mut w = fov_world();
    carve(&mut w, 0, 0, 8, 0);
    let start = Location::new(0, 0, 1);
    w.spawn_player(start, &player_loadout());
    let p = w.player().unwrap();
    w.do_fov(p);
    assert_eq!(w.fov_status(Location::new(7, 0, 1)), Some(FovStatus::Seen));
    // Wall off the corridor and look again from the far end.
    w.set_terrain(Location::new(4, 0, 1), Terrain::Wall);
    w.place_entity(p, Location::new(8, 0, 1));
    w.do_fov(p);
    assert_eq!(w.fov_status(start), Some(FovStatus::Remembered));
}

#[test]
fn do_fov_without_memory_is_a_no_op() {
    let mut w = fov_world();
    carve(&mut w, -2, -2, 2, 2);
    // A plain mob has no map memory.
    let m = w.spawn(
        &Loadout::new().c(Stats::new(2, &[])).c(Brain::enemy()).c(Health::new()),
        Location::new(0, 0, 1),
    );
    w.do_fov(m);
    assert!(w.seen_of(m).is_empty());
    assert!(w.remembered_of(m).is_empty());
}

#[test]
fn sphere_volumes_have_hex_sizes() {
    let w = fov_world();
    let o = Location::new(0, 0, 1);
    assert_eq!(w.sphere_volume(o, 0).0.len(), 1);
    assert_eq!(w.sphere_volume(o, 1).0.len(), 7);
    assert_eq!(w.sphere_volume(o, 2).0.len(), 19);
    let v = w.sphere_volume(o, 1);
    for d in [Dir6::North, Dir6::NorthEast, Dir6::SouthEast, Dir6::South, Dir6::SouthWest,
        Dir6::NorthWest] {
        let (dx, dy) = d.delta();
        assert!(v.0.contains(&Location::new(dx, dy, 1)));
    }
}

#[test]
fn biome_and_area_rules() {
    assert_eq!(Biome::Overland.default_terrain(), Terrain::Tree);
    assert_eq!(Biome::Dungeon.default_terrain(), Terrain::Rock);
    assert_eq!(Biome::Anywhere.default_terrain(), Terrain::Void);
    let env = AreaSpec::new(Biome::Dungeon, 4);
    assert!(AreaSpec::new(Biome::Anywhere, 0).can_hatch_in(&env));
    assert!(AreaSpec::new(Biome::Dungeon, 4).can_hatch_in(&env));
    assert!(!AreaSpec::new(Biome::Dungeon, 5).can_hatch_in(&env), "too deep a requirement");
    assert!(!AreaSpec::new(Biome::Overland, 0).can_hatch_in(&env), "wrong biome");
    assert!(!AreaSpec::new(Biome::Dungeon, -1).can_hatch_in(&env), "negative depth never hatches");
}

#[test]
fn the_form_registry_holds_the_standard_creatures() {
    let forms = registry();
    assert_eq!(forms.len(), 3);
    let player = Form::named(&forms, "player").expect("player form");
    assert_eq!(player.weight(), 0, "the player never spawns by itself");
    let dreg = Form::named(&forms, "dreg").expect("dreg form");
    assert!(dreg.weight() > 0);
    assert_eq!(dreg.loadout.stats.unwrap().power, 1);
    let snake = Form::named(&forms, "snake").expect("snake form");
    assert_eq!(snake.loadout.stats.unwrap().power, 1);
    assert!(Form::named(&forms, "beholder").is_none());
}

#[test]
fn form_builders_set_their_fields() {
    let ooze = Form::mob("ooze", "ooze", 3, &[]).rarity(4).depth(1).habitat(Biome::Dungeon);
    assert_eq!(ooze.rarity, 4);
    assert_eq!(ooze.min_depth, 1);
    assert!(matches!(ooze.habitat, Biome::Dungeon));
    assert_eq!(ooze.weight(), 250);
    assert_eq!(ooze.name().unwrap(), "ooze");
}

#[test]
fn descriptors_travel_with_spawned_forms() {
    let mut w = fov_world();
    carve(&mut w, -2, -2, 2, 2);
    let forms = registry();
    let dreg = Form::named(&forms, "dreg").expect("dreg form");
    let m = w.spawn(&dreg.loadout.duplicate(), Location::new(1, 1, 1));
    let d = w.desc(m).expect("a spawned dreg has a descriptor");
    assert_eq!(d.name, "dreg");
    assert_eq!(d.brush, "dreg");
    let bare = w.spawn(&Loadout::new().c(Health::new()), Location::new(0, 1, 1));
    assert!(w.desc(bare).is_none());
}

#[test]
fn geomorph_registry_parses_whole() {
    let chunks = init_geomorphs();
    assert_eq!(chunks.len(), 17, "every chunk text has the expected shape");
    for c in &chunks {
        assert_eq!(c.cells.len(), 242);
    }
    // The first chunk begins with a mostly-closed overland row.
    assert_eq!(&chunks[0].cells[0..11], b"%%%%%%%,%%%");
    assert!(matches!(chunks[0].area.biome, Biome::Overland));
    assert_eq!(chunks[0].area.depth, 0);
    assert!(matches!(chunks[16].area.biome, Biome::Dungeon));
}

#[test]
fn c2c() {
    assert_eq!(V2(-1, 0), column_to_chart(V2(-1, -1)));
    assert_eq!(V2(-1, -1), column_to_chart(V2(0, -1)));
    assert_eq!(V2(0, -1), column_to_chart(V2(1, -1)));

    assert_eq!(V2(0, 1), column_to_chart(V2(-1, 0)));
    assert_eq!(V2(0, 0), column_to_chart(V2(0, 0)));
    assert_eq!(V2(1, 0), column_to_chart(V2(1, 0)));

    assert_eq!(V2(1, 2), column_to_chart(V2(-1, 1)));
    assert_eq!(V2(1, 1), column_to_chart(V2(0, 1)));
    assert_eq!(V2(2, 1), column_to_chart(V2(1, 1)));

    assert_eq!(V2(-3, -1), column_to_chart(V2(-2, -2)));
    assert_eq!(V2(1, 3), column_to_chart(V2(-2, 2)));
    assert_eq!(V2(3, 1), column_to_chart(V2(2, 2)));
    assert_eq!(V2(-1, -3), column_to_chart(V2(2, -2)));
}

#[test]
fn chart_transforms_are_exact() {
    assert_eq!(chart_to_view(V2(0, 0)), V2(0, 0));
    assert_eq!(chart_to_view(V2(1, 0)), V2(16, 8));
    assert_eq!(chart_to_view(V2(0, 1)), V2(-16, 8));
    assert_eq!(chart_to_screen(V2(0, 0)), V2(320, 180));
}

#[test]
fn column_walk_covers_its_rectangle() {
    let mut it = ColumnRectIter::new(V2(0, 0), V2(4, 2));
    let mut cols = Vec::new();
    while let Some(c) = it.next() {
        cols.push(c);
    }
    // Two rows, each in an upper and a lower pass of two columns.
    assert_eq!(cols.len(), 8);
    assert!(cols.contains(&V2(0, 0)));
    assert!(cols.contains(&V2(2, 0)));
    assert!(cols.contains(&V2(1, 1)));
    let screen = cells_on_screen();
    assert!(!screen.is_empty());
    // The screen's cell list covers its column box: chart cells of
    // interior columns are all present.
    assert!(screen.contains(&V2(0, 0)));
    assert!(screen.contains(&column_to_chart(V2(1, 1))));
    assert!(screen.contains(&column_to_chart(V2(-2, 2))));
}
