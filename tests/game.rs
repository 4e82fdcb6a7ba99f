use rust_space_trader::entity::EntityId;
use rust_space_trader::game::GameState;
use rust_space_trader::indicators::DistantIndicator;
use rust_space_trader::pickups::Upgrade;
use rust_space_trader::system::SystemLocation;
use rust_space_trader::vector::Vector;

#[test]
fn game_starts_loading() {
    assert_eq!(GameState::default(), GameState::Loading);
}

#[test]
fn indicator_parts() {
    let a = EntityId::new(1, 0);
    let b = EntityId::new(2, 3);
    let local = DistantIndicator::new_local(a, b);
    assert_eq!(local.get_indicator(), a);
    assert_eq!(local.get_indicator_text(), b);
    let system = DistantIndicator::new_system(b, a, Vector::new(0, 1));
    assert_eq!(system.get_indicator(), b);
    assert_eq!(system.get_indicator_text(), a);
    assert!(matches!(system, DistantIndicator::System { visible: false, .. }));
}

#[test]
fn upgrade_names_and_sprites() {
    assert_eq!(Upgrade::EngineUpgrade.get_upgrade_material_name(), "XM Engine Coils");
    assert_eq!(Upgrade::JammerEfficiency.get_upgrade_material_name(), "XM Amplifiers");
    assert_eq!(Upgrade::HullStrength.to_string(), "Hull Strength");
    assert_eq!(Upgrade::FireSpeed.get_sprite_index(), 4);
    assert_eq!(Upgrade::JammerRange.get_sprite_index(), 6);
}

#[test]
fn upgrade_random_is_one_of_the_kinds() {
    let all: Vec<Upgrade> = (0..7).map(Upgrade::from_index).collect();
    assert_eq!(all[0], Upgrade::EngineUpgrade);
    assert_eq!(all[6], Upgrade::JammerEfficiency);
    let mut seen: Vec<Upgrade> = Vec::new();
    for _ in 0..200 {
        let u = Upgrade::random();
        assert!(all.contains(&u));
        if !seen.contains(&u) {
            seen.push(u);
        }
    }
    assert!(seen.len() > 1);
}

#[test]
fn system_location_holds_its_place() {
    assert_eq!(SystemLocation::new(Vector::new(-5, 8)).location, Vector::new(-5, 8));
}
