use indexmap::IndexMap;
use pill_engine::components::{
    cmd_player_index, detach_texture, haptics_system, EguiManagerComponent, HapticPlay, HapticRequest, InFlight, MaterialTextures,
    RenderStateComponent, ResourceLoader, Texture, TextureType,
};

#[test]
fn components_start_empty() {
    let _ui = EguiManagerComponent::new();
    assert!(!RenderStateComponent::new().boot_done);
}

#[test]
fn texture_from_bytes_copies_them() {
    let t = Texture::from_bytes("wall", TextureType::Normal, &[1, 2, 3]);
    assert_eq!(t.name, "wall");
    assert_eq!(t.texture_type, TextureType::Normal);
    match &t.resource_loader {
        ResourceLoader::Bytes(b) => assert_eq!(b, &vec![1, 2, 3]),
        _ => panic!("expected bytes"),
    }
    let p = Texture::new("floor", TextureType::Color, ResourceLoader::Path("floor.png".to_string()));
    assert!(matches!(p.resource_loader, ResourceLoader::Path(ref s) if s == "floor.png"));
}

#[test]
fn detaching_a_texture_empties_its_slots() {
    let slots = |v: Vec<(&str, u64)>| -> IndexMap<String, u64> { v.into_iter().map(|(k, t)| (k.to_string(), t)).collect() };
    let mut ms = vec![
        MaterialTextures { name: "a".to_string(), textures: slots(vec![("color", 5), ("normal", 6), ("rough", 8)]) },
        MaterialTextures { name: "b".to_string(), textures: slots(vec![("color", 7)]) },
        MaterialTextures { name: "c".to_string(), textures: slots(vec![("color", 5), ("normal", 5)]) },
    ];
    let affected = detach_texture(&mut ms, 5);
    assert_eq!(affected, vec!["a".to_string(), "c".to_string()]);
    let left: Vec<(String, u64)> = ms[0].textures.iter().map(|(k, t)| (k.clone(), *t)).collect();
    assert_eq!(left, vec![("normal".to_string(), 6), ("rough".to_string(), 8)]);
    assert_eq!(ms[1].textures, slots(vec![("color", 7)]));
    assert!(ms[2].textures.is_empty());
}

#[test]
fn haptics_drops_ended_effects_and_plans_new_ones() {
    let mut fx = vec![
        InFlight { id: 1, effect: "a", end_at_ms: 100 },
        InFlight { id: 2, effect: "b", end_at_ms: 300 },
        InFlight { id: 3, effect: "c", end_at_ms: 200 },
    ];
    let reqs = vec![
        HapticRequest { player_id: 0, duration_ms: 50 },
        HapticRequest { player_id: 1, duration_ms: 50 },
        HapticRequest { player_id: 2, duration_ms: 70 },
    ];
    let ids = vec![Some(40), None, Some(42)];
    let ff = vec![true, true, false];
    let plays = haptics_system(&mut fx, 200, &reqs, &ids, &ff);
    assert_eq!(fx.len(), 1);
    assert_eq!(fx[0].effect, "b");
    assert_eq!(plays, vec![HapticPlay { request: 0, gamepad_id: 40, end_at_ms: 250 }]);
}

#[test]
fn haptic_request_names_its_player_slot() {
    assert_eq!(cmd_player_index(&HapticRequest { player_id: 3, duration_ms: 250 }), 3);
    assert_eq!(cmd_player_index(&HapticRequest { player_id: 0, duration_ms: 0 }), 0);
}
