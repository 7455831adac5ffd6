use pill_engine::utils::{get_enum_variant_type_name, get_game_error_message, get_type_name, validate_asset_path, AssetPathError};

#[test]
fn short_type_names() {
    assert_eq!(get_type_name("pill_engine::resources::Texture"), "Texture");
    assert_eq!(get_type_name("a:"), "");
}

#[test]
fn variant_names() {
    assert_eq!(get_enum_variant_type_name("Hello(88)"), "Hello");
    assert_eq!(get_enum_variant_type_name("Plain"), "Plain");
    assert_eq!(get_enum_variant_type_name("Nested(Inner(1))"), "Nested(Inner");
}

#[test]
fn game_error_report() {
    assert_eq!(get_game_error_message(None), None);
    let chain = vec!["boom".to_string(), "cause".to_string(), "root".to_string()];
    assert_eq!(
        get_game_error_message(Some(&chain)).unwrap(),
        "Game error: boom \n  0: cause \n  1: root \n"
    );
}

#[test]
fn asset_paths() {
    let allowed = vec!["png", "jpg"];
    assert!(validate_asset_path("textures/a.png", true, &allowed).is_ok());
    match validate_asset_path("textures/a.png", false, &allowed) {
        Err(AssetPathError::InvalidAssetPath(p)) => assert_eq!(p, "textures/a.png"),
        _ => panic!("expected InvalidAssetPath"),
    }
    match validate_asset_path("textures/a", true, &allowed) {
        Err(AssetPathError::InvalidAssetPath(p)) => assert_eq!(p, "textures/a"),
        _ => panic!("expected InvalidAssetPath"),
    }
    match validate_asset_path("textures/a.bmp", true, &allowed) {
        Err(AssetPathError::InvalidAssetFormat(formats, ext)) => {
            assert_eq!(formats, vec!["png".to_string(), "jpg".to_string()]);
            assert_eq!(ext, "bmp");
        }
        _ => panic!("expected InvalidAssetFormat"),
    }
}
