use pill_engine::assets::{
    check_mesh_count, cook_mesh, decode_rtex, default_rules, image_to_rtex, side_texture_name, AssetError,
    AssetRule, GlbToCookedMesh, ImageFormat, ObjToCookedMesh, ObjToRmesh,
};
use pill_engine::assets::{check_glb_parts, glb_side_textures, GlbError, GlbParts, SideTexture};

#[test]
fn rgba_image_is_copied() {
    let bytes = image_to_rtex(ImageFormat::R8G8B8A8, 1, 1, &[1, 2, 3, 4]).unwrap();
    assert_eq!(bytes, vec![b'R', b'T', b'E', b'X', 1, 0, 0, 0, 1, 0, 0, 0, 1, 0, 0, 0, 1, 2, 3, 4]);
}

#[test]
fn rgb_image_gets_opaque_alpha() {
    let bytes = image_to_rtex(ImageFormat::R8G8B8, 2, 1, &[1, 2, 3, 4, 5, 6, 7]).unwrap();
    assert_eq!(&bytes[0..4], b"RTEX");
    assert_eq!(&bytes[8..12], &[2, 0, 0, 0]);
    assert_eq!(&bytes[16..], &[1, 2, 3, 255, 4, 5, 6, 255]);
}

#[test]
fn other_image_formats_are_refused() {
    assert_eq!(
        image_to_rtex(ImageFormat::R16, 1, 1, &[0, 0]).unwrap_err(),
        AssetError::UnsupportedImageFormat(ImageFormat::R16)
    );
}

#[test]
fn rtex_reads_back() {
    let bytes = image_to_rtex(ImageFormat::R8G8B8A8, 300, 70000, &[9, 9, 9, 9]).unwrap();
    let (pixels, w, h, version) = decode_rtex(&bytes);
    assert_eq!(pixels, &[9, 9, 9, 9]);
    assert_eq!(w, 300);
    assert_eq!(h, 70000);
    assert_eq!(version, 1);
}

#[test]
fn cooked_mesh_layout() {
    let bytes = cook_mesh(2, 3, &[0xAA, 0xBB], &[0xCC]);
    assert_eq!(bytes, vec![b'R', b'M', b'S', b'H', 1, 0, 0, 0, 2, 0, 0, 0, 3, 0, 0, 0, 0xAA, 0xBB, 0xCC]);
}

#[test]
fn mesh_count_rules() {
    assert_eq!(check_mesh_count(1), Ok(()));
    assert_eq!(check_mesh_count(0), Err(AssetError::NoMeshes));
    assert_eq!(check_mesh_count(3), Err(AssetError::TooManyMeshes(3)));
}

#[test]
fn rule_set_and_names() {
    assert_eq!(default_rules(), vec![AssetRule::HlslToWgsl, AssetRule::PngToCookedTex, AssetRule::ObjToCookedMesh]);
    assert_eq!(GlbToCookedMesh.name(), "glb_to_cooked_mesh");
    assert_eq!(GlbToCookedMesh.input_glob(), "**/*.glb");
    assert_eq!(ObjToCookedMesh.name(), "obj_to_cooked_mesh");
    assert_eq!(ObjToRmesh.name(), "obj_to_rmesh");
    assert_eq!(ObjToRmesh.input_glob(), "**/*.obj");
}

#[test]
fn output_paths_change_the_extension() {
    assert_eq!(ObjToCookedMesh.output_for("models/cube.obj"), "models/cube.cooked_mesh");
    assert_eq!(ObjToRmesh.output_for("models/cube.obj"), "models/cube.rmesh");
    assert_eq!(GlbToCookedMesh.output_for("a/b.glb"), "a/b.cooked_mesh");
    assert_eq!(side_texture_name("b", false), "b_albedo.cooked_tex");
    assert_eq!(side_texture_name("b", true), "b_normal.cooked_tex");
}

fn parts() -> GlbParts {
    GlbParts {
        has_mesh: true,
        has_primitive: true,
        has_positions: true,
        has_normals: true,
        has_uvs: true,
        has_indices: true,
    }
}

#[test]
fn glb_parts_report_the_first_missing_one() {
    assert_eq!(check_glb_parts(&parts()), Ok(()));
    assert_eq!(check_glb_parts(&GlbParts { has_mesh: false, has_normals: false, ..parts() }), Err(GlbError::NoMeshes));
    assert_eq!(check_glb_parts(&GlbParts { has_primitive: false, ..parts() }), Err(GlbError::NoPrimitives));
    assert_eq!(
        check_glb_parts(&GlbParts { has_normals: false, has_uvs: false, ..parts() }),
        Err(GlbError::MissingNormals)
    );
    assert_eq!(check_glb_parts(&GlbParts { has_positions: false, ..parts() }), Err(GlbError::MissingPositions));
    assert_eq!(check_glb_parts(&GlbParts { has_uvs: false, ..parts() }), Err(GlbError::MissingUvs));
    assert_eq!(check_glb_parts(&GlbParts { has_indices: false, ..parts() }), Err(GlbError::MissingIndices));
}

#[test]
fn glb_side_textures_follow_the_first_material() {
    assert_eq!(glb_side_textures(None, 3), vec![]);
    assert_eq!(
        glb_side_textures(Some((Some(2), Some(0))), 3),
        vec![SideTexture { normal: false, image: 2 }, SideTexture { normal: true, image: 0 }]
    );
    assert_eq!(glb_side_textures(Some((Some(3), Some(1))), 3), vec![SideTexture { normal: true, image: 1 }]);
    assert_eq!(glb_side_textures(Some((None, None)), 3), vec![]);
}
