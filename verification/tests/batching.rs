use pill_engine::batching::{
    build_draw_groups, groups_to_draw, ibl_fallback_texel, ibl_source, IblSource, instance_offset, instances_needed, upload_len, GroupCmd, PassPBRStatic, MAX_EXPECTED_PER_DRAW_INSTANCES,
    PER_DRAW_STRIDE_BYTES,
};
use pill_engine::graphics::{RendererMaterialHandle, RendererMeshHandle, RendererTextureHandle};

fn mat(index: u32, version: u32) -> RendererMaterialHandle {
    RendererMaterialHandle { index, version }
}

fn mesh(index: u32) -> RendererMeshHandle {
    RendererMeshHandle { index, version: 1 }
}

fn shape(groups: &[GroupCmd]) -> Vec<(RendererMaterialHandle, Vec<(RendererMeshHandle, Vec<usize>, u32)>)> {
    groups
        .iter()
        .map(|g| {
            (
                g.material_handle,
                g.batches.iter().map(|b| (b.mesh_handle, b.instances.clone(), b.base_offset_u32)).collect(),
            )
        })
        .collect()
}

#[test]
fn groups_by_material_then_batches_by_mesh() {
    let a = mesh(7);
    let b = mesh(3);
    let m0 = mat(0, 1);
    let m1 = mat(1, 1);
    let visible = vec![(m1, a), (m0, b), (m1, b), (m0, b), (m1, a)];
    let groups = build_draw_groups(&visible, 256);
    assert_eq!(
        shape(&groups),
        vec![
            (m0, vec![(b, vec![1, 3], 0)]),
            (m1, vec![(a, vec![0, 4], 512), (b, vec![2], 1024)]),
        ]
    );
    assert_eq!(instances_needed(&groups), 5);
}

#[test]
fn version_orders_before_index() {
    let visible = vec![(mat(0, 2), mesh(1)), (mat(5, 1), mesh(1))];
    let groups = build_draw_groups(&visible, 256);
    assert_eq!(
        shape(&groups),
        vec![(mat(5, 1), vec![(mesh(1), vec![1], 0)]), (mat(0, 2), vec![(mesh(1), vec![0], 256)])]
    );
}

#[test]
fn nothing_visible_draws_nothing() {
    let groups = build_draw_groups(&Vec::new(), 256);
    assert!(groups.is_empty());
    assert_eq!(instances_needed(&groups), 0);
}

#[test]
fn same_material_keeps_queue_order() {
    let m = mat(4, 1);
    let visible = vec![(m, mesh(2)), (m, mesh(1)), (m, mesh(2))];
    let groups = build_draw_groups(&visible, 16);
    assert_eq!(shape(&groups), vec![(m, vec![(mesh(2), vec![0, 2], 0), (mesh(1), vec![1], 32)])]);
}

#[test]
fn instance_offsets_step_by_stride() {
    assert_eq!(instance_offset(512, 0, 256), 512);
    assert_eq!(instance_offset(512, 1, 256), 768);
    assert_eq!(instance_offset(u32::MAX - 255, 1, 256), 0);
}

#[test]
fn ring_offsets_wrap_at_u32() {
    let m = mat(0, 1);
    let visible = vec![(m, mesh(1)), (m, mesh(2))];
    let groups = build_draw_groups(&visible, 0x8000_0000);
    assert_eq!(shape(&groups), vec![(m, vec![(mesh(1), vec![0], 0), (mesh(2), vec![1], 0x8000_0000)])]);
    let visible = vec![(m, mesh(1)), (m, mesh(1)), (m, mesh(2))];
    let groups = build_draw_groups(&visible, 0x8000_0000);
    assert_eq!(shape(&groups), vec![(m, vec![(mesh(1), vec![0, 1], 0), (mesh(2), vec![2], 0)])]);
}

#[test]
fn pbr_pass_starts_without_ring() {
    let irradiance = RendererTextureHandle { index: 2, version: 1 };
    let pass = PassPBRStatic::new(Some(irradiance), None, None);
    assert_eq!(pass.ibl_irradiance_tex, Some(irradiance));
    assert_eq!(pass.ibl_prefilter_tex, None);
    assert_eq!(pass.depth_texture, None);
    assert_eq!(pass.per_draw_stride, 256);
    assert_eq!(pass.per_draw_capacity, 0);
    assert!(pass.groups.is_empty());
    assert_eq!(pass.get_label(), "pass_pbr_static");
}

#[test]
fn pbr_ring_is_sized_on_init() {
    let mut pass = PassPBRStatic::new(None, None, None);
    assert_eq!(pass.init_ring(), PER_DRAW_STRIDE_BYTES * MAX_EXPECTED_PER_DRAW_INSTANCES);
    assert_eq!(pass.init_ring(), 25_600_000);
    assert_eq!(pass.per_draw_capacity, 100_000);
}

#[test]
fn pbr_prepare_reports_exceeded_capacity() {
    let m = mat(1, 1);
    let visible = vec![(m, mesh(1)), (m, mesh(1))];
    let mut pass = PassPBRStatic::new(None, None, None);
    assert!(pass.prepare_draw(&visible));
    assert_eq!(shape(&pass.groups), vec![(m, vec![(mesh(1), vec![0, 1], 0)])]);
    pass.init_ring();
    assert!(!pass.prepare_draw(&visible));
    assert!(!pass.prepare_draw(&Vec::new()));
    assert!(pass.groups.is_empty());
}

#[test]
fn groups_without_bind_groups_are_skipped() {
    let visible = vec![(mat(0, 1), mesh(1)), (mat(1, 1), mesh(1)), (mat(2, 1), mesh(2))];
    let groups = build_draw_groups(&visible, 256);
    assert_eq!(groups.len(), 3);
    assert_eq!(groups_to_draw(&groups, &vec![true, false, true]), vec![0, 2]);
    assert_eq!(groups_to_draw(&groups, &vec![false, false, false]), Vec::<usize>::new());
}

#[test]
fn upload_covers_every_instance() {
    let m = mat(0, 1);
    let visible = vec![(m, mesh(1)), (mat(3, 1), mesh(1)), (m, mesh(2))];
    let groups = build_draw_groups(&visible, 256);
    assert_eq!(upload_len(&groups, 256), 768);
    assert_eq!(upload_len(&groups, 0), 0);
    assert_eq!(upload_len(&Vec::new(), 256), 0);
}

#[test]
fn missing_lighting_inputs_read_the_black_fallback() {
    let h = RendererTextureHandle { index: 4, version: 2 };
    assert_eq!(ibl_source(Some(h), true), IblSource::Target(h));
    assert_eq!(ibl_source(Some(h), false), IblSource::Fallback);
    assert_eq!(ibl_source(None, true), IblSource::Fallback);
    assert_eq!(ibl_fallback_texel(), [0, 0, 0, 0]);
}
