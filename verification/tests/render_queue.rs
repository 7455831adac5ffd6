use pill_engine::render_queue::{
    active_camera, prepare_render_queue, recovers_from, rendering_system, RenderError, RenderFailure, RenderFrame,
    RenderQueueItem,
};

fn item(key: u64, entity_index: u32) -> RenderQueueItem {
    RenderQueueItem { key, entity_index }
}

#[test]
fn queue_is_sorted_by_key_then_entity() {
    let entries = vec![(Some(5), 0), (None, 1), (Some(2), 2), (Some(5), 3), (Some(2), 4), (Some(9), 5)];
    assert_eq!(
        prepare_render_queue(&entries),
        vec![item(2, 2), item(2, 4), item(5, 0), item(5, 3), item(9, 5)]
    );
}

#[test]
fn queue_keeps_duplicates() {
    let entries = vec![(Some(1), 7), (Some(1), 7), (Some(0), 9)];
    assert_eq!(prepare_render_queue(&entries), vec![item(0, 9), item(1, 7), item(1, 7)]);
}

#[test]
fn empty_queue() {
    assert!(prepare_render_queue(&vec![(None, 1), (None, 2)]).is_empty());
}

#[test]
fn first_enabled_camera() {
    assert_eq!(active_camera(&vec![false, true, true]), Some(1));
    assert_eq!(active_camera(&vec![false, false]), None);
}

#[test]
fn frame_decisions() {
    assert_eq!(rendering_system(false, &vec![], &vec![]), Ok(RenderFrame::Boot));
    assert_eq!(rendering_system(true, &vec![false], &vec![(Some(1), 0)]), Err(RenderError::NoActiveCamera));
    assert_eq!(
        rendering_system(true, &vec![false, true], &vec![(Some(3), 0), (Some(1), 1)]),
        Ok(RenderFrame::Draw { camera: 1, queue: vec![item(1, 1), item(3, 0)] })
    );
}

#[test]
fn failures() {
    assert!(recovers_from(RenderFailure::SurfaceLost));
    assert!(!recovers_from(RenderFailure::Other));
}
