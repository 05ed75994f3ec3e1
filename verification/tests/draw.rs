use lorenz_trails::draw::{plan_draw, BufferInfo, Draw, DrawInputs, ElementRange};

fn found() -> DrawInputs {
    DrawInputs {
        buffer_info: Some(BufferInfo::Indexed { count: 192 }),
        instance_count: Some(1000),
        vertex_slice: Some(ElementRange { start: 64, end: 130 }),
        index_slice: Some(ElementRange { start: 300, end: 492 }),
    }
}

#[test]
fn indexed_mesh_is_drawn_through_its_indices() {
    assert_eq!(
        plan_draw(&found()),
        Draw::Indexed {
            indices: ElementRange { start: 300, end: 492 },
            base_vertex: 64,
            instances: ElementRange { start: 0, end: 1000 },
        }
    );
}

#[test]
fn non_indexed_mesh_is_drawn_through_its_vertices() {
    let inputs = DrawInputs { buffer_info: Some(BufferInfo::NonIndexed), index_slice: None, ..found() };
    assert_eq!(
        plan_draw(&inputs),
        Draw::NonIndexed {
            vertices: ElementRange { start: 64, end: 130 },
            instances: ElementRange { start: 0, end: 1000 },
        }
    );
}

#[test]
fn non_indexed_mesh_ignores_an_index_slice() {
    let inputs = DrawInputs { buffer_info: Some(BufferInfo::NonIndexed), ..found() };
    assert_eq!(
        plan_draw(&inputs),
        Draw::NonIndexed {
            vertices: ElementRange { start: 64, end: 130 },
            instances: ElementRange { start: 0, end: 1000 },
        }
    );
}

#[test]
fn missing_mesh_skips() {
    assert_eq!(plan_draw(&DrawInputs { buffer_info: None, ..found() }), Draw::Skip);
}

#[test]
fn missing_instance_buffer_skips() {
    assert_eq!(plan_draw(&DrawInputs { instance_count: None, ..found() }), Draw::Skip);
}

#[test]
fn missing_vertices_skip() {
    assert_eq!(plan_draw(&DrawInputs { vertex_slice: None, ..found() }), Draw::Skip);
}

#[test]
fn missing_indices_skip_an_indexed_mesh() {
    assert_eq!(plan_draw(&DrawInputs { index_slice: None, ..found() }), Draw::Skip);
}

#[test]
fn nothing_found_skips() {
    let inputs = DrawInputs {
        buffer_info: None,
        instance_count: None,
        vertex_slice: None,
        index_slice: None,
    };
    assert_eq!(plan_draw(&inputs), Draw::Skip);
}

#[test]
fn index_range_that_does_not_fit_skips() {
    let inputs = DrawInputs {
        buffer_info: Some(BufferInfo::Indexed { count: 2 }),
        index_slice: Some(ElementRange { start: u32::MAX - 1, end: u32::MAX }),
        ..found()
    };
    assert_eq!(plan_draw(&inputs), Draw::Skip);
}

#[test]
fn index_range_may_end_at_the_last_element() {
    let inputs = DrawInputs {
        buffer_info: Some(BufferInfo::Indexed { count: 1 }),
        index_slice: Some(ElementRange { start: u32::MAX - 1, end: u32::MAX }),
        ..found()
    };
    assert_eq!(
        plan_draw(&inputs),
        Draw::Indexed {
            indices: ElementRange { start: u32::MAX - 1, end: u32::MAX },
            base_vertex: 64,
            instances: ElementRange { start: 0, end: 1000 },
        }
    );
}

#[test]
fn one_instance_for_the_placeholder() {
    let inputs = DrawInputs { instance_count: Some(1), ..found() };
    match plan_draw(&inputs) {
        Draw::Indexed { instances, .. } => assert_eq!(instances, ElementRange { start: 0, end: 1 }),
        other => panic!("{:?}", other),
    }
}

#[test]
fn instance_count_wraps_at_thirty_two_bits() {
    let inputs = DrawInputs { instance_count: Some(u32::MAX as usize), ..found() };
    match plan_draw(&inputs) {
        Draw::Indexed { instances, .. } => assert_eq!(instances.end, u32::MAX),
        other => panic!("{:?}", other),
    }
    let wide = (1u64 << 32) + 7;
    if let Ok(count) = usize::try_from(wide) {
        let inputs = DrawInputs { instance_count: Some(count), ..found() };
        match plan_draw(&inputs) {
            Draw::Indexed { instances, .. } => assert_eq!(instances.end, 7),
            other => panic!("{:?}", other),
        }
    }
}

#[test]
fn base_vertex_is_the_first_vertex_read_as_signed() {
    let at = |start: u32| {
        let inputs =
            DrawInputs { vertex_slice: Some(ElementRange { start, end: start }), ..found() };
        match plan_draw(&inputs) {
            Draw::Indexed { base_vertex, .. } => base_vertex,
            other => panic!("{:?}", other),
        }
    };
    assert_eq!(at(0), 0);
    assert_eq!(at(i32::MAX as u32), i32::MAX);
    assert_eq!(at(0x8000_0000), i32::MIN);
    assert_eq!(at(u32::MAX), -1);
}
