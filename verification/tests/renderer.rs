use rust_raytracer::display::rgba_frame;
use rust_raytracer::lights::LightKind;
use rust_raytracer::mesh::triangle_vertex_indices;
use rust_raytracer::renderer::{debug_buffer_offset, ProgressAction, RenderProgress, Settings, ThreadMessage};
use rust_raytracer::textures::ImageWrapMethod;

const DONE: ThreadMessage = ThreadMessage { exit: false, finished: true };
const BUSY: ThreadMessage = ThreadMessage { exit: false, finished: false };

#[test]
fn progress_finishes_once_all_threads_report() {
    let mut p = RenderProgress::new(2, false);
    assert_eq!(p.update(None), ProgressAction::Continue);
    assert_eq!(p.update(Some(BUSY)), ProgressAction::Continue);
    assert_eq!(p.update(Some(DONE)), ProgressAction::Continue);
    assert_eq!(p.running_threads, 1);
    assert_eq!(p.update(Some(DONE)), ProgressAction::Finished);
    assert!(p.finished);
    assert!(!p.denoised);
    assert_eq!(p.update(None), ProgressAction::Continue);
}

#[test]
fn progress_denoises_once_when_asked() {
    let mut p = RenderProgress::new(1, true);
    assert_eq!(p.update(Some(DONE)), ProgressAction::FinishedAndDenoise);
    assert!(p.denoised);
    assert_eq!(p.update(None), ProgressAction::Continue);
    assert_eq!(p.update(None), ProgressAction::Continue);
}

#[test]
fn progress_without_threads_finishes_at_first_update() {
    let mut p = RenderProgress::new(0, true);
    assert_eq!(p.update(None), ProgressAction::FinishedAndDenoise);
}

#[test]
fn rgba_frame_copies_pixels_and_pads() {
    let rgb = vec![1u8, 2, 3, 4, 5, 6];
    let out = rgba_frame(&rgb, 3, 1);
    assert_eq!(out, vec![1, 2, 3, 255, 4, 5, 6, 255, 0, 0, 0, 0]);
    assert_eq!(rgba_frame(&vec![], 1, 1), vec![0, 0, 0, 0]);
}

#[test]
fn mesh_indices_group_into_triangles() {
    let t = triangle_vertex_indices(&vec![0, 1, 2, 2, 3, 0]);
    assert_eq!(t, vec![(0, 1, 2), (2, 3, 0)]);
    assert!(triangle_vertex_indices(&vec![]).is_empty());
}

#[test]
fn light_kind_names() {
    assert_eq!(LightKind::Point.to_string(), "point");
    assert_eq!(LightKind::Area.to_string(), "area");
    assert_eq!(LightKind::Distant.to_string(), "distant");
    assert_eq!(LightKind::InfiniteArea.to_string(), "infinite_area");
}

#[test]
fn debug_offset_uses_height_as_row_stride() {
    assert_eq!(debug_buffer_offset(0, 0, 10), 0);
    assert_eq!(debug_buffer_offset(2, 1, 10), 36);
    assert_eq!(debug_buffer_offset(1, 3, 4), 39);
}

#[test]
fn plain_settings_types() {
    let s = Settings { thread_count: 4, depth_limit: 8, max_samples: 16 };
    let t = s;
    assert_eq!(t.max_samples, 16);
    assert!(ImageWrapMethod::Black != ImageWrapMethod::Clamp);
}
