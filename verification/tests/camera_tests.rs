use ev_control::camera::{
    bgra_to_rgb, capture_index, devices_message, no_camera_message, open_failed_message, opened_message,
    unsupported_message, CameraFrame, CameraHandler, CAPTURE_FPS, CAPTURE_HEIGHT, CAPTURE_WIDTH,
};
use ev_control::camera_view::{
    ascii_cell, ascii_grid, ascii_row, camera_count_label, camera_placeholder, camera_switch_offered, AsciiCell,
};

#[test]
fn bgra_pixels_become_rgb() {
    let bgra = [1u8, 2, 3, 4, 10, 20, 30, 40, 7, 8];
    assert_eq!(bgra_to_rgb(&bgra), vec![3, 2, 1, 30, 20, 10]);
    assert!(bgra_to_rgb(&[1, 2, 3]).is_empty());
    assert!(bgra_to_rgb(&[]).is_empty());
}

#[test]
fn capture_index_clamps_to_present_cameras() {
    assert_eq!(capture_index(0, 0), None);
    assert_eq!(capture_index(3, 0), None);
    assert_eq!(capture_index(1, 3), Some(1));
    assert_eq!(capture_index(7, 3), Some(2));
}

#[test]
fn capture_settings() {
    assert_eq!((CAPTURE_WIDTH, CAPTURE_HEIGHT, CAPTURE_FPS), (320, 240, 30));
}

#[test]
fn camera_log_lines() {
    assert_eq!(devices_message(2), "ESCAPI: 2 camera(s) detected");
    assert_eq!(no_camera_message(), "No cameras available");
    assert_eq!(opened_message(1, "USB Cam"), "Camera 1: USB Cam");
    assert_eq!(open_failed_message(0, "busy"), "Failed to open camera 0: busy");
    assert_eq!(unsupported_message(), "Camera support is Windows-only");
}

#[test]
fn handler_start_stop_and_frames() {
    let mut h = CameraHandler::new();
    assert!(!h.is_running());
    assert!(h.get_frame().is_none());
    assert_eq!(h.get_camera_count(), 0);
    h.start(2);
    assert!(h.is_running());
    assert_eq!(h.active_index(), 2);
    h.set_camera_count(3);
    h.store_capture(&[9, 8, 7, 255]);
    let f = h.get_frame().unwrap();
    assert_eq!((f.data.clone(), f.width, f.height), (vec![7, 8, 9], CAPTURE_WIDTH, CAPTURE_HEIGHT));
    h.stop();
    assert!(!h.is_running());
    assert_eq!(h.get_camera_count(), 3);
    assert!(h.get_frame().is_some());
    h.start(0);
    assert!(h.is_running());
    assert_eq!(h.get_frame().unwrap().data, vec![7, 8, 9]);
}

fn frame_2x2() -> CameraFrame {
    CameraFrame {
        data: vec![0, 0, 0, 255, 255, 255, 90, 120, 150, 200, 10, 30],
        width: 2,
        height: 2,
    }
}

#[test]
fn ascii_cells_sample_and_shade() {
    let f = frame_2x2();
    assert_eq!(ascii_cell(&f, 2, 2, 0, 0), Some(AsciiCell { glyph: ' ', r: 0, g: 0, b: 0 }));
    assert_eq!(ascii_cell(&f, 2, 2, 0, 1), Some(AsciiCell { glyph: '█', r: 255, g: 255, b: 255 }));
    // brightness 120 -> 120 * 5 / 256 = 2
    assert_eq!(ascii_cell(&f, 2, 2, 1, 0), Some(AsciiCell { glyph: '▒', r: 90, g: 120, b: 150 }));
    // brightness 80 -> 1
    assert_eq!(ascii_cell(&f, 2, 2, 1, 1), Some(AsciiCell { glyph: '░', r: 200, g: 10, b: 30 }));
}

#[test]
fn ascii_grid_scales_the_frame() {
    let f = frame_2x2();
    let g = ascii_grid(&f, 4, 4);
    assert_eq!(g.len(), 4);
    assert!(g.iter().all(|row| row.len() == 4 && row.iter().all(|c| c.is_some())));
    assert_eq!(g[3][3].unwrap().r, 200);
    assert_eq!(g[0][1].unwrap().r, 0);
    let row = ascii_row(&f, 1, 3, 0);
    assert_eq!(row.len(), 3);
}

#[test]
fn ascii_cells_beyond_short_data_are_empty() {
    let f = CameraFrame { data: vec![1, 2, 3], width: 2, height: 2 };
    assert!(ascii_cell(&f, 2, 2, 0, 0).is_some());
    assert!(ascii_cell(&f, 2, 2, 1, 1).is_none());
}

#[test]
fn camera_panel_texts() {
    assert_eq!(camera_placeholder(0), "No Camera Feed\n\nConnect USB camera");
    assert_eq!(camera_placeholder(2), "2 camera(s) detected\nInitializing...");
    assert_eq!(camera_count_label(0), "None");
    assert_eq!(camera_count_label(12), "12 found");
    assert!(!camera_switch_offered(1));
    assert!(camera_switch_offered(2));
}

#[test]
fn stored_frames_have_the_capture_size_and_whole_pixels() {
    let mut h = CameraHandler::new();
    let bgra: Vec<u8> = (0..(CAPTURE_WIDTH * CAPTURE_HEIGHT * 4 + 3)).map(|i| i as u8).collect();
    h.store_capture(&bgra);
    let f = h.get_frame().unwrap();
    assert_eq!((f.width, f.height), (320, 240));
    assert_eq!(f.data.len(), (320 * 240 * 3) as usize);
    assert_eq!(f.data.len() % 3, 0);
}

#[test]
fn grid_of_one_cell_samples_the_corner() {
    let f = frame_2x2();
    assert_eq!(ascii_cell(&f, 1, 1, 0, 0).unwrap().r, 0);
}
