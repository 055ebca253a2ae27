//! The camera feed: the handler that the capture thread and the panel
//! share, the conversion of captured pixels and the capture decisions.

use vstd::prelude::*;
use crate::text::{decimal, with_number, owned};

verus! {

/// Width of a captured frame.
pub const CAPTURE_WIDTH: u32 = 320;

/// Height of a captured frame.
pub const CAPTURE_HEIGHT: u32 = 240;

/// Frames per second asked of the camera.
pub const CAPTURE_FPS: u64 = 30;

/// Pause between two captures, in milliseconds.
pub const CAPTURE_PAUSE_MS: u64 = 33;

/// One RGB frame: three bytes per pixel, row by row.
pub struct CameraFrame {
    pub data: Vec<u8>,
    pub width: u32,
    pub height: u32,
}

/// A frame as plain values.
pub struct FrameView {
    pub data: Seq<u8>,
    pub width: u32,
    pub height: u32,
}

impl View for CameraFrame {
    type V = FrameView;

    open spec fn view(&self) -> FrameView {
        FrameView { data: self.data@, width: self.width, height: self.height }
    }
}

impl CameraFrame {
    /// A copy of the frame.
    pub fn duplicate(&self) -> (f: CameraFrame)
        ensures
            f@ == self@,
    {
        let data = self.data.clone();
        assert(data@ =~= self.data@);
        CameraFrame { data, width: self.width, height: self.height }
    }
}

/// RGB bytes of BGRA pixels: each whole group of four bytes gives its third,
/// second and first byte; a trailing partial group is dropped.
pub open spec fn bgra_to_rgb_spec(p: Seq<u8>) -> Seq<u8> {
    Seq::new((3 * (p.len() / 4)) as nat, |i: int| p[4 * (i / 3) + 2 - i % 3])
}

/// Converts the BGRA pixels that the camera delivers to RGB.
pub fn bgra_to_rgb(pixels: &[u8]) -> (rgb: Vec<u8>)
    ensures
        rgb@ == bgra_to_rgb_spec(pixels@),
{
    let n = pixels.len();
    let mut rgb: Vec<u8> = Vec::new();
    let mut k: usize = 0;
    let mut idx: usize = 0;
    while n - idx >= 4
        invariant
            n == pixels@.len(),
            idx == 4 * k,
            idx <= n,
            rgb@.len() == 3 * k,
            forall|j: int| 0 <= j < rgb@.len() ==> #[trigger] rgb@[j] == pixels@[4 * (j / 3) + 2 - j % 3],
        decreases n - idx,
    {
        rgb.push(pixels[idx + 2]);
        rgb.push(pixels[idx + 1]);
        rgb.push(pixels[idx]);
        proof {
            assert forall|j: int| 0 <= j < rgb@.len() implies #[trigger] rgb@[j] == pixels@[4 * (j / 3) + 2 - j % 3] by {
                if j >= 3 * k {
                    assert(j / 3 == k);
                }
            }
        }
        k = k + 1;
        idx = idx + 4;
    }
    assert(k == n / 4);
    assert(rgb@ =~= bgra_to_rgb_spec(pixels@));
    rgb
}

/// The camera to open when `device_count` cameras are present: none when
/// there is no camera, otherwise the asked one, or the last when the asked
/// index is too high.
pub open spec fn capture_index_spec(camera_index: int, device_count: int) -> Option<int> {
    if device_count == 0 {
        None
    } else if camera_index <= device_count - 1 {
        Some(camera_index)
    } else {
        Some(device_count - 1)
    }
}

/// Chooses the camera to open, as `capture_index_spec` says.
pub fn capture_index(camera_index: usize, device_count: usize) -> (idx: Option<usize>)
    ensures
        idx matches Some(i) ==> capture_index_spec(camera_index as int, device_count as int) == Some(i as int),
        idx is None <==> capture_index_spec(camera_index as int, device_count as int) is None,
{
    if device_count == 0 {
        None
    } else if camera_index <= device_count - 1 {
        Some(camera_index)
    } else {
        Some(device_count - 1)
    }
}

/// The log line with the number of cameras found.
pub fn devices_message(count: usize) -> (m: String)
    ensures
        m@ == "ESCAPI: "@ + decimal(count as nat) + " camera(s) detected"@,
{
    with_number("ESCAPI: ", count as u64, " camera(s) detected")
}

/// The log line when no camera is present.
pub fn no_camera_message() -> (m: String)
    ensures
        m@ == "No cameras available"@,
{
    owned("No cameras available")
}

/// The log line for the camera that was opened.
pub fn opened_message(idx: usize, name: &str) -> (m: String)
    ensures
        m@ == "Camera "@ + decimal(idx as nat) + ": "@ + name@,
{
    let mut m = with_number("Camera ", idx as u64, ": ");
    m.append(name);
    m
}

/// The log line for a camera that failed to open.
pub fn open_failed_message(idx: usize, error: &str) -> (m: String)
    ensures
        m@ == "Failed to open camera "@ + decimal(idx as nat) + ": "@ + error@,
{
    let mut m = with_number("Failed to open camera ", idx as u64, ": ");
    m.append(error);
    m
}

/// The log line on systems where the camera cannot be used.
pub fn unsupported_message() -> (m: String)
    ensures
        m@ == "Camera support is Windows-only"@,
{
    owned("Camera support is Windows-only")
}

/// The state that the capture thread and the panel share: the newest
/// frame, whether capture should go on, the number of cameras and the
/// camera asked for.
pub struct CameraHandler {
    frame: Option<CameraFrame>,
    running: bool,
    camera_count: usize,
    active_index: usize,
}

/// The handler's state as plain values.
pub struct CameraState {
    pub frame: Option<FrameView>,
    pub running: bool,
    pub camera_count: usize,
    pub active_index: usize,
}

pub open spec fn frame_view(f: Option<CameraFrame>) -> Option<FrameView> {
    match f {
        Some(fr) => Some(fr@),
        None => None,
    }
}

impl View for CameraHandler {
    type V = CameraState;

    closed spec fn view(&self) -> CameraState {
        CameraState {
            frame: frame_view(self.frame),
            running: self.running,
            camera_count: self.camera_count,
            active_index: self.active_index,
        }
    }
}

/// A stored frame has the capture size and whole RGB pixels.
pub open spec fn frame_shape_ok(f: Option<FrameView>) -> bool {
    f matches Some(fr) ==> fr.width == CAPTURE_WIDTH && fr.height == CAPTURE_HEIGHT && fr.data.len() % 3 == 0
}

impl CameraHandler {
    #[verifier::type_invariant]
    spec fn inv(&self) -> bool {
        frame_shape_ok(frame_view(self.frame))
    }

    /// No frame, not running, no camera counted, camera 0 asked for.
    pub fn new() -> (h: CameraHandler)
        ensures
            h@ == (CameraState { frame: None, running: false, camera_count: 0, active_index: 0 }),
    {
        CameraHandler { frame: None, running: false, camera_count: 0, active_index: 0 }
    }

    /// Stops any capture and starts capture from camera `camera_index`: the
    /// capture thread then runs while `is_running` holds. Frame and camera
    /// count stay as they are until the new capture delivers.
    pub fn start(&mut self, camera_index: usize)
        ensures
            final(self)@ == (CameraState { running: true, active_index: camera_index, ..old(self)@ }),
    {
        proof {
            use_type_invariant(&*self);
        }
        self.stop();
        self.running = true;
        self.active_index = camera_index;
    }

    /// Asks the capture thread to stop.
    pub fn stop(&mut self)
        ensures
            final(self)@ == (CameraState { running: false, ..old(self)@ }),
    {
        proof {
            use_type_invariant(&*self);
        }
        self.running = false;
    }

    /// A copy of the newest frame, if any: a frame of the capture size with
    /// whole RGB pixels.
    pub fn get_frame(&self) -> (f: Option<CameraFrame>)
        ensures
            frame_view(f) == self@.frame,
            frame_shape_ok(frame_view(f)),
    {
        proof {
            use_type_invariant(self);
        }
        match &self.frame {
            Some(fr) => Some(fr.duplicate()),
            None => None,
        }
    }

    /// The number of cameras that the last capture start found.
    pub fn get_camera_count(&self) -> (n: usize)
        ensures
            n == self@.camera_count,
    {
        self.camera_count
    }

    /// Whether capture should go on.
    pub fn is_running(&self) -> (r: bool)
        ensures
            r == self@.running,
    {
        self.running
    }

    /// The camera asked for.
    pub fn active_index(&self) -> (i: usize)
        ensures
            i == self@.active_index,
    {
        self.active_index
    }

    /// Records the number of cameras present.
    pub fn set_camera_count(&mut self, count: usize)
        ensures
            final(self)@ == (CameraState { camera_count: count, ..old(self)@ }),
    {
        proof {
            use_type_invariant(&*self);
        }
        self.camera_count = count;
    }

    /// Stores a captured BGRA image of the capture size as the newest RGB
    /// frame.
    pub fn store_capture(&mut self, bgra: &[u8])
        ensures
            final(self)@ == (CameraState {
                frame: Some(FrameView { data: bgra_to_rgb_spec(bgra@), width: CAPTURE_WIDTH, height: CAPTURE_HEIGHT }),
                ..old(self)@
            }),
    {
        let data = bgra_to_rgb(bgra);
        assert(data@.len() % 3 == 0) by {
            assert(data@.len() == 3 * (bgra@.len() / 4));
        }
        self.frame = Some(CameraFrame { data, width: CAPTURE_WIDTH, height: CAPTURE_HEIGHT });
    }
}

/// The camera chosen for capture is always one that is present, and it is
/// the one asked for whenever that one is present.
pub proof fn lemma_capture_index_valid(camera_index: int, device_count: int)
    requires
        0 <= camera_index,
        0 <= device_count,
    ensures
        capture_index_spec(camera_index, device_count) matches Some(i) ==> 0 <= i < device_count,
        camera_index < device_count ==> capture_index_spec(camera_index, device_count) == Some(camera_index),
        device_count == 0 <==> capture_index_spec(camera_index, device_count) is None,
{
}

/// Conversion keeps one RGB pixel per whole BGRA pixel and swaps the blue
/// and red channels.
pub proof fn lemma_bgra_pixels(p: Seq<u8>, k: int)
    requires
        0 <= k < p.len() / 4,
    ensures
        bgra_to_rgb_spec(p).len() == 3 * (p.len() / 4),
        bgra_to_rgb_spec(p)[3 * k] == p[4 * k + 2],
        bgra_to_rgb_spec(p)[3 * k + 1] == p[4 * k + 1],
        bgra_to_rgb_spec(p)[3 * k + 2] == p[4 * k],
{
    assert((3 * k) / 3 == k && (3 * k + 1) / 3 == k && (3 * k + 2) / 3 == k);
    assert(3 * k + 2 < 3 * (p.len() / 4));
}

} // verus!
