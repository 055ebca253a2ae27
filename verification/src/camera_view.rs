//! The camera panel: the frame drawn as a grid of shaded character cells.

use vstd::prelude::*;
use crate::camera::{CameraFrame, FrameView};
use crate::text::{decimal, with_number, owned};

verus! {

/// One character cell: the shade character and the colour of the sampled pixel.
#[derive(Clone, Copy, Debug, PartialEq, Eq)]
pub struct AsciiCell {
    pub glyph: char,
    pub r: u8,
    pub g: u8,
    pub b: u8,
}

/// The five shades from dark to bright.
pub open spec fn glyph_spec(i: int) -> char {
    if i == 0 {
        ' '
    } else if i == 1 {
        '░'
    } else if i == 2 {
        '▒'
    } else if i == 3 {
        '▓'
    } else {
        '█'
    }
}

/// The shade for the brightness `(r + g + b) / 3`, in five equal steps.
pub open spec fn shade_index(r: u8, g: u8, b: u8) -> int {
    let brightness = (r + g + b) / 3;
    let i = brightness * 5 / 256;
    if i < 4 { i } else { 4 }
}

/// The cell in row `row` and column `col` of a grid of `rows` by `cols`
/// cells over the frame: it samples the pixel at the cell's share of the
/// frame, and is empty when that pixel lies beyond the frame's data.
pub open spec fn cell_spec(f: FrameView, rows: int, cols: int, row: int, col: int) -> Option<AsciiCell> {
    let w = f.width as int;
    let h = f.height as int;
    let src_x = col * w / (if cols > 1 { cols } else { 1 });
    let src_y = row * h / (if rows > 1 { rows } else { 1 });
    let idx = (src_y * w + src_x) * 3;
    if idx + 2 < f.data.len() {
        let r = f.data[idx];
        let g = f.data[idx + 1];
        let b = f.data[idx + 2];
        Some(AsciiCell { glyph: glyph_spec(shade_index(r, g, b)), r, g, b })
    } else {
        None
    }
}

/// Column of the frame sampled by cell column `col`.
pub open spec fn sample_x(f: FrameView, cols: int, col: int) -> int {
    col * (f.width as int) / (if cols > 1 { cols } else { 1 })
}

/// Row of the frame sampled by cell row `row`.
pub open spec fn sample_y(f: FrameView, rows: int, row: int) -> int {
    row * (f.height as int) / (if rows > 1 { rows } else { 1 })
}

/// Sizes for which the sampling arithmetic of every cell fits in a machine
/// word. The products and the byte index grow with the row and the column,
/// so it is enough that those of the last cell fit.
pub open spec fn grid_fits(f: FrameView, rows: int, cols: int) -> bool {
    rows <= 0 || cols <= 0 || {
        &&& (cols - 1) * (f.width as int) <= usize::MAX
        &&& (rows - 1) * (f.height as int) <= usize::MAX
        &&& (sample_y(f, rows, rows - 1) * (f.width as int) + sample_x(f, cols, cols - 1)) * 3 + 2 <= usize::MAX
    }
}

proof fn lemma_sample_monotone(a: int, b: int, n: int, m: int)
    requires
        0 <= a <= b,
        0 <= m,
        n > 0,
    ensures
        a * m <= b * m,
        a * m / n <= b * m / n,
{
    assert(a * m <= b * m) by (nonlinear_arith)
        requires 0 <= a <= b, 0 <= m;
    vstd::arithmetic::div_mod::lemma_div_is_ordered(a * m, b * m, n);
}

fn glyph(i: u32) -> (c: char)
    ensures
        c == glyph_spec(i as int),
{
    if i == 0 {
        ' '
    } else if i == 1 {
        '░'
    } else if i == 2 {
        '▒'
    } else if i == 3 {
        '▓'
    } else {
        '█'
    }
}

proof fn lemma_share_below(a: int, n: int, m: int)
    requires
        0 <= a < n,
        0 <= m,
    ensures
        0 <= a * m <= n * m,
        0 <= a * m / n,
        m > 0 ==> a * m / n < m,
        m == 0 ==> a * m / n == 0,
{
    assert(0 <= a * m <= n * m) by (nonlinear_arith)
        requires 0 <= a < n, 0 <= m;
    assert(0 <= a * m / n) by (nonlinear_arith)
        requires 0 <= a * m, n > 0;
    if m > 0 {
        assert(a * m < n * m) by (nonlinear_arith)
            requires 0 <= a < n, m > 0;
        assert(a * m / n < m) by (nonlinear_arith)
            requires a * m < n * m, n > 0, 0 <= a * m;
    } else {
        assert(a * m == 0) by (nonlinear_arith)
            requires m == 0;
    }
}

proof fn lemma_pixel_index_bound(x: int, y: int, w: int, h: int)
    requires
        0 <= x < w,
        0 <= y < h,
    ensures
        0 <= y * w + x < w * h,
        y * w + x <= 3 * w * h,
{
    assert(0 <= y * w + x < w * h) by (nonlinear_arith)
        requires 0 <= x < w, 0 <= y < h;
    assert(w * h <= 3 * w * h) by (nonlinear_arith)
        requires 0 < w, 0 < h;
}

/// One cell of the grid, as `cell_spec` says.
pub fn ascii_cell(frame: &CameraFrame, rows: usize, cols: usize, row: usize, col: usize) -> (cell: Option<AsciiCell>)
    requires
        row < rows,
        col < cols,
        grid_fits(frame@, rows as int, cols as int),
    ensures
        cell == cell_spec(frame@, rows as int, cols as int, row as int, col as int),
{
    let w = frame.width as usize;
    let h = frame.height as usize;
    let cdiv: usize = if cols > 1 { cols } else { 1 };
    let rdiv: usize = if rows > 1 { rows } else { 1 };
    proof {
        lemma_share_below(col as int, cols as int, w as int);
        lemma_share_below(row as int, rows as int, h as int);
        lemma_sample_monotone(col as int, cols - 1, cdiv as int, w as int);
        lemma_sample_monotone(row as int, rows - 1, rdiv as int, h as int);
    }
    let src_x = col * w / cdiv;
    let src_y = row * h / rdiv;
    proof {
        let sx = sample_x(frame@, cols as int, cols - 1);
        let sy = sample_y(frame@, rows as int, rows - 1);
        assert(src_x <= sx);
        assert(src_y <= sy);
        assert(0 <= sy);
        assert(src_y * w <= sy * w) by (nonlinear_arith)
            requires 0 <= src_y <= sy, 0 <= w;
        assert(0 <= src_y * w) by (nonlinear_arith)
            requires 0 <= src_y, 0 <= w;
    }
    let idx = (src_y * w + src_x) * 3;
    if idx + 2 < frame.data.len() {
        let r = frame.data[idx];
        let g = frame.data[idx + 1];
        let b = frame.data[idx + 2];
        let brightness: u32 = (r as u32 + g as u32 + b as u32) / 3;
        let i: u32 = brightness * 5 / 256;
        let ci: u32 = if i < 4 { i } else { 4 };
        Some(AsciiCell { glyph: glyph(ci), r, g, b })
    } else {
        None
    }
}

/// One row of the grid, column by column.
pub fn ascii_row(frame: &CameraFrame, rows: usize, cols: usize, row: usize) -> (cells: Vec<Option<AsciiCell>>)
    requires
        row < rows,
        grid_fits(frame@, rows as int, cols as int),
    ensures
        cells@.len() == cols,
        forall|c: int| 0 <= c < cols ==> #[trigger] cells@[c] == cell_spec(frame@, rows as int, cols as int, row as int, c),
{
    let mut cells: Vec<Option<AsciiCell>> = Vec::new();
    let mut col: usize = 0;
    while col < cols
        invariant
            col <= cols,
            row < rows,
            grid_fits(frame@, rows as int, cols as int),
            cells@.len() == col,
            forall|c: int| 0 <= c < col ==> #[trigger] cells@[c] == cell_spec(frame@, rows as int, cols as int, row as int, c),
        decreases cols - col,
    {
        let cell = ascii_cell(frame, rows, cols, row, col);
        cells.push(cell);
        col = col + 1;
    }
    cells
}

/// The whole grid of `rows` by `cols` cells, row by row.
pub fn ascii_grid(frame: &CameraFrame, rows: usize, cols: usize) -> (grid: Vec<Vec<Option<AsciiCell>>>)
    requires
        grid_fits(frame@, rows as int, cols as int),
    ensures
        grid@.len() == rows,
        forall|r: int| 0 <= r < rows ==> (#[trigger] grid@[r])@.len() == cols,
        forall|r: int, c: int| 0 <= r < rows && 0 <= c < cols ==>
            #[trigger] grid@[r]@[c] == cell_spec(frame@, rows as int, cols as int, r, c),
{
    let mut grid: Vec<Vec<Option<AsciiCell>>> = Vec::new();
    let mut row: usize = 0;
    while row < rows
        invariant
            row <= rows,
            grid_fits(frame@, rows as int, cols as int),
            grid@.len() == row,
            forall|r: int| 0 <= r < row ==> (#[trigger] grid@[r])@.len() == cols,
            forall|r: int, c: int| 0 <= r < row && 0 <= c < cols ==>
                #[trigger] grid@[r]@[c] == cell_spec(frame@, rows as int, cols as int, r, c),
        decreases rows - row,
    {
        let cells = ascii_row(frame, rows, cols, row);
        grid.push(cells);
        row = row + 1;
    }
    grid
}

/// The text shown when no frame has arrived yet.
pub fn camera_placeholder(camera_count: usize) -> (text: String)
    ensures
        camera_count > 0 ==> text@ == decimal(camera_count as nat) + " camera(s) detected\nInitializing..."@,
        camera_count == 0 ==> text@ == "No Camera Feed\n\nConnect USB camera"@,
{
    if camera_count > 0 {
        proof {
            reveal_strlit("");
        }
        let t = with_number("", camera_count as u64, " camera(s) detected\nInitializing...");
        assert(t@ =~= decimal(camera_count as nat) + " camera(s) detected\nInitializing..."@);
        t
    } else {
        owned("No Camera Feed\n\nConnect USB camera")
    }
}

/// The sampled pixel of every cell lies inside the frame, so a full frame
/// yields a full grid: no cell is empty.
pub proof fn lemma_full_frame_fills_grid(f: FrameView, rows: int, cols: int, row: int, col: int)
    requires
        0 <= row < rows,
        0 <= col < cols,
        f.width > 0,
        f.height > 0,
        f.data.len() == 3 * (f.width as int) * (f.height as int),
    ensures
        cell_spec(f, rows, cols, row, col) is Some,
{
    let w = f.width as int;
    let h = f.height as int;
    lemma_share_below(col, cols, w);
    lemma_share_below(row, rows, h);
    let src_x = col * w / (if cols > 1 { cols } else { 1 });
    let src_y = row * h / (if rows > 1 { rows } else { 1 });
    if cols <= 1 {
        assert(col == 0);
        assert(src_x == 0);
    }
    if rows <= 1 {
        assert(row == 0);
        assert(src_y == 0);
    }
    lemma_pixel_index_bound(src_x, src_y, w, h);
    assert((src_y * w + src_x) * 3 + 2 < 3 * w * h) by (nonlinear_arith)
        requires 0 <= src_y * w + src_x < w * h;
}

/// The camera count in the panel's heading: how many were found, or `None`.
pub fn camera_count_label(camera_count: usize) -> (text: String)
    ensures
        camera_count > 0 ==> text@ == decimal(camera_count as nat) + " found"@,
        camera_count == 0 ==> text@ == "None"@,
{
    if camera_count > 0 {
        proof {
            reveal_strlit("");
        }
        let t = with_number("", camera_count as u64, " found");
        assert(t@ =~= decimal(camera_count as nat) + " found"@);
        t
    } else {
        owned("None")
    }
}

/// Whether the panel offers the button that moves to the next camera: only
/// when there is more than one.
pub fn camera_switch_offered(camera_count: usize) -> (offered: bool)
    ensures
        offered == (camera_count > 1),
{
    camera_count > 1
}

} // verus!
