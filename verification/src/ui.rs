//! The gallery grid: how many images fit in a row, where each image is drawn,
//! which part of the grid is visible and where the selection cursor is.
use ratatui::layout::{Constraint, Direction, Layout};
use vstd::prelude::*;

use crate::app::{path_file_name, spec_path_file_name};
use crate::geometry::Rect;

verus! {

/// What `ratatui::layout::Layout::split` returns for `count` constraints
/// `Constraint::Length(length)` in `area`, stacked vertically or side by
/// side.
pub uninterp spec fn spec_layout_split_lengths(
    vertical: bool,
    length: u16,
    count: nat,
    area: Rect,
) -> Seq<Rect>;

/// `count` segments of `length` fit in `area`, along the split direction,
/// and the area ends within `u16`.
pub open spec fn lengths_fit(vertical: bool, length: u16, count: nat, area: Rect) -> bool {
    if vertical {
        count * length <= area.height && area.y + area.height <= u16::MAX
    } else {
        count * length <= area.width && area.x + area.width <= u16::MAX
    }
}

/// Calls `Layout::default().direction(..).constraints(..).split(area)` of
/// ratatui with `count` constraints `Constraint::Length(length)`. Claimed,
/// besides the name of the result: one rectangle per constraint
/// (`try_split` makes one segment per constraint and `changes_to_rects` one
/// rectangle per segment), and each keeps the area's position and size
/// across the split direction (the default margin is zero, so the inner area
/// is the area). Where in the area each rectangle lies is what the
/// constraint solver decides, and is left to the name, but for one case:
/// when the lengths together fit in the area (and the area ends within
/// `u16`), the default `Flex::Start` layout keeps the first and the middle
/// spacers empty (strengths far above the last spacer's growth) and every
/// segment at its length (`LENGTH_SIZE_EQ`), so rectangle `i` starts
/// `i * length` after the area's start and is `length` long; that is the
/// only optimum, and the rounding in `changes_to_rects` keeps the whole
/// numbers. The solver's required constraints (segments in order, within
/// the area) can always be met, so the `expect` inside `split` does not
/// fire.
#[verifier::external_body]
fn split_lengths(vertical: bool, length: u16, count: usize, area: Rect) -> (res: Vec<Rect>)
    ensures
        res@ == spec_layout_split_lengths(vertical, length, count as nat, area),
        res@.len() == count,
        forall|i: int|
            0 <= i < count ==> if vertical {
                (#[trigger] res@[i]).x == area.x && res@[i].width == area.width
            } else {
                res@[i].y == area.y && res@[i].height == area.height
            },
        lengths_fit(vertical, length, count as nat, area) ==> forall|i: int|
            0 <= i < count ==> if vertical {
                (#[trigger] res@[i]).y == area.y + i * length && res@[i].height == length
            } else {
                res@[i].x == area.x + i * length && res@[i].width == length
            },
{
    let direction = if vertical { Direction::Vertical } else { Direction::Horizontal };
    let area = ratatui::layout::Rect { x: area.x, y: area.y, width: area.width, height: area.height };
    let rects = Layout::default().direction(direction).constraints(vec![Constraint::Length(length); count]).split(area);
    rects.iter().map(|r| Rect { x: r.x, y: r.y, width: r.width, height: r.height }).collect()
}

pub struct GalleryCursor {
    pub area: Rect,
    pub col: u16,
    pub row: u16,
}

pub struct Ui {
    pub scroll_offset: u16,
    pub current_selected_img_idx: usize,
    pub num_horizontal_grid_cells: usize,
    pub num_vertical_grid_cells: usize,
    pub grid_cell_width: usize,
    pub grid_cell_height: usize,
    pub visible_rows_under_selected_image: u16,
    pub gallery_cursor: GalleryCursor,
}

/// One image's place in the gallery grid.
#[derive(Clone, Copy, Debug, PartialEq, Eq, Structural)]
pub struct GalleryCell {
    /// The image's position in the list of images.
    pub index: usize,
    pub row: usize,
    pub col: usize,
    /// Where the image is drawn, in the gallery's content.
    pub area: Rect,
}

/// Where the gallery is drawn before the visible part is copied to the
/// screen.
pub struct GalleryPlan {
    /// The area the grid is laid out in, at the content's origin.
    pub content_area: Rect,
    /// The height of all rows of the grid.
    pub content_height: u16,
    pub scrollbar_needed: bool,
    pub cells: Vec<GalleryCell>,
}

/// A cell of the gallery's content that is visible: its index in the
/// content, row by row, and its offset from the screen area's corner.
#[derive(Clone, Copy, Debug, PartialEq, Eq, Structural)]
pub struct VisibleCell {
    pub source: usize,
    pub dx: u16,
    pub dy: u16,
}

/// Cell `k` of a grid whose rows all have `ncols` cells, counted row by row.
pub open spec fn grid_cell(grid: Seq<Seq<Rect>>, ncols: nat, k: int) -> GalleryCell {
    GalleryCell {
        index: k as usize,
        row: (k / (ncols as int)) as usize,
        col: (k % (ncols as int)) as usize,
        area: grid[k / (ncols as int)][k % (ncols as int)],
    }
}

pub open spec fn min_int(a: int, b: int) -> int {
    if a < b {
        a
    } else {
        b
    }
}

/// The gallery's grid: `nv` rows of height `gh` stacked in `content`, each
/// split into `nh` cells of width `gw`.
pub open spec fn layout_grid(content: Rect, nv: nat, nh: nat, gw: u16, gh: u16) -> Seq<Seq<Rect>> {
    Seq::new(
        nv,
        |r: int|
            spec_layout_split_lengths(
                false,
                gw,
                nh,
                spec_layout_split_lengths(true, gh, nv, content)[r],
            ),
    )
}

/// The cell in row `r` and column `c` of a grid of `gw` x `gh` cells whose
/// corner is at the origin.
pub open spec fn grid_rect(r: int, c: int, gw: u16, gh: u16) -> Rect {
    Rect { x: (c * gw) as u16, y: (r * gh) as u16, width: gw, height: gh }
}

/// The number of images per row: as many grid cells as the window is wide.
pub open spec fn grid_cols(win_cols: u16, gw: usize) -> int {
    (win_cols / (gw as u16)) as int
}

/// The number of rows that `num_images` need.
pub open spec fn grid_rows(num_images: usize, nh: int) -> int {
    ((num_images as u16) + nh - 1) / nh
}

pub open spec fn u16_sat_sub(a: int, b: int) -> u16 {
    if a > b {
        (a - b) as u16
    } else {
        0
    }
}

pub open spec fn initial_ui() -> Ui {
    Ui {
        scroll_offset: 0,
        current_selected_img_idx: 0,
        num_horizontal_grid_cells: 0,
        num_vertical_grid_cells: 0,
        grid_cell_width: 30,
        grid_cell_height: 12,
        visible_rows_under_selected_image: 0,
        gallery_cursor: GalleryCursor {
            area: Rect { x: 0, y: 0, width: 30, height: 12 },
            col: 0,
            row: 0,
        },
    }
}

/// Lays the cells of `grid` out for `num_images` images, row by row, until
/// the images run out.
pub fn assign_gallery_cells(grid: &Vec<Vec<Rect>>, ncols: usize, num_images: usize) -> (cells: Vec<
    GalleryCell,
>)
    requires
        forall|r: int| 0 <= r < grid@.len() ==> (#[trigger] grid@[r])@.len() == ncols,
    ensures
        cells@.len() == min_int(num_images as int, grid@.len() * ncols),
        forall|k: int|
            0 <= k < cells@.len() ==> #[trigger] cells@[k] == grid_cell(
                grid@.map_values(|row: Vec<Rect>| row@),
                ncols as nat,
                k,
            ),
{
    let ghost g = grid@.map_values(|row: Vec<Rect>| row@);
    let mut cells: Vec<GalleryCell> = Vec::new();
    let mut idx: usize = 0;
    let mut r: usize = 0;
    while r < grid.len()
        invariant
            r <= grid@.len(),
            g == grid@.map_values(|row: Vec<Rect>| row@),
            forall|r: int| 0 <= r < grid@.len() ==> (#[trigger] grid@[r])@.len() == ncols,
            idx == cells@.len(),
            idx == min_int(num_images as int, r * ncols),
            forall|k: int|
                0 <= k < cells@.len() ==> #[trigger] cells@[k] == grid_cell(g, ncols as nat, k),
        decreases grid@.len() - r,
    {
        let row = &grid[r];
        let mut c: usize = 0;
        while c < row.len() && idx < num_images
            invariant
                r < grid@.len(),
                row@ == g[r as int],
                row@.len() == ncols,
                c <= ncols,
                idx == cells@.len(),
                idx <= num_images,
                idx == if r * ncols >= num_images {
                    num_images as int
                } else {
                    r * ncols + c
                },
                r * ncols >= num_images ==> c == 0,
                forall|k: int|
                    0 <= k < cells@.len() ==> #[trigger] cells@[k] == grid_cell(
                        g,
                        ncols as nat,
                        k,
                    ),
            decreases ncols - c,
        {
            proof {
                vstd::arithmetic::div_mod::lemma_fundamental_div_mod_converse(
                    idx as int,
                    ncols as int,
                    r as int,
                    c as int,
                );
            }
            cells.push(GalleryCell { index: idx, row: r, col: c, area: row[c] });
            idx = idx + 1;
            c = c + 1;
        }
        proof {
            assert((r + 1) * ncols == r * ncols + ncols) by (nonlinear_arith);
        }
        r = r + 1;
    }
    cells
}

impl Ui {
    /// The state before anything is drawn: grid cells of 30 x 12 cells, the
    /// first image selected, nothing scrolled.
    pub fn new() -> (ui: Ui)
        ensures
            ui == initial_ui(),
    {
        let grid_cell_width: usize = 30;
        let grid_cell_height: usize = 12;
        Ui {
            scroll_offset: 0,
            current_selected_img_idx: 0,
            num_horizontal_grid_cells: 0,
            num_vertical_grid_cells: 0,
            grid_cell_width: grid_cell_width,
            grid_cell_height: grid_cell_height,
            visible_rows_under_selected_image: 0,
            gallery_cursor: GalleryCursor {
                area: Rect::new(0, 0, grid_cell_width as u16, grid_cell_height as u16),
                col: 0,
                row: 0,
            },
        }
    }

    fn update_gallery_cursor(&mut self, area: &Rect, row_idx: usize, col_idx: usize)
        ensures
            final(self).gallery_cursor.area == *area,
            final(self).gallery_cursor.row == row_idx as u16,
            final(self).gallery_cursor.col == col_idx as u16,
            final(self).scroll_offset == old(self).scroll_offset,
            final(self).current_selected_img_idx == old(self).current_selected_img_idx,
            final(self).num_horizontal_grid_cells == old(self).num_horizontal_grid_cells,
            final(self).num_vertical_grid_cells == old(self).num_vertical_grid_cells,
            final(self).grid_cell_width == old(self).grid_cell_width,
            final(self).grid_cell_height == old(self).grid_cell_height,
            final(self).visible_rows_under_selected_image
                == old(self).visible_rows_under_selected_image,
    {
        self.gallery_cursor.area = *area;
        self.gallery_cursor.row = row_idx as u16;
        self.gallery_cursor.col = col_idx as u16;
    }

    /// Lays the gallery out for a window `win_cols` cells wide, `num_images`
    /// images and the screen area `area`: the grid's size (remembered), the
    /// content area (one column narrower when a scrollbar is needed), each
    /// image's cell, and the cursor moved to the selected image's cell.
    pub fn plan_gallery(&mut self, win_cols: u16, num_images: usize, area: &Rect) -> (plan:
        GalleryPlan)
        requires
            (old(self).grid_cell_width as u16) > 0,
            grid_cols(win_cols, old(self).grid_cell_width) > 0,
            (num_images as u16) + grid_cols(win_cols, old(self).grid_cell_width) <= u16::MAX,
            grid_rows(num_images, grid_cols(win_cols, old(self).grid_cell_width)) * (old(
                self,
            ).grid_cell_height as u16) <= u16::MAX,
        ensures
            ({
                let nh = grid_cols(win_cols, old(self).grid_cell_width);
                let nv = grid_rows(num_images, nh);
                let gw = old(self).grid_cell_width as u16;
                let gh = old(self).grid_cell_height as u16;
                let total = nv * gh;
                let scrollbar = old(self).scroll_offset != 0 || total > area.height;
                let content = Rect {
                    x: 0,
                    y: 0,
                    width: if scrollbar {
                        (win_cols - 1) as u16
                    } else {
                        win_cols
                    },
                    height: total as u16,
                };
                let grid = layout_grid(content, nv as nat, nh as nat, gw, gh);
                let sel = old(self).current_selected_img_idx as int;
                &&& final(self).num_horizontal_grid_cells == nh
                &&& final(self).num_vertical_grid_cells == nv
                &&& plan.content_height == total
                &&& plan.scrollbar_needed == scrollbar
                &&& plan.content_area == content
                &&& plan.cells@.len() == min_int(num_images as int, nv * nh)
                &&& forall|k: int|
                    0 <= k < plan.cells@.len() ==> #[trigger] plan.cells@[k] == grid_cell(
                        grid,
                        nh as nat,
                        k,
                    )
                &&& nh * gw <= content.width ==> forall|k: int|
                    0 <= k < plan.cells@.len() ==> (#[trigger] plan.cells@[k]).area == grid_rect(
                        k / nh,
                        k % nh,
                        gw,
                        gh,
                    )
                &&& sel < plan.cells@.len() ==> final(self).gallery_cursor.area == plan.cells@[sel].area
                    && final(self).gallery_cursor.row == (sel / nh) as u16
                    && final(self).gallery_cursor.col == (sel % nh) as u16
                &&& sel >= plan.cells@.len() ==> final(self).gallery_cursor == old(
                    self,
                ).gallery_cursor
                &&& final(self).scroll_offset == old(self).scroll_offset
                &&& final(self).current_selected_img_idx == old(self).current_selected_img_idx
                &&& final(self).grid_cell_width == old(self).grid_cell_width
                &&& final(self).grid_cell_height == old(self).grid_cell_height
                &&& final(self).visible_rows_under_selected_image
                    == old(self).visible_rows_under_selected_image
            }),
    {
        let gw = self.grid_cell_width as u16;
        let gh = self.grid_cell_height as u16;
        let num_horizontal_grid_cells: u16 = win_cols / gw;
        let num_vertical_grid_cells: u16 = ((num_images as u16) + num_horizontal_grid_cells - 1)
            / num_horizontal_grid_cells;
        self.num_horizontal_grid_cells = num_horizontal_grid_cells as usize;
        self.num_vertical_grid_cells = num_vertical_grid_cells as usize;
        let tot_content_height = num_vertical_grid_cells * gh;
        let tot_content_area = Rect::new(0, 0, win_cols, tot_content_height);
        let scrollbar_needed = self.scroll_offset != 0 || tot_content_height > area.height;
        let content_area = if scrollbar_needed {
            Rect {
                x: tot_content_area.x,
                y: tot_content_area.y,
                width: tot_content_area.width - 1,
                height: tot_content_area.height,
            }
        } else {
            tot_content_area
        };
        let rows = split_lengths(true, gh, num_vertical_grid_cells as usize, content_area);
        assert(lengths_fit(true, gh, num_vertical_grid_cells as nat, content_area));
        let ghost nh = num_horizontal_grid_cells as nat;
        let ghost nv = num_vertical_grid_cells as nat;
        let ghost grid = layout_grid(content_area, nv, nh, gw, gh);
        let mut grid_rects: Vec<Vec<Rect>> = Vec::new();
        let mut r: usize = 0;
        while r < rows.len()
            invariant
                r <= rows@.len(),
                rows@.len() == nv,
                nh == num_horizontal_grid_cells as nat,
                nv == num_vertical_grid_cells as nat,
                rows@ == spec_layout_split_lengths(true, gh, nv, content_area),
                grid == layout_grid(content_area, nv, nh, gw, gh),
                grid_rects@.len() == r,
                forall|i: int|
                    0 <= i < r ==> (#[trigger] grid_rects@[i])@ == grid[i] && grid_rects@[i]@.len()
                        == nh,
                forall|i: int|
                    0 <= i < nv ==> (#[trigger] rows@[i]).y == i * gh && rows@[i].height == gh
                        && rows@[i].x == content_area.x && rows@[i].width == content_area.width,
                content_area.x == 0,
                lengths_fit(false, gw, nh, content_area) ==> forall|i: int, c: int|
                    0 <= i < r && 0 <= c < nh ==> #[trigger] grid[i][c] == grid_rect(i, c, gw, gh),
            decreases rows@.len() - r,
        {
            let cols = split_lengths(false, gw, num_horizontal_grid_cells as usize, rows[r]);
            assert(grid[r as int] == cols@);
            assert(lengths_fit(false, gw, nh, content_area) ==> forall|c: int|
                0 <= c < nh ==> #[trigger] grid[r as int][c] == grid_rect(r as int, c, gw, gh));
            grid_rects.push(cols);
            r = r + 1;
        }
        let cells = assign_gallery_cells(
            &grid_rects,
            num_horizontal_grid_cells as usize,
            num_images,
        );
        assert(grid_rects@.map_values(|row: Vec<Rect>| row@) =~= grid);
        proof {
            let nhi = nh as int;
            let nvi = nv as int;
            if nh * gw <= content_area.width {
                assert forall|k: int| 0 <= k < cells@.len() implies (#[trigger] cells@[k]).area
                    == grid_rect(k / nhi, k % nhi, gw, gh) by {
                    assert(k < nvi * nhi);
                    assert(0 <= k / nhi < nvi && 0 <= k % nhi < nhi) by (nonlinear_arith)
                        requires
                            0 <= k < nvi * nhi,
                            nhi > 0,
                    ;
                }
            }
        }
        let sel = self.current_selected_img_idx;
        if sel < cells.len() {
            let cell = cells[sel];
            self.update_gallery_cursor(&cell.area, cell.row, cell.col);
        }
        GalleryPlan {
            content_area: content_area,
            content_height: tot_content_height,
            scrollbar_needed: scrollbar_needed,
            cells: cells,
        }
    }

    /// The cells of the gallery's content (`content_len` cells, row by row)
    /// that `area` shows: after skipping `scroll_offset` rows of the area's
    /// width, at most as many as the area holds, each with its offset in the
    /// area (computed, as the drawing does, from the position's low 16 bits).
    pub fn visible_content(&self, area: &Rect, content_len: usize) -> (cells: Vec<VisibleCell>)
        requires
            area.width * self.scroll_offset <= u16::MAX,
        ensures
            ({
                let skip = area.width * self.scroll_offset;
                let count = min_int(
                    area.width * area.height,
                    if content_len > skip {
                        content_len - skip
                    } else {
                        0
                    },
                );
                &&& cells@.len() == count
                &&& forall|k: int|
                    0 <= k < count ==> #[trigger] cells@[k] == (VisibleCell {
                        source: (skip + k) as usize,
                        dx: ((k as u16) % area.width) as u16,
                        dy: ((k as u16) / area.width) as u16,
                    })
            }),
    {
        let skip = (area.width * self.scroll_offset) as usize;
        let total = area.area() as usize;
        let available = if content_len > skip {
            content_len - skip
        } else {
            0
        };
        let count = if total < available {
            total
        } else {
            available
        };
        let mut cells: Vec<VisibleCell> = Vec::new();
        let mut i: usize = 0;
        while i < count
            invariant
                i <= count,
                count <= total,
                total == area.width * area.height,
                cells@.len() == i,
                forall|k: int|
                    0 <= k < i ==> #[trigger] cells@[k] == (VisibleCell {
                        source: (skip + k) as usize,
                        dx: ((k as u16) % area.width) as u16,
                        dy: ((k as u16) / area.width) as u16,
                    }),
                count == 0 || skip + count <= content_len,
            decreases count - i,
        {
            assert(area.width > 0) by (nonlinear_arith)
                requires
                    i < area.width * area.height,
                    area.width >= 0,
                    area.height >= 0,
            ;
            let pos = i as u16;
            cells.push(VisibleCell { source: skip + i, dx: pos % area.width, dy: pos / area.width });
            i = i + 1;
        }
        cells
    }

    /// The length of the scrollbar's content: the height of all rows but
    /// the last.
    pub fn scrollbar_content_length(&self) -> (len: usize)
        requires
            (self.num_vertical_grid_cells as u16) >= 1,
            ((self.num_vertical_grid_cells as u16) - 1) * (self.grid_cell_height as u16)
                <= u16::MAX,
        ensures
            len == ((self.num_vertical_grid_cells as u16) - 1) * (self.grid_cell_height as u16),
    {
        (((self.num_vertical_grid_cells as u16) - 1) * (self.grid_cell_height as u16)) as usize
    }

    /// Remembers how many rows of `area_height` lie below the row of the
    /// selected image.
    pub fn update_visible_rows_under_selected_image(&mut self, area_height: u16)
        requires
            old(self).num_horizontal_grid_cells > 0,
            old(self).current_selected_img_idx / old(self).num_horizontal_grid_cells < usize::MAX,
            ((old(self).current_selected_img_idx / old(self).num_horizontal_grid_cells + 1) as u16)
                * (old(self).grid_cell_height as u16) <= u16::MAX,
        ensures
            final(self).visible_rows_under_selected_image == u16_sat_sub(
                area_height as int,
                ((old(self).current_selected_img_idx / old(self).num_horizontal_grid_cells
                    + 1) as u16) * (old(self).grid_cell_height as u16),
            ),
            final(self).scroll_offset == old(self).scroll_offset,
            final(self).current_selected_img_idx == old(self).current_selected_img_idx,
            final(self).num_horizontal_grid_cells == old(self).num_horizontal_grid_cells,
            final(self).num_vertical_grid_cells == old(self).num_vertical_grid_cells,
            final(self).grid_cell_width == old(self).grid_cell_width,
            final(self).grid_cell_height == old(self).grid_cell_height,
            final(self).gallery_cursor == old(self).gallery_cursor,
    {
        let current_selected_row = self.current_selected_img_idx / self.num_horizontal_grid_cells
            + 1;
        self.visible_rows_under_selected_image = area_height.saturating_sub(
            current_selected_row as u16 * self.grid_cell_height as u16,
        );
    }
}

/// With fewer than 65536 images, the grid has a cell for every image: the
/// rows times the images per row are at least the images.
pub proof fn lemma_grid_holds_all_images(num_images: usize, nh: int)
    requires
        nh > 0,
        num_images <= u16::MAX,
        num_images + nh <= u16::MAX,
    ensures
        grid_rows(num_images, nh) * nh >= num_images,
        min_int(num_images as int, grid_rows(num_images, nh) * nh) == num_images,
{
    let a = num_images + nh - 1;
    assert((num_images as u16) as int == num_images);
    vstd::arithmetic::div_mod::lemma_fundamental_div_mod(a, nh);
    vstd::arithmetic::div_mod::lemma_mod_bound(a, nh);
    vstd::arithmetic::mul::lemma_mul_is_commutative(nh, a / nh);
    assert(grid_rows(num_images, nh) == a / nh);
}

/// A row holds as many grid cells as fit in the window's width: they fit,
/// and one more would not.
pub proof fn lemma_grid_cols_most(win_cols: u16, gw: usize)
    requires
        0 < gw <= u16::MAX,
    ensures
        grid_cols(win_cols, gw) * gw <= win_cols,
        (grid_cols(win_cols, gw) + 1) * gw > win_cols,
{
    let g = gw as u16;
    assert(g as int == gw);
    let q = (win_cols / g) as int;
    vstd::arithmetic::div_mod::lemma_fundamental_div_mod(win_cols as int, gw as int);
    vstd::arithmetic::div_mod::lemma_mod_bound(win_cols as int, gw as int);
    assert(q * gw <= win_cols && (q + 1) * gw > win_cols) by (nonlinear_arith)
        requires
            q == (win_cols as int) / (gw as int),
            win_cols == (gw as int) * ((win_cols as int) / (gw as int)) + (win_cols as int) % (gw as int),
            0 <= (win_cols as int) % (gw as int) < gw,
    ;
}

/// The grid has the fewest rows that hold all images: enough rows for every
/// image, and one row fewer would not be enough (none without images).
pub proof fn lemma_grid_rows_fewest(num_images: usize, nh: int)
    requires
        nh > 0,
        num_images <= u16::MAX,
    ensures
        grid_rows(num_images, nh) * nh >= num_images,
        num_images > 0 ==> (grid_rows(num_images, nh) - 1) * nh < num_images,
        num_images == 0 ==> grid_rows(num_images, nh) == 0,
{
    let n = num_images as int;
    assert((num_images as u16) as int == n);
    let a = n + nh - 1;
    let q = a / nh;
    assert(grid_rows(num_images, nh) == q);
    vstd::arithmetic::div_mod::lemma_fundamental_div_mod(a, nh);
    vstd::arithmetic::div_mod::lemma_mod_bound(a, nh);
    assert(q * nh >= n && (q - 1) * nh < n + (if n == 0 { nh } else { 0 })) by (nonlinear_arith)
        requires
            a == n + nh - 1,
            a == nh * q + a % nh,
            0 <= a % nh < nh,
            nh > 0,
            n >= 0,
    ;
    if n == 0 {
        assert(q == 0) by (nonlinear_arith)
            requires
                a == nh - 1,
                a == nh * q + a % nh,
                0 <= a % nh < nh,
                nh > 0,
        ;
    }
}

/// The title drawn under the gallery cursor: the image's file name, or its
/// whole path when the path has no last component.
pub fn gallery_cursor_title(img_path: &String) -> (title: String)
    ensures
        title@ == match spec_path_file_name(img_path@) {
            Some(name) => name,
            None => img_path@,
        },
{
    match path_file_name(img_path.as_str()) {
        Some(name) => name,
        None => img_path.clone(),
    }
}

impl Default for GalleryCursor {
    fn default() -> (c: GalleryCursor)
        ensures
            c.area == (Rect { x: 0, y: 0, width: 0, height: 0 }),
            c.col == 0,
            c.row == 0,
    {
        GalleryCursor { area: Rect::default(), col: 0, row: 0 }
    }
}

impl Default for Ui {
    fn default() -> (ui: Ui)
        ensures
            ui.scroll_offset == 0,
            ui.current_selected_img_idx == 0,
            ui.num_horizontal_grid_cells == 0,
            ui.num_vertical_grid_cells == 0,
            ui.grid_cell_width == 0,
            ui.grid_cell_height == 0,
            ui.visible_rows_under_selected_image == 0,
            ui.gallery_cursor.area == (Rect { x: 0, y: 0, width: 0, height: 0 }),
            ui.gallery_cursor.col == 0,
            ui.gallery_cursor.row == 0,
    {
        Ui {
            scroll_offset: 0,
            current_selected_img_idx: 0,
            num_horizontal_grid_cells: 0,
            num_vertical_grid_cells: 0,
            grid_cell_width: 0,
            grid_cell_height: 0,
            visible_rows_under_selected_image: 0,
            gallery_cursor: GalleryCursor::default(),
        }
    }
}

} // verus!
