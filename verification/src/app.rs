//! The viewer's state between frames and how key presses change it: the
//! shown image, the gallery selection, scrolling and the display mode; and
//! which paths the viewer shows.
use vstd::prelude::*;
use vstd::string::StringExecFns;

use crate::stiv_event::StivEvent;
use crate::stiv_image::sat_add_u16;
use crate::text::tail_equals;
use crate::ui::{initial_ui, Ui};

verus! {

#[derive(Clone, Copy, Debug, PartialEq, Eq, Structural)]
pub enum Mode {
    SingleImage,
    GalleryView,
}

/// The widget that draws the whole viewer.
pub struct AppWidget;

/// A key the viewer reads.
#[derive(Clone, Copy, Debug, PartialEq, Eq, Structural)]
pub enum KeyInput {
    Char(char),
    Enter,
    Other,
}

/// What the terminal reports.
#[derive(Clone, Copy, Debug, PartialEq, Eq, Structural)]
pub enum InputEvent {
    Key(KeyInput),
    Resize(u16, u16),
    Other,
}

/// What the caller does after an event, besides drawing the next frame.
#[derive(Clone, Copy, Debug, PartialEq, Eq, Structural)]
pub enum EventAction {
    Nothing,
    /// Zoom in on the image at this position of the path list: its zoom
    /// factor grows by a quarter.
    ZoomIn(usize),
}

/// Why the viewer cannot start.
pub enum AppError {
    /// The path (given as text when it can be) holds no images.
    NoImages(Option<String>),
}

impl AppError {
    /// The message shown for the error.
    pub fn message(&self) -> (m: String)
        ensures
            m@ == match self {
                AppError::NoImages(None) => "Path does not contain any images"@,
                AppError::NoImages(Some(p)) => "Path does not contain any images"@ + ": "@ + p@,
            },
    {
        let mut m = <String as StringExecFns>::from_str("Path does not contain any images");
        match self {
            AppError::NoImages(Some(p)) => {
                m.append(": ");
                m.append(p.as_str());
            },
            AppError::NoImages(None) => {},
        }
        m
    }
}

pub struct App {
    exit: bool,
    pub current_mode: Mode,
    pub image_paths: Vec<String>,
    pub ui: Ui,
    pub current_event: StivEvent,
}

pub struct AppView {
    pub exit: bool,
    pub current_mode: Mode,
    pub image_paths: Seq<Seq<char>>,
    pub ui: Ui,
    pub current_event: StivEvent,
}

impl View for App {
    type V = AppView;

    closed spec fn view(&self) -> AppView {
        AppView {
            exit: self.exit,
            current_mode: self.current_mode,
            image_paths: self.image_paths@.map_values(|p: String| p@),
            ui: self.ui,
            current_event: self.current_event,
        }
    }
}

pub open spec fn sat_add_usize(a: usize, b: usize) -> usize {
    if a + b > usize::MAX {
        usize::MAX
    } else {
        (a + b) as usize
    }
}

pub open spec fn sat_sub_usize(a: usize, b: usize) -> usize {
    if a > b {
        (a - b) as usize
    } else {
        0
    }
}

pub open spec fn sat_sub_u16(a: u16, b: u16) -> u16 {
    if a > b {
        (a - b) as u16
    } else {
        0
    }
}

/// Moving the gallery selection one image left, unless it is at the start of
/// a row.
pub open spec fn nav_left(ui: Ui) -> Ui {
    if ui.current_selected_img_idx % ui.num_horizontal_grid_cells == 0 {
        ui
    } else {
        Ui { current_selected_img_idx: sat_sub_usize(ui.current_selected_img_idx, 1), ..ui }
    }
}

/// Moving the gallery selection one image right, unless it is at the end of
/// a row.
pub open spec fn nav_right(ui: Ui) -> Ui {
    if ui.current_selected_img_idx % ui.num_horizontal_grid_cells == ui.num_horizontal_grid_cells
        - 1 {
        ui
    } else {
        Ui { current_selected_img_idx: sat_add_usize(ui.current_selected_img_idx, 1), ..ui }
    }
}

/// Moving the gallery selection one row down, unless it is in the last row
/// of the `loaded` images; the gallery scrolls by what the selected image's
/// row lacks of being visible.
pub open spec fn nav_down(ui: Ui, loaded: usize) -> Ui {
    let nh = ui.num_horizontal_grid_cells;
    if ui.current_selected_img_idx >= loaded - nh {
        ui
    } else {
        let moved = Ui { current_selected_img_idx: (ui.current_selected_img_idx + nh) as usize, ..ui };
        let gh = ui.grid_cell_height as u16;
        if ui.visible_rows_under_selected_image < gh {
            Ui {
                scroll_offset: sat_add_u16(
                    ui.scroll_offset as int,
                    gh - ui.visible_rows_under_selected_image,
                ),
                ..moved
            }
        } else {
            moved
        }
    }
}

/// Moving the gallery selection one row up, unless it is in the first row;
/// the gallery scrolls back when the cursor's row is not wholly visible.
pub open spec fn nav_up(ui: Ui) -> Ui {
    let nh = ui.num_horizontal_grid_cells;
    if ui.current_selected_img_idx < nh {
        ui
    } else {
        let moved = Ui { current_selected_img_idx: (ui.current_selected_img_idx - nh) as usize, ..ui };
        let above = ui.gallery_cursor.area.y - ui.scroll_offset;
        let gh = ui.grid_cell_height as u16;
        if above < ui.gallery_cursor.area.height {
            Ui { scroll_offset: sat_sub_u16(ui.scroll_offset, (gh - above) as u16), ..moved }
        } else {
            moved
        }
    }
}

/// Moving up does not underflow: the cursor is not above the scrolled part,
/// and a cursor row cut off at the top is cut by at most a grid row.
pub open spec fn can_nav_up(ui: Ui) -> bool {
    ui.current_selected_img_idx >= ui.num_horizontal_grid_cells ==> {
        &&& ui.gallery_cursor.area.y >= ui.scroll_offset
        &&& ui.gallery_cursor.area.y - ui.scroll_offset < ui.gallery_cursor.area.height ==> ui.gallery_cursor.area.y
            - ui.scroll_offset <= ui.grid_cell_height as u16
    }
}

pub open spec fn with_ui(s: AppView, ui: Ui) -> AppView {
    AppView { ui, ..s }
}

pub open spec fn toggled(m: Mode) -> Mode {
    if m == Mode::GalleryView {
        Mode::SingleImage
    } else {
        Mode::GalleryView
    }
}

/// The state after `event`, with `loaded` images loaded, and what the caller
/// does next.
pub open spec fn step(s: AppView, event: InputEvent, loaded: usize) -> (AppView, EventAction) {
    let gallery = s.current_mode == Mode::GalleryView;
    let single = s.current_mode == Mode::SingleImage;
    let idx = s.ui.current_selected_img_idx;
    match event {
        InputEvent::Key(KeyInput::Char(c)) => {
            if c == 'q' {
                (AppView { exit: true, ..s }, EventAction::Nothing)
            } else if c == 'h' {
                (if gallery {
                    with_ui(s, nav_left(s.ui))
                } else {
                    s
                }, EventAction::Nothing)
            } else if c == 'j' {
                (if gallery {
                    with_ui(s, nav_down(s.ui, loaded))
                } else {
                    s
                }, EventAction::Nothing)
            } else if c == 'k' {
                (if gallery {
                    with_ui(s, nav_up(s.ui))
                } else {
                    s
                }, EventAction::Nothing)
            } else if c == 'l' {
                (if gallery {
                    with_ui(s, nav_right(s.ui))
                } else {
                    s
                }, EventAction::Nothing)
            } else if c == 'n' {
                (if single && idx < s.image_paths.len() {
                    with_ui(s, Ui { current_selected_img_idx: sat_add_usize(idx, 1), ..s.ui })
                } else {
                    s
                }, EventAction::Nothing)
            } else if c == 'p' {
                (if single {
                    with_ui(s, Ui { current_selected_img_idx: sat_sub_usize(idx, 1), ..s.ui })
                } else {
                    s
                }, EventAction::Nothing)
            } else if c == '+' {
                if single {
                    (AppView { current_event: StivEvent::ZoomIn, ..s }, EventAction::ZoomIn(idx))
                } else {
                    (s, EventAction::Nothing)
                }
            } else {
                (s, EventAction::Nothing)
            }
        },
        InputEvent::Key(KeyInput::Enter) => (
            AppView {
                current_mode: toggled(s.current_mode),
                current_event: StivEvent::ToggleMode,
                ..s
            },
            EventAction::Nothing,
        ),
        InputEvent::Key(KeyInput::Other) => (s, EventAction::Nothing),
        InputEvent::Resize(_, _) => (
            AppView { current_event: StivEvent::TermResize, ..s },
            EventAction::Nothing,
        ),
        InputEvent::Other => (s, EventAction::Nothing),
    }
}

/// The events that the viewer handles without a panic: in the gallery a
/// horizontal move needs a grid width, a move down at least a row of loaded
/// images, a move up a cursor within the scrolled content; zooming needs the
/// selected image to exist.
pub open spec fn step_ok(s: AppView, event: InputEvent, loaded: usize) -> bool {
    let gallery = s.current_mode == Mode::GalleryView;
    let single = s.current_mode == Mode::SingleImage;
    match event {
        InputEvent::Key(KeyInput::Char(c)) => {
            &&& (c == 'h' || c == 'l') && gallery ==> s.ui.num_horizontal_grid_cells > 0
            &&& c == 'j' && gallery ==> loaded >= s.ui.num_horizontal_grid_cells
            &&& c == 'k' && gallery ==> can_nav_up(s.ui)
            &&& c == '+' && single ==> s.ui.current_selected_img_idx < s.image_paths.len()
        },
        _ => true,
    }
}

proof fn lemma_div_mod_parts(i: int, n: int)
    requires
        n > 0,
        i >= 0,
    ensures
        i == (i / n) * n + i % n,
        0 <= i % n < n,
{
    vstd::arithmetic::div_mod::lemma_fundamental_div_mod(i, n);
    vstd::arithmetic::mul::lemma_mul_is_commutative(n, i / n);
    vstd::arithmetic::div_mod::lemma_mod_bound(i, n);
}

/// In the gallery, moving left and then right comes back to the same image,
/// unless the first move was blocked at the start of a row.
pub proof fn lemma_left_then_right(ui: Ui)
    requires
        ui.num_horizontal_grid_cells > 0,
        ui.current_selected_img_idx % ui.num_horizontal_grid_cells != 0,
    ensures
        nav_right(nav_left(ui)) == ui,
{
    let n = ui.num_horizontal_grid_cells as int;
    let i = ui.current_selected_img_idx as int;
    lemma_div_mod_parts(i, n);
    vstd::arithmetic::div_mod::lemma_fundamental_div_mod_converse(i - 1, n, i / n, i % n - 1);
}

/// In the gallery, moving right and then left comes back to the same image,
/// unless the first move was blocked at the end of a row (or by the largest
/// index).
pub proof fn lemma_right_then_left(ui: Ui)
    requires
        ui.num_horizontal_grid_cells > 0,
        ui.current_selected_img_idx % ui.num_horizontal_grid_cells
            != ui.num_horizontal_grid_cells - 1,
        ui.current_selected_img_idx < usize::MAX,
    ensures
        nav_left(nav_right(ui)) == ui,
{
    let n = ui.num_horizontal_grid_cells as int;
    let i = ui.current_selected_img_idx as int;
    lemma_div_mod_parts(i, n);
    vstd::arithmetic::div_mod::lemma_fundamental_div_mod_converse(i + 1, n, i / n, i % n + 1);
}

/// Moving left or right keeps the selection in its row of the grid.
pub proof fn lemma_horizontal_moves_keep_row(ui: Ui)
    requires
        ui.num_horizontal_grid_cells > 0,
        ui.current_selected_img_idx < usize::MAX,
    ensures
        nav_left(ui).current_selected_img_idx / ui.num_horizontal_grid_cells
            == ui.current_selected_img_idx / ui.num_horizontal_grid_cells,
        nav_right(ui).current_selected_img_idx / ui.num_horizontal_grid_cells
            == ui.current_selected_img_idx / ui.num_horizontal_grid_cells,
{
    let n = ui.num_horizontal_grid_cells as int;
    let i = ui.current_selected_img_idx as int;
    lemma_div_mod_parts(i, n);
    if i % n != 0 {
        vstd::arithmetic::div_mod::lemma_fundamental_div_mod_converse(i - 1, n, i / n, i % n - 1);
    }
    if i % n != n - 1 {
        vstd::arithmetic::div_mod::lemma_fundamental_div_mod_converse(i + 1, n, i / n, i % n + 1);
    }
}

/// Moving up or down keeps the selection in its column of the grid, and
/// each move that is not blocked changes the row by one.
pub proof fn lemma_vertical_moves_keep_column(ui: Ui, loaded: usize)
    requires
        ui.num_horizontal_grid_cells > 0,
        loaded >= ui.num_horizontal_grid_cells,
    ensures
        nav_down(ui, loaded).current_selected_img_idx % ui.num_horizontal_grid_cells
            == ui.current_selected_img_idx % ui.num_horizontal_grid_cells,
        nav_up(ui).current_selected_img_idx % ui.num_horizontal_grid_cells
            == ui.current_selected_img_idx % ui.num_horizontal_grid_cells,
        nav_down(ui, loaded).current_selected_img_idx != ui.current_selected_img_idx ==> nav_down(
            ui,
            loaded,
        ).current_selected_img_idx / ui.num_horizontal_grid_cells
            == ui.current_selected_img_idx / ui.num_horizontal_grid_cells + 1,
        nav_up(ui).current_selected_img_idx != ui.current_selected_img_idx ==> nav_up(
            ui,
        ).current_selected_img_idx / ui.num_horizontal_grid_cells + 1
            == ui.current_selected_img_idx / ui.num_horizontal_grid_cells,
{
    let n = ui.num_horizontal_grid_cells as int;
    let i = ui.current_selected_img_idx as int;
    lemma_div_mod_parts(i, n);
    if i < loaded - n {
        assert(i + n == (i / n + 1) * n + i % n) by (nonlinear_arith)
            requires
                i == (i / n) * n + i % n,
        ;
        vstd::arithmetic::div_mod::lemma_fundamental_div_mod_converse(i + n, n, i / n + 1, i % n);
    }
    if i >= n {
        assert(i - n == (i / n - 1) * n + i % n) by (nonlinear_arith)
            requires
                i == (i / n) * n + i % n,
        ;
        vstd::arithmetic::div_mod::lemma_fundamental_div_mod_converse(i - n, n, i / n - 1, i % n);
    }
}

/// Moving down and then up comes back to the same image, unless the move
/// down was blocked in the last row.
pub proof fn lemma_down_then_up(ui: Ui, loaded: usize)
    requires
        loaded >= ui.num_horizontal_grid_cells,
        ui.current_selected_img_idx < loaded - ui.num_horizontal_grid_cells,
    ensures
        nav_up(nav_down(ui, loaded)).current_selected_img_idx == ui.current_selected_img_idx,
{
}

/// Moving up and then down comes back to the same image, unless the move up
/// was blocked in the first row.
pub proof fn lemma_up_then_down(ui: Ui, loaded: usize)
    requires
        ui.num_horizontal_grid_cells <= ui.current_selected_img_idx < loaded,
    ensures
        nav_down(nav_up(ui), loaded).current_selected_img_idx == ui.current_selected_img_idx,
{
}

/// Moving down in the gallery never scrolls back. When the selection moves a
/// row down, the view scrolls down by exactly what the selected row lacked of
/// being visible (stopping at the largest offset), or not at all when the
/// row was whole; when the selection cannot move, nothing changes.
pub proof fn lemma_down_scrolls_forward(ui: Ui, loaded: usize)
    requires
        loaded >= ui.num_horizontal_grid_cells,
    ensures
        nav_down(ui, loaded).scroll_offset >= ui.scroll_offset,
        ({
            let d = nav_down(ui, loaded);
            let gh = ui.grid_cell_height as u16;
            let vis = ui.visible_rows_under_selected_image;
            if ui.current_selected_img_idx + ui.num_horizontal_grid_cells < loaded {
                &&& d.current_selected_img_idx == ui.current_selected_img_idx
                    + ui.num_horizontal_grid_cells
                &&& vis < gh ==> d.scroll_offset as int == if ui.scroll_offset + (gh - vis)
                    > 65535 {
                    65535
                } else {
                    ui.scroll_offset + (gh - vis)
                }
                &&& vis >= gh ==> d.scroll_offset == ui.scroll_offset
            } else {
                d == ui
            }
        }),
{
}

/// Moving up in the gallery never scrolls down. When the selection moves a
/// row up and the cursor's row is cut off at the top, the view scrolls up by
/// what the row lacks (stopping at the top); else the offset stays.
pub proof fn lemma_up_scrolls_back(ui: Ui)
    requires
        can_nav_up(ui),
    ensures
        nav_up(ui).scroll_offset <= ui.scroll_offset,
        ({
            let u = nav_up(ui);
            let above = ui.gallery_cursor.area.y - ui.scroll_offset;
            let gh = ui.grid_cell_height as u16;
            if ui.current_selected_img_idx >= ui.num_horizontal_grid_cells {
                &&& u.current_selected_img_idx == ui.current_selected_img_idx
                    - ui.num_horizontal_grid_cells
                &&& above < ui.gallery_cursor.area.height ==> u.scroll_offset as int == if ui.scroll_offset
                    > gh - above {
                    ui.scroll_offset - (gh - above)
                } else {
                    0
                }
                &&& above >= ui.gallery_cursor.area.height ==> u.scroll_offset == ui.scroll_offset
            } else {
                u == ui
            }
        }),
{
}

/// In the gallery, the keys `h` and then `l` give the state back, unless the
/// selection starts a row: the viewer's handlers undo each other.
pub proof fn lemma_left_then_right_keys(s: AppView, loaded: usize)
    requires
        s.current_mode == Mode::GalleryView,
        s.ui.num_horizontal_grid_cells > 0,
        s.ui.current_selected_img_idx % s.ui.num_horizontal_grid_cells != 0,
    ensures
        step(s, InputEvent::Key(KeyInput::Char('h')), loaded).1 == EventAction::Nothing,
        step(
            step(s, InputEvent::Key(KeyInput::Char('h')), loaded).0,
            InputEvent::Key(KeyInput::Char('l')),
            loaded,
        ).0 == s,
{
    lemma_left_then_right(s.ui);
    let s1 = step(s, InputEvent::Key(KeyInput::Char('h')), loaded).0;
    assert(s1 == with_ui(s, nav_left(s.ui)));
    assert(step(s1, InputEvent::Key(KeyInput::Char('l')), loaded).0 == with_ui(s1, nav_right(s1.ui)));
}

/// In the gallery, the keys `k` and then `j` come back to the same image,
/// unless the selection is in the first row.
pub proof fn lemma_up_then_down_keys(s: AppView, loaded: usize)
    requires
        s.current_mode == Mode::GalleryView,
        s.ui.num_horizontal_grid_cells <= s.ui.current_selected_img_idx < loaded,
    ensures
        step(
            step(s, InputEvent::Key(KeyInput::Char('k')), loaded).0,
            InputEvent::Key(KeyInput::Char('j')),
            loaded,
        ).0.ui.current_selected_img_idx == s.ui.current_selected_img_idx,
{
    lemma_up_then_down(s.ui, loaded);
    let s1 = step(s, InputEvent::Key(KeyInput::Char('k')), loaded).0;
    assert(s1 == with_ui(s, nav_up(s.ui)));
}

/// Moving left, up or down keeps a selection that names one of the `loaded`
/// images within them.
pub proof fn lemma_moves_stay_within_loaded(ui: Ui, loaded: usize)
    requires
        ui.num_horizontal_grid_cells > 0,
        loaded >= ui.num_horizontal_grid_cells,
        ui.current_selected_img_idx < loaded,
    ensures
        nav_left(ui).current_selected_img_idx < loaded,
        nav_up(ui).current_selected_img_idx < loaded,
        nav_down(ui, loaded).current_selected_img_idx < loaded,
{
}

/// In single image mode, the next image and then the previous one come back
/// to the same image, unless the first step was blocked past the last path.
pub proof fn lemma_next_then_previous(s: AppView, loaded: usize)
    requires
        s.current_mode == Mode::SingleImage,
        s.ui.current_selected_img_idx < s.image_paths.len(),
        s.ui.current_selected_img_idx < usize::MAX,
    ensures
        step(step(s, InputEvent::Key(KeyInput::Char('n')), loaded).0, InputEvent::Key(KeyInput::Char('p')), loaded).0 == s,
{
    let s1 = step(s, InputEvent::Key(KeyInput::Char('n')), loaded).0;
    assert(s1.ui == Ui { current_selected_img_idx: (s.ui.current_selected_img_idx + 1) as usize, ..s.ui });
    let s2 = step(s1, InputEvent::Key(KeyInput::Char('p')), loaded).0;
    assert(s2.ui == s.ui);
}

/// Switching the mode twice gives the first mode back.
pub proof fn lemma_toggle_twice(s: AppView, loaded: usize)
    ensures
        step(step(s, InputEvent::Key(KeyInput::Enter), loaded).0, InputEvent::Key(KeyInput::Enter), loaded).0.current_mode == s.current_mode,
{
}

/// Every event but `q` leaves the viewer running, and `q` ends it.
pub proof fn lemma_only_q_quits(s: AppView, event: InputEvent, loaded: usize)
    requires
        !s.exit,
    ensures
        step(s, event, loaded).0.exit <==> event == InputEvent::Key(KeyInput::Char('q')),
{
}

/// An event never changes the list of paths, and only moves in single image
/// mode or in the gallery change the selection.
pub proof fn lemma_paths_unchanged(s: AppView, event: InputEvent, loaded: usize)
    ensures
        step(s, event, loaded).0.image_paths == s.image_paths,
{
}

/// The characters after the last `/` of `path` (all of it when it has none).
pub open spec fn last_segment(path: Seq<char>) -> Seq<char>
    decreases path.len(),
{
    if path.len() == 0 || path.last() == '/' {
        Seq::empty()
    } else {
        last_segment(path.drop_last()).push(path.last())
    }
}

/// The file name of a `/`-separated path, as `std::path::Path::file_name`
/// documents it: the last component once repeated and trailing separators
/// and `.` components are set aside; none when that component is `..`, or
/// when nothing but the root or `.` is left.
pub open spec fn spec_path_file_name(path: Seq<char>) -> Option<Seq<char>>
    decreases path.len(),
{
    if path.len() == 0 {
        None
    } else if path.last() == '/' {
        spec_path_file_name(path.drop_last())
    } else {
        let seg = last_segment(path);
        if seg == seq!['.'] {
            spec_path_file_name(path.drop_last())
        } else if seg == seq!['.', '.'] {
            None
        } else {
            Some(seg)
        }
    }
}

/// Calls `std::path::Path::new(path).file_name()`. Claimed: the result, as
/// text, is the file name that the documentation of `Path::file_name` and
/// `Path::components` gives for a path whose only separator is `/` (the Unix
/// targets this crate serves): repeated separators and a trailing one are
/// ignored, `.` components are normalized away, and a path that ends in `..`,
/// or has only a root or `.` left, has none. A component of a `str` path is
/// valid UTF-8, so the conversion to text loses nothing.
#[verifier::external_body]
pub(crate) fn path_file_name(path: &str) -> (res: Option<String>)
    ensures
        match res {
            Some(name) => spec_path_file_name(path@) == Some(name@),
            None => spec_path_file_name(path@) is None,
        },
{
    match std::path::Path::new(path).file_name() {
        Some(name) => Some(name.to_string_lossy().into_owned()),
        None => None,
    }
}

/// `d` is the position of the last `.` in `name`.
pub open spec fn is_last_dot(name: Seq<char>, d: int) -> bool {
    &&& 0 <= d < name.len()
    &&& name[d] == '.'
    &&& forall|j: int| d < j < name.len() ==> name[j] != '.'
}

/// The extension of a file name, as `Path::extension` documents it: the
/// part after the last `.`, unless there is no `.`, or the only `.` starts
/// the name, or the name is `..`.
pub open spec fn file_extension(name: Seq<char>) -> Option<Seq<char>> {
    if name == seq!['.', '.'] {
        None
    } else if exists|d: int| is_last_dot(name, d) && d > 0 {
        let d = choose|d: int| is_last_dot(name, d) && d > 0;
        Some(name.subrange(d + 1, name.len() as int))
    } else {
        None
    }
}

/// The extensions of the images the viewer shows.
pub open spec fn is_image_extension(ext: Seq<char>) -> bool {
    ext == seq!['j', 'p', 'g'] || ext == seq!['j', 'p', 'e', 'g'] || ext == seq!['p', 'n', 'g']
}

/// A file name with an image extension.
pub open spec fn is_image_file_name_spec(name: Seq<char>) -> bool {
    match file_extension(name) {
        Some(ext) => is_image_extension(ext),
        None => false,
    }
}

/// A path whose last component has an image extension.
pub open spec fn is_image_path(path: Seq<char>) -> bool {
    match spec_path_file_name(path) {
        Some(name) => is_image_file_name_spec(name),
        None => false,
    }
}

/// Whether the file name `name` ends in `.jpg`, `.jpeg` or `.png` (in lower
/// case), by the rules of `Path::extension`.
pub fn is_image_file_name(name: &str) -> (b: bool)
    ensures
        b == is_image_file_name_spec(name@),
{
    let chars = crate::text::str_chars(name);
    let n = chars.len();
    if n == 2 && chars[0] == '.' && chars[1] == '.' {
        assert(name@ =~= seq!['.', '.']);
        return false;
    }
    assert(name@ != seq!['.', '.']);
    let mut i: usize = n;
    while i > 0 && chars[i - 1] != '.'
        invariant
            i <= n,
            n == chars@.len(),
            chars@ == name@,
            forall|j: int| i <= j < n ==> chars@[j] != '.',
        decreases i,
    {
        i = i - 1;
    }
    if i <= 1 {
        // No `.`, or only a leading one: no extension.
        assert(!exists|d: int| is_last_dot(name@, d) && d > 0) by {
            if exists|d: int| is_last_dot(name@, d) && d > 0 {
                let d = choose|d: int| is_last_dot(name@, d) && d > 0;
                assert(name@[d] == '.');
            }
        }
        return false;
    }
    let d = i - 1;
    assert(is_last_dot(name@, d as int));
    assert forall|e: int| is_last_dot(name@, e) && e > 0 implies e == d by {
        if e < d {
            assert(name@[d as int] == '.');
        } else if e > d {
            assert(name@[e] == '.');
        }
    }
    assert(file_extension(name@) == Some(name@.subrange(i as int, n as int)));
    let jpg = tail_equals(&chars, i, &['j', 'p', 'g']);
    let jpeg = tail_equals(&chars, i, &['j', 'p', 'e', 'g']);
    let png = tail_equals(&chars, i, &['p', 'n', 'g']);
    assert(['j', 'p', 'g']@ =~= seq!['j', 'p', 'g']);
    assert(['j', 'p', 'e', 'g']@ =~= seq!['j', 'p', 'e', 'g']);
    assert(['p', 'n', 'g']@ =~= seq!['p', 'n', 'g']);
    jpg || jpeg || png
}

/// Whether `path` names an image: a last component ending in `.jpg`,
/// `.jpeg` or `.png`.
pub fn is_image(path: &str) -> (b: bool)
    ensures
        b == is_image_path(path@),
{
    match path_file_name(path) {
        Some(name) => is_image_file_name(name.as_str()),
        None => false,
    }
}

/// An entry of a directory listing: its full path and whether it is a
/// directory.
pub struct DirEntryInfo {
    pub path: String,
    pub is_dir: bool,
}

/// The paths of the entries that are image files, in listing order.
pub open spec fn image_entry_paths(entries: Seq<DirEntryInfo>) -> Seq<Seq<char>>
    decreases entries.len(),
{
    if entries.len() == 0 {
        Seq::empty()
    } else {
        let prev = image_entry_paths(entries.drop_last());
        let e = entries.last();
        if !e.is_dir && is_image_path(e.path@) {
            prev.push(e.path@)
        } else {
            prev
        }
    }
}

/// The images of a directory listing: the entries that are no directories
/// and whose names have an image extension, in listing order.
pub fn collect_image_paths(entries: &Vec<DirEntryInfo>) -> (paths: Vec<String>)
    ensures
        paths@.map_values(|p: String| p@) == image_entry_paths(entries@),
{
    let mut paths: Vec<String> = Vec::new();
    let mut i: usize = 0;
    while i < entries.len()
        invariant
            i <= entries@.len(),
            paths@.map_values(|p: String| p@) == image_entry_paths(entries@.subrange(0, i as int)),
        decreases entries@.len() - i,
    {
        let entry = &entries[i];
        let ghost before = paths@;
        assert(entries@.subrange(0, i + 1).drop_last() =~= entries@.subrange(0, i as int));
        if !entry.is_dir && is_image(entry.path.as_str()) {
            paths.push(entry.path.clone());
            assert(paths@.map_values(|p: String| p@) =~= before.map_values(|p: String| p@).push(
                entry.path@,
            ));
        }
        i = i + 1;
    }
    assert(entries@.subrange(0, entries@.len() as int) =~= entries@);
    paths
}

/// The images that a path given to the viewer stands for: the path itself
/// when it names an image, else the images of its directory listing
/// `entries`, in listing order.
pub fn image_paths_for(path: &str, entries: &Vec<DirEntryInfo>) -> (paths: Vec<String>)
    ensures
        is_image_path(path@) ==> paths@.map_values(|p: String| p@) == seq![path@],
        !is_image_path(path@) ==> paths@.map_values(|p: String| p@) == image_entry_paths(
            entries@,
        ),
{
    if is_image(path) {
        let mut paths: Vec<String> = Vec::new();
        paths.push(<String as StringExecFns>::from_str(path));
        assert(paths@.map_values(|p: String| p@) =~= seq![path@]);
        paths
    } else {
        collect_image_paths(entries)
    }
}

impl App {
    /// The viewer for `image_paths`: one image is shown alone, several in the
    /// gallery. Without images it cannot start; `path` is the searched path,
    /// as text, for the message.
    pub fn new(image_paths: Vec<String>, path: Option<String>) -> (res: Result<App, AppError>)
        ensures
            image_paths@.len() == 0 <==> res is Err,
            res matches Err(AppError::NoImages(p)) ==> p == path,
            res matches Ok(app) ==> app@ == (AppView {
                exit: false,
                current_mode: if image_paths@.len() == 1 {
                    Mode::SingleImage
                } else {
                    Mode::GalleryView
                },
                image_paths: image_paths@.map_values(|p: String| p@),
                ui: initial_ui(),
                current_event: StivEvent::NoEvent,
            }),
    {
        if image_paths.len() == 0 {
            return Err(AppError::NoImages(path));
        }
        let current_mode = if image_paths.len() == 1 {
            Mode::SingleImage
        } else {
            Mode::GalleryView
        };
        Ok(
            App {
                exit: false,
                current_mode: current_mode,
                image_paths: image_paths,
                ui: Ui::new(),
                current_event: StivEvent::NoEvent,
            },
        )
    }

    /// Whether the viewer is to quit.
    pub fn should_exit(&self) -> (b: bool)
        ensures
            b == self@.exit,
    {
        self.exit
    }

    /// Whether `handle_event` takes `event` without a panic: the arithmetic
    /// of a gallery move fits, and a zoomed image exists.
    pub fn can_handle(&self, event: InputEvent, num_loaded_images: usize) -> (b: bool)
        ensures
            b == step_ok(self@, event, num_loaded_images),
    {
        let gallery = self.current_mode == Mode::GalleryView;
        let ui = &self.ui;
        match event {
            InputEvent::Key(KeyInput::Char(c)) => {
                if (c == 'h' || c == 'l') && gallery {
                    ui.num_horizontal_grid_cells > 0
                } else if c == 'j' && gallery {
                    num_loaded_images >= ui.num_horizontal_grid_cells
                } else if c == 'k' && gallery {
                    if ui.current_selected_img_idx < ui.num_horizontal_grid_cells {
                        true
                    } else if ui.gallery_cursor.area.y < ui.scroll_offset {
                        false
                    } else {
                        let above = ui.gallery_cursor.area.y - ui.scroll_offset;
                        !(above < ui.gallery_cursor.area.height && above
                            > ui.grid_cell_height as u16)
                    }
                } else if c == '+' && !gallery {
                    ui.current_selected_img_idx < self.image_paths.len()
                } else {
                    true
                }
            },
            _ => true,
        }
    }

    /// Handles one event from the terminal, `num_loaded_images` being the
    /// number of images loaded so far.
    pub fn handle_event(&mut self, event: InputEvent, num_loaded_images: usize) -> (action:
        EventAction)
        requires
            step_ok(old(self)@, event, num_loaded_images),
        ensures
            (final(self)@, action) == step(old(self)@, event, num_loaded_images),
    {
        match event {
            InputEvent::Key(KeyInput::Char(c)) => {
                if c == 'q' {
                    self.exit = true;
                    EventAction::Nothing
                } else if c == 'h' {
                    self.handle_navigate_left();
                    EventAction::Nothing
                } else if c == 'j' {
                    self.handle_navigate_down(num_loaded_images);
                    EventAction::Nothing
                } else if c == 'k' {
                    self.handle_navigate_up();
                    EventAction::Nothing
                } else if c == 'l' {
                    self.handle_navigate_right();
                    EventAction::Nothing
                } else if c == 'n' {
                    self.handle_next();
                    EventAction::Nothing
                } else if c == 'p' {
                    self.handle_previous();
                    EventAction::Nothing
                } else if c == '+' {
                    match self.handle_zoom_in() {
                        Some(idx) => EventAction::ZoomIn(idx),
                        None => EventAction::Nothing,
                    }
                } else {
                    EventAction::Nothing
                }
            },
            InputEvent::Key(KeyInput::Enter) => {
                self.handle_toggle_mode();
                EventAction::Nothing
            },
            InputEvent::Key(KeyInput::Other) => EventAction::Nothing,
            InputEvent::Resize(cols, rows) => {
                self.handle_resize(cols, rows);
                EventAction::Nothing
            },
            InputEvent::Other => EventAction::Nothing,
        }
    }

    /// In the gallery: selects the image to the left, unless the selection
    /// starts a row.
    pub fn handle_navigate_left(&mut self)
        requires
            old(self)@.current_mode == Mode::GalleryView ==> old(self)@.ui.num_horizontal_grid_cells > 0,
        ensures
            final(self)@ == if old(self)@.current_mode == Mode::GalleryView {
                with_ui(old(self)@, nav_left(old(self)@.ui))
            } else {
                old(self)@
            },
    {
        match self.current_mode {
            Mode::SingleImage => {},
            Mode::GalleryView => {
                if self.ui.current_selected_img_idx % self.ui.num_horizontal_grid_cells == 0 {
                    return ;
                }
                self.ui.current_selected_img_idx = self.ui.current_selected_img_idx.saturating_sub(
                    1,
                );
            },
        }
    }

    /// In the gallery: selects the image a row down, unless that row holds
    /// none of the loaded images, and scrolls by what the row lacks of being
    /// visible.
    pub fn handle_navigate_down(&mut self, num_loaded_images: usize)
        requires
            old(self)@.current_mode == Mode::GalleryView ==> num_loaded_images >= old(self)@.ui.num_horizontal_grid_cells,
        ensures
            final(self)@ == if old(self)@.current_mode == Mode::GalleryView {
                with_ui(old(self)@, nav_down(old(self)@.ui, num_loaded_images))
            } else {
                old(self)@
            },
    {
        match self.current_mode {
            Mode::SingleImage => {},
            Mode::GalleryView => {
                if self.ui.current_selected_img_idx >= num_loaded_images
                    - self.ui.num_horizontal_grid_cells {
                    return ;
                }
                self.ui.current_selected_img_idx = self.ui.current_selected_img_idx
                    + self.ui.num_horizontal_grid_cells;
                let gh = self.ui.grid_cell_height as u16;
                if self.ui.visible_rows_under_selected_image < gh {
                    self.ui.scroll_offset = self.ui.scroll_offset.saturating_add(
                        gh - self.ui.visible_rows_under_selected_image,
                    );
                }
            },
        }
    }

    /// In the gallery: selects the image a row up, unless the selection is in
    /// the first row, and scrolls back when the cursor's row is cut off.
    pub fn handle_navigate_up(&mut self)
        requires
            old(self)@.current_mode == Mode::GalleryView ==> can_nav_up(old(self)@.ui),
        ensures
            final(self)@ == if old(self)@.current_mode == Mode::GalleryView {
                with_ui(old(self)@, nav_up(old(self)@.ui))
            } else {
                old(self)@
            },
    {
        match self.current_mode {
            Mode::SingleImage => {},
            Mode::GalleryView => {
                if self.ui.current_selected_img_idx < self.ui.num_horizontal_grid_cells {
                    return ;
                }
                self.ui.current_selected_img_idx = self.ui.current_selected_img_idx
                    - self.ui.num_horizontal_grid_cells;
                let num_rows_above_cursor = self.ui.gallery_cursor.area.y - self.ui.scroll_offset;
                if num_rows_above_cursor < self.ui.gallery_cursor.area.height {
                    self.ui.scroll_offset = self.ui.scroll_offset.saturating_sub(
                        self.ui.grid_cell_height as u16 - num_rows_above_cursor,
                    );
                }
            },
        }
    }

    /// In the gallery: selects the image to the right, unless the selection
    /// ends a row.
    pub fn handle_navigate_right(&mut self)
        requires
            old(self)@.current_mode == Mode::GalleryView ==> old(self)@.ui.num_horizontal_grid_cells > 0,
        ensures
            final(self)@ == if old(self)@.current_mode == Mode::GalleryView {
                with_ui(old(self)@, nav_right(old(self)@.ui))
            } else {
                old(self)@
            },
    {
        match self.current_mode {
            Mode::SingleImage => {},
            Mode::GalleryView => {
                if (self.ui.current_selected_img_idx % self.ui.num_horizontal_grid_cells) == (
                self.ui.num_horizontal_grid_cells - 1) {
                    return ;
                }
                self.ui.current_selected_img_idx = self.ui.current_selected_img_idx.saturating_add(
                    1,
                );
            },
        }
    }

    /// In single image mode: selects the next path, while the selection is
    /// within the paths.
    pub fn handle_next(&mut self)
        ensures
            final(self)@ == if old(self)@.current_mode == Mode::SingleImage
                && old(self)@.ui.current_selected_img_idx < old(self)@.image_paths.len() {
                with_ui(
                    old(self)@,
                    Ui {
                        current_selected_img_idx: sat_add_usize(
                            old(self)@.ui.current_selected_img_idx,
                            1,
                        ),
                        ..old(self)@.ui
                    },
                )
            } else {
                old(self)@
            },
    {
        match self.current_mode {
            Mode::SingleImage => {
                if self.ui.current_selected_img_idx < self.image_paths.len() {
                    self.ui.current_selected_img_idx = self.ui.current_selected_img_idx.saturating_add(
                        1,
                    );
                }
            },
            _ => {},
        }
    }

    /// In single image mode: selects the previous path, if any.
    pub fn handle_previous(&mut self)
        ensures
            final(self)@ == if old(self)@.current_mode == Mode::SingleImage {
                with_ui(
                    old(self)@,
                    Ui {
                        current_selected_img_idx: sat_sub_usize(
                            old(self)@.ui.current_selected_img_idx,
                            1,
                        ),
                        ..old(self)@.ui
                    },
                )
            } else {
                old(self)@
            },
    {
        match self.current_mode {
            Mode::SingleImage => {
                self.ui.current_selected_img_idx = self.ui.current_selected_img_idx.saturating_sub(
                    1,
                )
            },
            _ => {},
        }
    }

    /// In single image mode: records the zoom event and names the image to
    /// zoom in on.
    pub fn handle_zoom_in(&mut self) -> (zoom: Option<usize>)
        requires
            old(self)@.current_mode == Mode::SingleImage ==> old(self)@.ui.current_selected_img_idx
                < old(self)@.image_paths.len(),
        ensures
            old(self)@.current_mode == Mode::SingleImage ==> zoom == Some(
                old(self)@.ui.current_selected_img_idx,
            ) && final(self)@ == (AppView { current_event: StivEvent::ZoomIn, ..old(self)@ }),
            old(self)@.current_mode == Mode::GalleryView ==> zoom is None && final(self)@ == old(
                self,
            )@,
    {
        match self.current_mode {
            Mode::SingleImage => {
                let idx = self.ui.current_selected_img_idx;
                self.current_event = StivEvent::ZoomIn;
                Some(idx)
            },
            Mode::GalleryView => None,
        }
    }

    /// Switches between the single image and the gallery.
    pub fn handle_toggle_mode(&mut self)
        ensures
            final(self)@ == (AppView {
                current_mode: toggled(old(self)@.current_mode),
                current_event: StivEvent::ToggleMode,
                ..old(self)@
            }),
    {
        self.current_mode = if self.current_mode == Mode::GalleryView {
            Mode::SingleImage
        } else {
            Mode::GalleryView
        };
        self.current_event = StivEvent::ToggleMode;
    }

    /// Records that the terminal was resized.
    pub fn handle_resize(&mut self, _cols: u16, _rows: u16)
        ensures
            final(self)@ == (AppView { current_event: StivEvent::TermResize, ..old(self)@ }),
    {
        self.current_event = StivEvent::TermResize;
    }
}

} // verus!
