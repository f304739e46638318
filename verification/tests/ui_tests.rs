use stiv::geometry::Rect;
use stiv::ui::{assign_gallery_cells, gallery_cursor_title, GalleryCell, Ui, VisibleCell};

#[test]
fn new_ui_defaults() {
    let ui = Ui::new();
    assert_eq!((ui.grid_cell_width, ui.grid_cell_height), (30, 12));
    assert_eq!(ui.gallery_cursor.area, Rect { x: 0, y: 0, width: 30, height: 12 });
    assert_eq!(ui.current_selected_img_idx, 0);
    let d = Ui::default();
    assert_eq!((d.grid_cell_width, d.grid_cell_height), (0, 0));
}

#[test]
fn rect_new_clamps_to_u16() {
    assert_eq!(Rect::new(0, 0, 30, 12), Rect { x: 0, y: 0, width: 30, height: 12 });
    assert_eq!(Rect::new(65530, 65535, 30, 12), Rect { x: 65530, y: 65535, width: 5, height: 0 });
    assert_eq!(Rect { x: 0, y: 0, width: 300, height: 300 }.area(), 90000);
}

#[test]
fn gallery_plan_for_seven_images() {
    let mut ui = Ui::new();
    ui.current_selected_img_idx = 4;
    let area = Rect { x: 0, y: 0, width: 100, height: 40 };
    let plan = ui.plan_gallery(100, 7, &area);
    // 100 columns hold 3 cells of 30; 7 images need 3 rows of 12.
    assert_eq!(ui.num_horizontal_grid_cells, 3);
    assert_eq!(ui.num_vertical_grid_cells, 3);
    assert_eq!(plan.content_height, 36);
    assert!(!plan.scrollbar_needed);
    assert_eq!(plan.content_area, Rect { x: 0, y: 0, width: 100, height: 36 });
    assert_eq!(plan.cells.len(), 7);
    for (k, cell) in plan.cells.iter().enumerate() {
        assert_eq!((cell.index, cell.row, cell.col), (k, k / 3, k % 3));
        assert_eq!(cell.area, Rect { x: (k % 3) as u16 * 30, y: (k / 3) as u16 * 12, width: 30, height: 12 });
    }
    assert_eq!(ui.gallery_cursor.area, Rect { x: 30, y: 12, width: 30, height: 12 });
    assert_eq!((ui.gallery_cursor.row, ui.gallery_cursor.col), (1, 1));
}

#[test]
fn gallery_plan_needs_scrollbar() {
    let mut ui = Ui::new();
    let area = Rect { x: 0, y: 0, width: 61, height: 20 };
    let plan = ui.plan_gallery(61, 5, &area);
    assert_eq!(ui.num_horizontal_grid_cells, 2);
    assert_eq!(ui.num_vertical_grid_cells, 3);
    assert!(plan.scrollbar_needed);
    assert_eq!(plan.content_area, Rect { x: 0, y: 0, width: 60, height: 36 });
    assert_eq!(plan.cells.len(), 5);
    assert_eq!(ui.gallery_cursor.area, Rect { x: 0, y: 0, width: 30, height: 12 });
}

#[test]
fn gallery_plan_keeps_cursor_when_selection_is_outside() {
    let mut ui = Ui::new();
    ui.current_selected_img_idx = 9;
    let before = ui.gallery_cursor.area;
    let plan = ui.plan_gallery(90, 4, &Rect { x: 0, y: 0, width: 90, height: 50 });
    assert_eq!(plan.cells.len(), 4);
    assert_eq!(ui.gallery_cursor.area, before);
}

#[test]
fn assigning_cells_stops_at_the_last_image() {
    let r = |x: u16, y: u16| Rect { x, y, width: 1, height: 1 };
    let grid = vec![vec![r(0, 0), r(1, 0)], vec![r(0, 1), r(1, 1)]];
    let cells = assign_gallery_cells(&grid, 2, 3);
    assert_eq!(
        cells,
        vec![
            GalleryCell { index: 0, row: 0, col: 0, area: r(0, 0) },
            GalleryCell { index: 1, row: 0, col: 1, area: r(1, 0) },
            GalleryCell { index: 2, row: 1, col: 0, area: r(0, 1) },
        ]
    );
    assert_eq!(assign_gallery_cells(&grid, 2, 10).len(), 4);
    assert!(assign_gallery_cells(&grid, 2, 0).is_empty());
}

#[test]
fn visible_content_window() {
    let mut ui = Ui::new();
    ui.scroll_offset = 2;
    let area = Rect { x: 5, y: 5, width: 3, height: 2 };
    let cells = ui.visible_content(&area, 20);
    assert_eq!(cells.len(), 6);
    assert_eq!(cells[0], VisibleCell { source: 6, dx: 0, dy: 0 });
    assert_eq!(cells[4], VisibleCell { source: 10, dx: 1, dy: 1 });
    // Near the end of the content fewer cells are visible.
    let cells = ui.visible_content(&area, 8);
    assert_eq!(cells.len(), 2);
    assert!(ui.visible_content(&area, 4).is_empty());
}

#[test]
fn scrollbar_and_visible_rows() {
    let mut ui = Ui::new();
    ui.num_vertical_grid_cells = 4;
    assert_eq!(ui.scrollbar_content_length(), 36);
    ui.num_horizontal_grid_cells = 3;
    ui.current_selected_img_idx = 4;
    ui.update_visible_rows_under_selected_image(40);
    assert_eq!(ui.visible_rows_under_selected_image, 16);
    ui.current_selected_img_idx = 11;
    ui.update_visible_rows_under_selected_image(40);
    assert_eq!(ui.visible_rows_under_selected_image, 0);
}

#[test]
fn cursor_title_is_the_file_name() {
    assert_eq!(gallery_cursor_title(&String::from("/home/me/pics/cat.png")), "cat.png");
    assert_eq!(gallery_cursor_title(&String::from("dog.jpg")), "dog.jpg");
    assert_eq!(gallery_cursor_title(&String::from("/")), "/");
    assert_eq!(gallery_cursor_title(&String::from("pics/..")), "pics/..");
    assert_eq!(gallery_cursor_title(&String::from("pics//cat.png/.//")), "cat.png");
    assert_eq!(gallery_cursor_title(&String::from("./")), "./");
    assert_eq!(gallery_cursor_title(&String::from("..a/b")), "b");
}
