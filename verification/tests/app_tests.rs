use stiv::app::{collect_image_paths, image_paths_for, is_image, is_image_file_name, App, AppError, DirEntryInfo, EventAction, InputEvent, KeyInput, Mode};
use stiv::args::Args;
use stiv::detect_support::{get_tmux_nest_count, is_ssh, is_tmux, value_mentions_tmux};
use stiv::stiv_event::StivEvent;
use stiv::utils::{get_image_type, ImageFileType};
use stiv::win_info::WinInfo;

fn key(c: char) -> InputEvent {
    InputEvent::Key(KeyInput::Char(c))
}

fn paths(n: usize) -> Vec<String> {
    (0..n).map(|i| format!("img{i}.png")).collect()
}

#[test]
fn app_needs_images() {
    match App::new(vec![], Some(String::from("/tmp/empty"))) {
        Err(e) => assert_eq!(e.message(), "Path does not contain any images: /tmp/empty"),
        Ok(_) => panic!("expected an error"),
    }
    match App::new(vec![], None) {
        Err(AppError::NoImages(p)) => assert!(p.is_none()),
        Ok(_) => panic!("expected an error"),
    }
    assert_eq!(AppError::NoImages(None).message(), "Path does not contain any images");
}

#[test]
fn app_mode_follows_image_count() {
    let app = App::new(paths(1), None).ok().unwrap();
    assert_eq!(app.current_mode, Mode::SingleImage);
    assert_eq!(app.current_event, StivEvent::NoEvent);
    assert!(!app.should_exit());
    let app = App::new(paths(2), None).ok().unwrap();
    assert_eq!(app.current_mode, Mode::GalleryView);
    assert_eq!(app.image_paths, paths(2));
}

#[test]
fn quit_key() {
    let mut app = App::new(paths(2), None).ok().unwrap();
    assert_eq!(app.handle_event(key('x'), 2), EventAction::Nothing);
    assert!(!app.should_exit());
    app.handle_event(key('q'), 2);
    assert!(app.should_exit());
}

fn gallery(n: usize, per_row: usize) -> App {
    let mut app = App::new(paths(n), None).ok().unwrap();
    app.ui.num_horizontal_grid_cells = per_row;
    app
}

#[test]
fn gallery_left_and_right() {
    let mut app = gallery(7, 3);
    app.handle_event(key('l'), 7);
    assert_eq!(app.ui.current_selected_img_idx, 1);
    app.handle_event(key('l'), 7);
    app.handle_event(key('l'), 7);
    // The end of the row blocks the move.
    assert_eq!(app.ui.current_selected_img_idx, 2);
    app.handle_event(key('h'), 7);
    assert_eq!(app.ui.current_selected_img_idx, 1);
    app.handle_event(key('h'), 7);
    app.handle_event(key('h'), 7);
    assert_eq!(app.ui.current_selected_img_idx, 0);
}

#[test]
fn gallery_right_past_last_image() {
    // 5 images, 3 per row: moving right from the last image leaves the list.
    let mut app = gallery(5, 3);
    app.ui.current_selected_img_idx = 4;
    app.handle_event(key('l'), 5);
    assert_eq!(app.ui.current_selected_img_idx, 5);
}

#[test]
fn gallery_down_scrolls() {
    let mut app = gallery(7, 3);
    app.ui.visible_rows_under_selected_image = 5;
    app.handle_event(key('j'), 7);
    assert_eq!(app.ui.current_selected_img_idx, 3);
    assert_eq!(app.ui.scroll_offset, 7);
    app.ui.visible_rows_under_selected_image = 20;
    app.handle_event(key('j'), 7);
    assert_eq!(app.ui.current_selected_img_idx, 6);
    assert_eq!(app.ui.scroll_offset, 7);
    // The last row blocks the move.
    app.handle_event(key('j'), 7);
    assert_eq!(app.ui.current_selected_img_idx, 6);
}

#[test]
fn gallery_up_scrolls_back() {
    let mut app = gallery(7, 3);
    app.ui.current_selected_img_idx = 6;
    app.ui.scroll_offset = 10;
    app.ui.gallery_cursor.area.y = 14;
    app.ui.gallery_cursor.area.height = 12;
    app.handle_event(key('k'), 7);
    assert_eq!(app.ui.current_selected_img_idx, 3);
    // 4 rows above the cursor: scroll back by 12 - 4.
    assert_eq!(app.ui.scroll_offset, 2);
    app.ui.gallery_cursor.area.y = 0;
    app.ui.scroll_offset = 0;
    app.handle_event(key('k'), 7);
    assert_eq!(app.ui.current_selected_img_idx, 0);
    app.handle_event(key('k'), 7);
    assert_eq!(app.ui.current_selected_img_idx, 0);
}

#[test]
fn left_then_right_law_on_values() {
    let mut app = gallery(9, 3);
    app.ui.current_selected_img_idx = 4;
    app.handle_event(key('h'), 9);
    app.handle_event(key('l'), 9);
    assert_eq!(app.ui.current_selected_img_idx, 4);
}

#[test]
fn single_mode_next_previous_zoom() {
    let mut app = App::new(paths(1), None).ok().unwrap();
    app.handle_event(key('p'), 1);
    assert_eq!(app.ui.current_selected_img_idx, 0);
    assert_eq!(app.handle_event(key('+'), 1), EventAction::ZoomIn(0));
    assert_eq!(app.current_event, StivEvent::ZoomIn);
    app.handle_event(key('n'), 1);
    // Next goes one past the last path, as the viewer does.
    assert_eq!(app.ui.current_selected_img_idx, 1);
    app.handle_event(key('n'), 1);
    assert_eq!(app.ui.current_selected_img_idx, 1);
    app.handle_event(key('p'), 1);
    assert_eq!(app.ui.current_selected_img_idx, 0);
    // Horizontal keys do nothing in single image mode.
    app.handle_event(key('l'), 1);
    assert_eq!(app.ui.current_selected_img_idx, 0);
}

#[test]
fn toggle_and_resize_events() {
    let mut app = App::new(paths(3), None).ok().unwrap();
    app.handle_event(InputEvent::Key(KeyInput::Enter), 3);
    assert_eq!(app.current_mode, Mode::SingleImage);
    assert_eq!(app.current_event, StivEvent::ToggleMode);
    app.handle_event(InputEvent::Key(KeyInput::Enter), 3);
    assert_eq!(app.current_mode, Mode::GalleryView);
    app.handle_event(InputEvent::Resize(80, 24), 3);
    assert_eq!(app.current_event, StivEvent::TermResize);
    assert_eq!(app.handle_event(key('+'), 3), EventAction::Nothing);
    app.handle_event(InputEvent::Other, 3);
    assert_eq!(app.current_event, StivEvent::TermResize);
}

#[test]
fn image_names() {
    for name in ["a.jpg", "a.jpeg", "a.png", "..jpg", "x.tar.png"] {
        assert!(is_image_file_name(name), "{name}");
    }
    for name in ["a.JPG", "a.gif", ".png", "png", "a.", "..", "a.pngx"] {
        assert!(!is_image_file_name(name), "{name}");
    }
}

#[test]
fn image_paths_use_the_last_component() {
    assert!(is_image("/home/me/cat.png"));
    assert!(is_image("pics/dog.jpeg"));
    assert!(is_image("pics/dog.jpeg/."));
    assert!(!is_image("/home/me.png/cat"));
    assert!(!is_image("pics/.."));
    assert!(!is_image("/"));
    assert!(!is_image(""));
    assert!(is_image("pics//dog.png//"));
    assert!(is_image("./dog.jpg"));
    assert!(!is_image("./"));
    assert!(!is_image("dog.png/.."));
}

#[test]
fn collecting_directory_images() {
    let e = |p: &str, d: bool| DirEntryInfo { path: String::from(p), is_dir: d };
    let entries = vec![e("d/a.png", false), e("d/b.txt", false), e("d/c.jpg", true), e("d/e.jpeg", false)];
    assert_eq!(collect_image_paths(&entries), vec![String::from("d/a.png"), String::from("d/e.jpeg")]);
    assert!(collect_image_paths(&vec![]).is_empty());
}

#[test]
fn tmux_detection() {
    assert!(value_mentions_tmux("tmux-256color"));
    assert!(value_mentions_tmux("screen.TMUX"));
    assert!(!value_mentions_tmux("xterm-kitty"));
    assert!(!value_mentions_tmux("tmu"));
    assert!(is_tmux(&vec![None, Some(String::from("Tmux"))]));
    assert!(!is_tmux(&vec![Some(String::from("xterm")), None]));
    assert!(!is_tmux(&vec![]));
}

#[test]
fn tmux_nest_count() {
    assert_eq!(get_tmux_nest_count(None), 1);
    assert_eq!(get_tmux_nest_count(Some(String::from("3"))), 3);
    assert_eq!(get_tmux_nest_count(Some(String::from("three"))), 1);
    assert_eq!(get_tmux_nest_count(Some(String::from(""))), 1);
}

#[test]
fn ssh_detection() {
    assert!(is_ssh(&vec![false, true]));
    assert!(!is_ssh(&vec![false, false]));
}

#[test]
fn image_type_and_window() {
    assert_eq!(get_image_type("x.png"), ImageFileType::Jpeg);
    let w = WinInfo::get_win_info(1000, 500, 100, 25);
    assert_eq!((w.cols, w.rows, w.cell_height, w.cell_width), (100, 25, 10, 20));
    let a = Args { file: String::from("x") };
    assert_eq!(a.file, "x");
}

#[test]
fn events_that_would_overflow_are_refused() {
    let app = App::new(paths(4), None).ok().unwrap();
    // No grid width yet: horizontal moves would divide by zero.
    assert!(!app.can_handle(key('h'), 4));
    assert!(!app.can_handle(key('l'), 4));
    assert!(app.can_handle(key('q'), 4));
    let mut app = gallery(4, 3);
    assert!(app.can_handle(key('h'), 4));
    // Fewer loaded images than a row: moving down would underflow.
    assert!(!app.can_handle(key('j'), 2));
    assert!(app.can_handle(key('j'), 3));
    app.ui.current_selected_img_idx = 3;
    app.ui.scroll_offset = 5;
    app.ui.gallery_cursor.area.y = 2;
    assert!(!app.can_handle(key('k'), 4));
    let mut single = App::new(paths(1), None).ok().unwrap();
    assert!(single.can_handle(key('+'), 1));
    single.handle_event(key('n'), 1);
    assert!(!single.can_handle(key('+'), 1));
}

#[test]
fn paths_for_an_image_or_a_directory() {
    let e = |p: &str, d: bool| DirEntryInfo { path: String::from(p), is_dir: d };
    let entries = vec![e("d/a.png", false), e("d/b.txt", false)];
    assert_eq!(image_paths_for("pics/cat.jpg", &entries), vec![String::from("pics/cat.jpg")]);
    assert_eq!(image_paths_for("d", &entries), vec![String::from("d/a.png")]);
    assert!(image_paths_for("d", &vec![]).is_empty());
}

#[test]
fn up_then_down_law_on_values() {
    let mut app = gallery(9, 3);
    app.ui.current_selected_img_idx = 7;
    app.ui.gallery_cursor.area.y = 24;
    app.ui.gallery_cursor.area.height = 12;
    app.ui.visible_rows_under_selected_image = 40;
    app.handle_event(key('k'), 9);
    assert_eq!(app.ui.current_selected_img_idx, 4);
    app.handle_event(key('j'), 9);
    assert_eq!(app.ui.current_selected_img_idx, 7);
}
