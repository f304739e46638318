use stiv::geometry::{ImgRect, Rect};
use stiv::stiv_image::{center_adjusted_area, KittyIdCounter, PlaceholderCell, RgbImage, StivImage};
use stiv::win_info::WinInfo;

fn pixels(w: u32, h: u32) -> Vec<u8> {
    (0..(w * h * 3)).map(|i| (i % 251) as u8).collect()
}

fn unit_cells() -> WinInfo {
    WinInfo::get_win_info(10, 10, 10, 10)
}

#[test]
fn from_raw_checks_the_length() {
    assert!(RgbImage::from_raw(2, 2, vec![0; 12]).is_some());
    assert!(RgbImage::from_raw(2, 2, vec![0; 11]).is_none());
    assert!(RgbImage::from_raw(2, 2, vec![0; 13]).is_none());
    let img = RgbImage::from_raw(3, 1, vec![1, 2, 3, 4, 5, 6, 7, 8, 9]).unwrap();
    assert_eq!((img.width(), img.height()), (3, 1));
    assert_eq!(img.as_bytes(), &[1, 2, 3, 4, 5, 6, 7, 8, 9]);
    assert_eq!(img.copy().as_bytes(), img.as_bytes());
}

#[test]
fn new_image_takes_cells_from_window() {
    let win = WinInfo::get_win_info(800, 600, 80, 30);
    assert_eq!((win.cell_height, win.cell_width), (10, 20));
    let img = StivImage::new(String::from("a.jpg"), 100, 50, RgbImage::from_raw(1, 1, vec![0; 3]).unwrap(), &win, 4);
    assert_eq!((img.cell_width_px, img.cell_height_px), (20, 10));
    assert_eq!(img.id, 4);
    assert!(!img.uploaded);
    assert!(img.last_area.is_none());
    assert!(img.crop_area.is_none());
    assert_eq!(img.path, "a.jpg");
}

#[test]
fn resize_replaces_displayed_image() {
    let mut img = StivImage::new(String::from("c.png"), 4, 4, RgbImage::from_raw(4, 4, vec![100; 48]).unwrap(), &unit_cells(), 1);
    img.uploaded = true;
    img.resize(2, 3);
    assert!(!img.uploaded);
    assert_eq!((img.displayed_image.width(), img.displayed_image.height()), (2, 3));
    assert_eq!(img.displayed_image.as_bytes().len(), 18);
    // A flat colour stays flat under the Lanczos filter.
    assert!(img.displayed_image.as_bytes().iter().all(|b| *b == 100));
    // Resizing starts again from the image as loaded.
    img.resize(8, 8);
    assert_eq!(img.displayed_image.as_bytes().len(), 192);
}

#[test]
fn resize_to_zero_pixels() {
    let mut img = StivImage::new(String::from("z.png"), 2, 2, RgbImage::from_raw(2, 2, pixels(2, 2)).unwrap(), &unit_cells(), 1);
    img.resize(0, 0);
    assert_eq!(img.displayed_image.as_bytes().len(), 0);
}

#[test]
fn crop_takes_the_centre() {
    let mut img = StivImage::new(String::from("c.png"), 6, 4, RgbImage::from_raw(6, 4, pixels(6, 4)).unwrap(), &unit_cells(), 1);
    img.crop(&Rect { x: 0, y: 0, width: 2, height: 2 });
    let d = &img.displayed_image;
    assert_eq!((d.width(), d.height()), (2, 2));
    let src = pixels(6, 4);
    let px = |x: usize, y: usize| src[(y * 6 + x) * 3..(y * 6 + x) * 3 + 3].to_vec();
    let expected: Vec<u8> = [px(2, 1), px(3, 1), px(2, 2), px(3, 2)].concat();
    assert_eq!(d.as_bytes(), &expected[..]);
}

#[test]
fn crop_larger_than_image_keeps_it() {
    let mut img = StivImage::new(String::from("c.png"), 3, 2, RgbImage::from_raw(3, 2, pixels(3, 2)).unwrap(), &unit_cells(), 1);
    img.crop(&Rect { x: 0, y: 0, width: 10, height: 10 });
    assert_eq!(img.displayed_image.as_bytes(), &pixels(3, 2)[..]);
}

#[test]
fn crop_area_for_zoomed_image() {
    let mut img = StivImage::new(String::from("c.png"), 10, 8, RgbImage::from_raw(10, 8, pixels(10, 8)).unwrap(), &unit_cells(), 1);
    let r = img.get_crop_area_for_zoomed_img(&Rect { x: 5, y: 5, width: 4, height: 2 });
    assert_eq!(r, ImgRect { x_px: 3, y_px: 3, width_px: 4, height_px: 2 });
    assert_eq!(img.crop_area, Some(r));
    let r = img.get_crop_area_for_zoomed_img(&Rect { x: 0, y: 0, width: 20, height: 20 });
    assert_eq!(r, ImgRect { x_px: 0, y_px: 0, width_px: 20, height_px: 20 });
}

#[test]
fn display_area_for_zoomed_image() {
    let win = WinInfo::get_win_info(800, 600, 80, 30);
    let mut img = StivImage::new(String::from("a.jpg"), 100, 50, RgbImage::from_raw(1, 1, vec![0; 3]).unwrap(), &win, 4);
    // 100 px / 20 px per column = 5 columns, 50 px / 10 px per row = 5 rows.
    let r = img.get_display_area_for_zoomed_img(&Rect { x: 2, y: 2, width: 10, height: 3 });
    assert_eq!(r, Rect { x: 4, y: 2, width: 5, height: 3 });
    let mut img = StivImage::new(String::from("a.jpg"), 101, 51, RgbImage::from_raw(1, 1, vec![0; 3]).unwrap(), &win, 4);
    let r = img.get_display_area_for_zoomed_img(&Rect { x: 0, y: 0, width: 20, height: 20 });
    assert_eq!(r, Rect { x: 7, y: 7, width: 6, height: 6 });
}

#[test]
fn fit_target_cases() {
    let win = WinInfo::get_win_info(800, 600, 80, 30);
    let mut img = StivImage::new(String::from("a.jpg"), 100, 50, RgbImage::from_raw(1, 1, vec![0; 3]).unwrap(), &win, 4);
    let big = Rect { x: 0, y: 0, width: 10, height: 10 };
    assert_eq!(img.resize_to_fit_target(&big, true), None);
    assert_eq!(img.resize_to_fit_target(&big, false), Some((200, 100)));
    let small = Rect { x: 0, y: 0, width: 2, height: 2 };
    assert_eq!(img.resize_to_fit_target(&small, true), Some((40, 20)));
    img.uploaded = true;
    assert_eq!(img.resize_to_fit_target(&big, true), Some((200, 100)));
}

#[test]
fn placeholder_cells_row_by_row() {
    let img = StivImage::new(String::from("a.jpg"), 1, 1, RgbImage::from_raw(1, 1, vec![0; 3]).unwrap(), &unit_cells(), 0x123456);
    let cells = img.placeholder_cells(&Rect { x: 3, y: 7, width: 2, height: 3 });
    assert_eq!(cells.len(), 6);
    assert_eq!(cells[0], PlaceholderCell { x: 3, y: 7, row: 0, col: 0 });
    assert_eq!(cells[1], PlaceholderCell { x: 4, y: 7, row: 0, col: 1 });
    assert_eq!(cells[4], PlaceholderCell { x: 3, y: 9, row: 2, col: 0 });
    assert_eq!(cells[5], PlaceholderCell { x: 4, y: 9, row: 2, col: 1 });
    assert!(img.placeholder_cells(&Rect { x: 0, y: 0, width: 0, height: 4 }).is_empty());
    assert_eq!(img.placeholder_color(), (0x12, 0x34, 0x56));
}

#[test]
fn placeholder_color_uses_low_bytes() {
    let img = StivImage::new(String::from("a.jpg"), 1, 1, RgbImage::from_raw(1, 1, vec![0; 3]).unwrap(), &unit_cells(), 0xAB00_0102);
    assert_eq!(img.placeholder_color(), (0x00, 0x01, 0x02));
}

#[test]
fn delete_only_when_uploaded() {
    let mut img = StivImage::new(String::from("a.jpg"), 1, 1, RgbImage::from_raw(1, 1, vec![0; 3]).unwrap(), &unit_cells(), 12);
    assert!(img.delete_from_terminal().is_none());
    img.uploaded = true;
    img.last_area = Some(Rect { x: 1, y: 1, width: 1, height: 1 });
    assert_eq!(img.delete_from_terminal(), Some(b"\x1b_Ga=d,d=I,i=12,q=2\x1b\\".to_vec()));
    assert!(!img.uploaded);
    assert!(img.last_area.is_none());
    assert!(img.delete_from_terminal().is_none());
}

#[test]
fn shm_upload_command_by_state() {
    let mut img = StivImage::new(String::from("a.jpg"), 2, 1, RgbImage::from_raw(2, 1, vec![0; 6]).unwrap(), &unit_cells(), 3);
    let area = Rect { x: 0, y: 0, width: 10, height: 5 };
    assert_eq!(
        img.shm_upload_command(&area, "/x"),
        b"\x1b_Ga=T,f=24,t=s,U=1,i=3,c=10,r=4,s=2,v=1,q=2;L3g=\x1b\\".to_vec()
    );
    img.uploaded = true;
    assert_eq!(
        img.shm_upload_command(&area, "/x"),
        b"\x1b_Ga=p,U=1,i=3,c=10,r=4,s=2,v=1,q=2\x1b\\".to_vec()
    );
}

#[test]
fn zoom_crop_area_is_empty() {
    let mut img = StivImage::new(String::from("a.jpg"), 1, 1, RgbImage::from_raw(1, 1, vec![0; 3]).unwrap(), &unit_cells(), 1);
    assert_eq!(img.get_zoom_crop_area_px(), Rect { x: 0, y: 0, width: 0, height: 0 });
}

#[test]
fn centring_an_adjusted_area() {
    let area = Rect { x: 10, y: 4, width: 40, height: 20 };
    assert_eq!(center_adjusted_area(&area, 20, 20), Rect { x: 20, y: 4, width: 20, height: 20 });
    assert_eq!(center_adjusted_area(&area, 40, 11), Rect { x: 10, y: 8, width: 40, height: 11 });
    assert_eq!(center_adjusted_area(&area, 60, 20), Rect { x: 10, y: 4, width: 60, height: 20 });
    let edge = Rect { x: 65530, y: 0, width: 40, height: 1 };
    assert_eq!(center_adjusted_area(&edge, 0, 1).x, u16::MAX);
}

#[test]
fn ids_count_up_from_one() {
    let mut ids = KittyIdCounter::new();
    assert_eq!(ids.next_id(), 1);
    assert_eq!(ids.next_id(), 2);
    assert_eq!(ids.next_id(), 3);
}

#[test]
fn upload_and_placement_are_recorded() {
    let mut img = StivImage::new(String::from("a.jpg"), 2, 1, RgbImage::from_raw(2, 1, vec![0; 6]).unwrap(), &unit_cells(), 7);
    let area = Rect { x: 3, y: 4, width: 10, height: 5 };
    img.mark_uploaded();
    assert!(img.uploaded);
    assert!(img.last_area.is_none());
    img.record_placement(&area);
    assert_eq!(img.last_area, Some(area));
    assert_eq!(img.id, 7);
    assert_eq!(
        img.shm_upload_command(&area, "/x"),
        b"\x1b_Ga=p,U=1,i=7,c=10,r=4,s=2,v=1,q=2\x1b\\".to_vec()
    );
}

fn png_bytes(img: &image::DynamicImage) -> Vec<u8> {
    let mut buf: Vec<u8> = Vec::new();
    img.write_to(&mut std::io::Cursor::new(&mut buf), image::ImageFormat::Png).unwrap();
    buf
}

#[test]
fn load_decodes_a_png_file() {
    let rgb = image::RgbImage::from_raw(3, 2, pixels(3, 2)).unwrap();
    let bytes = png_bytes(&image::DynamicImage::ImageRgb8(rgb));
    let mut ids = KittyIdCounter::new();
    let img = StivImage::load(String::from("d/p.png"), &bytes, &unit_cells(), &mut ids).unwrap();
    assert_eq!(img.id, 1);
    assert_eq!(ids.next_id(), 2);
    assert_eq!(img.path, "d/p.png");
    assert_eq!((img.displayed().width(), img.displayed().height()), (3, 2));
    assert_eq!(img.displayed().as_bytes(), &pixels(3, 2)[..]);
    assert_eq!(img.original().as_bytes(), &pixels(3, 2)[..]);
    assert!(!img.uploaded);
    // The header gave a size of 3 x 2 pixels.
    assert_eq!(img.resize_to_fit_target(&Rect { x: 0, y: 0, width: 3, height: 3 }, true), Some((3, 3)));
    assert_eq!(img.resize_to_fit_target(&Rect { x: 0, y: 0, width: 4, height: 3 }, true), None);
}

#[test]
fn load_converts_grey_to_rgb() {
    let grey = image::GrayImage::from_raw(2, 1, vec![10, 200]).unwrap();
    let bytes = png_bytes(&image::DynamicImage::ImageLuma8(grey));
    let mut ids = KittyIdCounter::new();
    let img = StivImage::load(String::from("g.png"), &bytes, &unit_cells(), &mut ids).unwrap();
    assert_eq!(img.displayed().as_bytes(), &[10, 10, 10, 200, 200, 200]);
}

#[test]
fn failed_loads_take_no_id() {
    let rgb = image::RgbImage::from_raw(1, 1, vec![1, 2, 3]).unwrap();
    let bytes = png_bytes(&image::DynamicImage::ImageRgb8(rgb));
    let mut ids = KittyIdCounter::new();
    // No image header.
    assert!(StivImage::load(String::from("x.png"), &vec![0, 1, 2, 3], &unit_cells(), &mut ids).is_none());
    // The extension names another format than the bytes hold.
    assert!(StivImage::load(String::from("x.jpg"), &bytes, &unit_cells(), &mut ids).is_none());
    // The extension names no format.
    assert!(StivImage::load(String::from("x"), &bytes, &unit_cells(), &mut ids).is_none());
    // A PNG header whose data is cut off.
    assert!(StivImage::load(String::from("x.png"), &bytes[..bytes.len() - 20].to_vec(), &unit_cells(), &mut ids).is_none());
    assert_eq!(ids.next_id(), 1);
}
