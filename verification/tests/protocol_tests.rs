use stiv::protocol::{build_delete_command, build_shm_place_command, build_shm_transmit_command};
use stiv::renderer::{Renderer, TransportKind};
use stiv::stiv_image::{RgbImage, StivImage};
use stiv::geometry::Rect;
use stiv::win_info::WinInfo;

fn win() -> WinInfo {
    WinInfo::get_win_info(800, 600, 80, 30)
}

fn image(id: u32, w: u32, h: u32) -> StivImage {
    let data: Vec<u8> = (0..(w * h * 3)).map(|i| (i % 251) as u8).collect();
    let img = RgbImage::from_raw(w, h, data).unwrap();
    StivImage::new(String::from("img.png"), w as usize, h as usize, img, &win(), id)
}

#[test]
fn delete_command_bytes() {
    assert_eq!(build_delete_command(5), b"\x1b_Ga=d,d=I,i=5,q=2\x1b\\".to_vec());
}

#[test]
fn shm_commands_bytes() {
    assert_eq!(
        build_shm_place_command(3, 10, 4, 640, 480),
        b"\x1b_Ga=p,U=1,i=3,c=10,r=4,s=640,v=480,q=2\x1b\\".to_vec()
    );
    assert_eq!(
        build_shm_transmit_command(3, 10, 4, 640, 480, &b"L2Rldi9zaG0=".to_vec()),
        b"\x1b_Ga=T,f=24,t=s,U=1,i=3,c=10,r=4,s=640,v=480,q=2;L2Rldi9zaG0=\x1b\\".to_vec()
    );
}

#[test]
fn renderer_picks_transport_and_sequences() {
    let r = Renderer::new(false, true);
    assert_eq!(r.transport(), TransportKind::DirectStream);
    assert!(!r.is_tmux());
    let r = Renderer::new(true, false);
    assert_eq!(r.transport(), TransportKind::TmpFile);
    assert!(r.is_tmux());
}

#[test]
fn tmp_file_command_encodes_path() {
    let img = image(7, 2, 1);
    let r = Renderer::new(false, false);
    let cmd = r.tmp_file_command(&img, "/tmp/x");
    assert_eq!(cmd, b"\x1b_Ga=T,f=24,t=f,C=1,U=1,i=7,s=2,v=1,q=2;L3RtcC94\x1b\\".to_vec());
    let r = Renderer::new(true, false);
    let cmd = r.tmp_file_command(&img, "/tmp/x");
    assert_eq!(
        cmd,
        b"\x1bPtmux;\x1b\x1b_Ga=T,f=24,t=f,C=1,U=1,i=7,s=2,v=1,q=2;L3RtcC94\x1b\x1b\\\x1b\\".to_vec()
    );
}

#[test]
fn direct_stream_single_chunk() {
    // 2 x 1 pixels: 6 bytes, encoded as 8 base64 bytes.
    let data = vec![0u8, 0, 0, 255, 255, 255];
    let img = StivImage::new(String::from("a.png"), 2, 1, RgbImage::from_raw(2, 1, data).unwrap(), &win(), 9);
    let r = Renderer::new(false, true);
    let out = r.direct_stream_payload(&img);
    assert_eq!(out, b"\x1b_Ga=T,f=24,t=d,C=1,U=1,i=9,s=2,v=1,q=2,m=0;AAAA////\x1b\\".to_vec());
}

#[test]
fn direct_stream_several_chunks() {
    // 40 x 40 pixels: 4800 bytes, encoded as 6400 bytes: two chunks.
    let img = image(2, 40, 40);
    let r = Renderer::new(false, true);
    let out = r.direct_stream_payload(&img);
    let first_head = b"\x1b_Ga=T,f=24,t=d,C=1,U=1,i=2,s=40,v=40,q=2,m=1;";
    assert!(out.starts_with(first_head));
    let second_start = first_head.len() + 4096 + 2;
    assert_eq!(&out[first_head.len() + 4096..second_start], b"\x1b\\");
    let second_head = b"\x1b_Gm=0,i=2,q=2;";
    assert_eq!(&out[second_start..second_start + second_head.len()], second_head);
    assert_eq!(out.len(), second_start + second_head.len() + (6400 - 4096) + 2);
    assert!(out.ends_with(b"\x1b\\"));
}

#[test]
fn direct_stream_of_empty_image_is_empty() {
    let img = StivImage::new(String::from("e.png"), 0, 0, RgbImage::from_raw(0, 0, vec![]).unwrap(), &win(), 1);
    let r = Renderer::new(false, true);
    assert!(r.direct_stream_payload(&img).is_empty());
}

#[test]
fn render_plan_cases() {
    let r = Renderer::new(false, false);
    let area = Rect { x: 0, y: 0, width: 10, height: 5 };
    let p = r.plan_render(false, None, &area);
    assert!(p.resize_to_fit && p.upload);
    let p = r.plan_render(true, Some(area), &area);
    assert!(!p.resize_to_fit && !p.upload);
    let p = r.plan_render(true, None, &area);
    assert!(!p.resize_to_fit && !p.upload);
    let other = Rect { x: 3, y: 3, width: 10, height: 6 };
    let p = r.plan_render(true, Some(other), &area);
    assert!(p.resize_to_fit && !p.upload);
    let moved = Rect { x: 3, y: 3, width: 10, height: 5 };
    let p = r.plan_render(true, Some(moved), &area);
    assert!(!p.resize_to_fit && !p.upload);
}
