use raytracer::{paint_frame, Pixel, ScreenContextManager};

#[test]
fn new_screen_is_black() {
    let screen = ScreenContextManager::new(3, 2);
    assert_eq!(screen.get_width(), 3);
    assert_eq!(screen.get_height(), 2);
    for y in 0..2 {
        for x in 0..3 {
            assert_eq!(screen.pixel_at(x, y), [0, 0, 0]);
        }
    }
    assert_eq!(screen.framebuffer_bytes(), vec![0u8; 18]);
}

#[test]
fn empty_screen_has_no_bytes() {
    let screen = ScreenContextManager::new(0, 5);
    assert_eq!(screen.get_width(), 0);
    assert_eq!(screen.get_height(), 5);
    assert!(screen.framebuffer_bytes().is_empty());
}

#[test]
fn plot_pixel_paints_with_current_color() {
    let mut screen = ScreenContextManager::new(3, 2);
    screen.set_color(10, 20, 30);
    screen.plot_pixel(1, 1);
    assert_eq!(screen.pixel_at(1, 1), [10, 20, 30]);
    assert_eq!(screen.pixel_at(1, 0), [0, 0, 0]);
    assert_eq!(screen.pixel_at(0, 1), [0, 0, 0]);
}

#[test]
fn framebuffer_bytes_are_rows_from_the_top() {
    let mut screen = ScreenContextManager::new(3, 2);
    screen.set_color(255, 0, 0);
    screen.plot_pixel(0, 0);
    screen.set_color(0, 0, 255);
    screen.plot_pixel(2, 1);
    screen.set_color(1, 2, 3);
    screen.plot_pixel(1, 0);
    let bytes = screen.framebuffer_bytes();
    assert_eq!(bytes.len(), 18);
    assert_eq!(&bytes[0..3], &[255, 0, 0]);
    assert_eq!(&bytes[3..6], &[1, 2, 3]);
    assert_eq!(&bytes[6..15], &[0u8; 9]);
    assert_eq!(&bytes[15..18], &[0, 0, 255]);
}

#[test]
fn clear_fills_every_pixel() {
    let mut screen = ScreenContextManager::new(2, 2);
    screen.set_color(9, 9, 9);
    screen.plot_pixel(1, 0);
    screen.clear(128);
    assert_eq!(screen.framebuffer_bytes(), vec![128u8; 12]);
    screen.clear_with_rgb(1, 2, 3);
    for y in 0..2 {
        for x in 0..2 {
            assert_eq!(screen.pixel_at(x, y), [1, 2, 3]);
        }
    }
    // clearing leaves the drawing color alone
    screen.plot_pixel(0, 0);
    assert_eq!(screen.pixel_at(0, 0), [9, 9, 9]);
}

#[test]
fn paint_frame_flips_rows() {
    let mut screen = ScreenContextManager::new(2, 3);
    // column i, plane row j (from the bottom), at i * height + j
    let mut colors: Vec<Pixel> = Vec::new();
    for i in 0..2u8 {
        for j in 0..3u8 {
            colors.push([i, j, 7]);
        }
    }
    paint_frame(&mut screen, &colors);
    for y in 0..3u32 {
        for x in 0..2u32 {
            assert_eq!(screen.pixel_at(x, y), [x as u8, (2 - y) as u8, 7]);
        }
    }
    // the last color painted stays the drawing color
    screen.clear(0);
    screen.plot_pixel(0, 0);
    assert_eq!(screen.pixel_at(0, 0), [1, 2, 7]);
}

#[test]
fn paint_frame_bottom_plane_row_is_last_image_row() {
    let mut screen = ScreenContextManager::new(1, 2);
    paint_frame(&mut screen, &vec![[255, 0, 0], [0, 255, 0]]);
    assert_eq!(screen.framebuffer_bytes(), vec![0, 255, 0, 255, 0, 0]);
}

#[test]
fn paint_empty_frame_keeps_color() {
    let mut screen = ScreenContextManager::new(0, 0);
    screen.set_color(4, 5, 6);
    paint_frame(&mut screen, &Vec::new());
    assert!(screen.framebuffer_bytes().is_empty());
}
