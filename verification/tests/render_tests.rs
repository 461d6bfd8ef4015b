use minecraft_diorama::render::{
    jitter_steps, pixel_order, render, row_from_bottom, write_frame, Jitter, Pixel, JITTER_FACTOR,
    JITTER_INCREMENT, JITTER_STEPS,
};

fn pixel(x: u32, y: u32, rgb: [u8; 3]) -> Pixel {
    Pixel { x, y, rgb }
}

/// One pixel for every place of a frame, coloured by its place.
fn full_frame(width: u32, height: u32) -> Vec<Pixel> {
    pixel_order(width, height).into_iter().map(|(x, y)| pixel(x, y, [x as u8, y as u8, (x + 10 * y) as u8])).collect()
}

#[test]
fn jitter_is_the_remainder() {
    assert_eq!(JITTER_STEPS, 10000);
    assert_eq!(jitter_steps(0), 0);
    assert_eq!(jitter_steps(9999), 9999);
    assert_eq!(jitter_steps(10000), 0);
    assert_eq!(jitter_steps(123456789), 6789);
    assert_eq!(jitter_steps(u64::MAX), 1615);
}

#[test]
fn rows_are_counted_from_the_bottom() {
    assert_eq!(row_from_bottom(180, 0), 179);
    assert_eq!(row_from_bottom(180, 179), 0);
    assert_eq!(row_from_bottom(180, 90), 89);
    assert_eq!(row_from_bottom(1, 0), 0);
}

#[test]
fn pixels_are_listed_row_by_row() {
    assert_eq!(pixel_order(3, 2), vec![(0, 0), (1, 0), (2, 0), (0, 1), (1, 1), (2, 1)]);
    assert_eq!(pixel_order(1, 3), vec![(0, 0), (0, 1), (0, 2)]);
    assert_eq!(pixel_order(0, 5), Vec::new());
    assert_eq!(pixel_order(5, 0), Vec::new());
    let order = pixel_order(320, 180);
    assert_eq!(order.len(), 320 * 180);
    assert_eq!(order[179 * 320 + 7], (7, 179));
}

#[test]
fn render_puts_each_pixel_in_its_place() {
    let canvas = render(4, 3, &full_frame(4, 3));
    assert_eq!(canvas.width(), 4);
    assert_eq!(canvas.height(), 3);
    for y in 0..3 {
        for x in 0..4 {
            assert_eq!(canvas.get_pixel(x, y), Some([x as u8, y as u8, (x + 10 * y) as u8]));
        }
    }
    assert_eq!(canvas.get_pixel(4, 0), None);
    assert_eq!(canvas.get_pixel(0, 3), None);
}

#[test]
fn render_does_not_mind_the_order() {
    let mut pixels = full_frame(4, 3);
    let forwards = render(4, 3, &pixels).into_raw();
    pixels.reverse();
    let backwards = render(4, 3, &pixels).into_raw();
    pixels.swap(2, 7);
    pixels.swap(0, 11);
    let shuffled = render(4, 3, &pixels).into_raw();
    assert_eq!(forwards, backwards);
    assert_eq!(forwards, shuffled);
}

#[test]
fn render_leaves_unnamed_places_black() {
    let canvas = render(2, 2, &vec![pixel(1, 0, [9, 9, 9])]);
    assert_eq!(canvas.get_pixel(0, 0), Some([0, 0, 0]));
    assert_eq!(canvas.get_pixel(1, 0), Some([9, 9, 9]));
    assert_eq!(canvas.get_pixel(0, 1), Some([0, 0, 0]));
    assert_eq!(canvas.get_pixel(1, 1), Some([0, 0, 0]));
    assert_eq!(render(2, 1, &Vec::new()).into_raw(), vec![0; 6]);
}

#[test]
fn render_keeps_the_last_pixel_of_a_place() {
    let canvas = render(2, 1, &vec![pixel(1, 0, [1, 1, 1]), pixel(0, 0, [2, 2, 2]), pixel(1, 0, [3, 3, 3])]);
    assert_eq!(canvas.get_pixel(0, 0), Some([2, 2, 2]));
    assert_eq!(canvas.get_pixel(1, 0), Some([3, 3, 3]));
}

#[test]
fn raw_bytes_run_row_by_row() {
    let bytes = render(2, 2, &vec![pixel(0, 0, [1, 2, 3]), pixel(1, 0, [4, 5, 6]), pixel(0, 1, [7, 8, 9]), pixel(1, 1, [10, 11, 12])]).into_raw();
    assert_eq!(bytes, vec![1, 2, 3, 4, 5, 6, 7, 8, 9, 10, 11, 12]);
}

#[test]
fn raw_bytes_make_the_same_image_again() {
    let bytes = render(3, 2, &full_frame(3, 2)).into_raw();
    let image = image::RgbImage::from_raw(3, 2, bytes).unwrap();
    for y in 0..2 {
        for x in 0..3 {
            assert_eq!(image.get_pixel(x, y).0, [x as u8, y as u8, (x + 10 * y) as u8]);
        }
    }
}

#[test]
fn rendering_twice_gives_the_same_bytes() {
    let pixels = full_frame(16, 9);
    assert_eq!(render(16, 9, &pixels).into_raw(), render(16, 9, &pixels).into_raw());
}

#[test]
fn canvas_without_pixels() {
    let canvas = render(0, 0, &Vec::new());
    assert_eq!(canvas.width(), 0);
    assert_eq!(canvas.height(), 0);
    assert_eq!(canvas.get_pixel(0, 0), None);
    assert_eq!(canvas.into_raw(), Vec::<u8>::new());
}

#[test]
fn frame_gets_four_bytes_to_the_pixel() {
    let mut frame = vec![0u8; 2 * 2 * 4];
    write_frame(&mut frame, 2, 2, &vec![pixel(0, 0, [1, 2, 3]), pixel(1, 0, [4, 5, 6]), pixel(0, 1, [7, 8, 9]), pixel(1, 1, [10, 11, 12])]);
    assert_eq!(frame, vec![1, 2, 3, 255, 4, 5, 6, 255, 7, 8, 9, 255, 10, 11, 12, 255]);
}

#[test]
fn frame_does_not_mind_the_order() {
    let mut pixels = full_frame(5, 4);
    let mut forwards = vec![0u8; 5 * 4 * 4];
    write_frame(&mut forwards, 5, 4, &pixels);
    pixels.reverse();
    let mut backwards = vec![0u8; 5 * 4 * 4];
    write_frame(&mut backwards, 5, 4, &pixels);
    assert_eq!(forwards, backwards);
    assert_eq!(&forwards[4 * (3 * 5 + 2)..4 * (3 * 5 + 2) + 4], &[2, 3, 32, 255]);
}

#[test]
fn frame_keeps_what_no_pixel_names() {
    let mut frame = vec![77u8; 3 * 1 * 4 + 2];
    write_frame(&mut frame, 3, 1, &vec![pixel(1, 0, [1, 2, 3])]);
    assert_eq!(frame, vec![77, 77, 77, 77, 1, 2, 3, 255, 77, 77, 77, 77, 77, 77]);
    write_frame(&mut frame, 3, 1, &Vec::new());
    assert_eq!(frame, vec![77, 77, 77, 77, 1, 2, 3, 255, 77, 77, 77, 77, 77, 77]);
}

#[test]
fn frame_keeps_the_last_pixel_of_a_place() {
    let mut frame = vec![0u8; 4];
    write_frame(&mut frame, 1, 1, &vec![pixel(0, 0, [1, 1, 1]), pixel(0, 0, [2, 2, 2])]);
    assert_eq!(frame, vec![2, 2, 2, 255]);
}

#[test]
fn jitter_follows_its_rule() {
    let mut jitter = Jitter::new(42);
    let mut state = 42u64;
    for _ in 0..1000 {
        state = state.wrapping_mul(JITTER_FACTOR).wrapping_add(JITTER_INCREMENT);
        let steps = jitter.next_steps();
        assert_eq!(jitter.state, state);
        assert_eq!(steps as u64, (state >> 32) % 10000);
        assert!(steps < 10000);
    }
}

#[test]
fn jitter_has_exact_first_values() {
    let mut jitter = Jitter::new(0);
    assert_eq!(jitter.next_steps(), 3614);
    assert_eq!(jitter.state, 1442695040888963407);
    assert_eq!(jitter.next_steps(), 2849);
    assert_eq!(jitter.state, 1876011003808476466);
}

#[test]
fn same_seed_gives_the_same_jitter() {
    let mut first = Jitter::new(2024);
    let mut second = Jitter::new(2024);
    let mut other = Jitter::new(2025);
    let a: Vec<u32> = (0..100).map(|_| first.next_steps()).collect();
    let b: Vec<u32> = (0..100).map(|_| second.next_steps()).collect();
    let c: Vec<u32> = (0..100).map(|_| other.next_steps()).collect();
    assert_eq!(a, b);
    assert_ne!(a, c);
}

#[test]
fn every_pixel_has_its_own_jitter() {
    let mut here = Jitter::for_pixel(7, 0);
    let mut there = Jitter::for_pixel(7, 1);
    assert_eq!(here.state, 7u64.wrapping_mul(JITTER_FACTOR).wrapping_add(JITTER_INCREMENT));
    assert_eq!(there.state, 8u64.wrapping_mul(JITTER_FACTOR).wrapping_add(JITTER_INCREMENT));
    assert_eq!(Jitter::for_pixel(u64::MAX, 1).state, JITTER_INCREMENT);
    assert_ne!(here.next_steps(), there.next_steps());
    assert_eq!(Jitter::for_pixel(7, 1), Jitter::for_pixel(8, 0));
}
