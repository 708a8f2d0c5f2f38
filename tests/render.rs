use desktop_gremlin::gremlin::{AnimationProperties, Animator, DesktopGremlin, FrameRect, Gremlin, SpriteError};
use desktop_gremlin::render::{load_sheet, resize_image_to_window, GremlinRender};

#[test]
fn small_sheet_is_read_at_its_own_size() {
    let props = AnimationProperties::new("IDLE".to_string(), 25);
    let image = image::DynamicImage::new_rgba8(1005, 299);
    let (a, sheet) = load_sheet(props, image, (50, 60)).unwrap();
    assert_eq!(a.texture_size, (1005, 299));
    // 101 pixels per column (rounded up) and 100 per row over three rows
    assert_eq!(a.sprite_size, (101, 100));
    assert_eq!(a.column_count, 10);
    assert_eq!(a.current_frame, 0);
    assert_eq!((sheet.width(), sheet.height()), (1005, 299));
}

#[test]
fn large_sheet_is_scaled_to_the_window_grid() {
    let props = AnimationProperties::new("RUN".to_string(), 111);
    let image = image::DynamicImage::new_rgba8(1200, 1200);
    let (a, sheet) = load_sheet(props, image, (10, 8)).unwrap();
    assert_eq!(a.sprite_size, (10, 8));
    assert_eq!(a.texture_size, (100, 96));
    assert!(sheet.width() <= 100 && sheet.height() <= 96);
    assert!(sheet.width() < 1200);
}

#[test]
fn sheet_at_threshold_keeps_its_size() {
    let props = AnimationProperties::new("RUN".to_string(), 110);
    let image = image::DynamicImage::new_rgba8(300, 220);
    let (a, sheet) = load_sheet(props, image, (10, 8)).unwrap();
    assert_eq!(a.texture_size, (300, 220));
    assert_eq!(a.sprite_size, (30, 20));
    assert_eq!(sheet.width(), 300);
}

#[test]
fn oversized_grid_is_refused() {
    let props = AnimationProperties::new("RUN".to_string(), 200);
    let image = image::DynamicImage::new_rgba8(4, 4);
    assert!(matches!(load_sheet(props, image, (u32::MAX / 5, 1)), Err(SpriteError::TextureWriteError)));
    let props = AnimationProperties::new("RUN".to_string(), 200);
    let image = image::DynamicImage::new_rgba8(4, 4);
    assert!(resize_image_to_window(&image, (u32::MAX, 1), &props).is_none());
    let shrunk = resize_image_to_window(&image, (1, 1), &props).unwrap();
    assert!(shrunk.width() <= 10);
}

#[test]
fn frame_rect_walks_the_grid() {
    let mut a = Animator::from_dimensions(AnimationProperties::new("A".to_string(), 25), 1000, 300);
    a.current_frame = 13;
    assert_eq!(a.get_frame_rect(), FrameRect { x: 300, y: 100, w: 100, h: 100 });
}

#[test]
fn present_advances_and_wraps() {
    let mut app = DesktopGremlin::new((0, 0), (10, 10));
    let mut g = Gremlin::new("G".to_string());
    g.insert_animation(AnimationProperties::new("A".to_string(), 2));
    app.current_gremlin = Some(g);
    let mut render = GremlinRender::new();
    let a = Animator::from_dimensions(AnimationProperties::new("A".to_string(), 2), 20, 10);
    app.should_check_for_action = true;
    assert_eq!(render.finish_decode(&mut app, a, 7), None);
    assert!(!app.should_check_for_action);
    assert_eq!(render.present_frame(&mut app), Some((7, FrameRect { x: 0, y: 0, w: 2, h: 10 })));
    assert!(!app.should_check_for_action);
    assert_eq!(render.present_frame(&mut app), Some((7, FrameRect { x: 2, y: 0, w: 2, h: 10 })));
    assert!(app.should_check_for_action);
    assert!(!app.should_exit);
    let cur = app.current_gremlin.as_ref().unwrap().animator.as_ref().unwrap().current_frame;
    assert_eq!(cur, 0);
}

#[test]
fn finish_decode_without_character_hands_texture_back() {
    let mut app = DesktopGremlin::new((0, 0), (10, 10));
    let mut render = GremlinRender::new();
    let a = Animator::from_dimensions(AnimationProperties::new("A".to_string(), 2), 20, 10);
    assert_eq!(render.finish_decode(&mut app, a, 9), Some(9));
    assert_eq!(render.present_frame(&mut app), None);
}

#[test]
fn full_cache_hands_back_the_evicted_texture() {
    let mut app = DesktopGremlin::new((0, 0), (10, 10));
    app.current_gremlin = Some(Gremlin::new("G".to_string()));
    let mut render = GremlinRender::new();
    for i in 0..10u64 {
        let a = Animator::from_dimensions(AnimationProperties::new(format!("A{}", i), 2), 20, 10);
        assert_eq!(render.finish_decode(&mut app, a, 100 + i), None);
    }
    let a = Animator::from_dimensions(AnimationProperties::new("B".to_string(), 2), 20, 10);
    assert_eq!(render.finish_decode(&mut app, a, 500), Some(100));
    assert_eq!(render.current_animation_name, "B");
}

#[test]
fn held_textures_are_the_cached_and_the_shown_ones() {
    let mut app = DesktopGremlin::new((0, 0), (10, 10));
    app.current_gremlin = Some(Gremlin::new("G".to_string()));
    let mut render = GremlinRender::new();
    assert!(!render.holds_texture(1));
    for i in 0..11u64 {
        let a = Animator::from_dimensions(AnimationProperties::new(format!("A{}", i), 2), 20, 10);
        render.finish_decode(&mut app, a, i);
    }
    assert!(!render.holds_texture(0));
    assert!(render.holds_texture(1));
    assert!(render.holds_texture(10));
    assert!(!render.holds_texture(11));
}

#[test]
fn small_sheet_comes_back_unchanged() {
    let props = AnimationProperties::new("IDLE".to_string(), 4);
    let mut image = image::DynamicImage::new_rgba8(40, 10);
    image.as_mut_rgba8().unwrap().put_pixel(3, 4, image::Rgba([1, 2, 3, 4]));
    let (_, sheet) = load_sheet(props, image.clone(), (5, 5)).unwrap();
    assert_eq!(sheet, image);
}
