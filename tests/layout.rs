use wallpaper_changer::aspect::{get_screen_size, is_too_vertical};
use wallpaper_changer::compositor::{
    blend, line_origins, outline_offsets, overlay_shadow, parse_anchor, Anchor,
};
use wallpaper_changer::config::Config;

#[test]
fn tall_picture_is_too_vertical_for_wide_screen() {
    assert!(is_too_vertical(1000, 3000, 1920, 1080));
}

#[test]
fn screen_sized_picture_is_accepted() {
    assert!(!is_too_vertical(1920, 1080, 1920, 1080));
}

#[test]
fn ratio_of_exactly_three_halves_is_accepted() {
    assert!(!is_too_vertical(1000, 1500, 1000, 1000));
    assert!(is_too_vertical(1000, 1501, 1000, 1000));
}

#[test]
fn empty_sizes_behave_like_float_division() {
    assert!(is_too_vertical(0, 10, 1920, 1080));
    assert!(!is_too_vertical(0, 0, 1920, 1080));
    assert!(!is_too_vertical(100, 100, 0, 1080));
    assert!(is_too_vertical(u32::MAX, u32::MAX, u32::MAX, 1));
}

#[test]
fn screen_size_defaults_to_full_hd() {
    assert_eq!(get_screen_size(None), (1920, 1080));
    assert_eq!(get_screen_size(Some((2560, 1440))), (2560, 1440));
}

#[test]
fn detected_screen_size_keeps_its_low_bits() {
    let wide: usize = (1usize << 32) + 5;
    assert_eq!(get_screen_size(Some((wide, 7))), (5, 7));
}

#[test]
fn anchor_none_draws_nothing() {
    assert_eq!(parse_anchor("none"), None);
}

#[test]
fn anchors_by_name() {
    assert_eq!(parse_anchor("center"), Some(Anchor::Center));
    assert_eq!(parse_anchor("top_right"), Some(Anchor::TopRight));
    assert_eq!(parse_anchor("bottom_left"), Some(Anchor::BottomLeft));
    assert_eq!(parse_anchor("bottom_right"), Some(Anchor::BottomRight));
    assert_eq!(parse_anchor("top_left"), Some(Anchor::TopLeft));
    assert_eq!(parse_anchor("anywhere"), Some(Anchor::TopLeft));
}

#[test]
fn line_origins_per_anchor() {
    let widths = vec![200u32, 100];
    assert_eq!(
        line_origins(Anchor::TopLeft, 1920, 1080, 40, 28, &widths),
        vec![(10, 10), (10, 43)]
    );
    assert_eq!(
        line_origins(Anchor::TopRight, 1920, 1080, 40, 28, &widths),
        vec![(1710, 10), (1810, 43)]
    );
    assert_eq!(
        line_origins(Anchor::BottomLeft, 1920, 1080, 40, 28, &widths),
        vec![(10, 1030), (10, 1063)]
    );
    assert_eq!(
        line_origins(Anchor::BottomRight, 1920, 1080, 40, 28, &widths),
        vec![(1710, 1030), (1810, 1063)]
    );
    assert_eq!(
        line_origins(Anchor::Center, 1920, 1080, 40, 28, &widths),
        vec![(860, 520), (910, 553)]
    );
}

#[test]
fn centred_line_wider_than_image_rounds_toward_zero() {
    assert_eq!(line_origins(Anchor::Center, 100, 50, 61, 10, &vec![111]), vec![(-5, -5)]);
}

#[test]
fn blend_mixes_by_opacity() {
    assert_eq!(blend([200, 100, 0, 255], [0, 0, 0, 255]), [0, 0, 0, 255]);
    assert_eq!(blend([200, 100, 0, 7], [0, 0, 0, 0]), [200, 100, 0, 255]);
    assert_eq!(blend([255, 255, 255, 255], [0, 0, 0, 128]), [127, 127, 127, 255]);
    assert_eq!(blend([10, 20, 30, 255], [250, 240, 230, 51]), [58, 64, 70, 255]);
}

#[test]
fn shadow_changes_only_covered_pixels() {
    let mut base = vec![255u8, 255, 255, 200, 10, 20, 30, 40];
    let shadow = vec![0u8, 0, 0, 0, 0, 0, 0, 255];
    overlay_shadow(&mut base, &shadow);
    assert_eq!(base, vec![255, 255, 255, 200, 0, 0, 0, 255]);
}

#[test]
fn outline_is_stamped_at_eight_neighbours() {
    assert_eq!(
        outline_offsets(),
        vec![(-1, -1), (0, -1), (1, -1), (-1, 0), (1, 0), (-1, 1), (0, 1), (1, 1)]
    );
}

#[test]
fn default_settings() {
    let c = Config::with_pictures_folder("/home/me/Pictures".to_string());
    assert_eq!(c.api_key, "");
    assert_eq!(c.font_size, 28);
    assert_eq!(c.images_per_download, 10);
    assert_eq!(c.label_position, "top_right");
    assert_eq!(c.pictures_folder, "/home/me/Pictures");
    assert_eq!(c.search_terms, "");
    assert!(c.use_unsplash);
}
