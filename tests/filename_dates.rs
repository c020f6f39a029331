use wallpaper_changer::caption::{format_date_in_french, local_caption_text};
use wallpaper_changer::filename_date::{date_from_stem, read_number};
use wallpaper_changer::selector::LocalImage;
use wallpaper_changer::timestamp::{make_timestamp, Timestamp};

fn ts(year: i32, month: u32, day: u32, hour: u32, minute: u32, second: u32) -> Timestamp {
    Timestamp { year, month, day, hour, minute, second }
}

#[test]
fn compact_layout_gives_its_timestamp() {
    assert_eq!(date_from_stem("20200131_235959"), Some(ts(2020, 1, 31, 23, 59, 59)));
    assert_eq!(date_from_stem("19700101_000000"), Some(ts(1970, 1, 1, 0, 0, 0)));
}

#[test]
fn compact_layout_with_bad_digits_gives_nothing() {
    assert_eq!(date_from_stem("2020a131_235959"), None);
    assert_eq!(date_from_stem("20200231_120000"), None);
    assert_eq!(date_from_stem("20201301_120000"), None);
    assert_eq!(date_from_stem("20200131_240000"), None);
    assert_eq!(date_from_stem("20200131_235960"), None);
}

#[test]
fn leap_days_follow_the_gregorian_rule() {
    assert_eq!(date_from_stem("20240229_101010"), Some(ts(2024, 2, 29, 10, 10, 10)));
    assert_eq!(date_from_stem("19000229_101010"), None);
    assert_eq!(date_from_stem("20000229_101010"), Some(ts(2000, 2, 29, 10, 10, 10)));
}

#[test]
fn known_prefixes_and_separators_are_removed() {
    assert_eq!(date_from_stem("img_20200131_235959"), Some(ts(2020, 1, 31, 23, 59, 59)));
    assert_eq!(date_from_stem("photo-20200131_235959"), Some(ts(2020, 1, 31, 23, 59, 59)));
    assert_eq!(date_from_stem("__20200131_235959--"), Some(ts(2020, 1, 31, 23, 59, 59)));
}

#[test]
fn duplicate_marker_is_removed() {
    assert_eq!(date_from_stem("20200131_235959 (1)"), Some(ts(2020, 1, 31, 23, 59, 59)));
    assert_eq!(date_from_stem("img_20200131_235959(2)"), Some(ts(2020, 1, 31, 23, 59, 59)));
}

#[test]
fn dashed_layout_gives_its_timestamp() {
    assert_eq!(date_from_stem("photo_1970-01-01_00-00-00"), Some(ts(1970, 1, 1, 0, 0, 0)));
    assert_eq!(date_from_stem("2021-12-25_18-30-05"), Some(ts(2021, 12, 25, 18, 30, 5)));
    assert_eq!(date_from_stem("2021/12/25_18-30-05"), None);
}

#[test]
fn screen_capture_layout_reads_date_and_time_before_the_app_name() {
    assert_eq!(
        date_from_stem("screenshot_19700101-000000_app"),
        Some(ts(1970, 1, 1, 0, 0, 0))
    );
    assert_eq!(
        date_from_stem("screenshot_20210315-081500_com.android.chrome"),
        Some(ts(2021, 3, 15, 8, 15, 0))
    );
    assert_eq!(date_from_stem("20210315-081500xapp"), None);
    assert_eq!(date_from_stem("20210315-0815a0_app"), None);
}

#[test]
fn messaging_layout_gives_midnight() {
    assert_eq!(date_from_stem("img-20230415-wa0001"), Some(ts(2023, 4, 15, 0, 0, 0)));
    assert_eq!(date_from_stem("20190704-wa0123"), Some(ts(2019, 7, 4, 0, 0, 0)));
    assert_eq!(date_from_stem("20190732-wa0123"), None);
}

#[test]
fn messaging_export_file_takes_its_date() {
    let img = LocalImage::from("/p/IMG-20230415-WA0001.jpg".to_string(), None);
    assert_eq!(img.date, Some(ts(2023, 4, 15, 0, 0, 0)));
}

#[test]
fn unknown_layouts_give_nothing() {
    assert_eq!(date_from_stem(""), None);
    assert_eq!(date_from_stem("holiday"), None);
    assert_eq!(date_from_stem("img"), None);
    assert_eq!(date_from_stem("2020013_235959"), None);
    assert_eq!(date_from_stem("été_2020"), None);
}

#[test]
fn numbers_are_read_from_digits_only() {
    assert_eq!(read_number("ab0042", 2, 6), Some(42));
    assert_eq!(read_number("ab0042", 1, 5), None);
    assert_eq!(read_number("9", 0, 0), Some(0));
}

#[test]
fn timestamps_are_made_only_of_real_days() {
    assert_eq!(make_timestamp(2023, 4, 30, 1, 2, 3), Some(ts(2023, 4, 30, 1, 2, 3)));
    assert_eq!(make_timestamp(2023, 4, 31, 1, 2, 3), None);
    assert_eq!(make_timestamp(2023, 0, 1, 0, 0, 0), None);
}

#[test]
fn local_image_takes_the_date_of_its_name() {
    let img = LocalImage::from("/home/me/Pictures/IMG_20200131_235959.jpg".to_string(), None);
    assert_eq!(img.date, Some(ts(2020, 1, 31, 23, 59, 59)));
    assert_eq!(img.get_path(), "/home/me/Pictures/IMG_20200131_235959.jpg");
}

#[test]
fn local_image_falls_back_to_modification_time() {
    let modified = ts(2022, 6, 1, 9, 0, 0);
    let img = LocalImage::from("/home/me/Pictures/holiday.jpg".to_string(), Some(modified));
    assert_eq!(img.date, Some(modified));
    let img = LocalImage::from("/home/me/Pictures/holiday.jpg".to_string(), None);
    assert_eq!(img.date, None);
}

#[test]
fn upper_case_names_are_lowered_before_matching() {
    let img = LocalImage::from("/p/PHOTO_1999-12-31_23-59-58.JPG".to_string(), None);
    assert_eq!(img.date, Some(ts(1999, 12, 31, 23, 59, 58)));
}

#[test]
fn french_dates() {
    assert_eq!(format_date_in_french(ts(1970, 1, 1, 0, 0, 0)), "jeudi 1 janvier 1970");
    assert_eq!(format_date_in_french(ts(2024, 2, 29, 12, 0, 0)), "jeudi 29 février 2024");
    assert_eq!(format_date_in_french(ts(2023, 8, 13, 12, 0, 0)), "dimanche 13 août 2023");
    assert_eq!(format_date_in_french(ts(2023, 12, 16, 12, 0, 0)), "samedi 16 décembre 2023");
}

#[test]
fn local_caption_has_name_and_date() {
    let img = LocalImage::from("/p/IMG_20200131_235959.jpg".to_string(), None);
    assert_eq!(img.get_description(), "IMG_20200131_235959.jpg\nvendredi 31 janvier 2020");
    assert_eq!(local_caption_text("/p/cat.png", None), "cat.png\n");
}
