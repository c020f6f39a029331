use wallpaper_changer::catalog::{absolute_paths, cache_is_fresh, relative_paths, stale_files};
use wallpaper_changer::delivery::{
    choose_search_term, delivery_address, search_address, split_terms, DownloadPlan, UrlError,
};
use wallpaper_changer::paths::{extension_of, file_name_of, is_image, join_path, stem_of, Paths};
use wallpaper_changer::remote_store::{ImageData, OnlineImage};
use wallpaper_changer::timestamp::Timestamp;

fn strings(v: &[&str]) -> Vec<String> {
    v.iter().map(|s| s.to_string()).collect()
}

#[test]
fn image_extensions() {
    for ok in ["a.jpg", "a.jpeg", "a.png", "a.gif", "a.bmp", "a.tiff", "d/b.c.webp"] {
        assert!(is_image(ok), "{ok}");
    }
    for no in ["a.JPG", "a.txt", "jpg", ".png", "dir.png/file", "a.", "a.jpg.bak"] {
        assert!(!is_image(no), "{no}");
    }
}

#[test]
fn file_name_stem_and_extension() {
    assert_eq!(file_name_of("/a/b/c.tar.gz"), "c.tar.gz");
    assert_eq!(stem_of("c.tar.gz"), "c.tar");
    assert_eq!(extension_of("c.tar.gz"), Some("gz"));
    assert_eq!(stem_of(".bashrc"), ".bashrc");
    assert_eq!(extension_of(".bashrc"), None);
    assert_eq!(file_name_of("plain"), "plain");
}

#[test]
fn join_adds_one_separator() {
    assert_eq!(join_path("/a", "b"), "/a/b");
    assert_eq!(join_path("/a/", "b"), "/a/b");
}

#[test]
fn program_files_live_under_base_dir() {
    let p = Paths::new("/data/wallpaper-changer-rs".to_string());
    assert_eq!(p.image_data_path(), "/data/wallpaper-changer-rs/image_data.json");
    assert_eq!(p.config_file(), "/data/wallpaper-changer-rs/config.toml");
    assert_eq!(p.logs_dir(), "/data/wallpaper-changer-rs/logs");
    assert_eq!(p.temp_dir(), "/data/wallpaper-changer-rs/tmp");
    assert_eq!(p.crontab_temp_file(), "/data/wallpaper-changer-rs/tmp/crontab");
    assert_eq!(p.downloaded_pictures_dir(), "/data/wallpaper-changer-rs/pictures");
}

#[test]
fn base_dir_is_named_after_the_program() {
    let p = Paths::in_data_dir("/home/me/.local/share");
    assert_eq!(p.base_dir, "/home/me/.local/share/wallpaper-changer-rs");
}

#[test]
fn background_file_is_named_by_time() {
    let p = Paths::new("/d".to_string());
    let t = Timestamp { year: 2024, month: 3, day: 9, hour: 7, minute: 5, second: 0 };
    assert_eq!(p.background_path(t), "/d/tmp/background_2024-03-09_07-05-00.png");
}

#[test]
fn path_cache_file_flattens_folder_path() {
    let p = Paths::new("/data/w".to_string());
    assert_eq!(
        p.get_path_cache_file_path("/home/me/Pictures"),
        "/data/w/path_cache/_home_me_Pictures"
    );
    assert_eq!(p.get_path_cache_file_path("C:\\Users\\me"), "/data/w/path_cache/C:_Users_me");
}

#[test]
fn parent_to_create() {
    assert_eq!(Paths::create_file_parent_if_needed("/data/w/tmp/crontab"), Some("/data/w/tmp"));
    assert_eq!(Paths::create_file_parent_if_needed("crontab"), None);
    assert_eq!(Paths::create_file_parent_if_needed("/crontab"), None);
}

#[test]
fn remote_image_path_is_named_by_identity() {
    let p = Paths::new("/data/w".to_string());
    let img = OnlineImage::from_record(Some("abc".to_string()), None, None, None);
    assert_eq!(img.get_path(&p), "/data/w/pictures/unsplash_abc.jpg");
}

#[test]
fn cache_freshness() {
    assert!(cache_is_fresh(Some(5), Some(5)));
    assert!(cache_is_fresh(Some(4), Some(5)));
    assert!(!cache_is_fresh(Some(6), Some(5)));
    assert!(!cache_is_fresh(None, Some(5)));
    assert!(!cache_is_fresh(Some(5), None));
}

#[test]
fn cached_listing_reads_back_the_same() {
    let dir = "/home/me/Pictures";
    let images = strings(&["/home/me/Pictures/a.jpg", "/home/me/Pictures/trip/b.png"]);
    let entries = relative_paths(dir, &images);
    assert_eq!(entries, strings(&["a.jpg", "trip/b.png"]));
    assert_eq!(absolute_paths(dir, &entries), images);
}

#[test]
fn cached_listing_reads_back_under_folder_with_trailing_slash() {
    let dir = "/home/me/Pictures/";
    let images = absolute_paths(dir, &strings(&["a.jpg", "trip/b.png", "c d.gif"]));
    assert_eq!(images, strings(&["/home/me/Pictures/a.jpg", "/home/me/Pictures/trip/b.png", "/home/me/Pictures/c d.gif"]));
    let cached = relative_paths(dir, &images);
    assert_eq!(absolute_paths(dir, &cached), images);
}

#[test]
fn stale_files_are_those_not_kept() {
    let listed = strings(&["/p/a.jpg", "/p/b.jpg", "/p/c.jpg"]);
    let keep = strings(&["/p/b.jpg"]);
    assert_eq!(stale_files(&listed, &keep), strings(&["/p/a.jpg", "/p/c.jpg"]));
    assert_eq!(stale_files(&listed, &Vec::new()), listed);
}

#[test]
fn old_batch_files_are_listed_for_deletion() {
    let p = Paths::new("/d".to_string());
    let mut data = ImageData::new();
    data.after_fetch(Some(vec![
        OnlineImage::from_record(Some("a".to_string()), None, None, None),
        OnlineImage::from_record(Some("b".to_string()), None, None, None),
    ]));
    assert_eq!(data.cached_paths(&p), strings(&["/d/pictures/unsplash_a.jpg", "/d/pictures/unsplash_b.jpg"]));
}

#[test]
fn delivery_keeps_only_identity_token() {
    let url = delivery_address(
        "https://images.unsplash.com/photo-1?ixlib=rb-4.0.3&ixid=M3w1&q=80",
        1920,
        1080,
    );
    assert_eq!(
        url,
        Ok("https://images.unsplash.com/photo-1?ixid=M3w1&fm=jpg&q=85&w=1920&h=1080&fit=crop&crop=faces%2Cedges".to_string())
    );
}

#[test]
fn delivery_without_identity_token() {
    let url = delivery_address("https://images.unsplash.com/photo-2", 800, 600);
    assert_eq!(
        url,
        Ok("https://images.unsplash.com/photo-2?fm=jpg&q=85&w=800&h=600&fit=crop&crop=faces%2Cedges".to_string())
    );
}

#[test]
fn malformed_source_address_is_refused() {
    assert_eq!(delivery_address("not a url", 800, 600), Err(UrlError::Malformed));
}

#[test]
fn existing_file_is_not_fetched_again() {
    let p = Paths::new("/d".to_string());
    let img = OnlineImage::from_record(
        Some("a".to_string()),
        Some("https://images.unsplash.com/photo-1".to_string()),
        None,
        None,
    );
    assert!(matches!(img.download_plan(&p, true, (800, 600)), DownloadPlan::AlreadyThere));
    assert!(matches!(img.download_plan(&p, true, (800, 600)), DownloadPlan::AlreadyThere));
    match img.download_plan(&p, false, (800, 600)) {
        DownloadPlan::Fetch { url, dest } => {
            assert_eq!(url, "https://images.unsplash.com/photo-1?fm=jpg&q=85&w=800&h=600&fit=crop&crop=faces%2Cedges");
            assert_eq!(dest, "/d/pictures/unsplash_a.jpg");
        }
        _ => panic!("a missing file is fetched"),
    }
    let bad = OnlineImage::from_record(Some("b".to_string()), None, None, None);
    assert!(matches!(bad.download_plan(&p, false, (800, 600)), DownloadPlan::BadUrl));
}

#[test]
fn search_terms_split_at_commas() {
    assert_eq!(split_terms("a,b,,c"), strings(&["a", "b", "", "c"]));
    assert_eq!(split_terms(""), strings(&[""]));
    let t = choose_search_term("sea,forest");
    assert!(t == "sea" || t == "forest");
    assert_eq!(choose_search_term(""), "");
}

#[test]
fn search_address_without_key_uses_proxy() {
    assert_eq!(
        search_address("", "", 10),
        Ok("https://lfnewtab.vercel.app/unsplash/photos/random?count=10".to_string())
    );
    assert_eq!(
        search_address("", "random", 3),
        Ok("https://lfnewtab.vercel.app/unsplash/photos/random?count=3".to_string())
    );
}

#[test]
fn search_address_with_key_and_term() {
    assert_eq!(
        search_address("KEY", "snowy mountains", 5),
        Ok("https://api.unsplash.com/photos/random?query=snowy+mountains&count=5&client_id=KEY".to_string())
    );
}
