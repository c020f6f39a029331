use wallpaper_changer::remote_store::{ImageData, OnlineImage, RemoteStep};
use wallpaper_changer::selector::{
    branch_for, LocalSearch, LocalStep, SelectionError, Source, Verdict, LOCAL_ATTEMPTS,
};

fn photo(id: &str) -> OnlineImage {
    OnlineImage::from_record(
        Some(id.to_string()),
        Some(format!("https://images.example.com/{id}?ixid=x{id}")),
        None,
        Some(format!("photo {id}")),
    )
}

fn download_id(step: &RemoteStep) -> Option<String> {
    match step {
        RemoteStep::Download(img) => Some(img.id.clone()),
        _ => None,
    }
}

#[test]
fn empty_store_fetches_then_serves_first_of_three() {
    let mut data = ImageData::new();
    assert!(matches!(data.begin(), RemoteStep::Fetch));
    let step = data.after_fetch(Some(vec![photo("a"), photo("b"), photo("c")]));
    assert_eq!(download_id(&step), Some("a".to_string()));
    let served = data.advance();
    assert_eq!(served.id, "a");
    assert_eq!(data.current_index, 1);
    assert!(!data.needs_downloading);
    assert_eq!(data.urls.len(), 3);
}

#[test]
fn fourth_run_on_three_triggers_refill() {
    let mut data = ImageData::new();
    data.after_fetch(Some(vec![photo("a"), photo("b"), photo("c")]));
    data.advance();
    assert_eq!(download_id(&data.begin()), Some("b".to_string()));
    data.advance();
    assert_eq!(download_id(&data.begin()), Some("c".to_string()));
    data.advance();
    assert_eq!(data.current_index, 3);
    assert!(matches!(data.begin(), RemoteStep::Fetch));
}

#[test]
fn cursor_counts_served_images() {
    let mut data = ImageData::new();
    let batch: Vec<OnlineImage> = (0..5).map(|i| photo(&i.to_string())).collect();
    data.after_fetch(Some(batch));
    for n in 1..=5usize {
        assert!(matches!(data.begin(), RemoteStep::Download(_)));
        data.advance();
        assert_eq!(data.current_index, n);
    }
    assert!(matches!(data.begin(), RemoteStep::Fetch));
}

#[test]
fn failed_refill_marks_store_and_serves_nothing() {
    let mut data = ImageData::new();
    data.after_fetch(Some(vec![photo("a"), photo("b")]));
    data.advance();
    let step = data.after_fetch(None);
    assert!(matches!(step, RemoteStep::Unavailable));
    assert!(data.needs_downloading);
    assert_eq!(data.current_index, 1);
    assert_eq!(data.urls.len(), 2);
    assert!(matches!(data.begin(), RemoteStep::Fetch));
}

#[test]
fn empty_batch_serves_nothing() {
    let mut data = ImageData::new();
    let step = data.after_fetch(Some(Vec::new()));
    assert!(matches!(step, RemoteStep::Unavailable));
    assert!(!data.needs_downloading);
    assert!(matches!(data.begin(), RemoteStep::Fetch));
}

#[test]
fn descriptor_fields_default_to_empty() {
    let img = OnlineImage::from_record(None, None, None, None);
    assert_eq!(img.id, "");
    assert_eq!(img.url, "");
    assert_eq!(img.date, None);
    assert_eq!(img.description, "");
    assert_eq!(img.get_description(), "");
}

#[test]
fn descriptor_reads_creation_time_in_utc() {
    let img = OnlineImage::from_record(
        Some("x".to_string()),
        None,
        Some("2020-01-01T12:30:00+02:00".to_string()),
        Some("a lake".to_string()),
    );
    let d = img.date.unwrap();
    assert_eq!((d.year, d.month, d.day, d.hour, d.minute, d.second), (2020, 1, 1, 10, 30, 0));
    assert_eq!(img.get_description(), "a lake");
    let bad = OnlineImage::from_record(None, None, Some("yesterday".to_string()), None);
    assert_eq!(bad.date, None);
}

#[test]
fn coin_picks_the_branch() {
    assert_eq!(branch_for(true), Source::Local);
    assert_eq!(branch_for(false), Source::Remote);
}

#[test]
fn local_search_accepts_first_fitting_picture() {
    let mut s = LocalSearch::new(4);
    assert_eq!(s.decide(None, 2), LocalStep::Inspect(2));
    assert_eq!(s.decide(Some(Verdict { index: 2, too_vertical: true }), 3), LocalStep::Inspect(3));
    assert_eq!(s.attempts, 2);
    assert_eq!(s.decide(Some(Verdict { index: 3, too_vertical: false }), 0), LocalStep::Accept(3));
}

#[test]
fn local_search_gives_up_on_empty_list() {
    let mut s = LocalSearch::new(0);
    assert_eq!(s.decide(None, 0), LocalStep::GiveUp);
    assert_eq!(s.step(None), LocalStep::GiveUp);
}

#[test]
fn local_search_gives_up_when_budget_is_spent() {
    let mut s = LocalSearch::new(3);
    let mut inspected = 0u32;
    let mut verdict = None;
    loop {
        match s.step(verdict) {
            LocalStep::Inspect(i) => {
                assert!(i < 3);
                inspected += 1;
                verdict = Some(Verdict { index: i, too_vertical: true });
            }
            LocalStep::GiveUp => break,
            LocalStep::Accept(_) => panic!("every picture is too vertical"),
        }
    }
    assert_eq!(inspected, LOCAL_ATTEMPTS);
}

#[test]
fn no_images_message() {
    assert_eq!(SelectionError::NoImages.message(), "No images available locally or online");
}
