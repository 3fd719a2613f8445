use imagebuddy::index::{next_index, offset_index, prev_index};
use imagebuddy::{image_files, is_image, ImageCache, Slideshow};

fn names(list: &[&str]) -> Vec<String> {
    list.iter().map(|s| s.to_string()).collect()
}

fn abc() -> Slideshow<u32> {
    Slideshow::new("/pics".to_string(), names(&["a.png", "b.jpg", "c.png"]))
}

#[test]
fn offset_index_stays_in_range() {
    for len in 1usize..7 {
        for index in 0..len {
            for offset in -20i32..20 {
                let r = offset_index(index, offset, len);
                assert!(r < len);
                assert_eq!(r as i64, (index as i64 + offset as i64).rem_euclid(len as i64));
            }
        }
    }
    assert_eq!(offset_index(2, i32::MIN, 3), (2i64 + i32::MIN as i64).rem_euclid(3) as usize);
    assert_eq!(offset_index(0, i32::MAX, 5), (i32::MAX as i64).rem_euclid(5) as usize);
}

#[test]
fn next_and_prev_wrap_at_the_ends() {
    assert_eq!(next_index(4, 5), 0);
    assert_eq!(next_index(1, 5), 2);
    assert_eq!(prev_index(0, 5), 4);
    assert_eq!(prev_index(3, 5), 2);
    assert_eq!(next_index(0, 1), 0);
    assert_eq!(prev_index(0, 1), 0);
}

#[test]
fn incr_from_last_goes_to_first_and_decr_back() {
    let mut s = abc();
    s.set_file_index(2);
    s.incr_file_index();
    assert_eq!(s.file_index(), Some(0));
    s.decr_file_index();
    assert_eq!(s.file_index(), Some(2));
}

#[test]
fn incr_from_last_prefetches_only_uncached() {
    let mut s = abc();
    s.set_file_index(2);
    let job = s.incr_file_index();
    assert_eq!(s.file_index(), Some(0));
    // the prefetch looks one ahead of the new position
    assert_eq!(job, Some("/pics/b.jpg".to_string()));

    let mut s = abc();
    s.set_file_index(2);
    assert_eq!(s.request_preload_image(1), Some("/pics/a.png".to_string()));
    s.store_image("/pics/a.png".to_string(), 7);
    assert_eq!(s.request_preload_image(1), None);
    s.store_image("/pics/b.jpg".to_string(), 8);
    assert_eq!(s.incr_file_index(), None);
    assert_eq!(s.file_index(), Some(0));
}

#[test]
fn request_on_cached_path_yields_no_job() {
    let mut s = abc();
    for offset in -4i32..5 {
        assert!(s.request_preload_image(offset).is_some());
    }
    s.store_image("/pics/b.jpg".to_string(), 1);
    assert_eq!(s.request_preload_image(1), None);
    assert_eq!(s.request_preload_image(4), None);
    assert_eq!(s.request_preload_image(-2), None);
    assert_eq!(s.request_preload_image(2), Some("/pics/c.png".to_string()));
    assert_eq!(s.request_preload_image(0), Some("/pics/a.png".to_string()));
}

#[test]
fn empty_directory_has_no_position_and_no_jobs() {
    let mut s: Slideshow<u32> = Slideshow::new("/empty".to_string(), vec![]);
    assert_eq!(s.file_index(), None);
    assert_eq!(s.incr_file_index(), None);
    assert_eq!(s.file_index(), None);
    s.decr_file_index();
    assert_eq!(s.file_index(), None);
    assert_eq!(s.request_preload_image(1), None);
    assert!(s.startup_jobs().is_empty());
    assert_eq!(s.current_path(), None);
    s.toggle_playing();
    assert_eq!(s.tick(1_000_000_000, 100), None);
    assert_eq!(s.file_index(), None);
}

#[test]
fn playback_advances_once_per_tick_and_resets_baseline() {
    let ms: u64 = 1_000_000;
    let period = 100 * ms; // framerate 10
    let mut s = abc();
    assert!(!s.playing());
    assert_eq!(s.tick(500 * ms, period), None);
    assert_eq!(s.file_index(), Some(0));

    s.toggle_playing();
    assert!(s.playing());
    assert_eq!(s.tick(50 * ms, period), None);
    assert_eq!(s.file_index(), Some(0));

    // far past the threshold: still exactly one step
    assert_eq!(s.tick(350 * ms, period), Some("/pics/c.png".to_string()));
    assert_eq!(s.file_index(), Some(1));
    // the baseline is now 350 ms, not 350 ms minus the remainder
    assert_eq!(s.tick(400 * ms, period), None);
    assert_eq!(s.file_index(), Some(1));
    assert_eq!(s.tick(450 * ms, period), None);
    assert_eq!(s.tick(451 * ms, period), Some("/pics/a.png".to_string()));
    assert_eq!(s.file_index(), Some(2));

    s.toggle_playing();
    assert_eq!(s.tick(10_000 * ms, period), None);
    assert_eq!(s.file_index(), Some(2));
}

#[test]
fn results_in_any_order_fill_the_cache() {
    let mut one: ImageCache<u32> = ImageCache::new();
    one.insert("/p/x.png".to_string(), 1);
    one.insert("/p/y.png".to_string(), 2);
    let mut two: ImageCache<u32> = ImageCache::new();
    two.insert("/p/y.png".to_string(), 2);
    two.insert("/p/x.png".to_string(), 1);
    for c in [&one, &two] {
        assert_eq!(c.get(&"/p/x.png".to_string()), Some(&1));
        assert_eq!(c.get(&"/p/y.png".to_string()), Some(&2));
    }
}

#[test]
fn inserting_a_path_twice_keeps_the_last_handle() {
    let mut c: ImageCache<u32> = ImageCache::new();
    c.insert("/p/x.png".to_string(), 1);
    c.insert("/p/x.png".to_string(), 5);
    assert_eq!(c.get(&"/p/x.png".to_string()), Some(&5));
    assert!(c.contains(&"/p/x.png".to_string()));
    assert!(!c.contains(&"/p/z.png".to_string()));
    c.clear();
    assert_eq!(c.get(&"/p/x.png".to_string()), None);
}

#[test]
fn startup_jobs_cover_current_to_end() {
    let mut s: Slideshow<u32> =
        Slideshow::restore("/d".to_string(), names(&["a.png", "b.png", "c.png", "d.png"]), Some(1), false);
    assert_eq!(s.file_index(), Some(1));
    assert_eq!(s.startup_jobs(), names(&["/d/b.png", "/d/c.png", "/d/d.png"]));
    s.store_image("/d/c.png".to_string(), 3);
    assert_eq!(s.startup_jobs(), names(&["/d/b.png", "/d/d.png"]));
}

#[test]
fn restore_falls_back_on_stale_index() {
    let s: Slideshow<u32> = Slideshow::restore("/d".to_string(), names(&["a.png"]), Some(4), true);
    assert_eq!(s.file_index(), Some(0));
    assert!(s.playing());
    let s: Slideshow<u32> = Slideshow::restore("/d".to_string(), vec![], Some(0), false);
    assert_eq!(s.file_index(), None);
}

#[test]
fn change_directory_resets_position_and_cache() {
    let mut s = abc();
    s.set_file_index(1);
    s.store_image("/pics/a.png".to_string(), 1);
    s.change_directory("/other".to_string(), names(&["z.jpg"]));
    assert_eq!(s.file_index(), Some(0));
    assert_eq!(s.dir(), "/other");
    assert_eq!(s.current_path(), Some("/other/z.jpg".to_string()));
    assert!(!s.cache().contains(&"/pics/a.png".to_string()));
    s.change_directory("/none".to_string(), vec![]);
    assert_eq!(s.file_index(), None);
}

#[test]
fn wrap_file_index_wraps_once() {
    let s = abc();
    assert_eq!(s.wrap_file_index(0), 0);
    assert_eq!(s.wrap_file_index(2), 2);
    assert_eq!(s.wrap_file_index(3), 0);
    assert_eq!(s.wrap_file_index(5), 2);
}

#[test]
fn file_path_joins_dir_and_name() {
    let s = abc();
    assert_eq!(s.file_path(1), "/pics/b.jpg");
    assert_eq!(s.current_path(), Some("/pics/a.png".to_string()));
}

#[test]
fn image_names_by_extension() {
    assert!(is_image("a.png"));
    assert!(is_image("photo.jpg"));
    assert!(is_image("..png"));
    assert!(is_image("x.y.jpg"));
    assert!(!is_image(".png"));
    assert!(!is_image("a.PNG"));
    assert!(!is_image("a.jpeg"));
    assert!(!is_image("a.gif"));
    assert!(!is_image("png"));
    assert!(!is_image("a.png.txt"));
    assert!(!is_image(""));
    assert!(is_image("bild-ü.png"));
}

#[test]
fn image_files_filters_and_sorts() {
    let r = image_files(names(&["c.png", "notes.txt", "a.png", "B.jpg", ".png", "b.jpg", "ä.png", "a.png"]));
    assert_eq!(r, names(&["B.jpg", "a.png", "a.png", "b.jpg", "c.png", "ä.png"]));
    let mut sorted = r.clone();
    sorted.sort();
    assert_eq!(r, sorted);
    assert!(image_files(vec![]).is_empty());
    assert_eq!(image_files(names(&["ab.png", "a.png"])), names(&["a.png", "ab.png"]));
}

#[test]
fn preload_image_caches_a_texture() {
    let ctx = egui::Context::default();
    let mut s: Slideshow<egui::TextureHandle> =
        Slideshow::new("/pics".to_string(), names(&["a.png", "b.jpg"]));
    assert_eq!(s.request_preload_image(1), Some("/pics/b.jpg".to_string()));
    let img = egui::ColorImage::new([2, 3], egui::Color32::RED);
    s.preload_image(&ctx, "/pics/b.jpg".to_string(), img);
    assert_eq!(s.request_preload_image(1), None);
    let handle = s.cache().get(&"/pics/b.jpg".to_string()).unwrap();
    assert_eq!(handle.size(), [2, 3]);
}
