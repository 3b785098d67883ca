use music_shuffler::paths::{extension, file_name, file_stem};
use music_shuffler::scanner::{
    filter_music_files, is_music_file, merge_scan_results, partition, scan_music_directory,
    sort_paths, worker_count,
};

fn strings(v: &[&str]) -> Vec<String> {
    v.iter().map(|s| s.to_string()).collect()
}

#[test]
fn file_name_is_last_component() {
    assert_eq!(file_name("/music/rock/song.mp3"), "song.mp3");
    assert_eq!(file_name("song.mp3"), "song.mp3");
    assert_eq!(file_name("/music/"), "");
}

#[test]
fn extension_follows_last_dot() {
    assert_eq!(extension("/m/a.b.flac"), Some("flac".to_string()));
    assert_eq!(extension("/m/track"), None);
    assert_eq!(extension("/m/.mp3"), None);
    assert_eq!(extension("/m/..mp3"), Some("mp3".to_string()));
    assert_eq!(extension("/m/dir.d/track"), None);
    assert_eq!(extension("/m/x."), Some("".to_string()));
}

#[test]
fn stem_drops_extension() {
    assert_eq!(file_stem("/m/a.b.flac"), Some("a.b".to_string()));
    assert_eq!(file_stem("/m/track"), Some("track".to_string()));
    assert_eq!(file_stem("/m/.hidden"), Some(".hidden".to_string()));
    assert_eq!(file_stem("/m/"), None);
}

#[test]
fn music_extensions_ignore_case() {
    for p in ["a.mp3", "a.WAV", "a.Ogg", "a.flac", "a.M4A", "a.aac", "a.wma"] {
        assert!(is_music_file(p), "{}", p);
    }
    for p in ["a.txt", "a.mp", "a.mp33", "/m/.mp3", "mp3", "/m/flac/cover.jpg"] {
        assert!(!is_music_file(p), "{}", p);
    }
}

#[test]
fn scan_keeps_three_sorted_music_files() {
    let found = strings(&[
        "/music/c.mp3",
        "/music/notes.txt",
        "/music/a.mp3",
        "/music/cover.jpg",
        "/music/b.mp3",
    ]);
    let r = scan_music_directory(&found);
    assert_eq!(r, strings(&["/music/a.mp3", "/music/b.mp3", "/music/c.mp3"]));
}

#[test]
fn path_order_is_by_component() {
    let v = strings(&["/m/a.b.mp3", "/m/a/b.mp3", "/m/A.mp3", "/m/a-c.mp3"]);
    let r = sort_paths(v);
    assert_eq!(r, strings(&["/m/A.mp3", "/m/a/b.mp3", "/m/a-c.mp3", "/m/a.b.mp3"]));
}

#[test]
fn scan_ignores_discovery_order() {
    let a = strings(&["/m/z.ogg", "/m/x.txt", "/m/b/a.flac", "/m/a.wav"]);
    let b = strings(&["/m/a.wav", "/m/b/a.flac", "/m/x.txt", "/m/z.ogg"]);
    assert_eq!(scan_music_directory(&a), scan_music_directory(&b));
}

#[test]
fn merge_ignores_arrival_order() {
    let p1 = strings(&["/m/d.mp3", "/m/a.mp3"]);
    let p2 = strings(&["/m/c.mp3"]);
    let p3 = strings(&["/m/b.mp3"]);
    let one = merge_scan_results(vec![p1.clone(), p2.clone(), p3.clone()]);
    let two = merge_scan_results(vec![p3, p1, p2]);
    assert_eq!(one, two);
    assert_eq!(one, strings(&["/m/a.mp3", "/m/b.mp3", "/m/c.mp3", "/m/d.mp3"]));
}

#[test]
fn filter_keeps_order() {
    let v = strings(&["/m/b.mp3", "/m/x.png", "/m/a.mp3"]);
    assert_eq!(filter_music_files(&v), strings(&["/m/b.mp3", "/m/a.mp3"]));
    assert!(filter_music_files(&Vec::new()).is_empty());
}

#[test]
fn worker_count_is_capped() {
    assert_eq!(worker_count(Some(2)), 2);
    assert_eq!(worker_count(Some(8)), 8);
    assert_eq!(worker_count(Some(32)), 8);
    assert_eq!(worker_count(None), 4);
}

#[test]
fn partition_covers_every_position() {
    assert_eq!(partition(10, 4), vec![(0, 3), (3, 6), (6, 9), (9, 10)]);
    assert_eq!(partition(8, 8), vec![(0, 1), (1, 2), (2, 3), (3, 4), (4, 5), (5, 6), (6, 7), (7, 8)]);
    assert_eq!(partition(3, 8), vec![(0, 1), (1, 2), (2, 3)]);
    assert_eq!(partition(0, 4), Vec::<(usize, usize)>::new());
}
