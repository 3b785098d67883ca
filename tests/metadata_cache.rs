use music_shuffler::cache::{is_cache_valid, CachedMetadata, FileCache, Fingerprint, Timestamp};
use music_shuffler::loader::{resolve_cached, resolve_fresh, MetadataLoader};
use music_shuffler::metadata::{duration_ms, SongMetadata, StreamFacts, TagFields};
use music_shuffler::playlist::PendingQueue;
use music_shuffler::settings::{cache_file_path_in, config_path_in, files_from_cache, get_cache_file_path, join_path};

fn no_tags() -> TagFields {
    TagFields { title: None, artist: None, album: None, picture: None }
}

fn song(title: &str) -> SongMetadata {
    SongMetadata {
        title: title.to_string(),
        artist: "Artist".to_string(),
        album: "Album".to_string(),
        duration_ms: Some(180_000),
        album_art: Some(vec![1, 2, 3]),
    }
}

fn fp(size: u64, secs: u64) -> Fingerprint {
    Fingerprint { size, modified: Timestamp { secs, nanos: 7 } }
}

fn empty_cache(dir: &str) -> FileCache {
    FileCache::new(dir.to_string(), Timestamp { secs: 1, nanos: 0 }, vec![])
}

#[test]
fn tags_fill_metadata() {
    let tags = TagFields {
        title: Some("Song".to_string()),
        artist: Some("Band".to_string()),
        album: Some("Record".to_string()),
        picture: Some(vec![9, 9]),
    };
    let m = SongMetadata::from_tags("/m/track01.mp3", tags, Some(1234));
    assert_eq!(m.title, "Song");
    assert_eq!(m.artist, "Band");
    assert_eq!(m.album, "Record");
    assert_eq!(m.duration_ms, Some(1234));
    assert_eq!(m.album_art, Some(vec![9, 9]));
}

#[test]
fn missing_tags_fall_back() {
    let m = SongMetadata::from_tags("/m/track01.flac", no_tags(), None);
    assert_eq!(m.title, "track01");
    assert_eq!(m.artist, "Unknown Artist");
    assert_eq!(m.album, "Unknown Album");
    assert_eq!(m.duration_ms, None);
    assert_eq!(m.album_art, None);
}

#[test]
fn placeholder_shows_loading() {
    let m = SongMetadata::placeholder("/m/intro.ogg");
    assert_eq!(m.title, "intro");
    assert_eq!(m.artist, "Loading…");
    assert_eq!(m.album, "Loading…");
    assert!(m.is_loading());
    assert!(!song("x").is_loading());
    assert_eq!(SongMetadata::placeholder("/m/").title, "Unknown");
}

#[test]
fn duration_prefers_tag_then_rate_then_time_base_then_decoder() {
    let facts = |tag: Option<u64>, frames: Option<u64>, rate: Option<u32>, tb: Option<(u32, u32)>| StreamFacts {
        tag_duration_ms: tag,
        n_frames: frames,
        sample_rate: rate,
        time_base: tb,
    };
    assert_eq!(duration_ms(Some(facts(Some(5000), Some(44100), Some(44100), None)), Some(1)), Some(5000));
    assert_eq!(duration_ms(Some(facts(None, Some(441000), Some(44100), None)), Some(1)), Some(10_000));
    assert_eq!(duration_ms(Some(facts(None, Some(300), None, Some((1, 100)))), Some(1)), Some(3000));
    assert_eq!(duration_ms(Some(facts(None, None, Some(44100), None)), Some(2500)), Some(2500));
    assert_eq!(duration_ms(Some(facts(None, Some(10), Some(0), Some((1, 0)))), None), None);
    assert_eq!(duration_ms(None, Some(42)), Some(42));
    assert_eq!(duration_ms(Some(facts(None, Some(u64::MAX), Some(1), None)), None), Some(u64::MAX));
}

#[test]
fn lookup_hits_only_with_same_fingerprint() {
    let mut c = empty_cache("/music");
    c.upsert("/music/a.mp3".to_string(), song("A"), fp(100, 50));
    assert_eq!(c.lookup("/music/a.mp3", fp(100, 50)).map(|m| m.title), Some("A".to_string()));
    assert!(c.lookup("/music/a.mp3", fp(101, 50)).is_none());
    assert!(c.lookup("/music/a.mp3", fp(100, 51)).is_none());
    let mut later = fp(100, 50);
    later.modified.nanos = 8;
    assert!(c.lookup("/music/a.mp3", later).is_none());
    assert!(c.lookup("/music/b.mp3", fp(100, 50)).is_none());
}

#[test]
fn upsert_replaces_entry() {
    let mut c = empty_cache("/music");
    c.upsert("/music/a.mp3".to_string(), song("A"), fp(1, 1));
    c.upsert("/music/b.mp3".to_string(), song("B"), fp(2, 2));
    c.upsert("/music/a.mp3".to_string(), song("A2"), fp(3, 3));
    assert_eq!(c.entry_count(), 2);
    assert!(c.lookup("/music/a.mp3", fp(1, 1)).is_none());
    assert_eq!(c.lookup("/music/a.mp3", fp(3, 3)).map(|m| m.title), Some("A2".to_string()));
    assert_eq!(c.lookup("/music/b.mp3", fp(2, 2)).map(|m| m.title), Some("B".to_string()));
}

#[test]
fn cache_of_other_directory_is_invalid() {
    let mut c = empty_cache("/music");
    c.upsert("/music/a.mp3".to_string(), song("A"), fp(1, 1));
    assert!(is_cache_valid(&c, "/music"));
    assert!(!is_cache_valid(&c, "/other"));
    assert!(!is_cache_valid(&c, "/music/"));
}

#[test]
fn miss_then_fresh_then_hit() {
    let mut cache = empty_cache("/music");
    let path = "/music/f.mp3".to_string();
    let mut queue = PendingQueue::new();
    assert!(resolve_cached(&cache, 3, &path, Some(fp(10, 20))).is_none());
    let (u, changed) = resolve_fresh(&mut cache, 3, &path, song("F"), Some(fp(10, 20)));
    assert!(changed);
    queue.push(u);
    let hit = resolve_cached(&cache, 3, &path, Some(fp(10, 20))).expect("hit");
    assert_eq!(hit.index, 3);
    assert_eq!(hit.metadata.title, "F");
    let drained = queue.drain();
    assert_eq!(drained.len(), 1);
    assert_eq!(drained[0].index, 3);
    assert_eq!(drained[0].path, path);
}

#[test]
fn fresh_without_fingerprint_leaves_cache() {
    let mut cache = empty_cache("/music");
    let path = "/music/f.mp3".to_string();
    let (u, changed) = resolve_fresh(&mut cache, 0, &path, song("F"), None);
    assert!(!changed);
    assert_eq!(u.metadata.title, "F");
    assert_eq!(cache.entry_count(), 0);
    assert!(resolve_cached(&cache, 0, &path, None).is_none());
}

#[test]
fn paths_join_under_config_dir() {
    assert_eq!(join_path("/home/u/.config/app", "x.txt"), "/home/u/.config/app/x.txt");
    assert_eq!(join_path("/home/u/", "x.txt"), "/home/u/x.txt");
    assert_eq!(join_path("", "x.txt"), "x.txt");
    assert_eq!(config_path_in("/c"), "/c/config.txt");
    assert_eq!(cache_file_path_in("/c"), "/c/file_cache.json");
    if let Some(p) = get_cache_file_path() {
        assert!(p.ends_with("/file_cache.json"));
    }
}

#[test]
fn cached_files_only_for_same_directory() {
    let c = FileCache::new("/music".to_string(), Timestamp { secs: 1, nanos: 0 }, vec!["/music/a.mp3".to_string()]);
    assert_eq!(files_from_cache(Some(c), "/music"), Some(vec!["/music/a.mp3".to_string()]));
    let c = FileCache::new("/music".to_string(), Timestamp { secs: 1, nanos: 0 }, vec!["/music/a.mp3".to_string()]);
    assert_eq!(files_from_cache(Some(c), "/elsewhere"), None);
    assert_eq!(files_from_cache(None, "/music"), None);
}

#[test]
fn records_rebuild_the_cache_in_any_order() {
    let rec = |p: &str, t: &str, f: Fingerprint| (p.to_string(), CachedMetadata { metadata: song(t), fingerprint: f });
    let forward = vec![rec("/m/a.mp3", "A", fp(1, 1)), rec("/m/b.mp3", "B", fp(2, 2)), rec("/m/c.mp3", "C", fp(3, 3))];
    let backward = vec![rec("/m/c.mp3", "C", fp(3, 3)), rec("/m/b.mp3", "B", fp(2, 2)), rec("/m/a.mp3", "A", fp(1, 1))];
    let files = vec!["/m/a.mp3".to_string(), "/m/b.mp3".to_string(), "/m/c.mp3".to_string()];
    let x = FileCache::from_records("/m".to_string(), Timestamp { secs: 5, nanos: 6 }, files.clone(), forward);
    let y = FileCache::from_records("/m".to_string(), Timestamp { secs: 5, nanos: 6 }, files.clone(), backward);
    for c in [&x, &y] {
        assert_eq!(c.directory, "/m");
        assert_eq!(c.files, files);
        assert_eq!(c.last_scan, Timestamp { secs: 5, nanos: 6 });
        assert_eq!(c.entry_count(), 3);
        assert_eq!(c.lookup("/m/b.mp3", fp(2, 2)).map(|m| m.title), Some("B".to_string()));
        assert_eq!(c.lookup("/m/c.mp3", fp(3, 3)).map(|m| m.album_art), Some(Some(vec![1, 2, 3])));
    }
}

#[test]
fn later_record_of_a_path_wins() {
    let rec = |t: &str, f: Fingerprint| ("/m/a.mp3".to_string(), CachedMetadata { metadata: song(t), fingerprint: f });
    let c = FileCache::from_records("/m".to_string(), Timestamp { secs: 0, nanos: 0 }, vec![], vec![rec("Old", fp(1, 1)), rec("New", fp(2, 2))]);
    assert_eq!(c.entry_count(), 1);
    assert!(c.lookup("/m/a.mp3", fp(1, 1)).is_none());
    assert_eq!(c.lookup("/m/a.mp3", fp(2, 2)).map(|m| m.title), Some("New".to_string()));
}

#[test]
fn loader_serves_hits_and_records_misses_in_order() {
    let mut cache = empty_cache("/music");
    cache.upsert("/music/a.mp3".to_string(), song("A"), fp(1, 1));
    let paths = vec!["/music/a.mp3".to_string(), "/music/b.mp3".to_string(), "/music/c.mp3".to_string()];
    let mut loader = MetadataLoader::new(paths, cache);
    let mut queue = PendingQueue::new();

    assert_eq!(loader.current().map(|s| s.as_str()), Some("/music/a.mp3"));
    let hit = loader.try_cached(Some(fp(1, 1))).expect("cached");
    queue.push(hit);

    assert_eq!(loader.current().map(|s| s.as_str()), Some("/music/b.mp3"));
    assert!(loader.try_cached(Some(fp(2, 2))).is_none());
    let fresh = loader.fresh(Some(song("B")), Some(fp(2, 2))).expect("fresh");
    queue.push(fresh);

    assert!(loader.try_cached(None).is_none());
    assert!(loader.fresh(None, None).is_none());
    assert!(loader.current().is_none());

    let updates = queue.drain();
    let indices: Vec<usize> = updates.iter().map(|u| u.index).collect();
    assert_eq!(indices, vec![0, 1]);
    assert_eq!(updates[1].metadata.title, "B");

    let saved = loader.finish().expect("cache changed");
    assert_eq!(saved.entry_count(), 2);
    assert_eq!(saved.lookup("/music/b.mp3", fp(2, 2)).map(|m| m.title), Some("B".to_string()));
}

#[test]
fn loader_with_only_hits_saves_nothing() {
    let mut cache = empty_cache("/music");
    cache.upsert("/music/a.mp3".to_string(), song("A"), fp(1, 1));
    let mut loader = MetadataLoader::new(vec!["/music/a.mp3".to_string()], cache);
    assert!(loader.try_cached(Some(fp(1, 1))).is_some());
    assert!(loader.current().is_none());
    assert!(loader.finish().is_none());
}
