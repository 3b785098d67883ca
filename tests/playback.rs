use music_shuffler::clock::PlaybackClock;
use music_shuffler::metadata::SongMetadata;
use music_shuffler::playlist::{MusicShuffler, PendingQueue, PendingUpdate};
use music_shuffler::timefmt::format_time;

fn loaded(title: &str) -> SongMetadata {
    SongMetadata {
        title: title.to_string(),
        artist: "Band".to_string(),
        album: "Record".to_string(),
        duration_ms: None,
        album_art: None,
    }
}

fn update(index: usize, path: &str, title: &str) -> PendingUpdate {
    PendingUpdate { index, path: path.to_string(), metadata: loaded(title) }
}

fn shuffler_with(paths: &[&str]) -> MusicShuffler {
    let mut s = MusicShuffler::new();
    let v: Vec<String> = paths.iter().map(|p| p.to_string()).collect();
    s.start_playlist(&v);
    s
}

#[test]
fn new_playlist_shows_placeholders() {
    let s = shuffler_with(&["/m/a.mp3", "/m/b.mp3"]);
    assert_eq!(s.playlist_len(), 2);
    assert!(s.metadata_loading());
    assert_eq!(s.current_song_index(), 0);
    let (p, m) = s.item(1).unwrap();
    assert_eq!(p, "/m/b.mp3");
    assert_eq!(m.title, "b");
    assert_eq!(m.artist, "Loading…");
    assert!(!s.all_loaded());
    assert!(!s.can_generate());
}

#[test]
fn updates_fill_slots_and_end_loading() {
    let mut s = shuffler_with(&["/m/a.mp3", "/m/b.mp3"]);
    s.check_pending_metadata(vec![update(1, "/m/b.mp3", "B")]);
    assert!(s.metadata_loading());
    assert_eq!(s.item(1).unwrap().1.title, "B");
    s.check_pending_metadata(vec![update(0, "/m/a.mp3", "A")]);
    assert!(!s.metadata_loading());
    assert!(s.all_loaded());
    assert!(s.can_generate());
}

#[test]
fn stale_update_past_end_is_dropped() {
    let mut s = shuffler_with(&["/m/a.mp3"]);
    s.check_pending_metadata(vec![update(5, "/m/old.mp3", "Old"), update(1, "/m/old2.mp3", "Old2")]);
    assert_eq!(s.playlist_len(), 1);
    assert_eq!(s.item(0).unwrap().1.artist, "Loading…");
    assert!(s.item(1).is_none());
}

#[test]
fn stale_update_in_range_lands_in_new_playlist() {
    let mut queue = PendingQueue::new();
    let mut s = shuffler_with(&["/m/old0.mp3", "/m/old1.mp3", "/m/old2.mp3"]);
    s.start_playlist(&vec!["/m/new0.mp3".to_string()]);
    queue.push(update(0, "/m/old0.mp3", "Old0"));
    queue.push(update(2, "/m/old2.mp3", "Old2"));
    s.check_pending_metadata(queue.drain());
    assert_eq!(s.playlist_len(), 1);
    assert_eq!(s.item(0).unwrap().0, "/m/old0.mp3");
}

#[test]
fn second_drain_changes_nothing() {
    let mut queue = PendingQueue::new();
    let mut s = shuffler_with(&["/m/a.mp3", "/m/b.mp3"]);
    queue.push(update(0, "/m/a.mp3", "A"));
    s.check_pending_metadata(queue.drain());
    let loading = s.metadata_loading();
    let second = queue.drain();
    assert!(second.is_empty());
    assert_eq!(queue.len(), 0);
    s.check_pending_metadata(second);
    assert_eq!(s.metadata_loading(), loading);
    assert_eq!(s.item(0).unwrap().1.title, "A");
    assert_eq!(s.item(1).unwrap().1.artist, "Loading…");
}

#[test]
fn later_update_for_same_slot_wins() {
    let mut s = shuffler_with(&["/m/a.mp3"]);
    s.check_pending_metadata(vec![update(0, "/m/a.mp3", "First"), update(0, "/m/a.mp3", "Second")]);
    assert_eq!(s.item(0).unwrap().1.title, "Second");
}

#[test]
fn navigation_wraps_after_last_song() {
    let mut s = shuffler_with(&["/m/a.mp3", "/m/b.mp3", "/m/c.mp3"]);
    assert_eq!(s.previous(), None);
    assert_eq!(s.next(), Some(1));
    assert_eq!(s.advance_after_finish(), Some(2));
    assert_eq!(s.next(), None);
    assert_eq!(s.advance_after_finish(), Some(0));
    assert_eq!(s.select(2), Some(2));
    assert_eq!(s.select(3), None);
    assert_eq!(s.previous(), Some(1));
    assert_eq!(s.play_target(), Some(1));
    let mut empty = MusicShuffler::new();
    assert_eq!(empty.advance_after_finish(), None);
    assert_eq!(empty.next(), None);
    assert_eq!(empty.play_target(), None);
}

#[test]
fn set_directory_keeps_playlist() {
    let mut s = shuffler_with(&["/m/a.mp3"]);
    s.set_directory("/m".to_string(), vec!["/m/a.mp3".to_string()]);
    assert_eq!(s.music_directory, Some("/m".to_string()));
    assert_eq!(s.music_files.len(), 1);
    assert_eq!(s.playlist_len(), 1);
}

#[test]
fn clock_subtracts_pauses() {
    let mut c = PlaybackClock::new();
    assert_eq!(c.elapsed_ms(100), None);
    c.start(1_000);
    assert_eq!(c.elapsed_ms(4_000), Some(3_000));
    c.pause(4_000);
    assert!(c.is_paused());
    assert_eq!(c.elapsed_ms(9_000), Some(3_000));
    c.resume(10_000);
    assert_eq!(c.elapsed_ms(12_000), Some(5_000));
    assert_eq!(c.get_progress_with_duration(12_000, 10_000), Some(5_000));
    assert_eq!(c.get_progress_with_duration(40_000, 10_000), Some(10_000));
    assert_eq!(c.get_progress_with_duration(12_000, 0), None);
    c.stop();
    assert_eq!(c.get_progress_with_duration(12_000, 10_000), None);
}

#[test]
fn clock_never_goes_below_zero() {
    let mut c = PlaybackClock::new();
    c.start(5_000);
    assert_eq!(c.elapsed_ms(1_000), Some(0));
    c.pause(6_000);
    c.pause(7_000);
    c.resume(8_000);
    assert_eq!(c.elapsed_ms(9_000), Some(2_000));
}

#[test]
fn time_is_minutes_and_seconds() {
    assert_eq!(format_time(0), "0:00");
    assert_eq!(format_time(59), "0:59");
    assert_eq!(format_time(61), "1:01");
    assert_eq!(format_time(3599), "59:59");
    assert_eq!(format_time(3600), "1:00:00");
    assert_eq!(format_time(3725), "1:02:05");
    assert_eq!(format_time(36_000 * 10 + 5), "100:00:05");
}
