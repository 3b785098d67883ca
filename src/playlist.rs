//! The live playlist and the queue through which the background loader hands it metadata.
use vstd::prelude::*;
use crate::metadata::{SongMetadata, MetadataView, placeholder_of, loading_text};

verus! {

/// Resolved metadata for the playlist slot `index`.
pub struct PendingUpdate {
    pub index: usize,
    pub path: String,
    pub metadata: SongMetadata,
}

pub struct UpdateView {
    pub index: usize,
    pub path: Seq<char>,
    pub metadata: MetadataView,
}

impl View for PendingUpdate {
    type V = UpdateView;

    open spec fn view(&self) -> UpdateView {
        UpdateView { index: self.index, path: self.path@, metadata: self.metadata@ }
    }
}

pub open spec fn update_views(s: Seq<PendingUpdate>) -> Seq<UpdateView> {
    s.map_values(|u: PendingUpdate| u@)
}

/// Updates waiting to be merged into the playlist, oldest first.
pub struct PendingQueue {
    updates: Vec<PendingUpdate>,
}

impl View for PendingQueue {
    type V = Seq<UpdateView>;

    closed spec fn view(&self) -> Seq<UpdateView> {
        update_views(self.updates@)
    }
}

impl PendingQueue {
    pub fn new() -> (r: PendingQueue)
        ensures
            r@ == Seq::<UpdateView>::empty(),
    {
        let r = PendingQueue { updates: Vec::new() };
        assert(r@ =~= Seq::<UpdateView>::empty());
        r
    }

    /// Adds `u` behind the updates already waiting.
    pub fn push(&mut self, u: PendingUpdate)
        ensures
            final(self)@ == old(self)@.push(u@),
    {
        self.updates.push(u);
        assert(final(self)@ =~= old(self)@.push(u@));
    }

    /// Takes out every waiting update, oldest first, and leaves the queue empty.
    pub fn drain(&mut self) -> (r: Vec<PendingUpdate>)
        ensures
            update_views(r@) == old(self)@,
            final(self)@ == Seq::<UpdateView>::empty(),
    {
        let mut taken: Vec<PendingUpdate> = Vec::new();
        std::mem::swap(&mut taken, &mut self.updates);
        assert(final(self)@ =~= Seq::<UpdateView>::empty());
        taken
    }

    pub fn len(&self) -> (r: usize)
        ensures
            r == self@.len(),
    {
        self.updates.len()
    }
}

pub type Item = (String, SongMetadata);

pub type ItemView = (Seq<char>, MetadataView);

pub open spec fn item_views(s: Seq<Item>) -> Seq<ItemView> {
    s.map_values(|it: Item| (it.0@, it.1@))
}

/// The playlist after one update: the slot is overwritten when it exists, and an update
/// for a slot past the end is dropped.
pub open spec fn apply_one(items: Seq<ItemView>, u: UpdateView) -> Seq<ItemView> {
    if u.index < items.len() {
        items.update(u.index as int, (u.path, u.metadata))
    } else {
        items
    }
}

/// The playlist after the updates, applied in order.
pub open spec fn apply_all(items: Seq<ItemView>, ups: Seq<UpdateView>) -> Seq<ItemView>
    decreases ups.len(),
{
    if ups.len() == 0 {
        items
    } else {
        apply_one(apply_all(items, ups.drop_last()), ups.last())
    }
}

/// Every slot holds loaded metadata.
pub open spec fn all_loaded(items: Seq<ItemView>) -> bool {
    forall|i: int| 0 <= i < items.len() ==> #[trigger] items[i].1.artist != loading_text()
}

/// The placeholder playlist for `paths`.
pub open spec fn placeholders(paths: Seq<Seq<char>>) -> Seq<ItemView> {
    paths.map_values(|p: Seq<char>| (p, placeholder_of(p)))
}

/// Updates never write outside the playlist: its length stays, and every slot either keeps
/// its old value or takes that of an update aimed at it.
pub proof fn lemma_updates_stay_in_bounds(items: Seq<ItemView>, ups: Seq<UpdateView>)
    ensures
        apply_all(items, ups).len() == items.len(),
        forall|i: int|
            0 <= i < items.len() ==> #[trigger] apply_all(items, ups)[i] == items[i] || exists|k: int|
                0 <= k < ups.len() && ups[k].index == i && apply_all(items, ups)[i] == (
                    ups[k].path,
                    ups[k].metadata,
                ),
    decreases ups.len(),
{
    if ups.len() > 0 {
        let prev = ups.drop_last();
        lemma_updates_stay_in_bounds(items, prev);
        assert forall|i: int| 0 <= i < items.len() implies #[trigger] apply_all(items, ups)[i]
            == items[i] || exists|k: int|
            0 <= k < ups.len() && ups[k].index == i && apply_all(items, ups)[i] == (
                ups[k].path,
                ups[k].metadata,
            ) by {
            let last = ups.last();
            if last.index == i {
                assert(ups[ups.len() - 1].index == i);
            } else if apply_all(items, prev)[i] != items[i] {
                let k = choose|k: int|
                    0 <= k < prev.len() && prev[k].index == i && apply_all(items, prev)[i] == (
                        prev[k].path,
                        prev[k].metadata,
                    );
                assert(ups[k] == prev[k]);
            }
        }
    }
}

/// Draining the queue twice with nothing pushed in between: the second drain finds nothing,
/// and merging it leaves the playlist as the first one left it.
pub proof fn lemma_second_drain_changes_nothing(items: Seq<ItemView>, ups: Seq<UpdateView>)
    ensures
        apply_all(apply_all(items, ups), Seq::<UpdateView>::empty()) == apply_all(items, ups),
{
}

/// The consumer's view of the music library: directory, files, the playlist being shown
/// and the song being played.
pub struct MusicShuffler {
    pub music_directory: Option<String>,
    pub music_files: Vec<String>,
    pub playlist: Vec<Item>,
    pub current_song_index: usize,
    pub metadata_loading: bool,
}

impl MusicShuffler {
    /// The current song is a slot of the playlist, or the first slot of an empty one.
    pub open spec fn wf(&self) -> bool {
        self.current_song_index == 0 || self.current_song_index < self.playlist@.len()
    }

    pub open spec fn items(&self) -> Seq<ItemView> {
        item_views(self.playlist@)
    }

    pub open spec fn current(&self) -> usize {
        self.current_song_index
    }

    pub open spec fn loading(&self) -> bool {
        self.metadata_loading
    }

    /// No directory, no files and an empty playlist.
    pub fn new() -> (r: MusicShuffler)
        ensures
            r.wf(),
            r.music_directory is None,
            r.music_files@.len() == 0,
            r.items().len() == 0,
            r.current() == 0,
            !r.loading(),
    {
        let r = MusicShuffler {
            music_directory: None,
            music_files: Vec::new(),
            playlist: Vec::new(),
            current_song_index: 0,
            metadata_loading: false,
        };
        assert(r.items() =~= Seq::<ItemView>::empty());
        r
    }

    pub fn playlist_len(&self) -> (r: usize)
        ensures
            r == self.items().len(),
    {
        self.playlist.len()
    }

    pub fn current_song_index(&self) -> (r: usize)
        ensures
            r == self.current(),
    {
        self.current_song_index
    }

    pub fn metadata_loading(&self) -> (r: bool)
        ensures
            r == self.loading(),
    {
        self.metadata_loading
    }

    /// The path and metadata in slot `i`.
    pub fn item(&self, i: usize) -> (r: Option<&Item>)
        ensures
            match r {
                Some(it) => i < self.items().len() && (it.0@, it.1@) == self.items()[i as int],
                None => i >= self.items().len(),
            },
    {
        if i < self.playlist.len() {
            Some(&self.playlist[i])
        } else {
            None
        }
    }

    /// Shows a new playlist of `paths` with placeholder metadata, from its first song, and
    /// marks its metadata as loading. Whatever was shown before is dropped.
    pub fn start_playlist(&mut self, paths: &Vec<String>)
        ensures
            final(self).wf(),
            final(self).items() == placeholders(paths@.map_values(|s: String| s@)),
            final(self).current() == 0,
            final(self).loading(),
            final(self).music_directory == old(self).music_directory,
            final(self).music_files == old(self).music_files,
    {
        let mut items: Vec<Item> = Vec::new();
        let mut i: usize = 0;
        while i < paths.len()
            invariant
                i <= paths@.len(),
                item_views(items@) == placeholders(paths@.map_values(|s: String| s@)).take(i as int),
            decreases paths@.len() - i,
        {
            let ghost whole = placeholders(paths@.map_values(|s: String| s@));
            let ghost before = item_views(items@);
            let p = paths[i].clone();
            let m = SongMetadata::placeholder(p.as_str());
            assert(whole[i as int] == (p@, m@));
            items.push((p, m));
            assert(item_views(items@) =~= before.push(whole[i as int]));
            assert(whole.take(i + 1) =~= whole.take(i as int).push(whole[i as int]));
            i = i + 1;
        }
        assert(placeholders(paths@.map_values(|s: String| s@)).take(i as int) =~= placeholders(
            paths@.map_values(|s: String| s@),
        ));
        self.playlist = items;
        self.current_song_index = 0;
        self.metadata_loading = true;
    }

    /// Whether every slot holds loaded metadata.
    pub fn all_loaded(&self) -> (r: bool)
        ensures
            r == all_loaded(self.items()),
    {
        let mut i: usize = 0;
        while i < self.playlist.len()
            invariant
                i <= self.items().len(),
                forall|j: int| 0 <= j < i ==> #[trigger] self.items()[j].1.artist != loading_text(),
            decreases self.items().len() - i,
        {
            assert(self.items()[i as int].1 == self.playlist@[i as int].1@);
            if self.playlist[i].1.is_loading() {
                assert(self.items()[i as int].1.artist == loading_text());
                return false;
            }
            i = i + 1;
        }
        true
    }

    /// Merges drained updates into the playlist, in order; updates for slots past the end
    /// come from an earlier playlist and are dropped. When some update came and every slot
    /// is then loaded, loading is over.
    pub fn check_pending_metadata(&mut self, updates: Vec<PendingUpdate>)
        requires
            old(self).wf(),
        ensures
            final(self).wf(),
            final(self).items() == apply_all(old(self).items(), update_views(updates@)),
            final(self).current() == old(self).current(),
            final(self).loading() == if updates@.len() > 0 && all_loaded(final(self).items()) {
                false
            } else {
                old(self).loading()
            },
            final(self).music_directory == old(self).music_directory,
            final(self).music_files == old(self).music_files,
    {
        let n = updates.len();
        let ghost ups = update_views(updates@);
        let ghost start = self.items();
        let mut rest = updates;
        let mut taken: Vec<PendingUpdate> = Vec::new();
        // Taken from the back, so the updates are walked in reverse; keep them to apply in order.
        while rest.len() > 0
            invariant
                update_views(rest@) + update_views(taken@).reverse() == ups,
                self.items() == start,
                self.wf(),
                self.current_song_index == old(self).current_song_index,
                self.metadata_loading == old(self).metadata_loading,
                self.music_directory == old(self).music_directory,
                self.music_files == old(self).music_files,
            decreases rest.len(),
        {
            let ghost before_rest = rest@;
            let ghost before_taken = taken@;
            let u = rest.pop().unwrap();
            taken.push(u);
            assert(update_views(before_rest) =~= update_views(rest@).push(u@));
            assert(update_views(taken@).reverse() =~= seq![u@] + update_views(before_taken).reverse());
            assert(update_views(rest@) + update_views(taken@).reverse() =~= update_views(before_rest)
                + update_views(before_taken).reverse());
        }
        assert(update_views(rest@) =~= Seq::<UpdateView>::empty());
        assert(update_views(taken@).reverse() =~= ups);
        let mut k: usize = 0;
        assert(ups.take(0) =~= Seq::<UpdateView>::empty());
        while taken.len() > 0
            invariant
                k + taken@.len() == n,
                n == ups.len(),
                forall|j: int| 0 <= j < taken@.len() ==> #[trigger] taken@[j]@ == ups[n - 1 - j],
                self.items() == apply_all(start, ups.take(k as int)),
                self.items().len() == start.len(),
                self.wf(),
                self.current_song_index == old(self).current_song_index,
                self.metadata_loading == old(self).metadata_loading,
                self.music_directory == old(self).music_directory,
                self.music_files == old(self).music_files,
            decreases taken.len(),
        {
            let ghost tk = taken@;
            let u = taken.pop().unwrap();
            assert(u@ == ups[k as int]);
            let ghost before = self.items();
            if u.index < self.playlist.len() {
                self.playlist.set(u.index, (u.path, u.metadata));
                assert(self.items() =~= before.update(u.index as int, (u@.path, u@.metadata)));
            }
            assert(ups.take(k + 1).drop_last() =~= ups.take(k as int));
            assert(ups.take(k + 1).last() == ups[k as int]);
            assert forall|j: int| 0 <= j < taken@.len() implies #[trigger] taken@[j]@ == ups[n - 1 - j] by {
                assert(taken@[j] == tk[j]);
            }
            k = k + 1;
        }
        assert(ups.take(n as int) =~= ups);
        if n > 0 {
            if self.all_loaded() {
                self.metadata_loading = false;
            }
        }
    }

    /// When the current song has finished: moves to the next song, or back to the first
    /// after the last, and gives the slot to play; nothing happens on an empty playlist.
    pub fn advance_after_finish(&mut self) -> (r: Option<usize>)
        requires
            old(self).wf(),
        ensures
            final(self).wf(),
            final(self).items() == old(self).items(),
            final(self).loading() == old(self).loading(),
            old(self).items().len() == 0 ==> r is None && final(self).current() == old(self).current(),
            old(self).items().len() > 0 ==> r == Some(final(self).current()) && final(self).current()
                == if old(self).current() + 1 < old(self).items().len() {
                old(self).current() + 1
            } else {
                0
            },
    {
        let n = self.playlist.len();
        if n == 0 {
            return None;
        }
        if self.current_song_index < n - 1 {
            self.current_song_index = self.current_song_index + 1;
        } else {
            self.current_song_index = 0;
        }
        Some(self.current_song_index)
    }

    /// Steps back one song, when there is one before the current.
    pub fn previous(&mut self) -> (r: Option<usize>)
        requires
            old(self).wf(),
        ensures
            final(self).wf(),
            final(self).items() == old(self).items(),
            final(self).loading() == old(self).loading(),
            old(self).current() > 0 ==> r == Some((old(self).current() - 1) as usize) && final(self).current() == old(self).current() - 1,
            old(self).current() == 0 ==> r is None && final(self).current() == 0,
    {
        if self.current_song_index > 0 {
            self.current_song_index = self.current_song_index - 1;
            Some(self.current_song_index)
        } else {
            None
        }
    }

    /// Steps forward one song, when there is one after the current.
    pub fn next(&mut self) -> (r: Option<usize>)
        requires
            old(self).wf(),
        ensures
            final(self).wf(),
            final(self).items() == old(self).items(),
            final(self).loading() == old(self).loading(),
            old(self).current() + 1 < old(self).items().len() ==> r == Some((old(self).current() + 1) as usize)
                && final(self).current() == old(self).current() + 1,
            old(self).current() + 1 >= old(self).items().len() ==> r is None && final(self).current()
                == old(self).current(),
    {
        if self.playlist.len() > 0 && self.current_song_index < self.playlist.len() - 1 {
            self.current_song_index = self.current_song_index + 1;
            Some(self.current_song_index)
        } else {
            None
        }
    }

    /// Makes slot `i` the current song, when the playlist has it.
    pub fn select(&mut self, i: usize) -> (r: Option<usize>)
        requires
            old(self).wf(),
        ensures
            final(self).wf(),
            final(self).items() == old(self).items(),
            final(self).loading() == old(self).loading(),
            i < old(self).items().len() ==> r == Some(i) && final(self).current() == i,
            i >= old(self).items().len() ==> r is None && final(self).current() == old(self).current(),
    {
        if i < self.playlist.len() {
            self.current_song_index = i;
            Some(i)
        } else {
            None
        }
    }

    /// The slot that the play button starts: the current song; none on an empty playlist.
    pub fn play_target(&self) -> (r: Option<usize>)
        requires
            self.wf(),
        ensures
            self.items().len() > 0 ==> r == Some(self.current()),
            self.items().len() == 0 ==> r is None,
    {
        if self.current_song_index < self.playlist.len() {
            Some(self.current_song_index)
        } else {
            None
        }
    }

    /// A new playlist can be made only once the last one has finished loading.
    pub fn can_generate(&self) -> (r: bool)
        ensures
            r == !self.loading(),
    {
        !self.metadata_loading
    }

    /// Sets the music directory and the files found in it; the playlist stays.
    pub fn set_directory(&mut self, dir: String, files: Vec<String>)
        requires
            old(self).wf(),
        ensures
            final(self).wf(),
            final(self).music_directory == Some(dir),
            final(self).music_files == files,
            final(self).items() == old(self).items(),
            final(self).current() == old(self).current(),
            final(self).loading() == old(self).loading(),
    {
        self.music_directory = Some(dir);
        self.music_files = files;
    }
}

} // verus!
