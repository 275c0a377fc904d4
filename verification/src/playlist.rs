//! Playlists, the set of playlists with its active one, and the exchange form
//! that playlists are saved in.
use vstd::prelude::*;

use crate::player::NowPlaying;

verus! {

#[derive(Debug, Clone, PartialEq, Eq)]
pub struct Playlist {
    pub name: String,
    pub items: Vec<NowPlaying>,
}

/// The items after moving the one at `from` to position `to`.
pub open spec fn moved(s: Seq<NowPlaying>, from: int, to: int) -> Seq<NowPlaying> {
    s.remove(from).insert(to, s[from])
}

impl Playlist {
    /// An empty playlist with the given name.
    pub fn empty(name: &str) -> (r: Self)
        ensures
            r.name@ == name@,
            r.items@ == Seq::<NowPlaying>::empty(),
    {
        Playlist { name: String::from_str(name), items: Vec::new() }
    }

    /// Appends an item.
    pub fn add(&mut self, item: NowPlaying)
        ensures
            final(self).items@ == old(self).items@.push(item),
            final(self).name == old(self).name,
    {
        self.items.push(item);
    }

    /// Removes and returns the item at `index`, if there is one.
    pub fn remove(&mut self, index: usize) -> (r: Option<NowPlaying>)
        ensures
            final(self).name == old(self).name,
            index < old(self).items.len() ==> r == Some(old(self).items@[index as int])
                && final(self).items@ == old(self).items@.remove(index as int),
            index >= old(self).items.len() ==> r is None && final(self).items@ == old(self).items@,
    {
        if index < self.items.len() {
            Some(self.items.remove(index))
        } else {
            None
        }
    }

    /// Moves the item at `from` to position `to`. Fails, changing nothing, when
    /// either position is out of range.
    pub fn reorder(&mut self, from: usize, to: usize) -> (r: bool)
        ensures
            final(self).name == old(self).name,
            r == (from < old(self).items.len() && to < old(self).items.len()),
            r ==> final(self).items@ == moved(old(self).items@, from as int, to as int),
            !r ==> final(self).items@ == old(self).items@,
    {
        if from >= self.items.len() || to >= self.items.len() {
            return false;
        }
        if from == to {
            proof {
                let s = self.items@;
                assert(moved(s, from as int, to as int) =~= s);
            }
            return true;
        }
        let item = self.items.remove(from);
        self.items.insert(to, item);
        true
    }

    /// Removes every item.
    pub fn clear(&mut self)
        ensures
            final(self).items@ == Seq::<NowPlaying>::empty(),
            final(self).name == old(self).name,
    {
        self.items.clear();
    }

    /// The exchange form of this playlist (current format version).
    pub fn to_exchange(&self) -> (r: PlaylistExchange)
        ensures
            r.version == PLAYLIST_EXCHANGE_VERSION,
            r.name == self.name,
            r.items@ == self.items@.map_values(|i: NowPlaying| item_of(i)),
            r.items.len() == self.items.len(),
            forall|k: int| 0 <= k < self.items.len() ==> same_fields(self.items@[k], #[trigger] r.items@[k]),
    {
        let mut items: Vec<PlaylistItem> = Vec::new();
        let mut k: usize = 0;
        while k < self.items.len()
            invariant
                k <= self.items.len(),
                items@ == self.items@.take(k as int).map_values(|i: NowPlaying| item_of(i)),
            decreases self.items.len() - k,
        {
            let it = PlaylistItem::from_now_playing(&self.items[k]);
            items.push(it);
            k = k + 1;
            assert(items@ =~= self.items@.take(k as int).map_values(|i: NowPlaying| item_of(i)));
        }
        assert(self.items@.take(self.items.len() as int) =~= self.items@);
        PlaylistExchange {
            version: PLAYLIST_EXCHANGE_VERSION,
            name: self.name.clone(),
            items,
        }
    }

    /// The playlist that an exchange form describes.
    pub fn from_exchange(exchange: PlaylistExchange) -> (r: Self)
        ensures
            r.name == exchange.name,
            r.items@ == exchange.items@.map_values(|i: PlaylistItem| now_playing_of(i)),
            r.items.len() == exchange.items.len(),
            forall|k: int|
                0 <= k < exchange.items.len() ==> same_fields(#[trigger] r.items@[k], exchange.items@[k]),
    {
        let PlaylistExchange { version: _, name, items: src } = exchange;
        let mut items: Vec<NowPlaying> = Vec::new();
        let mut k: usize = 0;
        while k < src.len()
            invariant
                k <= src.len(),
                items@ == src@.take(k as int).map_values(|i: PlaylistItem| now_playing_of(i)),
            decreases src.len() - k,
        {
            let np = NowPlaying::from_playlist_item(&src[k]);
            items.push(np);
            k = k + 1;
            assert(items@ =~= src@.take(k as int).map_values(|i: PlaylistItem| now_playing_of(i)));
        }
        assert(src@.take(src.len() as int) =~= src@);
        Playlist { name, items }
    }
}

#[derive(Debug, Clone, PartialEq, Eq)]
pub struct PlaylistManager {
    pub playlists: Vec<Playlist>,
    pub active_index: usize,
}

impl PlaylistManager {
    /// One empty playlist named `Queue`, active.
    pub fn new_default() -> (r: Self)
        ensures
            r.playlists.len() == 1,
            r.playlists@[0].name@ == "Queue"@,
            r.playlists@[0].items@ == Seq::<NowPlaying>::empty(),
            r.active_index == 0,
    {
        let mut playlists: Vec<Playlist> = Vec::new();
        playlists.push(Playlist::empty("Queue"));
        PlaylistManager { playlists, active_index: 0 }
    }

    /// The active playlist, if the active index designates one.
    pub fn active(&self) -> (r: Option<&Playlist>)
        ensures
            self.active_index < self.playlists.len() ==> r == Some(
                &self.playlists@[self.active_index as int],
            ),
            self.active_index >= self.playlists.len() ==> r is None,
    {
        if self.active_index < self.playlists.len() {
            Some(&self.playlists[self.active_index])
        } else {
            None
        }
    }

    /// Takes the active playlist out, leaving an empty placeholder.
    fn take_active(&mut self) -> (r: Playlist)
        requires
            old(self).active_index < old(self).playlists.len(),
        ensures
            r == old(self).playlists@[old(self).active_index as int],
            final(self).active_index == old(self).active_index,
            final(self).playlists.len() == old(self).playlists.len(),
            forall|k: int|
                0 <= k < old(self).playlists.len() && k != old(self).active_index ==> #[trigger] final(self).playlists@[k] == old(self).playlists@[k],
    {
        let i = self.active_index;
        let placeholder = Playlist { name: String::new(), items: Vec::new() };
        let p = self.playlists.remove(i);
        self.playlists.insert(i, placeholder);
        p
    }

    /// Puts a playlist back at the active index.
    fn put_active(&mut self, p: Playlist)
        requires
            old(self).active_index < old(self).playlists.len(),
        ensures
            final(self).playlists@ == old(self).playlists@.update(old(self).active_index as int, p),
            final(self).active_index == old(self).active_index,
    {
        let i = self.active_index;
        let _ = self.playlists.remove(i);
        self.playlists.insert(i, p);
        proof {
            assert(self.playlists@ =~= old(self).playlists@.update(i as int, p));
        }
    }

    /// Appends an item to the active playlist (nothing happens without one).
    pub fn add(&mut self, item: NowPlaying)
        ensures
            final(self).active_index == old(self).active_index,
            ({
                let i = old(self).active_index as int;
                if i < old(self).playlists.len() {
                    final(self).playlists@ == old(self).playlists@.update(
                        i,
                        Playlist {
                            name: old(self).playlists@[i].name,
                            items: final(self).playlists@[i].items,
                        },
                    ) && final(self).playlists@[i].items@ == old(self).playlists@[i].items@.push(
                        item,
                    )
                } else {
                    final(self).playlists@ == old(self).playlists@
                }
            }),
    {
        if self.active_index < self.playlists.len() {
            let mut p = self.take_active();
            p.add(item);
            self.put_active(p);
            proof {
                let i = old(self).active_index as int;
                assert(self.playlists@ =~= old(self).playlists@.update(
                    i,
                    Playlist { name: old(self).playlists@[i].name, items: self.playlists@[i].items },
                ));
            }
        }
    }

    /// Removes the item at `index` of the active playlist.
    pub fn remove(&mut self, index: usize) -> (r: Option<NowPlaying>)
        ensures
            final(self).active_index == old(self).active_index,
            ({
                let i = old(self).active_index as int;
                if i < old(self).playlists.len() && index < old(self).playlists@[i].items.len() {
                    &&& r == Some(old(self).playlists@[i].items@[index as int])
                    &&& final(self).playlists@[i].items@ == old(self).playlists@[i].items@.remove(
                        index as int,
                    )
                    &&& final(self).playlists@ == old(self).playlists@.update(
                        i,
                        Playlist {
                            name: old(self).playlists@[i].name,
                            items: final(self).playlists@[i].items,
                        },
                    )
                } else {
                    r is None && final(self).playlists@ == old(self).playlists@
                }
            }),
    {
        if self.active_index < self.playlists.len()
            && index < self.playlists[self.active_index].items.len() {
            let ghost i = self.active_index as int;
            let mut p = self.take_active();
            let r = p.remove(index);
            self.put_active(p);
            proof {
                assert(self.playlists@ =~= old(self).playlists@.update(
                    i,
                    Playlist { name: old(self).playlists@[i].name, items: self.playlists@[i].items },
                ));
            }
            r
        } else {
            None
        }
    }

    /// Moves an item of the active playlist; false when there is no active
    /// playlist or a position is out of range.
    pub fn reorder(&mut self, from: usize, to: usize) -> (r: bool)
        ensures
            final(self).active_index == old(self).active_index,
            ({
                let i = old(self).active_index as int;
                if i < old(self).playlists.len() && from < old(self).playlists@[i].items.len() && to
                    < old(self).playlists@[i].items.len() {
                    &&& r
                    &&& final(self).playlists@[i].items@ == moved(
                        old(self).playlists@[i].items@,
                        from as int,
                        to as int,
                    )
                    &&& final(self).playlists@ == old(self).playlists@.update(
                        i,
                        Playlist {
                            name: old(self).playlists@[i].name,
                            items: final(self).playlists@[i].items,
                        },
                    )
                } else {
                    !r && final(self).playlists@ == old(self).playlists@
                }
            }),
    {
        if self.active_index < self.playlists.len() && from
            < self.playlists[self.active_index].items.len() && to
            < self.playlists[self.active_index].items.len() {
            let ghost i = self.active_index as int;
            let mut p = self.take_active();
            let r = p.reorder(from, to);
            self.put_active(p);
            proof {
                assert(self.playlists@ =~= old(self).playlists@.update(
                    i,
                    Playlist { name: old(self).playlists@[i].name, items: self.playlists@[i].items },
                ));
            }
            r
        } else {
            false
        }
    }

    /// Empties the active playlist.
    pub fn clear(&mut self)
        ensures
            final(self).active_index == old(self).active_index,
            ({
                let i = old(self).active_index as int;
                if i < old(self).playlists.len() {
                    final(self).playlists@[i].items@ == Seq::<NowPlaying>::empty()
                        && final(self).playlists@ == old(self).playlists@.update(
                        i,
                        Playlist {
                            name: old(self).playlists@[i].name,
                            items: final(self).playlists@[i].items,
                        },
                    )
                } else {
                    final(self).playlists@ == old(self).playlists@
                }
            }),
    {
        if self.active_index < self.playlists.len() {
            let ghost i = self.active_index as int;
            let mut p = self.take_active();
            p.clear();
            self.put_active(p);
            proof {
                assert(self.playlists@ =~= old(self).playlists@.update(
                    i,
                    Playlist { name: old(self).playlists@[i].name, items: self.playlists@[i].items },
                ));
            }
        }
    }
}

/// Current version of the playlist exchange format.
pub const PLAYLIST_EXCHANGE_VERSION: u32 = 1;

/// A playlist as it is saved.
#[derive(Debug, Clone, PartialEq, Eq)]
pub struct PlaylistExchange {
    pub version: u32,
    pub name: String,
    pub items: Vec<PlaylistItem>,
}

/// A playlist entry as it is saved.
#[derive(Debug, Clone, PartialEq, Eq)]
pub struct PlaylistItem {
    pub artist: String,
    pub album: String,
    pub title: String,
    pub duration_secs: u32,
    pub path: String,
}

/// A track and its saved form agree field by field: artist with artist,
/// album with album, and so on.
pub open spec fn same_fields(n: NowPlaying, i: PlaylistItem) -> bool {
    &&& i.artist == n.artist
    &&& i.album == n.album
    &&& i.title == n.title
    &&& i.duration_secs == n.duration_secs
    &&& i.path == n.path
}

pub open spec fn item_of(n: NowPlaying) -> PlaylistItem {
    PlaylistItem {
        artist: n.artist,
        album: n.album,
        title: n.title,
        duration_secs: n.duration_secs,
        path: n.path,
    }
}

pub open spec fn now_playing_of(i: PlaylistItem) -> NowPlaying {
    NowPlaying {
        artist: i.artist,
        album: i.album,
        title: i.title,
        duration_secs: i.duration_secs,
        path: i.path,
    }
}

impl PlaylistItem {
    /// The saved form of a track.
    pub fn from_now_playing(item: &NowPlaying) -> (r: Self)
        ensures
            r == item_of(*item),
            same_fields(*item, r),
    {
        PlaylistItem {
            artist: item.artist.clone(),
            album: item.album.clone(),
            title: item.title.clone(),
            duration_secs: item.duration_secs,
            path: item.path.clone(),
        }
    }
}

impl NowPlaying {
    /// The track a saved entry describes.
    pub fn from_playlist_item(item: &PlaylistItem) -> (r: Self)
        ensures
            r == now_playing_of(*item),
            same_fields(r, *item),
    {
        NowPlaying {
            artist: item.artist.clone(),
            album: item.album.clone(),
            title: item.title.clone(),
            duration_secs: item.duration_secs,
            path: item.path.clone(),
        }
    }
}

/// Reading back the exchange form of a playlist gives the same playlist.
pub proof fn lemma_exchange_roundtrip(p: Playlist, e: PlaylistExchange, q: Playlist)
    requires
        e.name == p.name,
        e.items@ == p.items@.map_values(|i: NowPlaying| item_of(i)),
        q.name == e.name,
        q.items@ == e.items@.map_values(|i: PlaylistItem| now_playing_of(i)),
    ensures
        q.name == p.name,
        q.items@ == p.items@,
{
    assert(q.items@ =~= p.items@);
}

/// The saved form of a playlist keeps each field of each track in its own
/// place (its artist as the artist, its album as the album, ...), and reading
/// a saved form back does the same.
pub proof fn lemma_exchange_keeps_fields(
    p: Playlist,
    e: PlaylistExchange,
    q: Playlist,
)
    requires
        e.items@ == p.items@.map_values(|i: NowPlaying| item_of(i)),
        q.items@ == e.items@.map_values(|i: PlaylistItem| now_playing_of(i)),
    ensures
        e.items.len() == p.items.len(),
        forall|k: int|
            0 <= k < p.items.len() ==> (#[trigger] e.items@[k]).artist == p.items@[k].artist
                && e.items@[k].album == p.items@[k].album && e.items@[k].title == p.items@[k].title
                && e.items@[k].duration_secs == p.items@[k].duration_secs && e.items@[k].path
                == p.items@[k].path,
        q.items.len() == e.items.len(),
        forall|k: int|
            0 <= k < e.items.len() ==> (#[trigger] q.items@[k]).artist == e.items@[k].artist
                && q.items@[k].album == e.items@[k].album && q.items@[k].title == e.items@[k].title
                && q.items@[k].duration_secs == e.items@[k].duration_secs && q.items@[k].path
                == e.items@[k].path,
{
}

/// Moving an item and moving it back restores the playlist.
pub proof fn lemma_reorder_undo(s: Seq<NowPlaying>, from: int, to: int)
    requires
        0 <= from < s.len(),
        0 <= to < s.len(),
    ensures
        moved(moved(s, from, to), to, from) == s,
{
    let m = moved(s, from, to);
    assert(m.len() == s.len());
    assert(m[to] == s[from]);
    assert(m.remove(to) =~= s.remove(from));
    assert(moved(m, to, from) =~= s);
}

/// Moving an item keeps the same items, each as many times.
pub proof fn lemma_reorder_permutes(s: Seq<NowPlaying>, from: int, to: int)
    requires
        0 <= from < s.len(),
        0 <= to < s.len(),
    ensures
        moved(s, from, to).len() == s.len(),
        moved(s, from, to).to_multiset() == s.to_multiset(),
{
    broadcast use vstd::seq_lib::group_to_multiset_ensures;

    let r = s.remove(from);
    assert(s =~= s.take(from) + s.skip(from));
    assert(r =~= s.take(from) + s.skip(from + 1));
    assert(s.skip(from) =~= seq![s[from]] + s.skip(from + 1));
    vstd::seq_lib::lemma_multiset_commutative(s.take(from), s.skip(from));
    vstd::seq_lib::lemma_multiset_commutative(seq![s[from]], s.skip(from + 1));
    vstd::seq_lib::lemma_multiset_commutative(s.take(from), s.skip(from + 1));
    let m = r.insert(to, s[from]);
    assert(r =~= r.take(to) + r.skip(to));
    assert(m =~= r.take(to) + (seq![s[from]] + r.skip(to)));
    vstd::seq_lib::lemma_multiset_commutative(r.take(to), r.skip(to));
    vstd::seq_lib::lemma_multiset_commutative(seq![s[from]], r.skip(to));
    vstd::seq_lib::lemma_multiset_commutative(r.take(to), seq![s[from]] + r.skip(to));
}

} // verus!
