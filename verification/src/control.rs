//! The queue controller: owns the playlists, the active-playlist pointer, the
//! favorites set and the displayed track, decides what plays next, and reacts
//! to the engine's status events.
//!
//! The controller is driven by periodic ticks from the host environment and
//! never blocks. The unverified glue around it polls the status channel, reads
//! playlist files, and sends the [`PlayerCommand`]s this module returns; every
//! decision — queue advancement, playlist bookkeeping, favorite toggling —
//! is taken here.

use vstd::prelude::*;

use rand::seq::SliceRandom;

use crate::player::{CmdView, PlayerCommand, PlayerStatus, StatusView};
use crate::playlist::{decode_playlist, decoded_tracks};

verus! {

/// One loaded playlist: the identifier of the file it came from, and its
/// queue of track references, consumed from the front.
pub struct Playlist {
    pub id: String,
    pub tracks: Vec<String>,
}

/// Mathematical value of a [`Playlist`].
#[verifier::ext_equal]
pub struct PlaylistView {
    pub id: Seq<char>,
    pub tracks: Seq<Seq<char>>,
}

impl View for Playlist {
    type V = PlaylistView;

    open spec fn view(&self) -> PlaylistView {
        PlaylistView { id: self.id@, tracks: track_views(self.tracks@) }
    }
}

/// The views of a sequence of track references.
pub open spec fn track_views(s: Seq<String>) -> Seq<Seq<char>> {
    s.map_values(|t: String| t@)
}

/// The views of a sequence of playlists.
pub open spec fn playlist_views(s: Seq<Playlist>) -> Seq<PlaylistView> {
    s.map_values(|p: Playlist| p@)
}

/// The queue controller's state.
pub struct PlaybackControl {
    playlists: Vec<Playlist>,
    path: String,
    favorites: Vec<String>,
    volume: u8,
    current_file: String,
    current_playlist: String,
    is_paused: bool,
    is_favorite: bool,
    length: Option<u64>,
    playtime: Option<u64>,
}

/// Mathematical value of a [`PlaybackControl`].
///
/// `path` is the active-playlist pointer; it may dangle (name a playlist that
/// is no longer in `playlists`), which every operation treats as "nothing to
/// advance". `current_file` is the displayed track; advancement removes the
/// front of the active queue exactly when a track is displayed as in
/// progress.
#[verifier::ext_equal]
pub struct ControlView {
    pub playlists: Seq<PlaylistView>,
    pub path: Seq<char>,
    pub favorites: Seq<Seq<char>>,
    pub volume: u8,
    pub current_file: Seq<char>,
    pub current_playlist: Seq<char>,
    pub is_paused: bool,
    pub is_favorite: bool,
    pub length: Option<u64>,
    pub playtime: Option<u64>,
}

impl View for PlaybackControl {
    type V = ControlView;

    closed spec fn view(&self) -> ControlView {
        ControlView {
            playlists: playlist_views(self.playlists@),
            path: self.path@,
            favorites: track_views(self.favorites@),
            volume: self.volume,
            current_file: self.current_file@,
            current_playlist: self.current_playlist@,
            is_paused: self.is_paused,
            is_favorite: self.is_favorite,
            length: self.length,
            playtime: self.playtime,
        }
    }
}

/// Well-formedness of a controller state: playlist identifiers are unique,
/// the favorites hold no duplicates, and the volume is a percentage.
pub open spec fn control_wf(m: ControlView) -> bool {
    &&& forall|i: int, j: int|
        0 <= i < j < m.playlists.len() ==> m.playlists[i].id != m.playlists[j].id
    &&& m.favorites.no_duplicates()
    &&& m.volume <= 100
}

/// The displayed favorite flag agrees with set membership whenever a track
/// is shown. Holds between operations; the `InvalidFile` reaction breaks it
/// transiently while it borrows the display to strip the bad entry.
pub open spec fn fav_synced(m: ControlView) -> bool {
    m.current_file.len() > 0 ==> (m.is_favorite <==> m.favorites.contains(m.current_file))
}

/// Removing an element commutes with taking track views.
proof fn lemma_track_views_remove(s: Seq<String>, i: int)
    requires
        0 <= i < s.len(),
    ensures
        track_views(s.remove(i)) =~= track_views(s).remove(i),
{
    assert forall|k: int| 0 <= k < s.remove(i).len() implies track_views(s.remove(i))[k]
        == track_views(s).remove(i)[k] by {
        if k < i {
            assert(s.remove(i)[k] == s[k]);
        } else {
            assert(s.remove(i)[k] == s[k + 1]);
        }
    }
}

/// Appending an element commutes with taking track views.
pub(crate) proof fn lemma_track_views_push(s: Seq<String>, x: String)
    ensures
        track_views(s.push(x)) =~= track_views(s).push(x@),
{
    assert forall|k: int| 0 <= k < s.push(x).len() implies track_views(s.push(x))[k]
        == track_views(s).push(x@)[k] by {
        if k < s.len() {
            assert(s.push(x)[k] == s[k]);
        } else {
            assert(s.push(x)[k] == x);
        }
    }
}

/// Whether some playlist carries this identifier.
pub open spec fn has_playlist(pls: Seq<PlaylistView>, id: Seq<char>) -> bool {
    exists|i: int| 0 <= i < pls.len() && pls[i].id == id
}

/// The position of the playlist with this identifier; meaningful when
/// [`has_playlist`] holds and identifiers are unique.
pub open spec fn playlist_index(pls: Seq<PlaylistView>, id: Seq<char>) -> int {
    choose|i: int| 0 <= i < pls.len() && pls[i].id == id
}

/// With unique identifiers, the playlist position is the index of any match.
proof fn lemma_playlist_index_is(pls: Seq<PlaylistView>, id: Seq<char>, i: int)
    requires
        0 <= i < pls.len(),
        pls[i].id == id,
        forall|p: int, q: int| 0 <= p < q < pls.len() ==> pls[p].id != pls[q].id,
    ensures
        has_playlist(pls, id),
        playlist_index(pls, id) == i,
{
    assert(has_playlist(pls, id));
    let j = playlist_index(pls, id);
    if j < i {
        assert(pls[j].id != pls[i].id);
    } else if j > i {
        assert(pls[i].id != pls[j].id);
    }
}

/// Removing an element commutes with taking playlist views.
proof fn lemma_playlist_views_remove(s: Seq<Playlist>, i: int)
    requires
        0 <= i < s.len(),
    ensures
        playlist_views(s.remove(i)) =~= playlist_views(s).remove(i),
{
    assert forall|k: int| 0 <= k < s.remove(i).len() implies playlist_views(s.remove(i))[k]
        == playlist_views(s).remove(i)[k] by {
        if k < i {
            assert(s.remove(i)[k] == s[k]);
        } else {
            assert(s.remove(i)[k] == s[k + 1]);
        }
    }
}

/// Inserting an element commutes with taking playlist views.
proof fn lemma_playlist_views_insert(s: Seq<Playlist>, i: int, p: Playlist)
    requires
        0 <= i <= s.len(),
    ensures
        playlist_views(s.insert(i, p)) =~= playlist_views(s).insert(i, p@),
{
    s.insert_ensures(i, p);
    playlist_views(s).insert_ensures(i, p@);
    assert forall|k: int| 0 <= k < s.insert(i, p).len() implies playlist_views(s.insert(i, p))[k]
        == playlist_views(s).insert(i, p@)[k] by {
        if k < i {
            assert(s.insert(i, p)[k] == s[k]);
        } else if k == i {
            assert(s.insert(i, p)[k] == p);
        } else {
            assert(s.insert(i, p)[k] == s[k - 1]);
        }
    }
}

/// State change and command of the "play next" operation.
///
/// With no playlist under the active pointer nothing happens. Otherwise, the
/// front of the active queue is dropped when a track is displayed as in
/// progress; if tracks remain, the new front is to be played and the display
/// name set, and if none remain the playlist leaves the set (the pointer is
/// left dangling, which reads as "nothing to advance").
pub open spec fn advance_step(m: ControlView) -> (ControlView, Option<CmdView>) {
    if !has_playlist(m.playlists, m.path) {
        (m, None)
    } else {
        let i = playlist_index(m.playlists, m.path);
        let q0 = m.playlists[i].tracks;
        let q1 = if q0.len() > 0 && m.current_file.len() > 0 {
            q0.drop_first()
        } else {
            q0
        };
        if q1.len() > 0 {
            (
                ControlView {
                    playlists: m.playlists.update(
                        i,
                        PlaylistView { id: m.path, tracks: q1 },
                    ),
                    current_playlist: m.path,
                    ..m
                },
                Some(CmdView::Play(q1[0], m.volume)),
            )
        } else {
            (ControlView { playlists: m.playlists.remove(i), ..m }, None)
        }
    }
}

/// Mathematical value of an optional command.
pub open spec fn opt_cmd_view(c: Option<PlayerCommand>) -> Option<CmdView> {
    match c {
        Some(c0) => Some(c0@),
        None => None,
    }
}

/// Relies on `rand::seq::SliceRandom::shuffle` with `rand::thread_rng`: an
/// in-place uniformly random permutation of the queue, so the multiset of
/// track references — and with it length and distinctness — is preserved,
/// while nothing can be said of the order.
#[verifier::external_body]
fn shuffle_tracks(v: &mut Vec<String>)
    ensures
        track_views(final(v)@).to_multiset() == track_views(old(v)@).to_multiset(),
        final(v)@.len() == old(v)@.len(),
{
    v.shuffle(&mut rand::thread_rng());
}

/// A permutation at the level of views keeps the set of elements and
/// distinctness.
proof fn lemma_perm_keeps_set(a: Seq<Seq<char>>, b: Seq<Seq<char>>)
    requires
        a.to_multiset() == b.to_multiset(),
        a.no_duplicates(),
    ensures
        b.no_duplicates(),
        a.to_set() == b.to_set(),
{
    a.to_multiset_ensures();
    b.to_multiset_ensures();
    a.lemma_multiset_has_no_duplicates();
    b.lemma_multiset_has_no_duplicates_conv();
    assert(a.to_set() =~= b.to_set()) by {
        assert(forall|x: Seq<char>| a.contains(x) <==> a.to_multiset().count(x) > 0);
        assert(forall|x: Seq<char>| b.contains(x) <==> b.to_multiset().count(x) > 0);
    }
}

/// The playlists after a successful load of `q` under `id`: an existing
/// queue with that identifier is swapped for `q` in place, otherwise a new
/// playlist joins at the end.
pub open spec fn staged_playlists(
    pls: Seq<PlaylistView>,
    id: Seq<char>,
    q: Seq<Seq<char>>,
) -> Seq<PlaylistView> {
    if has_playlist(pls, id) {
        pls.update(playlist_index(pls, id), PlaylistView { id, tracks: q })
    } else {
        pls.push(PlaylistView { id, tracks: q })
    }
}

/// Relation between the states before and after a successful load of a
/// playlist text whose decoded track set is `s`.
///
/// Some ordering `q` of `s` (the decoder's order if it landed in an empty
/// existing queue, a fresh shuffle otherwise) is staged under `id`, the
/// active pointer switches to `id`, the display clears so that advancing
/// does not strip a track of the previous playlist, and the result is one
/// advancement step from there.
pub open spec fn load_ok(
    m: ControlView,
    id: Seq<char>,
    s: Set<Seq<char>>,
    m2: ControlView,
    c: Option<CmdView>,
) -> bool {
    exists|q: Seq<Seq<char>>|
        {
            &&& (#[trigger] q.to_set()) == s
            &&& q.no_duplicates()
            &&& {
                let staged = ControlView {
                    playlists: staged_playlists(m.playlists, id, q),
                    path: id,
                    current_file: Seq::empty(),
                    ..m
                };
                let (m3, c3) = advance_step(staged);
                m2 == m3 && c == c3
            }
        }
}

/// Appending an element commutes with taking playlist views.
proof fn lemma_playlist_views_push(s: Seq<Playlist>, p: Playlist)
    ensures
        playlist_views(s.push(p)) =~= playlist_views(s).push(p@),
{
    assert forall|k: int| 0 <= k < s.push(p).len() implies playlist_views(s.push(p))[k]
        == playlist_views(s).push(p@)[k] by {
        if k < s.len() {
            assert(s.push(p)[k] == s[k]);
        } else {
            assert(s.push(p)[k] == p);
        }
    }
}

/// State change and follow-up command of a status reaction.
///
/// `Playing` records the track, its duration and its favorite flag; `Paused`
/// and `Playtime` record the display state; `Ended` advances the queue and
/// clears the display; `InvalidFile` sets the display to the offending
/// reference so that advancing strips exactly that entry, then clears it.
pub open spec fn status_step(m: ControlView, st: StatusView) -> (ControlView, Option<CmdView>) {
    match st {
        StatusView::Playing(f, length) => (
            ControlView {
                current_file: f,
                is_paused: false,
                is_favorite: m.favorites.contains(f),
                length,
                ..m
            },
            None,
        ),
        StatusView::Paused => (ControlView { is_paused: true, ..m }, None),
        StatusView::Playtime(t) => (ControlView { playtime: t, ..m }, None),
        StatusView::Ended => {
            let (m1, c) = advance_step(m);
            (ControlView { current_file: Seq::empty(), ..m1 }, c)
        },
        StatusView::InvalidFile(f) => {
            let (m1, c) = advance_step(ControlView { current_file: f, ..m });
            (ControlView { current_file: Seq::empty(), ..m1 }, c)
        },
    }
}

/// State change of a favorite toggle: a no-op without a current track, else
/// the current track leaves or joins the favorites and the flag flips.
pub open spec fn toggle_step(m: ControlView) -> ControlView {
    if m.current_file.len() == 0 {
        m
    } else if m.is_favorite {
        ControlView { favorites: m.favorites.remove_value(m.current_file), is_favorite: false, ..m }
    } else {
        ControlView { favorites: m.favorites.push(m.current_file), is_favorite: true, ..m }
    }
}

/// What the persistence collaborator stores and restores: the playlists,
/// the favorites, the volume, the active-playlist pointer and the display
/// name. The collaborator itself (file location, on-disk shape, atomic
/// replace) lives outside this crate.
pub struct SavedState {
    pub playlists: Vec<Playlist>,
    pub favorites: Vec<String>,
    pub volume: u8,
    pub path: String,
    pub current_playlist: String,
}

/// Whether a vector of playlists holds this identifier.
fn vec_has_playlist(pls: &Vec<Playlist>, id: &String) -> (r: bool)
    ensures
        r == has_playlist(playlist_views(pls@), id@),
{
    let ghost vs = playlist_views(pls@);
    let mut i: usize = 0;
    while i < pls.len()
        invariant
            vs == playlist_views(pls@),
            i <= pls@.len(),
            forall|j: int| 0 <= j < i ==> vs[j].id != id@,
        decreases pls@.len() - i,
    {
        if pls[i].id == *id {
            proof {
                assert(vs[i as int] == pls@[i as int]@);
            }
            return true;
        }
        proof {
            assert(vs[i as int] == pls@[i as int]@);
        }
        i = i + 1;
    }
    false
}

/// Whether a vector of track references holds this one.
fn vec_has_track(v: &Vec<String>, t: &String) -> (r: bool)
    ensures
        r == track_views(v@).contains(t@),
{
    let ghost vs = track_views(v@);
    let mut i: usize = 0;
    while i < v.len()
        invariant
            vs == track_views(v@),
            i <= v@.len(),
            forall|j: int| 0 <= j < i ==> vs[j] != t@,
        decreases v@.len() - i,
    {
        if v[i] == *t {
            proof {
                assert(vs[i as int] == v@[i as int]@);
            }
            return true;
        }
        proof {
            assert(vs[i as int] == v@[i as int]@);
        }
        i = i + 1;
    }
    false
}

impl PlaybackControl {
    /// Build a controller from what the persistence collaborator restored.
    ///
    /// Restored data is taken as it stands where well formed: with duplicate
    /// playlist identifiers or duplicate favorites the first occurrence
    /// wins, and an out-of-range volume is clamped to 100. The playback
    /// display starts clean: no current track, not paused, no favorite flag,
    /// no times.
    pub fn from_saved(saved: SavedState) -> (c: PlaybackControl)
        ensures
            control_wf(c@),
            fav_synced(c@),
            c@.path == saved.path@,
            c@.current_playlist == saved.current_playlist@,
            c@.volume == if saved.volume <= 100 {
                saved.volume
            } else {
                100u8
            },
            c@.current_file.len() == 0,
            !c@.is_paused,
            !c@.is_favorite,
            c@.length is None,
            c@.playtime is None,
            (forall|p: int, q: int|
                0 <= p < q < playlist_views(saved.playlists@).len() ==> playlist_views(
                    saved.playlists@,
                )[p].id != playlist_views(saved.playlists@)[q].id) ==> c@.playlists
                == playlist_views(saved.playlists@),
            forall|k: int|
                0 <= k < c@.playlists.len() ==> playlist_views(saved.playlists@).contains(
                    #[trigger] c@.playlists[k],
                ),
            track_views(saved.favorites@).no_duplicates() ==> c@.favorites == track_views(
                saved.favorites@,
            ),
            forall|k: int|
                0 <= k < c@.favorites.len() ==> track_views(saved.favorites@).contains(
                    #[trigger] c@.favorites[k],
                ),
    {
        let SavedState { playlists: mut sp, favorites: mut sf, volume, path, current_playlist } =
            saved;
        let ghost orig_p = playlist_views(saved.playlists@);
        let mut pls: Vec<Playlist> = Vec::new();
        let mut k: usize = 0;
        let total_p = sp.len();
        while k < total_p
            invariant
                orig_p == playlist_views(saved.playlists@),
                orig_p.len() == total_p,
                k <= total_p,
                sp@.len() == total_p - k,
                playlist_views(sp@) =~= orig_p.skip(k as int),
                forall|p: int, q: int|
                    0 <= p < q < playlist_views(pls@).len() ==> playlist_views(pls@)[p].id
                        != playlist_views(pls@)[q].id,
                forall|j: int|
                    0 <= j < playlist_views(pls@).len() ==> orig_p.contains(
                        #[trigger] playlist_views(pls@)[j],
                    ),
                (forall|p: int, q: int|
                    0 <= p < q < orig_p.len() ==> orig_p[p].id != orig_p[q].id) ==> playlist_views(
                    pls@,
                ) == orig_p.take(k as int),
            decreases total_p - k,
        {
            let ghost pls_before = playlist_views(pls@);
            let ghost sp_before = sp@;
            let pl = sp.remove(0);
            proof {
                assert(playlist_views(sp_before)[0] == sp_before[0]@);
                assert(pl@ == orig_p[k as int]);
                assert(playlist_views(sp@) =~= orig_p.skip(k as int + 1)) by {
                    assert forall|j: int| 0 <= j < sp@.len() implies playlist_views(sp@)[j]
                        == orig_p.skip(k as int + 1)[j] by {
                        assert(sp@[j] == sp_before[j + 1]);
                        assert(playlist_views(sp_before)[j + 1] == sp_before[j + 1]@);
                        assert(playlist_views(sp_before)[j + 1] == orig_p.skip(k as int)[j + 1]);
                    }
                }
            }
            if !vec_has_playlist(&pls, &pl.id) {
                proof {
                    lemma_playlist_views_push(pls@, pl);
                }
                pls.push(pl);
                proof {
                    assert(playlist_views(pls@) =~= pls_before.push(orig_p[k as int]));
                    assert forall|p: int, q: int|
                        0 <= p < q < playlist_views(pls@).len() implies playlist_views(pls@)[p].id
                        != playlist_views(pls@)[q].id by {
                        if q < playlist_views(pls@).len() - 1 {
                            assert(playlist_views(pls@)[p] == pls_before[p]);
                            assert(playlist_views(pls@)[q] == pls_before[q]);
                        } else {
                            assert(playlist_views(pls@)[p] == pls_before[p]);
                            assert(!has_playlist(pls_before, orig_p[k as int].id));
                        }
                    }
                    if forall|p: int, q: int|
                        0 <= p < q < orig_p.len() ==> orig_p[p].id != orig_p[q].id {
                        assert(playlist_views(pls@) =~= orig_p.take(k as int + 1)) by {
                            assert(pls_before == orig_p.take(k as int));
                        }
                    }
                }
            } else {
                proof {
                    // a duplicate identifier: only possible when the stored
                    // identifiers were not unique
                    if forall|p: int, q: int|
                        0 <= p < q < orig_p.len() ==> orig_p[p].id != orig_p[q].id {
                        assert(pls_before == orig_p.take(k as int));
                        let j = choose|j: int|
                            0 <= j < pls_before.len() && pls_before[j].id == orig_p[k as int].id;
                        assert(orig_p[j].id == orig_p[k as int].id);
                        assert(false);
                    }
                }
            }
            k = k + 1;
        }
        proof {
            assert(orig_p.take(total_p as int) =~= orig_p);
        }
        let ghost orig_f = track_views(saved.favorites@);
        let mut favs: Vec<String> = Vec::new();
        let mut k2: usize = 0;
        let total_f = sf.len();
        while k2 < total_f
            invariant
                orig_f == track_views(saved.favorites@),
                orig_f.len() == total_f,
                k2 <= total_f,
                sf@.len() == total_f - k2,
                track_views(sf@) =~= orig_f.skip(k2 as int),
                track_views(favs@).no_duplicates(),
                forall|j: int|
                    0 <= j < track_views(favs@).len() ==> orig_f.contains(
                        #[trigger] track_views(favs@)[j],
                    ),
                orig_f.no_duplicates() ==> track_views(favs@) == orig_f.take(k2 as int),
            decreases total_f - k2,
        {
            let ghost favs_before = track_views(favs@);
            let ghost sf_before = sf@;
            let t = sf.remove(0);
            proof {
                assert(track_views(sf_before)[0] == sf_before[0]@);
                assert(t@ == orig_f[k2 as int]);
                assert(track_views(sf@) =~= orig_f.skip(k2 as int + 1)) by {
                    assert forall|j: int| 0 <= j < sf@.len() implies track_views(sf@)[j]
                        == orig_f.skip(k2 as int + 1)[j] by {
                        assert(sf@[j] == sf_before[j + 1]);
                        assert(track_views(sf_before)[j + 1] == sf_before[j + 1]@);
                        assert(track_views(sf_before)[j + 1] == orig_f.skip(k2 as int)[j + 1]);
                    }
                }
            }
            if !vec_has_track(&favs, &t) {
                proof {
                    lemma_track_views_push(favs@, t);
                }
                favs.push(t);
                proof {
                    assert(track_views(favs@) =~= favs_before.push(orig_f[k2 as int]));
                    assert forall|p: int, q: int|
                        0 <= p < q < track_views(favs@).len() implies track_views(favs@)[p]
                        != track_views(favs@)[q] by {
                        if q < track_views(favs@).len() - 1 {
                            assert(track_views(favs@)[p] == favs_before[p]);
                            assert(track_views(favs@)[q] == favs_before[q]);
                        } else {
                            assert(track_views(favs@)[p] == favs_before[p]);
                            assert(favs_before.contains(favs_before[p]));
                        }
                    }
                    if orig_f.no_duplicates() {
                        assert(track_views(favs@) =~= orig_f.take(k2 as int + 1)) by {
                            assert(favs_before == orig_f.take(k2 as int));
                        }
                    }
                }
            } else {
                proof {
                    if orig_f.no_duplicates() {
                        assert(favs_before == orig_f.take(k2 as int));
                        let j = choose|j: int|
                            0 <= j < favs_before.len() && favs_before[j] == orig_f[k2 as int];
                        assert(orig_f[j] == orig_f[k2 as int]);
                        assert(false);
                    }
                }
            }
            k2 = k2 + 1;
        }
        proof {
            assert(orig_f.take(total_f as int) =~= orig_f);
        }
        let vol = if volume <= 100 {
            volume
        } else {
            100
        };
        let c = PlaybackControl {
            playlists: pls,
            path,
            favorites: favs,
            volume: vol,
            current_file: String::new(),
            current_playlist,
            is_paused: false,
            is_favorite: false,
            length: None,
            playtime: None,
        };
        c
    }

    /// Record a volume choice and build the command that applies it.
    pub fn set_volume(&mut self, level: u8) -> (cmd: PlayerCommand)
        requires
            level <= 100,
            control_wf(old(self)@),
        ensures
            final(self)@ == (ControlView { volume: level, ..old(self)@ }),
            control_wf(final(self)@),
            cmd@ == CmdView::Volume(level),
    {
        self.volume = level;
        PlayerCommand::Volume(level)
    }

    /// The "play next" operation: advance the active queue and return the
    /// `Play` command to send, if any. Invoked on explicit user request and
    /// on `Ended` / `InvalidFile`.
    pub fn play_next(&mut self) -> (cmd: Option<PlayerCommand>)
        requires
            control_wf(old(self)@),
        ensures
            control_wf(final(self)@),
            ({
                let (m, c) = advance_step(old(self)@);
                final(self)@ == m && opt_cmd_view(cmd) == c
            }),
    {
        let ghost pls = playlist_views(self.playlists@);
        let mut i: usize = 0;
        while i < self.playlists.len()
            invariant
                control_wf(self@),
                *self == *old(self),
                pls == playlist_views(self.playlists@),
                i <= pls.len(),
                forall|j: int| 0 <= j < i ==> pls[j].id != self.path@,
            decreases pls.len() - i,
        {
            if self.playlists[i].id == self.path {
                proof {
                    assert(pls[i as int] == self.playlists@[i as int]@);
                    lemma_playlist_index_is(pls, self.path@, i as int);
                }
                let mut pl = self.playlists.remove(i);
                let ghost q0 = pl@.tracks;
                proof {
                    assert(pl@ == pls[i as int]);
                }
                if pl.tracks.len() > 0 && !self.current_file.as_str().is_empty() {
                    let ghost t0 = pl.tracks@;
                    pl.tracks.remove(0);
                    proof {
                        lemma_track_views_remove(t0, 0);
                        assert(pl@.tracks =~= q0.drop_first());
                    }
                }
                let ghost q1 = pl@.tracks;
                if pl.tracks.len() > 0 {
                    let front = pl.tracks[0].clone();
                    proof {
                        assert(front@ == q1[0]);
                    }
                    self.playlists.insert(i, pl);
                    self.current_playlist = self.path.clone();
                    proof {
                        lemma_playlist_views_remove(old(self).playlists@, i as int);
                        lemma_playlist_views_insert(
                            old(self).playlists@.remove(i as int),
                            i as int,
                            pl,
                        );
                        assert(pl@ =~= (PlaylistView { id: self.path@, tracks: q1 }));
                        assert(self@.playlists =~= pls.update(
                            i as int,
                            PlaylistView { id: self.path@, tracks: q1 },
                        ));
                        assert(self@ =~= advance_step(old(self)@).0);
                        assert forall|p: int, q: int|
                            0 <= p < q < self@.playlists.len() implies self@.playlists[p].id
                            != self@.playlists[q].id by {
                            assert(self@.playlists[p].id == pls[p].id);
                            assert(self@.playlists[q].id == pls[q].id);
                        }
                    }
                    return Some(PlayerCommand::Play(front, self.volume));
                } else {
                    proof {
                        lemma_playlist_views_remove(old(self).playlists@, i as int);
                        assert(self@.playlists =~= pls.remove(i as int));
                        assert(self@ =~= advance_step(old(self)@).0);
                        assert forall|p: int, q: int|
                            0 <= p < q < self@.playlists.len() implies self@.playlists[p].id
                            != self@.playlists[q].id by {
                            assert(self@.playlists[p] == if p < i {
                                pls[p]
                            } else {
                                pls[p + 1]
                            });
                            assert(self@.playlists[q] == if q < i {
                                pls[q]
                            } else {
                                pls[q + 1]
                            });
                        }
                    }
                    return None;
                }
            }
            proof {
                assert(pls[i as int] == self.playlists@[i as int]@);
            }
            i = i + 1;
        }
        proof {
            assert(!has_playlist(pls, self.path@));
        }
        None
    }

    /// Snapshot the state that the persistence collaborator stores. The
    /// unverified glue serializes it and writes it to a temporary file that
    /// it atomically renames over the previous one.
    pub fn saved(&self) -> (s: SavedState)
        ensures
            playlist_views(s.playlists@) == self@.playlists,
            track_views(s.favorites@) == self@.favorites,
            s.volume == self@.volume,
            s.path@ == self@.path,
            s.current_playlist@ == self@.current_playlist,
    {
        let mut pls: Vec<Playlist> = Vec::new();
        let mut i: usize = 0;
        while i < self.playlists.len()
            invariant
                i <= self.playlists@.len(),
                playlist_views(pls@) =~= playlist_views(self.playlists@).take(i as int),
            decreases self.playlists@.len() - i,
        {
            let ghost before = playlist_views(pls@);
            let id2 = self.playlists[i].id.clone();
            let tracks2 = self.playlists[i].tracks.clone();
            proof {
                assert(tracks2@ =~= self.playlists@[i as int].tracks@) by {
                    assert forall|j: int| 0 <= j < tracks2@.len() implies tracks2@[j]
                        == self.playlists@[i as int].tracks@[j] by {
                        assert(cloned::<String>(
                            self.playlists@[i as int].tracks@[j],
                            tracks2@[j],
                        ));
                    }
                }
            }
            let pl = Playlist { id: id2, tracks: tracks2 };
            proof {
                assert(pl@ =~= playlist_views(self.playlists@)[i as int]) by {
                    assert(playlist_views(self.playlists@)[i as int]
                        == self.playlists@[i as int]@);
                }
                lemma_playlist_views_push(pls@, pl);
            }
            pls.push(pl);
            proof {
                assert(playlist_views(pls@) =~= playlist_views(self.playlists@).take(
                    i as int + 1,
                )) by {
                    assert(playlist_views(pls@) =~= before.push(
                        playlist_views(self.playlists@)[i as int],
                    ));
                }
            }
            i = i + 1;
        }
        proof {
            assert(playlist_views(self.playlists@).take(self.playlists@.len() as int)
                =~= playlist_views(self.playlists@));
        }
        let favs = self.favorites.clone();
        proof {
            assert(track_views(favs@) =~= track_views(self.favorites@)) by {
                assert forall|j: int| 0 <= j < favs@.len() implies favs@[j]
                    == self.favorites@[j] by {
                    assert(cloned::<String>(self.favorites@[j], favs@[j]));
                }
            }
        }
        SavedState {
            playlists: pls,
            favorites: favs,
            volume: self.volume,
            path: self.path.clone(),
            current_playlist: self.current_playlist.clone(),
        }
    }

    /// The file to move to the recoverable trash on request: the current
    /// track, when one is displayed. The unverified glue performs the move;
    /// a failure there is logged and never touches playback state.
    pub fn trash_target(&self) -> (r: Option<String>)
        ensures
            match r {
                Some(t) => t@ == self@.current_file && self@.current_file.len() > 0,
                None => self@.current_file.len() == 0,
            },
    {
        if self.current_file.as_str().is_empty() {
            None
        } else {
            Some(self.current_file.clone())
        }
    }

    /// The displayed current track reference; empty when nothing is shown.
    pub fn current_track(&self) -> (r: &String)
        ensures
            r@ == self@.current_file,
    {
        &self.current_file
    }

    /// The displayed name of the active playlist.
    pub fn playlist_name(&self) -> (r: &String)
        ensures
            r@ == self@.current_playlist,
    {
        &self.current_playlist
    }

    /// The chosen output volume, as a percentage.
    pub fn volume(&self) -> (r: u8)
        ensures
            r == self@.volume,
    {
        self.volume
    }

    /// Whether the engine last reported the track as paused.
    pub fn is_paused(&self) -> (r: bool)
        ensures
            r == self@.is_paused,
    {
        self.is_paused
    }

    /// Whether the displayed track is flagged as a favorite.
    pub fn is_favorite(&self) -> (r: bool)
        ensures
            r == self@.is_favorite,
    {
        self.is_favorite
    }

    /// The total duration of the current track in milliseconds, if known.
    pub fn track_length(&self) -> (r: Option<u64>)
        ensures
            r == self@.length,
    {
        self.length
    }

    /// The last reported elapsed playtime in milliseconds, if any.
    pub fn playtime(&self) -> (r: Option<u64>)
        ensures
            r == self@.playtime,
    {
        self.playtime
    }

    /// The position of the playlist loaded from `id`, if one is held.
    fn find_playlist(&self, id: &String) -> (r: Option<usize>)
        ensures
            match r {
                Some(i) => i < self@.playlists.len() && self@.playlists[i as int].id == id@,
                None => !has_playlist(self@.playlists, id@),
            },
    {
        let ghost pls = self@.playlists;
        let mut i: usize = 0;
        while i < self.playlists.len()
            invariant
                pls == self@.playlists,
                i <= self.playlists@.len(),
                forall|j: int| 0 <= j < i ==> pls[j].id != id@,
            decreases self.playlists@.len() - i,
        {
            if self.playlists[i].id == *id {
                proof {
                    assert(pls[i as int] == self.playlists@[i as int]@);
                }
                return Some(i);
            }
            proof {
                assert(pls[i as int] == self.playlists@[i as int]@);
            }
            i = i + 1;
        }
        None
    }

    /// Load a playlist delivered by the host environment: decode `text`,
    /// stage the tracks under `id` (into an existing empty queue in the
    /// decoder's order, else freshly shuffled), switch the active pointer to
    /// `id`, clear the display so advancing does not strip a track of the
    /// previous playlist, and advance to start playback. On a decode failure
    /// the state is unchanged and the decoder's message is returned.
    pub fn load_playlist(&mut self, id: String, text: &str) -> (r: Result<
        Option<PlayerCommand>,
        String,
    >)
        requires
            control_wf(old(self)@),
        ensures
            control_wf(final(self)@),
            r is Err ==> final(self)@ == old(self)@ && decoded_tracks(text@) is None,
            r matches Ok(cmd) ==> (decoded_tracks(text@) matches Some(s) && load_ok(
                old(self)@,
                id@,
                s,
                final(self)@,
                opt_cmd_view(cmd),
            )),
    {
        let mut tracks = match decode_playlist(text) {
            Err(e) => {
                return Err(e);
            },
            Ok(v) => v,
        };
        let ghost s = decoded_tracks(text@).unwrap();
        let ghost pls = playlist_views(self.playlists@);
        let found = self.find_playlist(&id);
        let keep_order = match found {
            Some(i) => self.playlists[i].tracks.is_empty(),
            None => false,
        };
        let ghost d0 = track_views(tracks@);
        if !keep_order {
            shuffle_tracks(&mut tracks);
            proof {
                lemma_perm_keeps_set(d0, track_views(tracks@));
            }
        }
        let ghost q = track_views(tracks@);
        match found {
            Some(i) => {
                proof {
                    assert(pls[i as int] == self.playlists@[i as int]@);
                    lemma_playlist_index_is(pls, id@, i as int);
                }
                let mut pl = self.playlists.remove(i);
                pl.tracks = tracks;
                self.playlists.insert(i, pl);
                proof {
                    lemma_playlist_views_remove(old(self).playlists@, i as int);
                    lemma_playlist_views_insert(
                        old(self).playlists@.remove(i as int),
                        i as int,
                        pl,
                    );
                    assert(pl@ =~= (PlaylistView { id: id@, tracks: q }));
                    assert(playlist_views(self.playlists@) =~= staged_playlists(pls, id@, q));
                    assert forall|p: int, r2: int|
                        0 <= p < r2 < playlist_views(self.playlists@).len() implies playlist_views(
                        self.playlists@,
                    )[p].id != playlist_views(self.playlists@)[r2].id by {
                        assert(playlist_views(self.playlists@)[p].id == pls[p].id);
                        assert(playlist_views(self.playlists@)[r2].id == pls[r2].id);
                    }
                }
            },
            None => {
                let pl = Playlist { id: id.clone(), tracks };
                proof {
                    assert(pl@ =~= (PlaylistView { id: id@, tracks: q }));
                }
                self.playlists.push(pl);
                proof {
                    lemma_playlist_views_push(old(self).playlists@, pl);
                    assert(playlist_views(self.playlists@) =~= staged_playlists(pls, id@, q));
                    assert forall|p: int, r2: int|
                        0 <= p < r2 < playlist_views(self.playlists@).len() implies playlist_views(
                        self.playlists@,
                    )[p].id != playlist_views(self.playlists@)[r2].id by {
                        let n = pls.len() as int;
                        if r2 < n {
                            assert(playlist_views(self.playlists@)[p].id == pls[p].id);
                            assert(playlist_views(self.playlists@)[r2].id == pls[r2].id);
                        } else {
                            assert(playlist_views(self.playlists@)[r2].id == id@);
                            assert(playlist_views(self.playlists@)[p].id == pls[p].id);
                            assert(pls[p].id != id@);
                        }
                    }
                }
            },
        }
        self.path = id;
        self.current_file = String::new();
        let ghost staged = ControlView {
            playlists: staged_playlists(old(self)@.playlists, id@, q),
            path: id@,
            current_file: Seq::<char>::empty(),
            ..old(self)@
        };
        proof {
            assert(self@ =~= staged);
        }
        let cmd = self.play_next();
        proof {
            assert(q.to_set() == s);
            assert(load_ok(old(self)@, id@, s, self@, opt_cmd_view(cmd)));
        }
        Ok(cmd)
    }

    /// Whether a track reference is in the favorites set.
    pub fn is_favorite_track(&self, t: &String) -> (r: bool)
        ensures
            r == self@.favorites.contains(t@),
    {
        vec_has_track(&self.favorites, t)
    }

    /// React to one status event from the engine, returning the follow-up
    /// command to send, if the reaction advanced the queue.
    pub fn handle_status(&mut self, msg: PlayerStatus) -> (cmd: Option<PlayerCommand>)
        requires
            control_wf(old(self)@),
        ensures
            control_wf(final(self)@),
            ({
                let (m, c) = status_step(old(self)@, msg@);
                final(self)@ == m && opt_cmd_view(cmd) == c
            }),
    {
        match msg {
            PlayerStatus::Playing(f, length) => {
                self.current_file = f;
                self.is_paused = false;
                let fav = self.is_favorite_track(&self.current_file);
                self.is_favorite = fav;
                self.length = length;
                proof {
                    assert(self@ =~= status_step(old(self)@, msg@).0);
                }
                None
            },
            PlayerStatus::Paused => {
                self.is_paused = true;
                proof {
                    assert(self@ =~= status_step(old(self)@, msg@).0);
                }
                None
            },
            PlayerStatus::Playtime(t) => {
                self.playtime = t;
                proof {
                    assert(self@ =~= status_step(old(self)@, msg@).0);
                }
                None
            },
            PlayerStatus::Ended => {
                let cmd = self.play_next();
                self.current_file = String::new();
                proof {
                    assert(self@ =~= status_step(old(self)@, msg@).0);
                }
                cmd
            },
            PlayerStatus::InvalidFile(f) => {
                self.current_file = f;
                let cmd = self.play_next();
                self.current_file = String::new();
                proof {
                    assert(self@ =~= status_step(old(self)@, msg@).0);
                }
                cmd
            },
        }
    }

    /// Toggle whether the current track is a favorite; a silent no-op when no
    /// track is displayed.
    pub fn toggle_favorite(&mut self)
        requires
            control_wf(old(self)@),
            fav_synced(old(self)@),
        ensures
            final(self)@ == toggle_step(old(self)@),
            control_wf(final(self)@),
            fav_synced(final(self)@),
    {
        if self.current_file.as_str().is_empty() {
            return ;
        }
        if self.is_favorite {
            let ghost favs = track_views(self.favorites@);
            let mut i: usize = 0;
            while i < self.favorites.len()
                invariant
                    control_wf(self@),
                    fav_synced(self@),
                    *self == *old(self),
                    self.is_favorite,
                    self.current_file@.len() > 0,
                    i <= self.favorites@.len(),
                    favs == track_views(self.favorites@),
                    forall|j: int| 0 <= j < i ==> favs[j] != self.current_file@,
                decreases self.favorites@.len() - i,
            {
                if self.favorites[i] == self.current_file {
                    proof {
                        assert(favs[i as int] == self.current_file@);
                        assert(favs.contains(self.current_file@));
                        favs.index_of_first_ensures(self.current_file@);
                        assert(favs.index_of_first(self.current_file@) == Some(i as int));
                    }
                    self.favorites.remove(i);
                    self.is_favorite = false;
                    proof {
                        lemma_track_views_remove(old(self).favorites@, i as int);
                        assert(self@.favorites =~= toggle_step(old(self)@).favorites);
                        assert(self@ =~= toggle_step(old(self)@));
                        lemma_toggle_wf(old(self)@);
                    }
                    return ;
                }
                proof {
                    assert(favs[i as int] == self.favorites@[i as int]@);
                }
                i = i + 1;
            }
            proof {
                // the flag said the current track is a favorite, so the scan
                // cannot run off the end
                assert(favs.contains(self.current_file@));
                assert(false);
            }
        } else {
            self.favorites.push(self.current_file.clone());
            self.is_favorite = true;
            proof {
                lemma_track_views_push(old(self).favorites@, old(self).current_file);
                assert(self@.favorites =~= toggle_step(old(self)@).favorites);
                assert(self@ =~= toggle_step(old(self)@));
                lemma_toggle_wf(old(self)@);
            }
        }
    }
}

/// A favorite toggle preserves well-formedness and the flag's agreement with
/// set membership.
proof fn lemma_toggle_wf(m: ControlView)
    requires
        control_wf(m),
        fav_synced(m),
    ensures
        control_wf(toggle_step(m)),
        fav_synced(toggle_step(m)),
{
    if m.current_file.len() > 0 {
        if m.is_favorite {
            m.favorites.index_of_first_ensures(m.current_file);
            let s = m.favorites;
            let t = toggle_step(m).favorites;
            match s.index_of_first(m.current_file) {
                Some(k) => {
                    assert forall|p: int, q: int| 0 <= p < q < t.len() implies t[p] != t[q] by {
                        assert(t[p] == if p < k {
                            s[p]
                        } else {
                            s[p + 1]
                        });
                        assert(t[q] == if q < k {
                            s[q]
                        } else {
                            s[q + 1]
                        });
                    }
                    assert forall|p: int| 0 <= p < t.len() implies t[p] != m.current_file by {
                        assert(t[p] == if p < k {
                            s[p]
                        } else {
                            s[p + 1]
                        });
                        if p < k {
                        } else {
                            assert(s[p + 1] != m.current_file) by {
                                if s[p + 1] == m.current_file {
                                    assert(s.no_duplicates());
                                    assert(s[k] == m.current_file);
                                }
                            }
                        }
                    }
                    assert(!t.contains(m.current_file));
                },
                None => {
                    assert(false);
                },
            }
        } else {
            let t = toggle_step(m).favorites;
            assert(t.contains(m.current_file)) by {
                assert(t[t.len() - 1] == m.current_file);
            }
            assert forall|p: int, q: int| 0 <= p < q < t.len() implies t[p] != t[q] by {
                if q < t.len() - 1 {
                } else {
                    assert(t[q] == m.current_file);
                    assert(t[p] == m.favorites[p]);
                    assert(m.favorites.contains(m.favorites[p]) || true);
                    if t[p] == m.current_file {
                        assert(m.favorites.contains(m.current_file));
                    }
                }
            }
        }
    }
}

/// After removing the playlist at `i`, its identifier is gone and the rest
/// stay unique.
proof fn lemma_wf_remove(pls: Seq<PlaylistView>, i: int)
    requires
        0 <= i < pls.len(),
        forall|p: int, q: int| 0 <= p < q < pls.len() ==> pls[p].id != pls[q].id,
    ensures
        !has_playlist(pls.remove(i), pls[i].id),
        forall|p: int, q: int|
            0 <= p < q < pls.remove(i).len() ==> pls.remove(i)[p].id != pls.remove(i)[q].id,
{
    assert forall|p: int| 0 <= p < pls.remove(i).len() implies pls.remove(i)[p].id != pls[i].id by {
        if p < i {
            assert(pls.remove(i)[p] == pls[p]);
        } else {
            assert(pls.remove(i)[p] == pls[p + 1]);
        }
    }
    assert forall|p: int, q: int|
        0 <= p < q < pls.remove(i).len() implies pls.remove(i)[p].id != pls.remove(i)[q].id by {
        assert(pls.remove(i)[p] == if p < i {
            pls[p]
        } else {
            pls[p + 1]
        });
        assert(pls.remove(i)[q] == if q < i {
            pls[q]
        } else {
            pls[q + 1]
        });
    }
}

/// One round of natural completion: the engine reports `Ended`, the
/// controller advances — removing the track that just finished — and, when a
/// next track was commanded, the engine's answering `Playing` is consumed.
pub open spec fn ended_round(m: ControlView) -> ControlView {
    let (m1, c) = status_step(m, StatusView::Ended);
    match c {
        Some(CmdView::Play(t, v)) => status_step(m1, StatusView::Playing(t, None)).0,
        _ => m1,
    }
}

/// `k` rounds of natural completion in a row.
pub open spec fn ended_rounds(m: ControlView, k: nat) -> ControlView
    decreases k,
{
    if k == 0 {
        m
    } else {
        ended_rounds(ended_round(m), (k - 1) as nat)
    }
}

/// Law: an active playlist of `n >= 1` tracks whose current track is in
/// progress drains in exactly `n` completion rounds: the playlist has then
/// left the set, and one more advancement is a no-op that commands nothing.
/// (Track references must be non-empty strings — an empty reference would
/// read as "nothing in progress" and stall the removal.)
pub proof fn lemma_queue_drains(m: ControlView, n: nat)
    requires
        control_wf(m),
        has_playlist(m.playlists, m.path),
        m.playlists[playlist_index(m.playlists, m.path)].tracks.len() == n,
        forall|j: int|
            0 <= j < n ==> #[trigger] m.playlists[playlist_index(
                m.playlists,
                m.path,
            )].tracks[j].len() > 0,
        n >= 1,
        m.current_file.len() > 0,
    ensures
        !has_playlist(ended_rounds(m, n).playlists, m.path),
        control_wf(ended_rounds(m, n)),
        advance_step(ended_rounds(m, n)).0 == ended_rounds(m, n),
        advance_step(ended_rounds(m, n)).1 is None,
    decreases n,
{
    let i = playlist_index(m.playlists, m.path);
    let q0 = m.playlists[i].tracks;
    let q1 = q0.drop_first();
    let (ma, c) = advance_step(m);
    if n == 1 {
        // the queue empties: the playlist leaves the set and nothing is
        // commanded
        lemma_wf_remove(m.playlists, i);
        let m1 = ended_round(m);
        assert(m1.playlists == m.playlists.remove(i));
        assert(ended_rounds(m, 1) == ended_rounds(m1, 0));
        assert(!has_playlist(m1.playlists, m.path));
    } else {
        // the next track is commanded and reported playing; one track less
        // remains
        assert(q1.len() == n - 1);
        assert(c == Some(CmdView::Play(q1[0], m.volume)));
        let m2 = ended_round(m);
        let pls2 = m.playlists.update(i, PlaylistView { id: m.path, tracks: q1 });
        assert(m2.playlists == pls2);
        assert(m2.current_file == q1[0]);
        assert(q1[0] == q0[1]);
        assert(m2.current_file.len() > 0);
        assert forall|p: int, q: int| 0 <= p < q < pls2.len() implies pls2[p].id != pls2[q].id by {
            assert(pls2[p].id == m.playlists[p].id);
            assert(pls2[q].id == m.playlists[q].id);
        }
        assert(control_wf(m2));
        lemma_playlist_index_is(pls2, m.path, i);
        assert(m2.playlists[playlist_index(m2.playlists, m.path)].tracks =~= q1);
        assert forall|j: int|
            0 <= j < (n - 1) implies #[trigger] m2.playlists[playlist_index(
            m2.playlists,
            m.path,
        )].tracks[j].len() > 0 by {
            assert(q1[j] == q0[j + 1]);
        }
        lemma_queue_drains(m2, (n - 1) as nat);
        assert(ended_rounds(m, n) == ended_rounds(m2, (n - 1) as nat));
    }
}

/// Law: no empty playlist survives an advancement, and a `Play` command is
/// issued exactly when the active playlist survives it. Either tracks remain
/// under the active pointer — and the front of them is commanded — or the
/// playlist has left the set and nothing is commanded.
pub proof fn lemma_advance_leaves_no_empty_playlist(m: ControlView)
    requires
        control_wf(m),
    ensures
        ({
            let (m1, c) = advance_step(m);
            &&& (c is Some <==> has_playlist(m1.playlists, m.path))
            &&& has_playlist(m1.playlists, m.path) ==> m1.playlists[playlist_index(
                m1.playlists,
                m.path,
            )].tracks.len() > 0
        }),
{
    if has_playlist(m.playlists, m.path) {
        let i = playlist_index(m.playlists, m.path);
        let q0 = m.playlists[i].tracks;
        let q1 = if q0.len() > 0 && m.current_file.len() > 0 {
            q0.drop_first()
        } else {
            q0
        };
        let (m1, c) = advance_step(m);
        if q1.len() > 0 {
            assert forall|p: int, q: int|
                0 <= p < q < m1.playlists.len() implies m1.playlists[p].id
                != m1.playlists[q].id by {
                assert(m1.playlists[p].id == m.playlists[p].id);
                assert(m1.playlists[q].id == m.playlists[q].id);
            }
            lemma_playlist_index_is(m1.playlists, m.path, i);
        } else {
            lemma_wf_remove(m.playlists, i);
        }
    }
}

/// Law: toggling the current track's favorite twice restores the favorites
/// set and the displayed flag to their prior state.
pub proof fn lemma_toggle_twice_restores_favorites(m: ControlView)
    requires
        control_wf(m),
        fav_synced(m),
    ensures
        toggle_step(toggle_step(m)).favorites.to_set() == m.favorites.to_set(),
        toggle_step(toggle_step(m)).is_favorite == m.is_favorite,
{
    if m.current_file.len() == 0 {
    } else if m.is_favorite {
        let s = m.favorites;
        let cf = m.current_file;
        s.index_of_first_ensures(cf);
        lemma_toggle_wf(m);
        let m1 = toggle_step(m);
        let t = m1.favorites;
        let u = toggle_step(m1).favorites;
        match s.index_of_first(cf) {
            Some(k) => {
                assert(u == t.push(cf));
                assert(u.to_set() =~= s.to_set()) by {
                    assert forall|a: Seq<char>| u.contains(a) implies s.contains(a) by {
                        let p = choose|p: int| 0 <= p < u.len() && u[p] == a;
                        if p == u.len() - 1 {
                            assert(s[k] == a);
                        } else {
                            assert(t[p] == a);
                            assert(a == if p < k {
                                s[p]
                            } else {
                                s[p + 1]
                            });
                        }
                    }
                    assert forall|a: Seq<char>| s.contains(a) implies u.contains(a) by {
                        let p = choose|p: int| 0 <= p < s.len() && s[p] == a;
                        if p == k {
                            assert(u[u.len() - 1] == a);
                        } else if p < k {
                            assert(t[p] == a);
                            assert(u[p] == a);
                        } else {
                            assert(t[p - 1] == a);
                            assert(u[p - 1] == a);
                        }
                    }
                }
            },
            None => {
                assert(false);
            },
        }
    } else {
        let s = m.favorites;
        let cf = m.current_file;
        let m1 = toggle_step(m);
        let t = m1.favorites;
        let u = toggle_step(m1).favorites;
        assert(t == s.push(cf));
        assert(t.contains(cf)) by {
            assert(t[t.len() - 1] == cf);
        }
        t.index_of_first_ensures(cf);
        match t.index_of_first(cf) {
            Some(k) => {
                assert(t[k] == cf);
                assert(k == s.len()) by {
                    if k < s.len() {
                        assert(s[k] == cf);
                        assert(s.contains(cf));
                    }
                }
                assert(u =~= s);
            },
            None => {
                assert(false);
            },
        }
    }
}

} // verus!
