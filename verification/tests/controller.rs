use audio_wrench::control::{PlaybackControl, Playlist, SavedState};
use audio_wrench::player::{PlayerCommand, PlayerStatus};

fn saved_with(
    playlists: Vec<(&str, Vec<&str>)>,
    favorites: Vec<&str>,
    volume: u8,
    path: &str,
) -> SavedState {
    SavedState {
        playlists: playlists
            .into_iter()
            .map(|(id, ts)| Playlist {
                id: String::from(id),
                tracks: ts.into_iter().map(String::from).collect(),
            })
            .collect(),
        favorites: favorites.into_iter().map(String::from).collect(),
        volume,
        path: String::from(path),
        current_playlist: String::new(),
    }
}

#[test]
fn queue_drains_and_playlist_is_removed() {
    let mut c =
        PlaybackControl::from_saved(saved_with(vec![("p", vec!["a", "b"])], vec![], 30, "p"));
    // nothing played yet: the first advance plays the front without removing
    let cmd = c.play_next();
    assert!(matches!(cmd, Some(PlayerCommand::Play(t, 30)) if t == "a"));
    let _ = c.handle_status(PlayerStatus::Playing(String::from("a"), None));
    // first completion: drop "a", play "b"
    let cmd = c.handle_status(PlayerStatus::Ended);
    assert!(matches!(cmd, Some(PlayerCommand::Play(t, _)) if t == "b"));
    let _ = c.handle_status(PlayerStatus::Playing(String::from("b"), None));
    // second completion: the queue empties and the playlist leaves the set
    let cmd = c.handle_status(PlayerStatus::Ended);
    assert!(cmd.is_none());
    assert!(c.saved().playlists.is_empty());
    // one more advance is a no-op
    assert!(c.play_next().is_none());
}

#[test]
fn reload_appends_to_empty_and_replaces_nonempty() {
    let mut c = PlaybackControl::from_saved(saved_with(vec![("list.m3u", vec![])], vec![], 50, "x"));
    let r = c.load_playlist(String::from("list.m3u"), "a.mp3\nb.mp3").unwrap();
    assert!(r.is_some());
    let s = c.saved();
    assert_eq!(s.playlists.len(), 1);
    assert_eq!(s.path, String::from("list.m3u"));
    let mut got = s.playlists[0].tracks.clone();
    got.sort();
    assert_eq!(got, vec![String::from("a.mp3"), String::from("b.mp3")]);
    // the queue is now non-empty: reloading replaces it after a fresh shuffle
    let _ = c.load_playlist(String::from("list.m3u"), "c.mp3\nd.mp3").unwrap();
    let s = c.saved();
    assert_eq!(s.playlists.len(), 1);
    let mut got = s.playlists[0].tracks.clone();
    got.sort();
    assert_eq!(got, vec![String::from("c.mp3"), String::from("d.mp3")]);
}

#[test]
fn favorite_double_toggle_restores_set() {
    let mut c = PlaybackControl::from_saved(saved_with(vec![], vec!["keep.mp3"], 10, ""));
    let _ = c.handle_status(PlayerStatus::Playing(String::from("song.mp3"), None));
    assert!(!c.is_favorite());
    c.toggle_favorite();
    assert!(c.is_favorite());
    let favs = c.saved().favorites;
    assert!(favs.contains(&String::from("song.mp3")));
    assert!(favs.contains(&String::from("keep.mp3")));
    c.toggle_favorite();
    assert!(!c.is_favorite());
    assert_eq!(c.saved().favorites, vec![String::from("keep.mp3")]);
}

#[test]
fn favorite_toggle_without_track_is_noop() {
    let mut c = PlaybackControl::from_saved(saved_with(vec![], vec!["keep.mp3"], 10, ""));
    c.toggle_favorite();
    assert_eq!(c.saved().favorites, vec![String::from("keep.mp3")]);
    assert!(!c.is_favorite());
}

#[test]
fn playing_status_recomputes_favorite_flag() {
    let mut c = PlaybackControl::from_saved(saved_with(vec![], vec!["fav.mp3"], 10, ""));
    let _ = c.handle_status(PlayerStatus::Playing(String::from("fav.mp3"), None));
    assert!(c.is_favorite());
    let _ = c.handle_status(PlayerStatus::Playing(String::from("other.mp3"), None));
    assert!(!c.is_favorite());
}

#[test]
fn invalid_file_strips_offending_entry_and_advances() {
    let mut c = PlaybackControl::from_saved(saved_with(
        vec![("p", vec!["bad.mp3", "good.mp3"])],
        vec![],
        20,
        "p",
    ));
    let cmd = c.handle_status(PlayerStatus::InvalidFile(String::from("bad.mp3")));
    assert!(matches!(cmd, Some(PlayerCommand::Play(t, _)) if t == "good.mp3"));
    assert_eq!(c.current_track().as_str(), "");
    let s = c.saved();
    assert_eq!(s.playlists[0].tracks, vec![String::from("good.mp3")]);
}

#[test]
fn status_updates_display_state() {
    let mut c = PlaybackControl::from_saved(saved_with(vec![], vec![], 200, ""));
    // an out-of-range restored volume is clamped
    assert_eq!(c.volume(), 100);
    let cmd = c.set_volume(55);
    assert!(matches!(cmd, PlayerCommand::Volume(55)));
    assert_eq!(c.volume(), 55);
    let _ = c.handle_status(PlayerStatus::Playing(String::from("t.mp3"), Some(90_000)));
    assert_eq!(c.current_track().as_str(), "t.mp3");
    assert_eq!(c.track_length(), Some(90_000));
    assert!(!c.is_paused());
    let _ = c.handle_status(PlayerStatus::Paused);
    assert!(c.is_paused());
    let _ = c.handle_status(PlayerStatus::Playtime(Some(1_234)));
    assert_eq!(c.playtime(), Some(1_234));
}

#[test]
fn trash_target_is_the_current_track() {
    let mut c = PlaybackControl::from_saved(saved_with(vec![], vec![], 0, ""));
    assert!(c.trash_target().is_none());
    let _ = c.handle_status(PlayerStatus::Playing(String::from("t.mp3"), None));
    assert_eq!(c.trash_target(), Some(String::from("t.mp3")));
}

#[test]
fn malformed_playlist_text_is_rejected() {
    let mut c = PlaybackControl::from_saved(saved_with(vec![], vec![], 0, ""));
    let r = c.load_playlist(String::from("x.xspf"), "<playlist foo=bar></playlist>");
    assert!(r.is_err());
    assert!(c.saved().playlists.is_empty());
}

#[test]
fn restored_duplicates_keep_first() {
    let s = saved_with(
        vec![("p", vec!["a"]), ("p", vec!["b"])],
        vec!["f", "f"],
        40,
        "p",
    );
    let c = PlaybackControl::from_saved(s);
    let out = c.saved();
    assert_eq!(out.playlists.len(), 1);
    assert_eq!(out.playlists[0].tracks, vec![String::from("a")]);
    assert_eq!(out.favorites, vec![String::from("f")]);
}

#[test]
fn advance_with_dangling_pointer_is_noop() {
    let mut c =
        PlaybackControl::from_saved(saved_with(vec![("p", vec!["a"])], vec![], 10, "gone"));
    assert!(c.play_next().is_none());
    assert_eq!(c.saved().playlists.len(), 1);
}

#[test]
fn loading_switches_the_active_playlist() {
    let mut c =
        PlaybackControl::from_saved(saved_with(vec![("old", vec!["o.mp3"])], vec![], 10, "old"));
    let r = c.load_playlist(String::from("new"), "n.mp3").unwrap();
    assert!(matches!(r, Some(PlayerCommand::Play(t, _)) if t == "n.mp3"));
    let s = c.saved();
    assert_eq!(s.path, String::from("new"));
    assert_eq!(s.playlists.len(), 2);
    assert_eq!(c.playlist_name().as_str(), "new");
}
