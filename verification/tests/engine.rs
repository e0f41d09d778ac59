use audio_wrench::player::{PauseAction, Player, PlayerStatus};

#[test]
fn invalid_file_reports_original_reference() {
    let mut p = Player::new();
    let origin = String::from("/no/such/dir/missing.xyz");
    let target = p.begin_play(&origin);
    assert_eq!(target, Some(origin.clone()));
    p.finish_play(origin, None, 5);
    let st = p.on_idle(true, 6);
    assert_eq!(
        st,
        PlayerStatus::InvalidFile(String::from("/no/such/dir/missing.xyz"))
    );
    // no session is left loaded: a pause is a silent no-op
    let act = p.on_pause(7);
    assert_eq!(act, PauseAction::Nothing);
    // the absent session then reads as drained: one Ended
    let st2 = p.on_idle(true, 8);
    assert_eq!(st2, PlayerStatus::Ended);
}

#[test]
fn second_play_supersedes_first() {
    let mut p = Player::new();
    let o1 = String::from("/music/one.mp3");
    assert_eq!(p.begin_play(&o1), Some(o1.clone()));
    p.finish_play(o1, Some((String::from("/music/one.mp3"), Some(30_000))), 10);
    let o2 = String::from("/music/two.mp3");
    assert_eq!(p.begin_play(&o2), Some(o2.clone()));
    p.finish_play(o2, Some((String::from("/music/two.mp3"), Some(40_000))), 20);
    // exactly one Playing comes out, for the second track only
    let st = p.on_idle(false, 30);
    assert_eq!(
        st,
        PlayerStatus::Playing(String::from("/music/two.mp3"), Some(40_000))
    );
    let st2 = p.on_idle(false, 40);
    assert!(matches!(st2, PlayerStatus::Playtime(_)));
}

#[test]
fn playtime_frozen_while_paused() {
    let mut p = Player::new();
    let o = String::from("/music/one.mp3");
    let _ = p.begin_play(&o);
    p.finish_play(o, Some((String::from("/music/one.mp3"), None)), 1_000);
    assert!(matches!(p.on_idle(false, 1_000), PlayerStatus::Playing(_, _)));
    assert_eq!(p.on_pause(2_000), PauseAction::PauseSink);
    assert_eq!(p.on_idle(false, 2_100), PlayerStatus::Paused);
    let before = p.on_idle(false, 2_200);
    let after = p.on_idle(false, 2_700); // 500 ms later, still paused
    assert_eq!(before, PlayerStatus::Playtime(Some(1_000)));
    assert_eq!(after, before);
    // resuming folds the closed pause interval into the accumulated total
    assert_eq!(p.on_pause(3_000), PauseAction::ResumeSink);
    assert!(matches!(p.on_idle(false, 3_000), PlayerStatus::Playing(_, _)));
    assert_eq!(p.on_idle(false, 4_000), PlayerStatus::Playtime(Some(2_000)));
}

#[test]
fn ended_fires_once_per_completion() {
    let mut p = Player::new();
    assert_eq!(p.on_idle(true, 1), PlayerStatus::Ended);
    assert_eq!(p.on_idle(true, 2), PlayerStatus::Playtime(None));
    assert_eq!(p.on_idle(true, 3), PlayerStatus::Playtime(None));
    // a Pause re-arms the completion edge even with nothing loaded
    assert_eq!(p.on_pause(4), PauseAction::Nothing);
    assert_eq!(p.on_idle(true, 5), PlayerStatus::Ended);
}

#[test]
fn volume_applies_only_with_a_session() {
    let mut p = Player::new();
    assert!(!p.on_volume());
    let o = String::from("/m/a.mp3");
    let _ = p.begin_play(&o);
    p.finish_play(o, Some((String::from("/m/a.mp3"), None)), 1);
    assert!(p.on_volume());
}

#[test]
fn non_file_url_is_rejected() {
    let mut p = Player::new();
    let o = String::from("http://example.org/stream.mp3");
    assert_eq!(p.begin_play(&o), None);
    // the stopped sink then drains into a single Ended
    assert_eq!(p.on_idle(true, 1), PlayerStatus::Ended);
    assert!(matches!(p.on_idle(true, 2), PlayerStatus::Playtime(None)));
}

#[test]
fn file_url_reference_resolves_to_path() {
    let mut p = Player::new();
    let o = String::from("file:///tmp/a.mp3");
    assert_eq!(p.begin_play(&o), Some(String::from("/tmp/a.mp3")));
}

#[test]
fn playtime_counts_from_session_start() {
    let mut p = Player::new();
    let o = String::from("/m/a.mp3");
    let _ = p.begin_play(&o);
    p.finish_play(o, Some((String::from("/m/a.mp3"), Some(90_000))), 100);
    assert_eq!(
        p.on_idle(false, 150),
        PlayerStatus::Playing(String::from("/m/a.mp3"), Some(90_000))
    );
    assert_eq!(p.on_idle(false, 1_100), PlayerStatus::Playtime(Some(1_000)));
}
