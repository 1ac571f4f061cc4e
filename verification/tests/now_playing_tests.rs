use clock_rs::config::NowPlayingConfig;
use clock_rs::now_playing::{NowPlaying, Poll};

const SEC: u128 = 1_000_000_000;

fn enabled(secs: u64) -> NowPlaying {
    NowPlaying::from_config(NowPlayingConfig { enabled: true, refresh_interval_seconds: secs })
        .unwrap()
}

#[test]
fn disabled_config_gives_no_line() {
    assert!(NowPlaying::from_config(NowPlayingConfig { enabled: false, refresh_interval_seconds: 5 })
        .is_none());
}

#[test]
fn interval_is_at_least_one_second() {
    assert_eq!(enabled(0).refresh_interval_secs(), 1);
    assert_eq!(enabled(7).refresh_interval_secs(), 7);
}

#[test]
fn first_update_starts_a_fetch() {
    let mut np = enabled(5);
    assert!(np.line().is_none());
    assert!(!np.is_loading());
    assert!(np.update_if_due(None, None));
    assert!(np.is_loading());
}

#[test]
fn no_second_fetch_while_one_runs() {
    let mut np = enabled(5);
    assert!(np.update_if_due(None, None));
    assert!(!np.update_if_due(Some(Poll::Empty), Some(100 * SEC)));
    assert!(np.is_loading());
    assert!(np.line().is_none());
}

#[test]
fn answers_fill_the_line() {
    let mut np = enabled(5);
    np.update_if_due(None, None);
    let start = np.update_if_due(Some(Poll::Received(Ok(Some("Song - Artist".to_string())))), Some(SEC));
    assert!(!start);
    assert_eq!(np.line(), Some("♪ Song - Artist"));
    assert!(!np.is_loading());
    np.update_if_due(None, Some(5 * SEC));
    let start = np.update_if_due(Some(Poll::Received(Ok(None))), Some(SEC));
    assert!(!start);
    assert_eq!(np.line(), Some("♪ No song playing"));
}

#[test]
fn errors_and_disconnects_are_reported() {
    let mut np = enabled(5);
    np.update_if_due(None, None);
    np.update_if_due(Some(Poll::Received(Err("boom\n  bad".to_string()))), Some(0));
    assert_eq!(np.line(), Some("Now playing error: boom bad"));
    np.update_if_due(None, Some(10 * SEC));
    np.update_if_due(Some(Poll::Disconnected), Some(0));
    assert_eq!(np.line(), Some("Now playing error: background updater disconnected"));
}

#[test]
fn refresh_interval_is_kept() {
    let mut np = enabled(5);
    np.update_if_due(None, None);
    np.update_if_due(Some(Poll::Received(Ok(None))), Some(SEC));
    assert!(!np.update_if_due(None, Some(5 * SEC - 1)));
    assert!(np.update_if_due(None, Some(5 * SEC)));
}

#[test]
fn fetch_result_from_output() {
    assert_eq!(NowPlaying::fetch_result(true, "  Song - Artist\n", "", "0"), Ok(Some("Song - Artist".to_string())));
    assert_eq!(NowPlaying::fetch_result(true, " \n", "", "0"), Ok(None));
    assert_eq!(NowPlaying::fetch_result(false, "", "not allowed\n", "1"), Err("not allowed".to_string()));
    assert_eq!(
        NowPlaying::fetch_result(false, "", "", "exit status: 1"),
        Err("osascript exited with status exit status: 1".to_string())
    );
    assert_eq!(NowPlaying::format_display_error("x"), "Now playing error: x");
}

#[test]
fn line_appears_with_the_first_answer_and_keeps_its_shape() {
    let mut np = enabled(5);
    assert!(np.update_if_due(None, None));
    assert_eq!(np.line(), None);
    assert!(!np.update_if_due(Some(Poll::Empty), Some(SEC)));
    assert_eq!(np.line(), None);
    np.update_if_due(Some(Poll::Received(Ok(Some("Song".to_string())))), Some(2 * SEC));
    assert_eq!(np.line(), Some("♪ Song"));
    np.update_if_due(None, Some(2 * SEC));
    assert_eq!(np.line(), Some("♪ Song"));
    np.update_if_due(Some(Poll::Received(Err("no\nplayer".to_string()))), Some(6 * SEC));
    let line = np.line().unwrap();
    assert!(line.starts_with("Now playing error: "));
    assert_eq!(line, "Now playing error: no player");
    np.update_if_due(Some(Poll::Received(Ok(None))), Some(12 * SEC));
    assert!(np.line().unwrap().starts_with("♪ "));
}
