use satpaper::poll::{After, Poller, Step};

#[test]
fn first_round_always_builds() {
    let p = Poller::new(false);
    assert_eq!(p.observe(Some(20231026120000)), Step::Regenerate(20231026120000));
    assert_eq!(p.observe(None), Step::Regenerate(0));
    assert_eq!(p.observe(Some(0)), Step::Regenerate(0));
}

#[test]
fn same_time_builds_nothing() {
    let mut p = Poller::new(false);
    assert_eq!(p.composited(10, true), After::SetWallpaper);
    assert_eq!(p.last, Some(10));
    assert_eq!(p.observe(Some(10)), Step::Sleep);
    assert_eq!(p.observe(None), Step::Sleep);
    assert_eq!(p.observe(Some(11)), Step::Regenerate(11));
    assert_eq!(p.observe(Some(9)), Step::Regenerate(9));
}

#[test]
fn failed_attempt_is_tried_again() {
    let mut p = Poller::new(false);
    assert_eq!(p.composited(10, false), After::Sleep);
    assert_eq!(p.last, None);
    assert_eq!(p.observe(Some(10)), Step::Regenerate(10));
    assert_eq!(p.composited(10, true), After::SetWallpaper);
    assert_eq!(p.composited(12, false), After::Sleep);
    assert_eq!(p.last, Some(10));
    assert_eq!(p.observe(Some(12)), Step::Regenerate(12));
}

#[test]
fn once_stops_after_the_first_wallpaper() {
    let mut p = Poller::new(true);
    assert!(p.once);
    assert_eq!(p.composited(10, false), After::Sleep);
    assert_eq!(p.composited(10, true), After::Exit);
    assert_eq!(p.last, Some(10));
}
