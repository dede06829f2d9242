use cs2_buttplug::script::ScriptWatch;

#[test]
fn rebuilds_only_for_a_newer_file() {
    let mut w = ScriptWatch::new(1000);
    assert!(!w.needs_rebuild(Some(1000)));
    assert!(!w.needs_rebuild(Some(999)));
    assert!(!w.needs_rebuild(None));
    assert_eq!(w.last_modified(), 1000);
    assert!(w.needs_rebuild(Some(1001)));
    assert_eq!(w.last_modified(), 1001);
    // The rebuild is recorded: the same file is not rebuilt again.
    assert!(!w.needs_rebuild(Some(1001)));
}

#[test]
fn times_before_the_epoch_compare_too() {
    let mut w = ScriptWatch::new(-50);
    assert!(w.needs_rebuild(Some(-10)));
    assert_eq!(w.last_modified(), -10);
}
