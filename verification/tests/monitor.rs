use quind::monitor::{Error, EventKind, Monitor, Notice, NoticeKind, Received, RenameMode};

fn monitor_init() -> Monitor {
    Monitor::new()
}

fn notice(kind: NoticeKind, paths: &[&str]) -> Notice {
    Notice { kind, paths: paths.iter().map(|p| String::from(*p)).collect() }
}

#[test]
fn init() {
    let mut m = monitor_init();
    assert_eq!(m.watch("./", Ok(())).is_ok(), true);
}

#[test]
fn add_one_watched_directory() {
    let mut m = monitor_init();
    assert_eq!(m.watch("./", Ok(())).is_ok(), true);
    assert_eq!(m.unwatch("./", Ok(())).is_ok(), true);
}

#[test]
fn a_new_monitor_observes_nothing() {
    let m = monitor_init();
    assert_eq!(m.watched(), Vec::<String>::new());
    assert_eq!(m.is_watched("./"), false);
    assert_eq!(m.is_precise(), false);
    assert_eq!(m.is_closed(), false);
}

#[test]
fn watch_keeps_the_order_of_acceptance() {
    let mut m = monitor_init();
    assert!(m.watch("./b", Ok(())).is_ok());
    assert!(m.watch("./a", Ok(())).is_ok());
    assert_eq!(m.watched(), vec![String::from("./b"), String::from("./a")]);
    assert_eq!(m.is_watched("./a"), true);
    assert_eq!(m.is_watched("./c"), false);
}

#[test]
fn watch_of_a_watched_root_changes_nothing() {
    let mut m = monitor_init();
    assert!(m.watch("./data", Ok(())).is_ok());
    assert!(m.watch("./data", Ok(())).is_ok());
    assert!(m.watch("./data", Err(String::from("refused"))).is_ok());
    assert_eq!(m.watched(), vec![String::from("./data")]);
}

#[test]
fn watch_that_was_refused_is_reported_and_forgotten() {
    let mut m = monitor_init();
    match m.watch("./nowhere", Err(String::from("No path was found."))) {
        Err(Error::Notify(report)) => assert_eq!(report, "No path was found."),
        other => panic!("unexpected: {:?}", other),
    }
    assert_eq!(m.is_watched("./nowhere"), false);
    assert_eq!(m.watched().len(), 0);
}

fn refusal(r: Result<(), Error>) -> String {
    match r {
        Err(Error::Notify(report)) => report,
        other => panic!("unexpected: {:?}", other),
    }
}

#[test]
fn unwatch_of_an_unwatched_root_is_an_error() {
    let mut m = monitor_init();
    assert_eq!(refusal(m.unwatch("./data", Ok(()))), "No watch was found.");
    assert!(m.watch("./data", Ok(())).is_ok());
    assert_eq!(refusal(m.unwatch("./other", Ok(()))), "No watch was found.");
    assert_eq!(m.watched(), vec![String::from("./data")]);
    assert!(m.unwatch("./data", Ok(())).is_ok());
    assert_eq!(refusal(m.unwatch("./data", Ok(()))), "No watch was found.");
    assert_eq!(m.watched().len(), 0);
}

#[test]
fn unwatch_of_an_unwatched_root_hands_on_the_refusal() {
    let mut m = monitor_init();
    assert!(m.watch("./data", Ok(())).is_ok());
    assert_eq!(refusal(m.unwatch("./other", Err(String::from("No watch was found for ./other")))), "No watch was found for ./other");
    assert_eq!(m.watched(), vec![String::from("./data")]);
    let mut m = monitor_init();
    assert_eq!(refusal(m.unwatch("./", Err(String::from("refused")))), "refused");
    assert_eq!(m.watched().len(), 0);
}

#[test]
fn unwatch_takes_out_that_root_only() {
    let mut m = monitor_init();
    assert!(m.watch("./a", Ok(())).is_ok());
    assert!(m.watch("./b", Ok(())).is_ok());
    assert!(m.watch("./c", Ok(())).is_ok());
    assert!(m.unwatch("./b", Ok(())).is_ok());
    assert_eq!(m.watched(), vec![String::from("./a"), String::from("./c")]);
}

#[test]
fn unwatch_that_was_refused_leaves_the_root_observed() {
    let mut m = monitor_init();
    assert!(m.watch("./a", Ok(())).is_ok());
    match m.unwatch("./a", Err(String::from("busy"))) {
        Err(Error::Notify(report)) => assert_eq!(report, "busy"),
        other => panic!("unexpected: {:?}", other),
    }
    assert_eq!(m.is_watched("./a"), true);
}

#[test]
fn release_hands_back_the_last_root_first() {
    let mut m = monitor_init();
    assert!(m.watch("./a", Ok(())).is_ok());
    assert!(m.watch("./b", Ok(())).is_ok());
    assert_eq!(m.release(), Some(String::from("./b")));
    assert_eq!(m.release(), Some(String::from("./a")));
    assert_eq!(m.release(), None);
    assert_eq!(m.watched().len(), 0);
}

#[test]
fn set_precise_records_a_grant() {
    let mut m = monitor_init();
    assert!(matches!(m.set_precise(Ok(true)), Ok(true)));
    assert_eq!(m.is_precise(), true);
}

#[test]
fn set_precise_succeeds_where_the_option_was_not_applied() {
    let mut m = monitor_init();
    assert!(matches!(m.set_precise(Ok(false)), Ok(true)));
    assert_eq!(m.is_precise(), false);
    assert!(matches!(m.set_precise(Ok(true)), Ok(true)));
    assert!(matches!(m.set_precise(Ok(false)), Ok(true)));
    assert_eq!(m.is_precise(), true);
}

#[test]
fn set_precise_reports_a_refusal() {
    let mut m = monitor_init();
    match m.set_precise(Err(String::from("not supported"))) {
        Err(Error::Config(report)) => assert_eq!(report, "not supported"),
        other => panic!("unexpected: {:?}", other),
    }
    assert_eq!(m.is_precise(), false);
    assert!(matches!(m.set_precise(Ok(true)), Ok(true)));
    assert!(matches!(m.set_precise(Err(String::from("again"))), Err(Error::Config(_))));
    assert_eq!(m.is_precise(), true);
}

#[test]
fn adapt_keeps_the_three_plain_kinds() {
    let e = notice(NoticeKind::Create, &["./data/a.txt"]).adapt().unwrap();
    assert_eq!(e.kind, EventKind::Create);
    assert_eq!(e.paths, vec![String::from("./data/a.txt")]);
    let e = notice(NoticeKind::Modify, &["./data/a.txt"]).adapt().unwrap();
    assert_eq!(e.kind, EventKind::Modify);
    assert_eq!(e.paths, vec![String::from("./data/a.txt")]);
    let e = notice(NoticeKind::Remove, &["./data/a.txt"]).adapt().unwrap();
    assert_eq!(e.kind, EventKind::Remove);
    assert_eq!(e.paths, vec![String::from("./data/a.txt")]);
}

#[test]
fn adapt_reads_a_name_change_by_its_ends() {
    let e = notice(NoticeKind::Rename(RenameMode::Both), &["./a", "./b"]).adapt().unwrap();
    assert_eq!(e.kind, EventKind::Rename);
    assert_eq!(e.paths, vec![String::from("./a"), String::from("./b")]);
    let e = notice(NoticeKind::Rename(RenameMode::From), &["./a"]).adapt().unwrap();
    assert_eq!(e.kind, EventKind::Remove);
    assert_eq!(e.paths, vec![String::from("./a")]);
    let e = notice(NoticeKind::Rename(RenameMode::To), &["./b"]).adapt().unwrap();
    assert_eq!(e.kind, EventKind::Create);
    assert_eq!(e.paths, vec![String::from("./b")]);
}

#[test]
fn adapt_drops_what_stands_for_no_event() {
    assert!(notice(NoticeKind::Any, &["./a"]).adapt().is_none());
    assert!(notice(NoticeKind::Access, &["./a"]).adapt().is_none());
    assert!(notice(NoticeKind::Other, &["./a"]).adapt().is_none());
    assert!(notice(NoticeKind::Rename(RenameMode::Any), &["./a"]).adapt().is_none());
    assert!(notice(NoticeKind::Rename(RenameMode::Other), &["./a"]).adapt().is_none());
}

#[test]
fn adapt_drops_a_wrong_number_of_paths() {
    assert!(notice(NoticeKind::Create, &[]).adapt().is_none());
    assert!(notice(NoticeKind::Create, &["./a", "./b"]).adapt().is_none());
    assert!(notice(NoticeKind::Modify, &[]).adapt().is_none());
    assert!(notice(NoticeKind::Remove, &["./a", "./b"]).adapt().is_none());
    assert!(notice(NoticeKind::Rename(RenameMode::Both), &["./a"]).adapt().is_none());
    assert!(notice(NoticeKind::Rename(RenameMode::Both), &["./a", "./b", "./c"]).adapt().is_none());
    assert!(notice(NoticeKind::Rename(RenameMode::From), &["./a", "./b"]).adapt().is_none());
    assert!(notice(NoticeKind::Rename(RenameMode::To), &[]).adapt().is_none());
}

#[test]
fn get_hands_on_an_event() {
    let mut m = monitor_init();
    let e = m.get(Received::Notice(notice(NoticeKind::Create, &["./data/a.txt"]))).unwrap().unwrap();
    assert_eq!(e.kind, EventKind::Create);
    assert_eq!(e.paths, vec![String::from("./data/a.txt")]);
    assert_eq!(m.is_closed(), false);
}

#[test]
fn get_skips_what_stands_for_no_event() {
    let mut m = monitor_init();
    assert!(matches!(m.get(Received::Notice(notice(NoticeKind::Access, &["./a"]))), Ok(None)));
    assert_eq!(m.is_closed(), false);
}

#[test]
fn get_reports_a_fault_and_goes_on() {
    let mut m = monitor_init();
    match m.get(Received::Fault(String::from("queue overflow"))) {
        Err(Error::Notify(report)) => assert_eq!(report, "queue overflow"),
        other => panic!("unexpected: {:?}", other),
    }
    assert_eq!(m.is_closed(), false);
    assert!(matches!(m.get(Received::Notice(notice(NoticeKind::Remove, &["./a"]))), Ok(Some(_))));
}

#[test]
fn get_fails_for_good_once_the_channel_is_closed() {
    let mut m = monitor_init();
    assert!(matches!(m.get(Received::Disconnected), Err(Error::Sync)));
    assert_eq!(m.is_closed(), true);
    assert!(matches!(m.get(Received::Notice(notice(NoticeKind::Create, &["./a"]))), Err(Error::Sync)));
    assert!(matches!(m.get(Received::Fault(String::from("late"))), Err(Error::Sync)));
    assert!(matches!(m.get(Received::Disconnected), Err(Error::Sync)));
    assert_eq!(m.is_closed(), true);
}
