use uxie_verified::c_parser::include_walk::{IncludeWalk, WalkAction, WalkEvent};
use uxie_verified::c_parser::includes::CInclude;

fn inc(path: &str, is_system: bool) -> CInclude {
    CInclude { path: path.to_string(), is_system }
}

fn canonicalize(a: &WalkAction) -> String {
    match a {
        WalkAction::Canonicalize(p) => p.clone(),
        _ => panic!("expected Canonicalize"),
    }
}

fn probe(a: &WalkAction) -> String {
    match a {
        WalkAction::Probe(p) => p.clone(),
        _ => panic!("expected Probe"),
    }
}

#[test]
fn walk_loads_a_file_then_follows_its_includes_depth_first() {
    let (mut w, a) = IncludeWalk::new("src/main.h".to_string(), vec!["inc".to_string()], true);
    assert_eq!(canonicalize(&a), "src/main.h");
    let a = w.step(WalkEvent::Canonical("/p/src/main.h".to_string()));
    match a {
        WalkAction::Load(p, c) => {
            assert_eq!(p, "src/main.h");
            assert_eq!(c, "/p/src/main.h");
        }
        _ => panic!("expected Load"),
    }
    let a = w.step(WalkEvent::Loaded("src".to_string(), vec![inc("stdio.h", true), inc("a.h", false)]));
    // Looked for beside the file first.
    assert_eq!(probe(&a), "src/a.h");
    let a = w.step(WalkEvent::Exists(false));
    // Then in each include directory.
    assert_eq!(probe(&a), "inc/a.h");
    let a = w.step(WalkEvent::Exists(true));
    assert_eq!(canonicalize(&a), "inc/a.h");
    let a = w.step(WalkEvent::Canonical("/p/inc/a.h".to_string()));
    assert!(matches!(a, WalkAction::Load(_, _)));
    // a.h includes main.h back: already loaded, so it is passed over.
    let a = w.step(WalkEvent::Loaded("inc".to_string(), vec![inc("../src/main.h", false)]));
    assert_eq!(probe(&a), "inc/../src/main.h");
    let a = w.step(WalkEvent::Exists(true));
    let a = w.step(WalkEvent::Canonical(canonicalize(&a).replace("inc/../src/main.h", "/p/src/main.h")));
    assert!(matches!(a, WalkAction::Done));
    assert_eq!(w.visited, vec!["/p/src/main.h".to_string(), "/p/inc/a.h".to_string()]);
}

#[test]
fn unresolved_includes_fail_only_when_strict() {
    let (mut w, _) = IncludeWalk::new("m.h".to_string(), vec![], true);
    w.step(WalkEvent::Canonical("/m.h".to_string()));
    let a = w.step(WalkEvent::Loaded("d".to_string(), vec![inc("gone.h", false)]));
    assert_eq!(probe(&a), "d/gone.h");
    match w.step(WalkEvent::Exists(false)) {
        WalkAction::Fail(e) => assert!(e.message().ends_with("Unresolved include 'gone.h' (searched from d)")),
        _ => panic!("expected Fail"),
    }

    let (mut w, _) = IncludeWalk::new("m.h".to_string(), vec![], false);
    w.step(WalkEvent::Canonical("/m.h".to_string()));
    w.step(WalkEvent::Loaded("d".to_string(), vec![inc("gone.h", false), inc("b.h", false)]));
    let a = w.step(WalkEvent::Exists(false));
    assert_eq!(probe(&a), "d/b.h");
}

#[test]
fn events_out_of_turn_end_the_walk() {
    let (mut w, _) = IncludeWalk::new("m.h".to_string(), vec![], true);
    assert!(matches!(w.step(WalkEvent::Exists(true)), WalkAction::Done));
    let a = w.step(WalkEvent::Canonical("/m.h".to_string()));
    assert!(matches!(a, WalkAction::Load(_, _)));
    assert!(matches!(w.step(WalkEvent::Canonical("/x.h".to_string())), WalkAction::Done));
    assert!(matches!(w.step(WalkEvent::Loaded(".".to_string(), vec![])), WalkAction::Done));
}
