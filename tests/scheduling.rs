use mainloop::{call_internal, terminate, CbKind, MainLoop, MainLoopError, Pending, Registry, Step};
use std::cell::Cell;
use std::rc::Rc;

/// Drives `ml` on a simulated clock until it stops; `work` runs each firing
/// and says whether an interval goes on.
fn drive<W: FnMut(&Registry, &mut MainLoop, Pending, u64) -> bool>(
    ml: &mut MainLoop,
    reg: &mut Registry,
    now: &mut u64,
    mut work: W,
) {
    match ml.with_current_loop(reg) {
        Ok(true) => {}
        Ok(false) => return,
        Err(e) => panic!("{:?}", e),
    }
    loop {
        match ml.run(*now) {
            Step::Stop => break,
            Step::Fire(p) => {
                let keep = work(reg, ml, p, *now);
                ml.finish(p, keep);
            }
            Step::Wait(t) => *now = t,
            Step::Idle => panic!("nothing pending and nothing to wake the loop"),
        }
    }
    reg.leave();
}

#[test]
fn borrowed() {
    let mut x;
    {
        let mut ml = MainLoop::new();
        let mut reg = Registry::new();
        let mut now: u64 = 0;
        x = false;
        let id = ml.call_asap(now).unwrap();
        drive(&mut ml, &mut reg, &mut now, |reg, ml, p, _| {
            assert_eq!(p.id, id.id);
            x = true;
            terminate(reg, ml);
            false
        });
    }
    assert_eq!(x, true);
}

#[test]
fn asap_static() {
    let x = Rc::new(Cell::new(0));
    let xcl = x.clone();
    let mut ml = MainLoop::new();
    let mut reg = Registry::new();
    let mut now: u64 = 0;
    let outer = ml.call_asap(now).unwrap();
    let inner = Cell::new(None);
    drive(&mut ml, &mut reg, &mut now, |reg, ml, p, t| {
        if p.id == outer.id {
            assert_eq!(x.get(), 0);
            x.set(1);
            inner.set(Some(call_internal(reg, ml, CbKind::Asap, t).unwrap()));
        } else {
            assert_eq!(Some(p.id), inner.get().map(|i| i.id));
            assert_eq!(xcl.get(), 1);
            xcl.set(2);
            terminate(reg, ml);
        }
        false
    });
    assert_eq!(x.get(), 2);
}

#[test]
fn after() {
    let x = Cell::new(false);
    let mut ml = MainLoop::new();
    let mut reg = Registry::new();
    let n: u64 = 1000;
    let mut now = n;
    ml.call_after(300, now).unwrap();
    drive(&mut ml, &mut reg, &mut now, |reg, ml, _, _| {
        x.set(true);
        terminate(reg, ml);
        false
    });
    assert_eq!(x.get(), true);
    assert!(now - n >= 300);
}

#[test]
fn interval() {
    let mut x = 0;
    let mut y = 0;
    let n: u64 = 0;
    let mut now = n;
    {
        let mut ml = MainLoop::new();
        let mut reg = Registry::new();
        let slow = ml.call_interval(150, now).unwrap();
        ml.call_interval(100, now).unwrap();
        drive(&mut ml, &mut reg, &mut now, |reg, ml, p, _| {
            if p.id == slow.id {
                y += 1;
                false
            } else {
                x += 1;
                if x >= 4 {
                    terminate(reg, ml);
                }
                true
            }
        });
    }
    assert_eq!(y, 1);
    assert_eq!(x, 4);
    assert!(now - n >= 400);
}

#[test]
fn nested_run_is_rejected_and_registry_restored() {
    let mut reg = Registry::new();
    let outer = MainLoop::new();
    let second = MainLoop::new();
    assert_eq!(outer.with_current_loop(&mut reg), Ok(true));
    assert_eq!(second.with_current_loop(&mut reg), Err(MainLoopError::ReentrantRun));
    reg.leave();
    assert!(!reg.active());
    let mut fresh = MainLoop::new();
    let mut now: u64 = 0;
    let ran = Cell::new(false);
    fresh.call_asap(now).unwrap();
    drive(&mut fresh, &mut reg, &mut now, |reg, ml, _, _| {
        ran.set(true);
        terminate(reg, ml);
        false
    });
    assert!(ran.get());
    assert!(!reg.active());
}

#[test]
fn quit_before_run_runs_nothing() {
    let mut ml = MainLoop::new();
    let mut reg = Registry::new();
    ml.call_asap(0).unwrap();
    ml.quit();
    ml.quit();
    assert!(ml.terminated());
    assert_eq!(ml.with_current_loop(&mut reg), Ok(false));
    assert!(!reg.active());
    assert_eq!(ml.run(5), Step::Stop);
    assert_eq!(ml.run_one(5), None);
}

#[test]
fn quit_during_iteration_stops_further_work() {
    let mut ml = MainLoop::new();
    let mut reg = Registry::new();
    let mut now: u64 = 0;
    ml.call_asap(now).unwrap();
    ml.call_asap(now).unwrap();
    let mut runs = 0;
    drive(&mut ml, &mut reg, &mut now, |reg, ml, _, _| {
        runs += 1;
        terminate(reg, ml);
        terminate(reg, ml);
        false
    });
    assert_eq!(runs, 1);
}

#[test]
fn ambient_terminate_without_loop_is_noop() {
    let reg = Registry::new();
    let mut ml = MainLoop::new();
    terminate(&reg, &mut ml);
    assert!(!ml.terminated());
    assert_eq!(ml.run(0), Step::Idle);
}

#[test]
fn ambient_submit_without_loop_fails() {
    let reg = Registry::new();
    let mut ml = MainLoop::new();
    assert_eq!(call_internal(&reg, &mut ml, CbKind::Asap, 0), Err(MainLoopError::NoMainLoop));
    assert_eq!(ml.run(0), Step::Idle);
}

#[test]
fn registration_that_overflows_is_rejected() {
    let mut ml = MainLoop::new();
    assert_eq!(ml.call_after(u64::MAX, 1), Err(MainLoopError::BackendRejected));
    assert_eq!(ml.call_after(u64::MAX - 1, 1).map(|i| i.id), Ok(0));
    assert_eq!(ml.run(0), Step::Wait(u64::MAX));
}

#[test]
fn identifiers_are_fresh() {
    let mut ml = MainLoop::new();
    assert_eq!(ml.call_asap(0).unwrap().id, 0);
    assert_eq!(ml.call_after(5, 0).unwrap().id, 1);
    assert_eq!(ml.call_interval(5, 0).unwrap().id, 2);
}

#[test]
fn run_one_does_not_wait() {
    let mut ml = MainLoop::new();
    ml.call_after(50, 10).unwrap();
    assert_eq!(ml.run_one(59), None);
    let p = ml.run_one(60).unwrap();
    assert_eq!(p.due, 60);
    assert_eq!(p.origin, 10);
    assert_eq!(ml.run_one(60), None);
}

#[test]
fn earliest_due_runs_first_ties_in_order() {
    let mut ml = MainLoop::new();
    let late = ml.call_after(30, 0).unwrap();
    let a = ml.call_after(10, 0).unwrap();
    let b = ml.call_after(10, 0).unwrap();
    assert_eq!(ml.run(5), Step::Wait(10));
    match ml.run(40) {
        Step::Fire(p) => assert_eq!(p.id, a.id),
        s => panic!("{:?}", s),
    }
    match ml.run(40) {
        Step::Fire(p) => assert_eq!(p.id, b.id),
        s => panic!("{:?}", s),
    }
    match ml.run(40) {
        Step::Fire(p) => assert_eq!(p.id, late.id),
        s => panic!("{:?}", s),
    }
    assert_eq!(ml.run(40), Step::Idle);
}

#[test]
fn interval_rearms_from_scheduled_time() {
    let mut ml = MainLoop::new();
    ml.call_interval(100, 0).unwrap();
    let p = ml.run_one(250).unwrap();
    assert_eq!(p.due, 100);
    ml.finish(p, true);
    assert_eq!(ml.run(250), Step::Fire(Pending { id: 0, origin: 0, step: 100, fired: 1, due: 200, repeats: true }));
}

#[test]
fn interval_that_returns_false_is_dropped() {
    let mut ml = MainLoop::new();
    ml.call_interval(100, 0).unwrap();
    let p = ml.run_one(100).unwrap();
    ml.finish(p, false);
    assert_eq!(ml.run(1000), Step::Idle);
}

#[test]
fn one_shot_is_not_rearmed() {
    let mut ml = MainLoop::new();
    ml.call_after(10, 0).unwrap();
    let p = ml.run_one(10).unwrap();
    assert!(!p.repeats);
    ml.finish(p, true);
    assert_eq!(ml.run(1000), Step::Idle);
}
