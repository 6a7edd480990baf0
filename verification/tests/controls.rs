use physics_simulation::controls::{holds_key, just_pressed_keys, Action, Controls, Direction, Event, Key, Response};

fn run(c: &mut Controls, keys: &[Key], spheres: usize) -> Vec<Action> {
    c.frame(keys.to_vec(), spheres)
}

#[test]
fn starts_paused_with_hard_shadows_and_locked_mouse() {
    let c = Controls::new();
    assert!(c.paused);
    assert!(c.hard_shadows);
    assert!(c.mouse_locked);
    assert!(c.window_focused);
    assert!(c.frame_limited);
    assert_eq!(c.frames, 0);
    assert!(c.last_frame_keys.is_empty());
}

#[test]
fn idle_paused_frame_only_schedules_and_locks() {
    let mut c = Controls::new();
    let a = run(&mut c, &[], 4);
    assert_eq!(a, vec![Action::ScheduleNextFrame { limited: true }, Action::LockCursor]);
    assert_eq!(c.frames, 1);
}

#[test]
fn pressing_p_unpauses_and_steps_forward() {
    let mut c = Controls::new();
    let a = run(&mut c, &[Key::P], 4);
    assert!(!c.paused);
    assert_eq!(
        a,
        vec![Action::ScheduleNextFrame { limited: true }, Action::LockCursor, Action::StepForward]
    );
}

#[test]
fn held_key_acts_once() {
    let mut c = Controls::new();
    run(&mut c, &[Key::P, Key::H], 4);
    assert!(!c.paused);
    assert!(!c.hard_shadows);
    let a = run(&mut c, &[Key::P, Key::H], 4);
    assert!(!c.paused);
    assert!(!c.hard_shadows);
    assert_eq!(a.last(), Some(&Action::StepForward));
}

#[test]
fn pressing_twice_restores_toggles() {
    let mut c = Controls::new();
    run(&mut c, &[Key::Escape], 4);
    assert!(!c.mouse_locked);
    run(&mut c, &[], 4);
    run(&mut c, &[Key::Escape], 4);
    assert!(c.mouse_locked);
    assert_eq!(c.frames, 3);
}

#[test]
fn c_toggles_the_frame_limit_after_scheduling() {
    let mut c = Controls::new();
    let a = run(&mut c, &[Key::C], 4);
    assert_eq!(a[0], Action::ScheduleNextFrame { limited: true });
    assert!(!c.frame_limited);
    let b = run(&mut c, &[], 4);
    assert_eq!(b[0], Action::ScheduleNextFrame { limited: false });
}

#[test]
fn spawns_every_tenth_running_frame_below_the_limit() {
    let mut c = Controls::new();
    run(&mut c, &[Key::P], 4);
    for _ in 0..8 {
        let a = run(&mut c, &[], 4);
        assert!(!a.contains(&Action::SpawnSphere));
    }
    let a = run(&mut c, &[], 4);
    assert_eq!(c.frames, 10);
    assert_eq!(a[2], Action::SpawnSphere);
    for _ in 0..9 {
        run(&mut c, &[], 100);
    }
    let a = run(&mut c, &[], 100);
    assert_eq!(c.frames, 20);
    assert!(!a.contains(&Action::SpawnSphere));
}

#[test]
fn no_spawn_while_paused() {
    let mut c = Controls::new();
    for _ in 0..10 {
        let a = run(&mut c, &[], 4);
        assert!(!a.contains(&Action::SpawnSphere));
    }
}

#[test]
fn movement_follows_held_keys_in_order() {
    let mut c = Controls::new();
    let a = run(&mut c, &[Key::S, Key::A, Key::Space], 4);
    assert_eq!(
        a,
        vec![
            Action::ScheduleNextFrame { limited: true },
            Action::LockCursor,
            Action::Move(Direction::Left),
            Action::Move(Direction::Up),
            Action::Move(Direction::Back),
        ]
    );
    let b = run(&mut c, &[Key::S, Key::A, Key::Space], 4);
    assert_eq!(b.len(), 5);
}

#[test]
fn unlocked_mouse_neither_moves_nor_resets() {
    let mut c = Controls::new();
    run(&mut c, &[Key::Escape], 4);
    let a = run(&mut c, &[Key::W, Key::X], 4);
    assert_eq!(a, vec![Action::ScheduleNextFrame { limited: true }, Action::ReleaseCursor]);
}

#[test]
fn x_resets_once_while_locked() {
    let mut c = Controls::new();
    let a = run(&mut c, &[Key::X], 4);
    assert!(a.contains(&Action::ResetWorld));
    let b = run(&mut c, &[Key::X], 4);
    assert!(!b.contains(&Action::ResetWorld));
}

#[test]
fn arrows_step_only_while_paused() {
    let mut c = Controls::new();
    let a = run(&mut c, &[Key::Left, Key::Right], 4);
    assert_eq!(
        a,
        vec![
            Action::ScheduleNextFrame { limited: true },
            Action::LockCursor,
            Action::StepBackward,
            Action::StepForward,
        ]
    );
    run(&mut c, &[Key::P], 4);
    let b = run(&mut c, &[Key::Left], 4);
    assert!(!b.contains(&Action::StepBackward));
    assert_eq!(b.iter().filter(|x| **x == Action::StepForward).count(), 1);
}

#[test]
fn right_and_unpause_in_one_frame_step_twice() {
    let mut c = Controls::new();
    let a = run(&mut c, &[Key::Right, Key::P], 4);
    assert_eq!(a.iter().filter(|x| **x == Action::StepForward).count(), 2);
}

#[test]
fn prints_and_reload() {
    let mut c = Controls::new();
    let a = run(&mut c, &[Key::F, Key::LControl, Key::R], 4);
    assert_eq!(
        a,
        vec![
            Action::ScheduleNextFrame { limited: true },
            Action::LockCursor,
            Action::PrintFirstSphere,
            Action::PrintFps,
            Action::ReloadShaders,
        ]
    );
    let b = run(&mut c, &[Key::F, Key::LControl, Key::R], 4);
    assert!(!b.contains(&Action::ReloadShaders));
    assert!(b.contains(&Action::PrintFps));
}

#[test]
fn unfocused_window_ignores_keys() {
    let mut c = Controls::new();
    assert_eq!(c.on_event(Event::Focused(false)), Response::RunFrame);
    assert!(!c.window_focused);
    let a = run(&mut c, &[Key::P, Key::W], 4);
    assert!(c.paused);
    assert!(c.last_frame_keys.is_empty());
    assert_eq!(a, vec![Action::ScheduleNextFrame { limited: true }, Action::ReleaseCursor]);
    c.on_event(Event::Focused(true));
    let b = run(&mut c, &[Key::P], 4);
    assert!(!c.paused);
    assert_eq!(b[1], Action::LockCursor);
}

#[test]
fn events_decide_what_runs() {
    let mut c = Controls::new();
    assert_eq!(c.on_event(Event::CloseRequested), Response::Exit);
    assert_eq!(c.on_event(Event::ResumeTimeReached), Response::RunFrame);
    assert_eq!(c.on_event(Event::Init), Response::RunFrame);
    assert_eq!(c.on_event(Event::OtherStartCause), Response::Skip);
    assert_eq!(c.on_event(Event::OtherWindowEvent), Response::Skip);
    assert_eq!(c.on_event(Event::Other), Response::Skip);
    assert!(c.window_focused);
}

#[test]
fn just_pressed_keeps_order_and_drops_held() {
    let keys = vec![Key::W, Key::P, Key::A, Key::C];
    let last = vec![Key::A, Key::W];
    assert_eq!(just_pressed_keys(&keys, &last), vec![Key::P, Key::C]);
    assert!(holds_key(&keys, Key::C));
    assert!(!holds_key(&last, Key::C));
}
