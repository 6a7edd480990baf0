use vstd::prelude::*;

verus! {

/// The keys that steer the simulation; every other key is `Other`.
#[derive(Clone, Copy, Debug, PartialEq, Eq, Structural)]
pub enum Key {
    A,
    C,
    D,
    F,
    H,
    P,
    R,
    S,
    W,
    X,
    Space,
    LShift,
    LControl,
    Left,
    Right,
    Escape,
    Other,
}

/// A direction in which the camera moves while its key is held.
#[derive(Clone, Copy, Debug, PartialEq, Eq, Structural)]
pub enum Direction {
    Left,
    Right,
    Up,
    Down,
    Forward,
    Back,
}

/// What the window loop does in a frame, in the order the frame does it.
#[derive(Clone, Copy, Debug, PartialEq, Eq, Structural)]
pub enum Action {
    /// Wait for the next frame: with the frame-rate limit of about 60 frames a
    /// second, or without waiting.
    ScheduleNextFrame { limited: bool },
    /// Turn the camera by the mouse movement, hide the cursor and grab it.
    LockCursor,
    /// Show the cursor and let it go.
    ReleaseCursor,
    /// Add a sphere at a random place near the top of the scene.
    SpawnSphere,
    /// Put back the spheres the simulation started with.
    ResetWorld,
    /// Move the camera.
    Move(Direction),
    /// Print the first sphere.
    PrintFirstSphere,
    /// Print the frame rate.
    PrintFps,
    /// Advance the world by minus the frame time.
    StepBackward,
    /// Advance the world by the frame time.
    StepForward,
    /// Compile the shaders again from their files.
    ReloadShaders,
}

/// The events of the window that the loop tells apart.
#[derive(Clone, Copy, Debug, PartialEq, Eq, Structural)]
pub enum Event {
    CloseRequested,
    Focused(bool),
    OtherWindowEvent,
    ResumeTimeReached,
    Init,
    OtherStartCause,
    Other,
}

/// What the loop does with an event.
#[derive(Clone, Copy, Debug, PartialEq, Eq, Structural)]
pub enum Response {
    /// Print the statistics and close.
    Exit,
    /// Do nothing more for this event.
    Skip,
    /// Run a frame.
    RunFrame,
}

/// No sphere is spawned once the world holds this many.
pub const SPAWN_LIMIT: usize = 100;

/// A sphere is spawned every this many frames while the simulation runs.
pub const SPAWN_PERIOD: u64 = 10;

/// The state the window loop keeps between frames.
pub struct Controls {
    pub paused: bool,
    pub hard_shadows: bool,
    pub mouse_locked: bool,
    pub window_focused: bool,
    /// Whether frames wait for the frame-rate limit.
    pub frame_limited: bool,
    /// The number of frames run so far.
    pub frames: u64,
    /// The keys held in the last frame.
    pub last_frame_keys: Vec<Key>,
}

/// The mathematical value of `Controls`.
pub struct ControlsModel {
    pub paused: bool,
    pub hard_shadows: bool,
    pub mouse_locked: bool,
    pub window_focused: bool,
    pub frame_limited: bool,
    pub frames: nat,
    pub last_frame_keys: Seq<Key>,
}

impl View for Controls {
    type V = ControlsModel;

    open spec fn view(&self) -> ControlsModel {
        ControlsModel {
            paused: self.paused,
            hard_shadows: self.hard_shadows,
            mouse_locked: self.mouse_locked,
            window_focused: self.window_focused,
            frame_limited: self.frame_limited,
            frames: self.frames as nat,
            last_frame_keys: self.last_frame_keys@,
        }
    }
}

/// `k` is held now and was not held in the last frame.
pub open spec fn newly_pressed(keys: Seq<Key>, last: Seq<Key>, k: Key) -> bool {
    keys.contains(k) && !last.contains(k)
}

/// The keys of `keys`, in their order, that are not in `last`.
pub open spec fn just_pressed(keys: Seq<Key>, last: Seq<Key>) -> Seq<Key> {
    keys.filter(|k: Key| !last.contains(k))
}

/// The keys a frame reads: those held, while the window has the focus.
pub open spec fn frame_keys(m: ControlsModel, pressed: Seq<Key>) -> Seq<Key> {
    if m.window_focused {
        pressed
    } else {
        Seq::empty()
    }
}

/// `s` with `a` appended when `cond` holds.
#[verifier::opaque]
pub open spec fn push_if(s: Seq<Action>, cond: bool, a: Action) -> Seq<Action> {
    if cond {
        s.push(a)
    } else {
        s
    }
}

/// Whether a frame spawns a sphere: every tenth frame while running, below the limit.
pub open spec fn spawns(m: ControlsModel, sphere_count: int) -> bool {
    &&& sphere_count < SPAWN_LIMIT
    &&& (m.frames + 1) % (SPAWN_PERIOD as nat) == 0
    &&& !m.paused
}

/// The state after a frame in which `pressed` are the keys held.
pub open spec fn step(m: ControlsModel, pressed: Seq<Key>) -> ControlsModel {
    let keys = frame_keys(m, pressed);
    let last = m.last_frame_keys;
    ControlsModel {
        paused: m.paused != newly_pressed(keys, last, Key::P),
        hard_shadows: m.hard_shadows != newly_pressed(keys, last, Key::H),
        mouse_locked: m.mouse_locked != newly_pressed(keys, last, Key::Escape),
        window_focused: m.window_focused,
        frame_limited: m.frame_limited != newly_pressed(keys, last, Key::C),
        frames: m.frames + 1,
        last_frame_keys: keys,
    }
}

/// The actions of a frame, in order, before its last decision: whether the
/// running simulation advances.
pub open spec fn frame_actions_before_step(
    m: ControlsModel,
    pressed: Seq<Key>,
    sphere_count: int,
) -> Seq<Action> {
    let keys = frame_keys(m, pressed);
    let last = m.last_frame_keys;
    let locked = m.mouse_locked;
    let a0 = seq![
        Action::ScheduleNextFrame { limited: m.frame_limited },
        if locked && m.window_focused {
            Action::LockCursor
        } else {
            Action::ReleaseCursor
        },
    ];
    let a1 = push_if(a0, spawns(m, sphere_count), Action::SpawnSphere);
    let a2 = push_if(a1, locked && newly_pressed(keys, last, Key::X), Action::ResetWorld);
    let a3 = push_if(a2, locked && keys.contains(Key::A), Action::Move(Direction::Left));
    let a4 = push_if(a3, locked && keys.contains(Key::D), Action::Move(Direction::Right));
    let a5 = push_if(a4, locked && keys.contains(Key::Space), Action::Move(Direction::Up));
    let a6 = push_if(a5, locked && keys.contains(Key::LShift), Action::Move(Direction::Down));
    let a7 = push_if(a6, locked && keys.contains(Key::W), Action::Move(Direction::Forward));
    let a8 = push_if(a7, locked && keys.contains(Key::S), Action::Move(Direction::Back));
    let a9 = push_if(a8, keys.contains(Key::LControl), Action::PrintFirstSphere);
    let a10 = push_if(a9, keys.contains(Key::F), Action::PrintFps);
    let a11 = push_if(a10, keys.contains(Key::Left) && m.paused, Action::StepBackward);
    let a12 = push_if(a11, keys.contains(Key::Right) && m.paused, Action::StepForward);
    push_if(a12, newly_pressed(keys, last, Key::R), Action::ReloadShaders)
}

/// The actions of a frame in which `pressed` are the keys held and the world
/// holds `sphere_count` spheres, in order.
pub open spec fn frame_actions(m: ControlsModel, pressed: Seq<Key>, sphere_count: int) -> Seq<
    Action,
> {
    push_if(
        frame_actions_before_step(m, pressed, sphere_count),
        !step(m, pressed).paused,
        Action::StepForward,
    )
}

/// What `push_if` holds: what was there, and `a` when `cond` holds.
pub proof fn lemma_push_if_contains(s: Seq<Action>, cond: bool, a: Action, x: Action)
    ensures
        push_if(s, cond, a).contains(x) <==> (s.contains(x) || (cond && a == x)),
{
    reveal(push_if);
    if cond {
        let t = s.push(a);
        if t.contains(x) {
            let i = choose|i: int| 0 <= i < t.len() && t[i] == x;
            if i < s.len() {
                assert(s[i] == x);
            }
        }
        if s.contains(x) {
            let i = choose|i: int| 0 <= i < s.len() && s[i] == x;
            assert(t[i] == x);
        }
        if a == x {
            assert(t[s.len() as int] == x);
        }
    }
}

/// An action occurs in a frame, before its last decision, exactly when the
/// condition under which the frame takes it holds.
#[verifier::rlimit(60)]
pub proof fn lemma_frame_action_occurs(
    m: ControlsModel,
    pressed: Seq<Key>,
    sphere_count: int,
    x: Action,
)
    ensures
        frame_actions_before_step(m, pressed, sphere_count).contains(x) <==> ({
            let keys = frame_keys(m, pressed);
            let last = m.last_frame_keys;
            let locked = m.mouse_locked;
            ||| x == Action::ScheduleNextFrame { limited: m.frame_limited }
            ||| x == (if locked && m.window_focused {
                Action::LockCursor
            } else {
                Action::ReleaseCursor
            })
            ||| spawns(m, sphere_count) && x == Action::SpawnSphere
            ||| locked && newly_pressed(keys, last, Key::X) && x == Action::ResetWorld
            ||| locked && keys.contains(Key::A) && x == Action::Move(Direction::Left)
            ||| locked && keys.contains(Key::D) && x == Action::Move(Direction::Right)
            ||| locked && keys.contains(Key::Space) && x == Action::Move(Direction::Up)
            ||| locked && keys.contains(Key::LShift) && x == Action::Move(Direction::Down)
            ||| locked && keys.contains(Key::W) && x == Action::Move(Direction::Forward)
            ||| locked && keys.contains(Key::S) && x == Action::Move(Direction::Back)
            ||| keys.contains(Key::LControl) && x == Action::PrintFirstSphere
            ||| keys.contains(Key::F) && x == Action::PrintFps
            ||| keys.contains(Key::Left) && m.paused && x == Action::StepBackward
            ||| keys.contains(Key::Right) && m.paused && x == Action::StepForward
            ||| newly_pressed(keys, last, Key::R) && x == Action::ReloadShaders
        }),
{
    let keys = frame_keys(m, pressed);
    let last = m.last_frame_keys;
    let locked = m.mouse_locked;
    let c0 = Action::ScheduleNextFrame { limited: m.frame_limited };
    let c1 = if locked && m.window_focused {
        Action::LockCursor
    } else {
        Action::ReleaseCursor
    };
    let a0 = seq![c0, c1];
    assert(a0.contains(x) <==> (x == c0 || x == c1)) by {
        if a0.contains(x) {
            let i = choose|i: int| 0 <= i < a0.len() && a0[i] == x;
        }
        if x == c0 {
            assert(a0[0] == x);
        }
        if x == c1 {
            assert(a0[1] == x);
        }
    }
    let a1 = push_if(a0, spawns(m, sphere_count), Action::SpawnSphere);
    lemma_push_if_contains(a0, spawns(m, sphere_count), Action::SpawnSphere, x);
    let a2 = push_if(a1, locked && newly_pressed(keys, last, Key::X), Action::ResetWorld);
    lemma_push_if_contains(a1, locked && newly_pressed(keys, last, Key::X), Action::ResetWorld, x);
    let a3 = push_if(a2, locked && keys.contains(Key::A), Action::Move(Direction::Left));
    lemma_push_if_contains(a2, locked && keys.contains(Key::A), Action::Move(Direction::Left), x);
    let a4 = push_if(a3, locked && keys.contains(Key::D), Action::Move(Direction::Right));
    lemma_push_if_contains(a3, locked && keys.contains(Key::D), Action::Move(Direction::Right), x);
    let a5 = push_if(a4, locked && keys.contains(Key::Space), Action::Move(Direction::Up));
    lemma_push_if_contains(a4, locked && keys.contains(Key::Space), Action::Move(Direction::Up), x);
    let a6 = push_if(a5, locked && keys.contains(Key::LShift), Action::Move(Direction::Down));
    lemma_push_if_contains(
        a5,
        locked && keys.contains(Key::LShift),
        Action::Move(Direction::Down),
        x,
    );
    let a7 = push_if(a6, locked && keys.contains(Key::W), Action::Move(Direction::Forward));
    lemma_push_if_contains(
        a6,
        locked && keys.contains(Key::W),
        Action::Move(Direction::Forward),
        x,
    );
    let a8 = push_if(a7, locked && keys.contains(Key::S), Action::Move(Direction::Back));
    lemma_push_if_contains(a7, locked && keys.contains(Key::S), Action::Move(Direction::Back), x);
    let a9 = push_if(a8, keys.contains(Key::LControl), Action::PrintFirstSphere);
    lemma_push_if_contains(a8, keys.contains(Key::LControl), Action::PrintFirstSphere, x);
    let a10 = push_if(a9, keys.contains(Key::F), Action::PrintFps);
    lemma_push_if_contains(a9, keys.contains(Key::F), Action::PrintFps, x);
    let a11 = push_if(a10, keys.contains(Key::Left) && m.paused, Action::StepBackward);
    lemma_push_if_contains(a10, keys.contains(Key::Left) && m.paused, Action::StepBackward, x);
    let a12 = push_if(a11, keys.contains(Key::Right) && m.paused, Action::StepForward);
    lemma_push_if_contains(a11, keys.contains(Key::Right) && m.paused, Action::StepForward, x);
    lemma_push_if_contains(a12, newly_pressed(keys, last, Key::R), Action::ReloadShaders, x);
}

/// The response of the loop to an event.
pub open spec fn event_response(e: Event) -> Response {
    match e {
        Event::CloseRequested => Response::Exit,
        Event::Focused(_) => Response::RunFrame,
        Event::ResumeTimeReached => Response::RunFrame,
        Event::Init => Response::RunFrame,
        _ => Response::Skip,
    }
}

/// Whether `k` is among `keys`.
pub fn holds_key(keys: &Vec<Key>, k: Key) -> (b: bool)
    ensures
        b == keys@.contains(k),
{
    let mut i: usize = 0;
    while i < keys.len()
        invariant
            i <= keys.len(),
            forall|j: int| 0 <= j < i ==> keys@[j] != k,
        decreases keys.len() - i,
    {
        if keys[i] == k {
            assert(keys@[i as int] == k);
            return true;
        }
        i = i + 1;
    }
    false
}

/// The keys of `keys`, in their order, that are not in `last`.
pub fn just_pressed_keys(keys: &Vec<Key>, last: &Vec<Key>) -> (res: Vec<Key>)
    ensures
        res@ == just_pressed(keys@, last@),
{
    let ghost pred = |k: Key| !last@.contains(k);
    let mut res: Vec<Key> = Vec::new();
    let mut i: usize = 0;
    while i < keys.len()
        invariant
            i <= keys.len(),
            pred == (|k: Key| !last@.contains(k)),
            res@ == keys@.take(i as int).filter(pred),
        decreases keys.len() - i,
    {
        let k = keys[i];
        proof {
            assert(keys@.take(i + 1) == keys@.take(i as int).push(k));
            keys@.take(i as int).lemma_filter_push(k, pred);
        }
        if !holds_key(last, k) {
            res.push(k);
        }
        i = i + 1;
    }
    assert(keys@.take(keys.len() as int) == keys@);
    res
}

/// Appends `a` to `actions` when `cond` holds.
fn push_action_if(actions: &mut Vec<Action>, cond: bool, a: Action)
    ensures
        final(actions)@ == push_if(old(actions)@, cond, a),
{
    reveal(push_if);
    if cond {
        actions.push(a);
    }
}

impl Controls {
    /// The state when the window opens: paused, with hard shadows, the mouse
    /// locked, the window focused, the frame rate limited, no frame run and no
    /// key held.
    pub fn new() -> (c: Controls)
        ensures
            c@ == (ControlsModel {
                paused: true,
                hard_shadows: true,
                mouse_locked: true,
                window_focused: true,
                frame_limited: true,
                frames: 0,
                last_frame_keys: Seq::empty(),
            }),
    {
        Controls {
            paused: true,
            hard_shadows: true,
            mouse_locked: true,
            window_focused: true,
            frame_limited: true,
            frames: 0,
            last_frame_keys: Vec::new(),
        }
    }

    /// Takes an event: a change of focus is kept, and the response says
    /// whether to close, to skip the event or to run a frame. A change of
    /// focus, a timer that ran out and the start of the loop each run a frame.
    pub fn on_event(&mut self, e: Event) -> (r: Response)
        ensures
            r == event_response(e),
            final(self)@ == (match e {
                Event::Focused(focused) => ControlsModel { window_focused: focused, ..old(self)@ },
                _ => old(self)@,
            }),
    {
        if let Event::Focused(focused) = e {
            self.window_focused = focused;
        }
        match e {
            Event::CloseRequested => Response::Exit,
            Event::Focused(_) => Response::RunFrame,
            Event::ResumeTimeReached => Response::RunFrame,
            Event::Init => Response::RunFrame,
            _ => Response::Skip,
        }
    }

    /// Runs the decisions of a frame in which `pressed` are the keys held and
    /// the world holds `sphere_count` spheres: returns what the frame does, in
    /// order, and keeps the toggles, the frame count and the keys held.
    pub fn frame(&mut self, pressed: Vec<Key>, sphere_count: usize) -> (actions: Vec<Action>)
        requires
            old(self).frames < u64::MAX,
        ensures
            final(self)@ == step(old(self)@, pressed@),
            actions@ == frame_actions(old(self)@, pressed@, sphere_count as int),
    {
        let ghost m = self@;
        let focused = self.window_focused;
        let locked = self.mouse_locked;
        let paused = self.paused;
        self.frames = self.frames + 1;
        let mut actions: Vec<Action> = Vec::new();
        actions.push(Action::ScheduleNextFrame { limited: self.frame_limited });
        if locked && focused {
            actions.push(Action::LockCursor);
        } else {
            actions.push(Action::ReleaseCursor);
        }
        assert(actions@ =~= seq![
            Action::ScheduleNextFrame { limited: m.frame_limited },
            if locked && m.window_focused {
                Action::LockCursor
            } else {
                Action::ReleaseCursor
            },
        ]);
        let keys: Vec<Key> = if focused {
            pressed
        } else {
            Vec::new()
        };
        assert(keys@ == frame_keys(m, pressed@));
        let fresh = just_pressed_keys(&keys, &self.last_frame_keys);
        proof {
            let pred = |k: Key| !m.last_frame_keys.contains(k);
            assert forall|k: Key| #[trigger]
                fresh@.contains(k) == newly_pressed(keys@, m.last_frame_keys, k) by {
                if fresh@.contains(k) {
                    let i = choose|i: int| 0 <= i < fresh@.len() && fresh@[i] == k;
                    keys@.lemma_filter_pred(pred, i);
                    keys@.lemma_filter_contains_rev(pred, k);
                }
                if newly_pressed(keys@, m.last_frame_keys, k) {
                    let j = choose|j: int| 0 <= j < keys@.len() && keys@[j] == k;
                    keys@.lemma_filter_contains(pred, j);
                }
            }
        }
        let spawn = sphere_count < SPAWN_LIMIT && self.frames % SPAWN_PERIOD == 0 && !paused;
        push_action_if(&mut actions, spawn, Action::SpawnSphere);
        let toggle_limit = holds_key(&fresh, Key::C);
        if toggle_limit {
            self.frame_limited = !self.frame_limited;
        }
        push_action_if(&mut actions, locked && holds_key(&fresh, Key::X), Action::ResetWorld);
        push_action_if(
            &mut actions,
            locked && holds_key(&keys, Key::A),
            Action::Move(Direction::Left),
        );
        push_action_if(
            &mut actions,
            locked && holds_key(&keys, Key::D),
            Action::Move(Direction::Right),
        );
        push_action_if(
            &mut actions,
            locked && holds_key(&keys, Key::Space),
            Action::Move(Direction::Up),
        );
        push_action_if(
            &mut actions,
            locked && holds_key(&keys, Key::LShift),
            Action::Move(Direction::Down),
        );
        push_action_if(
            &mut actions,
            locked && holds_key(&keys, Key::W),
            Action::Move(Direction::Forward),
        );
        push_action_if(
            &mut actions,
            locked && holds_key(&keys, Key::S),
            Action::Move(Direction::Back),
        );
        push_action_if(&mut actions, holds_key(&keys, Key::LControl), Action::PrintFirstSphere);
        push_action_if(&mut actions, holds_key(&keys, Key::F), Action::PrintFps);
        push_action_if(&mut actions, holds_key(&keys, Key::Left) && paused, Action::StepBackward);
        push_action_if(&mut actions, holds_key(&keys, Key::Right) && paused, Action::StepForward);
        if holds_key(&fresh, Key::Escape) {
            self.mouse_locked = !self.mouse_locked;
        }
        if holds_key(&fresh, Key::P) {
            self.paused = !self.paused;
        }
        if holds_key(&fresh, Key::H) {
            self.hard_shadows = !self.hard_shadows;
        }
        push_action_if(&mut actions, holds_key(&fresh, Key::R), Action::ReloadShaders);
        self.last_frame_keys = keys;
        push_action_if(&mut actions, !self.paused, Action::StepForward);
        actions
    }
}

/// A key held down acts once: when the window keeps the focus and the same
/// keys stay held for a second frame, that frame toggles nothing, resets
/// nothing and reloads nothing.
pub proof fn lemma_held_keys_act_once(m: ControlsModel, pressed: Seq<Key>, sphere_count: int)
    requires
        m.window_focused,
    ensures
        ({
            let m1 = step(m, pressed);
            let m2 = step(m1, pressed);
            let actions = frame_actions(m1, pressed, sphere_count);
            &&& m2.paused == m1.paused
            &&& m2.hard_shadows == m1.hard_shadows
            &&& m2.mouse_locked == m1.mouse_locked
            &&& m2.frame_limited == m1.frame_limited
            &&& !actions.contains(Action::ResetWorld)
            &&& !actions.contains(Action::ReloadShaders)
        }),
{
    let m1 = step(m, pressed);
    let before = frame_actions_before_step(m1, pressed, sphere_count);
    let cond = !step(m1, pressed).paused;
    lemma_frame_action_occurs(m1, pressed, sphere_count, Action::ResetWorld);
    lemma_frame_action_occurs(m1, pressed, sphere_count, Action::ReloadShaders);
    lemma_push_if_contains(before, cond, Action::StepForward, Action::ResetWorld);
    lemma_push_if_contains(before, cond, Action::StepForward, Action::ReloadShaders);
}

/// Pressing a key, letting it go and pressing it again, with the focus on the
/// window, leaves every toggle (pause, hard shadows, mouse lock, frame-rate
/// limit) as it was.
pub proof fn lemma_press_twice_restores(m: ControlsModel, k: Key)
    requires
        m.window_focused,
        !m.last_frame_keys.contains(k),
    ensures
        ({
            let m3 = step(step(step(m, seq![k]), Seq::empty()), seq![k]);
            &&& m3.paused == m.paused
            &&& m3.hard_shadows == m.hard_shadows
            &&& m3.mouse_locked == m.mouse_locked
            &&& m3.frame_limited == m.frame_limited
            &&& m3.frames == m.frames + 3
            &&& m3.last_frame_keys == seq![k]
        }),
{
    let m1 = step(m, seq![k]);
    let m2 = step(m1, Seq::empty());
    assert(seq![k][0] == k);
    assert(!Seq::<Key>::empty().contains(k));
    assert forall|j: Key| j != k implies !#[trigger] seq![k].contains(j) by {
        if seq![k].contains(j) {
            assert(seq![k][0] == j);
        }
    }
}

/// A frame while the window has lost the focus reads no key: it toggles
/// nothing, forgets the keys of the last frame and acts as if no key were
/// held.
pub proof fn lemma_unfocused_frame_ignores_keys(
    m: ControlsModel,
    pressed: Seq<Key>,
    sphere_count: int,
)
    requires
        !m.window_focused,
    ensures
        ({
            let m1 = step(m, pressed);
            &&& m1.paused == m.paused
            &&& m1.hard_shadows == m.hard_shadows
            &&& m1.mouse_locked == m.mouse_locked
            &&& m1.frame_limited == m.frame_limited
            &&& m1.last_frame_keys == Seq::<Key>::empty()
            &&& frame_actions(m, pressed, sphere_count) == frame_actions(
                m,
                Seq::empty(),
                sphere_count,
            )
            &&& frame_actions(m, pressed, sphere_count)[1] == Action::ReleaseCursor
        }),
{
    reveal(push_if);
}

/// A sphere is spawned only while the simulation runs, on every tenth frame,
/// and only while the world holds fewer than the limit, so spawning never
/// takes the world past the limit.
pub proof fn lemma_spawn_stays_below_limit(m: ControlsModel, pressed: Seq<Key>, sphere_count: int)
    requires
        frame_actions(m, pressed, sphere_count).contains(Action::SpawnSphere),
    ensures
        !m.paused,
        (m.frames + 1) % (SPAWN_PERIOD as nat) == 0,
        sphere_count + 1 <= SPAWN_LIMIT,
{
    let before = frame_actions_before_step(m, pressed, sphere_count);
    lemma_frame_action_occurs(m, pressed, sphere_count, Action::SpawnSphere);
    lemma_push_if_contains(
        before,
        !step(m, pressed).paused,
        Action::StepForward,
        Action::SpawnSphere,
    );
}

/// While the simulation runs and is not paused in the frame, the world is
/// advanced exactly once, forward, as the last thing the frame does; a frame
/// that ends paused does not end by advancing the world.
pub proof fn lemma_running_world_steps_once(m: ControlsModel, pressed: Seq<Key>, sphere_count: int)
    ensures
        ({
            let actions = frame_actions(m, pressed, sphere_count);
            &&& !step(m, pressed).paused ==> actions.last() == Action::StepForward
            &&& (!m.paused && !step(m, pressed).paused) ==> forall|i: int|
                0 <= i < actions.len() - 1 ==> actions[i] != Action::StepForward && actions[i]
                    != Action::StepBackward
            &&& (step(m, pressed).paused && !frame_keys(m, pressed).contains(Key::Left)
                && !frame_keys(m, pressed).contains(Key::Right)) ==> !actions.contains(
                Action::StepForward,
            ) && !actions.contains(Action::StepBackward)
        }),
{
    reveal(push_if);
    let before = frame_actions_before_step(m, pressed, sphere_count);
    let cond = !step(m, pressed).paused;
    let actions = frame_actions(m, pressed, sphere_count);
    lemma_frame_action_occurs(m, pressed, sphere_count, Action::StepForward);
    lemma_frame_action_occurs(m, pressed, sphere_count, Action::StepBackward);
    lemma_push_if_contains(before, cond, Action::StepForward, Action::StepForward);
    lemma_push_if_contains(before, cond, Action::StepForward, Action::StepBackward);
    if !m.paused && cond {
        assert forall|i: int| 0 <= i < actions.len() - 1 implies actions[i] != Action::StepForward
            && actions[i] != Action::StepBackward by {
            assert(actions[i] == before[i]);
            if before[i] == Action::StepForward || before[i] == Action::StepBackward {
                assert(before.contains(before[i]));
            }
        }
    }
}

/// Whether an action is `x`.
pub open spec fn is_action(x: Action) -> spec_fn(Action) -> bool {
    |y: Action| y == x
}

/// How many times `x` occurs in `s`.
pub open spec fn occurrences(s: Seq<Action>, x: Action) -> nat {
    s.filter(is_action(x)).len()
}

/// 1 when `c` holds, else 0.
pub open spec fn one_if(c: bool) -> nat {
    if c {
        1
    } else {
        0
    }
}

/// Appending an action adds one occurrence of it and of nothing else.
proof fn lemma_push_occurrences(s: Seq<Action>, a: Action, x: Action)
    ensures
        occurrences(s.push(a), x) == occurrences(s, x) + one_if(a == x),
{
    s.lemma_filter_push(a, is_action(x));
}

/// `push_if` adds one occurrence of `a` when `cond` holds.
proof fn lemma_push_if_occurrences(s: Seq<Action>, cond: bool, a: Action, x: Action)
    ensures
        occurrences(push_if(s, cond, a), x) == occurrences(s, x) + one_if(cond && a == x),
{
    reveal(push_if);
    if cond {
        lemma_push_occurrences(s, a, x);
    }
}

/// `push_if` keeps what was there, in place.
proof fn lemma_push_if_keeps_prefix(s: Seq<Action>, cond: bool, a: Action)
    ensures
        push_if(s, cond, a).len() >= s.len(),
        forall|i: int| 0 <= i < s.len() ==> #[trigger] push_if(s, cond, a)[i] == s[i],
{
    reveal(push_if);
}

/// How many times each action occurs in a frame before its last decision.
#[verifier::rlimit(60)]
proof fn lemma_before_step_count(m: ControlsModel, pressed: Seq<Key>, sphere_count: int, x: Action)
    ensures
        ({
            let keys = frame_keys(m, pressed);
            let last = m.last_frame_keys;
            let locked = m.mouse_locked;
            occurrences(frame_actions_before_step(m, pressed, sphere_count), x) == one_if(
                x == Action::ScheduleNextFrame { limited: m.frame_limited },
            ) + one_if(locked && m.window_focused && x == Action::LockCursor) + one_if(
                !(locked && m.window_focused) && x == Action::ReleaseCursor,
            ) + one_if(spawns(m, sphere_count) && x == Action::SpawnSphere) + one_if(
                locked && newly_pressed(keys, last, Key::X) && x == Action::ResetWorld,
            ) + one_if(locked && keys.contains(Key::A) && x == Action::Move(Direction::Left))
                + one_if(locked && keys.contains(Key::D) && x == Action::Move(Direction::Right))
                + one_if(locked && keys.contains(Key::Space) && x == Action::Move(Direction::Up))
                + one_if(
                locked && keys.contains(Key::LShift) && x == Action::Move(Direction::Down),
            ) + one_if(locked && keys.contains(Key::W) && x == Action::Move(Direction::Forward))
                + one_if(locked && keys.contains(Key::S) && x == Action::Move(Direction::Back))
                + one_if(keys.contains(Key::LControl) && x == Action::PrintFirstSphere) + one_if(
                keys.contains(Key::F) && x == Action::PrintFps,
            ) + one_if(keys.contains(Key::Left) && m.paused && x == Action::StepBackward)
                + one_if(keys.contains(Key::Right) && m.paused && x == Action::StepForward)
                + one_if(newly_pressed(keys, last, Key::R) && x == Action::ReloadShaders)
        }),
{
    let keys = frame_keys(m, pressed);
    let last = m.last_frame_keys;
    let locked = m.mouse_locked;
    let c0 = Action::ScheduleNextFrame { limited: m.frame_limited };
    let c1 = if locked && m.window_focused {
        Action::LockCursor
    } else {
        Action::ReleaseCursor
    };
    let e = Seq::<Action>::empty();
    assert(e.filter(is_action(x)) =~= e) by {
        reveal(Seq::filter);
    }
    lemma_push_occurrences(e, c0, x);
    lemma_push_occurrences(e.push(c0), c1, x);
    let a0 = seq![c0, c1];
    assert(a0 =~= e.push(c0).push(c1));
    let a1 = push_if(a0, spawns(m, sphere_count), Action::SpawnSphere);
    lemma_push_if_occurrences(a0, spawns(m, sphere_count), Action::SpawnSphere, x);
    let a2 = push_if(a1, locked && newly_pressed(keys, last, Key::X), Action::ResetWorld);
    lemma_push_if_occurrences(
        a1,
        locked && newly_pressed(keys, last, Key::X),
        Action::ResetWorld,
        x,
    );
    let a3 = push_if(a2, locked && keys.contains(Key::A), Action::Move(Direction::Left));
    lemma_push_if_occurrences(
        a2,
        locked && keys.contains(Key::A),
        Action::Move(Direction::Left),
        x,
    );
    let a4 = push_if(a3, locked && keys.contains(Key::D), Action::Move(Direction::Right));
    lemma_push_if_occurrences(
        a3,
        locked && keys.contains(Key::D),
        Action::Move(Direction::Right),
        x,
    );
    let a5 = push_if(a4, locked && keys.contains(Key::Space), Action::Move(Direction::Up));
    lemma_push_if_occurrences(
        a4,
        locked && keys.contains(Key::Space),
        Action::Move(Direction::Up),
        x,
    );
    let a6 = push_if(a5, locked && keys.contains(Key::LShift), Action::Move(Direction::Down));
    lemma_push_if_occurrences(
        a5,
        locked && keys.contains(Key::LShift),
        Action::Move(Direction::Down),
        x,
    );
    let a7 = push_if(a6, locked && keys.contains(Key::W), Action::Move(Direction::Forward));
    lemma_push_if_occurrences(
        a6,
        locked && keys.contains(Key::W),
        Action::Move(Direction::Forward),
        x,
    );
    let a8 = push_if(a7, locked && keys.contains(Key::S), Action::Move(Direction::Back));
    lemma_push_if_occurrences(
        a7,
        locked && keys.contains(Key::S),
        Action::Move(Direction::Back),
        x,
    );
    let a9 = push_if(a8, keys.contains(Key::LControl), Action::PrintFirstSphere);
    lemma_push_if_occurrences(a8, keys.contains(Key::LControl), Action::PrintFirstSphere, x);
    let a10 = push_if(a9, keys.contains(Key::F), Action::PrintFps);
    lemma_push_if_occurrences(a9, keys.contains(Key::F), Action::PrintFps, x);
    let a11 = push_if(a10, keys.contains(Key::Left) && m.paused, Action::StepBackward);
    lemma_push_if_occurrences(a10, keys.contains(Key::Left) && m.paused, Action::StepBackward, x);
    let a12 = push_if(a11, keys.contains(Key::Right) && m.paused, Action::StepForward);
    lemma_push_if_occurrences(a11, keys.contains(Key::Right) && m.paused, Action::StepForward, x);
    lemma_push_if_occurrences(a12, newly_pressed(keys, last, Key::R), Action::ReloadShaders, x);
}


/// How many times each action occurs in a frame: once for each of the
/// frame's decisions that takes it, the decisions written out over the
/// state before the frame and the keys held.
pub proof fn lemma_frame_action_count(
    m: ControlsModel,
    pressed: Seq<Key>,
    sphere_count: int,
    x: Action,
)
    ensures
        ({
            let keys = if m.window_focused {
                pressed
            } else {
                Seq::<Key>::empty()
            };
            let last = m.last_frame_keys;
            let locked = m.mouse_locked;
            occurrences(frame_actions(m, pressed, sphere_count), x) == one_if(
                x == Action::ScheduleNextFrame { limited: m.frame_limited },
            ) + one_if(locked && m.window_focused && x == Action::LockCursor) + one_if(
                !(locked && m.window_focused) && x == Action::ReleaseCursor,
            ) + one_if(
                !m.paused && (m.frames + 1) % 10 == 0 && sphere_count < 100 && x
                    == Action::SpawnSphere,
            ) + one_if(
                locked && keys.contains(Key::X) && !last.contains(Key::X) && x
                    == Action::ResetWorld,
            ) + one_if(locked && keys.contains(Key::A) && x == Action::Move(Direction::Left))
                + one_if(locked && keys.contains(Key::D) && x == Action::Move(Direction::Right))
                + one_if(locked && keys.contains(Key::Space) && x == Action::Move(Direction::Up))
                + one_if(
                locked && keys.contains(Key::LShift) && x == Action::Move(Direction::Down),
            ) + one_if(locked && keys.contains(Key::W) && x == Action::Move(Direction::Forward))
                + one_if(locked && keys.contains(Key::S) && x == Action::Move(Direction::Back))
                + one_if(keys.contains(Key::LControl) && x == Action::PrintFirstSphere) + one_if(
                keys.contains(Key::F) && x == Action::PrintFps,
            ) + one_if(keys.contains(Key::Left) && m.paused && x == Action::StepBackward)
                + one_if(keys.contains(Key::Right) && m.paused && x == Action::StepForward)
                + one_if(
                keys.contains(Key::R) && !last.contains(Key::R) && x == Action::ReloadShaders,
            ) + one_if(
                (m.paused == (keys.contains(Key::P) && !last.contains(Key::P))) && x
                    == Action::StepForward,
            )
        }),
{
    lemma_before_step_count(m, pressed, sphere_count, x);
    lemma_push_if_occurrences(
        frame_actions_before_step(m, pressed, sphere_count),
        !step(m, pressed).paused,
        Action::StepForward,
        x,
    );
}

/// A frame spawns at most one sphere: exactly one when the world runs, the
/// new frame number is a multiple of ten and the world holds fewer than a
/// hundred spheres, none otherwise; so spawning never takes a world of at
/// most a hundred spheres past a hundred.
pub proof fn lemma_one_spawn_per_tenth_frame(m: ControlsModel, pressed: Seq<Key>, sphere_count: int)
    ensures
        occurrences(frame_actions(m, pressed, sphere_count), Action::SpawnSphere) == one_if(
            !m.paused && (m.frames + 1) % 10 == 0 && sphere_count < 100,
        ),
        sphere_count <= SPAWN_LIMIT ==> sphere_count + occurrences(
            frame_actions(m, pressed, sphere_count),
            Action::SpawnSphere,
        ) <= SPAWN_LIMIT,
{
    lemma_frame_action_count(m, pressed, sphere_count, Action::SpawnSphere);
}

/// Every action but stepping forward occurs at most once in a frame, and
/// stepping forward at most twice (once by the right arrow while paused, once
/// because the world runs at the end of the frame).
pub proof fn lemma_frame_actions_at_most_once(
    m: ControlsModel,
    pressed: Seq<Key>,
    sphere_count: int,
    x: Action,
)
    ensures
        x != Action::StepForward ==> occurrences(frame_actions(m, pressed, sphere_count), x) <= 1,
        occurrences(frame_actions(m, pressed, sphere_count), Action::StepForward) <= 2,
{
    lemma_frame_action_count(m, pressed, sphere_count, x);
    lemma_frame_action_count(m, pressed, sphere_count, Action::StepForward);
}

/// A frame starts by scheduling the next frame with the frame-rate limit it
/// had before the frame, then locks the cursor when the mouse is locked and
/// the window focused, and releases it otherwise.
#[verifier::rlimit(60)]
pub proof fn lemma_frame_starts(m: ControlsModel, pressed: Seq<Key>, sphere_count: int)
    ensures
        frame_actions(m, pressed, sphere_count).len() >= 2,
        frame_actions(m, pressed, sphere_count)[0] == (Action::ScheduleNextFrame {
            limited: m.frame_limited,
        }),
        (m.mouse_locked && m.window_focused) ==> frame_actions(m, pressed, sphere_count)[1]
            == Action::LockCursor,
        !(m.mouse_locked && m.window_focused) ==> frame_actions(m, pressed, sphere_count)[1]
            == Action::ReleaseCursor,
{
    let keys = frame_keys(m, pressed);
    let last = m.last_frame_keys;
    let locked = m.mouse_locked;
    let a0 = seq![
        Action::ScheduleNextFrame { limited: m.frame_limited },
        if locked && m.window_focused {
            Action::LockCursor
        } else {
            Action::ReleaseCursor
        },
    ];
    let a1 = push_if(a0, spawns(m, sphere_count), Action::SpawnSphere);
    lemma_push_if_keeps_prefix(a0, spawns(m, sphere_count), Action::SpawnSphere);
    let a2 = push_if(a1, locked && newly_pressed(keys, last, Key::X), Action::ResetWorld);
    lemma_push_if_keeps_prefix(a1, locked && newly_pressed(keys, last, Key::X), Action::ResetWorld);
    let a3 = push_if(a2, locked && keys.contains(Key::A), Action::Move(Direction::Left));
    lemma_push_if_keeps_prefix(a2, locked && keys.contains(Key::A), Action::Move(Direction::Left));
    let a4 = push_if(a3, locked && keys.contains(Key::D), Action::Move(Direction::Right));
    lemma_push_if_keeps_prefix(a3, locked && keys.contains(Key::D), Action::Move(Direction::Right));
    let a5 = push_if(a4, locked && keys.contains(Key::Space), Action::Move(Direction::Up));
    lemma_push_if_keeps_prefix(a4, locked && keys.contains(Key::Space), Action::Move(Direction::Up));
    let a6 = push_if(a5, locked && keys.contains(Key::LShift), Action::Move(Direction::Down));
    lemma_push_if_keeps_prefix(
        a5,
        locked && keys.contains(Key::LShift),
        Action::Move(Direction::Down),
    );
    let a7 = push_if(a6, locked && keys.contains(Key::W), Action::Move(Direction::Forward));
    lemma_push_if_keeps_prefix(
        a6,
        locked && keys.contains(Key::W),
        Action::Move(Direction::Forward),
    );
    let a8 = push_if(a7, locked && keys.contains(Key::S), Action::Move(Direction::Back));
    lemma_push_if_keeps_prefix(a7, locked && keys.contains(Key::S), Action::Move(Direction::Back));
    let a9 = push_if(a8, keys.contains(Key::LControl), Action::PrintFirstSphere);
    lemma_push_if_keeps_prefix(a8, keys.contains(Key::LControl), Action::PrintFirstSphere);
    let a10 = push_if(a9, keys.contains(Key::F), Action::PrintFps);
    lemma_push_if_keeps_prefix(a9, keys.contains(Key::F), Action::PrintFps);
    let a11 = push_if(a10, keys.contains(Key::Left) && m.paused, Action::StepBackward);
    lemma_push_if_keeps_prefix(a10, keys.contains(Key::Left) && m.paused, Action::StepBackward);
    let a12 = push_if(a11, keys.contains(Key::Right) && m.paused, Action::StepForward);
    lemma_push_if_keeps_prefix(a11, keys.contains(Key::Right) && m.paused, Action::StepForward);
    let a13 = push_if(a12, newly_pressed(keys, last, Key::R), Action::ReloadShaders);
    lemma_push_if_keeps_prefix(a12, newly_pressed(keys, last, Key::R), Action::ReloadShaders);
    lemma_push_if_keeps_prefix(a13, !step(m, pressed).paused, Action::StepForward);
}

/// What a frame does to the toggles: with the window focused, each toggle
/// flips exactly when its key (P for pause, H for hard shadows, Escape for
/// the mouse lock, C for the frame-rate limit) is held now and was not held in
/// the last frame, whatever the other toggles are; without the focus nothing
/// flips. The frame count goes up by one and the keys held now are kept (none
/// without the focus).
pub proof fn lemma_frame_toggles(m: ControlsModel, pressed: Seq<Key>)
    ensures
        ({
            let m1 = step(m, pressed);
            let fresh = |k: Key|
                m.window_focused && pressed.contains(k) && !m.last_frame_keys.contains(k);
            &&& m1.paused == (m.paused != fresh(Key::P))
            &&& m1.hard_shadows == (m.hard_shadows != fresh(Key::H))
            &&& m1.mouse_locked == (m.mouse_locked != fresh(Key::Escape))
            &&& m1.frame_limited == (m.frame_limited != fresh(Key::C))
            &&& m1.window_focused == m.window_focused
            &&& m1.frames == m.frames + 1
            &&& m1.last_frame_keys == (if m.window_focused {
                pressed
            } else {
                Seq::<Key>::empty()
            })
        }),
{
}

/// The window loop closes on a close request, runs a frame when the window
/// gains or loses the focus, when a timer runs out and when the loop starts,
/// and skips every other event.
pub proof fn lemma_event_responses(focused: bool)
    ensures
        event_response(Event::CloseRequested) == Response::Exit,
        event_response(Event::Focused(focused)) == Response::RunFrame,
        event_response(Event::ResumeTimeReached) == Response::RunFrame,
        event_response(Event::Init) == Response::RunFrame,
        event_response(Event::OtherWindowEvent) == Response::Skip,
        event_response(Event::OtherStartCause) == Response::Skip,
        event_response(Event::Other) == Response::Skip,
{
}

/// The one-action sequence `[a]` when `cond` holds, else the empty sequence.
pub open spec fn when(cond: bool, a: Action) -> Seq<Action> {
    if cond {
        seq![a]
    } else {
        Seq::empty()
    }
}

/// `push_if` appends `when(cond, a)`.
proof fn lemma_push_if_appends(s: Seq<Action>, cond: bool, a: Action)
    ensures
        push_if(s, cond, a) == s + when(cond, a),
{
    reveal(push_if);
    assert(push_if(s, cond, a) =~= s + when(cond, a));
}

/// The actions of a frame, in order, written out over the state before the
/// frame and the keys held: schedule the next frame with the limit it had;
/// lock the cursor (locked mouse, focused window) or release it; spawn on
/// every tenth running frame below a hundred spheres; with the mouse locked,
/// reset on a new X, then move left (A), right (D), up (Space), down
/// (LShift), forward (W) and back (S); print the first sphere (LControl) and
/// the frame rate (F); while paused, step backward (Left) and forward
/// (Right); reload the shaders on a new R; and step forward when the world
/// runs once the frame's new P has been taken into account. Without the
/// focus no key counts.
#[verifier::rlimit(60)]
pub proof fn lemma_frame_actions_in_order(m: ControlsModel, pressed: Seq<Key>, sphere_count: int)
    ensures
        ({
            let keys = if m.window_focused {
                pressed
            } else {
                Seq::<Key>::empty()
            };
            let last = m.last_frame_keys;
            let locked = m.mouse_locked;
            frame_actions(m, pressed, sphere_count) == seq![
                Action::ScheduleNextFrame { limited: m.frame_limited },
                if locked && m.window_focused {
                    Action::LockCursor
                } else {
                    Action::ReleaseCursor
                },
            ] + when(
                !m.paused && (m.frames + 1) % 10 == 0 && sphere_count < 100,
                Action::SpawnSphere,
            ) + when(locked && keys.contains(Key::X) && !last.contains(Key::X), Action::ResetWorld)
                + when(locked && keys.contains(Key::A), Action::Move(Direction::Left)) + when(
                locked && keys.contains(Key::D),
                Action::Move(Direction::Right),
            ) + when(locked && keys.contains(Key::Space), Action::Move(Direction::Up)) + when(
                locked && keys.contains(Key::LShift),
                Action::Move(Direction::Down),
            ) + when(locked && keys.contains(Key::W), Action::Move(Direction::Forward)) + when(
                locked && keys.contains(Key::S),
                Action::Move(Direction::Back),
            ) + when(keys.contains(Key::LControl), Action::PrintFirstSphere) + when(
                keys.contains(Key::F),
                Action::PrintFps,
            ) + when(keys.contains(Key::Left) && m.paused, Action::StepBackward) + when(
                keys.contains(Key::Right) && m.paused,
                Action::StepForward,
            ) + when(keys.contains(Key::R) && !last.contains(Key::R), Action::ReloadShaders)
                + when(
                m.paused == (keys.contains(Key::P) && !last.contains(Key::P)),
                Action::StepForward,
            )
        }),
{
    let keys = frame_keys(m, pressed);
    let last = m.last_frame_keys;
    let locked = m.mouse_locked;
    let a0 = seq![
        Action::ScheduleNextFrame { limited: m.frame_limited },
        if locked && m.window_focused {
            Action::LockCursor
        } else {
            Action::ReleaseCursor
        },
    ];
    let a1 = push_if(a0, spawns(m, sphere_count), Action::SpawnSphere);
    lemma_push_if_appends(a0, spawns(m, sphere_count), Action::SpawnSphere);
    let a2 = push_if(a1, locked && newly_pressed(keys, last, Key::X), Action::ResetWorld);
    lemma_push_if_appends(a1, locked && newly_pressed(keys, last, Key::X), Action::ResetWorld);
    let a3 = push_if(a2, locked && keys.contains(Key::A), Action::Move(Direction::Left));
    lemma_push_if_appends(a2, locked && keys.contains(Key::A), Action::Move(Direction::Left));
    let a4 = push_if(a3, locked && keys.contains(Key::D), Action::Move(Direction::Right));
    lemma_push_if_appends(a3, locked && keys.contains(Key::D), Action::Move(Direction::Right));
    let a5 = push_if(a4, locked && keys.contains(Key::Space), Action::Move(Direction::Up));
    lemma_push_if_appends(a4, locked && keys.contains(Key::Space), Action::Move(Direction::Up));
    let a6 = push_if(a5, locked && keys.contains(Key::LShift), Action::Move(Direction::Down));
    lemma_push_if_appends(a5, locked && keys.contains(Key::LShift), Action::Move(Direction::Down));
    let a7 = push_if(a6, locked && keys.contains(Key::W), Action::Move(Direction::Forward));
    lemma_push_if_appends(a6, locked && keys.contains(Key::W), Action::Move(Direction::Forward));
    let a8 = push_if(a7, locked && keys.contains(Key::S), Action::Move(Direction::Back));
    lemma_push_if_appends(a7, locked && keys.contains(Key::S), Action::Move(Direction::Back));
    let a9 = push_if(a8, keys.contains(Key::LControl), Action::PrintFirstSphere);
    lemma_push_if_appends(a8, keys.contains(Key::LControl), Action::PrintFirstSphere);
    let a10 = push_if(a9, keys.contains(Key::F), Action::PrintFps);
    lemma_push_if_appends(a9, keys.contains(Key::F), Action::PrintFps);
    let a11 = push_if(a10, keys.contains(Key::Left) && m.paused, Action::StepBackward);
    lemma_push_if_appends(a10, keys.contains(Key::Left) && m.paused, Action::StepBackward);
    let a12 = push_if(a11, keys.contains(Key::Right) && m.paused, Action::StepForward);
    lemma_push_if_appends(a11, keys.contains(Key::Right) && m.paused, Action::StepForward);
    let a13 = push_if(a12, newly_pressed(keys, last, Key::R), Action::ReloadShaders);
    lemma_push_if_appends(a12, newly_pressed(keys, last, Key::R), Action::ReloadShaders);
    lemma_push_if_appends(a13, !step(m, pressed).paused, Action::StepForward);
}

} // verus!
