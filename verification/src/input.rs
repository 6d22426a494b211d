//! DAS/ARR input model.
//!
//! Translates key events into `Input` values while emulating held-key
//! repeats.  Times are clock readings in nanoseconds handed in by the
//! caller; durations are nanoseconds too.
//!
//! - **DAS:** 160 ms initial delay before auto-repeat starts.
//! - **ARR:** 30 ms between subsequent moves during auto-repeat.
//! - **Release inference:** 160 ms — if `tick()` is called and no new
//!   event for the held direction has arrived within 160 ms, the key is
//!   treated as released (only without true release events).
//!
//! Soft drop uses edge inputs (`SoftDropOn` / `SoftDropOff`), not the
//! repeat loop: `SoftDropOn` on the first press, `SoftDropOff` on release
//! or when no soft-drop event arrives for the release-inference time.

use vstd::prelude::*;

use crate::game::state::Input;

verus! {

// ── timing constants ──────────────────────────────────────────────────────

/// Initial delay before auto-repeat starts (DAS), in milliseconds.
pub const DAS_MS: u64 = 160;

/// Delay between each repeated move after DAS expires (ARR), in milliseconds.
pub const ARR_MS: u64 = 30;

/// Release-inference timeout in milliseconds: no event for this long means
/// the key was released.
pub const RELEASE_INFER_MS: u64 = 160;

/// Nanoseconds in a millisecond.
const NANOS_PER_MILLI: u64 = 1_000_000;

// ── types ─────────────────────────────────────────────────────────────────

/// Which horizontal direction is currently held.
#[derive(Debug, Clone, Copy, PartialEq, Eq, Structural)]
pub enum HeldDir {
    Left,
    Right,
}

/// State for one held directional key.
#[derive(Debug, Clone, Copy, PartialEq, Eq)]
pub struct HeldDirection {
    pub kind: HeldDir,
    /// When the key was first pressed (clock reading, ns).
    pub pressed_at: u64,
    /// When the last repeat move was emitted (clock reading, ns).
    pub last_repeat: Option<u64>,
}

/// Whether the terminal reports true press and release events.
#[derive(Debug, Clone, Copy, PartialEq, Eq, Structural)]
pub enum KittySupport {
    /// True press/release events available.
    Supported,
    /// Fall back to release-inference heuristic.
    Heuristic,
}

/// The keys the translator tells apart.
#[derive(Debug, Clone, Copy, PartialEq, Eq, Structural)]
pub enum KeyCode {
    Left,
    Right,
    Down,
    Char(char),
    /// Any other key.
    Other,
}

/// Whether a key went down, repeated, or went up.
#[derive(Debug, Clone, Copy, PartialEq, Eq, Structural)]
pub enum KeyEventKind {
    Press,
    Repeat,
    Release,
}

/// A key event: the key, what happened to it, and whether Control was held.
#[derive(Debug, Clone, Copy, PartialEq, Eq, Structural)]
pub struct KeyEvent {
    pub code: KeyCode,
    pub kind: KeyEventKind,
    pub ctrl: bool,
}

/// A terminal event as seen by the translator.
#[derive(Debug, Clone, Copy, PartialEq, Eq, Structural)]
pub enum TermEvent {
    Key(KeyEvent),
    /// Resize, mouse, focus and the like: ignored.
    Other,
}

/// The move input for a held direction.
pub open spec fn move_input(dir: HeldDir) -> Input {
    match dir {
        HeldDir::Left => Input::MoveLeft,
        HeldDir::Right => Input::MoveRight,
    }
}

/// Time from `start` to `now`, zero if `now` is earlier.
pub open spec fn elapsed(now: u64, start: u64) -> int {
    if now >= start {
        now - start
    } else {
        0
    }
}

/// Left arrow, `a` or `h`.
pub open spec fn is_left_key(code: KeyCode) -> bool {
    code == KeyCode::Left || code == KeyCode::Char('a') || code == KeyCode::Char('h')
}

/// Right arrow, `d` or `l`.
pub open spec fn is_right_key(code: KeyCode) -> bool {
    code == KeyCode::Right || code == KeyCode::Char('d') || code == KeyCode::Char('l')
}

/// Down arrow, `s` or `j`.
pub open spec fn is_down_key(code: KeyCode) -> bool {
    code == KeyCode::Down || code == KeyCode::Char('s') || code == KeyCode::Char('j')
}

/// The input a single key press emits directly, if any: space hard-drops,
/// `z`/`x` rotate, `c` holds, `p` pauses, `r` restarts, `y`/`n` answer
/// the reset-scores dialog.
pub open spec fn action_key(code: KeyCode) -> Option<Input> {
    if code == KeyCode::Char(' ') {
        Some(Input::HardDrop)
    } else if code == KeyCode::Char('z') {
        Some(Input::RotateCcw)
    } else if code == KeyCode::Char('x') {
        Some(Input::RotateCw)
    } else if code == KeyCode::Char('c') {
        Some(Input::Hold)
    } else if code == KeyCode::Char('p') {
        Some(Input::Pause)
    } else if code == KeyCode::Char('r') {
        Some(Input::Restart)
    } else if code == KeyCode::Char('y') {
        Some(Input::ConfirmYes)
    } else if code == KeyCode::Char('n') {
        Some(Input::ConfirmNo)
    } else {
        None
    }
}

/// `q`, Ctrl-C and Ctrl-D quit.
pub open spec fn quits(key: KeyEvent) -> bool {
    key.code == KeyCode::Char('q') || (key.ctrl && (key.code == KeyCode::Char('c') || key.code
        == KeyCode::Char('d')))
}

// ── translator ────────────────────────────────────────────────────────────

/// Stateful input translator.
///
/// Call `translate_event()` for each key event, then `tick()` once per
/// game loop iteration to emit any DAS/ARR or release-inferred inputs
/// that are due.
#[derive(Debug, Clone, Copy)]
pub struct InputTranslator {
    pub kitty: KittySupport,
    pub held: Option<HeldDirection>,
    /// Last time we received any event for the held direction.
    pub last_dir_event: Option<u64>,
    /// Whether soft-drop is currently held.
    pub soft_drop_held: bool,
    /// Last time we received a soft-drop event (for release inference).
    pub last_soft_drop: Option<u64>,
    /// DAS delay (ns).
    pub das: u64,
    /// ARR interval (ns).
    pub arr: u64,
    /// Release-inference timeout (ns).
    pub release_infer: u64,
}

impl InputTranslator {
    /// `t` carries the same settings as `self`.
    pub open spec fn same_timing(&self, t: InputTranslator) -> bool {
        &&& t.kitty == self.kitty
        &&& t.das == self.das
        &&& t.arr == self.arr
        &&& t.release_infer == self.release_infer
    }

    /// Creates a new translator with the default timing.
    pub fn new(kitty: KittySupport) -> (t: Self)
        ensures
            t.kitty == kitty,
            t.held is None,
            t.last_dir_event is None,
            !t.soft_drop_held,
            t.last_soft_drop is None,
            t.das == DAS_MS * 1_000_000,
            t.arr == ARR_MS * 1_000_000,
            t.release_infer == RELEASE_INFER_MS * 1_000_000,
    {
        Self::with_timing(
            kitty,
            DAS_MS * NANOS_PER_MILLI,
            ARR_MS * NANOS_PER_MILLI,
            RELEASE_INFER_MS * NANOS_PER_MILLI,
        )
    }

    /// Creates a translator with custom timing (nanoseconds).
    pub fn with_timing(kitty: KittySupport, das: u64, arr: u64, release_infer: u64) -> (t: Self)
        ensures
            t.kitty == kitty,
            t.held is None,
            t.last_dir_event is None,
            !t.soft_drop_held,
            t.last_soft_drop is None,
            t.das == das,
            t.arr == arr,
            t.release_infer == release_infer,
    {
        InputTranslator {
            kitty,
            held: None,
            last_dir_event: None,
            soft_drop_held: false,
            last_soft_drop: None,
            das,
            arr,
            release_infer,
        }
    }

    /// `post` and the inputs `out` are what a press of the direction `dir`
    /// at `now` makes of `self`: pressing the held direction again only
    /// refreshes its event time; a new direction moves once at once and
    /// becomes the held one.
    pub open spec fn press_dir_rel(
        self,
        dir: HeldDir,
        now: u64,
        post: InputTranslator,
        out: Seq<Input>,
    ) -> bool {
        &&& post.same_timing(self)
        &&& post.soft_drop_held == self.soft_drop_held
        &&& post.last_soft_drop == self.last_soft_drop
        &&& post.last_dir_event == Some(now)
        &&& if self.held matches Some(h) && h.kind == dir {
            post.held == self.held && out == Seq::<Input>::empty()
        } else {
            &&& post.held == Some(HeldDirection { kind: dir, pressed_at: now, last_repeat: None })
            &&& out == seq![move_input(dir)]
        }
    }

    fn press_dir(&mut self, dir: HeldDir, now: u64, inputs: &mut Vec<Input>)
        ensures
            old(self).press_dir_rel(dir, now, *final(self), final(inputs)@.subrange(
                old(inputs)@.len() as int,
                final(inputs)@.len() as int,
            )),
            final(inputs)@.len() >= old(inputs)@.len(),
            final(inputs)@.subrange(0, old(inputs)@.len() as int) == old(inputs)@,
    {
        let ghost before = inputs@;
        let same = match &self.held {
            Some(h) => h.kind == dir,
            None => false,
        };
        if same {
            // Same direction — update timestamp (release-inference reset).
            self.last_dir_event = Some(now);
            assert(inputs@.subrange(before.len() as int, inputs@.len() as int) =~= Seq::<
                Input,
            >::empty());
            assert(inputs@.subrange(0, before.len() as int) =~= before);
            return ;
        }
        // New direction or direction change — emit one immediate move.
        let input = match dir {
            HeldDir::Left => Input::MoveLeft,
            HeldDir::Right => Input::MoveRight,
        };
        inputs.push(input);
        self.held = Some(HeldDirection { kind: dir, pressed_at: now, last_repeat: None });
        self.last_dir_event = Some(now);
        assert(inputs@.subrange(before.len() as int, inputs@.len() as int) =~= seq![input]);
        assert(inputs@.subrange(0, before.len() as int) =~= before);
    }

    /// `post` and the inputs `out` are what a press of `code` at `now`
    /// makes of `self`.
    pub open spec fn press_rel(
        self,
        code: KeyCode,
        now: u64,
        post: InputTranslator,
        out: Seq<Input>,
    ) -> bool {
        if is_left_key(code) {
            self.press_dir_rel(HeldDir::Left, now, post, out)
        } else if is_right_key(code) {
            self.press_dir_rel(HeldDir::Right, now, post, out)
        } else if is_down_key(code) {
            &&& post.same_timing(self)
            &&& post.held == self.held
            &&& post.last_dir_event == self.last_dir_event
            &&& post.soft_drop_held
            &&& post.last_soft_drop == Some(now)
            &&& out == if self.soft_drop_held {
                Seq::<Input>::empty()
            } else {
                seq![Input::SoftDropOn]
            }
        } else {
            &&& post == self
            &&& out == match action_key(code) {
                Some(i) => seq![i],
                None => Seq::<Input>::empty(),
            }
        }
    }

    fn handle_press(&mut self, code: KeyCode, now: u64, inputs: &mut Vec<Input>)
        ensures
            old(self).press_rel(code, now, *final(self), final(inputs)@.subrange(
                old(inputs)@.len() as int,
                final(inputs)@.len() as int,
            )),
            final(inputs)@.len() >= old(inputs)@.len(),
            final(inputs)@.subrange(0, old(inputs)@.len() as int) == old(inputs)@,
    {
        let ghost before = inputs@;
        match code {
            KeyCode::Left | KeyCode::Char('a') | KeyCode::Char('h') => {
                self.press_dir(HeldDir::Left, now, inputs);
                return ;
            },
            KeyCode::Right | KeyCode::Char('d') | KeyCode::Char('l') => {
                self.press_dir(HeldDir::Right, now, inputs);
                return ;
            },
            KeyCode::Down | KeyCode::Char('s') | KeyCode::Char('j') => {
                if !self.soft_drop_held {
                    self.soft_drop_held = true;
                    inputs.push(Input::SoftDropOn);
                }
                self.last_soft_drop = Some(now);
            },
            KeyCode::Char(' ') => inputs.push(Input::HardDrop),
            KeyCode::Char('z') => inputs.push(Input::RotateCcw),
            KeyCode::Char('x') => inputs.push(Input::RotateCw),
            KeyCode::Char('c') => inputs.push(Input::Hold),
            KeyCode::Char('p') => inputs.push(Input::Pause),
            KeyCode::Char('r') => inputs.push(Input::Restart),
            KeyCode::Char('y') => inputs.push(Input::ConfirmYes),
            KeyCode::Char('n') => inputs.push(Input::ConfirmNo),
            _ => {},
        }
        proof {
            let added = inputs@.subrange(before.len() as int, inputs@.len() as int);
            if inputs@.len() == before.len() {
                assert(added =~= Seq::<Input>::empty());
            } else {
                assert(added =~= seq![inputs@.last()]);
            }
            assert(inputs@.subrange(0, before.len() as int) =~= before);
        }
    }

    /// `post` and the inputs `out` are what a release of `code` makes of
    /// `self`: releasing the held direction forgets it; releasing a held
    /// soft drop ends it with `SoftDropOff`; anything else changes nothing.
    pub open spec fn release_rel(
        self,
        code: KeyCode,
        post: InputTranslator,
        out: Seq<Input>,
    ) -> bool {
        let held_kind = match self.held {
            Some(h) => Some(h.kind),
            None => None,
        };
        if (is_left_key(code) && held_kind == Some(HeldDir::Left)) || (is_right_key(code)
            && held_kind == Some(HeldDir::Right)) {
            &&& post == InputTranslator { held: None, last_dir_event: None, ..self }
            &&& out == Seq::<Input>::empty()
        } else if is_down_key(code) && self.soft_drop_held {
            &&& post == InputTranslator { soft_drop_held: false, last_soft_drop: None, ..self }
            &&& out == seq![Input::SoftDropOff]
        } else {
            post == self && out == Seq::<Input>::empty()
        }
    }

    fn handle_release(&mut self, code: KeyCode, inputs: &mut Vec<Input>)
        ensures
            old(self).release_rel(code, *final(self), final(inputs)@.subrange(
                old(inputs)@.len() as int,
                final(inputs)@.len() as int,
            )),
            final(inputs)@.len() >= old(inputs)@.len(),
            final(inputs)@.subrange(0, old(inputs)@.len() as int) == old(inputs)@,
    {
        let ghost before = inputs@;
        let held_kind = match &self.held {
            Some(h) => Some(h.kind),
            None => None,
        };
        let is_left = match code {
            KeyCode::Left | KeyCode::Char('a') | KeyCode::Char('h') => true,
            _ => false,
        };
        let is_right = match code {
            KeyCode::Right | KeyCode::Char('d') | KeyCode::Char('l') => true,
            _ => false,
        };
        let is_down = match code {
            KeyCode::Down | KeyCode::Char('s') | KeyCode::Char('j') => true,
            _ => false,
        };
        if (is_left && held_kind == Some(HeldDir::Left)) || (is_right && held_kind == Some(
            HeldDir::Right,
        )) {
            self.held = None;
            self.last_dir_event = None;
        } else if is_down && self.soft_drop_held {
            self.soft_drop_held = false;
            self.last_soft_drop = None;
            inputs.push(Input::SoftDropOff);
        }
        proof {
            let added = inputs@.subrange(before.len() as int, inputs@.len() as int);
            if inputs@.len() == before.len() {
                assert(added =~= Seq::<Input>::empty());
            } else {
                assert(added =~= seq![Input::SoftDropOff]);
            }
            assert(inputs@.subrange(0, before.len() as int) =~= before);
        }
    }

    /// Whether `key` asks to quit.
    fn is_quit(&self, key: KeyEvent) -> (q: bool)
        ensures
            q == quits(key),
    {
        match key.code {
            KeyCode::Char('q') => true,
            KeyCode::Char('c') | KeyCode::Char('d') => key.ctrl,
            _ => false,
        }
    }

    /// `post`, the inputs `out` and the quit flag `quit` are what the event
    /// `ev` at `now` makes of `self`.
    pub open spec fn event_rel(
        self,
        ev: TermEvent,
        now: u64,
        post: InputTranslator,
        out: Seq<Input>,
        quit: bool,
    ) -> bool {
        match ev {
            TermEvent::Key(key) => match key.kind {
                KeyEventKind::Release => !quit && self.release_rel(key.code, post, out),
                _ => if quits(key) {
                    quit && post == self && out == Seq::<Input>::empty()
                } else {
                    !quit && self.press_rel(key.code, now, post, out)
                },
            },
            TermEvent::Other => !quit && post == self && out == Seq::<Input>::empty(),
        }
    }

    /// Translates an event into zero or more inputs.
    ///
    /// Returns `(inputs, quit_requested)`.
    pub fn translate_event(&mut self, ev: &TermEvent, now: u64) -> (r: (Vec<Input>, bool))
        ensures
            old(self).event_rel(*ev, now, *final(self), r.0@, r.1),
    {
        let mut inputs: Vec<Input> = Vec::new();
        let mut quit = false;
        if let TermEvent::Key(key) = ev {
            match key.kind {
                KeyEventKind::Release => {
                    // With true release events the key goes up here.
                    self.handle_release(key.code, &mut inputs);
                },
                KeyEventKind::Press | KeyEventKind::Repeat => {
                    if self.is_quit(*key) {
                        quit = true;
                        return (inputs, quit);
                    }
                    self.handle_press(key.code, now, &mut inputs);
                },
            }
            assert(inputs@.subrange(0, inputs@.len() as int) =~= inputs@);
        }
        (inputs, quit)
    }

    /// The time of the last repeat, or for the first repeat the moment
    /// one ARR interval before the DAS boundary, so that the first repeat
    /// fires right at the boundary.
    pub open spec fn repeat_base(self, h: HeldDirection) -> int {
        match h.last_repeat {
            Some(t) => t as int,
            None => h.pressed_at + self.das - self.arr,
        }
    }

    /// The tick's first repeat base is a clock reading.
    pub open spec fn tick_fits(self) -> bool {
        match self.held {
            Some(h) => h.last_repeat is None ==> self.arr <= h.pressed_at + self.das
                <= u64::MAX,
            None => true,
        }
    }

    /// Soft drop is held and no soft-drop event came for longer than the
    /// release-inference time.
    pub open spec fn soft_drop_lapsed(self, now: u64) -> bool {
        &&& self.soft_drop_held
        &&& self.last_soft_drop matches Some(l)
        &&& elapsed(now, l) > self.release_infer
    }

    /// Without true release events, no event came for the held direction
    /// for longer than the release-inference time.
    pub open spec fn direction_lapsed(self, now: u64) -> bool {
        &&& self.kitty == KittySupport::Heuristic
        &&& self.last_dir_event matches Some(l)
        &&& elapsed(now, l) > self.release_infer
    }

    /// A repeat of the held direction `h` is due at `now`: the DAS delay
    /// has passed since the press and an ARR interval since the base.
    pub open spec fn repeat_due(self, h: HeldDirection, now: u64) -> bool {
        &&& elapsed(now, h.pressed_at) >= self.das
        &&& (if now >= self.repeat_base(h) {
            now - self.repeat_base(h)
        } else {
            0
        }) >= self.arr
    }

    /// The inputs one `tick` at `now` emits: `SoftDropOff` when the soft
    /// drop lapsed, then one move of the held direction when a repeat is
    /// due and the direction did not lapse.
    pub open spec fn tick_output(self, now: u64) -> Seq<Input> {
        let soft = if self.soft_drop_lapsed(now) {
            seq![Input::SoftDropOff]
        } else {
            Seq::<Input>::empty()
        };
        let mv = match self.held {
            Some(h) => if !self.direction_lapsed(now) && self.repeat_due(h, now) {
                seq![move_input(h.kind)]
            } else {
                Seq::<Input>::empty()
            },
            None => Seq::<Input>::empty(),
        };
        soft + mv
    }

    /// The translator after one `tick` at `now`.
    pub open spec fn tick_state(self, now: u64) -> InputTranslator {
        let s1 = if self.soft_drop_lapsed(now) {
            InputTranslator { soft_drop_held: false, last_soft_drop: None, ..self }
        } else {
            self
        };
        if self.direction_lapsed(now) {
            InputTranslator { held: None, last_dir_event: None, ..s1 }
        } else {
            match self.held {
                Some(h) => if self.repeat_due(h, now) {
                    InputTranslator {
                        held: Some(HeldDirection { last_repeat: Some(now), ..h }),
                        last_dir_event: Some(now),
                        ..s1
                    }
                } else {
                    s1
                },
                None => s1,
            }
        }
    }

    /// Called each tick to emit any DAS/ARR moves or release-inferred
    /// inputs.
    pub fn tick(&mut self, now: u64, inputs: &mut Vec<Input>)
        requires
            old(self).tick_fits(),
        ensures
            *final(self) == old(self).tick_state(now),
            final(inputs)@ == old(inputs)@ + old(self).tick_output(now),
    {
        let ghost pre = *self;
        let ghost before = inputs@;
        // Release-inference for soft-drop.  Strictly greater, so that the
        // threshold itself does not fire before DAS can emit a repeat.
        if let Some(last) = self.last_soft_drop {
            if self.soft_drop_held && now.saturating_sub(last) > self.release_infer {
                self.soft_drop_held = false;
                self.last_soft_drop = None;
                inputs.push(Input::SoftDropOff);
            }
        }
        let ghost mid = inputs@;
        // Release-inference for direction (heuristic mode only).
        if self.kitty == KittySupport::Heuristic {
            if let Some(last) = self.last_dir_event {
                if now.saturating_sub(last) > self.release_infer {
                    self.held = None;
                    self.last_dir_event = None;
                    assert(inputs@ =~= before + pre.tick_output(now));
                    return ;
                }
            }
        }
        // DAS/ARR repeat.
        let h = match self.held {
            Some(h) => h,
            None => {
                assert(inputs@ =~= before + pre.tick_output(now));
                return ;
            },
        };
        let input = match h.kind {
            HeldDir::Left => Input::MoveLeft,
            HeldDir::Right => Input::MoveRight,
        };
        let since_press = now.saturating_sub(h.pressed_at);
        if since_press < self.das {
            // Still in the DAS window — no repeat yet.
            assert(inputs@ =~= before + pre.tick_output(now));
            return ;
        }
        // DAS has expired — check ARR.
        let last_repeat = match h.last_repeat {
            Some(t) => t,
            None => h.pressed_at + self.das - self.arr,
        };
        let since_repeat = now.saturating_sub(last_repeat);
        if since_repeat >= self.arr {
            inputs.push(input);
            self.held = Some(HeldDirection { last_repeat: Some(now), ..h });
            // Keep release inference quiet while repeats are firing.
            self.last_dir_event = Some(now);
        }
        assert(inputs@ =~= before + pre.tick_output(now));
    }
}

/// The key table: with no direction held, pressing ←, `a` or `h` emits
/// exactly one `MoveLeft` and holds Left from now; →, `d` or `l` emits
/// exactly one `MoveRight` and holds Right; ↓, `s` or `j` starts a soft
/// drop; space hard-drops, `z` and `x` rotate counter-clockwise and
/// clockwise, `c` holds, `p` pauses, `r` restarts, and `y`/`n` answer the
/// reset dialog, each emitting exactly that one input.
pub proof fn lemma_key_table(
    t: InputTranslator,
    code: KeyCode,
    now: u64,
    post: InputTranslator,
    out: Seq<Input>,
)
    requires
        t.held is None,
        !t.soft_drop_held,
        t.press_rel(code, now, post, out),
    ensures
        code == KeyCode::Left || code == KeyCode::Char('a') || code == KeyCode::Char('h') ==> {
            &&& out == seq![Input::MoveLeft]
            &&& post.held == Some(
                HeldDirection { kind: HeldDir::Left, pressed_at: now, last_repeat: None },
            )
        },
        code == KeyCode::Right || code == KeyCode::Char('d') || code == KeyCode::Char('l') ==> {
            &&& out == seq![Input::MoveRight]
            &&& post.held == Some(
                HeldDirection { kind: HeldDir::Right, pressed_at: now, last_repeat: None },
            )
        },
        code == KeyCode::Down || code == KeyCode::Char('s') || code == KeyCode::Char('j') ==> {
            &&& out == seq![Input::SoftDropOn]
            &&& post.soft_drop_held
            &&& post.held is None
        },
        code == KeyCode::Char(' ') ==> out == seq![Input::HardDrop],
        code == KeyCode::Char('z') ==> out == seq![Input::RotateCcw],
        code == KeyCode::Char('x') ==> out == seq![Input::RotateCw],
        code == KeyCode::Char('c') ==> out == seq![Input::Hold],
        code == KeyCode::Char('p') ==> out == seq![Input::Pause],
        code == KeyCode::Char('r') ==> out == seq![Input::Restart],
        code == KeyCode::Char('y') ==> out == seq![Input::ConfirmYes],
        code == KeyCode::Char('n') ==> out == seq![Input::ConfirmNo],
        code == KeyCode::Other ==> out == Seq::<Input>::empty() && post == t,
{
}

/// Releasing a direction key forgets the held direction it belongs to:
/// ←, `a`, `h` release Left and →, `d`, `l` release Right, emitting nothing.
pub proof fn lemma_release_direction_keys(
    t: InputTranslator,
    code: KeyCode,
    post: InputTranslator,
    out: Seq<Input>,
)
    requires
        t.held is Some,
        t.release_rel(code, post, out),
    ensures
        t.held->0.kind == HeldDir::Left && (code == KeyCode::Left || code == KeyCode::Char('a')
            || code == KeyCode::Char('h')) ==> post.held is None && out == Seq::<Input>::empty(),
        t.held->0.kind == HeldDir::Right && (code == KeyCode::Right || code == KeyCode::Char('d')
            || code == KeyCode::Char('l')) ==> post.held is None && out == Seq::<Input>::empty(),
{
}

/// No move is repeated while the DAS delay since the press has not passed.
pub proof fn lemma_no_repeat_before_das(t: InputTranslator, now: u64)
    requires
        t.held is Some,
        elapsed(now, t.held->0.pressed_at) < t.das,
    ensures
        !t.tick_output(now).contains(Input::MoveLeft),
        !t.tick_output(now).contains(Input::MoveRight),
{
    let out = t.tick_output(now);
    assert forall|i: int| 0 <= i < out.len() implies out[i] == Input::SoftDropOff by {}
}

/// One tick emits at most one move.
pub proof fn lemma_one_move_per_tick(t: InputTranslator, now: u64)
    ensures
        t.tick_output(now).len() <= 2,
        forall|i: int|
            0 <= i < t.tick_output(now).len() - 1 ==> #[trigger] t.tick_output(now)[i]
                == Input::SoftDropOff,
{
}

} // verus!
