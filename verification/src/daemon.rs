//! The daemon's decisions: what a line of Niri's event stream or a command on the
//! control socket does to the loop's state, and what the caller must do next
//! (rotate, reply, or nothing). Times are milliseconds on one monotonic clock.
use vstd::prelude::*;

use crate::animation::{stems_upto, views_of, AnimationRotator};
use crate::config::Mode;
use crate::text::{
    chars_of, find_chars_from, find_from, is_literal, is_ws, lemma_find_from_bounds, skip_ws,
    skip_ws_back, sub_chars, trim, trim_chars, ws_end, ws_start_before,
};

verus! {

/// How many events Niri sends first to describe its current state; they are skipped.
pub const EXPECTED_INITIAL_EVENTS: usize = 5;

/// The event name of a line of Niri's event stream: the first JSON key of
/// `{"EventName": ...}`.
pub open spec fn event_type_of(line: Seq<char>) -> Option<Seq<char>> {
    let t = trim(line);
    if t.len() >= 2 && t[0] == '{' && t[1] == '"' {
        match find_from(t, seq!['"'], 2) {
            Some(e) => Some(t.subrange(2, e)),
            None => None,
        }
    } else {
        None
    }
}

/// The event name of a line of Niri's event stream, read without parsing the JSON.
pub fn extract_event_type(line: &str) -> (r: Option<&str>)
    ensures
        match r {
            Some(s) => event_type_of(line@) == Some(s@),
            None => event_type_of(line@) is None,
        },
{
    let cs = chars_of(line);
    let a = skip_ws(&cs, 0);
    let t = sub_chars(&cs, a, cs.len());
    let b = skip_ws_back(&t, t.len());
    let tt = sub_chars(&t, 0, b);
    assert(tt@ == trim(line@));
    if tt.len() >= 2 && tt[0] == '{' && tt[1] == '"' {
        let mut quote: Vec<char> = Vec::new();
        quote.push('"');
        assert(quote@ =~= seq!['"']);
        match find_chars_from(&tt, &quote, 2) {
            Some(e) => {
                proof {
                    lemma_find_from_bounds(tt@, seq!['"'], 2);
                }
                let s = line.substring_char(a + 2, a + e);
                assert(s@ =~= tt@.subrange(2, e as int));
                Some(s)
            },
            None => None,
        }
    } else {
        None
    }
}

/// Whether a block that lasts until `block_until` is over at `now` (or there is none).
pub open spec fn block_expired(block_until: Option<u64>, now: u64) -> bool {
    match block_until {
        None => true,
        Some(t) => now >= t,
    }
}

/// Debounce with reset: whether an event at `now` rotates, and the new end of the
/// block, which always starts from `now`.
pub fn compute_block(block_until: Option<u64>, now: u64, duration_ms: u64, cooldown_ms: u64) -> (r: (
    bool,
    Option<u64>,
))
    requires
        now + duration_ms + cooldown_ms <= u64::MAX,
    ensures
        r.0 == block_expired(block_until, now),
        r.1 == Some((now + duration_ms + cooldown_ms) as u64),
{
    let rotate = match block_until {
        None => true,
        Some(t) => now >= t,
    };
    (rotate, Some(now + duration_ms + cooldown_ms))
}

/// The state of the event loop.
#[derive(Debug, Clone, Copy, PartialEq, Eq, Structural)]
pub struct LoopState {
    /// Whether Niri events or control commands rotate.
    pub mode: Mode,
    /// How many of Niri's initial state events have been skipped.
    pub initial_events_seen: usize,
    /// Auto mode: no rotation before this time.
    pub block_until: Option<u64>,
    /// Manual mode: when the last rotation command ran.
    pub last_rotation: Option<u64>,
}

/// What a line of Niri's event stream asks for.
#[derive(Debug, Clone, Copy, PartialEq, Eq, Structural)]
pub enum NiriAction {
    /// Nothing (manual mode, unreadable line, or an event that does not rotate).
    Ignored,
    /// One of Niri's initial state events; skipped.
    InitialSkipped,
    /// Rotate now, then block for the new animation's play time.
    Rotate,
    /// The current animation is still playing: extend the block, do not rotate.
    Blocked,
}

/// Whether event `ev` rotates, given which events are switched off.
pub open spec fn rotating_event(ev: Seq<char>, no_window_opened: bool, no_window_closed: bool) -> bool {
    ||| ev == "WindowOpenedOrChanged"@ && !no_window_opened
    ||| ev == "WindowClosed"@ && !no_window_closed
}

/// What a line of Niri's event stream does in state `s` at `now`.
pub open spec fn niri_step(
    s: LoopState,
    line: Seq<char>,
    no_window_opened: bool,
    no_window_closed: bool,
    now: u64,
) -> (LoopState, NiriAction) {
    if s.mode != Mode::Auto {
        (s, NiriAction::Ignored)
    } else {
        match event_type_of(line) {
            None => (s, NiriAction::Ignored),
            Some(ev) => if s.initial_events_seen < EXPECTED_INITIAL_EVENTS {
                (
                    LoopState { initial_events_seen: (s.initial_events_seen + 1) as usize, ..s },
                    NiriAction::InitialSkipped,
                )
            } else if rotating_event(ev, no_window_opened, no_window_closed) {
                (
                    s,
                    if block_expired(s.block_until, now) {
                        NiriAction::Rotate
                    } else {
                        NiriAction::Blocked
                    },
                )
            } else {
                (s, NiriAction::Ignored)
            },
        }
    }
}

/// What a command on the control socket asks the caller to do.
pub enum CommandAction {
    /// Write this text back.
    Reply(String),
    /// Do nothing (a rotation command during the cooldown).
    Silent,
    /// Switch to auto mode: read the target's play time and call `enter_auto`.
    EnterAuto,
    /// Rotate to the next animation, then call `record_rotation`.
    Next,
    /// Rotate to the previous animation, then call `record_rotation`.
    Prev,
    /// Select the animation with this name, then call `finish_select`.
    Select(String),
}

/// A `CommandAction` with its texts as character sequences.
pub enum CommandView {
    Reply(Seq<char>),
    Silent,
    EnterAuto,
    Next,
    Prev,
    Select(Seq<char>),
}

/// The view of a command action.
pub open spec fn action_view(a: CommandAction) -> CommandView {
    match a {
        CommandAction::Reply(s) => CommandView::Reply(s@),
        CommandAction::Silent => CommandView::Silent,
        CommandAction::EnterAuto => CommandView::EnterAuto,
        CommandAction::Next => CommandView::Next,
        CommandAction::Prev => CommandView::Prev,
        CommandAction::Select(s) => CommandView::Select(s@),
    }
}

/// The reply to `current`.
pub open spec fn current_reply(stem: Option<Seq<char>>) -> Seq<char> {
    match stem {
        Some(s) => s + "\n"@,
        None => "error: no animations available\n"@,
    }
}

/// The reply to `list`: each name on a line of its own.
pub open spec fn list_reply(stems: Seq<Seq<char>>) -> Seq<char>
    decreases stems.len(),
{
    if stems.len() == 0 {
        seq![]
    } else {
        list_reply(stems.drop_last()) + stems.last() + "\n"@
    }
}

/// `select ` followed by a name.
pub open spec fn select_prefix() -> Seq<char> {
    seq!['s', 'e', 'l', 'e', 'c', 't', ' ']
}

/// Milliseconds from `t` to `now` (0 if `now` is earlier).
pub open spec fn elapsed(t: u64, now: u64) -> int {
    if now >= t {
        now - t
    } else {
        0
    }
}

/// Whether the manual cooldown since the last rotation is still running at `now`.
pub open spec fn cooldown_active(last_rotation: Option<u64>, now: u64, cooldown_ms: u64) -> bool {
    match last_rotation {
        Some(t) => elapsed(t, now) < cooldown_ms,
        None => false,
    }
}

/// Whether `cmd` rotates in manual mode.
pub open spec fn is_rotation_command(cmd: Seq<char>) -> bool {
    cmd == "next"@ || cmd == "rotate"@ || cmd == "prev"@
}

/// The reply to a query (`current` or `list`) or to anything else.
pub open spec fn query_reply(
    cmd: Seq<char>,
    stems: Seq<Seq<char>>,
    current: Option<Seq<char>>,
    other: Seq<char>,
) -> Seq<char> {
    if cmd == "current"@ {
        current_reply(current)
    } else if cmd == "list"@ {
        list_reply(stems)
    } else {
        other
    }
}

/// What the trimmed command `cmd` does in state `s` at `now`, given the names of the
/// animations and the active one.
pub open spec fn command_step(
    s: LoopState,
    cmd: Seq<char>,
    stems: Seq<Seq<char>>,
    current: Option<Seq<char>>,
    cooldown_ms: u64,
    now: u64,
) -> (LoopState, CommandView) {
    if cmd == "mode auto"@ {
        (s, CommandView::EnterAuto)
    } else if cmd == "mode manual"@ {
        (
            LoopState { mode: Mode::Manual, block_until: None, last_rotation: None, ..s },
            CommandView::Reply("ok\n"@),
        )
    } else if s.mode == Mode::Auto {
        (s, CommandView::Reply(query_reply(cmd, stems, current, "error: not in manual mode\n"@)))
    } else if is_rotation_command(cmd) && cooldown_active(s.last_rotation, now, cooldown_ms) {
        (s, CommandView::Silent)
    } else if cmd == "next"@ || cmd == "rotate"@ {
        (s, CommandView::Next)
    } else if cmd == "prev"@ {
        (s, CommandView::Prev)
    } else if cmd == "current"@ || cmd == "list"@ {
        (s, CommandView::Reply(query_reply(cmd, stems, current, seq![])))
    } else if cmd == "select"@ {
        (s, CommandView::Reply("error: missing name\n"@))
    } else if cmd.len() >= 7 && cmd.subrange(0, 7) == select_prefix() {
        let name = trim(cmd.subrange(7, cmd.len() as int));
        if name.len() == 0 {
            (s, CommandView::Reply("error: missing name\n"@))
        } else {
            (s, CommandView::Select(name))
        }
    } else {
        (s, CommandView::Reply("error: unknown command: "@ + cmd + "\n"@))
    }
}

/// How a selection by name ended.
pub enum SelectOutcome {
    /// Found and written to the target.
    Applied,
    /// No animation has that name.
    NotFound,
    /// Writing failed with this message.
    Failed(String),
}

/// `text` followed by a newline.
fn line_of(text: &str) -> (r: String)
    ensures
        r@ == text@ + "\n"@,
{
    let mut r = text.to_owned();
    r.append("\n");
    r
}

/// The reply to `list`.
fn list_text(rotator: &AnimationRotator) -> (r: String)
    ensures
        r@ == list_reply(stems_upto(rotator.entries(), rotator.entries().len() as int)),
{
    let stems = rotator.file_stems();
    let mut r = String::new();
    let mut i: usize = 0;
    while i < stems.len()
        invariant
            i <= stems.len(),
            views_of(stems@) == stems_upto(rotator.entries(), rotator.entries().len() as int),
            r@ == list_reply(views_of(stems@).subrange(0, i as int)),
        decreases stems.len() - i,
    {
        let ghost before = r@;
        r.append(stems[i].as_str());
        r.append("\n");
        assert(views_of(stems@).subrange(0, i + 1).drop_last() =~= views_of(stems@).subrange(
            0,
            i as int,
        ));
        i = i + 1;
    }
    assert(views_of(stems@).subrange(0, i as int) =~= views_of(stems@));
    r
}

/// The reply to `current`.
fn current_text(rotator: &AnimationRotator) -> (r: String)
    ensures
        r@ == current_reply(rotator.current_stem()),
{
    match rotator.current_file_stem() {
        Some(stem) => line_of(stem.as_str()),
        None => "error: no animations available\n".to_owned(),
    }
}

impl LoopState {
    /// The state at startup: no event seen; in auto mode the current animation's
    /// play time (`target_duration_ms`, when the target declares one) plus the
    /// cooldown blocks rotation from `now`.
    pub fn new(mode: Mode, now: u64, target_duration_ms: Option<u64>, cooldown_ms: u64) -> (r: Self)
        requires
            target_duration_ms matches Some(d) ==> now + d + cooldown_ms <= u64::MAX,
        ensures
            r.mode == mode,
            r.initial_events_seen == 0,
            r.last_rotation is None,
            r.block_until == match target_duration_ms {
                Some(d) => Some((now + d + cooldown_ms) as u64),
                None => None,
            },
    {
        let block_until = match target_duration_ms {
            Some(d) => Some(now + d + cooldown_ms),
            None => None,
        };
        LoopState { mode, initial_events_seen: 0, block_until, last_rotation: None }
    }

    /// Handles a line of Niri's event stream received at `now`.
    pub fn on_niri_line(
        &mut self,
        line: &str,
        no_window_opened: bool,
        no_window_closed: bool,
        now: u64,
    ) -> (r: NiriAction)
        ensures
            (*final(self), r) == niri_step(
                *old(self),
                line@,
                no_window_opened,
                no_window_closed,
                now,
            ),
    {
        match self.mode {
            Mode::Manual => NiriAction::Ignored,
            Mode::Auto => {
                match extract_event_type(line) {
                    None => NiriAction::Ignored,
                    Some(ev) => {
                        if self.initial_events_seen < EXPECTED_INITIAL_EVENTS {
                            self.initial_events_seen = self.initial_events_seen + 1;
                            NiriAction::InitialSkipped
                        } else if (is_literal(ev, "WindowOpenedOrChanged") && !no_window_opened)
                            || (is_literal(ev, "WindowClosed") && !no_window_closed) {
                            let expired = match self.block_until {
                                None => true,
                                Some(t) => now >= t,
                            };
                            if expired {
                                NiriAction::Rotate
                            } else {
                                NiriAction::Blocked
                            }
                        } else {
                            NiriAction::Ignored
                        }
                    },
                }
            },
        }
    }

    /// Blocks rotation from `now` for `duration_ms` plus `cooldown_ms`.
    pub fn set_block(&mut self, now: u64, duration_ms: u64, cooldown_ms: u64)
        requires
            now + duration_ms + cooldown_ms <= u64::MAX,
        ensures
            *final(self) == (LoopState {
                block_until: Some((now + duration_ms + cooldown_ms) as u64),
                ..*old(self)
            }),
    {
        let (_, block) = compute_block(self.block_until, now, duration_ms, cooldown_ms);
        self.block_until = block;
    }

    /// Handles a line received on the control socket at `now`.
    pub fn on_command(
        &mut self,
        line: &str,
        rotator: &AnimationRotator,
        cooldown_ms: u64,
        now: u64,
    ) -> (r: CommandAction)
        ensures
            (*final(self), action_view(r)) == command_step(
                *old(self),
                trim(line@),
                stems_upto(rotator.entries(), rotator.entries().len() as int),
                rotator.current_stem(),
                cooldown_ms,
                now,
            ),
    {
        let cmd_chars = trim_chars(&chars_of(line));
        let cmd = crate::text::string_of(&cmd_chars, 0, cmd_chars.len());
        assert(cmd_chars@.subrange(0, cmd_chars@.len() as int) =~= cmd_chars@);
        let c = cmd.as_str();
        if is_literal(c, "mode auto") {
            return CommandAction::EnterAuto;
        }
        if is_literal(c, "mode manual") {
            self.mode = Mode::Manual;
            self.last_rotation = None;
            self.block_until = None;
            return CommandAction::Reply("ok\n".to_owned());
        }
        let is_current = is_literal(c, "current");
        let is_list = is_literal(c, "list");
        if let Mode::Auto = self.mode {
            if is_current {
                return CommandAction::Reply(current_text(rotator));
            } else if is_list {
                return CommandAction::Reply(list_text(rotator));
            } else {
                return CommandAction::Reply("error: not in manual mode\n".to_owned());
            }
        }
        let is_next = is_literal(c, "next") || is_literal(c, "rotate");
        let is_prev = is_literal(c, "prev");
        if is_next || is_prev {
            let cooling = match self.last_rotation {
                Some(t) => {
                    let el = if now >= t {
                        now - t
                    } else {
                        0
                    };
                    el < cooldown_ms
                },
                None => false,
            };
            if cooling {
                return CommandAction::Silent;
            }
            if is_next {
                return CommandAction::Next;
            }
            return CommandAction::Prev;
        }
        if is_current {
            return CommandAction::Reply(current_text(rotator));
        }
        if is_list {
            return CommandAction::Reply(list_text(rotator));
        }
        if is_literal(c, "select") {
            return CommandAction::Reply("error: missing name\n".to_owned());
        }
        let prefix = chars_of("select ");
        proof {
            reveal_strlit("select ");
            assert(prefix@ =~= select_prefix());
        }
        if cmd_chars.len() >= 7 && crate::text::matches_at(&cmd_chars, &prefix, 0) {
            let rest = sub_chars(&cmd_chars, 7, cmd_chars.len());
            let name = trim_chars(&rest);
            if name.len() == 0 {
                return CommandAction::Reply("error: missing name\n".to_owned());
            }
            assert(name@.subrange(0, name@.len() as int) =~= name@);
            return CommandAction::Select(crate::text::string_of(&name, 0, name.len()));
        }
        let mut reply = "error: unknown command: ".to_owned();
        reply.append(c);
        reply.append("\n");
        CommandAction::Reply(reply)
    }

    /// Switches to auto mode at `now`: the skip count and the manual cooldown start
    /// afresh, and the target's play time (when it declares one) plus the cooldown
    /// blocks rotation. Returns the reply.
    pub fn enter_auto(&mut self, now: u64, target_duration_ms: Option<u64>, cooldown_ms: u64) -> (r:
        String)
        requires
            target_duration_ms matches Some(d) ==> now + d + cooldown_ms <= u64::MAX,
        ensures
            *final(self) == (LoopState {
                mode: Mode::Auto,
                initial_events_seen: 0,
                block_until: match target_duration_ms {
                    Some(d) => Some((now + d + cooldown_ms) as u64),
                    None => None,
                },
                last_rotation: None,
            }),
            r@ == "ok\n"@,
    {
        *self = LoopState::new(Mode::Auto, now, target_duration_ms, cooldown_ms);
        "ok\n".to_owned()
    }

    /// Notes a rotation command that ran at `now`.
    pub fn record_rotation(&mut self, now: u64)
        ensures
            *final(self) == (LoopState { last_rotation: Some(now), ..*old(self) }),
    {
        self.last_rotation = Some(now);
    }

    /// Ends a selection that started at `now`; returns the reply.
    pub fn finish_select(&mut self, outcome: SelectOutcome, now: u64) -> (r: String)
        ensures
            match outcome {
                SelectOutcome::Applied => *final(self) == (LoopState {
                    last_rotation: Some(now),
                    ..*old(self)
                }) && r@ == "ok\n"@,
                SelectOutcome::NotFound => *final(self) == *old(self) && r@
                    == "error: not found\n"@,
                SelectOutcome::Failed(msg) => *final(self) == *old(self) && r@ == "error: "@
                    + msg@ + "\n"@,
            },
    {
        match outcome {
            SelectOutcome::Applied => {
                self.last_rotation = Some(now);
                "ok\n".to_owned()
            },
            SelectOutcome::NotFound => "error: not found\n".to_owned(),
            SelectOutcome::Failed(msg) => {
                let mut r = "error: ".to_owned();
                r.append(msg.as_str());
                r.append("\n");
                r
            },
        }
    }
}

} // verus!

verus! {

/// The state and actions after a sequence of Niri lines, all received at `now`.
pub open spec fn run_lines(
    s: LoopState,
    lines: Seq<Seq<char>>,
    no_window_opened: bool,
    no_window_closed: bool,
    now: u64,
) -> (LoopState, Seq<NiriAction>)
    decreases lines.len(),
{
    if lines.len() == 0 {
        (s, seq![])
    } else {
        let before = run_lines(s, lines.drop_last(), no_window_opened, no_window_closed, now);
        let step = niri_step(before.0, lines.last(), no_window_opened, no_window_closed, now);
        (step.0, before.1.push(step.1))
    }
}

/// In auto mode the first five events are Niri's initial state and are skipped,
/// whatever they are; only the skip count changes.
pub proof fn lemma_initial_events_skipped(
    s: LoopState,
    lines: Seq<Seq<char>>,
    no_window_opened: bool,
    no_window_closed: bool,
    now: u64,
)
    requires
        s.mode == Mode::Auto,
        s.initial_events_seen == 0,
        lines.len() <= EXPECTED_INITIAL_EVENTS,
        forall|i: int| 0 <= i < lines.len() ==> #[trigger] event_type_of(lines[i]) is Some,
    ensures
        run_lines(s, lines, no_window_opened, no_window_closed, now).0 == (LoopState {
            initial_events_seen: lines.len() as usize,
            ..s
        }),
        forall|i: int|
            0 <= i < lines.len() ==> #[trigger] run_lines(
                s,
                lines,
                no_window_opened,
                no_window_closed,
                now,
            ).1[i] == NiriAction::InitialSkipped,
        run_lines(s, lines, no_window_opened, no_window_closed, now).1.len() == lines.len(),
    decreases lines.len(),
{
    if lines.len() > 0 {
        let t = lines.drop_last();
        assert forall|i: int| 0 <= i < t.len() implies #[trigger] event_type_of(t[i]) is Some by {
            assert(t[i] == lines[i]);
        }
        lemma_initial_events_skipped(s, t, no_window_opened, no_window_closed, now);
        assert(event_type_of(lines[lines.len() - 1]) is Some);
    }
}

/// Once the initial events are past, a rotating event is never skipped: it rotates
/// when the block is over and extends the block otherwise; the state is unchanged.
pub proof fn lemma_rotating_event_after_initial(
    s: LoopState,
    line: Seq<char>,
    no_window_opened: bool,
    no_window_closed: bool,
    now: u64,
)
    requires
        s.mode == Mode::Auto,
        s.initial_events_seen >= EXPECTED_INITIAL_EVENTS,
        event_type_of(line) matches Some(ev) && rotating_event(
            ev,
            no_window_opened,
            no_window_closed,
        ),
    ensures
        niri_step(s, line, no_window_opened, no_window_closed, now) == (
            s,
            if block_expired(s.block_until, now) {
                NiriAction::Rotate
            } else {
                NiriAction::Blocked
            },
        ),
{
}

/// After the block is set from `start` for a play time and a cooldown, a rotating
/// event rotates exactly when it comes at or after the block's end.
pub proof fn lemma_debounce(
    s: LoopState,
    line: Seq<char>,
    no_window_opened: bool,
    no_window_closed: bool,
    start: u64,
    duration_ms: u64,
    cooldown_ms: u64,
    now: u64,
)
    requires
        s.mode == Mode::Auto,
        s.initial_events_seen >= EXPECTED_INITIAL_EVENTS,
        start + duration_ms + cooldown_ms <= u64::MAX,
        s.block_until == Some((start + duration_ms + cooldown_ms) as u64),
        event_type_of(line) matches Some(ev) && rotating_event(
            ev,
            no_window_opened,
            no_window_closed,
        ),
    ensures
        niri_step(s, line, no_window_opened, no_window_closed, now).1 == (if now >= start
            + duration_ms + cooldown_ms {
            NiriAction::Rotate
        } else {
            NiriAction::Blocked
        }),
{
}

/// In manual mode Niri's events change nothing and ask for nothing.
pub proof fn lemma_manual_ignores_events(
    s: LoopState,
    line: Seq<char>,
    no_window_opened: bool,
    no_window_closed: bool,
    now: u64,
)
    requires
        s.mode == Mode::Manual,
    ensures
        niri_step(s, line, no_window_opened, no_window_closed, now) == (s, NiriAction::Ignored),
{
}

/// Only `WindowOpenedOrChanged` (unless switched off) and `WindowClosed` (unless
/// switched off) ever rotate or extend the block. Once the initial events are past,
/// a line with any other event name is ignored and changes nothing.
pub proof fn lemma_only_window_events_rotate(
    s: LoopState,
    line: Seq<char>,
    no_window_opened: bool,
    no_window_closed: bool,
    now: u64,
)
    ensures
        ({
            let r = niri_step(s, line, no_window_opened, no_window_closed, now);
            r.1 == NiriAction::Rotate || r.1 == NiriAction::Blocked
        }) ==> (event_type_of(line) matches Some(ev) && (ev == "WindowOpenedOrChanged"@
            && !no_window_opened || ev == "WindowClosed"@ && !no_window_closed)),
        s.mode == Mode::Auto && s.initial_events_seen >= EXPECTED_INITIAL_EVENTS && (event_type_of(
            line,
        ) matches Some(ev) && ev != "WindowOpenedOrChanged"@ && ev != "WindowClosed"@) ==> niri_step(
            s,
            line,
            no_window_opened,
            no_window_closed,
            now,
        ) == (s, NiriAction::Ignored),
        s.mode == Mode::Auto && s.initial_events_seen >= EXPECTED_INITIAL_EVENTS && (event_type_of(
            line,
        ) matches Some(ev) && ev == "WindowOpenedOrChanged"@ && no_window_opened) ==> niri_step(
            s,
            line,
            no_window_opened,
            no_window_closed,
            now,
        ) == (s, NiriAction::Ignored),
        s.mode == Mode::Auto && s.initial_events_seen >= EXPECTED_INITIAL_EVENTS && (event_type_of(
            line,
        ) matches Some(ev) && ev == "WindowClosed"@ && no_window_closed) ==> niri_step(
            s,
            line,
            no_window_opened,
            no_window_closed,
            now,
        ) == (s, NiriAction::Ignored),
{
    reveal_strlit("WindowOpenedOrChanged");
    reveal_strlit("WindowClosed");
    assert("WindowOpenedOrChanged"@.len() != "WindowClosed"@.len());
}

/// In auto mode only `mode auto`, `mode manual`, `current` and `list` are obeyed:
/// every other command is answered `error: not in manual mode` and changes nothing,
/// and no rotation or selection is ever asked for. `current` and `list` do not
/// change the state either.
pub proof fn lemma_auto_mode_commands(
    s: LoopState,
    cmd: Seq<char>,
    stems: Seq<Seq<char>>,
    current: Option<Seq<char>>,
    cooldown_ms: u64,
    now: u64,
)
    requires
        s.mode == Mode::Auto,
    ensures
        cmd != "mode auto"@ && cmd != "mode manual"@ && cmd != "current"@ && cmd != "list"@
            ==> command_step(s, cmd, stems, current, cooldown_ms, now) == (
            s,
            CommandView::Reply("error: not in manual mode\n"@),
        ),
        cmd == "current"@ ==> command_step(s, cmd, stems, current, cooldown_ms, now) == (
            s,
            CommandView::Reply(current_reply(current)),
        ),
        cmd == "list"@ ==> command_step(s, cmd, stems, current, cooldown_ms, now) == (
            s,
            CommandView::Reply(list_reply(stems)),
        ),
        ({
            let a = command_step(s, cmd, stems, current, cooldown_ms, now).1;
            !(a is Next) && !(a is Prev) && !(a is Select) && !(a is Silent)
        }),
{
    reveal_strlit("mode auto");
    reveal_strlit("mode manual");
    reveal_strlit("current");
    reveal_strlit("list");
}

/// In manual mode: `next`/`rotate` ask for the next animation and `prev` for the
/// previous one, unless the last rotation was less than the cooldown ago (a clock
/// reading before it counts as no time passed), in which case nothing is done; `select <name>` asks for the trimmed name; no command but
/// `mode manual` changes the state.
pub proof fn lemma_manual_mode_commands(
    s: LoopState,
    cmd: Seq<char>,
    stems: Seq<Seq<char>>,
    current: Option<Seq<char>>,
    cooldown_ms: u64,
    now: u64,
    name: Seq<char>,
)
    requires
        s.mode == Mode::Manual,
    ensures
        cmd != "mode manual"@ ==> command_step(s, cmd, stems, current, cooldown_ms, now).0 == s,
        (cmd == "next"@ || cmd == "rotate"@) ==> command_step(
            s,
            cmd,
            stems,
            current,
            cooldown_ms,
            now,
        ).1 == (if s.last_rotation matches Some(t) && (if now >= t {
            now - t < cooldown_ms
        } else {
            cooldown_ms > 0
        }) {
            CommandView::Silent
        } else {
            CommandView::Next
        }),
        cmd == "prev"@ ==> command_step(s, cmd, stems, current, cooldown_ms, now).1 == (
        if s.last_rotation matches Some(t) && (if now >= t {
            now - t < cooldown_ms
        } else {
            cooldown_ms > 0
        }) {
            CommandView::Silent
        } else {
            CommandView::Prev
        }),
        cmd == "select "@ + name && trim(name).len() > 0 ==> command_step(
            s,
            cmd,
            stems,
            current,
            cooldown_ms,
            now,
        ).1 == CommandView::Select(trim(name)),
{
    reveal_strlit("mode auto");
    reveal_strlit("mode manual");
    reveal_strlit("current");
    reveal_strlit("list");
    reveal_strlit("next");
    reveal_strlit("rotate");
    reveal_strlit("prev");
    reveal_strlit("select");
    reveal_strlit("select ");
    assert("prev"@[0] != "next"@[0]);
    assert("prev"@ != "rotate"@);
    if cmd == "select "@ + name && trim(name).len() > 0 {
        assert(cmd.subrange(0, 7) =~= select_prefix());
        assert(cmd.subrange(7, cmd.len() as int) =~= name);
        assert(cmd.len() >= 8 || trim(name).len() == 0);
    }
}

/// The first occurrence of a one-character pattern at or after `i` is the first
/// position from `i` on that holds that character.
proof fn lemma_find_char(s: Seq<char>, c: char, i: int, j: int)
    requires
        0 <= i <= j < s.len(),
        s[j] == c,
        forall|k: int| i <= k < j ==> s[k] != c,
    ensures
        find_from(s, seq![c], i) == Some(j),
    decreases j - i,
{
    if i < j {
        assert(s.subrange(i, i + 1)[0] != c);
        lemma_find_char(s, c, i + 1, j);
    } else {
        assert(s.subrange(i, i + 1) =~= seq![c]);
    }
}

/// Cutting trailing white space keeps a prefix.
proof fn lemma_ws_start_before_bounds(s: Seq<char>, j: int)
    requires
        0 <= j <= s.len(),
    ensures
        0 <= ws_start_before(s, j) <= j,
    decreases j,
{
    if 0 < j && is_ws(s[j - 1]) {
        lemma_ws_start_before_bounds(s, j - 1);
    }
}

/// Trailing white space is only cut after the last character that is not white space.
proof fn lemma_ws_start_before_at_least(s: Seq<char>, j: int, m: int)
    requires
        0 < m <= j <= s.len(),
        !is_ws(s[m - 1]),
    ensures
        ws_start_before(s, j) >= m,
    decreases j,
{
    if j > m && is_ws(s[j - 1]) {
        lemma_ws_start_before_at_least(s, j - 1, m);
    }
}

/// The event name of a line `{"Name"...` is the text between the first two quotes,
/// whatever follows it.
pub proof fn lemma_event_name_read(name: Seq<char>, rest: Seq<char>)
    requires
        forall|k: int| 0 <= k < name.len() ==> name[k] != '"',
    ensures
        event_type_of(seq!['{', '"'] + name + seq!['"'] + rest) == Some(name),
{
    let line = seq!['{', '"'] + name + seq!['"'] + rest;
    let q: int = name.len() as int + 2;
    assert(line[0] == '{');
    assert(!is_ws('{'));
    assert(ws_end(line, 0) == 0);
    let t = line.subrange(0, line.len() as int);
    assert(t =~= line);
    assert(line[q] == '"');
    assert(!is_ws('"'));
    lemma_ws_start_before_at_least(t, t.len() as int, q + 1);
    let e = ws_start_before(t, t.len() as int);
    assert(e <= t.len()) by {
        lemma_ws_start_before_bounds(t, t.len() as int);
    }
    let tt = t.subrange(0, e);
    assert(tt == trim(line));
    assert forall|k: int| 2 <= k < q implies tt[k] != '"' by {
        assert(tt[k] == name[k - 2]);
    }
    lemma_find_char(tt, '"', 2, q);
    assert(tt.subrange(2, q) =~= name);
}

/// The reply to `list` gives each name on a line of its own, in order: the reply for
/// one name is that name and a newline, and the reply for two lists put together
/// is their replies put together.
pub proof fn lemma_list_reply_lines(a: Seq<Seq<char>>, b: Seq<Seq<char>>, x: Seq<char>)
    ensures
        list_reply(seq![x]) == x + "\n"@,
        list_reply(a + b) == list_reply(a) + list_reply(b),
        list_reply(Seq::<Seq<char>>::empty()).len() == 0,
    decreases b.len(),
{
    assert(seq![x].drop_last() =~= Seq::<Seq<char>>::empty());
    assert(seq![x].last() == x);
    assert(list_reply(Seq::<Seq<char>>::empty()) =~= Seq::<char>::empty());
    assert(list_reply(seq![x]) == list_reply(Seq::<Seq<char>>::empty()) + x + "\n"@);
    assert(Seq::<char>::empty() + x =~= x);
    assert(list_reply(seq![x]) =~= x + "\n"@);
    if b.len() == 0 {
        assert(a + b =~= a);
        assert(list_reply(a) + list_reply(b) =~= list_reply(a));
    } else {
        lemma_list_reply_lines(a, b.drop_last(), x);
        assert((a + b).drop_last() =~= a + b.drop_last());
        assert((a + b).last() == b.last());
        assert(list_reply(a + b) =~= list_reply(a) + list_reply(b));
    }
}

/// The reply to `current` is the active animation's name on a line of its own, or
/// the error line when there is none.
pub proof fn lemma_current_reply(stem: Option<Seq<char>>)
    ensures
        stem matches Some(s) ==> current_reply(stem) == s + "\n"@ && current_reply(stem).len() == s.len() + 1
            && current_reply(stem).last() == '\n',
        stem is None ==> current_reply(stem) == "error: no animations available\n"@,
{
    reveal_strlit("\n");
}

} // verus!
