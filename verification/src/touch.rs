//! Touch input: following the touch controller, and turning what it reports
//! into pointer events.

use crate::board::{DISPLAY_HEIGHT, DISPLAY_WIDTH};
use vstd::prelude::*;

verus! {

/// How long the touch controller may stay silent mid-press before the press is
/// checked again rather than trusted.
pub const TOUCH_RELEASE_TIMEOUT_MS: u64 = 250;

/// How long the controller is held in reset, and how long it then needs.
pub const RESET_LOW_MS: u64 = 10;

pub const RESET_SETTLE_MS: u64 = 30;

#[derive(Debug, Clone, Copy, PartialEq, Eq, Structural)]
pub enum TouchState {
    Released,
    Pressed { x: u16, y: u16 },
}

/// Where a point of the touch controller lies on the display: the axes are
/// swapped, the horizontal one is mirrored, and stray points are moved to the
/// edge.
pub open spec fn on_display(x: u16, y: u16) -> (int, int) {
    let right = DISPLAY_WIDTH - 1;
    let bottom = DISPLAY_HEIGHT - 1;
    (right - if y < right { y as int } else { right }, if x < bottom { x as int } else { bottom })
}

/// Convert a point of the touch controller to display coordinates.
pub fn display_coordinates(x: u16, y: u16) -> (point: (u16, u16))
    ensures
        (point.0 as int, point.1 as int) == on_display(x, y),
{
    let right: u16 = DISPLAY_WIDTH - 1;
    let bottom: u16 = DISPLAY_HEIGHT - 1;
    let down: u16 = if y < right { y } else { right };
    let across: u16 = if x < bottom { x } else { bottom };
    (right - down, across)
}

/// What the controller answers when it is read.
#[derive(Debug, Clone, Copy, PartialEq, Eq, Structural)]
pub enum TouchReport {
    /// A finger at a point in the controller's coordinates.
    Finger { x: u16, y: u16 },
    NoFinger,
    Failed,
}

/// What happened to the task.
#[derive(Debug, Clone, Copy, PartialEq, Eq, Structural)]
pub enum TouchInput {
    /// The controller was reset and initialized, or could not be.
    Initialized(bool),
    /// The interrupt line fell.
    Edge,
    /// The interrupt line stayed quiet for the whole timeout.
    Timeout,
    Report(TouchReport),
}

/// What the task does next.
#[derive(Debug, Clone, Copy, PartialEq, Eq, Structural)]
pub enum TouchAction {
    /// Pulse the reset line and initialize the controller.
    Initialize,
    WaitForEdge,
    WaitForEdgeOrTimeout,
    Read,
    Stop,
}

/// What the task is waiting for.
#[derive(Debug, Clone, Copy, PartialEq, Eq, Structural)]
pub enum TouchPhase {
    Starting,
    Waiting,
    /// Reading the report that an edge announced.
    Reporting,
    /// Asking a silent controller whether the finger is still down.
    Rechecking,
    Stopped,
}

/// One step of the task: what to publish, and what to do next.
#[derive(Debug, Clone, Copy, PartialEq, Eq, Structural)]
pub struct TouchStep {
    /// Whether the controller is ready, once that is known.
    pub ready: Option<bool>,
    pub state: Option<TouchState>,
    pub action: TouchAction,
}

/// Follows the touch controller.
///
/// The controller presents one report per falling edge. Reading repeatedly
/// while the line is still low races its processing and can turn a valid press
/// into an empty report. A dropped release edge would leave the interface
/// pressed forever, so a silent controller is asked directly.
#[derive(Debug, Clone, Copy, PartialEq, Eq, Structural)]
pub struct TouchTask {
    pub phase: TouchPhase,
    pub pressed: bool,
}

impl TouchTask {
    /// What a task in this state is doing.
    pub open spec fn doing(self) -> TouchAction {
        match self.phase {
            TouchPhase::Starting => TouchAction::Initialize,
            TouchPhase::Waiting => if self.pressed {
                TouchAction::WaitForEdgeOrTimeout
            } else {
                TouchAction::WaitForEdge
            },
            TouchPhase::Reporting => TouchAction::Read,
            TouchPhase::Rechecking => TouchAction::Read,
            TouchPhase::Stopped => TouchAction::Stop,
        }
    }

    /// The state after an input. An input that the task does not wait for
    /// changes nothing.
    pub open spec fn after(self, input: TouchInput) -> TouchTask {
        match (self.phase, input) {
            (TouchPhase::Starting, TouchInput::Initialized(ok)) => TouchTask {
                phase: if ok {
                    TouchPhase::Waiting
                } else {
                    TouchPhase::Stopped
                },
                pressed: false,
            },
            (TouchPhase::Waiting, TouchInput::Edge) => TouchTask {
                phase: TouchPhase::Reporting,
                ..self
            },
            (TouchPhase::Waiting, TouchInput::Timeout) if self.pressed => TouchTask {
                phase: TouchPhase::Rechecking,
                ..self
            },
            (TouchPhase::Reporting, TouchInput::Report(report)) => TouchTask {
                phase: TouchPhase::Waiting,
                pressed: report is Finger,
            },
            (TouchPhase::Rechecking, TouchInput::Report(report)) => TouchTask {
                phase: TouchPhase::Waiting,
                pressed: report is Finger,
            },
            _ => self,
        }
    }

    /// What the interface is told of an input: every report that an edge
    /// announced, and the release that a silent controller kept back.
    pub open spec fn published(self, input: TouchInput) -> Option<TouchState> {
        match (self.phase, input) {
            (TouchPhase::Reporting, TouchInput::Report(TouchReport::Finger { x, y })) => Some(
                TouchState::Pressed { x: on_display(x, y).0 as u16, y: on_display(x, y).1 as u16 },
            ),
            (TouchPhase::Reporting, TouchInput::Report(_)) => Some(TouchState::Released),
            (TouchPhase::Rechecking, TouchInput::Report(TouchReport::Finger { .. })) => None,
            (TouchPhase::Rechecking, TouchInput::Report(_)) => Some(TouchState::Released),
            _ => None,
        }
    }

    /// Whether the controller turned out to be ready.
    pub open spec fn readiness(self, input: TouchInput) -> Option<bool> {
        match (self.phase, input) {
            (TouchPhase::Starting, TouchInput::Initialized(ok)) => Some(ok),
            _ => None,
        }
    }

    /// A task that is about to start.
    pub fn new() -> (task: Self)
        ensures
            task == (TouchTask { phase: TouchPhase::Starting, pressed: false }),
    {
        TouchTask { phase: TouchPhase::Starting, pressed: false }
    }

    /// What the task does now.
    pub fn action(&self) -> (action: TouchAction)
        ensures
            action == self.doing(),
    {
        match self.phase {
            TouchPhase::Starting => TouchAction::Initialize,
            TouchPhase::Waiting => if self.pressed {
                TouchAction::WaitForEdgeOrTimeout
            } else {
                TouchAction::WaitForEdge
            },
            TouchPhase::Reporting => TouchAction::Read,
            TouchPhase::Rechecking => TouchAction::Read,
            TouchPhase::Stopped => TouchAction::Stop,
        }
    }

    /// Take one step.
    pub fn step(&mut self, input: TouchInput) -> (step: TouchStep)
        ensures
            *final(self) == old(self).after(input),
            step.ready == old(self).readiness(input),
            step.state == old(self).published(input),
            step.action == final(self).doing(),
    {
        let mut ready: Option<bool> = None;
        let mut state: Option<TouchState> = None;
        match (self.phase, input) {
            (TouchPhase::Starting, TouchInput::Initialized(ok)) => {
                ready = Some(ok);
                self.pressed = false;
                self.phase = if ok {
                    TouchPhase::Waiting
                } else {
                    TouchPhase::Stopped
                };
            },
            (TouchPhase::Waiting, TouchInput::Edge) => {
                self.phase = TouchPhase::Reporting;
            },
            (TouchPhase::Waiting, TouchInput::Timeout) => {
                if self.pressed {
                    self.phase = TouchPhase::Rechecking;
                }
            },
            (TouchPhase::Reporting, TouchInput::Report(report)) => {
                self.phase = TouchPhase::Waiting;
                match report {
                    TouchReport::Finger { x, y } => {
                        let point = display_coordinates(x, y);
                        self.pressed = true;
                        state = Some(TouchState::Pressed { x: point.0, y: point.1 });
                    },
                    _ => {
                        self.pressed = false;
                        state = Some(TouchState::Released);
                    },
                }
            },
            (TouchPhase::Rechecking, TouchInput::Report(report)) => {
                self.phase = TouchPhase::Waiting;
                match report {
                    TouchReport::Finger { .. } => {
                        self.pressed = true;
                    },
                    _ => {
                        self.pressed = false;
                        state = Some(TouchState::Released);
                    },
                }
            },
            _ => {},
        }
        TouchStep { ready, state, action: self.action() }
    }
}

/// The task after some inputs.
pub open spec fn followed(inputs: Seq<TouchInput>) -> TouchTask
    decreases inputs.len(),
{
    if inputs.len() == 0 {
        TouchTask { phase: TouchPhase::Starting, pressed: false }
    } else {
        followed(inputs.drop_last()).after(inputs.last())
    }
}

/// The last thing the interface was told.
pub open spec fn last_published(inputs: Seq<TouchInput>) -> TouchState
    decreases inputs.len(),
{
    if inputs.len() == 0 {
        TouchState::Released
    } else {
        match followed(inputs.drop_last()).published(inputs.last()) {
            Some(state) => state,
            None => last_published(inputs.drop_last()),
        }
    }
}

/// The interface is never left pressed behind the task's back: whatever
/// happened, what it was told last is what the task believes. A task that
/// believes in a press never waits without the timeout, only such a task checks
/// again, and none does before it started.
pub proof fn law_interface_knows_the_press(inputs: Seq<TouchInput>)
    ensures
        followed(inputs).pressed == (last_published(inputs) is Pressed),
        followed(inputs).pressed ==> followed(inputs).doing() != TouchAction::WaitForEdge,
        followed(inputs).phase is Rechecking ==> followed(inputs).pressed,
        followed(inputs).phase is Starting ==> !followed(inputs).pressed,
    decreases inputs.len(),
{
    if inputs.len() > 0 {
        law_interface_knows_the_press(inputs.drop_last());
    }
}

/// A missed release is made good: a pressed task whose controller stays silent
/// and no longer sees the finger tells the interface of the release.
pub proof fn law_missed_release_is_made_good(task: TouchTask, report: TouchReport)
    requires
        task.phase is Waiting,
        task.pressed,
        !(report is Finger),
    ensures
        task.after(TouchInput::Timeout).doing() == TouchAction::Read,
        task.after(TouchInput::Timeout).published(TouchInput::Report(report)) == Some(
            TouchState::Released,
        ),
        !task.after(TouchInput::Timeout).after(TouchInput::Report(report)).pressed,
{
}

/// Every point is on the display.
pub proof fn law_points_are_on_the_display(x: u16, y: u16)
    ensures
        0 <= on_display(x, y).0 < DISPLAY_WIDTH,
        0 <= on_display(x, y).1 < DISPLAY_HEIGHT,
{
}

/// A pointer event for the interface.
#[derive(Debug, Clone, Copy, PartialEq, Eq, Structural)]
pub enum PointerEvent {
    Pressed { x: u16, y: u16 },
    Moved { x: u16, y: u16 },
    Released { x: u16, y: u16 },
    Exited,
}

/// The pointer events of a touch state, given where the pointer is down.
pub open spec fn pointer_events(last: Option<(u16, u16)>, state: TouchState) -> Seq<PointerEvent> {
    match (last, state) {
        (None, TouchState::Pressed { x, y }) => seq![PointerEvent::Pressed { x, y }],
        (Some(position), TouchState::Pressed { x, y }) => if position == (x, y) {
            Seq::empty()
        } else {
            seq![PointerEvent::Moved { x, y }]
        },
        (Some(position), TouchState::Released) => seq![
            PointerEvent::Released { x: position.0, y: position.1 },
            PointerEvent::Exited,
        ],
        (None, TouchState::Released) => Seq::empty(),
    }
}

/// Turn a touch state into pointer events, remembering where the pointer is.
///
/// Positions are those of the display; scaling them for the window is left to
/// whoever dispatches the events.
pub fn dispatch_touch_state(last_position: &mut Option<(u16, u16)>, state: TouchState) -> (events:
    Vec<PointerEvent>)
    ensures
        events@ == pointer_events(*old(last_position), state),
        *final(last_position) == (match state {
            TouchState::Pressed { x, y } => Some((x, y)),
            TouchState::Released => None,
        }),
        *final(last_position) == position_of(state),
{
    let mut events: Vec<PointerEvent> = Vec::new();
    match state {
        TouchState::Pressed { x, y } => {
            match *last_position {
                Some(position) => {
                    if position.0 != x || position.1 != y {
                        events.push(PointerEvent::Moved { x, y });
                    }
                },
                None => {
                    events.push(PointerEvent::Pressed { x, y });
                },
            }
            *last_position = Some((x, y));
        },
        TouchState::Released => {
            if let Some(position) = *last_position {
                events.push(PointerEvent::Released { x: position.0, y: position.1 });
                events.push(PointerEvent::Exited);
            }
            *last_position = None;
        },
    }
    assert(events@ =~= pointer_events(*old(last_position), state));
    events
}

/// Where the pointer is down after some touch states.
pub open spec fn pointer_after(states: Seq<TouchState>) -> Option<(u16, u16)> {
    if states.len() == 0 {
        None
    } else {
        match states.last() {
            TouchState::Pressed { x, y } => Some((x, y)),
            TouchState::Released => None,
        }
    }
}

/// The pointer goes down before it moves or comes up, and a release ends where
/// the pointer was.
pub proof fn law_pointer_events_are_paired(states: Seq<TouchState>, next: TouchState, index: int)
    requires
        0 <= index < pointer_events(pointer_after(states), next).len(),
    ensures
        match pointer_events(pointer_after(states), next)[index] {
            PointerEvent::Pressed { .. } => pointer_after(states) is None,
            PointerEvent::Moved { x, y } => pointer_after(states) is Some && pointer_after(states)
                != Some((x, y)),
            PointerEvent::Released { x, y } => pointer_after(states) == Some((x, y)),
            PointerEvent::Exited => index > 0,
        },
{
}

/// The display shows a touch where the finger is: as the touch controller's
/// vertical axis grows the point moves left from the right edge, as its
/// horizontal one grows it moves down from the top, step by step. What lies
/// beyond the display counts as its edge.
pub proof fn law_points_are_turned(x: u16, y: u16)
    ensures
        y <= 479 ==> on_display(x, y).0 + y == 479,
        y > 479 ==> on_display(x, y).0 == 0,
        x <= 479 ==> on_display(x, y).1 == x,
        x > 479 ==> on_display(x, y).1 == 479,
{
}

/// Every report that an edge announced reaches the interface as it is: a finger
/// as a press at its point, anything else as a release. The next edge is waited
/// for then.
pub proof fn law_reports_reach_the_interface(task: TouchTask, x: u16, y: u16, report: TouchReport)
    requires
        task.phase is Waiting,
        !(report is Finger),
    ensures
        ({
            let reading = task.after(TouchInput::Edge);
            let finger = TouchInput::Report(TouchReport::Finger { x, y });
            let nothing = TouchInput::Report(report);
            &&& reading.doing() == TouchAction::Read
            &&& reading.published(finger) matches Some(TouchState::Pressed { x: across, y: down })
                && (across as int, down as int) == on_display(x, y)
            &&& reading.after(finger).doing() == TouchAction::WaitForEdgeOrTimeout
            &&& reading.published(nothing) == Some(TouchState::Released)
            &&& reading.after(nothing).doing() == TouchAction::WaitForEdge
        }),
{
}

/// A silent controller that still sees the finger leaves the press as it is, and
/// goes on being checked. One that is not pressed is left alone.
pub proof fn law_held_presses_are_kept(task: TouchTask, x: u16, y: u16)
    requires
        task.phase is Waiting,
    ensures
        ({
            let checking = task.after(TouchInput::Timeout);
            let finger = TouchInput::Report(TouchReport::Finger { x, y });
            &&& task.pressed ==> checking.doing() == TouchAction::Read && checking.published(finger)
                is None && checking.after(finger) == task
            &&& !task.pressed ==> checking == task
            &&& task.published(TouchInput::Timeout) is None
            &&& task.published(TouchInput::Edge) is None
        }),
{
}

/// A controller is followed once it is initialized, which the interface is told,
/// and given up if it cannot be.
pub proof fn law_start_decides(ok: bool, later: TouchInput)
    ensures
        ({
            let start = TouchTask { phase: TouchPhase::Starting, pressed: false };
            let input = TouchInput::Initialized(ok);
            &&& start.doing() == TouchAction::Initialize
            &&& start.readiness(input) == Some(ok)
            &&& ok ==> start.after(input).doing() == TouchAction::WaitForEdge
            &&& !ok ==> start.after(input).doing() == TouchAction::Stop
            &&& start.after(input).readiness(later) is None
            &&& !ok ==> start.after(input).after(later) == start.after(input)
        }),
{
}

/// Where a touch state has the pointer.
pub open spec fn position_of(state: TouchState) -> Option<(u16, u16)> {
    match state {
        TouchState::Pressed { x, y } => Some((x, y)),
        TouchState::Released => None,
    }
}

/// Where the pointer is after an interface took some events.
pub open spec fn taken_to(start: Option<(u16, u16)>, events: Seq<PointerEvent>) -> Option<
    (u16, u16),
>
    decreases events.len(),
{
    if events.len() == 0 {
        start
    } else {
        match events.last() {
            PointerEvent::Pressed { x, y } => Some((x, y)),
            PointerEvent::Moved { x, y } => Some((x, y)),
            PointerEvent::Released { .. } => None,
            PointerEvent::Exited => None,
        }
    }
}

/// The events take the pointer where the touch is: an interface that had it
/// where it was last ends with it where the touch state has it. Events come
/// exactly where that is somewhere else.
pub proof fn law_events_follow_the_finger(last: Option<(u16, u16)>, state: TouchState)
    ensures
        taken_to(last, pointer_events(last, state)) == position_of(state),
        pointer_events(last, state).len() == 0 <==> last == position_of(state),
        last is Some && state is Released ==> pointer_events(last, state).len() == 2 && (
        pointer_events(last, state)[0] is Released) && pointer_events(last, state)[1] is Exited,
        state is Pressed ==> pointer_events(last, state).len() <= 1,
{
}

} // verus!
