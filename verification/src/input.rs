use vstd::prelude::*;

verus! {

/// The window events the examples react to.
#[derive(Clone, Copy, Debug, PartialEq, Eq, Structural)]
pub enum WindowEvent {
    /// The framebuffer was resized to this width and height in pixels.
    FramebufferSize(i32, i32),
    /// The escape key was pressed.
    EscapePressed,
    /// Any other event.
    Other,
}

/// What the application does in answer to a window event.
#[derive(Clone, Copy, Debug, PartialEq, Eq, Structural)]
pub enum WindowAction {
    /// Make the viewport cover `(0, 0)` to this width and height.
    SetViewport(i32, i32),
    /// Ask the window to close.
    Close,
}

/// The answer to a window event: a resize moves the viewport to the new
/// framebuffer size, escape closes the window, and every other event is
/// ignored.
pub open spec fn window_action_spec(event: WindowEvent) -> Option<WindowAction> {
    match event {
        WindowEvent::FramebufferSize(w, h) => Some(WindowAction::SetViewport(w, h)),
        WindowEvent::EscapePressed => Some(WindowAction::Close),
        WindowEvent::Other => None,
    }
}

/// The answer to a window event (see `window_action_spec`).
pub fn window_action(event: WindowEvent) -> (action: Option<WindowAction>)
    ensures
        action == window_action_spec(event),
{
    match event {
        WindowEvent::FramebufferSize(w, h) => Some(WindowAction::SetViewport(w, h)),
        WindowEvent::EscapePressed => Some(WindowAction::Close),
        WindowEvent::Other => None,
    }
}

/// The answers to a batch of window events, in the order of the events;
/// ignored events give no action.
pub open spec fn window_actions_spec(events: Seq<WindowEvent>) -> Seq<WindowAction>
    decreases events.len(),
{
    if events.len() == 0 {
        Seq::empty()
    } else {
        let rest = window_actions_spec(events.drop_last());
        match window_action_spec(events.last()) {
            Some(a) => rest.push(a),
            None => rest,
        }
    }
}

/// The answers to the events gathered since the last frame.
pub fn window_actions(events: &Vec<WindowEvent>) -> (actions: Vec<WindowAction>)
    ensures
        actions@ == window_actions_spec(events@),
{
    let mut actions: Vec<WindowAction> = Vec::new();
    let mut i: usize = 0;
    while i < events.len()
        invariant
            i <= events@.len(),
            actions@ == window_actions_spec(events@.subrange(0, i as int)),
        decreases events@.len() - i,
    {
        let ghost prefix = events@.subrange(0, i as int);
        assert(events@.subrange(0, i + 1).drop_last() =~= prefix);
        match window_action(events[i]) {
            Some(a) => actions.push(a),
            None => {},
        }
        i = i + 1;
    }
    assert(events@.subrange(0, events@.len() as int) =~= events@);
    actions
}

/// The directions a camera moves in.
#[derive(Clone, Copy, Debug, PartialEq, Eq, Structural)]
pub enum CameraMovement {
    Forward,
    Backward,
    Left,
    Right,
}

/// The movements asked for by the movement keys held this frame, in the
/// order the examples apply them: W forward, S backward, A left, D right.
pub open spec fn held_movements_spec(w: bool, s: bool, a: bool, d: bool) -> Seq<CameraMovement> {
    (if w { seq![CameraMovement::Forward] } else { Seq::empty() }) + (if s {
        seq![CameraMovement::Backward]
    } else {
        Seq::empty()
    }) + (if a { seq![CameraMovement::Left] } else { Seq::empty() }) + (if d {
        seq![CameraMovement::Right]
    } else {
        Seq::empty()
    })
}

/// The movements asked for by the held movement keys (see
/// `held_movements_spec`).
pub fn held_movements(w: bool, s: bool, a: bool, d: bool) -> (moves: Vec<CameraMovement>)
    ensures
        moves@ == held_movements_spec(w, s, a, d),
{
    let mut moves: Vec<CameraMovement> = Vec::new();
    if w {
        moves.push(CameraMovement::Forward);
    }
    if s {
        moves.push(CameraMovement::Backward);
    }
    if a {
        moves.push(CameraMovement::Left);
    }
    if d {
        moves.push(CameraMovement::Right);
    }
    assert(moves@ =~= held_movements_spec(w, s, a, d));
    moves
}

/// A batch with no events asks for nothing.
pub proof fn lemma_no_events_no_actions()
    ensures
        window_actions_spec(Seq::<WindowEvent>::empty()) == Seq::<WindowAction>::empty(),
{
}

/// A lone event is answered on its own: a resize moves the viewport to the
/// new size, an Escape press closes the window, any other event asks for
/// nothing.
pub proof fn lemma_single_event_actions(event: WindowEvent, width: i32, height: i32)
    ensures
        window_actions_spec(seq![WindowEvent::FramebufferSize(width, height)]) == seq![
            WindowAction::SetViewport(width, height),
        ],
        window_actions_spec(seq![WindowEvent::EscapePressed]) == seq![WindowAction::Close],
        window_actions_spec(seq![WindowEvent::Other]) == Seq::<WindowAction>::empty(),
        window_actions_spec(seq![event]) == match window_action_spec(event) {
            Some(a) => seq![a],
            None => Seq::<WindowAction>::empty(),
        },
{
    assert(window_actions_spec(Seq::<WindowEvent>::empty()) == Seq::<WindowAction>::empty());
    assert(seq![WindowEvent::FramebufferSize(width, height)].drop_last() =~= Seq::<WindowEvent>::empty());
    assert(seq![WindowEvent::EscapePressed].drop_last() =~= Seq::<WindowEvent>::empty());
    assert(seq![WindowEvent::Other].drop_last() =~= Seq::<WindowEvent>::empty());
    assert(seq![event].drop_last() =~= Seq::<WindowEvent>::empty());
    assert(seq![WindowEvent::FramebufferSize(width, height)].last() == WindowEvent::FramebufferSize(width, height));
    assert(seq![WindowEvent::EscapePressed].last() == WindowEvent::EscapePressed);
    assert(seq![WindowEvent::Other].last() == WindowEvent::Other);
    assert(seq![event].last() == event);
    assert(Seq::<WindowAction>::empty().push(WindowAction::Close) =~= seq![WindowAction::Close]);
    assert(Seq::<WindowAction>::empty().push(WindowAction::SetViewport(width, height)) =~= seq![
        WindowAction::SetViewport(width, height),
    ]);
    match window_action_spec(event) {
        Some(a) => {
            assert(Seq::<WindowAction>::empty().push(a) =~= seq![a]);
        },
        None => {},
    }
}

/// Every event of a batch is answered, in order: the answers to two batches
/// one after the other are the answers to the first followed by those to
/// the second, so an event is answered the same wherever it stands.
pub proof fn lemma_actions_of_joined_batches(first: Seq<WindowEvent>, second: Seq<WindowEvent>)
    ensures
        window_actions_spec(first + second) == window_actions_spec(first) + window_actions_spec(
            second,
        ),
    decreases second.len(),
{
    if second.len() == 0 {
        assert(first + second =~= first);
        assert(window_actions_spec(second) =~= Seq::<WindowAction>::empty());
        assert(window_actions_spec(first) + window_actions_spec(second) =~= window_actions_spec(first));
    } else {
        let rest = second.drop_last();
        lemma_actions_of_joined_batches(first, rest);
        assert((first + second).drop_last() =~= first + rest);
        assert((first + second).last() == second.last());
        let a = window_actions_spec(first);
        let b = window_actions_spec(rest);
        match window_action_spec(second.last()) {
            Some(x) => {
                assert(a + b.push(x) =~= (a + b).push(x));
            },
            None => {},
        }
    }
}

/// Adding an event at the end of a batch adds its own answer at the end of
/// the answers.
pub proof fn lemma_actions_of_appended_event(events: Seq<WindowEvent>, event: WindowEvent, width: i32, height: i32)
    ensures
        window_actions_spec(events.push(event)) == window_actions_spec(events)
            + window_actions_spec(seq![event]),
        window_actions_spec(events.push(WindowEvent::EscapePressed)) == window_actions_spec(
            events,
        ).push(WindowAction::Close),
        window_actions_spec(events.push(WindowEvent::FramebufferSize(width, height)))
            == window_actions_spec(events).push(WindowAction::SetViewport(width, height)),
        window_actions_spec(events.push(WindowEvent::Other)) == window_actions_spec(events),
{
    lemma_single_event_actions(event, width, height);
    assert(events.push(event) =~= events + seq![event]);
    lemma_actions_of_joined_batches(events, seq![event]);
    let e1 = WindowEvent::EscapePressed;
    let e2 = WindowEvent::FramebufferSize(width, height);
    let e3 = WindowEvent::Other;
    assert(events.push(e1) =~= events + seq![e1]);
    assert(events.push(e2) =~= events + seq![e2]);
    assert(events.push(e3) =~= events + seq![e3]);
    lemma_actions_of_joined_batches(events, seq![e1]);
    lemma_actions_of_joined_batches(events, seq![e2]);
    lemma_actions_of_joined_batches(events, seq![e3]);
    assert(window_actions_spec(events) + seq![WindowAction::Close] =~= window_actions_spec(events).push(WindowAction::Close));
    assert(window_actions_spec(events) + seq![WindowAction::SetViewport(width, height)] =~= window_actions_spec(events).push(WindowAction::SetViewport(width, height)));
    assert(window_actions_spec(events) + Seq::<WindowAction>::empty() =~= window_actions_spec(events));
}

/// The order in which the movement keys are applied: W, S, A, D.
pub open spec fn movement_rank(m: CameraMovement) -> int {
    match m {
        CameraMovement::Forward => 0,
        CameraMovement::Backward => 1,
        CameraMovement::Left => 2,
        CameraMovement::Right => 3,
    }
}

/// Each movement key acts on its own: the camera moves forward exactly when
/// W is held, backward exactly when S is, left exactly when A is, right
/// exactly when D is, whatever the other keys; each movement comes at most
/// once, in the order W, S, A, D, and there is one movement per held key.
pub proof fn lemma_held_keys_act_independently(w: bool, s: bool, a: bool, d: bool)
    ensures
        held_movements_spec(w, s, a, d).contains(CameraMovement::Forward) == w,
        held_movements_spec(w, s, a, d).contains(CameraMovement::Backward) == s,
        held_movements_spec(w, s, a, d).contains(CameraMovement::Left) == a,
        held_movements_spec(w, s, a, d).contains(CameraMovement::Right) == d,
        held_movements_spec(w, s, a, d).len() == (if w { 1int } else { 0 }) + (if s { 1int } else { 0 })
            + (if a { 1int } else { 0 }) + (if d { 1int } else { 0 }),
        forall|i: int, j: int|
            0 <= i < j < held_movements_spec(w, s, a, d).len() ==> movement_rank(
                #[trigger] held_movements_spec(w, s, a, d)[i],
            ) < movement_rank(#[trigger] held_movements_spec(w, s, a, d)[j]),
{
    let m = held_movements_spec(w, s, a, d);
    let sw: Seq<CameraMovement> = if w { seq![CameraMovement::Forward] } else { Seq::empty() };
    let ss: Seq<CameraMovement> = if s { seq![CameraMovement::Backward] } else { Seq::empty() };
    let sa: Seq<CameraMovement> = if a { seq![CameraMovement::Left] } else { Seq::empty() };
    let sd: Seq<CameraMovement> = if d { seq![CameraMovement::Right] } else { Seq::empty() };
    assert(m == sw + ss + sa + sd);
    let m1 = sw + ss;
    let m2 = m1 + sa;
    assert forall|x: CameraMovement| #[trigger] m.contains(x) == (sw.contains(x) || ss.contains(x)
        || sa.contains(x) || sd.contains(x)) by {
        if m.contains(x) {
            let i = choose|i: int| 0 <= i < m.len() && m[i] == x;
            if i < m2.len() {
                assert(m[i] == m2[i]);
                if i < m1.len() {
                    assert(m2[i] == m1[i]);
                    if i < sw.len() {
                        assert(m1[i] == sw[i]);
                    } else {
                        assert(m1[i] == ss[i - sw.len()]);
                    }
                } else {
                    assert(m2[i] == sa[i - m1.len()]);
                }
            } else {
                assert(m[i] == sd[i - m2.len()]);
            }
        }
        if sw.contains(x) {
            assert(m[0] == sw[0]);
        }
        if ss.contains(x) {
            assert(m[sw.len() as int] == ss[0]);
        }
        if sa.contains(x) {
            assert(m[m1.len() as int] == sa[0]);
        }
        if sd.contains(x) {
            assert(m[m2.len() as int] == sd[0]);
        }
    }
    assert(sw.contains(CameraMovement::Forward) == w) by {
        if w {
            assert(sw[0] == CameraMovement::Forward);
        }
    }
    assert(ss.contains(CameraMovement::Backward) == s) by {
        if s {
            assert(ss[0] == CameraMovement::Backward);
        }
    }
    assert(sa.contains(CameraMovement::Left) == a) by {
        if a {
            assert(sa[0] == CameraMovement::Left);
        }
    }
    assert(sd.contains(CameraMovement::Right) == d) by {
        if d {
            assert(sd[0] == CameraMovement::Right);
        }
    }
    assert forall|i: int, j: int| 0 <= i < j < m.len() implies movement_rank(#[trigger] m[i])
        < movement_rank(#[trigger] m[j]) by {
        assert forall|k: int| 0 <= k < m.len() implies (#[trigger] m[k] == (if k < sw.len() {
            CameraMovement::Forward
        } else if k < m1.len() {
            CameraMovement::Backward
        } else if k < m2.len() {
            CameraMovement::Left
        } else {
            CameraMovement::Right
        })) by {
            if k < m2.len() {
                assert(m[k] == m2[k]);
                if k < m1.len() {
                    assert(m2[k] == m1[k]);
                    if k < sw.len() {
                        assert(m1[k] == sw[k]);
                    } else {
                        assert(m1[k] == ss[k - sw.len()]);
                    }
                } else {
                    assert(m2[k] == sa[k - m1.len()]);
                }
            } else {
                assert(m[k] == sd[k - m2.len()]);
            }
        }
    }
}

} // verus!
