use learn_opengl::input::{
    held_movements, window_action, window_actions, CameraMovement, WindowAction, WindowEvent,
};

#[test]
fn resize_moves_viewport() {
    assert_eq!(
        window_action(WindowEvent::FramebufferSize(1600, 1200)),
        Some(WindowAction::SetViewport(1600, 1200))
    );
}

#[test]
fn escape_closes_window() {
    assert_eq!(window_action(WindowEvent::EscapePressed), Some(WindowAction::Close));
}

#[test]
fn other_events_are_ignored() {
    assert_eq!(window_action(WindowEvent::Other), None);
}

#[test]
fn batch_keeps_event_order() {
    let events = vec![
        WindowEvent::Other,
        WindowEvent::FramebufferSize(800, 600),
        WindowEvent::EscapePressed,
        WindowEvent::Other,
        WindowEvent::FramebufferSize(10, 20),
    ];
    assert_eq!(
        window_actions(&events),
        vec![
            WindowAction::SetViewport(800, 600),
            WindowAction::Close,
            WindowAction::SetViewport(10, 20)
        ]
    );
    assert!(window_actions(&vec![]).is_empty());
}

#[test]
fn held_keys_give_movements_in_order() {
    assert_eq!(
        held_movements(true, true, true, true),
        vec![
            CameraMovement::Forward,
            CameraMovement::Backward,
            CameraMovement::Left,
            CameraMovement::Right
        ]
    );
    assert_eq!(held_movements(false, true, false, true), vec![CameraMovement::Backward, CameraMovement::Right]);
    assert!(held_movements(false, false, false, false).is_empty());
}
