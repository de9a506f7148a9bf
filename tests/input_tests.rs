use blithaven::InputState;

#[test]
fn key_events_toggle_held_keys_in_order() {
    let mut s = InputState::new();
    s.key_event(5);
    s.key_event(9);
    s.key_event(7);
    assert_eq!(s.keys_pressed(), vec![5, 9, 7]);
    assert!(s.key_pressed(9));
    s.key_event(9);
    assert!(!s.key_pressed(9));
    assert_eq!(s.keys_pressed(), vec![5, 7]);
}

#[test]
fn button_events_toggle_held_buttons() {
    let mut s = InputState::new();
    s.button_event(1);
    s.button_event(0);
    assert_eq!(s.mouse_clicks(), vec![1, 0]);
    s.button_event(1);
    assert_eq!(s.mouse_clicks(), vec![0]);
    assert!(s.keys_pressed().is_empty());
}

#[test]
fn key_press_fires_once_per_press() {
    let mut s = InputState::new();
    assert!(!s.key_press(3));
    s.key_event(3);
    assert!(s.key_press(3));
    assert!(!s.key_press(3));
    s.key_event(3);
    assert!(!s.key_press(3));
    s.key_event(3);
    assert!(s.key_press(3));
}

#[test]
fn key_release_starts_latched() {
    let mut s = InputState::new();
    s.key_event(4);
    assert!(!s.key_release(4));
    s.key_event(4);
    assert!(!s.key_release(4));
    s.key_event(4);
    assert!(s.key_release(4));
}

#[test]
fn mouse_clicked_fires_once_per_click() {
    let mut s = InputState::new();
    s.button_event(2);
    assert!(s.mouse_clicked(2));
    assert!(!s.mouse_clicked(2));
    s.button_event(2);
    assert!(!s.mouse_clicked(2));
    s.button_event(2);
    assert!(s.mouse_clicked(2));
}

#[test]
fn mouse_released_fires_when_button_goes_up() {
    let mut s = InputState::new();
    assert!(!s.mouse_released(0));
    s.button_event(0);
    assert!(!s.mouse_released(0));
    s.button_event(0);
    assert!(s.mouse_released(0));
    assert!(!s.mouse_released(0));
}

use blithaven::{LoopAction, LoopEvent, Ticker, TICK_NANOS};

#[test]
fn ticker_runs_frames_and_exits_after_close() {
    let mut t = Ticker::new();
    assert_eq!(t.on_event(LoopEvent::Tick), LoopAction::RunFrame);
    assert_eq!(t.on_event(LoopEvent::Other), LoopAction::Buffer);
    assert_eq!(t.on_event(LoopEvent::Tick), LoopAction::RunFrame);
    assert_eq!(t.on_event(LoopEvent::CloseRequested), LoopAction::Buffer);
    assert_eq!(t.on_event(LoopEvent::Other), LoopAction::Buffer);
    assert_eq!(t.on_event(LoopEvent::Tick), LoopAction::RunFrameAndExit);
    assert_eq!(TICK_NANOS, 16_666_667);
}
