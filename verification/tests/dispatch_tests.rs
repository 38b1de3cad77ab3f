use nwv_shell::codec::{InboundCommand, OutboundEvent};
use nwv_shell::dispatch::{LoopMode, ShellCore};

fn fresh() -> ShellCore {
    let (core, _) = ShellCore::boot(String::from("Native WebView"), false);
    core
}

#[test]
fn boot_emits_exactly_start() {
    let (core, emits) = ShellCore::boot(String::from("Demo"), false);
    assert_eq!(emits, vec![OutboundEvent::Start]);
    assert_eq!(core.surface.title, "Demo");
    assert!(core.surface.decorations);
    assert!(core.surface.resizable);
    assert!(!core.surface.fullscreen);
    assert_eq!(core.mode, LoopMode::Running);
}

#[test]
fn transparent_boot_drops_decorations() {
    let (core, _) = ShellCore::boot(String::from("t"), true);
    assert!(!core.surface.decorations);
}

#[test]
fn title_command_sets_title_and_emits_nothing() {
    let mut core = fresh();
    let emits = core.apply(InboundCommand::SetTitle { title: String::from("Demo") });
    assert_eq!(core.surface.title, "Demo");
    assert!(emits.is_empty());
    assert_eq!(core.mode, LoopMode::Running);
}

#[test]
fn close_emits_end_and_terminates() {
    let mut core = fresh();
    let emits = core.apply(InboundCommand::Close);
    assert_eq!(emits, vec![OutboundEvent::End]);
    assert_eq!(core.mode, LoopMode::Terminating);
}

#[test]
fn external_close_behaves_like_close() {
    let mut core = fresh();
    let emits = core.external_close();
    assert_eq!(emits, vec![OutboundEvent::End]);
    assert_eq!(core.mode, LoopMode::Terminating);
}

#[test]
fn nothing_processed_after_close() {
    let mut core = fresh();
    let emits = core.drain(vec![
        InboundCommand::Close,
        InboundCommand::SetTitle { title: String::from("late") },
    ]);
    assert_eq!(emits, vec![OutboundEvent::End]);
    assert_eq!(core.surface.title, "Native WebView");
    assert_eq!(core.mode, LoopMode::Terminating);
}

#[test]
fn commands_apply_in_arrival_order() {
    let mut core = fresh();
    let emits = core.drain(vec![
        InboundCommand::SetTitle { title: String::from("first") },
        InboundCommand::SetResizable { resizable: false },
        InboundCommand::SetTitle { title: String::from("second") },
    ]);
    assert!(emits.is_empty());
    assert_eq!(core.surface.title, "second");
    assert!(!core.surface.resizable);
}

#[test]
fn fullscreen_twice_equals_once() {
    let mut once = fresh();
    once.apply(InboundCommand::SetFullscreen { fullscreen: true });
    let mut twice = fresh();
    twice.apply(InboundCommand::SetFullscreen { fullscreen: true });
    let emits = twice.apply(InboundCommand::SetFullscreen { fullscreen: true });
    assert!(emits.is_empty());
    assert_eq!(once.surface.fullscreen, twice.surface.fullscreen);
    assert_eq!(once.surface.title, twice.surface.title);
    assert_eq!(once.mode, twice.mode);
}

#[test]
fn resizable_false_twice_is_noop_second_time() {
    let mut core = fresh();
    core.apply(InboundCommand::SetResizable { resizable: false });
    let before = core.surface.resizable;
    let emits = core.apply(InboundCommand::SetResizable { resizable: false });
    assert!(emits.is_empty());
    assert_eq!(core.surface.resizable, before);
    assert!(!core.surface.resizable);
}

#[test]
fn setters_update_their_attribute() {
    let mut core = fresh();
    core.apply(InboundCommand::Focus);
    assert!(core.surface.focused);
    core.apply(InboundCommand::SetWindowIcon { path: String::from("/tmp/i.png") });
    assert_eq!(core.surface.window_icon.as_deref(), Some("/tmp/i.png"));
    core.apply(InboundCommand::SetInnerSize {
        width: String::from("800"),
        height: String::from("600"),
    });
    assert_eq!(
        core.surface.inner_size,
        Some((String::from("800"), String::from("600")))
    );
    core.apply(InboundCommand::SetOuterPosition {
        top: String::from("-5"),
        left: String::from("10"),
    });
    assert_eq!(
        core.surface.outer_position,
        Some((String::from("-5"), String::from("10")))
    );
    core.apply(InboundCommand::SetAlwaysOnTop { always: true });
    assert!(core.surface.always_on_top);
    core.apply(InboundCommand::SetMaximized { maximized: true });
    assert!(core.surface.maximized);
    core.apply(InboundCommand::SetMinimized { minimized: true });
    assert!(core.surface.minimized);
    core.apply(InboundCommand::SetDevtools { devtools: true });
    assert!(core.surface.devtools_open);
    let emits = core.apply(InboundCommand::Eval { script: String::from("1+1") });
    assert!(emits.is_empty());
    assert_eq!(core.mode, LoopMode::Running);
}
