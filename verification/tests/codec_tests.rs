use nwv_shell::codec::{
    decode_inbound, decode_notification, decode_outbound, file_drop_event, forward_notification,
    frame_event, route_line, DecodeError, FileDrop, FrontEndError, FrontEndNotification, Inbound,
    InboundCommand, OutboundEvent, PathRecord, Routed,
};

fn round_trips(e: OutboundEvent) {
    let line = frame_event(&e);
    assert_eq!(decode_outbound(&line), Ok(e));
}

#[test]
fn start_frame_is_exact() {
    assert_eq!(frame_event(&OutboundEvent::Start), "_ioc:{\"type\":\"start\"}");
}

#[test]
fn end_frame_is_exact() {
    assert_eq!(frame_event(&OutboundEvent::End), "_ioc:{\"type\":\"end\"}");
}

#[test]
fn path_request_frame_is_exact() {
    let e = OutboundEvent::PathRequest { url: String::from("nwv://index.html") };
    assert_eq!(frame_event(&e), "_ioc:{\"type\":\"path\",\"url\":\"nwv://index.html\"}");
}

#[test]
fn round_trip_start() {
    round_trips(OutboundEvent::Start);
}

#[test]
fn round_trip_end() {
    round_trips(OutboundEvent::End);
}

#[test]
fn round_trip_user_message() {
    round_trips(OutboundEvent::UserMessage { message: String::from("{\"k\":[1,2]}") });
}

#[test]
fn round_trip_log() {
    round_trips(OutboundEvent::Log { log: String::from("a \"quoted\" \\ line\nwith\tcontrols\u{8}\u{c}\u{1}") });
}

#[test]
fn round_trip_path_request() {
    round_trips(OutboundEvent::PathRequest { url: String::from("nwv://index.html") });
}

#[test]
fn round_trip_error_report() {
    round_trips(OutboundEvent::ErrorReport {
        error: FrontEndError {
            message: String::from("boom"),
            source: String::from("nwv://app.js"),
            line: 42,
            column: 7,
            stack: String::from("Error: boom\n  at main"),
        },
    });
}

#[test]
fn round_trip_error_report_extreme_numbers() {
    round_trips(OutboundEvent::ErrorReport {
        error: FrontEndError {
            message: String::new(),
            source: String::new(),
            line: 0,
            column: u64::MAX,
            stack: String::new(),
        },
    });
}

#[test]
fn round_trip_file_drop_hovered() {
    round_trips(OutboundEvent::FileDropHovered {
        paths: vec![String::from("/tmp/a.txt"), String::from("/tmp/b c.png")],
    });
}

#[test]
fn round_trip_file_drop_dropped_empty() {
    round_trips(OutboundEvent::FileDropDropped { paths: vec![] });
}

#[test]
fn round_trip_file_drop_cancelled() {
    round_trips(OutboundEvent::FileDropCancelled);
}

#[test]
fn decode_outbound_rejects_unframed_line() {
    assert_eq!(
        decode_outbound("{\"type\":\"start\"}"),
        Err(DecodeError::Unrecognized)
    );
}

#[test]
fn decode_title_command() {
    assert_eq!(
        decode_inbound("{\"type\":\"title\",\"title\":\"Demo\"}"),
        Ok(Inbound::Command(InboundCommand::SetTitle { title: String::from("Demo") }))
    );
}

#[test]
fn decode_close_command() {
    assert_eq!(
        decode_inbound("{\"type\":\"close\"}"),
        Ok(Inbound::Command(InboundCommand::Close))
    );
}

#[test]
fn decode_focus_command() {
    assert_eq!(
        decode_inbound("{\"type\":\"focus\"}"),
        Ok(Inbound::Command(InboundCommand::Focus))
    );
}

#[test]
fn decode_eval_command() {
    assert_eq!(
        decode_inbound("{\"type\":\"eval\",\"js\":\"console.log(1)\"}"),
        Ok(Inbound::Command(InboundCommand::Eval { script: String::from("console.log(1)") }))
    );
}

#[test]
fn decode_window_icon_command() {
    assert_eq!(
        decode_inbound("{\"type\":\"windowIcon\",\"path\":\"/tmp/icon.png\"}"),
        Ok(Inbound::Command(InboundCommand::SetWindowIcon { path: String::from("/tmp/icon.png") }))
    );
}

#[test]
fn decode_resizable_command() {
    assert_eq!(
        decode_inbound("{\"type\":\"resizable\",\"resizable\":false}"),
        Ok(Inbound::Command(InboundCommand::SetResizable { resizable: false }))
    );
}

#[test]
fn decode_inner_size_keeps_raw_tokens() {
    assert_eq!(
        decode_inbound("{\"type\":\"innerSize\",\"width\":1280.5,\"height\":720}"),
        Ok(Inbound::Command(InboundCommand::SetInnerSize {
            width: String::from("1280.5"),
            height: String::from("720"),
        }))
    );
}

#[test]
fn decode_min_and_max_size() {
    assert_eq!(
        decode_inbound("{\"type\":\"minInnerSize\",\"width\":100,\"height\":50}"),
        Ok(Inbound::Command(InboundCommand::SetMinSize {
            width: String::from("100"),
            height: String::from("50"),
        }))
    );
    assert_eq!(
        decode_inbound("{\"type\":\"maxInnerSize\",\"width\":1e3,\"height\":2E2}"),
        Ok(Inbound::Command(InboundCommand::SetMaxSize {
            width: String::from("1e3"),
            height: String::from("2E2"),
        }))
    );
}

#[test]
fn decode_outer_position_negative() {
    assert_eq!(
        decode_inbound("{\"type\":\"outerPosition\",\"top\":-10.25,\"left\":0}"),
        Ok(Inbound::Command(InboundCommand::SetOuterPosition {
            top: String::from("-10.25"),
            left: String::from("0"),
        }))
    );
}

#[test]
fn decode_boolean_commands() {
    assert_eq!(
        decode_inbound("{\"type\":\"alwaysOnTop\",\"always\":true}"),
        Ok(Inbound::Command(InboundCommand::SetAlwaysOnTop { always: true }))
    );
    assert_eq!(
        decode_inbound("{\"type\":\"decorations\",\"decorations\":false}"),
        Ok(Inbound::Command(InboundCommand::SetDecorations { decorations: false }))
    );
    assert_eq!(
        decode_inbound("{\"type\":\"fullscreen\",\"fullscreen\":true}"),
        Ok(Inbound::Command(InboundCommand::SetFullscreen { fullscreen: true }))
    );
    assert_eq!(
        decode_inbound("{\"type\":\"maximized\",\"maximized\":true}"),
        Ok(Inbound::Command(InboundCommand::SetMaximized { maximized: true }))
    );
    assert_eq!(
        decode_inbound("{\"type\":\"minimized\",\"minimized\":false}"),
        Ok(Inbound::Command(InboundCommand::SetMinimized { minimized: false }))
    );
    assert_eq!(
        decode_inbound("{\"type\":\"devtools\",\"devtools\":true}"),
        Ok(Inbound::Command(InboundCommand::SetDevtools { devtools: true }))
    );
}

#[test]
fn decode_path_record() {
    assert_eq!(
        decode_inbound("{\"url\":\"nwv://index.html\",\"path\":\"/abs/index.html\",\"mimetype\":\"text/html\"}"),
        Ok(Inbound::Record(PathRecord {
            url: String::from("nwv://index.html"),
            local_path: String::from("/abs/index.html"),
            mime_type: String::from("text/html"),
        }))
    );
}

#[test]
fn record_shape_wins_over_command_shape() {
    assert_eq!(
        decode_inbound("{\"type\":\"close\",\"url\":\"u\",\"path\":\"p\",\"mimetype\":\"m\"}"),
        Ok(Inbound::Record(PathRecord {
            url: String::from("u"),
            local_path: String::from("p"),
            mime_type: String::from("m"),
        }))
    );
}

#[test]
fn decode_tolerates_whitespace_and_field_order() {
    assert_eq!(
        decode_inbound(" { \"title\" : \"Demo\" , \"type\" : \"title\" } "),
        Ok(Inbound::Command(InboundCommand::SetTitle { title: String::from("Demo") }))
    );
}

#[test]
fn decode_bogus_line_is_unrecognized() {
    assert_eq!(decode_inbound("{\"type\":\"bogus\"}"), Err(DecodeError::Unrecognized));
}

#[test]
fn decode_malformed_line_is_unrecognized() {
    assert_eq!(decode_inbound("not json at all"), Err(DecodeError::Unrecognized));
    assert_eq!(decode_inbound(""), Err(DecodeError::Unrecognized));
    assert_eq!(decode_inbound("{\"type\":\"title\"}"), Err(DecodeError::Unrecognized));
}

#[test]
fn route_line_strips_sentinel() {
    assert_eq!(
        route_line("_ioc:{\"type\":\"close\"}"),
        Routed::Command(InboundCommand::Close)
    );
}

#[test]
fn route_line_without_sentinel() {
    assert_eq!(
        route_line("{\"url\":\"u\",\"path\":\"p\",\"mimetype\":\"m\"}"),
        Routed::Record(PathRecord {
            url: String::from("u"),
            local_path: String::from("p"),
            mime_type: String::from("m"),
        })
    );
}

#[test]
fn route_line_ignores_noise() {
    assert_eq!(route_line("free-form log output"), Routed::Ignored);
    assert_eq!(route_line("{\"type\":\"bogus\"}"), Routed::Ignored);
}

#[test]
fn decode_notification_log() {
    assert_eq!(
        decode_notification("{\"type\":\"log\",\"log\":\"[\\\"hi\\\"]\"}"),
        Ok(FrontEndNotification::Log { log: String::from("[\"hi\"]") })
    );
}

#[test]
fn decode_notification_message() {
    assert_eq!(
        decode_notification("{\"type\":\"message\",\"message\":\"m\"}"),
        Ok(FrontEndNotification::UserMessage { message: String::from("m") })
    );
}

#[test]
fn decode_notification_error() {
    assert_eq!(
        decode_notification(
            "{\"type\":\"error\",\"message\":\"x\",\"source\":\"s\",\"line\":3,\"column\":4,\"stack\":\"\"}"
        ),
        Ok(FrontEndNotification::ErrorReport {
            error: FrontEndError {
                message: String::from("x"),
                source: String::from("s"),
                line: 3,
                column: 4,
                stack: String::new(),
            }
        })
    );
}

#[test]
fn decode_notification_rejects_overflowing_line_number() {
    assert_eq!(
        decode_notification(
            "{\"type\":\"error\",\"message\":\"\",\"source\":\"\",\"line\":99999999999999999999,\"column\":0,\"stack\":\"\"}"
        ),
        Err(DecodeError::Unrecognized)
    );
}

#[test]
fn forwarded_notifications_translate_one_to_one() {
    let fwd = forward_notification(FrontEndNotification::Log { log: String::from("x") });
    assert_eq!(fwd, OutboundEvent::Log { log: String::from("x") });
    let line = frame_event(&fwd);
    assert_eq!(line, "_ioc:{\"type\":\"log\",\"log\":\"x\"}");
}

#[test]
fn file_drop_events_translate_one_to_one() {
    let hovered = file_drop_event(FileDrop::Hovered { paths: vec![String::from("/tmp/a")] });
    assert_eq!(hovered, OutboundEvent::FileDropHovered { paths: vec![String::from("/tmp/a")] });
    assert_eq!(frame_event(&hovered), "_ioc:{\"type\":\"fileDropHovered\",\"paths\":[\"/tmp/a\"]}");
    let dropped = file_drop_event(FileDrop::Dropped { paths: vec![] });
    assert_eq!(frame_event(&dropped), "_ioc:{\"type\":\"fileDropDropped\",\"paths\":[]}");
    let cancelled = file_drop_event(FileDrop::Cancelled);
    assert_eq!(frame_event(&cancelled), "_ioc:{\"type\":\"fileDropCancelled\"}");
}

#[test]
fn decode_accepts_general_unicode_escapes() {
    assert_eq!(
        decode_inbound("{\"type\":\"title\",\"title\":\"\\u0041\\u00e9\\u20ac\"}"),
        Ok(Inbound::Command(InboundCommand::SetTitle { title: String::from("A\u{e9}\u{20ac}") }))
    );
}

#[test]
fn decode_accepts_surrogate_pairs() {
    assert_eq!(
        decode_inbound("{\"type\":\"title\",\"title\":\"\\ud83d\\ude00\"}"),
        Ok(Inbound::Command(InboundCommand::SetTitle { title: String::from("\u{1f600}") }))
    );
}

#[test]
fn decode_rejects_lone_surrogates() {
    assert_eq!(
        decode_inbound("{\"type\":\"title\",\"title\":\"\\ud83d\"}"),
        Err(DecodeError::Unrecognized)
    );
    assert_eq!(
        decode_inbound("{\"type\":\"title\",\"title\":\"\\ude00\"}"),
        Err(DecodeError::Unrecognized)
    );
}

#[test]
fn decode_accepts_control_escapes() {
    assert_eq!(
        decode_inbound("{\"type\":\"title\",\"title\":\"a\\u0000b\\u001fc\"}"),
        Ok(Inbound::Command(InboundCommand::SetTitle { title: String::from("a\u{0}b\u{1f}c") }))
    );
}
