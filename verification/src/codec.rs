//! The frame codec of the control protocol.
//!
//! Outbound events are framed as one sentinel-prefixed JSON line each;
//! inbound lines decode to a path-resolution record, an inbound command,
//! or a decode error that the caller logs and drops.

use vstd::prelude::*;
use crate::json::{
    Scalar, ScalarV, strs_view, pairs_view, render_obj, render_obj_x, dec_str, dec_str_x, lookup,
    lookup_x, parse_obj_text, parse_obj_chars, to_u64_v, parse_u64_x, wf_pairs, wf_scalar,
    lemma_render_obj_parses, lemma_dec_num_ok, lemma_to_u64_dec,
};
use crate::text::{chars_of, string_from_chars, chars_eq};
use vstd::slice::slice_subrange;

verus! {

// ---------------------------------------------------------------------------
// Protocol data
// ---------------------------------------------------------------------------

/// An uncaught error reported by the embedded content layer.
#[derive(Debug, PartialEq)]
pub struct FrontEndError {
    pub message: String,
    pub source: String,
    pub line: u64,
    pub column: u64,
    pub stack: String,
}

pub struct FrontEndErrorV {
    pub message: Seq<char>,
    pub source: Seq<char>,
    pub line: u64,
    pub column: u64,
    pub stack: Seq<char>,
}

impl View for FrontEndError {
    type V = FrontEndErrorV;

    open spec fn view(&self) -> FrontEndErrorV {
        FrontEndErrorV {
            message: self.message@,
            source: self.source@,
            line: self.line,
            column: self.column,
            stack: self.stack@,
        }
    }
}

/// An event the shell sends to the controller.
#[derive(Debug, PartialEq)]
pub enum OutboundEvent {
    Start,
    End,
    UserMessage { message: String },
    Log { log: String },
    PathRequest { url: String },
    ErrorReport { error: FrontEndError },
    FileDropHovered { paths: Vec<String> },
    FileDropDropped { paths: Vec<String> },
    FileDropCancelled,
}

pub enum OutboundEventV {
    Start,
    End,
    UserMessage { message: Seq<char> },
    Log { log: Seq<char> },
    PathRequest { url: Seq<char> },
    ErrorReport { error: FrontEndErrorV },
    FileDropHovered { paths: Seq<Seq<char>> },
    FileDropDropped { paths: Seq<Seq<char>> },
    FileDropCancelled,
}

impl View for OutboundEvent {
    type V = OutboundEventV;

    open spec fn view(&self) -> OutboundEventV {
        match self {
            OutboundEvent::Start => OutboundEventV::Start,
            OutboundEvent::End => OutboundEventV::End,
            OutboundEvent::UserMessage { message } => OutboundEventV::UserMessage {
                message: message@,
            },
            OutboundEvent::Log { log } => OutboundEventV::Log { log: log@ },
            OutboundEvent::PathRequest { url } => OutboundEventV::PathRequest { url: url@ },
            OutboundEvent::ErrorReport { error } => OutboundEventV::ErrorReport { error: error@ },
            OutboundEvent::FileDropHovered { paths } => OutboundEventV::FileDropHovered {
                paths: paths.deep_view(),
            },
            OutboundEvent::FileDropDropped { paths } => OutboundEventV::FileDropDropped {
                paths: paths.deep_view(),
            },
            OutboundEvent::FileDropCancelled => OutboundEventV::FileDropCancelled,
        }
    }
}

/// A command the controller sends to the shell.  Numeric fields keep their
/// raw wire token: the protocol passes sizes and positions through without
/// interpreting their range; the surface owns clamping.
#[derive(Debug, PartialEq)]
pub enum InboundCommand {
    Focus,
    Close,
    Eval { script: String },
    SetTitle { title: String },
    SetWindowIcon { path: String },
    SetResizable { resizable: bool },
    SetInnerSize { width: String, height: String },
    SetMinSize { width: String, height: String },
    SetMaxSize { width: String, height: String },
    SetOuterPosition { top: String, left: String },
    SetAlwaysOnTop { always: bool },
    SetDecorations { decorations: bool },
    SetFullscreen { fullscreen: bool },
    SetMaximized { maximized: bool },
    SetMinimized { minimized: bool },
    SetDevtools { devtools: bool },
}

pub enum InboundCommandV {
    Focus,
    Close,
    Eval { script: Seq<char> },
    SetTitle { title: Seq<char> },
    SetWindowIcon { path: Seq<char> },
    SetResizable { resizable: bool },
    SetInnerSize { width: Seq<char>, height: Seq<char> },
    SetMinSize { width: Seq<char>, height: Seq<char> },
    SetMaxSize { width: Seq<char>, height: Seq<char> },
    SetOuterPosition { top: Seq<char>, left: Seq<char> },
    SetAlwaysOnTop { always: bool },
    SetDecorations { decorations: bool },
    SetFullscreen { fullscreen: bool },
    SetMaximized { maximized: bool },
    SetMinimized { minimized: bool },
    SetDevtools { devtools: bool },
}

impl View for InboundCommand {
    type V = InboundCommandV;

    open spec fn view(&self) -> InboundCommandV {
        match self {
            InboundCommand::Focus => InboundCommandV::Focus,
            InboundCommand::Close => InboundCommandV::Close,
            InboundCommand::Eval { script } => InboundCommandV::Eval { script: script@ },
            InboundCommand::SetTitle { title } => InboundCommandV::SetTitle { title: title@ },
            InboundCommand::SetWindowIcon { path } => InboundCommandV::SetWindowIcon {
                path: path@,
            },
            InboundCommand::SetResizable { resizable } => InboundCommandV::SetResizable {
                resizable: *resizable,
            },
            InboundCommand::SetInnerSize { width, height } => InboundCommandV::SetInnerSize {
                width: width@,
                height: height@,
            },
            InboundCommand::SetMinSize { width, height } => InboundCommandV::SetMinSize {
                width: width@,
                height: height@,
            },
            InboundCommand::SetMaxSize { width, height } => InboundCommandV::SetMaxSize {
                width: width@,
                height: height@,
            },
            InboundCommand::SetOuterPosition { top, left } => InboundCommandV::SetOuterPosition {
                top: top@,
                left: left@,
            },
            InboundCommand::SetAlwaysOnTop { always } => InboundCommandV::SetAlwaysOnTop {
                always: *always,
            },
            InboundCommand::SetDecorations { decorations } => InboundCommandV::SetDecorations {
                decorations: *decorations,
            },
            InboundCommand::SetFullscreen { fullscreen } => InboundCommandV::SetFullscreen {
                fullscreen: *fullscreen,
            },
            InboundCommand::SetMaximized { maximized } => InboundCommandV::SetMaximized {
                maximized: *maximized,
            },
            InboundCommand::SetMinimized { minimized } => InboundCommandV::SetMinimized {
                minimized: *minimized,
            },
            InboundCommand::SetDevtools { devtools } => InboundCommandV::SetDevtools {
                devtools: *devtools,
            },
        }
    }
}

/// The controller's answer to a path request.
#[derive(Debug, PartialEq)]
pub struct PathRecord {
    pub url: String,
    pub local_path: String,
    pub mime_type: String,
}

pub struct PathRecordV {
    pub url: Seq<char>,
    pub local_path: Seq<char>,
    pub mime_type: Seq<char>,
}

impl View for PathRecord {
    type V = PathRecordV;

    open spec fn view(&self) -> PathRecordV {
        PathRecordV { url: self.url@, local_path: self.local_path@, mime_type: self.mime_type@ }
    }
}

/// A notification originated inside the embedded content layer.
#[derive(Debug, PartialEq)]
pub enum FrontEndNotification {
    Log { log: String },
    UserMessage { message: String },
    ErrorReport { error: FrontEndError },
}

pub enum FrontEndNotificationV {
    Log { log: Seq<char> },
    UserMessage { message: Seq<char> },
    ErrorReport { error: FrontEndErrorV },
}

impl View for FrontEndNotification {
    type V = FrontEndNotificationV;

    open spec fn view(&self) -> FrontEndNotificationV {
        match self {
            FrontEndNotification::Log { log } => FrontEndNotificationV::Log { log: log@ },
            FrontEndNotification::UserMessage { message } => FrontEndNotificationV::UserMessage {
                message: message@,
            },
            FrontEndNotification::ErrorReport { error } => FrontEndNotificationV::ErrorReport {
                error: error@,
            },
        }
    }
}

/// Decoding failure: the line matched no protocol shape.  The reader logs
/// it and carries on; decoding never aborts the process.
#[derive(Clone, Copy, PartialEq, Eq, Structural, Debug)]
pub enum DecodeError {
    Unrecognized,
}

/// A successfully decoded inbound line.
#[derive(Debug, PartialEq)]
pub enum Inbound {
    Record(PathRecord),
    Command(InboundCommand),
}

pub enum InboundV {
    Record(PathRecordV),
    Command(InboundCommandV),
}

impl View for Inbound {
    type V = InboundV;

    open spec fn view(&self) -> InboundV {
        match self {
            Inbound::Record(r) => InboundV::Record(r@),
            Inbound::Command(c) => InboundV::Command(c@),
        }
    }
}

// ---------------------------------------------------------------------------
// Framing
// ---------------------------------------------------------------------------

/// The sentinel that marks protocol-bearing lines on the shared stream.
pub open spec fn sentinel() -> Seq<char> {
    seq!['_', 'i', 'o', 'c', ':']
}

/// The members of the object that frames an outbound event.
pub open spec fn spec_fields_of(e: OutboundEventV) -> Seq<(Seq<char>, ScalarV)> {
    match e {
        OutboundEventV::Start => seq![("type"@, ScalarV::SStr("start"@))],
        OutboundEventV::End => seq![("type"@, ScalarV::SStr("end"@))],
        OutboundEventV::UserMessage { message } => seq![
            ("type"@, ScalarV::SStr("message"@)),
            ("message"@, ScalarV::SStr(message)),
        ],
        OutboundEventV::Log { log } => seq![
            ("type"@, ScalarV::SStr("log"@)),
            ("log"@, ScalarV::SStr(log)),
        ],
        OutboundEventV::PathRequest { url } => seq![
            ("type"@, ScalarV::SStr("path"@)),
            ("url"@, ScalarV::SStr(url)),
        ],
        OutboundEventV::ErrorReport { error } => seq![
            ("type"@, ScalarV::SStr("error"@)),
            ("message"@, ScalarV::SStr(error.message)),
            ("source"@, ScalarV::SStr(error.source)),
            ("line"@, ScalarV::SNum(dec_str(error.line as nat))),
            ("column"@, ScalarV::SNum(dec_str(error.column as nat))),
            ("stack"@, ScalarV::SStr(error.stack)),
        ],
        OutboundEventV::FileDropHovered { paths } => seq![
            ("type"@, ScalarV::SStr("fileDropHovered"@)),
            ("paths"@, ScalarV::SArr(paths)),
        ],
        OutboundEventV::FileDropDropped { paths } => seq![
            ("type"@, ScalarV::SStr("fileDropDropped"@)),
            ("paths"@, ScalarV::SArr(paths)),
        ],
        OutboundEventV::FileDropCancelled => seq![
            ("type"@, ScalarV::SStr("fileDropCancelled"@)),
        ],
    }
}

/// The full framed line of an outbound event.
pub open spec fn spec_frame(e: OutboundEventV) -> Seq<char> {
    sentinel() + render_obj(spec_fields_of(e))
}

fn strs_of(paths: &Vec<String>) -> (r: Vec<Vec<char>>)
    ensures
        strs_view(r@) == paths.deep_view(),
{
    let n = paths.len();
    let mut out: Vec<Vec<char>> = Vec::new();
    let mut i: usize = 0;
    while i < n
        invariant
            n == paths@.len(),
            i <= n,
            out@.len() == i,
            forall|k: int| 0 <= k < i ==> out@[k]@ == paths@[k]@,
        decreases n - i,
    {
        out.push(chars_of(paths[i].as_str()));
        i = i + 1;
    }
    proof {
        assert(strs_view(out@) =~= paths.deep_view());
    }
    out
}

fn strings_of(items: &Vec<Vec<char>>) -> (r: Vec<String>)
    ensures
        r.deep_view() == strs_view(items@),
{
    let n = items.len();
    let mut out: Vec<String> = Vec::new();
    let mut i: usize = 0;
    while i < n
        invariant
            n == items@.len(),
            i <= n,
            out@.len() == i,
            forall|k: int| 0 <= k < i ==> out@[k]@ == items@[k]@,
        decreases n - i,
    {
        out.push(string_from_chars(items[i].as_slice()));
        i = i + 1;
    }
    proof {
        assert(out.deep_view() =~= strs_view(items@));
    }
    out
}

fn name_val(name: &str, v: Scalar) -> (r: (Vec<char>, Scalar))
    ensures
        r.0@ == name@,
        r.1 == v,
{
    (chars_of(name), v)
}

fn str_scalar(s: &str) -> (r: Scalar)
    ensures
        r@ == ScalarV::SStr(s@),
{
    Scalar::SStr(chars_of(s))
}

/// Frame an outbound event as its sentinel-prefixed wire line.
pub fn frame_event(e: &OutboundEvent) -> (r: String)
    ensures
        r@ == spec_frame(e@),
{
    let mut pairs: Vec<(Vec<char>, Scalar)> = Vec::new();
    match e {
        OutboundEvent::Start => {
            pairs.push(name_val("type", str_scalar("start")));
        },
        OutboundEvent::End => {
            pairs.push(name_val("type", str_scalar("end")));
        },
        OutboundEvent::UserMessage { message } => {
            pairs.push(name_val("type", str_scalar("message")));
            pairs.push(name_val("message", str_scalar(message.as_str())));
        },
        OutboundEvent::Log { log } => {
            pairs.push(name_val("type", str_scalar("log")));
            pairs.push(name_val("log", str_scalar(log.as_str())));
        },
        OutboundEvent::PathRequest { url } => {
            pairs.push(name_val("type", str_scalar("path")));
            pairs.push(name_val("url", str_scalar(url.as_str())));
        },
        OutboundEvent::ErrorReport { error } => {
            pairs.push(name_val("type", str_scalar("error")));
            pairs.push(name_val("message", str_scalar(error.message.as_str())));
            pairs.push(name_val("source", str_scalar(error.source.as_str())));
            pairs.push(name_val("line", Scalar::SNum(dec_str_x(error.line))));
            pairs.push(name_val("column", Scalar::SNum(dec_str_x(error.column))));
            pairs.push(name_val("stack", str_scalar(error.stack.as_str())));
        },
        OutboundEvent::FileDropHovered { paths } => {
            pairs.push(name_val("type", str_scalar("fileDropHovered")));
            pairs.push(name_val("paths", Scalar::SArr(strs_of(paths))));
        },
        OutboundEvent::FileDropDropped { paths } => {
            pairs.push(name_val("type", str_scalar("fileDropDropped")));
            pairs.push(name_val("paths", Scalar::SArr(strs_of(paths))));
        },
        OutboundEvent::FileDropCancelled => {
            pairs.push(name_val("type", str_scalar("fileDropCancelled")));
        },
    }
    proof {
        assert(pairs_view(pairs@) =~= spec_fields_of(e@));
    }
    let mut out: Vec<char> = vec!['_', 'i', 'o', 'c', ':'];
    let mut body = render_obj_x(pairs.as_slice());
    out.append(&mut body);
    proof {
        assert(out@ =~= spec_frame(e@));
    }
    string_from_chars(out.as_slice())
}

// ---------------------------------------------------------------------------
// Field access helpers
// ---------------------------------------------------------------------------

fn str_is(s: &String, lit: &str) -> (r: bool)
    ensures
        r == (s@ == lit@),
{
    let a = chars_of(s.as_str());
    let b = chars_of(lit);
    chars_eq(a.as_slice(), b.as_slice())
}

fn get_str_field(ps: &Vec<(Vec<char>, Scalar)>, name: &str) -> (r: Option<String>)
    ensures
        match r {
            Some(s) => lookup(pairs_view(ps@), name@) == Some(ScalarV::SStr(s@)),
            None => !(lookup(pairs_view(ps@), name@) matches Some(ScalarV::SStr(_))),
        },
{
    let n = chars_of(name);
    match lookup_x(ps, n.as_slice()) {
        Some(i) => {
            let entry = &ps[i];
            match &entry.1 {
                Scalar::SStr(t) => Some(string_from_chars(t.as_slice())),
                _ => None,
            }
        },
        None => None,
    }
}

fn get_num_field(ps: &Vec<(Vec<char>, Scalar)>, name: &str) -> (r: Option<Vec<char>>)
    ensures
        match r {
            Some(t) => lookup(pairs_view(ps@), name@) == Some(ScalarV::SNum(t@)),
            None => !(lookup(pairs_view(ps@), name@) matches Some(ScalarV::SNum(_))),
        },
{
    let n = chars_of(name);
    match lookup_x(ps, n.as_slice()) {
        Some(i) => {
            let entry = &ps[i];
            match &entry.1 {
                Scalar::SNum(t) => Some(vstd::slice::slice_to_vec(t.as_slice())),
                _ => None,
            }
        },
        None => None,
    }
}

fn get_bool_field(ps: &Vec<(Vec<char>, Scalar)>, name: &str) -> (r: Option<bool>)
    ensures
        match r {
            Some(b) => lookup(pairs_view(ps@), name@) == Some(ScalarV::SBool(b)),
            None => !(lookup(pairs_view(ps@), name@) matches Some(ScalarV::SBool(_))),
        },
{
    let n = chars_of(name);
    match lookup_x(ps, n.as_slice()) {
        Some(i) => {
            let entry = &ps[i];
            match &entry.1 {
                Scalar::SBool(b) => Some(*b),
                _ => None,
            }
        },
        None => None,
    }
}

fn get_arr_field(ps: &Vec<(Vec<char>, Scalar)>, name: &str) -> (r: Option<Vec<String>>)
    ensures
        match r {
            Some(v) => lookup(pairs_view(ps@), name@) == Some(ScalarV::SArr(v.deep_view())),
            None => !(lookup(pairs_view(ps@), name@) matches Some(ScalarV::SArr(_))),
        },
{
    let n = chars_of(name);
    match lookup_x(ps, n.as_slice()) {
        Some(i) => {
            let entry = &ps[i];
            match &entry.1 {
                Scalar::SArr(items) => Some(strings_of(items)),
                _ => None,
            }
        },
        None => None,
    }
}

// ---------------------------------------------------------------------------
// The controller-side reader of framed outbound lines
// ---------------------------------------------------------------------------

/// Classification of a parsed outbound frame body.
pub open spec fn spec_classify_outbound(ps: Seq<(Seq<char>, ScalarV)>) -> Result<
    OutboundEventV,
    DecodeError,
> {
    match lookup(ps, "type"@) {
        Some(ScalarV::SStr(t)) => {
            if t == "start"@ {
                Ok(OutboundEventV::Start)
            } else if t == "end"@ {
                Ok(OutboundEventV::End)
            } else if t == "message"@ {
                match lookup(ps, "message"@) {
                    Some(ScalarV::SStr(m)) => Ok(OutboundEventV::UserMessage { message: m }),
                    _ => Err(DecodeError::Unrecognized),
                }
            } else if t == "log"@ {
                match lookup(ps, "log"@) {
                    Some(ScalarV::SStr(l)) => Ok(OutboundEventV::Log { log: l }),
                    _ => Err(DecodeError::Unrecognized),
                }
            } else if t == "path"@ {
                match lookup(ps, "url"@) {
                    Some(ScalarV::SStr(u)) => Ok(OutboundEventV::PathRequest { url: u }),
                    _ => Err(DecodeError::Unrecognized),
                }
            } else if t == "error"@ {
                match (
                    lookup(ps, "message"@),
                    lookup(ps, "source"@),
                    lookup(ps, "line"@),
                    lookup(ps, "column"@),
                    lookup(ps, "stack"@),
                ) {
                    (
                        Some(ScalarV::SStr(m)),
                        Some(ScalarV::SStr(src)),
                        Some(ScalarV::SNum(lt)),
                        Some(ScalarV::SNum(ct)),
                        Some(ScalarV::SStr(st)),
                    ) => match (to_u64_v(lt), to_u64_v(ct)) {
                        (Some(l), Some(c)) => Ok(
                            OutboundEventV::ErrorReport {
                                error: FrontEndErrorV {
                                    message: m,
                                    source: src,
                                    line: l,
                                    column: c,
                                    stack: st,
                                },
                            },
                        ),
                        _ => Err(DecodeError::Unrecognized),
                    },
                    _ => Err(DecodeError::Unrecognized),
                }
            } else if t == "fileDropHovered"@ {
                match lookup(ps, "paths"@) {
                    Some(ScalarV::SArr(items)) => Ok(OutboundEventV::FileDropHovered {
                        paths: items,
                    }),
                    _ => Err(DecodeError::Unrecognized),
                }
            } else if t == "fileDropDropped"@ {
                match lookup(ps, "paths"@) {
                    Some(ScalarV::SArr(items)) => Ok(OutboundEventV::FileDropDropped {
                        paths: items,
                    }),
                    _ => Err(DecodeError::Unrecognized),
                }
            } else if t == "fileDropCancelled"@ {
                Ok(OutboundEventV::FileDropCancelled)
            } else {
                Err(DecodeError::Unrecognized)
            }
        },
        _ => Err(DecodeError::Unrecognized),
    }
}

/// What the controller-side parser makes of a whole line.
pub open spec fn spec_decode_outbound(s: Seq<char>) -> Result<OutboundEventV, DecodeError> {
    if s.len() >= 5 && s.subrange(0, 5) == sentinel() {
        match parse_obj_text(s.skip(5)) {
            Some(ps) => spec_classify_outbound(ps),
            None => Err(DecodeError::Unrecognized),
        }
    } else {
        Err(DecodeError::Unrecognized)
    }
}

fn classify_outbound_x(ps: &Vec<(Vec<char>, Scalar)>) -> (r: Result<OutboundEvent, DecodeError>)
    ensures
        match r {
            Ok(ev) => spec_classify_outbound(pairs_view(ps@)) == Ok::<OutboundEventV, DecodeError>(
                ev@,
            ),
            Err(e) => spec_classify_outbound(pairs_view(ps@)) == Err::<OutboundEventV, DecodeError>(
                e,
            ),
        },
{
    let t = match get_str_field(ps, "type") {
        Some(t) => t,
        None => { return Err(DecodeError::Unrecognized) },
    };
    if str_is(&t, "start") {
        Ok(OutboundEvent::Start)
    } else if str_is(&t, "end") {
        Ok(OutboundEvent::End)
    } else if str_is(&t, "message") {
        match get_str_field(ps, "message") {
            Some(m) => Ok(OutboundEvent::UserMessage { message: m }),
            None => Err(DecodeError::Unrecognized),
        }
    } else if str_is(&t, "log") {
        match get_str_field(ps, "log") {
            Some(l) => Ok(OutboundEvent::Log { log: l }),
            None => Err(DecodeError::Unrecognized),
        }
    } else if str_is(&t, "path") {
        match get_str_field(ps, "url") {
            Some(u) => Ok(OutboundEvent::PathRequest { url: u }),
            None => Err(DecodeError::Unrecognized),
        }
    } else if str_is(&t, "error") {
        let m = match get_str_field(ps, "message") {
            Some(x) => x,
            None => { return Err(DecodeError::Unrecognized) },
        };
        let src = match get_str_field(ps, "source") {
            Some(x) => x,
            None => { return Err(DecodeError::Unrecognized) },
        };
        let lt = match get_num_field(ps, "line") {
            Some(x) => x,
            None => { return Err(DecodeError::Unrecognized) },
        };
        let ct = match get_num_field(ps, "column") {
            Some(x) => x,
            None => { return Err(DecodeError::Unrecognized) },
        };
        let st = match get_str_field(ps, "stack") {
            Some(x) => x,
            None => { return Err(DecodeError::Unrecognized) },
        };
        let l = match parse_u64_x(lt.as_slice()) {
            Some(x) => x,
            None => { return Err(DecodeError::Unrecognized) },
        };
        let c = match parse_u64_x(ct.as_slice()) {
            Some(x) => x,
            None => { return Err(DecodeError::Unrecognized) },
        };
        Ok(
            OutboundEvent::ErrorReport {
                error: FrontEndError { message: m, source: src, line: l, column: c, stack: st },
            },
        )
    } else if str_is(&t, "fileDropHovered") {
        match get_arr_field(ps, "paths") {
            Some(paths) => Ok(OutboundEvent::FileDropHovered { paths }),
            None => Err(DecodeError::Unrecognized),
        }
    } else if str_is(&t, "fileDropDropped") {
        match get_arr_field(ps, "paths") {
            Some(paths) => Ok(OutboundEvent::FileDropDropped { paths }),
            None => Err(DecodeError::Unrecognized),
        }
    } else if str_is(&t, "fileDropCancelled") {
        Ok(OutboundEvent::FileDropCancelled)
    } else {
        Err(DecodeError::Unrecognized)
    }
}

/// Decode a framed outbound line, as the controller does.
pub fn decode_outbound(line: &str) -> (r: Result<OutboundEvent, DecodeError>)
    ensures
        match r {
            Ok(ev) => spec_decode_outbound(line@) == Ok::<OutboundEventV, DecodeError>(ev@),
            Err(e) => spec_decode_outbound(line@) == Err::<OutboundEventV, DecodeError>(e),
        },
{
    let cs = chars_of(line);
    if cs.len() < 5 {
        return Err(DecodeError::Unrecognized);
    }
    let head = slice_subrange(cs.as_slice(), 0, 5);
    let sent: Vec<char> = vec!['_', 'i', 'o', 'c', ':'];
    proof {
        assert(sent@ =~= sentinel());
        assert(head@ =~= line@.subrange(0, 5));
    }
    if !chars_eq(head, sent.as_slice()) {
        return Err(DecodeError::Unrecognized);
    }
    let body = slice_subrange(cs.as_slice(), 5, cs.len());
    proof {
        assert(body@ =~= line@.skip(5));
    }
    match parse_obj_chars(body) {
        Some(ps) => classify_outbound_x(&ps),
        None => Err(DecodeError::Unrecognized),
    }
}

// ---------------------------------------------------------------------------
// Decoding inbound lines
// ---------------------------------------------------------------------------

/// Classification of a parsed inbound object: a path-resolution record
/// shape wins over any command shape.
pub open spec fn spec_classify_inbound(ps: Seq<(Seq<char>, ScalarV)>) -> Result<
    InboundV,
    DecodeError,
> {
    match (lookup(ps, "url"@), lookup(ps, "path"@), lookup(ps, "mimetype"@)) {
        (Some(ScalarV::SStr(u)), Some(ScalarV::SStr(p)), Some(ScalarV::SStr(m))) => Ok(
            InboundV::Record(PathRecordV { url: u, local_path: p, mime_type: m }),
        ),
        _ => match lookup(ps, "type"@) {
            Some(ScalarV::SStr(t)) => {
                if t == "focus"@ {
                    Ok(InboundV::Command(InboundCommandV::Focus))
                } else if t == "close"@ {
                    Ok(InboundV::Command(InboundCommandV::Close))
                } else if t == "eval"@ {
                    match lookup(ps, "js"@) {
                        Some(ScalarV::SStr(s)) => Ok(
                            InboundV::Command(InboundCommandV::Eval { script: s }),
                        ),
                        _ => Err(DecodeError::Unrecognized),
                    }
                } else if t == "title"@ {
                    match lookup(ps, "title"@) {
                        Some(ScalarV::SStr(s)) => Ok(
                            InboundV::Command(InboundCommandV::SetTitle { title: s }),
                        ),
                        _ => Err(DecodeError::Unrecognized),
                    }
                } else if t == "windowIcon"@ {
                    match lookup(ps, "path"@) {
                        Some(ScalarV::SStr(s)) => Ok(
                            InboundV::Command(InboundCommandV::SetWindowIcon { path: s }),
                        ),
                        _ => Err(DecodeError::Unrecognized),
                    }
                } else if t == "resizable"@ {
                    match lookup(ps, "resizable"@) {
                        Some(ScalarV::SBool(b)) => Ok(
                            InboundV::Command(InboundCommandV::SetResizable { resizable: b }),
                        ),
                        _ => Err(DecodeError::Unrecognized),
                    }
                } else if t == "innerSize"@ {
                    match (lookup(ps, "width"@), lookup(ps, "height"@)) {
                        (Some(ScalarV::SNum(w)), Some(ScalarV::SNum(h))) => Ok(
                            InboundV::Command(InboundCommandV::SetInnerSize { width: w, height: h }),
                        ),
                        _ => Err(DecodeError::Unrecognized),
                    }
                } else if t == "minInnerSize"@ {
                    match (lookup(ps, "width"@), lookup(ps, "height"@)) {
                        (Some(ScalarV::SNum(w)), Some(ScalarV::SNum(h))) => Ok(
                            InboundV::Command(InboundCommandV::SetMinSize { width: w, height: h }),
                        ),
                        _ => Err(DecodeError::Unrecognized),
                    }
                } else if t == "maxInnerSize"@ {
                    match (lookup(ps, "width"@), lookup(ps, "height"@)) {
                        (Some(ScalarV::SNum(w)), Some(ScalarV::SNum(h))) => Ok(
                            InboundV::Command(InboundCommandV::SetMaxSize { width: w, height: h }),
                        ),
                        _ => Err(DecodeError::Unrecognized),
                    }
                } else if t == "outerPosition"@ {
                    match (lookup(ps, "top"@), lookup(ps, "left"@)) {
                        (Some(ScalarV::SNum(tp)), Some(ScalarV::SNum(lf))) => Ok(
                            InboundV::Command(
                                InboundCommandV::SetOuterPosition { top: tp, left: lf },
                            ),
                        ),
                        _ => Err(DecodeError::Unrecognized),
                    }
                } else if t == "alwaysOnTop"@ {
                    match lookup(ps, "always"@) {
                        Some(ScalarV::SBool(b)) => Ok(
                            InboundV::Command(InboundCommandV::SetAlwaysOnTop { always: b }),
                        ),
                        _ => Err(DecodeError::Unrecognized),
                    }
                } else if t == "decorations"@ {
                    match lookup(ps, "decorations"@) {
                        Some(ScalarV::SBool(b)) => Ok(
                            InboundV::Command(InboundCommandV::SetDecorations { decorations: b }),
                        ),
                        _ => Err(DecodeError::Unrecognized),
                    }
                } else if t == "fullscreen"@ {
                    match lookup(ps, "fullscreen"@) {
                        Some(ScalarV::SBool(b)) => Ok(
                            InboundV::Command(InboundCommandV::SetFullscreen { fullscreen: b }),
                        ),
                        _ => Err(DecodeError::Unrecognized),
                    }
                } else if t == "maximized"@ {
                    match lookup(ps, "maximized"@) {
                        Some(ScalarV::SBool(b)) => Ok(
                            InboundV::Command(InboundCommandV::SetMaximized { maximized: b }),
                        ),
                        _ => Err(DecodeError::Unrecognized),
                    }
                } else if t == "minimized"@ {
                    match lookup(ps, "minimized"@) {
                        Some(ScalarV::SBool(b)) => Ok(
                            InboundV::Command(InboundCommandV::SetMinimized { minimized: b }),
                        ),
                        _ => Err(DecodeError::Unrecognized),
                    }
                } else if t == "devtools"@ {
                    match lookup(ps, "devtools"@) {
                        Some(ScalarV::SBool(b)) => Ok(
                            InboundV::Command(InboundCommandV::SetDevtools { devtools: b }),
                        ),
                        _ => Err(DecodeError::Unrecognized),
                    }
                } else {
                    Err(DecodeError::Unrecognized)
                }
            },
            _ => Err(DecodeError::Unrecognized),
        },
    }
}

/// What the shell makes of one inbound line: record first, then each
/// command shape, else a decode error — never a panic.
pub open spec fn spec_decode_inbound(s: Seq<char>) -> Result<InboundV, DecodeError> {
    match parse_obj_text(s) {
        Some(ps) => spec_classify_inbound(ps),
        None => Err(DecodeError::Unrecognized),
    }
}

fn classify_inbound_x(ps: &Vec<(Vec<char>, Scalar)>) -> (r: Result<Inbound, DecodeError>)
    ensures
        match r {
            Ok(d) => spec_classify_inbound(pairs_view(ps@)) == Ok::<InboundV, DecodeError>(d@),
            Err(e) => spec_classify_inbound(pairs_view(ps@)) == Err::<InboundV, DecodeError>(e),
        },
{
    let u_opt = get_str_field(ps, "url");
    let p_opt = get_str_field(ps, "path");
    let m_opt = get_str_field(ps, "mimetype");
    match (u_opt, p_opt, m_opt) {
        (Some(u), Some(p), Some(m)) => {
            return Ok(Inbound::Record(PathRecord { url: u, local_path: p, mime_type: m }));
        },
        _ => {},
    }
    let t = match get_str_field(ps, "type") {
        Some(t) => t,
        None => { return Err(DecodeError::Unrecognized) },
    };
    if str_is(&t, "focus") {
        Ok(Inbound::Command(InboundCommand::Focus))
    } else if str_is(&t, "close") {
        Ok(Inbound::Command(InboundCommand::Close))
    } else if str_is(&t, "eval") {
        match get_str_field(ps, "js") {
            Some(s) => Ok(Inbound::Command(InboundCommand::Eval { script: s })),
            None => Err(DecodeError::Unrecognized),
        }
    } else if str_is(&t, "title") {
        match get_str_field(ps, "title") {
            Some(s) => Ok(Inbound::Command(InboundCommand::SetTitle { title: s })),
            None => Err(DecodeError::Unrecognized),
        }
    } else if str_is(&t, "windowIcon") {
        match get_str_field(ps, "path") {
            Some(s) => Ok(Inbound::Command(InboundCommand::SetWindowIcon { path: s })),
            None => Err(DecodeError::Unrecognized),
        }
    } else if str_is(&t, "resizable") {
        match get_bool_field(ps, "resizable") {
            Some(b) => Ok(Inbound::Command(InboundCommand::SetResizable { resizable: b })),
            None => Err(DecodeError::Unrecognized),
        }
    } else if str_is(&t, "innerSize") {
        match (get_num_field(ps, "width"), get_num_field(ps, "height")) {
            (Some(w), Some(h)) => Ok(
                Inbound::Command(
                    InboundCommand::SetInnerSize {
                        width: string_from_chars(w.as_slice()),
                        height: string_from_chars(h.as_slice()),
                    },
                ),
            ),
            _ => Err(DecodeError::Unrecognized),
        }
    } else if str_is(&t, "minInnerSize") {
        match (get_num_field(ps, "width"), get_num_field(ps, "height")) {
            (Some(w), Some(h)) => Ok(
                Inbound::Command(
                    InboundCommand::SetMinSize {
                        width: string_from_chars(w.as_slice()),
                        height: string_from_chars(h.as_slice()),
                    },
                ),
            ),
            _ => Err(DecodeError::Unrecognized),
        }
    } else if str_is(&t, "maxInnerSize") {
        match (get_num_field(ps, "width"), get_num_field(ps, "height")) {
            (Some(w), Some(h)) => Ok(
                Inbound::Command(
                    InboundCommand::SetMaxSize {
                        width: string_from_chars(w.as_slice()),
                        height: string_from_chars(h.as_slice()),
                    },
                ),
            ),
            _ => Err(DecodeError::Unrecognized),
        }
    } else if str_is(&t, "outerPosition") {
        match (get_num_field(ps, "top"), get_num_field(ps, "left")) {
            (Some(tp), Some(lf)) => Ok(
                Inbound::Command(
                    InboundCommand::SetOuterPosition {
                        top: string_from_chars(tp.as_slice()),
                        left: string_from_chars(lf.as_slice()),
                    },
                ),
            ),
            _ => Err(DecodeError::Unrecognized),
        }
    } else if str_is(&t, "alwaysOnTop") {
        match get_bool_field(ps, "always") {
            Some(b) => Ok(Inbound::Command(InboundCommand::SetAlwaysOnTop { always: b })),
            None => Err(DecodeError::Unrecognized),
        }
    } else if str_is(&t, "decorations") {
        match get_bool_field(ps, "decorations") {
            Some(b) => Ok(Inbound::Command(InboundCommand::SetDecorations { decorations: b })),
            None => Err(DecodeError::Unrecognized),
        }
    } else if str_is(&t, "fullscreen") {
        match get_bool_field(ps, "fullscreen") {
            Some(b) => Ok(Inbound::Command(InboundCommand::SetFullscreen { fullscreen: b })),
            None => Err(DecodeError::Unrecognized),
        }
    } else if str_is(&t, "maximized") {
        match get_bool_field(ps, "maximized") {
            Some(b) => Ok(Inbound::Command(InboundCommand::SetMaximized { maximized: b })),
            None => Err(DecodeError::Unrecognized),
        }
    } else if str_is(&t, "minimized") {
        match get_bool_field(ps, "minimized") {
            Some(b) => Ok(Inbound::Command(InboundCommand::SetMinimized { minimized: b })),
            None => Err(DecodeError::Unrecognized),
        }
    } else if str_is(&t, "devtools") {
        match get_bool_field(ps, "devtools") {
            Some(b) => Ok(Inbound::Command(InboundCommand::SetDevtools { devtools: b })),
            None => Err(DecodeError::Unrecognized),
        }
    } else {
        Err(DecodeError::Unrecognized)
    }
}

/// Decode one inbound line: a path-resolution record, else an inbound
/// command, else `DecodeError::Unrecognized`.
pub fn decode_inbound(line: &str) -> (r: Result<Inbound, DecodeError>)
    ensures
        match r {
            Ok(d) => spec_decode_inbound(line@) == Ok::<InboundV, DecodeError>(d@),
            Err(e) => spec_decode_inbound(line@) == Err::<InboundV, DecodeError>(e),
        },
{
    let cs = chars_of(line);
    match parse_obj_chars(cs.as_slice()) {
        Some(ps) => classify_inbound_x(&ps),
        None => Err(DecodeError::Unrecognized),
    }
}

/// Where the reader sends one raw line from the control stream.
#[derive(Debug, PartialEq)]
pub enum Routed {
    Record(PathRecord),
    Command(InboundCommand),
    /// Unrecognized: logged locally and dropped; the reader carries on.
    Ignored,
}

pub enum RoutedV {
    Record(PathRecordV),
    Command(InboundCommandV),
    Ignored,
}

impl View for Routed {
    type V = RoutedV;

    open spec fn view(&self) -> RoutedV {
        match self {
            Routed::Record(r) => RoutedV::Record(r@),
            Routed::Command(c) => RoutedV::Command(c@),
            Routed::Ignored => RoutedV::Ignored,
        }
    }
}

/// The reader's routing of one raw line: strip the sentinel if present,
/// decode, and classify; anything unrecognized is ignored.
pub open spec fn spec_route_line(s: Seq<char>) -> RoutedV {
    let body = if s.len() >= 5 && s.subrange(0, 5) == sentinel() {
        s.skip(5)
    } else {
        s
    };
    match spec_decode_inbound(body) {
        Ok(InboundV::Record(r)) => RoutedV::Record(r),
        Ok(InboundV::Command(c)) => RoutedV::Command(c),
        Err(_) => RoutedV::Ignored,
    }
}

/// Route one raw line as the background reader does.
pub fn route_line(line: &str) -> (r: Routed)
    ensures
        r@ == spec_route_line(line@),
{
    let cs = chars_of(line);
    let sent: Vec<char> = vec!['_', 'i', 'o', 'c', ':'];
    proof {
        assert(sent@ =~= sentinel());
    }
    let body: &[char] = if cs.len() >= 5 && chars_eq(
        slice_subrange(cs.as_slice(), 0, 5),
        sent.as_slice(),
    ) {
        proof {
            assert(cs@.subrange(0, 5) =~= line@.subrange(0, 5));
        }
        let b = slice_subrange(cs.as_slice(), 5, cs.len());
        proof {
            assert(b@ =~= line@.skip(5));
        }
        b
    } else {
        proof {
            if line@.len() >= 5 {
                assert(cs@.subrange(0, 5) =~= line@.subrange(0, 5));
            }
        }
        cs.as_slice()
    };
    match parse_obj_chars(body) {
        Some(ps) => match classify_inbound_x(&ps) {
            Ok(Inbound::Record(r)) => Routed::Record(r),
            Ok(Inbound::Command(c)) => Routed::Command(c),
            Err(_) => Routed::Ignored,
        },
        None => Routed::Ignored,
    }
}

/// Decode one notification sent up by the embedded content layer.
pub open spec fn spec_decode_notification(s: Seq<char>) -> Result<
    FrontEndNotificationV,
    DecodeError,
> {
    match parse_obj_text(s) {
        Some(ps) => match lookup(ps, "type"@) {
            Some(ScalarV::SStr(t)) => {
                if t == "log"@ {
                    match lookup(ps, "log"@) {
                        Some(ScalarV::SStr(l)) => Ok(FrontEndNotificationV::Log { log: l }),
                        _ => Err(DecodeError::Unrecognized),
                    }
                } else if t == "message"@ {
                    match lookup(ps, "message"@) {
                        Some(ScalarV::SStr(m)) => Ok(
                            FrontEndNotificationV::UserMessage { message: m },
                        ),
                        _ => Err(DecodeError::Unrecognized),
                    }
                } else if t == "error"@ {
                    match (
                        lookup(ps, "message"@),
                        lookup(ps, "source"@),
                        lookup(ps, "line"@),
                        lookup(ps, "column"@),
                        lookup(ps, "stack"@),
                    ) {
                        (
                            Some(ScalarV::SStr(m)),
                            Some(ScalarV::SStr(src)),
                            Some(ScalarV::SNum(lt)),
                            Some(ScalarV::SNum(ct)),
                            Some(ScalarV::SStr(st)),
                        ) => match (to_u64_v(lt), to_u64_v(ct)) {
                            (Some(l), Some(c)) => Ok(
                                FrontEndNotificationV::ErrorReport {
                                    error: FrontEndErrorV {
                                        message: m,
                                        source: src,
                                        line: l,
                                        column: c,
                                        stack: st,
                                    },
                                },
                            ),
                            _ => Err(DecodeError::Unrecognized),
                        },
                        _ => Err(DecodeError::Unrecognized),
                    }
                } else {
                    Err(DecodeError::Unrecognized)
                }
            },
            _ => Err(DecodeError::Unrecognized),
        },
        None => Err(DecodeError::Unrecognized),
    }
}

/// Decode a notification line from the content layer.
pub fn decode_notification(line: &str) -> (r: Result<FrontEndNotification, DecodeError>)
    ensures
        match r {
            Ok(n) => spec_decode_notification(line@) == Ok::<FrontEndNotificationV, DecodeError>(
                n@,
            ),
            Err(e) => spec_decode_notification(line@) == Err::<FrontEndNotificationV, DecodeError>(
                e,
            ),
        },
{
    let cs = chars_of(line);
    let ps = match parse_obj_chars(cs.as_slice()) {
        Some(ps) => ps,
        None => { return Err(DecodeError::Unrecognized) },
    };
    let t = match get_str_field(&ps, "type") {
        Some(t) => t,
        None => { return Err(DecodeError::Unrecognized) },
    };
    if str_is(&t, "log") {
        match get_str_field(&ps, "log") {
            Some(l) => Ok(FrontEndNotification::Log { log: l }),
            None => Err(DecodeError::Unrecognized),
        }
    } else if str_is(&t, "message") {
        match get_str_field(&ps, "message") {
            Some(m) => Ok(FrontEndNotification::UserMessage { message: m }),
            None => Err(DecodeError::Unrecognized),
        }
    } else if str_is(&t, "error") {
        let m = match get_str_field(&ps, "message") {
            Some(x) => x,
            None => { return Err(DecodeError::Unrecognized) },
        };
        let src = match get_str_field(&ps, "source") {
            Some(x) => x,
            None => { return Err(DecodeError::Unrecognized) },
        };
        let lt = match get_num_field(&ps, "line") {
            Some(x) => x,
            None => { return Err(DecodeError::Unrecognized) },
        };
        let ct = match get_num_field(&ps, "column") {
            Some(x) => x,
            None => { return Err(DecodeError::Unrecognized) },
        };
        let st = match get_str_field(&ps, "stack") {
            Some(x) => x,
            None => { return Err(DecodeError::Unrecognized) },
        };
        let l = match parse_u64_x(lt.as_slice()) {
            Some(x) => x,
            None => { return Err(DecodeError::Unrecognized) },
        };
        let c = match parse_u64_x(ct.as_slice()) {
            Some(x) => x,
            None => { return Err(DecodeError::Unrecognized) },
        };
        Ok(
            FrontEndNotification::ErrorReport {
                error: FrontEndError { message: m, source: src, line: l, column: c, stack: st },
            },
        )
    } else {
        Err(DecodeError::Unrecognized)
    }
}

/// The outbound event that forwards one content-layer notification,
/// translated one-to-one.
pub open spec fn spec_forwarded(n: FrontEndNotificationV) -> OutboundEventV {
    match n {
        FrontEndNotificationV::Log { log } => OutboundEventV::Log { log },
        FrontEndNotificationV::UserMessage { message } => OutboundEventV::UserMessage { message },
        FrontEndNotificationV::ErrorReport { error } => OutboundEventV::ErrorReport { error },
    }
}

/// A file-drop notification from the embedding layer, with the hovered
/// or dropped paths as plain strings.
#[derive(Debug, PartialEq)]
pub enum FileDrop {
    Hovered { paths: Vec<String> },
    Dropped { paths: Vec<String> },
    Cancelled,
}

pub enum FileDropV {
    Hovered { paths: Seq<Seq<char>> },
    Dropped { paths: Seq<Seq<char>> },
    Cancelled,
}

impl View for FileDrop {
    type V = FileDropV;

    open spec fn view(&self) -> FileDropV {
        match self {
            FileDrop::Hovered { paths } => FileDropV::Hovered { paths: paths.deep_view() },
            FileDrop::Dropped { paths } => FileDropV::Dropped { paths: paths.deep_view() },
            FileDrop::Cancelled => FileDropV::Cancelled,
        }
    }
}

/// The outbound event that reports one file-drop notification,
/// translated one-to-one.
pub open spec fn spec_file_drop_event(d: FileDropV) -> OutboundEventV {
    match d {
        FileDropV::Hovered { paths } => OutboundEventV::FileDropHovered { paths },
        FileDropV::Dropped { paths } => OutboundEventV::FileDropDropped { paths },
        FileDropV::Cancelled => OutboundEventV::FileDropCancelled,
    }
}

/// Translate a file-drop notification into its outbound event.
pub fn file_drop_event(d: FileDrop) -> (r: OutboundEvent)
    ensures
        r@ == spec_file_drop_event(d@),
{
    match d {
        FileDrop::Hovered { paths } => OutboundEvent::FileDropHovered { paths },
        FileDrop::Dropped { paths } => OutboundEvent::FileDropDropped { paths },
        FileDrop::Cancelled => OutboundEvent::FileDropCancelled,
    }
}

/// Translate a content-layer notification into its outbound event.
pub fn forward_notification(n: FrontEndNotification) -> (r: OutboundEvent)
    ensures
        r@ == spec_forwarded(n@),
{
    match n {
        FrontEndNotification::Log { log } => OutboundEvent::Log { log },
        FrontEndNotification::UserMessage { message } => OutboundEvent::UserMessage { message },
        FrontEndNotification::ErrorReport { error } => OutboundEvent::ErrorReport { error },
    }
}

// ---------------------------------------------------------------------------
// Round trip: the controller recovers every framed event
// ---------------------------------------------------------------------------

proof fn lemma_lookup_at(ps: Seq<(Seq<char>, ScalarV)>, name: Seq<char>, k: int)
    requires
        0 <= k < ps.len(),
        ps[k].0 == name,
        forall|j: int| 0 <= j < k ==> ps[j].0 != name,
    ensures
        lookup(ps, name) == Some(ps[k].1),
    decreases k,
{
    if k > 0 {
        assert(ps[0].0 != name);
        assert forall|j: int| 0 <= j < k - 1 implies ps.skip(1)[j].0 != name by {
            assert(ps.skip(1)[j] == ps[j + 1]);
        }
        assert(ps.skip(1)[k - 1] == ps[k]);
        lemma_lookup_at(ps.skip(1), name, k - 1);
    }
}

/// Round trip of the frame codec: for every outbound event, the
/// controller-side parser recovers from the framed line exactly the event
/// that was encoded.
#[verifier::rlimit(100)]
pub proof fn lemma_frame_round_trip(e: OutboundEventV)
    ensures
        spec_decode_outbound(spec_frame(e)) == Ok::<OutboundEventV, DecodeError>(e),
{
    reveal_strlit("start");
    reveal_strlit("end");
    reveal_strlit("message");
    reveal_strlit("log");
    reveal_strlit("path");
    reveal_strlit("error");
    reveal_strlit("fileDropHovered");
    reveal_strlit("fileDropDropped");
    reveal_strlit("fileDropCancelled");
    reveal_strlit("type");
    reveal_strlit("url");
    reveal_strlit("source");
    reveal_strlit("line");
    reveal_strlit("column");
    reveal_strlit("stack");
    reveal_strlit("paths");
    let ps = spec_fields_of(e);
    let s = spec_frame(e);
    assert(s.subrange(0, 5) =~= sentinel());
    assert(s.skip(5) =~= render_obj(ps));
    match e {
        OutboundEventV::Start => {
            assert(wf_pairs(ps));
            lemma_render_obj_parses(ps);
            assert(lookup(ps, "type"@) == Some(ScalarV::SStr("start"@)));
        },
        OutboundEventV::End => {
            assert(wf_pairs(ps));
            lemma_render_obj_parses(ps);
            assert(lookup(ps, "type"@) == Some(ScalarV::SStr("end"@)));
        },
        OutboundEventV::UserMessage { message } => {
            assert(wf_pairs(ps));
            lemma_render_obj_parses(ps);
            assert(lookup(ps, "type"@) == Some(ScalarV::SStr("message"@)));
            assert(ps[1].0 == "message"@);
            lemma_lookup_at(ps, "message"@, 1);
        },
        OutboundEventV::Log { log } => {
            assert(wf_pairs(ps));
            lemma_render_obj_parses(ps);
            assert(lookup(ps, "type"@) == Some(ScalarV::SStr("log"@)));
            assert("log"@[0] == 'l' && "end"@[0] == 'e');
            assert(ps[1].0 == "log"@);
            lemma_lookup_at(ps, "log"@, 1);
        },
        OutboundEventV::PathRequest { url } => {
            assert(wf_pairs(ps));
            lemma_render_obj_parses(ps);
            assert(lookup(ps, "type"@) == Some(ScalarV::SStr("path"@)));
            assert(ps[1].0 == "url"@);
            lemma_lookup_at(ps, "url"@, 1);
        },
        OutboundEventV::ErrorReport { error } => {
            lemma_dec_num_ok(error.line);
            lemma_dec_num_ok(error.column);
            assert forall|i: int| 0 <= i < ps.len() implies wf_scalar(#[trigger] ps[i].1) by {}
            lemma_render_obj_parses(ps);
            assert(lookup(ps, "type"@) == Some(ScalarV::SStr("error"@)));
            assert("error"@[0] == 'e' && "start"@[0] == 's');
            assert("type"@[0] == 't' && "line"@[0] == 'l');
            assert("source"@[0] == 's' && "column"@[0] == 'c');
            lemma_lookup_at(ps, "message"@, 1);
            lemma_lookup_at(ps, "source"@, 2);
            lemma_lookup_at(ps, "line"@, 3);
            lemma_lookup_at(ps, "column"@, 4);
            assert(ps[0].0 != "stack"@);
            assert(ps[1].0 != "stack"@);
            assert("source"@.len() == 6);
            assert("stack"@.len() == 5);
            assert(ps[2].0 != "stack"@);
            assert(ps[3].0 != "stack"@);
            assert(ps[4].0 != "stack"@);
            lemma_lookup_at(ps, "stack"@, 5);
            lemma_to_u64_dec(error.line);
            lemma_to_u64_dec(error.column);
        },
        OutboundEventV::FileDropHovered { paths } => {
            assert(wf_pairs(ps));
            lemma_render_obj_parses(ps);
            assert(lookup(ps, "type"@) == Some(ScalarV::SStr("fileDropHovered"@)));
            assert(ps[1].0 == "paths"@);
            lemma_lookup_at(ps, "paths"@, 1);
        },
        OutboundEventV::FileDropDropped { paths } => {
            assert(wf_pairs(ps));
            lemma_render_obj_parses(ps);
            assert(lookup(ps, "type"@) == Some(ScalarV::SStr("fileDropDropped"@)));
            assert("fileDropDropped"@[8] == 'D' && "fileDropHovered"@[8] == 'H');
            assert(ps[1].0 == "paths"@);
            lemma_lookup_at(ps, "paths"@, 1);
        },
        OutboundEventV::FileDropCancelled => {
            assert(wf_pairs(ps));
            lemma_render_obj_parses(ps);
            assert(lookup(ps, "type"@) == Some(ScalarV::SStr("fileDropCancelled"@)));
        },
    }
}

} // verus!
