//! The command dispatcher.
//!
//! Commands mutate a model of the surface; the loop mode is an explicit
//! two-state machine (`Running`, `Terminating`) driven only by the `Close`
//! command or an external close event.  All dispatching is strictly
//! sequential: a run over a command sequence folds `apply` in arrival
//! order and stops once the loop is terminating.

use vstd::prelude::*;
use crate::codec::{InboundCommand, InboundCommandV, OutboundEvent, OutboundEventV};

verus! {

/// Loop control state.
#[derive(Clone, Copy, PartialEq, Eq, Structural, Debug)]
pub enum LoopMode {
    Running,
    Terminating,
}

/// The surface attributes the dispatcher owns.  Sizes and positions keep
/// their raw wire tokens: the surface owns range handling.
pub struct SurfaceState {
    pub title: String,
    pub resizable: bool,
    pub always_on_top: bool,
    pub decorations: bool,
    pub fullscreen: bool,
    pub maximized: bool,
    pub minimized: bool,
    pub focused: bool,
    pub devtools_open: bool,
    pub inner_size: Option<(String, String)>,
    pub min_size: Option<(String, String)>,
    pub max_size: Option<(String, String)>,
    pub outer_position: Option<(String, String)>,
    pub window_icon: Option<String>,
}

pub struct SurfaceStateV {
    pub title: Seq<char>,
    pub resizable: bool,
    pub always_on_top: bool,
    pub decorations: bool,
    pub fullscreen: bool,
    pub maximized: bool,
    pub minimized: bool,
    pub focused: bool,
    pub devtools_open: bool,
    pub inner_size: Option<(Seq<char>, Seq<char>)>,
    pub min_size: Option<(Seq<char>, Seq<char>)>,
    pub max_size: Option<(Seq<char>, Seq<char>)>,
    pub outer_position: Option<(Seq<char>, Seq<char>)>,
    pub window_icon: Option<Seq<char>>,
}

pub open spec fn dim_view(o: Option<(String, String)>) -> Option<(Seq<char>, Seq<char>)> {
    match o {
        Some(p) => Some((p.0@, p.1@)),
        None => None,
    }
}

impl View for SurfaceState {
    type V = SurfaceStateV;

    open spec fn view(&self) -> SurfaceStateV {
        SurfaceStateV {
            title: self.title@,
            resizable: self.resizable,
            always_on_top: self.always_on_top,
            decorations: self.decorations,
            fullscreen: self.fullscreen,
            maximized: self.maximized,
            minimized: self.minimized,
            focused: self.focused,
            devtools_open: self.devtools_open,
            inner_size: dim_view(self.inner_size),
            min_size: dim_view(self.min_size),
            max_size: dim_view(self.max_size),
            outer_position: dim_view(self.outer_position),
            window_icon: match self.window_icon {
                Some(p) => Some(p@),
                None => None,
            },
        }
    }
}

/// The dispatcher's whole state: the surface model and the loop mode.
pub struct ShellCore {
    pub surface: SurfaceState,
    pub mode: LoopMode,
}

pub struct ShellCoreV {
    pub surface: SurfaceStateV,
    pub mode: LoopMode,
}

impl View for ShellCore {
    type V = ShellCoreV;

    open spec fn view(&self) -> ShellCoreV {
        ShellCoreV { surface: self.surface@, mode: self.mode }
    }
}

pub open spec fn events_view(es: Seq<OutboundEvent>) -> Seq<OutboundEventV> {
    Seq::new(es.len(), |i: int| es[i]@)
}

pub open spec fn cmds_view(cs: Seq<InboundCommand>) -> Seq<InboundCommandV> {
    Seq::new(cs.len(), |i: int| cs[i]@)
}

// ---------------------------------------------------------------------------
// One step
// ---------------------------------------------------------------------------

/// The initial state: the window is built with the given title, and
/// without decorations when it is transparent.
pub open spec fn spec_boot_state(title: Seq<char>, transparent: bool) -> ShellCoreV {
    ShellCoreV {
        surface: SurfaceStateV {
            title: title,
            resizable: true,
            always_on_top: false,
            decorations: !transparent,
            fullscreen: false,
            maximized: false,
            minimized: false,
            focused: false,
            devtools_open: false,
            inner_size: None,
            min_size: None,
            max_size: None,
            outer_position: None,
            window_icon: None,
        },
        mode: LoopMode::Running,
    }
}

/// Effect of one command on the state, with the events it emits.
/// Every command but `Close` emits nothing; `Close` emits `End` and turns
/// the loop to `Terminating`.  `Eval` has no dispatcher-observable effect.
pub open spec fn spec_apply(c: InboundCommandV, st: ShellCoreV) -> (ShellCoreV, Seq<
    OutboundEventV,
>) {
    match c {
        InboundCommandV::Focus => (
            ShellCoreV { surface: SurfaceStateV { focused: true, ..st.surface }, ..st },
            Seq::<OutboundEventV>::empty(),
        ),
        InboundCommandV::Close => (
            ShellCoreV { mode: LoopMode::Terminating, ..st },
            seq![OutboundEventV::End],
        ),
        InboundCommandV::Eval { script } => (st, Seq::<OutboundEventV>::empty()),
        InboundCommandV::SetTitle { title } => (
            ShellCoreV { surface: SurfaceStateV { title: title, ..st.surface }, ..st },
            Seq::<OutboundEventV>::empty(),
        ),
        InboundCommandV::SetWindowIcon { path } => (
            ShellCoreV { surface: SurfaceStateV { window_icon: Some(path), ..st.surface }, ..st },
            Seq::<OutboundEventV>::empty(),
        ),
        InboundCommandV::SetResizable { resizable } => (
            ShellCoreV { surface: SurfaceStateV { resizable: resizable, ..st.surface }, ..st },
            Seq::<OutboundEventV>::empty(),
        ),
        InboundCommandV::SetInnerSize { width, height } => (
            ShellCoreV {
                surface: SurfaceStateV { inner_size: Some((width, height)), ..st.surface },
                ..st
            },
            Seq::<OutboundEventV>::empty(),
        ),
        InboundCommandV::SetMinSize { width, height } => (
            ShellCoreV {
                surface: SurfaceStateV { min_size: Some((width, height)), ..st.surface },
                ..st
            },
            Seq::<OutboundEventV>::empty(),
        ),
        InboundCommandV::SetMaxSize { width, height } => (
            ShellCoreV {
                surface: SurfaceStateV { max_size: Some((width, height)), ..st.surface },
                ..st
            },
            Seq::<OutboundEventV>::empty(),
        ),
        InboundCommandV::SetOuterPosition { top, left } => (
            ShellCoreV {
                surface: SurfaceStateV { outer_position: Some((top, left)), ..st.surface },
                ..st
            },
            Seq::<OutboundEventV>::empty(),
        ),
        InboundCommandV::SetAlwaysOnTop { always } => (
            ShellCoreV { surface: SurfaceStateV { always_on_top: always, ..st.surface }, ..st },
            Seq::<OutboundEventV>::empty(),
        ),
        InboundCommandV::SetDecorations { decorations } => (
            ShellCoreV { surface: SurfaceStateV { decorations: decorations, ..st.surface }, ..st },
            Seq::<OutboundEventV>::empty(),
        ),
        InboundCommandV::SetFullscreen { fullscreen } => (
            ShellCoreV { surface: SurfaceStateV { fullscreen: fullscreen, ..st.surface }, ..st },
            Seq::<OutboundEventV>::empty(),
        ),
        InboundCommandV::SetMaximized { maximized } => (
            ShellCoreV { surface: SurfaceStateV { maximized: maximized, ..st.surface }, ..st },
            Seq::<OutboundEventV>::empty(),
        ),
        InboundCommandV::SetMinimized { minimized } => (
            ShellCoreV { surface: SurfaceStateV { minimized: minimized, ..st.surface }, ..st },
            Seq::<OutboundEventV>::empty(),
        ),
        InboundCommandV::SetDevtools { devtools } => (
            ShellCoreV { surface: SurfaceStateV { devtools_open: devtools, ..st.surface }, ..st },
            Seq::<OutboundEventV>::empty(),
        ),
    }
}

impl ShellCore {
    /// Build the initial state and emit `Start`, the first outbound event
    /// of every session.
    pub fn boot(title: String, transparent: bool) -> (r: (ShellCore, Vec<OutboundEvent>))
        ensures
            r.0@ == spec_boot_state(title@, transparent),
            events_view(r.1@) == seq![OutboundEventV::Start],
    {
        let core = ShellCore {
            surface: SurfaceState {
                title,
                resizable: true,
                always_on_top: false,
                decorations: !transparent,
                fullscreen: false,
                maximized: false,
                minimized: false,
                focused: false,
                devtools_open: false,
                inner_size: None,
                min_size: None,
                max_size: None,
                outer_position: None,
                window_icon: None,
            },
            mode: LoopMode::Running,
        };
        let emits: Vec<OutboundEvent> = vec![OutboundEvent::Start];
        proof {
            assert(events_view(emits@) =~= seq![OutboundEventV::Start]);
        }
        (core, emits)
    }

    /// Apply one inbound command; returns the events to emit.
    pub fn apply(&mut self, c: InboundCommand) -> (emits: Vec<OutboundEvent>)
        ensures
            final(self)@ == spec_apply(c@, old(self)@).0,
            events_view(emits@) == spec_apply(c@, old(self)@).1,
    {
        let mut emits: Vec<OutboundEvent> = Vec::new();
        match c {
            InboundCommand::Focus => {
                self.surface.focused = true;
            },
            InboundCommand::Close => {
                self.mode = LoopMode::Terminating;
                emits.push(OutboundEvent::End);
            },
            InboundCommand::Eval { script } => {},
            InboundCommand::SetTitle { title } => {
                self.surface.title = title;
            },
            InboundCommand::SetWindowIcon { path } => {
                self.surface.window_icon = Some(path);
            },
            InboundCommand::SetResizable { resizable } => {
                self.surface.resizable = resizable;
            },
            InboundCommand::SetInnerSize { width, height } => {
                self.surface.inner_size = Some((width, height));
            },
            InboundCommand::SetMinSize { width, height } => {
                self.surface.min_size = Some((width, height));
            },
            InboundCommand::SetMaxSize { width, height } => {
                self.surface.max_size = Some((width, height));
            },
            InboundCommand::SetOuterPosition { top, left } => {
                self.surface.outer_position = Some((top, left));
            },
            InboundCommand::SetAlwaysOnTop { always } => {
                self.surface.always_on_top = always;
            },
            InboundCommand::SetDecorations { decorations } => {
                self.surface.decorations = decorations;
            },
            InboundCommand::SetFullscreen { fullscreen } => {
                self.surface.fullscreen = fullscreen;
            },
            InboundCommand::SetMaximized { maximized } => {
                self.surface.maximized = maximized;
            },
            InboundCommand::SetMinimized { minimized } => {
                self.surface.minimized = minimized;
            },
            InboundCommand::SetDevtools { devtools } => {
                self.surface.devtools_open = devtools;
            },
        }
        proof {
            assert(events_view(emits@) =~= spec_apply(c@, old(self)@).1);
        }
        emits
    }

    /// The user closed the window from outside: emit `End` and terminate,
    /// exactly as an explicit `Close` command does.
    pub fn external_close(&mut self) -> (emits: Vec<OutboundEvent>)
        ensures
            final(self)@ == spec_apply(InboundCommandV::Close, old(self)@).0,
            events_view(emits@) == seq![OutboundEventV::End],
    {
        self.mode = LoopMode::Terminating;
        let emits: Vec<OutboundEvent> = vec![OutboundEvent::End];
        proof {
            assert(events_view(emits@) =~= seq![OutboundEventV::End]);
        }
        emits
    }

    /// Whether the loop should keep running.
    pub fn running(&self) -> (r: bool)
        ensures
            r == (self@.mode == LoopMode::Running),
    {
        match self.mode {
            LoopMode::Running => true,
            LoopMode::Terminating => false,
        }
    }
}

// ---------------------------------------------------------------------------
// A run over a command sequence
// ---------------------------------------------------------------------------

/// Fold of `spec_apply` over a command sequence, in arrival order; once
/// the loop is terminating, nothing further is applied or emitted.
pub open spec fn spec_run(st: ShellCoreV, cs: Seq<InboundCommandV>) -> (ShellCoreV, Seq<
    OutboundEventV,
>)
    decreases cs.len(),
{
    if cs.len() == 0 || st.mode == LoopMode::Terminating {
        (st, Seq::<OutboundEventV>::empty())
    } else {
        let first = spec_apply(cs[0], st);
        let rest = spec_run(first.0, cs.skip(1));
        (rest.0, first.1 + rest.1)
    }
}

impl ShellCore {
    /// Drain a batch of queued commands in order, collecting the events
    /// to emit.  Commands after a terminating one are not applied.
    pub fn drain(&mut self, cs: Vec<InboundCommand>) -> (emits: Vec<OutboundEvent>)
        ensures
            final(self)@ == spec_run(old(self)@, cmds_view(cs@)).0,
            events_view(emits@) == spec_run(old(self)@, cmds_view(cs@)).1,
    {
        let mut rest = cs;
        let mut out: Vec<OutboundEvent> = Vec::new();
        proof {
            assert(events_view(out@) + spec_run(self@, cmds_view(rest@)).1 =~= spec_run(
                old(self)@,
                cmds_view(cs@),
            ).1);
        }
        while rest.len() > 0 && self.running()
            invariant
                spec_run(self@, cmds_view(rest@)).0 == spec_run(old(self)@, cmds_view(cs@)).0,
                events_view(out@) + spec_run(self@, cmds_view(rest@)).1 =~= spec_run(
                    old(self)@,
                    cmds_view(cs@),
                ).1,
            decreases rest@.len(),
        {
            let ghost pre = self@;
            let ghost prev = cmds_view(rest@);
            let c = rest.remove(0);
            proof {
                assert(prev[0] == c@);
                assert(cmds_view(rest@) =~= prev.skip(1));
            }
            let mut es = self.apply(c);
            proof {
                assert(spec_run(pre, prev).0 == spec_run(self@, cmds_view(rest@)).0);
                assert(spec_run(pre, prev).1 =~= events_view(es@) + spec_run(
                    self@,
                    cmds_view(rest@),
                ).1);
            }
            let ghost out_pre = out@;
            let ghost es_pre = es@;
            out.append(&mut es);
            proof {
                assert(events_view(out@) =~= events_view(out_pre) + events_view(es_pre));
                assert(spec_run(pre, prev).1 =~= events_view(es_pre) + spec_run(
                    self@,
                    cmds_view(rest@),
                ).1);
                assert(events_view(out@) + spec_run(self@, cmds_view(rest@)).1 =~= spec_run(
                    old(self)@,
                    cmds_view(cs@),
                ).1);
            }
        }
        proof {
            assert(spec_run(self@, cmds_view(rest@)) == (self@, Seq::<OutboundEventV>::empty()));
            assert(events_view(out@) =~= spec_run(old(self)@, cmds_view(cs@)).1);
        }
        out
    }
}

// ---------------------------------------------------------------------------
// Laws of the dispatcher
// ---------------------------------------------------------------------------

/// Commands are applied in arrival order: running a concatenation of two
/// batches is running the first, then the second from the state the first
/// left behind, with the emissions concatenated in the same order.
pub proof fn lemma_run_in_order(st: ShellCoreV, cs1: Seq<InboundCommandV>, cs2: Seq<
    InboundCommandV,
>)
    ensures
        spec_run(st, cs1 + cs2).0 == spec_run(spec_run(st, cs1).0, cs2).0,
        spec_run(st, cs1 + cs2).1 =~= spec_run(st, cs1).1 + spec_run(spec_run(st, cs1).0, cs2).1,
    decreases cs1.len(),
{
    if st.mode == LoopMode::Terminating {
        assert(spec_run(st, cs1 + cs2) == (st, Seq::<OutboundEventV>::empty()));
    } else if cs1.len() == 0 {
        assert(cs1 + cs2 =~= cs2);
    } else {
        assert((cs1 + cs2)[0] == cs1[0]);
        assert((cs1 + cs2).len() > 0);
        let first = spec_apply(cs1[0], st);
        assert((cs1 + cs2).skip(1) =~= cs1.skip(1) + cs2);
        lemma_run_in_order(first.0, cs1.skip(1), cs2);
    }
}

/// Applying any command twice in a row leaves the same state as applying
/// it once: every command's state update is idempotent.
#[verifier::rlimit(100)]
pub proof fn lemma_apply_idempotent(c: InboundCommandV, st: ShellCoreV)
    ensures
        spec_apply(c, spec_apply(c, st).0).0 == spec_apply(c, st).0,
{
    let once = spec_apply(c, st).0;
    match c {
        InboundCommandV::Focus => {
            assert(spec_apply(c, once).0 == once);
        },
        InboundCommandV::Close => {
            assert(spec_apply(c, once).0 == once);
        },
        InboundCommandV::Eval { script } => {
            assert(spec_apply(c, once).0 == once);
        },
        InboundCommandV::SetTitle { title } => {
            assert(spec_apply(c, once).0 == once);
        },
        InboundCommandV::SetWindowIcon { path } => {
            assert(spec_apply(c, once).0 == once);
        },
        InboundCommandV::SetResizable { resizable } => {
            assert(spec_apply(c, once).0 == once);
        },
        InboundCommandV::SetInnerSize { width, height } => {
            assert(spec_apply(c, once).0 == once);
        },
        InboundCommandV::SetMinSize { width, height } => {
            assert(spec_apply(c, once).0 == once);
        },
        InboundCommandV::SetMaxSize { width, height } => {
            assert(spec_apply(c, once).0 == once);
        },
        InboundCommandV::SetOuterPosition { top, left } => {
            assert(spec_apply(c, once).0 == once);
        },
        InboundCommandV::SetAlwaysOnTop { always } => {
            assert(spec_apply(c, once).0 == once);
        },
        InboundCommandV::SetDecorations { decorations } => {
            assert(spec_apply(c, once).0 == once);
        },
        InboundCommandV::SetFullscreen { fullscreen } => {
            assert(spec_apply(c, once).0 == once);
        },
        InboundCommandV::SetMaximized { maximized } => {
            assert(spec_apply(c, once).0 == once);
        },
        InboundCommandV::SetMinimized { minimized } => {
            assert(spec_apply(c, once).0 == once);
        },
        InboundCommandV::SetDevtools { devtools } => {
            assert(spec_apply(c, once).0 == once);
        },
    }
}

/// After a `Close`, nothing further is applied or emitted.
pub proof fn lemma_close_halts(st: ShellCoreV, cs: Seq<InboundCommandV>)
    ensures
        spec_run(spec_apply(InboundCommandV::Close, st).0, cs) == (
            spec_apply(InboundCommandV::Close, st).0,
            Seq::<OutboundEventV>::empty(),
        ),
{
}

proof fn lemma_apply_no_start(c: InboundCommandV, st: ShellCoreV)
    ensures
        forall|i: int|
            0 <= i < spec_apply(c, st).1.len() ==> spec_apply(c, st).1[i]
                != OutboundEventV::Start,
{
}

proof fn lemma_run_no_start(st: ShellCoreV, cs: Seq<InboundCommandV>)
    ensures
        forall|i: int|
            0 <= i < spec_run(st, cs).1.len() ==> spec_run(st, cs).1[i] != OutboundEventV::Start,
    decreases cs.len(),
{
    if cs.len() == 0 || st.mode == LoopMode::Terminating {
    } else {
        let first = spec_apply(cs[0], st);
        lemma_apply_no_start(cs[0], st);
        lemma_run_no_start(first.0, cs.skip(1));
    }
}

/// The emissions of a whole session — boot, then any run of commands —
/// begin with `Start`, and `Start` is never emitted again.
pub proof fn lemma_start_first(title: Seq<char>, transparent: bool, cs: Seq<InboundCommandV>)
    ensures
        (seq![OutboundEventV::Start] + spec_run(spec_boot_state(title, transparent), cs).1)[0]
            == OutboundEventV::Start,
        forall|i: int|
            1 <= i < (seq![OutboundEventV::Start] + spec_run(
                spec_boot_state(title, transparent),
                cs,
            ).1).len() ==> (seq![OutboundEventV::Start] + spec_run(
                spec_boot_state(title, transparent),
                cs,
            ).1)[i] != OutboundEventV::Start,
{
    let emits = spec_run(spec_boot_state(title, transparent), cs).1;
    lemma_run_no_start(spec_boot_state(title, transparent), cs);
    assert forall|i: int|
        1 <= i < (seq![OutboundEventV::Start] + emits).len() implies (seq![OutboundEventV::Start]
        + emits)[i] != OutboundEventV::Start by {
        assert((seq![OutboundEventV::Start] + emits)[i] == emits[i - 1]);
    }
}

} // verus!
