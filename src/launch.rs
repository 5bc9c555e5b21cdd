use vstd::prelude::*;
use crate::capture::spec_split_for_index;
use crate::template::{PaneTemplate, SessionTemplate, SplitType, TemplateError, WindowTemplate};

verus! {

/// Where a split puts the new pane relative to the reference pane.
#[derive(Clone, Copy, Debug, PartialEq, Eq, Structural)]
pub enum SplitDirection {
    /// The panes stack top and bottom.
    TopBottom,
    /// The panes stand side by side.
    SideBySide,
}

/// One call to the multiplexer's control interface.
#[derive(Clone, Debug)]
pub enum MuxCommand {
    NewSession { session: String, cwd: String },
    RenameWindow { session: String, window: u32, name: String },
    NewWindow { session: String, name: String, cwd: String },
    SplitWindow { session: String, window: u32, direction: SplitDirection, cwd: String },
}

/// A call to the control interface, over plain values.
pub enum MuxCall {
    NewSession { session: Seq<char>, cwd: Seq<char> },
    RenameWindow { session: Seq<char>, window: nat, name: Seq<char> },
    NewWindow { session: Seq<char>, name: Seq<char>, cwd: Seq<char> },
    SplitWindow { session: Seq<char>, window: nat, direction: SplitDirection, cwd: Seq<char> },
}

impl View for MuxCommand {
    type V = MuxCall;

    open spec fn view(&self) -> MuxCall {
        match self {
            MuxCommand::NewSession { session, cwd } => MuxCall::NewSession {
                session: session@,
                cwd: cwd@,
            },
            MuxCommand::RenameWindow { session, window, name } => MuxCall::RenameWindow {
                session: session@,
                window: *window as nat,
                name: name@,
            },
            MuxCommand::NewWindow { session, name, cwd } => MuxCall::NewWindow {
                session: session@,
                name: name@,
                cwd: cwd@,
            },
            MuxCommand::SplitWindow { session, window, direction, cwd } => MuxCall::SplitWindow {
                session: session@,
                window: *window as nat,
                direction: *direction,
                cwd: cwd@,
            },
        }
    }
}

pub open spec fn calls_of(cmds: Seq<MuxCommand>) -> Seq<MuxCall> {
    cmds.map_values(|c: MuxCommand| c@)
}

/// The split, if any, that recreates pane `p` in window `w`: a horizontal
/// split stacks the panes, a vertical one sets them side by side, and a
/// full pane needs none.
pub open spec fn pane_call(session: Seq<char>, w: nat, p: PaneTemplate) -> Seq<MuxCall> {
    match p.split {
        SplitType::Horizontal => seq![
            MuxCall::SplitWindow {
                session,
                window: w,
                direction: SplitDirection::TopBottom,
                cwd: p.cwd@,
            },
        ],
        SplitType::Vertical => seq![
            MuxCall::SplitWindow {
                session,
                window: w,
                direction: SplitDirection::SideBySide,
                cwd: p.cwd@,
            },
        ],
        SplitType::Full => seq![],
    }
}

/// The splits for a sequence of panes, in order, all against window `w`.
pub open spec fn pane_calls(session: Seq<char>, w: nat, panes: Seq<PaneTemplate>) -> Seq<
    MuxCall,
>
    decreases panes.len(),
{
    if panes.len() == 0 {
        seq![]
    } else {
        pane_calls(session, w, panes.drop_last()) + pane_call(session, w, panes.last())
    }
}

/// The panes of a window after its first one.
pub open spec fn later_panes(panes: Seq<PaneTemplate>) -> Seq<PaneTemplate> {
    if panes.len() == 0 {
        seq![]
    } else {
        panes.skip(1)
    }
}

/// The calls that recreate window `w`: the first window comes with the
/// session and is renamed, a later one is created; then every pane after
/// the first is split off.
pub open spec fn window_calls(session: Seq<char>, w: nat, win: WindowTemplate) -> Seq<MuxCall> {
    let head = if w == 0 {
        seq![
            MuxCall::NewSession { session, cwd: win.cwd@ },
            MuxCall::RenameWindow { session, window: 0, name: win.name@ },
        ]
    } else {
        seq![MuxCall::NewWindow { session, name: win.name@, cwd: win.cwd@ }]
    };
    head + pane_calls(session, w, later_panes(win.panes@))
}

/// The calls that recreate a sequence of windows, window by window.
pub open spec fn session_calls(session: Seq<char>, windows: Seq<WindowTemplate>) -> Seq<MuxCall>
    decreases windows.len(),
{
    if windows.len() == 0 {
        seq![]
    } else {
        session_calls(session, windows.drop_last()) + window_calls(
            session,
            (windows.len() - 1) as nat,
            windows.last(),
        )
    }
}

fn push_call(cmds: &mut Vec<MuxCommand>, c: MuxCommand)
    ensures
        calls_of(final(cmds)@) == calls_of(old(cmds)@) + seq![c@],
{
    cmds.push(c);
    assert(calls_of(final(cmds)@) =~= calls_of(old(cmds)@) + seq![c@]);
}

fn push_pane_calls(cmds: &mut Vec<MuxCommand>, session: &str, w: u32, panes: &Vec<PaneTemplate>)
    ensures
        calls_of(final(cmds)@) == calls_of(old(cmds)@) + pane_calls(
            session@,
            w as nat,
            later_panes(panes@),
        ),
{
    let ghost start = calls_of(cmds@);
    let mut i: usize = 1;
    if panes.len() == 0 {
        assert(calls_of(cmds@) =~= start + pane_calls(session@, w as nat, later_panes(panes@)));
        return;
    }
    assert(panes@.skip(1).take(0) =~= seq![]);
    assert(calls_of(cmds@) =~= start + pane_calls(session@, w as nat, panes@.skip(1).take(0)));
    while i < panes.len()
        invariant
            1 <= i <= panes@.len(),
            calls_of(cmds@) == start + pane_calls(
                session@,
                w as nat,
                panes@.skip(1).take(i - 1),
            ),
        decreases panes@.len() - i,
    {
        let p = &panes[i];
        let ghost before = calls_of(cmds@);
        match p.split {
            SplitType::Horizontal => {
                push_call(
                    cmds,
                    MuxCommand::SplitWindow {
                        session: session.to_string(),
                        window: w,
                        direction: SplitDirection::TopBottom,
                        cwd: p.cwd.clone(),
                    },
                );
            },
            SplitType::Vertical => {
                push_call(
                    cmds,
                    MuxCommand::SplitWindow {
                        session: session.to_string(),
                        window: w,
                        direction: SplitDirection::SideBySide,
                        cwd: p.cwd.clone(),
                    },
                );
            },
            SplitType::Full => {},
        }
        assert(calls_of(cmds@) =~= before + pane_call(session@, w as nat, panes@[i as int]));
        let ghost t = panes@.skip(1).take(i as int);
        assert(t.drop_last() =~= panes@.skip(1).take(i - 1));
        assert(t.last() == panes@[i as int]);
        i = i + 1;
    }
    assert(panes@.skip(1).take(i - 1) =~= panes@.skip(1));
}

/// Plans the replay of a template into a new session: the calls to make,
/// in order. A template without windows is refused and plans nothing.
/// Whoever runs the plan stops at the first call that fails and leaves
/// what was already created in place.
pub fn launch_template(template: &SessionTemplate, session_name: &str) -> (r: Result<
    Vec<MuxCommand>,
    TemplateError,
>)
    requires
        template.windows@.len() <= u32::MAX,
    ensures
        template.windows@.len() == 0 <==> r is Err,
        r matches Err(TemplateError::Validation { session }) ==> session@ == session_name@,
        r is Err ==> r matches Err(TemplateError::Validation { .. }),
        r matches Ok(cmds) ==> calls_of(cmds@) == session_calls(
            session_name@,
            template.windows@,
        ),
{
    if template.windows.len() == 0 {
        return Err(TemplateError::Validation { session: session_name.to_string() });
    }
    let mut cmds: Vec<MuxCommand> = Vec::new();
    let mut wi: usize = 0;
    assert(template.windows@.take(0) =~= seq![]);
    while wi < template.windows.len()
        invariant
            wi <= template.windows@.len() <= u32::MAX,
            calls_of(cmds@) == session_calls(session_name@, template.windows@.take(wi as int)),
        decreases template.windows@.len() - wi,
    {
        let win: &WindowTemplate = &template.windows[wi];
        let ghost before = calls_of(cmds@);
        if wi == 0 {
            push_call(
                &mut cmds,
                MuxCommand::NewSession { session: session_name.to_string(), cwd: win.cwd.clone() },
            );
            push_call(
                &mut cmds,
                MuxCommand::RenameWindow {
                    session: session_name.to_string(),
                    window: 0,
                    name: win.name.clone(),
                },
            );
        } else {
            push_call(
                &mut cmds,
                MuxCommand::NewWindow {
                    session: session_name.to_string(),
                    name: win.name.clone(),
                    cwd: win.cwd.clone(),
                },
            );
        }
        push_pane_calls(&mut cmds, session_name, wi as u32, &win.panes);
        assert(calls_of(cmds@) =~= before + window_calls(session_name@, wi as nat, *win));
        let ghost t = template.windows@.take(wi + 1);
        assert(t.drop_last() =~= template.windows@.take(wi as int));
        wi = wi + 1;
    }
    assert(template.windows@.take(wi as int) =~= template.windows@);
    Ok(cmds)
}

/// The direction in which the pane at index `i` of a captured window is
/// split off on replay.
pub open spec fn captured_direction(i: int) -> SplitDirection {
    if i % 2 == 1 {
        SplitDirection::TopBottom
    } else {
        SplitDirection::SideBySide
    }
}

/// A window laid out as capture records it replays with exactly one split
/// per pane after the first, each against the window, from that pane's
/// directory, alternating between stacking and side by side.
pub proof fn lemma_captured_window_replay(session: Seq<char>, w: nat, panes: Seq<PaneTemplate>)
    requires
        panes.len() > 0,
        forall|j: int| 0 <= j < panes.len() ==> #[trigger] panes[j].split == spec_split_for_index(j),
    ensures
        pane_calls(session, w, later_panes(panes)).len() == panes.len() - 1,
        forall|k: int|
            0 <= k < panes.len() - 1 ==> #[trigger] pane_calls(session, w, later_panes(panes))[k]
                == (MuxCall::SplitWindow {
                session,
                window: w,
                direction: captured_direction(k + 1),
                cwd: panes[k + 1].cwd@,
            }),
    decreases panes.len(),
{
    let calls = pane_calls(session, w, later_panes(panes));
    if panes.len() == 1 {
        assert(later_panes(panes) =~= seq![]);
    } else {
        let shorter = panes.drop_last();
        lemma_captured_window_replay(session, w, shorter);
        assert(later_panes(panes).drop_last() =~= later_panes(shorter));
        assert(later_panes(panes).last() == panes.last());
        let i = panes.len() - 1;
        assert(panes[i].split == spec_split_for_index(i));
        assert(forall|j: int| 0 <= j < shorter.len() ==> shorter[j] == panes[j]);
    }
}

} // verus!
