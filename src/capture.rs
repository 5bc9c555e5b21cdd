use vstd::prelude::*;
use crate::template::{PaneTemplate, SessionTemplate, SplitType, TemplateMeta, WindowTemplate};

verus! {

/// One window of a live session as the multiplexer lists it: its index,
/// its name, and the working directory of each of its panes in order.
#[derive(Clone, Debug)]
pub struct WindowListing {
    pub index: u32,
    pub name: String,
    pub pane_cwds: Vec<String>,
}

/// The split recorded for the pane at index `i` of a window.
pub open spec fn spec_split_for_index(i: int) -> SplitType {
    if i == 0 {
        SplitType::Full
    } else if i % 2 == 1 {
        SplitType::Horizontal
    } else {
        SplitType::Vertical
    }
}

/// The working directory of a window: that of its first pane, or empty.
pub open spec fn first_cwd(cwds: Seq<String>) -> Seq<char> {
    if cwds.len() == 0 {
        Seq::empty()
    } else {
        cwds[0]@
    }
}

/// The window template captured from one listed window.
pub open spec fn captures_window(w: WindowTemplate, l: WindowListing) -> bool {
    &&& w.name@ == l.name@
    &&& w.cwd@ == first_cwd(l.pane_cwds@)
    &&& w.panes@.len() == l.pane_cwds@.len()
    &&& forall|j: int|
        #![trigger w.panes@[j]]
        0 <= j < w.panes@.len() ==> w.panes@[j].cwd@ == l.pane_cwds@[j]@
            && w.panes@[j].split == spec_split_for_index(j)
}

pub fn split_for_index(i: usize) -> (r: SplitType)
    ensures
        r == spec_split_for_index(i as int),
{
    if i == 0 {
        SplitType::Full
    } else if i % 2 == 1 {
        SplitType::Horizontal
    } else {
        SplitType::Vertical
    }
}

fn capture_window(l: &WindowListing) -> (w: WindowTemplate)
    ensures
        captures_window(w, *l),
{
    let mut panes: Vec<PaneTemplate> = Vec::new();
    let n = l.pane_cwds.len();
    let mut i: usize = 0;
    while i < n
        invariant
            n == l.pane_cwds@.len(),
            i <= n,
            panes@.len() == i,
            forall|j: int|
                #![trigger panes@[j]]
                0 <= j < i ==> panes@[j].cwd@ == l.pane_cwds@[j]@
                    && panes@[j].split == spec_split_for_index(j),
        decreases n - i,
    {
        let split = split_for_index(i);
        panes.push(PaneTemplate { cwd: l.pane_cwds[i].clone(), split });
        i = i + 1;
    }
    let cwd = if n == 0 {
        String::new()
    } else {
        l.pane_cwds[0].clone()
    };
    WindowTemplate { name: l.name.clone(), cwd, panes }
}

/// Turns the listing of a live session into a template named after the
/// session, with an empty description and one window per listed window.
pub fn capture_session_as_template(session_name: &str, windows: &Vec<WindowListing>) -> (r:
    SessionTemplate)
    ensures
        r.template.name@ == session_name@,
        r.template.description@ == Seq::<char>::empty(),
        r.windows@.len() == windows@.len(),
        forall|i: int|
            #![trigger r.windows@[i]]
            0 <= i < windows@.len() ==> captures_window(r.windows@[i], windows@[i]),
{
    let mut out: Vec<WindowTemplate> = Vec::new();
    let mut i: usize = 0;
    while i < windows.len()
        invariant
            i <= windows@.len(),
            out@.len() == i,
            forall|k: int|
                #![trigger out@[k]]
                0 <= k < i ==> captures_window(out@[k], windows@[k]),
        decreases windows@.len() - i,
    {
        let w = capture_window(&windows[i]);
        out.push(w);
        i = i + 1;
    }
    SessionTemplate {
        template: TemplateMeta { name: session_name.to_string(), description: String::new() },
        windows: out,
    }
}

} // verus!
