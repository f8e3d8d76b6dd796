//! Overlay panels and the stack that routes input to them.
//!
//! - [`Handled`] / [`CtrlCAction`]: what a panel answers to a key or Ctrl+C.
//! - [`Panel`]: the interactive panels of the UI (selection list, approval).
//! - [`PaneStack`]: a stack of panels over an optional base panel; input
//!   goes to the top panel (or the base when the stack is empty), and after
//!   a handled key the completed panels on top are removed.

use vstd::prelude::*;
use crate::approval::{approval_height_is, approval_key_step, height_fits, ApprovalOverlay};
use crate::key::KeyEvent;
use crate::selection::{
    selection_height, selection_height_fits, selection_key, SelectionList, SelectionState,
};

verus! {

/// Whether a key event was consumed by a panel.
#[derive(Debug, Clone, Copy, PartialEq, Eq, Structural)]
pub enum Handled {
    /// Event was consumed; do not propagate further.
    Handled,
    /// Event was not consumed; may be passed to the next handler.
    NotHandled,
}

/// How a panel responds to Ctrl+C.
#[derive(Debug, Clone, Copy, PartialEq, Eq, Structural)]
pub enum CtrlCAction {
    /// Not handled; propagate to the next handler.
    NotHandled,
    /// Handled without cancelling; the application continues.
    Handled,
    /// The panel wants to cancel the current operation (e.g. close itself).
    Cancel,
}

/// An interactive panel that can be pushed onto a [`PaneStack`].
pub enum Panel {
    Selection(SelectionList),
    Approval(ApprovalOverlay),
}

/// A panel's internal consistency.
pub open spec fn panel_wf(p: Panel) -> bool {
    match p {
        Panel::Selection(s) => s.wf(),
        Panel::Approval(_) => true,
    }
}

/// Whether a panel is done (its decision is made).
pub open spec fn panel_complete(p: Panel) -> bool {
    match p {
        Panel::Selection(s) => s.state().confirmed,
        Panel::Approval(a) => a.spec_result() is Some,
    }
}

/// Whether a panel's height can be computed without overflow.
pub open spec fn panel_height_fits(p: Panel) -> bool {
    match p {
        Panel::Selection(s) => selection_height_fits(s.state()),
        Panel::Approval(a) => height_fits(a.spec_request(), a.spec_error() is Some),
    }
}

/// Whether `h` is the height a panel asks for.
pub open spec fn panel_height_is(p: Panel, h: u16) -> bool {
    match p {
        Panel::Selection(s) => h == selection_height(s.state()),
        Panel::Approval(a) => approval_height_is(a, h),
    }
}

/// What a key does to a panel: `p` before, `q` after, `h` the answer.
pub open spec fn panel_key_step(p: Panel, q: Panel, key: KeyEvent, h: Handled) -> bool {
    match (p, q) {
        (Panel::Selection(a), Panel::Selection(b)) => {
            &&& b.wf()
            &&& b.state() == selection_key(a.state(), key).0
            &&& h == selection_key(a.state(), key).1
            &&& b.spec_title() == a.spec_title()
        },
        (Panel::Approval(a), Panel::Approval(b)) => approval_key_step(a, b, key, h),
        _ => false,
    }
}

/// What Ctrl+C does to a panel: both panels close (a selection without a
/// result, an approval denied) and say they handled it.
pub open spec fn panel_ctrl_c_step(p: Panel, q: Panel, a: CtrlCAction) -> bool {
    &&& a == CtrlCAction::Handled
    &&& panel_wf(q)
    &&& panel_complete(q)
    &&& match (p, q) {
        (Panel::Selection(x), Panel::Selection(y)) => y.state() == (SelectionState {
            confirmed: true,
            ..x.state()
        }) && y.spec_title() == x.spec_title(),
        (Panel::Approval(x), Panel::Approval(y)) => y.spec_result() == Some(
            crate::approval::ApprovalResult::Deny,
        ) && y.spec_request() == x.spec_request() && y.spec_show_diff() == x.spec_show_diff()
            && y.spec_error() == x.spec_error(),
        _ => false,
    }
}

impl Panel {
    /// Routes a key to the panel.
    pub fn handle_key_event(&mut self, key: KeyEvent) -> (h: Handled)
        requires
            panel_wf(*old(self)),
        ensures
            panel_wf(*final(self)),
            panel_key_step(*old(self), *final(self), key, h),
    {
        match self {
            Panel::Selection(s) => s.handle_key_event(key),
            Panel::Approval(a) => a.handle_key_event(key),
        }
    }

    /// Whether the panel is done.
    pub fn is_complete(&self) -> (b: bool)
        ensures
            b == panel_complete(*self),
    {
        match self {
            Panel::Selection(s) => s.is_complete(),
            Panel::Approval(a) => a.is_complete(),
        }
    }

    /// Ctrl+C on the panel.
    pub fn on_ctrl_c(&mut self) -> (a: CtrlCAction)
        requires
            panel_wf(*old(self)),
        ensures
            panel_ctrl_c_step(*old(self), *final(self), a),
    {
        match self {
            Panel::Selection(s) => s.on_ctrl_c(),
            Panel::Approval(o) => o.on_ctrl_c(),
        }
    }

    /// Rows the panel asks for.
    pub fn desired_height(&self, width: u16) -> (h: u16)
        requires
            panel_height_fits(*self),
        ensures
            panel_height_is(*self, h),
    {
        match self {
            Panel::Selection(s) => s.desired_height(width),
            Panel::Approval(a) => a.desired_height(width),
        }
    }

    /// The panel's identifier.
    pub fn view_id(&self) -> (r: Option<&'static str>)
        ensures
            r matches Some(s) && s@ == match *self {
                Panel::Selection(_) => "selection"@,
                Panel::Approval(_) => "approval"@,
            },
    {
        match self {
            Panel::Selection(s) => s.view_id(),
            Panel::Approval(a) => a.view_id(),
        }
    }
}

/// The stack after the completed panels on top are removed.
pub open spec fn strip_complete(s: Seq<Panel>) -> Seq<Panel>
    decreases s.len(),
{
    if s.len() > 0 && panel_complete(s.last()) {
        strip_complete(s.drop_last())
    } else {
        s
    }
}

/// All panels are consistent.
pub open spec fn all_wf(s: Seq<Panel>) -> bool {
    forall|i: int| 0 <= i < s.len() ==> panel_wf(#[trigger] s[i])
}

/// What a key does to a stack: the top overlay (or, with none, the base
/// panel) takes it; after a handled key the completed overlays on top are
/// removed.
pub open spec fn stack_key_step(a: PaneStack, b: PaneStack, key: KeyEvent, h: Handled) -> bool {
    if a.spec_stack().len() > 0 {
        exists|q: Panel|
            panel_key_step(a.spec_stack().last(), q, key, h) && b.spec_stack() == if h
                == Handled::Handled {
                strip_complete(a.spec_stack().drop_last().push(q))
            } else {
                a.spec_stack().drop_last().push(q)
            } && b.spec_base() == a.spec_base()
    } else {
        b.spec_stack().len() == 0 && match a.spec_base() {
            Some(p) => exists|q: Panel| panel_key_step(p, q, key, h) && b.spec_base() == Some(q),
            None => h == Handled::NotHandled && b.spec_base() is None,
        }
    }
}

/// What Ctrl+C does to a stack: the top overlay (or the base panel) takes
/// it; nothing is removed.
pub open spec fn stack_ctrl_c_step(a: PaneStack, b: PaneStack, act: CtrlCAction) -> bool {
    if a.spec_stack().len() > 0 {
        exists|q: Panel|
            panel_ctrl_c_step(a.spec_stack().last(), q, act) && b.spec_stack()
                == a.spec_stack().drop_last().push(q) && b.spec_base() == a.spec_base()
    } else {
        b.spec_stack().len() == 0 && match a.spec_base() {
            Some(p) => exists|q: Panel| panel_ctrl_c_step(p, q, act) && b.spec_base() == Some(q),
            None => act == CtrlCAction::NotHandled && b.spec_base() is None,
        }
    }
}

/// A stack of overlay panels with an optional base panel.
pub struct PaneStack {
    /// The overlays, the top one last.
    stack: Vec<Panel>,
    /// The panel that receives input when no overlay is shown.
    base: Option<Panel>,
}

impl PaneStack {
    /// The overlays, the top one last.
    pub closed spec fn spec_stack(&self) -> Seq<Panel> {
        self.stack@
    }

    /// The base panel.
    pub closed spec fn spec_base(&self) -> Option<Panel> {
        self.base
    }

    /// Every panel is consistent.
    pub open spec fn wf(&self) -> bool {
        &&& all_wf(self.spec_stack())
        &&& (self.spec_base() matches Some(b) ==> panel_wf(b))
    }

    /// An empty stack without a base panel.
    pub fn new() -> (s: Self)
        ensures
            s.wf(),
            s.spec_stack().len() == 0,
            s.spec_base() is None,
    {
        PaneStack { stack: Vec::new(), base: None }
    }

    /// Sets the base panel.
    pub fn set_base(&mut self, base: Panel)
        requires
            old(self).wf(),
            panel_wf(base),
        ensures
            final(self).wf(),
            final(self).spec_base() == Some(base),
            final(self).spec_stack() == old(self).spec_stack(),
    {
        self.base = Some(base);
    }

    /// Pushes an overlay on top.
    pub fn push(&mut self, pane: Panel)
        requires
            old(self).wf(),
            panel_wf(pane),
        ensures
            final(self).wf(),
            final(self).spec_stack() == old(self).spec_stack().push(pane),
            final(self).spec_base() == old(self).spec_base(),
    {
        self.stack.push(pane);
    }

    /// Removes the top overlay.
    pub fn pop(&mut self) -> (r: Option<Panel>)
        requires
            old(self).wf(),
        ensures
            final(self).wf(),
            final(self).spec_base() == old(self).spec_base(),
            old(self).spec_stack().len() == 0 ==> r is None && final(self).spec_stack() == old(
                self,
            ).spec_stack(),
            old(self).spec_stack().len() > 0 ==> r == Some(old(self).spec_stack().last())
                && final(self).spec_stack() == old(self).spec_stack().drop_last(),
    {
        self.stack.pop()
    }

    /// Removes the completed panels from the top.
    fn cleanup_completed(&mut self)
        requires
            old(self).wf(),
        ensures
            final(self).wf(),
            final(self).spec_stack() == strip_complete(old(self).spec_stack()),
            final(self).spec_base() == old(self).spec_base(),
        decreases old(self).spec_stack().len(),
    {
        let n = self.stack.len();
        if n == 0 {
            return;
        }
        if self.stack[n - 1].is_complete() {
            self.stack.pop();
            self.cleanup_completed();
        }
    }

    /// Routes a key to the top overlay, or to the base panel when there is
    /// none.  After a handled key the completed overlays on top are removed.
    pub fn handle_key_event(&mut self, key: KeyEvent) -> (h: Handled)
        requires
            old(self).wf(),
        ensures
            final(self).wf(),
            stack_key_step(*old(self), *final(self), key, h),
    {
        let n = self.stack.len();
        if n > 0 {
            let ghost before = self.stack@;
            let mut top = self.stack.pop().unwrap();
            let h = top.handle_key_event(key);
            let ghost q = top;
            self.stack.push(top);
            proof {
                assert(all_wf(self.stack@));
                assert(self.stack@ == before.drop_last().push(q));
            }
            proof {
                assert(panel_key_step(before.last(), q, key, h));
            }
            if h == Handled::Handled {
                self.cleanup_completed();
            }
            proof {
                assert(panel_key_step(before.last(), q, key, h) && self.stack@ == if h
                    == Handled::Handled {
                    strip_complete(before.drop_last().push(q))
                } else {
                    before.drop_last().push(q)
                });
            }
            h
        } else {
            match &mut self.base {
                Some(b) => b.handle_key_event(key),
                None => Handled::NotHandled,
            }
        }
    }

    /// Routes Ctrl+C to the top overlay, or to the base panel.
    pub fn handle_ctrl_c(&mut self) -> (a: CtrlCAction)
        requires
            old(self).wf(),
        ensures
            final(self).wf(),
            stack_ctrl_c_step(*old(self), *final(self), a),
    {
        let n = self.stack.len();
        if n > 0 {
            let ghost before = self.stack@;
            let mut top = self.stack.pop().unwrap();
            let a = top.on_ctrl_c();
            let ghost q = top;
            self.stack.push(top);
            proof {
                assert(self.stack@ == before.drop_last().push(q));
                assert(panel_ctrl_c_step(before.last(), q, a));
                assert(all_wf(self.stack@));
            }
            a
        } else {
            match &mut self.base {
                Some(b) => b.on_ctrl_c(),
                None => CtrlCAction::NotHandled,
            }
        }
    }

    /// Number of overlays.
    pub fn depth(&self) -> (n: usize)
        ensures
            n == self.spec_stack().len(),
    {
        self.stack.len()
    }

    /// Whether any panel (overlay or base) receives input.
    pub fn is_active(&self) -> (b: bool)
        ensures
            b == (self.spec_stack().len() > 0 || self.spec_base() is Some),
    {
        self.stack.len() > 0 || self.base.is_some()
    }

    /// Rows the stack asks for: those of the panel that receives input, or
    /// none without one.
    pub fn desired_height(&self, width: u16) -> (h: u16)
        requires
            self.spec_stack().len() > 0 ==> panel_height_fits(self.spec_stack().last()),
            self.spec_stack().len() == 0 ==> (self.spec_base() matches Some(b) ==> panel_height_fits(
                b,
            )),
        ensures
            self.spec_stack().len() > 0 ==> panel_height_is(self.spec_stack().last(), h),
            self.spec_stack().len() == 0 ==> match self.spec_base() {
                Some(b) => panel_height_is(b, h),
                None => h == 0,
            },
    {
        let n = self.stack.len();
        if n > 0 {
            self.stack[n - 1].desired_height(width)
        } else {
            match &self.base {
                Some(b) => b.desired_height(width),
                None => 0,
            }
        }
    }

    /// The panel that receives input: the top overlay, else the base.
    pub fn active(&self) -> (r: Option<&Panel>)
        ensures
            self.spec_stack().len() > 0 ==> r == Some(&self.spec_stack().last()),
            self.spec_stack().len() == 0 ==> match self.spec_base() {
                Some(b) => r == Some(&b),
                None => r is None,
            },
    {
        let n = self.stack.len();
        if n > 0 {
            Some(&self.stack[n - 1])
        } else {
            match &self.base {
                Some(b) => Some(b),
                None => None,
            }
        }
    }
}

/// After a handled key, no completed overlay is left on top of the stack.
pub proof fn law_no_completed_overlay_on_top(s: Seq<Panel>)
    ensures
        strip_complete(s).len() > 0 ==> !panel_complete(strip_complete(s).last()),
        strip_complete(s).len() <= s.len(),
        strip_complete(s) == s.take(strip_complete(s).len() as int),
    decreases s.len(),
{
    if s.len() > 0 && panel_complete(s.last()) {
        law_no_completed_overlay_on_top(s.drop_last());
        let t = strip_complete(s.drop_last());
        assert(s.drop_last().take(t.len() as int) =~= s.take(t.len() as int));
    } else {
        assert(s.take(s.len() as int) =~= s);
    }
}

impl Default for PaneStack {
    fn default() -> (s: Self)
        ensures
            s.wf(),
            s.spec_stack().len() == 0,
            s.spec_base() is None,
    {
        Self::new()
    }
}

} // verus!
