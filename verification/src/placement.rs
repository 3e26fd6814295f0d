//! Where the notification overlay anchors on screen: the first panel or dock
//! plugin list that carries the notifications applet decides the corner, by
//! the panel's own edge and which of its plugin lists (start, center or end)
//! holds the applet; the matching output name travels along.

use crate::config::Anchor;
use crate::strutil::str_eq;
use vstd::prelude::*;

verus! {

/// The screen edge a panel or dock sits on.
#[derive(Debug, Clone, Copy, PartialEq, Eq)]
pub enum PanelAnchor {
    Top,
    Bottom,
    Left,
    Right,
}

/// What the daemon reads of one panel or dock configuration: its edge, the
/// output it is pinned to (if it names one), and its three plugin lists.
#[derive(Debug, Clone, PartialEq, Eq)]
pub struct PanelPlacement {
    pub anchor: PanelAnchor,
    pub output: Option<String>,
    pub plugins_left: Option<Vec<String>>,
    pub plugins_center: Option<Vec<String>>,
    pub plugins_right: Option<Vec<String>>,
}

/// Spec-level shape of a [`PanelPlacement`].
pub struct PanelPlacementV {
    pub anchor: PanelAnchor,
    pub output: Option<Seq<char>>,
    pub plugins_left: Option<Seq<Seq<char>>>,
    pub plugins_center: Option<Seq<Seq<char>>>,
    pub plugins_right: Option<Seq<Seq<char>>>,
}

/// The view of an optional string.
pub open spec fn opt_str_view(o: Option<String>) -> Option<Seq<char>> {
    match o {
        Some(s) => Some(s@),
        None => None,
    }
}

/// The view of an optional plugin list.
pub open spec fn opt_list_view(o: Option<Vec<String>>) -> Option<Seq<Seq<char>>> {
    match o {
        Some(l) => Some(crate::model::strings_view(l@)),
        None => None,
    }
}

impl View for PanelPlacement {
    type V = PanelPlacementV;

    open spec fn view(&self) -> PanelPlacementV {
        PanelPlacementV {
            anchor: self.anchor,
            output: opt_str_view(self.output),
            plugins_left: opt_list_view(self.plugins_left),
            plugins_center: opt_list_view(self.plugins_center),
            plugins_right: opt_list_view(self.plugins_right),
        }
    }
}

/// Whether a plugin list exists and names the applet.
pub open spec fn spec_list_has(l: Option<Seq<Seq<char>>>, name: Seq<char>) -> bool {
    match l {
        Some(entries) => exists|i: int| 0 <= i < entries.len() && #[trigger] entries[i] == name,
        None => false,
    }
}

/// The overlay corner for an applet found in a panel's start-side list.
pub open spec fn spec_start_anchor(edge: PanelAnchor) -> Anchor {
    match edge {
        PanelAnchor::Top => Anchor::TopLeft,
        PanelAnchor::Bottom => Anchor::BottomLeft,
        PanelAnchor::Left => Anchor::TopLeft,
        PanelAnchor::Right => Anchor::TopRight,
    }
}

/// The overlay corner for an applet found in a panel's end-side list.
pub open spec fn spec_end_anchor(edge: PanelAnchor) -> Anchor {
    match edge {
        PanelAnchor::Top => Anchor::TopRight,
        PanelAnchor::Bottom => Anchor::BottomRight,
        PanelAnchor::Left => Anchor::BottomLeft,
        PanelAnchor::Right => Anchor::BottomRight,
    }
}

/// The overlay edge for an applet found in a panel's center list.
pub open spec fn spec_center_anchor(edge: PanelAnchor) -> Anchor {
    match edge {
        PanelAnchor::Top => Anchor::Top,
        PanelAnchor::Bottom => Anchor::Bottom,
        PanelAnchor::Left => Anchor::Left,
        PanelAnchor::Right => Anchor::Right,
    }
}

/// The anchor and output for the overlay: the first list holding the applet
/// decides, searching the panel's start, end and center lists, then the
/// dock's; a daemon whose applet is nowhere anchors to the top of the
/// default output.
pub open spec fn spec_overlay_placement(
    panel: PanelPlacementV,
    dock: PanelPlacementV,
    applet: Seq<char>,
) -> (Anchor, Option<Seq<char>>) {
    if spec_list_has(panel.plugins_left, applet) {
        (spec_start_anchor(panel.anchor), panel.output)
    } else if spec_list_has(panel.plugins_right, applet) {
        (spec_end_anchor(panel.anchor), panel.output)
    } else if spec_list_has(panel.plugins_center, applet) {
        (spec_center_anchor(panel.anchor), panel.output)
    } else if spec_list_has(dock.plugins_left, applet) {
        (spec_start_anchor(dock.anchor), dock.output)
    } else if spec_list_has(dock.plugins_right, applet) {
        (spec_end_anchor(dock.anchor), dock.output)
    } else if spec_list_has(dock.plugins_center, applet) {
        (spec_center_anchor(dock.anchor), dock.output)
    } else {
        (Anchor::Top, None)
    }
}

/// Whether the list exists and names the applet.
#[verifier::loop_isolation(false)]
fn list_has(l: &Option<Vec<String>>, name: &str) -> (r: bool)
    ensures
        r == spec_list_has(opt_list_view(*l), name@),
{
    match l {
        Some(entries) => {
            let n = entries.len();
            let mut i: usize = 0;
            while i < n
                invariant
                    n == entries@.len(),
                    i <= n,
                    forall|j: int|
                        0 <= j < i ==> crate::model::strings_view(entries@)[j] != name@,
                decreases n - i,
            {
                if str_eq(entries[i].as_str(), name) {
                    proof {
                        let entries_v = crate::model::strings_view(entries@);
                        let gi = i as int;
                        assert(opt_list_view(*l) == Some(entries_v));
                        assert(0 <= gi && gi < entries_v.len() && entries_v[gi] == name@);
                        assert(opt_list_view(*l) matches Some(ev2) && ev2[gi] == name@
                            && 0 <= gi < ev2.len());
                        assert(spec_list_has(opt_list_view(*l), name@));
                    }
                    return true;
                }
                proof {
                    assert(crate::model::strings_view(entries@)[i as int] == entries@[i as int]@);
                }
                i += 1;
            }
            false
        },
        None => false,
    }
}

fn clone_output(o: &Option<String>) -> (r: Option<String>)
    ensures
        opt_str_view(r) == opt_str_view(*o),
{
    match o {
        Some(s) => Some(s.clone()),
        None => None,
    }
}

/// Picks the overlay's anchor and output from the panel and dock
/// configurations, per `spec_overlay_placement`.
pub fn anchor_for_notification_applet(
    panel: &PanelPlacement,
    dock: &PanelPlacement,
    applet: &str,
) -> (r: (Anchor, Option<String>))
    ensures
        ({
            let expected = spec_overlay_placement(panel@, dock@, applet@);
            r.0 == expected.0 && opt_str_view(r.1) == expected.1
        }),
{
    let start_of = |edge: &PanelAnchor| -> (a: Anchor)
        ensures
            a == spec_start_anchor(*edge),
        {
            match edge {
                PanelAnchor::Top => Anchor::TopLeft,
                PanelAnchor::Bottom => Anchor::BottomLeft,
                PanelAnchor::Left => Anchor::TopLeft,
                PanelAnchor::Right => Anchor::TopRight,
            }
        };
    let end_of = |edge: &PanelAnchor| -> (a: Anchor)
        ensures
            a == spec_end_anchor(*edge),
        {
            match edge {
                PanelAnchor::Top => Anchor::TopRight,
                PanelAnchor::Bottom => Anchor::BottomRight,
                PanelAnchor::Left => Anchor::BottomLeft,
                PanelAnchor::Right => Anchor::BottomRight,
            }
        };
    let center_of = |edge: &PanelAnchor| -> (a: Anchor)
        ensures
            a == spec_center_anchor(*edge),
        {
            match edge {
                PanelAnchor::Top => Anchor::Top,
                PanelAnchor::Bottom => Anchor::Bottom,
                PanelAnchor::Left => Anchor::Left,
                PanelAnchor::Right => Anchor::Right,
            }
        };
    if list_has(&panel.plugins_left, applet) {
        (start_of(&panel.anchor), clone_output(&panel.output))
    } else if list_has(&panel.plugins_right, applet) {
        (end_of(&panel.anchor), clone_output(&panel.output))
    } else if list_has(&panel.plugins_center, applet) {
        (center_of(&panel.anchor), clone_output(&panel.output))
    } else if list_has(&dock.plugins_left, applet) {
        (start_of(&dock.anchor), clone_output(&dock.output))
    } else if list_has(&dock.plugins_right, applet) {
        (end_of(&dock.anchor), clone_output(&dock.output))
    } else if list_has(&dock.plugins_center, applet) {
        (center_of(&dock.anchor), clone_output(&dock.output))
    } else {
        (Anchor::Top, None)
    }
}

} // verus!
