use cosmic_notifications::config::Anchor;
use cosmic_notifications::placement::{
    anchor_for_notification_applet, PanelAnchor, PanelPlacement,
};

const APPLET: &str = "com.system76.CosmicAppletNotifications";

fn placement(anchor: PanelAnchor) -> PanelPlacement {
    PanelPlacement {
        anchor,
        output: None,
        plugins_left: None,
        plugins_center: None,
        plugins_right: None,
    }
}

#[test]
fn applet_in_panel_start_list_anchors_to_its_corner() {
    let mut panel = placement(PanelAnchor::Top);
    panel.plugins_left = Some(vec!["clock".to_string(), APPLET.to_string()]);
    panel.output = Some("DP-1".to_string());
    let dock = placement(PanelAnchor::Bottom);
    let (anchor, output) = anchor_for_notification_applet(&panel, &dock, APPLET);
    assert_eq!(anchor, Anchor::TopLeft);
    assert_eq!(output, Some("DP-1".to_string()));
}

#[test]
fn applet_in_panel_end_list_anchors_opposite() {
    let mut panel = placement(PanelAnchor::Bottom);
    panel.plugins_right = Some(vec![APPLET.to_string()]);
    let dock = placement(PanelAnchor::Top);
    let (anchor, output) = anchor_for_notification_applet(&panel, &dock, APPLET);
    assert_eq!(anchor, Anchor::BottomRight);
    assert_eq!(output, None);
}

#[test]
fn panel_wins_over_dock() {
    let mut panel = placement(PanelAnchor::Left);
    panel.plugins_center = Some(vec![APPLET.to_string()]);
    let mut dock = placement(PanelAnchor::Right);
    dock.plugins_left = Some(vec![APPLET.to_string()]);
    let (anchor, _) = anchor_for_notification_applet(&panel, &dock, APPLET);
    assert_eq!(anchor, Anchor::Left);
}

#[test]
fn dock_is_searched_when_panel_lacks_the_applet() {
    let panel = placement(PanelAnchor::Top);
    let mut dock = placement(PanelAnchor::Right);
    dock.plugins_center = Some(vec![APPLET.to_string()]);
    dock.output = Some("HDMI-1".to_string());
    let (anchor, output) = anchor_for_notification_applet(&panel, &dock, APPLET);
    assert_eq!(anchor, Anchor::Right);
    assert_eq!(output, Some("HDMI-1".to_string()));
}

#[test]
fn missing_applet_defaults_to_top() {
    let panel = placement(PanelAnchor::Left);
    let dock = placement(PanelAnchor::Right);
    let (anchor, output) = anchor_for_notification_applet(&panel, &dock, APPLET);
    assert_eq!(anchor, Anchor::Top);
    assert_eq!(output, None);
}
