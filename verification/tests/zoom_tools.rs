use gerb::tools::panning::Reaction;
use gerb::tools::zoom::{ZoomInTool, ZoomOutTool, ZoomStep};

#[test]
fn zoom_tools_act_when_taken_up() {
    assert_eq!(ZoomInTool::new().on_activate(), ZoomStep::In);
    assert_eq!(ZoomOutTool::new().on_activate(), ZoomStep::Out);
    assert_eq!(ZoomInTool::default(), ZoomInTool::new());
    assert_eq!(ZoomOutTool::default(), ZoomOutTool::new());
}

#[test]
fn zoom_tools_leave_pointer_events_to_others() {
    let pass = Reaction::new(false);
    let zoom_in = ZoomInTool::new();
    assert_eq!(zoom_in.on_button_press_event(), pass);
    assert_eq!(zoom_in.on_button_release_event(), pass);
    assert_eq!(zoom_in.on_motion_notify_event(), pass);
    let zoom_out = ZoomOutTool::new();
    assert_eq!(zoom_out.on_button_press_event(), pass);
    assert_eq!(zoom_out.on_button_release_event(), pass);
    assert_eq!(zoom_out.on_motion_notify_event(), pass);
}
