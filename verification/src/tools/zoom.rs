use crate::tools::panning::Reaction;
use vstd::prelude::*;

verus! {

/// What a zoom tool asks of the view when it is taken up.
#[derive(Clone, Copy, Debug, PartialEq, Eq, Structural)]
pub enum ZoomStep {
    In,
    Out,
}

/// The tool that zooms in. It acts when it is taken up and leaves all
/// pointer events to others.
#[derive(Clone, Copy, Debug, PartialEq, Eq, Structural)]
pub struct ZoomInTool;

/// The tool that zooms out. It acts when it is taken up and leaves all
/// pointer events to others.
#[derive(Clone, Copy, Debug, PartialEq, Eq, Structural)]
pub struct ZoomOutTool;

impl ZoomInTool {
    pub fn new() -> (tool: Self)
        ensures
            tool == ZoomInTool,
    {
        ZoomInTool
    }

    pub fn on_button_press_event(&self) -> (reaction: Reaction)
        ensures
            reaction == Reaction::quiet(false),
    {
        Reaction::new(false)
    }

    pub fn on_button_release_event(&self) -> (reaction: Reaction)
        ensures
            reaction == Reaction::quiet(false),
    {
        Reaction::new(false)
    }

    pub fn on_motion_notify_event(&self) -> (reaction: Reaction)
        ensures
            reaction == Reaction::quiet(false),
    {
        Reaction::new(false)
    }

    pub fn on_activate(&self) -> (step: ZoomStep)
        ensures
            step == ZoomStep::In,
    {
        ZoomStep::In
    }
}

impl Default for ZoomInTool {
    fn default() -> (tool: Self)
        ensures
            tool == ZoomInTool,
    {
        ZoomInTool
    }
}

impl ZoomOutTool {
    pub fn new() -> (tool: Self)
        ensures
            tool == ZoomOutTool,
    {
        ZoomOutTool
    }

    pub fn on_button_press_event(&self) -> (reaction: Reaction)
        ensures
            reaction == Reaction::quiet(false),
    {
        Reaction::new(false)
    }

    pub fn on_button_release_event(&self) -> (reaction: Reaction)
        ensures
            reaction == Reaction::quiet(false),
    {
        Reaction::new(false)
    }

    pub fn on_motion_notify_event(&self) -> (reaction: Reaction)
        ensures
            reaction == Reaction::quiet(false),
    {
        Reaction::new(false)
    }

    pub fn on_activate(&self) -> (step: ZoomStep)
        ensures
            step == ZoomStep::Out,
    {
        ZoomStep::Out
    }
}

impl Default for ZoomOutTool {
    fn default() -> (tool: Self)
        ensures
            tool == ZoomOutTool,
    {
        ZoomOutTool
    }
}

} // verus!
