//! Keeping the editor in step with the settings of a running auto splitter.

use vstd::prelude::*;

use crate::rows::{indents_fit, map_view};
use crate::settings::{SettingsMap, SettingsWidget};
use crate::state::{after_sync, offered, State};

verus! {

/// What the editor asks of the window system.
#[derive(Debug, Clone, Copy, PartialEq, Eq, Structural)]
pub struct FrameRequests {
    /// The widgets have to be updated.
    pub update: bool,
    /// Another animation frame is wanted.
    pub anim_frame: bool,
}

/// Controller that periodically syncs the UI with the runtime's settings.
#[derive(Debug, Clone, Copy)]
pub struct SyncController;

impl SyncController {
    /// An animation frame: syncs with the settings as they are now, and asks
    /// for another frame to keep polling.
    pub fn anim_frame(
        &self,
        state: &mut State,
        widgets: Option<&Vec<SettingsWidget>>,
        settings_map: Option<&SettingsMap>,
    ) -> (r: FrameRequests)
        requires
            indents_fit(offered(widgets)),
        ensures
            final(state)@ == after_sync(old(state)@, offered(widgets), map_view(settings_map)),
            r.update == (final(state)@ != old(state)@),
            r.anim_frame,
    {
        let update = state.sync_from_runtime(widgets, settings_map);
        FrameRequests { update, anim_frame: true }
    }

    /// The editor has been added to a window: asks for the first frame.
    pub fn widget_added(&self) -> (r: FrameRequests)
        ensures
            !r.update,
            r.anim_frame,
    {
        FrameRequests { update: false, anim_frame: true }
    }
}

} // verus!
