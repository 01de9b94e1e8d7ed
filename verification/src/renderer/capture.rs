//! View publishing to the host and window capture requests.
use vstd::prelude::*;
use super::{Error, Renderer, ViewId};
use crate::vk_values::{
    ACCESS_COLOR_ATTACHMENT_WRITE, ACCESS_NONE, ACCESS_SHADER_SAMPLED_READ, ACCESS_SHADER_STORAGE_WRITE,
    LAYOUT_COLOR_ATTACHMENT_OPTIMAL, LAYOUT_SHADER_READ_ONLY_OPTIMAL, STAGE_COLOR_ATTACHMENT_OUTPUT,
    STAGE_COMPUTE_SHADER, STAGE_FRAGMENT_SHADER, STAGE_TOP_OF_PIPE,
};

verus! {

/// The scope the offscreen's last use leaves behind, by the layout it rests in: sampled by a
/// fragment shader after an earlier read-back, written as a color attachment or storage image
/// by the post chain, or nothing to wait on.
pub open spec fn spec_offscreen_source_scope(layout: i32) -> (u64, u64) {
    if layout == LAYOUT_SHADER_READ_ONLY_OPTIMAL {
        (STAGE_FRAGMENT_SHADER, ACCESS_SHADER_SAMPLED_READ)
    } else if layout == LAYOUT_COLOR_ATTACHMENT_OPTIMAL {
        (STAGE_COLOR_ATTACHMENT_OUTPUT | STAGE_COMPUTE_SHADER, ACCESS_COLOR_ATTACHMENT_WRITE | ACCESS_SHADER_STORAGE_WRITE)
    } else {
        (STAGE_TOP_OF_PIPE, ACCESS_NONE)
    }
}

/// The `(stage, access)` scope a publish read-back waits on before it blits the offscreen in
/// `layout`.
pub fn offscreen_source_scope(layout: i32) -> (r: (u64, u64))
    ensures
        r == spec_offscreen_source_scope(layout),
{
    if layout == LAYOUT_SHADER_READ_ONLY_OPTIMAL {
        (STAGE_FRAGMENT_SHADER, ACCESS_SHADER_SAMPLED_READ)
    } else if layout == LAYOUT_COLOR_ATTACHMENT_OPTIMAL {
        (STAGE_COLOR_ATTACHMENT_OUTPUT | STAGE_COMPUTE_SHADER, ACCESS_COLOR_ATTACHMENT_WRITE | ACCESS_SHADER_STORAGE_WRITE)
    } else {
        (STAGE_TOP_OF_PIPE, ACCESS_NONE)
    }
}

/// Whether a publish read-back is recorded this frame: the view renders something and the
/// ring slot holds a capture sized to the published extent (an absent or stale slot waits for
/// the next frame, whose resize seam sizes it).
pub fn shm_copy_runs(render_extent: (u32, u32), slot_extent: Option<(u32, u32)>, publish_extent: (u32, u32)) -> (r: bool)
    ensures
        r == (render_extent.0 != 0 && render_extent.1 != 0 && slot_extent == Some(publish_extent)),
{
    if render_extent.0 == 0 || render_extent.1 == 0 {
        return false;
    }
    match slot_extent {
        Some(e) => e.0 == publish_extent.0 && e.1 == publish_extent.1,
        None => false,
    }
}

/// The message a window capture request is refused with when the host presents to no window.
pub open spec fn spec_no_swapchain_message() -> Seq<char> {
    "window capture unsupported: the editor/headless host has no present swapchain"@
}

/// The message a window capture request is refused with when presented images cannot be
/// copied.
pub open spec fn spec_no_transfer_message() -> Seq<char> {
    "window capture unsupported: surface lacks TRANSFER_SRC usage"@
}

impl Renderer {
    /// Sets whether a view's frames are read back for the host's shared-memory publish.
    /// Returns whether the view's capture ring must now be sized for its published extent: only
    /// when publishing is newly armed (the ring is sized while the device is idle).
    pub fn set_shm_publish_enabled(&mut self, view: ViewId, enabled: bool) -> (arm: bool)
        ensures
            final(self).shm_publish_enabled@ == old(self).shm_publish_enabled@.update(view.spec_index(), enabled),
            arm == (enabled && !old(self).shm_publish_enabled@[view.spec_index()]),
            final(self).active_view == old(self).active_view,
            final(self).pending_shm_publish == old(self).pending_shm_publish,
            final(self).capture_next_window_path == old(self).capture_next_window_path,
            *final(self) == (Renderer { shm_publish_enabled: final(self).shm_publish_enabled, ..*old(self) }),
    {
        let i = view.index();
        if self.shm_publish_enabled[i] == enabled {
            assert(self.shm_publish_enabled@ =~= self.shm_publish_enabled@.update(i as int, enabled));
            return false;
        }
        self.shm_publish_enabled.set(i, enabled);
        enabled
    }

    /// Stages a frame slot's completed readback for the host to publish, at the begin-frame
    /// fence wait of `slot`. `capture` is the state of the active view's capture in that slot:
    /// `None` when the slot holds no capture, else whether a readback was recorded into it. The
    /// slot is staged only when the active view publishes and a readback landed.
    pub fn stage_pending_shm_publish(&mut self, slot: usize, capture: Option<bool>)
        ensures
            final(self).pending_shm_publish == (if old(self).shm_publish_enabled@[old(self).active_view.spec_index()]
                && capture == Some(true) {
                Some((old(self).active_view.spec_index() as usize, slot))
            } else {
                None
            }),
            final(self).shm_publish_enabled == old(self).shm_publish_enabled,
            final(self).active_view == old(self).active_view,
            *final(self) == (Renderer { pending_shm_publish: final(self).pending_shm_publish, ..*old(self) }),
    {
        self.pending_shm_publish = None;
        let active = self.active_view.index();
        if !self.shm_publish_enabled[active] {
            return;
        }
        match capture {
            Some(true) => {
                self.pending_shm_publish = Some((active, slot));
            },
            _ => {},
        }
    }

    /// Arms a capture of the next presented window image to `path`.
    ///
    /// # Errors
    ///
    /// [`Error::ShaderLoad`] when the host presents to no window, or when the surface lacks
    /// `TRANSFER_SRC` usage so a presented image cannot be copied.
    pub fn request_window_capture(&mut self, path: &str) -> (r: Result<(), Error>)
        ensures
            old(self).swapchain is None ==> (r matches Err(Error::ShaderLoad(m)) && m@ == spec_no_swapchain_message()),
            (old(self).swapchain matches Some(s) && !s.capture_supported) ==> (r matches Err(Error::ShaderLoad(m))
                && m@ == spec_no_transfer_message()),
            r is Ok <==> (old(self).swapchain matches Some(s) && s.capture_supported),
            r is Ok ==> (final(self).capture_next_window_path matches Some(p) && p@ == path@),
            r is Err ==> final(self).capture_next_window_path == old(self).capture_next_window_path,
            final(self).swapchain == old(self).swapchain,
            final(self).shm_publish_enabled == old(self).shm_publish_enabled,
            *final(self) == (Renderer { capture_next_window_path: final(self).capture_next_window_path, ..*old(self) }),
    {
        match self.swapchain {
            None => {
                Err(
                    Error::ShaderLoad(
                        String::from_str("window capture unsupported: the editor/headless host has no present swapchain"),
                    ),
                )
            },
            Some(swapchain) => {
                if !swapchain.capture_supported {
                    return Err(Error::ShaderLoad(String::from_str("window capture unsupported: surface lacks TRANSFER_SRC usage")));
                }
                self.capture_next_window_path = Some(String::from_str(path));
                Ok(())
            },
        }
    }

    /// Whether a window capture is armed for the next present.
    pub fn window_capture_pending(&self) -> (r: bool)
        ensures
            r == self.capture_next_window_path is Some,
    {
        self.capture_next_window_path.is_some()
    }

    /// Takes the armed window capture's path after a present, disarming it.
    pub fn take_window_capture(&mut self) -> (r: Option<String>)
        ensures
            r == old(self).capture_next_window_path,
            final(self).capture_next_window_path is None,
            final(self).swapchain == old(self).swapchain,
            *final(self) == (Renderer { capture_next_window_path: final(self).capture_next_window_path, ..*old(self) }),
    {
        self.capture_next_window_path.take()
    }
}

} // verus!
