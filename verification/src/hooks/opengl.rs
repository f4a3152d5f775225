//! Hooks of OpenGL: the two functions that swap buffers.

use vstd::prelude::*;

verus! {

/// The functions that were hooked.
#[derive(Debug, Clone, Copy, PartialEq, Eq, Structural)]
pub struct OpenGlHooks {
    pub wgl_swap_buffers: u64,
    pub gdi_swap_buffers: u64,
    pub installed: bool,
}

impl OpenGlHooks {
    pub fn new() -> (h: OpenGlHooks)
        ensures
            h == (OpenGlHooks { wgl_swap_buffers: 0, gdi_swap_buffers: 0, installed: false }),
    {
        OpenGlHooks { wgl_swap_buffers: 0, gdi_swap_buffers: 0, installed: false }
    }

    /// Takes the trampolines of the functions that could be hooked. One is enough;
    /// hooks that are installed already stay as they are.
    pub fn install(&mut self, wgl: Option<u64>, gdi: Option<u64>) -> (ok: bool)
        ensures
            ok == (old(self).installed || wgl is Some || gdi is Some),
            *final(self) == if old(self).installed {
                *old(self)
            } else {
                OpenGlHooks {
                    wgl_swap_buffers: match wgl {
                        Some(f) => f,
                        None => old(self).wgl_swap_buffers,
                    },
                    gdi_swap_buffers: match gdi {
                        Some(f) => f,
                        None => old(self).gdi_swap_buffers,
                    },
                    installed: ok,
                }
            },
    {
        if self.installed {
            return true;
        }
        match wgl {
            Some(f) => {
                self.wgl_swap_buffers = f;
                self.installed = true;
            },
            None => {},
        }
        match gdi {
            Some(f) => {
                self.gdi_swap_buffers = f;
                self.installed = true;
            },
            None => {},
        }
        self.installed
    }

    pub fn uninstall(&mut self)
        ensures
            *final(self) == (OpenGlHooks { installed: false, ..*old(self) }),
    {
        self.installed = false;
    }
}

} // verus!
