//! Hooks of Vulkan: which entry points are answered with a hook, and which function a
//! present call ends up in.

use vstd::prelude::*;

use crate::text::same;

verus! {

/// How a request for an entry point is answered.
#[derive(Debug, Clone, Copy, PartialEq, Eq, Structural)]
pub enum ProcAnswer {
    /// The hook of the present call; the driver's own is asked for and remembered.
    Present,
    /// The hook of the device's request function.
    DeviceProcAddr,
    /// The hook of the instance's request function.
    InstanceProcAddr,
    /// Whatever the driver answers.
    PassThrough,
}

/// The answer to a request made to a device.
pub fn device_proc(name: &str) -> (answer: ProcAnswer)
    ensures
        answer == if name@ == "vkQueuePresentKHR"@ {
            ProcAnswer::Present
        } else if name@ == "vkGetDeviceProcAddr"@ {
            ProcAnswer::DeviceProcAddr
        } else {
            ProcAnswer::PassThrough
        },
{
    if same(name, "vkQueuePresentKHR") {
        ProcAnswer::Present
    } else if same(name, "vkGetDeviceProcAddr") {
        ProcAnswer::DeviceProcAddr
    } else {
        ProcAnswer::PassThrough
    }
}

/// The answer to a request made to an instance: it also knows its own request function.
pub fn instance_proc(name: &str) -> (answer: ProcAnswer)
    ensures
        answer == if name@ == "vkQueuePresentKHR"@ {
            ProcAnswer::Present
        } else if name@ == "vkGetDeviceProcAddr"@ {
            ProcAnswer::DeviceProcAddr
        } else if name@ == "vkGetInstanceProcAddr"@ {
            ProcAnswer::InstanceProcAddr
        } else {
            ProcAnswer::PassThrough
        },
{
    match device_proc(name) {
        ProcAnswer::PassThrough => if same(name, "vkGetInstanceProcAddr") {
            ProcAnswer::InstanceProcAddr
        } else {
            ProcAnswer::PassThrough
        },
        answer => answer,
    }
}

/// What is known of the hooked module.
#[derive(Debug, Clone, Copy, PartialEq, Eq, Structural)]
pub struct VulkanHooks {
    /// The driver's own present function, once it was asked for.
    pub driver_present: u64,
    /// The module's exported present function, where it was hooked.
    pub export_present: u64,
    pub installed: bool,
}

impl VulkanHooks {
    pub fn new() -> (h: VulkanHooks)
        ensures
            h == (VulkanHooks { driver_present: 0, export_present: 0, installed: false }),
    {
        VulkanHooks { driver_present: 0, export_present: 0, installed: false }
    }

    /// The driver answered a request for its present function; zero is no answer.
    pub fn driver_answered(&mut self, present: u64)
        ensures
            *final(self) == (VulkanHooks {
                driver_present: if present != 0 {
                    present
                } else {
                    old(self).driver_present
                },
                ..*old(self)
            }),
    {
        if present != 0 {
            self.driver_present = present;
        }
    }

    /// The function that a present call is handed to: the driver's, else the exported
    /// one; none means that the call succeeds without one.
    pub fn real_present(&self) -> (f: Option<u64>)
        ensures
            f == if self.driver_present != 0 {
                Some(self.driver_present)
            } else if self.export_present != 0 {
                Some(self.export_present)
            } else {
                None
            },
    {
        if self.driver_present != 0 {
            Some(self.driver_present)
        } else if self.export_present != 0 {
            Some(self.export_present)
        } else {
            None
        }
    }

    /// The hooks are installed; the exported present function is hooked where there is
    /// one.
    pub fn install(&mut self, export_present: Option<u64>)
        ensures
            *final(self) == (VulkanHooks {
                installed: true,
                export_present: match export_present {
                    Some(f) => f,
                    None => old(self).export_present,
                },
                ..*old(self)
            }),
    {
        match export_present {
            Some(f) => {
                self.export_present = f;
            },
            None => {},
        }
        self.installed = true;
    }

    pub fn uninstall(&mut self)
        ensures
            *final(self) == (VulkanHooks { installed: false, ..*old(self) }),
    {
        self.installed = false;
    }
}

} // verus!
