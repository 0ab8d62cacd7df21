//! What depends on the platform.
use crate::host::HostMode;
use vstd::prelude::*;

verus! {

/// Operating system.
#[derive(Debug, Clone, Copy, PartialEq, Eq, Structural)]
pub enum Platform {
    Linux,
    MacOs,
    Windows,
}

/// Kind of native window that the host is given.
#[derive(Debug, Clone, Copy, PartialEq, Eq, Structural)]
pub enum WindowHandle {
    AppKit,
    Win32,
    Other,
}

/// The rendering mode for a window: a child window where the platform's own
/// kind of window is given, off-screen rendering otherwise and always on
/// Linux.
pub fn host_mode(platform: Platform, handle: WindowHandle) -> (r: HostMode)
    ensures
        r == if (platform == Platform::MacOs && handle == WindowHandle::AppKit) || (platform
            == Platform::Windows && handle == WindowHandle::Win32) {
            HostMode::Windowed
        } else {
            HostMode::Osr
        },
{
    match (platform, handle) {
        (Platform::MacOs, WindowHandle::AppKit) => HostMode::Windowed,
        (Platform::Windows, WindowHandle::Win32) => HostMode::Windowed,
        _ => HostMode::Osr,
    }
}

/// A command-line switch of the browser runtime.
#[derive(Debug, Clone, Copy, PartialEq, Eq)]
pub struct Switch {
    pub name: &'static str,
    pub value: Option<&'static str>,
}

/// The features switched on, in one list: the runtime only takes the last one
/// given.
pub const ENABLED_FEATURES: &'static str =
    "UseOzonePlatform,VaapiVideoDecodeLinuxGL,AcceleratedVideoDecodeLinuxGL,VaapiVideoEncoder,CanvasOopRasterization";

/// A switch without a value.
pub open spec fn plain_switch(name: &'static str) -> Switch {
    Switch { name, value: None }
}

/// The switches for every launch.
pub open spec fn base_switches() -> Seq<Switch> {
    seq![
        Switch { name: "enable-features", value: Some(ENABLED_FEATURES) },
        plain_switch("enable-gpu"),
        plain_switch("enable-gpu-compositing"),
        plain_switch("enable-gpu-rasterization"),
        plain_switch("enable-zero-copy"),
        plain_switch("ignore-gpu-blocklist"),
        plain_switch("no-sandbox"),
    ]
}

/// The switches to append, in order. The accessibility tree is only forced on
/// request.
pub fn command_line_switches(force_accessibility: bool) -> (r: Vec<Switch>)
    ensures
        r@ == if force_accessibility {
            base_switches().push(plain_switch("force-renderer-accessibility"))
        } else {
            base_switches()
        },
{
    let mut out: Vec<Switch> = Vec::new();
    out.push(Switch { name: "enable-features", value: Some(ENABLED_FEATURES) });
    out.push(Switch { name: "enable-gpu", value: None });
    out.push(Switch { name: "enable-gpu-compositing", value: None });
    out.push(Switch { name: "enable-gpu-rasterization", value: None });
    out.push(Switch { name: "enable-zero-copy", value: None });
    out.push(Switch { name: "ignore-gpu-blocklist", value: None });
    out.push(Switch { name: "no-sandbox", value: None });
    assert(out@ =~= base_switches());
    if force_accessibility {
        out.push(Switch { name: "force-renderer-accessibility", value: None });
    }
    out
}

/// The switches of every launch, in order: the list of features and six
/// switches without a value.
pub proof fn law_base_switches()
    ensures
        base_switches().len() == 7,
        base_switches()[0] == (Switch { name: "enable-features", value: Some(ENABLED_FEATURES) }),
        base_switches()[1] == (Switch { name: "enable-gpu", value: None }),
        base_switches()[2] == (Switch { name: "enable-gpu-compositing", value: None }),
        base_switches()[3] == (Switch { name: "enable-gpu-rasterization", value: None }),
        base_switches()[4] == (Switch { name: "enable-zero-copy", value: None }),
        base_switches()[5] == (Switch { name: "ignore-gpu-blocklist", value: None }),
        base_switches()[6] == (Switch { name: "no-sandbox", value: None }),
        plain_switch("force-renderer-accessibility") == (Switch {
            name: "force-renderer-accessibility",
            value: None,
        }),
{
}

} // verus!
