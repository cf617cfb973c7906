//! What is known of a game: its executable, what its folder holds, and the
//! names of the files that the install places there.
use vstd::prelude::*;
use crate::gpu::Tier;

verus! {

pub const RESHADE_PROXY: &'static str = "dxgi.dll";

pub const RESHADE_INI: &'static str = "ReShade.ini";

pub const RESHADE_PRESET: &'static str = "ReShadePreset.ini";

pub const FEEDER_ADDON: &'static str = "dlss5-feed.addon64";

pub const FEEDER_ADDON32: &'static str = "dlss5-feed.addon32";

pub const FEEDER_FX: &'static str = "DLSS5_Feed.fx";

pub const HOST_DIR: &'static str = "host64";

pub const HOST_EXE: &'static str = "dlss5-feed-host64.exe";

pub const DLSS5_ADDON: &'static str = "renodx-dlss5.addon64";

pub const DLSSNR_DLL: &'static str = "nvngx_dlssnr.dll";

pub const DLSS_DLL: &'static str = "nvngx_dlss.dll";

pub const BRIDGE_ADDON: &'static str = "dlss5-bridge.addon64";

pub const UPSTREAM_ADDON: &'static str = "nvngx.dll.addon64";

pub const REFRAMEWORK_DLL: &'static str = "dinput8.dll";

pub const OPTI_MANIFEST: &'static str = ".dlss5oneclick-optiscaler-manifest";

/// Beside each placed file: the release it came from.
pub const RESHADE_MARKER: &'static str = "dxgi.dll.dlss5oneclick";

pub const FEEDER_MARKER: &'static str = "dlss5-feed.dlss5oneclick";

pub const DLSSNR_MARKER: &'static str = "nvngx_dlssnr.dll.dlss5oneclick";

pub const DLSS_MARKER: &'static str = "nvngx_dlss.dll.dlss5oneclick";

pub const REFRAMEWORK_MARKER: &'static str = "dinput8.dll.dlss5oneclick";

/// Names the RenoDX mod that was placed.
pub const RENODX_MANIFEST: &'static str = ".dlss5oneclick-renodx-manifest";

/// The shader headers that ReShade effects build on.
pub const HEADER: &'static str = "ReShade.fxh";

pub const HEADER_UI: &'static str = "ReShadeUI.fxh";

pub const HEADER_TEXT: &'static str = "DrawText.fxh";

/// Where the DLSS inputs come from: the game's own DLSS, or the feeder.
#[derive(Debug, Clone, Copy, PartialEq, Eq, Structural)]
pub enum Mode {
    Feeder,
    Native,
}

/// The graphics interface that the game renders with.
#[derive(Debug, Clone, Copy, PartialEq, Eq, Structural)]
pub enum Api {
    Dx9,
    Dx11,
    Dx12,
    Other,
}

/// The state of a game and its folder.
#[derive(Debug, Clone)]
pub struct GameStatus {
    /// File name of the executable.
    pub exe_name: Option<String>,
    pub bitness: u8,
    pub mode: Mode,
    pub mode_detected: Mode,
    pub api: Api,
    pub api_detected: Api,
    pub reshade: bool,
    pub headers: bool,
    pub feeder: bool,
    pub lumenite: bool,
    pub dlss5_addon: bool,
    pub upstream: bool,
    pub aio: bool,
    pub dlssnr: bool,
    pub dlss: bool,
    pub bridge: bool,
    pub opti: bool,
    pub mfg: bool,
    pub reframework: bool,
    pub re_engine: bool,
    pub host_exe: bool,
    pub host_reshade: bool,
    pub rt_likely: bool,
    /// An anti-cheat runs with the game.
    pub anticheat: bool,
    /// Class of the graphics card that was found for the game.
    pub gpu: Option<Tier>,
    /// Reasons why nothing can be installed.
    pub problems: Vec<String>,
    /// A reason why the ReShade engine cannot be used.
    pub reshade_problem: Option<String>,
}

impl GameStatus {
    pub open spec fn is_32(self) -> bool {
        self.bitness == 32
    }

    /// A game whose own DLSS runs on D3D11.
    pub open spec fn wants_bridge(self) -> bool {
        self.mode == Mode::Native && self.api == Api::Dx11
    }

    pub fn is32(&self) -> (r: bool)
        ensures
            r == self.is_32(),
    {
        self.bitness == 32
    }

    pub fn needs_bridge(&self) -> (r: bool)
        ensures
            r == self.wants_bridge(),
    {
        self.mode == Mode::Native && self.api == Api::Dx11
    }
}

} // verus!
