use vstd::prelude::*;
use vstd::string::StringExecFns;

use crate::numfmt::{fmt_i32, spec_dec_int};

verus! {

/// Monitor transform (rotation/flip), one-to-one with the wire protocol's
/// eight-valued rotation/flip enum.
#[derive(Debug, Clone, Copy, PartialEq, Eq, Structural)]
pub enum WlTransform {
    Normal,
    Rotate90,
    Rotate180,
    Rotate270,
    Flipped,
    Flipped90,
    Flipped180,
    Flipped270,
}

impl WlTransform {
    /// The wire value this transform is carried as in the protocol.
    pub open spec fn spec_to_wayland(self) -> u32 {
        match self {
            WlTransform::Normal => 0,
            WlTransform::Rotate90 => 1,
            WlTransform::Rotate180 => 2,
            WlTransform::Rotate270 => 3,
            WlTransform::Flipped => 4,
            WlTransform::Flipped90 => 5,
            WlTransform::Flipped180 => 6,
            WlTransform::Flipped270 => 7,
        }
    }

    /// The transform a wire value decodes to; unrecognized values
    /// normalize to `Normal`.
    pub open spec fn spec_from_wayland(v: u32) -> WlTransform {
        if v == 1 {
            WlTransform::Rotate90
        } else if v == 2 {
            WlTransform::Rotate180
        } else if v == 3 {
            WlTransform::Rotate270
        } else if v == 4 {
            WlTransform::Flipped
        } else if v == 5 {
            WlTransform::Flipped90
        } else if v == 6 {
            WlTransform::Flipped180
        } else if v == 7 {
            WlTransform::Flipped270
        } else {
            WlTransform::Normal
        }
    }

    /// Decode a wire transform value; anything out of range maps to `Normal`.
    pub fn from_wayland(v: u32) -> (t: WlTransform)
        ensures
            t == WlTransform::spec_from_wayland(v),
    {
        match v {
            1 => WlTransform::Rotate90,
            2 => WlTransform::Rotate180,
            3 => WlTransform::Rotate270,
            4 => WlTransform::Flipped,
            5 => WlTransform::Flipped90,
            6 => WlTransform::Flipped180,
            7 => WlTransform::Flipped270,
            _ => WlTransform::Normal,
        }
    }

    /// Encode this transform as its wire value.
    pub fn to_wayland(self) -> (v: u32)
        ensures
            v == self.spec_to_wayland(),
    {
        match self {
            WlTransform::Normal => 0,
            WlTransform::Rotate90 => 1,
            WlTransform::Rotate180 => 2,
            WlTransform::Rotate270 => 3,
            WlTransform::Flipped => 4,
            WlTransform::Flipped90 => 5,
            WlTransform::Flipped180 => 6,
            WlTransform::Flipped270 => 7,
        }
    }
}

/// Resolution of a monitor mode, in pixels.
#[derive(Debug, Clone, Copy, PartialEq, Eq, Structural)]
pub struct WlResolution {
    /// Height in pixels
    pub height: i32,
    /// Width in pixels
    pub width: i32,
}

impl Default for WlResolution {
    fn default() -> (r: Self)
        ensures
            r == (WlResolution { height: 0, width: 0 }),
    {
        WlResolution { height: 0, width: 0 }
    }
}

/// Position of a monitor in the global coordinate space.
#[derive(Debug, Clone, Copy, PartialEq, Eq, Structural)]
pub struct WlPosition {
    /// X coordinate
    pub x: i32,
    /// Y coordinate
    pub y: i32,
}

impl Default for WlPosition {
    fn default() -> (r: Self)
        ensures
            r == (WlPosition { x: 0, y: 0 }),
    {
        WlPosition { x: 0, y: 0 }
    }
}

/// Output scale factor, held as a fixed-point count of 1/256ths (the
/// granularity the wire protocol transports scales at), together with a
/// flag recording whether the source value was a finite number. A scale
/// is usable only when it is finite and greater than zero.
#[derive(Debug, Clone, Copy, PartialEq, Eq, Structural)]
pub struct WlScale {
    /// Scale numerator; the represented factor is `units / 256`.
    pub units: i32,
    /// Whether the source value was finite (a non-finite request can be
    /// carried here so the engine can reject it).
    pub finite: bool,
}

impl WlScale {
    /// A scale can be applied only when it is finite and greater than zero.
    pub open spec fn spec_valid(self) -> bool {
        self.finite && self.units > 0
    }

    pub fn is_valid(&self) -> (b: bool)
        ensures
            b == self.spec_valid(),
    {
        self.finite && self.units > 0
    }

    /// The identity scale factor, 1.0.
    pub open spec fn spec_one() -> WlScale {
        WlScale { units: 256, finite: true }
    }

    pub fn one() -> (s: WlScale)
        ensures
            s == WlScale::spec_one(),
    {
        WlScale { units: 256, finite: true }
    }

    /// Human-readable rendering of the scale, used in event messages:
    /// the fixed-point value as a fraction over 256, or "non-finite".
    pub open spec fn spec_describe(self) -> Seq<char> {
        if self.finite {
            spec_dec_int(self.units as int) + "/256"@
        } else {
            "non-finite"@
        }
    }

    pub fn describe(&self) -> (s: String)
        ensures
            s@ == self.spec_describe(),
    {
        if self.finite {
            let mut s = fmt_i32(self.units);
            s.append("/256");
            s
        } else {
            String::from_str("non-finite")
        }
    }
}

impl Default for WlScale {
    fn default() -> (r: Self)
        ensures
            r == WlScale::spec_one(),
    {
        WlScale::one()
    }
}

/// A display mode (resolution + refresh rate) supported by a monitor.
/// Identity is the opaque `mode_id` the compositor assigned, together with
/// the owning head's identifier.
#[derive(Debug, Copy, PartialEq, Eq, Structural)]
pub struct WlMonitorMode {
    /// Opaque protocol identifier of this mode
    pub mode_id: u64,
    /// Opaque protocol identifier of the monitor head this mode belongs to
    pub head_id: u64,
    /// Refresh rate in whole Hz
    pub refresh_rate: i32,
    /// Screen resolution
    pub resolution: WlResolution,
    /// Whether this is the preferred mode for the monitor
    pub preferred: bool,
    /// Whether this is the currently active mode
    pub is_current: bool,
}

impl Clone for WlMonitorMode {
    fn clone(&self) -> (r: Self)
        ensures
            r == *self,
    {
        *self
    }
}

impl WlMonitorMode {
    /// A freshly announced mode: all fields at their defaults until the
    /// size/refresh/preferred events arrive.
    pub open spec fn spec_new(mode_id: u64, head_id: u64) -> WlMonitorMode {
        WlMonitorMode {
            mode_id,
            head_id,
            refresh_rate: 0,
            resolution: WlResolution { height: 0, width: 0 },
            preferred: false,
            is_current: false,
        }
    }

    pub fn new(mode_id: u64, head_id: u64) -> (m: WlMonitorMode)
        ensures
            m == WlMonitorMode::spec_new(mode_id, head_id),
    {
        WlMonitorMode {
            mode_id,
            head_id,
            refresh_rate: 0,
            resolution: WlResolution { height: 0, width: 0 },
            preferred: false,
            is_current: false,
        }
    }

    /// Whether this mode matches a requested width/height/refresh triple
    /// exactly.
    pub open spec fn spec_matches_triple(self, width: i32, height: i32, refresh_rate: i32) -> bool {
        self.resolution.width == width && self.resolution.height == height
            && self.refresh_rate == refresh_rate
    }

    pub fn matches_triple(&self, width: i32, height: i32, refresh_rate: i32) -> (b: bool)
        ensures
            b == self.spec_matches_triple(width, height, refresh_rate),
    {
        self.resolution.width == width && self.resolution.height == height
            && self.refresh_rate == refresh_rate
    }
}

/// Mathematical value of a [`WlMonitor`]: the same fields with strings as
/// character sequences and the mode list as a sequence.
#[verifier::ext_equal]
pub struct MonitorView {
    pub head_id: u64,
    pub name: Seq<char>,
    pub description: Seq<char>,
    pub make: Seq<char>,
    pub model: Seq<char>,
    pub serial_number: Seq<char>,
    pub modes: Seq<WlMonitorMode>,
    pub resolution: WlResolution,
    pub position: WlPosition,
    pub scale: WlScale,
    pub enabled: bool,
    pub current_mode: Option<u64>,
    pub transform: WlTransform,
    pub changed: bool,
    pub last_mode: Option<u64>,
}

impl MonitorView {
    /// A freshly announced monitor: empty strings, no modes, disabled,
    /// scale 1.0, transform `Normal`, clean, nothing remembered.
    pub open spec fn init(head_id: u64) -> MonitorView {
        MonitorView {
            head_id,
            name: Seq::empty(),
            description: Seq::empty(),
            make: Seq::empty(),
            model: Seq::empty(),
            serial_number: Seq::empty(),
            modes: Seq::empty(),
            resolution: WlResolution { height: 0, width: 0 },
            position: WlPosition { x: 0, y: 0 },
            scale: WlScale::spec_one(),
            enabled: false,
            current_mode: None,
            transform: WlTransform::Normal,
            changed: false,
            last_mode: None,
        }
    }
}

/// A connected monitor/display: the engine's in-memory mirror of one
/// protocol head. It is populated incrementally as field events arrive,
/// so it may be observed partially filled before a synchronization point.
#[derive(Debug)]
pub struct WlMonitor {
    /// Opaque protocol identifier of the monitor head
    pub head_id: u64,
    /// Monitor name (e.g., "DP-1", "HDMI-A-1")
    pub name: String,
    /// Human-readable description of the monitor
    pub description: String,
    /// Manufacturer name
    pub make: String,
    /// Model name
    pub model: String,
    /// Serial number
    pub serial_number: String,
    /// Available display modes, in compositor announce order
    pub modes: Vec<WlMonitorMode>,
    /// Current resolution
    pub resolution: WlResolution,
    /// Current position in the global coordinate space
    pub position: WlPosition,
    /// Current scale factor
    pub scale: WlScale,
    /// Whether the monitor is currently enabled
    pub enabled: bool,
    /// Identifier of the currently active mode (if any)
    pub current_mode: Option<u64>,
    /// Current transformation (normal, rotated, flipped, etc.)
    pub transform: WlTransform,
    /// Dirty flag: field changes not yet reported as a `Changed` event
    pub changed: bool,
    /// Identifier of the mode held before the monitor was last disabled
    pub last_mode: Option<u64>,
}

impl View for WlMonitor {
    type V = MonitorView;

    open spec fn view(&self) -> MonitorView {
        MonitorView {
            head_id: self.head_id,
            name: self.name@,
            description: self.description@,
            make: self.make@,
            model: self.model@,
            serial_number: self.serial_number@,
            modes: self.modes@,
            resolution: self.resolution,
            position: self.position,
            scale: self.scale,
            enabled: self.enabled,
            current_mode: self.current_mode,
            transform: self.transform,
            changed: self.changed,
            last_mode: self.last_mode,
        }
    }
}

impl Clone for WlMonitor {
    fn clone(&self) -> (r: Self)
        ensures
            r@ == self@,
    {
        let modes = self.modes.clone();
        proof {
            assert(modes@ =~= self.modes@);
        }
        WlMonitor {
            head_id: self.head_id,
            name: self.name.clone(),
            description: self.description.clone(),
            make: self.make.clone(),
            model: self.model.clone(),
            serial_number: self.serial_number.clone(),
            modes,
            resolution: self.resolution,
            position: self.position,
            scale: self.scale,
            enabled: self.enabled,
            current_mode: self.current_mode,
            transform: self.transform,
            changed: self.changed,
            last_mode: self.last_mode,
        }
    }
}

impl WlMonitor {
    /// A freshly announced monitor with default field values.
    pub fn new(head_id: u64) -> (m: WlMonitor)
        ensures
            m@ == MonitorView::init(head_id),
    {
        let m = WlMonitor {
            head_id,
            name: String::new(),
            description: String::new(),
            make: String::new(),
            model: String::new(),
            serial_number: String::new(),
            modes: Vec::new(),
            resolution: WlResolution { height: 0, width: 0 },
            position: WlPosition { x: 0, y: 0 },
            scale: WlScale::one(),
            enabled: false,
            current_mode: None,
            transform: WlTransform::Normal,
            changed: false,
            last_mode: None,
        };
        proof {
            assert(m@ =~= MonitorView::init(head_id));
        }
        m
    }
}

} // verus!
