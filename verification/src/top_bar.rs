//! The panel's top bar: its fixed dimensions, and the text cell each
//! applet fills.
use vstd::prelude::*;
use vstd::string::*;

verus! {

/// Height of the top bar in logical pixels.
pub const TOP_BAR_HEIGHT_PX: u16 = 40;

/// Per-zone horizontal padding.
pub const ZONE_PADDING_X: u16 = 12;

/// The applets whose output the top bar shows.
#[derive(Debug, Clone, Copy, PartialEq, Eq, Structural)]
pub enum AppletKind {
    Clock,
    Audio,
    Network,
    MeshStatus,
    StatusCluster,
    SwayCluster,
    NotificationBell,
    Dock,
}

/// One text cell per applet kind, plus a fixed start label.
#[derive(Debug, Clone)]
pub struct TopBarState {
    pub start_label: String,
    pub dock_text: String,
    pub cluster_text: String,
    pub clock_text: String,
    pub audio_text: String,
    pub network_text: String,
    pub mesh_text: String,
    pub status_text: String,
    pub bell_text: String,
}

/// The cells of a top bar, in field order.
pub open spec fn cells(s: TopBarState) -> Seq<Seq<char>> {
    seq![
        s.start_label@,
        s.dock_text@,
        s.cluster_text@,
        s.clock_text@,
        s.audio_text@,
        s.network_text@,
        s.mesh_text@,
        s.status_text@,
        s.bell_text@,
    ]
}

/// The cell an applet kind writes (its index in `cells`).
pub open spec fn cell_of(kind: AppletKind) -> int {
    match kind {
        AppletKind::Dock => 1,
        AppletKind::SwayCluster => 2,
        AppletKind::Clock => 3,
        AppletKind::Audio => 4,
        AppletKind::Network => 5,
        AppletKind::MeshStatus => 6,
        AppletKind::StatusCluster => 7,
        AppletKind::NotificationBell => 8,
    }
}

impl Default for TopBarState {
    fn default() -> (r: Self)
        ensures
            forall|i: int| 0 <= i < 9 ==> (#[trigger] cells(r)[i]).len() == 0,
    {
        TopBarState {
            start_label: String::new(),
            dock_text: String::new(),
            cluster_text: String::new(),
            clock_text: String::new(),
            audio_text: String::new(),
            network_text: String::new(),
            mesh_text: String::new(),
            status_text: String::new(),
            bell_text: String::new(),
        }
    }
}

impl TopBarState {
    /// Initial loading placeholder, shown before the first applet output.
    pub fn loading() -> (r: Self)
        ensures
            cells(r) == seq![
                "M"@,
                "…"@,
                "…"@,
                "--:--"@,
                "🔈 --"@,
                "—"@,
                "—"@,
                "—"@,
                Seq::<char>::empty(),
            ],
    {
        TopBarState {
            start_label: String::from_str("M"),
            dock_text: String::from_str("…"),
            cluster_text: String::from_str("…"),
            clock_text: String::from_str("--:--"),
            audio_text: String::from_str("🔈 --"),
            network_text: String::from_str("—"),
            mesh_text: String::from_str("—"),
            status_text: String::from_str("—"),
            bell_text: String::new(),
        }
    }

    /// Demo content for development launches.
    pub fn demo() -> (r: Self)
        ensures
            cells(r) == seq![
                "M"@,
                "[▶ foot]"@,
                "H  def  #1"@,
                "11:42"@,
                "🔈 65%"@,
                "Wi-Fi"@,
                "✓ 3"@,
                "⚡ 88%"@,
                "0"@,
            ],
    {
        TopBarState {
            start_label: String::from_str("M"),
            dock_text: String::from_str("[▶ foot]"),
            cluster_text: String::from_str("H  def  #1"),
            clock_text: String::from_str("11:42"),
            audio_text: String::from_str("🔈 65%"),
            network_text: String::from_str("Wi-Fi"),
            mesh_text: String::from_str("✓ 3"),
            status_text: String::from_str("⚡ 88%"),
            bell_text: String::from_str("0"),
        }
    }

    /// Apply the latest output line of the given applet kind: its cell
    /// takes `text`, every other cell stays.
    pub fn set_applet_text(&mut self, kind: AppletKind, text: String)
        ensures
            cells(*final(self)) == cells(*old(self)).update(cell_of(kind), text@),
    {
        match kind {
            AppletKind::Clock => self.clock_text = text,
            AppletKind::Audio => self.audio_text = text,
            AppletKind::Network => self.network_text = text,
            AppletKind::MeshStatus => self.mesh_text = text,
            AppletKind::StatusCluster => self.status_text = text,
            AppletKind::SwayCluster => self.cluster_text = text,
            AppletKind::NotificationBell => self.bell_text = text,
            AppletKind::Dock => self.dock_text = text,
        }
        assert(cells(*self) =~= cells(*old(self)).update(cell_of(kind), text@));
    }
}

impl TopBarState {
    /// The notification bell's label: its applet text, or an empty ring
    /// before the applet has said anything.
    pub fn bell_label(&self) -> (r: String)
        ensures
            r@ == if self.bell_text@.len() == 0 {
                "○"@
            } else {
                self.bell_text@
            },
    {
        if self.bell_text.as_str().is_empty() {
            String::from_str("○")
        } else {
            self.bell_text.clone()
        }
    }
}

// ───────────────────────── clock and geometry ─────────────────────────

/// Seconds remaining until the next clock minute, given the second of
/// the current minute; a leap second (`60`) waits one second.
pub fn seconds_until_next_minute(second: i32) -> (r: u32)
    requires
        second >= i32::MIN + 61,
    ensures
        second >= 60 ==> r == 1,
        second < 60 ==> r == 60 - second,
{
    if second >= 60 {
        1
    } else {
        let remaining: i32 = 60 - second;
        remaining as u32
    }
}

/// Panel geometry to fall back on when no display is connected.
#[derive(Debug, Clone, Copy, PartialEq, Eq, Structural)]
pub struct FallbackGeometry {
    pub x: i32,
    pub y: i32,
    pub width: i32,
    pub height: i32,
}

impl Default for FallbackGeometry {
    /// A 1920×1080 screen at the origin.
    fn default() -> (r: Self)
        ensures
            r == (FallbackGeometry { x: 0, y: 0, width: 1920, height: 1080 }),
    {
        FallbackGeometry { x: 0, y: 0, width: 1920, height: 1080 }
    }
}

} // verus!
