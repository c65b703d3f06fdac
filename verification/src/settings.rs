//! The settings vocabulary shared by the widget: layout orientation, snap
//! positions, update and temperature preferences, warning metrics, and
//! saved colour presets.

use vstd::prelude::*;
use crate::text::str_eq;

verus! {

#[derive(Debug)]
pub enum Orientation {
    Vertical,
    Horizontal,
}

#[derive(Debug, Clone, Copy, PartialEq, Eq, Structural)]
pub enum SnapPosition {
    TopLeft,
    TopCenter,
    TopRight,
    LeftCenter,
    RightCenter,
    BottomLeft,
    BottomCenter,
    BottomRight,
}

/// The name under which a snap position is stored and tagged.
pub open spec fn snap_tag(p: SnapPosition) -> Seq<char> {
    match p {
        SnapPosition::TopLeft => "TopLeft"@,
        SnapPosition::TopCenter => "TopCenter"@,
        SnapPosition::TopRight => "TopRight"@,
        SnapPosition::LeftCenter => "LeftCenter"@,
        SnapPosition::RightCenter => "RightCenter"@,
        SnapPosition::BottomLeft => "BottomLeft"@,
        SnapPosition::BottomCenter => "BottomCenter"@,
        SnapPosition::BottomRight => "BottomRight"@,
    }
}

/// The position a tag names; an unknown tag means the top-right corner.
pub open spec fn snap_of(tag: Seq<char>) -> SnapPosition {
    if tag == "TopLeft"@ {
        SnapPosition::TopLeft
    } else if tag == "TopCenter"@ {
        SnapPosition::TopCenter
    } else if tag == "TopRight"@ {
        SnapPosition::TopRight
    } else if tag == "LeftCenter"@ {
        SnapPosition::LeftCenter
    } else if tag == "RightCenter"@ {
        SnapPosition::RightCenter
    } else if tag == "BottomLeft"@ {
        SnapPosition::BottomLeft
    } else if tag == "BottomCenter"@ {
        SnapPosition::BottomCenter
    } else if tag == "BottomRight"@ {
        SnapPosition::BottomRight
    } else {
        SnapPosition::TopRight
    }
}

impl SnapPosition {
    /// The snap position a tag names (`TopRight` for an unknown tag).
    pub fn from_tag(tag: &str) -> (r: SnapPosition)
        ensures
            r == snap_of(tag@),
    {
        if str_eq(tag, "TopLeft") {
            SnapPosition::TopLeft
        } else if str_eq(tag, "TopCenter") {
            SnapPosition::TopCenter
        } else if str_eq(tag, "TopRight") {
            SnapPosition::TopRight
        } else if str_eq(tag, "LeftCenter") {
            SnapPosition::LeftCenter
        } else if str_eq(tag, "RightCenter") {
            SnapPosition::RightCenter
        } else if str_eq(tag, "BottomLeft") {
            SnapPosition::BottomLeft
        } else if str_eq(tag, "BottomCenter") {
            SnapPosition::BottomCenter
        } else if str_eq(tag, "BottomRight") {
            SnapPosition::BottomRight
        } else {
            SnapPosition::TopRight
        }
    }
}

/// Every snap position's own tag leads back to it.
pub proof fn law_snap_tag_round_trip(p: SnapPosition)
    ensures
        snap_of(snap_tag(p)) == p,
{
    reveal_strlit("TopLeft");
    reveal_strlit("TopCenter");
    reveal_strlit("TopRight");
    reveal_strlit("LeftCenter");
    reveal_strlit("RightCenter");
    reveal_strlit("BottomLeft");
    reveal_strlit("BottomCenter");
    reveal_strlit("BottomRight");
    assert("TopLeft"@.len() == 7 && "TopCenter"@.len() == 9 && "TopRight"@.len() == 8);
    assert("LeftCenter"@.len() == 10 && "RightCenter"@.len() == 11);
    assert("BottomLeft"@.len() == 10 && "BottomCenter"@.len() == 12 && "BottomRight"@.len() == 11);
    assert("LeftCenter"@[0] != "BottomLeft"@[0]);
    assert("RightCenter"@[0] != "BottomRight"@[0]);
}

#[derive(Debug)]
pub enum UpdateMode {
    Auto,
    Manual,
    Off,
}

#[derive(Debug)]
pub enum TempUnit {
    Celsius,
    Fahrenheit,
}

#[derive(Debug)]
pub enum WarnMetric {
    Temperature,
    Load,
    UsedGb,
    Throughput,
}

/// A saved colour theme: its name, the five theme colours and the skin.
#[derive(Debug)]
pub struct PresetSlot {
    pub name: String,
    pub bg: String,
    pub tile: String,
    pub accent: String,
    pub text: String,
    pub muted: String,
    pub skin: String,
}

} // verus!
