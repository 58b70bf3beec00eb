//! The page edge a riding seal is placed along.
use vstd::prelude::*;
use crate::text::{push_str, str_eq};

verus! {

/// A page edge.
#[derive(Debug, Clone, Copy, PartialEq, Eq, Hash, Structural)]
pub enum Side {
    /// Left edge.
    Left,
    /// Right edge.
    Right,
    /// Top edge.
    Top,
    /// Bottom edge.
    Bottom,
}

/// The name a side is written with.
pub open spec fn side_name(s: Side) -> Seq<char> {
    match s {
        Side::Left => "Left"@,
        Side::Right => "Right"@,
        Side::Top => "Top"@,
        Side::Bottom => "Bottom"@,
    }
}

/// The side a text names: its name in title case, lower case or upper case.
pub open spec fn side_from_text(t: Seq<char>) -> Option<Side> {
    if t == "Left"@ || t == "left"@ || t == "LEFT"@ {
        Some(Side::Left)
    } else if t == "Right"@ || t == "right"@ || t == "RIGHT"@ {
        Some(Side::Right)
    } else if t == "Top"@ || t == "top"@ || t == "TOP"@ {
        Some(Side::Top)
    } else if t == "Bottom"@ || t == "bottom"@ || t == "BOTTOM"@ {
        Some(Side::Bottom)
    } else {
        None
    }
}

impl Side {
    /// The four sides: left, right, top, bottom.
    pub fn all() -> (r: Vec<Side>)
        ensures
            r@ == seq![Side::Left, Side::Right, Side::Top, Side::Bottom],
    {
        let mut v: Vec<Side> = Vec::new();
        v.push(Side::Left);
        v.push(Side::Right);
        v.push(Side::Top);
        v.push(Side::Bottom);
        v
    }

    /// Left or right.
    pub fn is_horizontal(self) -> (b: bool)
        ensures
            b == (self == Side::Left || self == Side::Right),
    {
        match self {
            Side::Left | Side::Right => true,
            _ => false,
        }
    }

    /// Top or bottom.
    pub fn is_vertical(self) -> (b: bool)
        ensures
            b == (self == Side::Top || self == Side::Bottom),
    {
        match self {
            Side::Top | Side::Bottom => true,
            _ => false,
        }
    }

    /// The side's name.
    pub fn to_string(&self) -> (s: String)
        ensures
            s@ == side_name(*self),
    {
        match self {
            Side::Left => String::from_str("Left"),
            Side::Right => String::from_str("Right"),
            Side::Top => String::from_str("Top"),
            Side::Bottom => String::from_str("Bottom"),
        }
    }

    /// Reads a side from its name; any other text is refused with a message naming it.
    pub fn parse_side(s: &str) -> (r: Result<Side, String>)
        ensures
            match side_from_text(s@) {
                Some(side) => r == Ok::<Side, String>(side),
                None => r matches Err(m) && m@ == "未知的骑缝章方向: "@ + s@,
            },
    {
        if str_eq(s, "Left") || str_eq(s, "left") || str_eq(s, "LEFT") {
            Ok(Side::Left)
        } else if str_eq(s, "Right") || str_eq(s, "right") || str_eq(s, "RIGHT") {
            Ok(Side::Right)
        } else if str_eq(s, "Top") || str_eq(s, "top") || str_eq(s, "TOP") {
            Ok(Side::Top)
        } else if str_eq(s, "Bottom") || str_eq(s, "bottom") || str_eq(s, "BOTTOM") {
            Ok(Side::Bottom)
        } else {
            let mut m = String::from_str("未知的骑缝章方向: ");
            push_str(&mut m, s);
            Err(m)
        }
    }
}

impl std::str::FromStr for Side {
    type Err = String;

    fn from_str(s: &str) -> Result<Side, String> {
        Side::parse_side(s)
    }
}

/// Every side reads back from its own name.
pub proof fn lemma_side_name_roundtrip(s: Side)
    ensures
        side_from_text(side_name(s)) == Some(s),
{
    reveal_strlit("Left");
    reveal_strlit("left");
    reveal_strlit("LEFT");
    reveal_strlit("Right");
    reveal_strlit("right");
    reveal_strlit("RIGHT");
    reveal_strlit("Top");
    reveal_strlit("top");
    reveal_strlit("TOP");
    reveal_strlit("Bottom");
    reveal_strlit("bottom");
    reveal_strlit("BOTTOM");
    assert("Left"@.len() == 4 && "left"@.len() == 4 && "LEFT"@.len() == 4);
    assert("Right"@.len() == 5 && "right"@.len() == 5 && "RIGHT"@.len() == 5);
    assert("Top"@.len() == 3 && "top"@.len() == 3 && "TOP"@.len() == 3);
    assert("Bottom"@.len() == 6);
}

} // verus!
