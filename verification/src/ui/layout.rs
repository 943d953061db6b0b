//! Alignment vocabulary of the UI layout pass.
use vstd::prelude::*;

verus! {

/// Horizontal alignment of content within its allocated box.
#[derive(Clone, Copy, Debug, Default, PartialEq, Eq, Structural)]
pub enum HAlign {
    #[default]
    Left,
    Center,
    Right,
}

/// Vertical alignment of content within its allocated box.
#[derive(Clone, Copy, Debug, Default, PartialEq, Eq, Structural)]
pub enum VAlign {
    #[default]
    Top,
    Center,
    Bottom,
}

/// Full 3x3 anchoring of a child within a container.
#[derive(Clone, Copy, Debug, Default, PartialEq, Eq, Structural)]
pub enum Align {
    #[default]
    TopLeft,
    TopCenter,
    TopRight,
    CenterLeft,
    Center,
    CenterRight,
    BottomLeft,
    BottomCenter,
    BottomRight,
}

impl Align {
    /// The horizontal component of the anchor.
    pub open spec fn spec_horizontal(self) -> HAlign {
        match self {
            Align::TopLeft | Align::CenterLeft | Align::BottomLeft => HAlign::Left,
            Align::TopCenter | Align::Center | Align::BottomCenter => HAlign::Center,
            _ => HAlign::Right,
        }
    }

    /// The vertical component of the anchor.
    pub open spec fn spec_vertical(self) -> VAlign {
        match self {
            Align::TopLeft | Align::TopCenter | Align::TopRight => VAlign::Top,
            Align::CenterLeft | Align::Center | Align::CenterRight => VAlign::Center,
            _ => VAlign::Bottom,
        }
    }

    /// The horizontal component of the anchor.
    pub fn horizontal(&self) -> (h: HAlign)
        ensures
            h == self.spec_horizontal(),
            h == HAlign::Left <==> (*self == Align::TopLeft || *self == Align::CenterLeft || *self
                == Align::BottomLeft),
            h == HAlign::Center <==> (*self == Align::TopCenter || *self == Align::Center || *self
                == Align::BottomCenter),
            h == HAlign::Right <==> (*self == Align::TopRight || *self == Align::CenterRight
                || *self == Align::BottomRight),
    {
        match self {
            Align::TopLeft | Align::CenterLeft | Align::BottomLeft => HAlign::Left,
            Align::TopCenter | Align::Center | Align::BottomCenter => HAlign::Center,
            _ => HAlign::Right,
        }
    }

    /// The vertical component of the anchor.
    pub fn vertical(&self) -> (v: VAlign)
        ensures
            v == self.spec_vertical(),
            v == VAlign::Top <==> (*self == Align::TopLeft || *self == Align::TopCenter || *self
                == Align::TopRight),
            v == VAlign::Center <==> (*self == Align::CenterLeft || *self == Align::Center || *self
                == Align::CenterRight),
            v == VAlign::Bottom <==> (*self == Align::BottomLeft || *self == Align::BottomCenter
                || *self == Align::BottomRight),
    {
        match self {
            Align::TopLeft | Align::TopCenter | Align::TopRight => VAlign::Top,
            Align::CenterLeft | Align::Center | Align::CenterRight => VAlign::Center,
            _ => VAlign::Bottom,
        }
    }
}

/// An anchor is its two components: the horizontal and vertical alignment
/// together determine the anchor, and every one of the nine combinations is
/// some anchor, with the `Left`/`Center`/`Right` column and the
/// `Top`/`Center`/`Bottom` row of its name.
pub proof fn law_align_splits_into_row_and_column(a: Align, b: Align, h: HAlign, v: VAlign)
    ensures
        a.spec_horizontal() == b.spec_horizontal() && a.spec_vertical() == b.spec_vertical() ==> a
            == b,
        exists|c: Align| c.spec_horizontal() == h && c.spec_vertical() == v,
        Align::TopLeft.spec_vertical() == VAlign::Top && Align::TopLeft.spec_horizontal() == HAlign::Left,
        Align::CenterLeft.spec_vertical() == VAlign::Center,
        Align::BottomRight.spec_vertical() == VAlign::Bottom && Align::BottomRight.spec_horizontal()
            == HAlign::Right,
{
    let c = match (h, v) {
        (HAlign::Left, VAlign::Top) => Align::TopLeft,
        (HAlign::Center, VAlign::Top) => Align::TopCenter,
        (HAlign::Right, VAlign::Top) => Align::TopRight,
        (HAlign::Left, VAlign::Center) => Align::CenterLeft,
        (HAlign::Center, VAlign::Center) => Align::Center,
        (HAlign::Right, VAlign::Center) => Align::CenterRight,
        (HAlign::Left, VAlign::Bottom) => Align::BottomLeft,
        (HAlign::Center, VAlign::Bottom) => Align::BottomCenter,
        (HAlign::Right, VAlign::Bottom) => Align::BottomRight,
    };
    assert(c.spec_horizontal() == h && c.spec_vertical() == v);
}

} // verus!
