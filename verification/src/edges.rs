//! Resize edges and the cursor shown while one is dragged.

use vstd::prelude::*;

verus! {

/// The side or corner of a window that a resize pulls on. `NoEdge` stands for
/// no edge at all, as in a plain move.
#[derive(Clone, Copy, Debug, PartialEq, Eq, Structural)]
pub enum ResizeEdge {
    NoEdge,
    Top,
    Bottom,
    Left,
    TopLeft,
    BottomLeft,
    Right,
    TopRight,
    BottomRight,
}

/// The named cursor shapes that the compositor selects.
#[derive(Clone, Copy, Debug, PartialEq, Eq, Structural)]
pub enum CursorIcon {
    Default,
    NResize,
    SResize,
    WResize,
    EResize,
    NwResize,
    NeResize,
    SwResize,
    SeResize,
}

/// The bit of the top side in an edge mask.
pub const EDGE_TOP: u32 = 1;

/// The bit of the bottom side in an edge mask.
pub const EDGE_BOTTOM: u32 = 2;

/// The bit of the left side in an edge mask.
pub const EDGE_LEFT: u32 = 4;

/// The bit of the right side in an edge mask.
pub const EDGE_RIGHT: u32 = 8;

impl ResizeEdge {
    /// The edge as a mask over top (1), bottom (2), left (4) and right (8).
    pub open spec fn spec_bits(self) -> u32 {
        match self {
            ResizeEdge::NoEdge => 0,
            ResizeEdge::Top => 1,
            ResizeEdge::Bottom => 2,
            ResizeEdge::Left => 4,
            ResizeEdge::TopLeft => 5,
            ResizeEdge::BottomLeft => 6,
            ResizeEdge::Right => 8,
            ResizeEdge::TopRight => 9,
            ResizeEdge::BottomRight => 10,
        }
    }

    /// Whether the top side is pulled.
    pub open spec fn spec_has_top(self) -> bool {
        self == ResizeEdge::Top || self == ResizeEdge::TopLeft || self == ResizeEdge::TopRight
    }

    /// Whether the bottom side is pulled.
    pub open spec fn spec_has_bottom(self) -> bool {
        self == ResizeEdge::Bottom || self == ResizeEdge::BottomLeft || self
            == ResizeEdge::BottomRight
    }

    /// Whether the left side is pulled.
    pub open spec fn spec_has_left(self) -> bool {
        self == ResizeEdge::Left || self == ResizeEdge::TopLeft || self == ResizeEdge::BottomLeft
    }

    /// Whether the right side is pulled.
    pub open spec fn spec_has_right(self) -> bool {
        self == ResizeEdge::Right || self == ResizeEdge::TopRight || self
            == ResizeEdge::BottomRight
    }

    /// Whether `bits` is the mask of some edge: opposite sides never combine.
    pub open spec fn valid_bits(bits: u32) -> bool {
        bits <= 10 && bits != 3 && bits != 7
    }

    #[verifier::when_used_as_spec(spec_bits)]
    pub fn bits(self) -> (b: u32)
        ensures
            b == self.spec_bits(),
            Self::valid_bits(b),
    {
        match self {
            ResizeEdge::NoEdge => 0,
            ResizeEdge::Top => 1,
            ResizeEdge::Bottom => 2,
            ResizeEdge::Left => 4,
            ResizeEdge::TopLeft => 5,
            ResizeEdge::BottomLeft => 6,
            ResizeEdge::Right => 8,
            ResizeEdge::TopRight => 9,
            ResizeEdge::BottomRight => 10,
        }
    }

    /// The edge whose mask is `bits`, if there is one.
    pub fn from_bits(bits: u32) -> (edge: Option<ResizeEdge>)
        ensures
            edge.is_some() <==> Self::valid_bits(bits),
            edge matches Some(e) ==> e.spec_bits() == bits,
    {
        if bits == 0 {
            Some(ResizeEdge::NoEdge)
        } else if bits == 1 {
            Some(ResizeEdge::Top)
        } else if bits == 2 {
            Some(ResizeEdge::Bottom)
        } else if bits == 4 {
            Some(ResizeEdge::Left)
        } else if bits == 5 {
            Some(ResizeEdge::TopLeft)
        } else if bits == 6 {
            Some(ResizeEdge::BottomLeft)
        } else if bits == 8 {
            Some(ResizeEdge::Right)
        } else if bits == 9 {
            Some(ResizeEdge::TopRight)
        } else if bits == 10 {
            Some(ResizeEdge::BottomRight)
        } else {
            None
        }
    }

    #[verifier::when_used_as_spec(spec_has_top)]
    pub fn has_top(self) -> (b: bool)
        ensures
            b == self.spec_has_top(),
    {
        match self {
            ResizeEdge::Top | ResizeEdge::TopLeft | ResizeEdge::TopRight => true,
            _ => false,
        }
    }

    #[verifier::when_used_as_spec(spec_has_bottom)]
    pub fn has_bottom(self) -> (b: bool)
        ensures
            b == self.spec_has_bottom(),
    {
        match self {
            ResizeEdge::Bottom | ResizeEdge::BottomLeft | ResizeEdge::BottomRight => true,
            _ => false,
        }
    }

    #[verifier::when_used_as_spec(spec_has_left)]
    pub fn has_left(self) -> (b: bool)
        ensures
            b == self.spec_has_left(),
    {
        match self {
            ResizeEdge::Left | ResizeEdge::TopLeft | ResizeEdge::BottomLeft => true,
            _ => false,
        }
    }

    #[verifier::when_used_as_spec(spec_has_right)]
    pub fn has_right(self) -> (b: bool)
        ensures
            b == self.spec_has_right(),
    {
        match self {
            ResizeEdge::Right | ResizeEdge::TopRight | ResizeEdge::BottomRight => true,
            _ => false,
        }
    }

    /// An edge is the set of its sides: each side is pulled exactly when its
    /// bit is set in the mask, and no edge pulls two opposite sides.
    pub proof fn lemma_sides_are_mask_bits(self)
        ensures
            self.spec_has_top() <==> self.spec_bits() & EDGE_TOP != 0,
            self.spec_has_bottom() <==> self.spec_bits() & EDGE_BOTTOM != 0,
            self.spec_has_left() <==> self.spec_bits() & EDGE_LEFT != 0,
            self.spec_has_right() <==> self.spec_bits() & EDGE_RIGHT != 0,
            !(self.spec_has_top() && self.spec_has_bottom()),
            !(self.spec_has_left() && self.spec_has_right()),
    {
        assert(0u32 & 1 == 0 && 0u32 & 2 == 0 && 0u32 & 4 == 0 && 0u32 & 8 == 0) by (bit_vector);
        assert(1u32 & 1 != 0 && 1u32 & 2 == 0 && 1u32 & 4 == 0 && 1u32 & 8 == 0) by (bit_vector);
        assert(2u32 & 1 == 0 && 2u32 & 2 != 0 && 2u32 & 4 == 0 && 2u32 & 8 == 0) by (bit_vector);
        assert(4u32 & 1 == 0 && 4u32 & 2 == 0 && 4u32 & 4 != 0 && 4u32 & 8 == 0) by (bit_vector);
        assert(5u32 & 1 != 0 && 5u32 & 2 == 0 && 5u32 & 4 != 0 && 5u32 & 8 == 0) by (bit_vector);
        assert(6u32 & 1 == 0 && 6u32 & 2 != 0 && 6u32 & 4 != 0 && 6u32 & 8 == 0) by (bit_vector);
        assert(8u32 & 1 == 0 && 8u32 & 2 == 0 && 8u32 & 4 == 0 && 8u32 & 8 != 0) by (bit_vector);
        assert(9u32 & 1 != 0 && 9u32 & 2 == 0 && 9u32 & 4 == 0 && 9u32 & 8 != 0) by (bit_vector);
        assert(10u32 & 1 == 0 && 10u32 & 2 != 0 && 10u32 & 4 == 0 && 10u32 & 8 != 0)
            by (bit_vector);
    }
}

/// The cursor for an edge: an arrow towards the sides that are pulled, north
/// for the top and west for the left, and the default arrow where no side
/// is pulled.
pub open spec fn spec_cursor_icon_for_edge(edge: ResizeEdge) -> CursorIcon {
    if edge.spec_has_top() {
        if edge.spec_has_left() {
            CursorIcon::NwResize
        } else if edge.spec_has_right() {
            CursorIcon::NeResize
        } else {
            CursorIcon::NResize
        }
    } else if edge.spec_has_bottom() {
        if edge.spec_has_left() {
            CursorIcon::SwResize
        } else if edge.spec_has_right() {
            CursorIcon::SeResize
        } else {
            CursorIcon::SResize
        }
    } else if edge.spec_has_left() {
        CursorIcon::WResize
    } else if edge.spec_has_right() {
        CursorIcon::EResize
    } else {
        CursorIcon::Default
    }
}

#[verifier::when_used_as_spec(spec_cursor_icon_for_edge)]
pub fn cursor_icon_for_edge(edge: ResizeEdge) -> (icon: CursorIcon)
    ensures
        icon == spec_cursor_icon_for_edge(edge),
{
    match edge {
        ResizeEdge::Top => CursorIcon::NResize,
        ResizeEdge::Bottom => CursorIcon::SResize,
        ResizeEdge::Left => CursorIcon::WResize,
        ResizeEdge::Right => CursorIcon::EResize,
        ResizeEdge::TopLeft => CursorIcon::NwResize,
        ResizeEdge::TopRight => CursorIcon::NeResize,
        ResizeEdge::BottomLeft => CursorIcon::SwResize,
        ResizeEdge::BottomRight => CursorIcon::SeResize,
        ResizeEdge::NoEdge => CursorIcon::Default,
    }
}

} // verus!
