use crate::visibility::{tile_end, tile_start, visible_tiles, BoundedRange, RelativeOffset, Size};
use vstd::prelude::*;

verus! {

/// The width and height of a tile, in pixels.
pub const DEFAULT_TILE_SIZE: u16 = 200;

/// The number of placeholder elements that a new scroll holds.
pub const PLACEHOLDER_COUNT: usize = 100;

pub open spec fn digit_char(d: nat) -> char {
    if d == 0 {
        '0'
    } else if d == 1 {
        '1'
    } else if d == 2 {
        '2'
    } else if d == 3 {
        '3'
    } else if d == 4 {
        '4'
    } else if d == 5 {
        '5'
    } else if d == 6 {
        '6'
    } else if d == 7 {
        '7'
    } else if d == 8 {
        '8'
    } else {
        '9'
    }
}

/// The decimal digits of `n`, most significant first, without leading zeros.
pub open spec fn decimal(n: nat) -> Seq<char>
    decreases n,
{
    if n < 10 {
        seq![digit_char(n)]
    } else {
        decimal(n / 10).push(digit_char(n % 10))
    }
}

/// Relies on `format!` with std's `Display` for `usize`, which writes the
/// number's decimal digits.
#[verifier::external_body]
fn placeholder_label(i: usize) -> (r: String)
    ensures
        r@ == "Placeholder-"@ + decimal(i as nat),
{
    format!("Placeholder-{i}")
}

#[derive(Debug, Clone, Copy)]
pub enum Message {
    Scrolled(RelativeOffset),
}

/// A scrolled grid of elements that reports which of them are in view.
#[derive(Debug)]
pub struct LazyScroll {
    pub elements: Vec<String>,
    pub current_offset: RelativeOffset,
}

impl LazyScroll {
    pub open spec fn wf(&self) -> bool {
        self.current_offset.wf()
    }

    /// A hundred placeholder elements, scrolled to the top.
    pub fn new() -> (r: LazyScroll)
        ensures
            r.wf(),
            r.current_offset.numerator == 0,
            r.elements.len() == PLACEHOLDER_COUNT,
            forall|i: int|
                0 <= i < PLACEHOLDER_COUNT ==> (#[trigger] r.elements@[i])@ == "Placeholder-"@
                    + decimal(i as nat),
    {
        let mut elements: Vec<String> = Vec::new();
        let mut i: usize = 0;
        while i < PLACEHOLDER_COUNT
            invariant
                0 <= i <= PLACEHOLDER_COUNT,
                elements.len() == i,
                forall|j: int|
                    0 <= j < i ==> (#[trigger] elements@[j])@ == "Placeholder-"@ + decimal(
                        j as nat,
                    ),
            decreases PLACEHOLDER_COUNT - i,
        {
            elements.push(placeholder_label(i));
            i += 1;
        }
        LazyScroll { elements, current_offset: RelativeOffset::start() }
    }

    pub fn update(&mut self, message: Message)
        requires
            match message {
                Message::Scrolled(offset) => offset.wf(),
            },
        ensures
            final(self).wf(),
            final(self).elements@ == old(self).elements@,
            match message {
                Message::Scrolled(offset) => final(self).current_offset == offset,
            },
    {
        match message {
            Message::Scrolled(offset) => {
                self.current_offset = offset;
            },
        }
    }

    /// The number of tile columns that fit across a viewport `width` pixels
    /// wide.
    pub fn columns(width: u32) -> (r: usize)
        ensures
            r == width / DEFAULT_TILE_SIZE as u32,
    {
        (width / DEFAULT_TILE_SIZE as u32) as usize
    }

    /// The elements in view in a viewport of `size`, or `None` where there are
    /// no elements or no column fits across the viewport.
    pub fn visible(&self, size: Size) -> (r: Option<BoundedRange>)
        requires
            self.wf(),
        ensures
            r is None <==> (self.elements.len() == 0 || size.width < DEFAULT_TILE_SIZE),
            r matches Some(range) ==> {
                &&& range.start == tile_start(
                    size.width as int / DEFAULT_TILE_SIZE as int,
                    self.elements.len() as int,
                    DEFAULT_TILE_SIZE as int,
                    size.height as int,
                    self.current_offset.numerator as int,
                    self.current_offset.denominator as int,
                )
                &&& range.end == tile_end(
                    size.width as int / DEFAULT_TILE_SIZE as int,
                    self.elements.len() as int,
                    DEFAULT_TILE_SIZE as int,
                    size.height as int,
                    self.current_offset.numerator as int,
                    self.current_offset.denominator as int,
                )
                &&& range.start <= range.end < self.elements.len()
            },
    {
        let n_columns = Self::columns(size.width);
        if n_columns == 0 || self.elements.len() == 0 {
            None
        } else {
            Some(
                visible_tiles(
                    n_columns,
                    self.elements.len(),
                    DEFAULT_TILE_SIZE,
                    size,
                    self.current_offset,
                ),
            )
        }
    }
}

} // verus!
