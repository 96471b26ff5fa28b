use crate::visibility::RelativeOffset;
use vstd::prelude::*;

verus! {

/// The tile size that a new grid starts with, in pixels.
pub const DEFAULT_TILE_SIZE: u16 = 128;

/// An image of the grid, known by its path; it is drawn once loaded.
#[derive(Debug, Clone)]
pub struct ImageTile {
    pub _uid: u32,
    pub path: String,
    pub loaded: bool,
}

impl ImageTile {
    pub fn new(uid: u32, path: &str) -> (r: ImageTile)
        ensures
            r._uid == uid,
            r.path@ == path@,
            !r.loaded,
    {
        ImageTile { _uid: uid, path: path.to_owned(), loaded: false }
    }

    pub fn load(&mut self)
        ensures
            final(self)._uid == old(self)._uid,
            final(self).path@ == old(self).path@,
            final(self).loaded,
    {
        self.loaded = true;
    }
}

#[derive(Debug, Clone, Copy)]
pub enum Message {
    ScrollToStart,
    Scrolled(RelativeOffset),
    ZoomChanged(u16),
}

/// What the caller is to do to the grid's scroll area after an update.
#[derive(Debug, Clone, Copy, PartialEq, Eq, Structural)]
pub enum ScrollCommand {
    Nothing,
    ScrollToStart { offset: RelativeOffset },
}

/// A zoomable, scrollable grid of images.
#[derive(Debug)]
pub struct ImageTiles {
    pub tile_size: u16,
    pub scroll_offset: RelativeOffset,
    pub images: Vec<ImageTile>,
}

impl ImageTiles {
    pub fn _new() -> (r: ImageTiles)
        ensures
            r.tile_size == DEFAULT_TILE_SIZE,
            r.scroll_offset == (RelativeOffset { numerator: 0, denominator: 1 }),
            r.images@.len() == 0,
    {
        Self::from_images(Vec::new())
    }

    pub fn from_images(images: Vec<ImageTile>) -> (r: ImageTiles)
        ensures
            r.tile_size == DEFAULT_TILE_SIZE,
            r.scroll_offset == (RelativeOffset { numerator: 0, denominator: 1 }),
            r.images@ == images@,
    {
        ImageTiles { tile_size: DEFAULT_TILE_SIZE, scroll_offset: RelativeOffset::start(), images }
    }

    /// Applies `message`; returning to the start also asks the caller to
    /// scroll there.
    pub fn update(&mut self, message: Message) -> (r: ScrollCommand)
        ensures
            final(self).images@ == old(self).images@,
            match message {
                Message::ScrollToStart => {
                    &&& final(self).scroll_offset == (RelativeOffset { numerator: 0, denominator: 1 })
                    &&& final(self).tile_size == old(self).tile_size
                    &&& r == (ScrollCommand::ScrollToStart { offset: RelativeOffset { numerator: 0, denominator: 1 } })
                },
                Message::Scrolled(offset) => {
                    &&& final(self).scroll_offset == offset
                    &&& final(self).tile_size == old(self).tile_size
                    &&& r == ScrollCommand::Nothing
                },
                Message::ZoomChanged(zoom) => {
                    &&& final(self).scroll_offset == old(self).scroll_offset
                    &&& final(self).tile_size == zoom
                    &&& r == ScrollCommand::Nothing
                },
            },
    {
        match message {
            Message::ScrollToStart => {
                self.scroll_offset = RelativeOffset::start();
                ScrollCommand::ScrollToStart { offset: self.scroll_offset }
            },
            Message::Scrolled(offset) => {
                self.scroll_offset = offset;
                ScrollCommand::Nothing
            },
            Message::ZoomChanged(zoom) => {
                self.tile_size = zoom;
                ScrollCommand::Nothing
            },
        }
    }
}

/// A pane that shows a grid of still images.
#[derive(Debug)]
pub struct TilePane {
    pub tile_pane: ImageTiles,
}

impl TilePane {
    /// The grid of the bundled stills, each loaded.
    pub fn new() -> (r: TilePane)
        ensures
            r.tile_pane.tile_size == DEFAULT_TILE_SIZE,
            r.tile_pane.scroll_offset == (RelativeOffset { numerator: 0, denominator: 1 }),
            r.tile_pane.images.len() == 3,
            r.tile_pane.images@[0].path@ == "resources/still_1.jpeg"@,
            r.tile_pane.images@[1].path@ == "resources/still_2.png"@,
            r.tile_pane.images@[2].path@ == "resources/still_3.webp"@,
            forall|i: int|
                0 <= i < 3 ==> (#[trigger] r.tile_pane.images@[i]).loaded
                    && r.tile_pane.images@[i]._uid == i,
    {
        let mut images: Vec<ImageTile> = Vec::new();
        let mut first = ImageTile::new(0, "resources/still_1.jpeg");
        first.load();
        images.push(first);
        let mut second = ImageTile::new(1, "resources/still_2.png");
        second.load();
        images.push(second);
        let mut third = ImageTile::new(2, "resources/still_3.webp");
        third.load();
        images.push(third);
        TilePane { tile_pane: ImageTiles::from_images(images) }
    }

    pub fn update(&mut self, message: Message) -> (r: ScrollCommand)
        ensures
            final(self).tile_pane.images@ == old(self).tile_pane.images@,
            match message {
                Message::ScrollToStart => {
                    &&& final(self).tile_pane.scroll_offset == (RelativeOffset { numerator: 0, denominator: 1 })
                    &&& final(self).tile_pane.tile_size == old(self).tile_pane.tile_size
                    &&& r == (ScrollCommand::ScrollToStart { offset: RelativeOffset { numerator: 0, denominator: 1 } })
                },
                Message::Scrolled(offset) => {
                    &&& final(self).tile_pane.scroll_offset == offset
                    &&& final(self).tile_pane.tile_size == old(self).tile_pane.tile_size
                    &&& r == ScrollCommand::Nothing
                },
                Message::ZoomChanged(zoom) => {
                    &&& final(self).tile_pane.scroll_offset == old(self).tile_pane.scroll_offset
                    &&& final(self).tile_pane.tile_size == zoom
                    &&& r == ScrollCommand::Nothing
                },
            },
    {
        self.tile_pane.update(message)
    }
}

} // verus!
