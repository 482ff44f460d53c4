//! Payloads as QR symbols: a payload is drawn as one symbol on a grayscale
//! image, and an image is searched for symbols and their payloads.

use vstd::prelude::*;

verus! {

/// Bytes of the cell bitmap of one symbol.
pub const GRID_BITMAP_LEN: usize = 3917;

/// Cells across the largest symbol.
pub const GRID_SIZE_MAX: i32 = 177;

/// Pixels of the largest image that is searched for symbols: the search
/// counts pixels in 32 signed bits.
pub const SCAN_PIXELS_MAX: u32 = 0x7fff_ffff;

/// A grayscale image: one byte for every pixel, row by row.
#[derive(Debug)]
pub struct LumaImage {
    pub width: u32,
    pub height: u32,
    pub pixels: Vec<u8>,
}

impl LumaImage {
    /// An image holds exactly one byte for each of its pixels.
    pub open spec fn wf(&self) -> bool {
        self.pixels@.len() == self.width * self.height
    }

    /// An image can be searched for symbols when it is well formed and no
    /// larger than the search can count.
    pub open spec fn scannable(&self) -> bool {
        &&& self.wf()
        &&& self.width <= SCAN_PIXELS_MAX
        &&& self.height <= SCAN_PIXELS_MAX
        &&& self.width * self.height <= SCAN_PIXELS_MAX
    }

    /// Whether the image can be searched for symbols.
    pub fn is_scannable(&self) -> (r: bool)
        ensures
            r == self.scannable(),
    {
        assert(self.width * self.height <= 0xFFFF_FFFF * 0xFFFF_FFFF) by (nonlinear_arith)
            requires
                self.width <= 0xFFFF_FFFF,
                self.height <= 0xFFFF_FFFF,
        ;
        self.is_wf() && self.width <= SCAN_PIXELS_MAX && self.height <= SCAN_PIXELS_MAX
            && (self.width as u64) * (self.height as u64) <= SCAN_PIXELS_MAX as u64
    }

    /// Whether the image holds exactly one byte for each of its pixels.
    pub fn is_wf(&self) -> (r: bool)
        ensures
            r == self.wf(),
    {
        assert(self.width * self.height <= 0xFFFF_FFFF * 0xFFFF_FFFF) by (nonlinear_arith)
            requires
                self.width <= 0xFFFF_FFFF,
                self.height <= 0xFFFF_FFFF,
        ;
        self.pixels.len() as u64 == (self.width as u64) * (self.height as u64)
    }
}

/// The cells of one symbol that was found on an image: the number of cells
/// across, and one bit for every cell.
#[derive(Debug)]
pub struct SymbolGrid {
    pub size: i32,
    pub cells: Vec<u8>,
}

impl SymbolGrid {
    /// The bitmap of a grid has its fixed length.
    pub open spec fn wf(&self) -> bool {
        self.cells@.len() == GRID_BITMAP_LEN
    }

    /// Whether the grid is no larger than the largest symbol.
    pub open spec fn in_range(&self) -> bool {
        0 <= self.size <= GRID_SIZE_MAX
    }
}

/// The payload is too long to be drawn as one symbol.
#[derive(Clone, Copy, Debug, PartialEq, Eq, Structural)]
pub struct RenderError;

/// Why no payload was read from an image.
#[derive(Clone, Copy, Debug, PartialEq, Eq, Structural)]
pub enum ScanError {
    /// The image shows no symbol.
    NoSymbol,
    /// A symbol on the image could not be read.
    Unreadable,
}

#[verifier::external_type_specification]
#[verifier::external_body]
pub struct ExQrError(qrcode::types::QrError);

/// The image that `qrcode` draws for a payload: width, height and pixels;
/// none where it draws no symbol.
pub uninterp spec fn qr_image(payload: Seq<u8>) -> Option<(u32, u32, Seq<u8>)>;

/// The grids that `quircs` finds on an image, each as its size and its
/// cells, in the order in which it finds them; none where it finds a symbol
/// and cannot take its cells.
pub uninterp spec fn identified_grids(width: u32, height: u32, pixels: Seq<u8>) -> Seq<
    Option<(i32, Seq<u8>)>,
>;

/// The payload that `quircs` reads from a grid, if it reads one.
pub uninterp spec fn grid_payload(size: i32, cells: Seq<u8>) -> Option<Seq<u8>>;

/// Builds the symbol for `payload` with `qrcode::QrCode::new` and draws it
/// as a grayscale image with the symbol's `render` builder, left at its
/// defaults.
///
/// Trusted: the outcome is a function of the payload alone, and the image
/// buffer that comes back holds one byte for every pixel.
#[verifier::external_body]
fn qr_draw(payload: &Vec<u8>) -> (out: Result<LumaImage, qrcode::types::QrError>)
    ensures
        match out {
            Ok(image) => {
                &&& qr_image(payload@) == Some((image.width, image.height, image.pixels@))
                &&& image.wf()
            },
            Err(_) => qr_image(payload@).is_none(),
        },
{
    let code = qrcode::QrCode::new(payload)?;
    let image = code.render::<image::Luma<u8>>().build();
    Ok(LumaImage { width: image.width(), height: image.height(), pixels: image.into_raw() })
}

/// Searches an image for symbols with `quircs::Quirc::identify` and hands
/// out the cells of each.
///
/// Trusted: the outcome is a function of the image alone, and every grid
/// carries the fixed-length bitmap of `quircs::Code`. The image must hold
/// one byte for every pixel: `identify` checks that and panics otherwise.
/// It must have no more pixels than 32 signed bits count, which is how
/// `identify` indexes them.
#[verifier::external_body]
fn quirc_identify(image: &LumaImage) -> (out: Vec<Option<SymbolGrid>>)
    requires
        image.scannable(),
    ensures
        grids_view(out@) == identified_grids(image.width, image.height, image.pixels@),
        forall|i: int|
            0 <= i < out@.len() && out@[i].is_some() ==> (#[trigger] out@[i]).unwrap().wf(),
{
    let mut decoder = quircs::Quirc::default();
    decoder
        .identify(image.width as usize, image.height as usize, &image.pixels)
        .map(|code| code.ok().map(|c| SymbolGrid { size: c.size, cells: c.cell_bitmap.to_vec() }))
        .collect()
}

/// Reads the payload of one grid with `quircs::Code::decode`.
///
/// Trusted: the outcome is a function of the grid alone. The grid must carry
/// the bitmap of a `quircs::Code` and a size that a symbol can have.
#[verifier::external_body]
fn quirc_decode(grid: &SymbolGrid) -> (out: Option<Vec<u8>>)
    requires
        grid.wf(),
        grid.in_range(),
    ensures
        match out {
            Some(payload) => grid_payload(grid.size, grid.cells@) == Some(payload@),
            None => grid_payload(grid.size, grid.cells@).is_none(),
        },
{
    let mut code = quircs::Code::default();
    code.size = grid.size;
    code.cell_bitmap.copy_from_slice(&grid.cells);
    code.decode().ok().map(|data| data.payload)
}

/// The value of one grid that was handed out.
pub open spec fn grid_view(grid: Option<SymbolGrid>) -> Option<(i32, Seq<u8>)> {
    match grid {
        Some(g) => Some((g.size, g.cells@)),
        None => None,
    }
}

/// The values of the grids that were handed out.
pub open spec fn grids_view(grids: Seq<Option<SymbolGrid>>) -> Seq<Option<(i32, Seq<u8>)>> {
    Seq::new(grids.len(), |i: int| grid_view(grids[i]))
}

/// What reading one grid gives: its payload, or nothing where the cells
/// could not be taken, the grid is larger than any symbol, or the cells do
/// not decode.
pub open spec fn grid_outcome(grid: Option<(i32, Seq<u8>)>) -> Option<Seq<u8>> {
    match grid {
        Some(g) => if 0 <= g.0 <= GRID_SIZE_MAX {
            grid_payload(g.0, g.1)
        } else {
            None
        },
        None => None,
    }
}

/// The payload that a run of outcomes stands for: the last one; an error
/// where a symbol could not be read or where there was no symbol at all.
pub open spec fn selected(outcomes: Seq<Option<Seq<u8>>>) -> Result<Seq<u8>, ScanError> {
    if exists|i: int| 0 <= i < outcomes.len() && outcomes[i].is_none() {
        Err(ScanError::Unreadable)
    } else if outcomes.len() == 0 {
        Err(ScanError::NoSymbol)
    } else {
        Ok(outcomes.last().unwrap())
    }
}

/// The values of a run of outcomes.
pub open spec fn outcomes_view(outcomes: Seq<Option<Vec<u8>>>) -> Seq<Option<Seq<u8>>> {
    Seq::new(
        outcomes.len(),
        |i: int|
            match outcomes[i] {
                Some(p) => Some(p@),
                None => None,
            },
    )
}

/// The payload that `quircs` reads from an image.
pub open spec fn scanned(width: u32, height: u32, pixels: Seq<u8>) -> Result<Seq<u8>, ScanError> {
    let grids = identified_grids(width, height, pixels);
    selected(Seq::new(grids.len(), |i: int| grid_outcome(grids[i])))
}

/// The image of a payload, where `qrcode` draws one.
pub open spec fn rendered(payload: Seq<u8>) -> Option<(u32, u32, Seq<u8>)> {
    qr_image(payload)
}

/// Draws `payload` as one QR symbol on a grayscale image.
///
/// Fails exactly where `qrcode` draws no symbol for the payload: where it
/// is too long.
pub fn render_payload(payload: &Vec<u8>) -> (out: Result<LumaImage, RenderError>)
    ensures
        match out {
            Ok(image) => {
                &&& rendered(payload@) == Some((image.width, image.height, image.pixels@))
                &&& image.wf()
            },
            Err(_) => rendered(payload@).is_none(),
        },
{
    match qr_draw(payload) {
        Ok(image) => Ok(image),
        Err(_) => Err(RenderError),
    }
}

/// Picks the payload out of the outcomes of reading the symbols of one
/// image, given in the order in which the symbols were found.
///
/// The last payload counts. An outcome without payload makes the whole
/// image unreadable; an image without symbols gives `NoSymbol`.
pub fn select_payload(outcomes: Vec<Option<Vec<u8>>>) -> (out: Result<Vec<u8>, ScanError>)
    ensures
        match out {
            Ok(payload) => selected(outcomes_view(outcomes@)) == Ok::<Seq<u8>, ScanError>(
                payload@,
            ),
            Err(e) => selected(outcomes_view(outcomes@)) == Err::<Seq<u8>, ScanError>(e),
        },
{
    let ghost all = outcomes_view(outcomes@);
    let mut i: usize = 0;
    while i < outcomes.len()
        invariant
            i <= outcomes@.len(),
            all == outcomes_view(outcomes@),
            forall|j: int| 0 <= j < i ==> (#[trigger] all[j]).is_some(),
        decreases outcomes@.len() - i,
    {
        if outcomes[i].is_none() {
            assert(all[i as int].is_none());
            return Err(ScanError::Unreadable);
        }
        i = i + 1;
    }
    let mut rest = outcomes;
    match rest.pop() {
        Some(Some(payload)) => {
            assert(all.last() == Some(payload@));
            Ok(payload)
        },
        Some(None) => {
            proof {
                assert(all[all.len() - 1].is_some());
                assert(false);
            }
            Err(ScanError::Unreadable)
        },
        None => Err(ScanError::NoSymbol),
    }
}

/// Reads the payload that an image carries.
///
/// Every symbol that is found on the image is read; the payload of the
/// last one is returned. `NoSymbol` where none is found, `Unreadable` where
/// one of them cannot be read.
pub fn scan_image(image: &LumaImage) -> (out: Result<Vec<u8>, ScanError>)
    requires
        image.scannable(),
    ensures
        match out {
            Ok(payload) => scanned(image.width, image.height, image.pixels@) == Ok::<
                Seq<u8>,
                ScanError,
            >(payload@),
            Err(e) => scanned(image.width, image.height, image.pixels@) == Err::<
                Seq<u8>,
                ScanError,
            >(e),
        },
{
    let grids = quirc_identify(image);
    let ghost found = identified_grids(image.width, image.height, image.pixels@);
    let mut outcomes: Vec<Option<Vec<u8>>> = Vec::new();
    let mut i: usize = 0;
    while i < grids.len()
        invariant
            i <= grids@.len(),
            outcomes@.len() == i,
            grids_view(grids@) == found,
            forall|j: int|
                0 <= j < grids@.len() && grids@[j].is_some() ==> (
                #[trigger] grids@[j]).unwrap().wf(),
            forall|j: int|
                0 <= j < i ==> (#[trigger] outcomes_view(outcomes@)[j]) == grid_outcome(found[j]),
        decreases grids@.len() - i,
    {
        let ghost before = outcomes_view(outcomes@);
        let outcome = match &grids[i] {
            Some(grid) => if 0 <= grid.size && grid.size <= GRID_SIZE_MAX {
                quirc_decode(grid)
            } else {
                None
            },
            None => None,
        };
        assert(grid_view(grids@[i as int]) == found[i as int]);
        outcomes.push(outcome);
        assert forall|j: int| 0 <= j < i + 1 implies (#[trigger] outcomes_view(outcomes@)[j])
            == grid_outcome(found[j]) by {
            if j < i {
                assert(outcomes_view(outcomes@)[j] == before[j]);
            }
        }
        i = i + 1;
    }
    assert(outcomes_view(outcomes@) =~= Seq::new(found.len(), |k: int| grid_outcome(found[k])));
    select_payload(outcomes)
}

} // verus!
