use vstd::prelude::*;
use volatile::Volatile;
use crate::color::ColorCode;

verus! {

pub const BUFFER_HEIGHT: usize = 25;
pub const BUFFER_WIDTH: usize = 80;

/// The byte of a blank cell.
pub const SPACE: u8 = 0x20;

#[verifier::external_type_specification]
#[verifier::external_body]
#[verifier::reject_recursive_types(T)]
pub struct ExVolatile<T: Copy>(Volatile<T>);

/// One displayed byte and its color, laid out as the hardware reads them.
#[derive(Clone, Copy, Debug, PartialEq, Eq, Structural)]
pub struct ScreenChar {
    pub ascii_character: u8,
    pub color_code: ColorCode,
}

impl ScreenChar {
    /// The cell as the pair (displayed byte, packed color byte).
    pub open spec fn pair(self) -> (u8, u8) {
        (self.ascii_character, self.color_code.byte())
    }
}

/// What a volatile cell holds, as (displayed byte, packed color byte).
pub uninterp spec fn held(v: Volatile<ScreenChar>) -> (u8, u8);

/// Relies on volatile::Volatile::read: returns the value the cell holds.
#[verifier::external_body]
fn read_cell(v: &Volatile<ScreenChar>) -> (r: ScreenChar)
    ensures
        r.pair() == held(*v),
{
    v.read()
}

/// Relies on volatile::Volatile::write: the cell then holds the value given.
#[verifier::external_body]
fn write_cell(v: &mut Volatile<ScreenChar>, c: ScreenChar)
    ensures
        held(*final(v)) == c.pair(),
{
    v.write(c)
}

/// Relies on core::array::from_fn (element i is what the closure returns
/// for i) and on volatile::Volatile::new (the new cell holds the value
/// given): every cell of the grid holds `c`.
#[verifier::external_body]
fn filled_cells(c: ScreenChar) -> (r: [[Volatile<ScreenChar>; BUFFER_WIDTH]; BUFFER_HEIGHT])
    ensures
        forall|row: int, col: int|
            0 <= row < BUFFER_HEIGHT && 0 <= col < BUFFER_WIDTH ==> held(
                #[trigger] r[row][col],
            ) == c.pair(),
{
    core::array::from_fn(|_| core::array::from_fn(|_| Volatile::new(c)))
}

/// The 25x80 grid of cells, row-major, with no gaps.
pub struct Buffer {
    chars: [[Volatile<ScreenChar>; BUFFER_WIDTH]; BUFFER_HEIGHT],
}

/// A row of blank cells: a space in the given packed color.
pub open spec fn blank_row(color: u8) -> Seq<(u8, u8)> {
    Seq::new(BUFFER_WIDTH as nat, |c: int| (SPACE, color))
}

/// A grid all of whose cells are blank in the given packed color.
pub open spec fn blank_grid(color: u8) -> Seq<Seq<(u8, u8)>> {
    Seq::new(BUFFER_HEIGHT as nat, |r: int| blank_row(color))
}

/// A grid of the screen's shape.
pub open spec fn is_grid(g: Seq<Seq<(u8, u8)>>) -> bool {
    g.len() == BUFFER_HEIGHT && forall|r: int| 0 <= r < BUFFER_HEIGHT ==> (#[trigger] g[r]).len()
        == BUFFER_WIDTH
}

impl View for Buffer {
    type V = Seq<Seq<(u8, u8)>>;

    closed spec fn view(&self) -> Seq<Seq<(u8, u8)>> {
        Seq::new(
            BUFFER_HEIGHT as nat,
            |r: int| Seq::new(BUFFER_WIDTH as nat, |c: int| held(self.chars[r][c])),
        )
    }
}

impl Buffer {
    /// A grid whose every cell is a space in the given color.
    pub fn blank(color_code: ColorCode) -> (r: Buffer)
        ensures
            r@ == blank_grid(color_code.byte()),
    {
        let c = ScreenChar { ascii_character: SPACE, color_code };
        let chars = filled_cells(c);
        let r = Buffer { chars };
        assert(r@ =~~= blank_grid(color_code.byte()));
        r
    }

    /// Reads the cell at (row, col).
    pub fn read(&self, row: usize, col: usize) -> (r: ScreenChar)
        requires
            row < BUFFER_HEIGHT,
            col < BUFFER_WIDTH,
        ensures
            r.pair() == self@[row as int][col as int],
    {
        read_cell(&self.chars[row][col])
    }

    /// Writes `c` into the cell at (row, col); every other cell is kept.
    pub fn write(&mut self, row: usize, col: usize, c: ScreenChar)
        requires
            row < BUFFER_HEIGHT,
            col < BUFFER_WIDTH,
        ensures
            final(self)@ == old(self)@.update(
                row as int,
                old(self)@[row as int].update(col as int, c.pair()),
            ),
    {
        write_cell(&mut self.chars[row][col], c);
        assert(self@ =~~= old(self)@.update(
            row as int,
            old(self)@[row as int].update(col as int, c.pair()),
        ));
    }
}

/// Every buffer has the screen's shape.
pub proof fn lemma_buffer_is_grid(b: &Buffer)
    ensures
        is_grid(b@),
{
}

} // verus!
