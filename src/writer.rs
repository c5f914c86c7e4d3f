use vstd::prelude::*;
use crate::buffer::{
    blank_grid, blank_row, is_grid, lemma_buffer_is_grid, Buffer, ScreenChar, BUFFER_HEIGHT,
    BUFFER_WIDTH, SPACE,
};
use crate::color::ColorCode;
use vstd::string::StringSliceAdditionalSpecFns;

verus! {

/// The newline byte.
pub const NEWLINE: u8 = 0x0a;

/// The glyph shown in place of a byte that is not printable.
pub const NON_PRINTABLE: u8 = 0xfe;

/// The grid's last row, onto which the writer renders.
pub const LAST_ROW: usize = 24;

/// The byte that is displayed for `b`: printable ASCII and newline pass
/// unchanged, every other byte becomes the placeholder glyph.
pub open spec fn shown(b: u8) -> u8 {
    if (0x20 <= b && b <= 0x7e) || b == NEWLINE {
        b
    } else {
        NON_PRINTABLE
    }
}

/// The grid after one scroll: each row takes the contents of the row below
/// it, and the last row becomes blank in `color`.
pub open spec fn scroll(g: Seq<Seq<(u8, u8)>>, color: u8) -> Seq<Seq<(u8, u8)>> {
    Seq::new(
        BUFFER_HEIGHT as nat,
        |r: int|
            if r < LAST_ROW {
                g[r + 1]
            } else {
                blank_row(color)
            },
    )
}

/// The grid with `cell` at column `col` of the last row.
pub open spec fn put(g: Seq<Seq<(u8, u8)>>, col: int, cell: (u8, u8)) -> Seq<Seq<(u8, u8)>> {
    g.update(LAST_ROW as int, g[LAST_ROW as int].update(col, cell))
}

/// Grid and column after one byte is written at column `col` in `color`:
/// a newline scrolls; any other byte is stored, and the column advances,
/// with a scroll when the line is full.
pub open spec fn step(g: Seq<Seq<(u8, u8)>>, col: nat, color: u8, b: u8) -> (
    Seq<Seq<(u8, u8)>>,
    nat,
) {
    if b == NEWLINE {
        (scroll(g, color), 0)
    } else if col + 1 >= BUFFER_WIDTH {
        (scroll(put(g, col as int, (b, color)), color), 0)
    } else {
        (put(g, col as int, (b, color)), col + 1)
    }
}

/// Grid and column after each byte of `bytes` is written, as displayed
/// (see `shown`), in order.
pub open spec fn run(g: Seq<Seq<(u8, u8)>>, col: nat, color: u8, bytes: Seq<u8>) -> (
    Seq<Seq<(u8, u8)>>,
    nat,
)
    decreases bytes.len(),
{
    if bytes.len() == 0 {
        (g, col)
    } else {
        let (g1, c1) = run(g, col, color, bytes.drop_last());
        step(g1, c1, color, shown(bytes.last()))
    }
}

/// `n` scrolls in a row.
pub open spec fn scroll_n(g: Seq<Seq<(u8, u8)>>, color: u8, n: nat) -> Seq<Seq<(u8, u8)>>
    decreases n,
{
    if n == 0 {
        g
    } else {
        scroll(scroll_n(g, color, (n - 1) as nat), color)
    }
}

/// The grid part way through a scroll: the cells before (row, col), in
/// row-major order, hold the cell below them; the others are unchanged.
spec fn shifted(g: Seq<Seq<(u8, u8)>>, row: int, col: int) -> Seq<Seq<(u8, u8)>> {
    Seq::new(
        BUFFER_HEIGHT as nat,
        |r: int|
            Seq::new(
                BUFFER_WIDTH as nat,
                |c: int|
                    if r < row || (r == row && c < col) {
                        g[r + 1][c]
                    } else {
                        g[r][c]
                    },
            ),
    )
}

/// Writes bytes onto the last row of a grid, scrolling it as lines end.
pub struct Writer {
    column: usize,
    row: usize,
    pub buffer: &'static mut Buffer,
    pub color_code: ColorCode,
}

impl Writer {
    /// The cursor stays on the last row, inside the line.
    pub open spec fn wf(&self) -> bool {
        self.spec_row() == LAST_ROW && self.spec_column() < BUFFER_WIDTH
    }

    pub closed spec fn spec_column(&self) -> nat {
        self.column as nat
    }

    pub closed spec fn spec_row(&self) -> nat {
        self.row as nat
    }

    /// The packed color byte of new cells.
    pub closed spec fn color(&self) -> u8 {
        self.color_code.byte()
    }

    /// The cells of the grid the writer draws on.
    pub closed spec fn grid(&self) -> Seq<Seq<(u8, u8)>> {
        self.buffer@
    }

    pub fn new(buffer: &'static mut Buffer, color_code: ColorCode) -> (r: Self)
        ensures
            r.wf(),
            r.spec_column() == 0,
            r.grid() == old(buffer)@,
            r.color() == color_code.byte(),
    {
        Self { column: 0, row: LAST_ROW, buffer, color_code }
    }

    /// The cursor's column.
    pub fn column(&self) -> (r: usize)
        ensures
            r == self.spec_column(),
    {
        self.column
    }

    /// The cursor's row.
    pub fn row(&self) -> (r: usize)
        ensures
            r == self.spec_row(),
    {
        self.row
    }

    /// Writes one byte: a newline scrolls; any other byte is stored at the
    /// cursor in the current color and the cursor advances, scrolling when
    /// the line is full.
    pub fn write_byte(&mut self, byte: u8)
        requires
            old(self).wf(),
        ensures
            final(self).wf(),
            (final(self).grid(), final(self).spec_column()) == step(
                old(self).grid(),
                old(self).spec_column(),
                old(self).color(),
                byte,
            ),
            final(self).color() == old(self).color(),
    {
        if byte == NEWLINE {
            self.new_line();
        } else {
            let c = ScreenChar { ascii_character: byte, color_code: self.color_code };
            self.buffer.write(self.row, self.column, c);
            self.column += 1;
            if self.column == BUFFER_WIDTH {
                self.new_line();
            }
        }
    }

    /// Writes every byte of `s` in order, each as displayed (see `shown`):
    /// printable ASCII and newline unchanged, any other byte as the
    /// placeholder glyph.
    pub fn write_string(&mut self, s: &str)
        requires
            old(self).wf(),
        ensures
            final(self).wf(),
            (final(self).grid(), final(self).spec_column()) == run(
                old(self).grid(),
                old(self).spec_column(),
                old(self).color(),
                s.spec_bytes(),
            ),
            final(self).color() == old(self).color(),
    {
        let bytes = s.as_bytes();
        let ghost g0 = self.grid();
        let ghost c0 = self.spec_column();
        let mut i: usize = 0;
        assert(bytes@.take(0) =~= Seq::<u8>::empty());
        while i < bytes.len()
            invariant
                i <= bytes@.len(),
                bytes@ == s.spec_bytes(),
                self.wf(),
                self.color() == old(self).color(),
                g0 == old(self).grid(),
                c0 == old(self).spec_column(),
                (self.grid(), self.spec_column()) == run(g0, c0, self.color(), bytes@.take(i as int)),
            decreases bytes@.len() - i,
        {
            let byte = bytes[i];
            let out = if (0x20 <= byte && byte <= 0x7e) || byte == NEWLINE {
                byte
            } else {
                NON_PRINTABLE
            };
            self.write_byte(out);
            assert(bytes@.take(i + 1).drop_last() =~= bytes@.take(i as int));
            i += 1;
        }
        assert(bytes@.take(i as int) =~= bytes@);
    }

    /// Moves every row's cells up by one row, top to bottom, then blanks
    /// the last row in the current color and returns the cursor to column 0.
    pub fn new_line(&mut self)
        requires
            old(self).spec_row() == LAST_ROW,
        ensures
            final(self).wf(),
            final(self).grid() == scroll(old(self).grid(), old(self).color()),
            final(self).spec_column() == 0,
            final(self).color() == old(self).color(),
    {
        proof {
            lemma_buffer_is_grid(self.buffer);
        }
        let ghost g0 = self.buffer@;
        assert(self.buffer@ =~~= shifted(g0, 0, 0));
        let mut row: usize = 1;
        while row < BUFFER_HEIGHT
            invariant
                1 <= row <= BUFFER_HEIGHT,
                is_grid(g0),
                g0 == old(self).buffer@,
                self.buffer@ == shifted(g0, row - 1, 0),
                self.column == old(self).column,
                self.row == old(self).row,
                self.color_code == old(self).color_code,
            decreases BUFFER_HEIGHT - row,
        {
            let mut col: usize = 0;
            while col < BUFFER_WIDTH
                invariant
                    1 <= row < BUFFER_HEIGHT,
                    col <= BUFFER_WIDTH,
                    is_grid(g0),
                    g0 == old(self).buffer@,
                    self.buffer@ == shifted(g0, row - 1, col as int),
                    self.column == old(self).column,
                    self.row == old(self).row,
                    self.color_code == old(self).color_code,
                decreases BUFFER_WIDTH - col,
            {
                let character = self.buffer.read(row, col);
                self.buffer.write(row - 1, col, character);
                col += 1;
                assert(self.buffer@ =~~= shifted(g0, row - 1, col as int));
            }
            row += 1;
            assert(self.buffer@ =~~= shifted(g0, row - 1, 0));
        }
        self.clear_row(BUFFER_HEIGHT - 1);
        self.column = 0;
        assert(self.buffer@ =~~= scroll(g0, self.color()));
    }

    /// Fills row `row` with blank cells in the current color.
    fn clear_row(&mut self, row: usize)
        requires
            row < BUFFER_HEIGHT,
        ensures
            final(self).buffer@ == old(self).buffer@.update(
                row as int,
                blank_row(old(self).color()),
            ),
            final(self).column == old(self).column,
            final(self).row == old(self).row,
            final(self).color_code == old(self).color_code,
    {
        let blank = ScreenChar { ascii_character: SPACE, color_code: self.color_code };
        proof {
            lemma_buffer_is_grid(self.buffer);
        }
        let ghost g0 = self.buffer@;
        let mut col: usize = 0;
        assert(self.buffer@ =~~= g0.update(
            row as int,
            Seq::new(
                BUFFER_WIDTH as nat,
                |c: int|
                    if c < col {
                        (SPACE, self.color())
                    } else {
                        g0[row as int][c]
                    },
            ),
        ));
        while col < BUFFER_WIDTH
            invariant
                col <= BUFFER_WIDTH,
                row < BUFFER_HEIGHT,
                is_grid(g0),
                blank.pair() == (SPACE, self.color()),
                self.column == old(self).column,
                self.row == old(self).row,
                self.color_code == old(self).color_code,
                g0 == old(self).buffer@,
                self.buffer@ == g0.update(
                    row as int,
                    Seq::new(
                        BUFFER_WIDTH as nat,
                        |c: int|
                            if c < col {
                                (SPACE, self.color())
                            } else {
                                g0[row as int][c]
                            },
                    ),
                ),
            decreases BUFFER_WIDTH - col,
        {
            let ghost before = self.buffer@;
            self.buffer.write(row, col, blank);
            col += 1;
            assert(self.buffer@ =~~= g0.update(
                row as int,
                Seq::new(
                    BUFFER_WIDTH as nat,
                    |c: int|
                        if c < col {
                            (SPACE, self.color())
                        } else {
                            g0[row as int][c]
                        },
                ),
            ));
        }
        assert(self.buffer@ =~~= g0.update(row as int, blank_row(self.color())));
    }
}

} // verus!

verus! {

/// A byte is printable ASCII.
pub open spec fn printable(b: u8) -> bool {
    0x20 <= b && b <= 0x7e
}

/// Printable bytes and newline are displayed as themselves; every other
/// byte is displayed as the placeholder glyph, which differs from the byte
/// itself unless the byte is the placeholder.
pub proof fn lemma_shown(b: u8)
    ensures
        printable(b) || b == NEWLINE ==> shown(b) == b,
        !(printable(b) || b == NEWLINE) ==> shown(b) == NON_PRINTABLE,
        !(printable(b) || b == NEWLINE) && b != NON_PRINTABLE ==> shown(b) != b,
{
}

/// Writing a one-byte string that is not a newline, away from the end of the
/// line, stores the byte as displayed at the cursor in the writer's color:
/// the byte itself when printable, the placeholder glyph otherwise.
pub proof fn lemma_write_one(g: Seq<Seq<(u8, u8)>>, col: nat, color: u8, b: u8)
    requires
        is_grid(g),
        col + 1 < BUFFER_WIDTH,
        b != NEWLINE,
    ensures
        run(g, col, color, seq![b]).0[LAST_ROW as int][col as int] == (
            if printable(b) {
                b
            } else {
                NON_PRINTABLE
            },
            color,
        ),
        run(g, col, color, seq![b]).1 == col + 1,
{
    assert(seq![b].drop_last() =~= Seq::<u8>::empty());
    assert(run(g, col, color, Seq::<u8>::empty()) == (g, col));
    assert(seq![b].last() == b);
}

/// The last row after the first `i` bytes of a line are written from column 0.
spec fn partly_filled(g: Seq<Seq<(u8, u8)>>, color: u8, bytes: Seq<u8>, i: int) -> Seq<
    Seq<(u8, u8)>,
> {
    g.update(
        LAST_ROW as int,
        Seq::new(
            BUFFER_WIDTH as nat,
            |c: int|
                if c < i {
                    (bytes[c], color)
                } else {
                    g[LAST_ROW as int][c]
                },
        ),
    )
}

proof fn lemma_line_prefix(g: Seq<Seq<(u8, u8)>>, color: u8, bytes: Seq<u8>, i: nat)
    requires
        is_grid(g),
        bytes.len() == BUFFER_WIDTH,
        forall|k: int| 0 <= k < bytes.len() ==> printable(#[trigger] bytes[k]),
        i < BUFFER_WIDTH,
    ensures
        run(g, 0, color, bytes.take(i as int)) == (partly_filled(g, color, bytes, i as int), i),
    decreases i,
{
    if i == 0 {
        assert(bytes.take(0) =~= Seq::<u8>::empty());
        assert(partly_filled(g, color, bytes, 0) =~~= g);
    } else {
        lemma_line_prefix(g, color, bytes, (i - 1) as nat);
        assert(bytes.take(i as int).drop_last() =~= bytes.take(i - 1));
        assert(printable(bytes[i - 1]));
        assert(put(partly_filled(g, color, bytes, i - 1), i - 1, (bytes[i - 1], color))
            =~~= partly_filled(g, color, bytes, i as int));
    }
}

/// Writing exactly one line of printable bytes from column 0 fills the last
/// row with them in order, then scrolls once: the cursor is back at column 0.
pub proof fn lemma_full_line(g: Seq<Seq<(u8, u8)>>, color: u8, bytes: Seq<u8>)
    requires
        is_grid(g),
        bytes.len() == BUFFER_WIDTH,
        forall|k: int| 0 <= k < bytes.len() ==> printable(#[trigger] bytes[k]),
    ensures
        run(g, 0, color, bytes) == (
            scroll(
                g.update(
                    LAST_ROW as int,
                    Seq::new(BUFFER_WIDTH as nat, |c: int| (bytes[c], color)),
                ),
                color,
            ),
            0nat,
        ),
{
    let last = (BUFFER_WIDTH - 1) as nat;
    lemma_line_prefix(g, color, bytes, last);
    assert(bytes.drop_last() =~= bytes.take(last as int));
    assert(printable(bytes[last as int]));
    assert(put(partly_filled(g, color, bytes, last as int), last as int, (bytes[last as int], color))
        =~~= g.update(
        LAST_ROW as int,
        Seq::new(BUFFER_WIDTH as nat, |c: int| (bytes[c], color)),
    ));
}

/// Scrolling a grid that is blank in the writer's color, any number of
/// times, leaves it unchanged.
pub proof fn lemma_scroll_blank(color: u8, n: nat)
    ensures
        scroll_n(blank_grid(color), color, n) == blank_grid(color),
    decreases n,
{
    if n > 0 {
        lemma_scroll_blank(color, (n - 1) as nat);
        assert(scroll(blank_grid(color), color) =~~= blank_grid(color));
    }
}

/// After one scroll, each row but the last holds what the row below it
/// held, and the last row is blank in the given color.
pub proof fn lemma_scroll_rows(g: Seq<Seq<(u8, u8)>>, color: u8)
    requires
        is_grid(g),
    ensures
        is_grid(scroll(g, color)),
        forall|r: int| 0 <= r < LAST_ROW ==> #[trigger] scroll(g, color)[r] == g[r + 1],
        scroll(g, color)[LAST_ROW as int] == blank_row(color),
{
}

} // verus!
