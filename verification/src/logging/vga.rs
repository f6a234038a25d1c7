//! Text on the screen: 25 rows of 80 cells, written in the last row; a new line moves
//! everything up by one row.

use vstd::prelude::*;
use vstd::string::StringSliceAdditionalSpecFns;

use volatile::Volatile;

verus! {

pub const BUFFER_HEIGHT: usize = 25;

pub const BUFFER_WIDTH: usize = 80;

/// Light gray on black.
pub const TEXT_COLOR: u8 = 0x07;

/// The byte that ends a line.
pub const NEW_LINE: u8 = 10;

/// The byte of an empty cell.
pub const BLANK: u8 = 32;

/// A memory cell that is read and written as it stands in the program.
#[verifier::external_type_specification]
#[verifier::external_body]
#[verifier::reject_recursive_types(T)]
pub struct ExVolatile<T: Copy>(volatile::Volatile<T>);

/// What a cell holds.
pub uninterp spec fn cell_value(cell: Volatile<u16>) -> u16;

/// Calls `volatile::Volatile::read`, which gives what the cell holds.
#[verifier::external_body]
pub(crate) fn read_cell(cell: &Volatile<u16>) -> (v: u16)
    ensures
        v == cell_value(*cell),
{
    cell.read()
}

/// Calls `volatile::Volatile::write`; the cell then holds the value.
#[verifier::external_body]
pub(crate) fn write_cell(cell: &mut Volatile<u16>, v: u16)
    ensures
        cell_value(*final(cell)) == v,
{
    cell.write(v)
}

/// What the screen holds, row by row.
pub open spec fn screen(cells: [[Volatile<u16>; 80]; 25]) -> Seq<Seq<u16>> {
    Seq::new(25, |r: int| Seq::new(80, |c: int| cell_value(cells@[r]@[c])))
}

/// A cell for a byte in a color: the byte is the low half.
pub open spec fn spec_cell(byte: u8, color: u8) -> u16 {
    (byte + color * 256) as u16
}

/// The cell for a byte in a color.
pub fn cell(byte: u8, color: u8) -> (v: u16)
    ensures
        v == spec_cell(byte, color),
{
    byte as u16 + color as u16 * 256
}

/// A row of empty cells.
pub open spec fn blank_row(color: u8) -> Seq<u16> {
    Seq::new(80, |c: int| spec_cell(BLANK, color))
}

/// The screen and the place to write at.
#[verifier::ext_equal]
pub struct TextView {
    pub rows: Seq<Seq<u16>>,
    pub col: int,
    pub color: u8,
}

impl TextView {
    pub open spec fn wf(self) -> bool {
        &&& self.rows.len() == 25
        &&& forall|r: int| 0 <= r < 25 ==> (#[trigger] self.rows[r]).len() == 80
        &&& 0 <= self.col <= 80
    }

    /// Every row moves up by one; the last one is empty.
    pub open spec fn new_line(self) -> TextView {
        TextView {
            rows: self.rows.subrange(1, 25).push(blank_row(self.color)),
            col: 0,
            ..self
        }
    }

    /// The byte stands at the place to write at, in the last row.
    pub open spec fn set(self, byte: u8) -> TextView {
        TextView {
            rows: self.rows.update(24, self.rows[24].update(self.col, spec_cell(byte, self.color))),
            col: self.col + 1,
            ..self
        }
    }

    /// A byte is written; at the end of a row it starts a new line.
    pub open spec fn put(self, byte: u8) -> TextView {
        if byte == NEW_LINE {
            self.new_line()
        } else if self.col >= 80 {
            self.new_line().set(byte)
        } else {
            self.set(byte)
        }
    }

    /// Bytes are written one after the other.
    pub open spec fn put_all(self, bytes: Seq<u8>) -> TextView
        decreases bytes.len(),
    {
        if bytes.len() == 0 {
            self
        } else {
            self.put_all(bytes.drop_last()).put(bytes.last())
        }
    }
}

/// The place to write at, and the color.
#[derive(Clone, Copy, Debug, PartialEq, Eq)]
pub struct Writer {
    pub col: usize,
    pub color_code: u8,
}

/// The writer with its screen.
pub open spec fn text(w: Writer, cells: [[Volatile<u16>; 80]; 25]) -> TextView {
    TextView { rows: screen(cells), col: w.col as int, color: w.color_code }
}

fn set_cell(cells: &mut [[Volatile<u16>; 80]; 25], row: usize, col: usize, v: u16)
    requires
        row < 25,
        col < 80,
    ensures
        screen(*final(cells)) == screen(*old(cells)).update(
            row as int,
            screen(*old(cells))[row as int].update(col as int, v),
        ),
{
    write_cell(&mut cells[row][col], v);
    assert(screen(*cells) =~~= screen(*old(cells)).update(
        row as int,
        screen(*old(cells))[row as int].update(col as int, v),
    ));
}

impl Writer {
    pub open spec fn wf(self) -> bool {
        self.col <= BUFFER_WIDTH
    }

    /// A writer at the start of the last row.
    pub fn new() -> (w: Writer)
        ensures
            w.wf(),
            w == (Writer { col: 0, color_code: TEXT_COLOR }),
    {
        Writer { col: 0, color_code: TEXT_COLOR }
    }

    /// Empties a row.
    fn clear_row(&self, cells: &mut [[Volatile<u16>; 80]; 25], row: usize)
        requires
            row < BUFFER_HEIGHT,
        ensures
            screen(*final(cells)) == screen(*old(cells)).update(
                row as int,
                blank_row(self.color_code),
            ),
    {
        let blank: u16 = cell(BLANK, self.color_code);
        let mut col: usize = 0;
        while col < BUFFER_WIDTH
            invariant
                row < BUFFER_HEIGHT,
                col <= BUFFER_WIDTH,
                blank == spec_cell(BLANK, self.color_code),
                screen(*cells).len() == 25,
                forall|r: int|
                    0 <= r < 25 && r != row ==> #[trigger] screen(*cells)[r] == screen(
                        *old(cells),
                    )[r],
                forall|c: int| 0 <= c < col ==> #[trigger] screen(*cells)[row as int][c] == blank,
            decreases BUFFER_WIDTH - col,
        {
            set_cell(cells, row, col, blank);
            col += 1;
        }
        assert(screen(*cells)[row as int] =~= blank_row(self.color_code));
        assert(screen(*cells) =~= screen(*old(cells)).update(
            row as int,
            blank_row(self.color_code),
        ));
    }

    /// Copies a row into the one above it.
    fn copy_up(&self, cells: &mut [[Volatile<u16>; 80]; 25], row: usize)
        requires
            1 <= row < BUFFER_HEIGHT,
        ensures
            screen(*final(cells)) == screen(*old(cells)).update(
                row - 1,
                screen(*old(cells))[row as int],
            ),
    {
        let mut col: usize = 0;
        while col < BUFFER_WIDTH
            invariant
                1 <= row < BUFFER_HEIGHT,
                col <= BUFFER_WIDTH,
                screen(*cells).len() == 25,
                forall|r: int|
                    0 <= r < 25 && r != row - 1 ==> #[trigger] screen(*cells)[r] == screen(
                        *old(cells),
                    )[r],
                forall|c: int|
                    0 <= c < col ==> #[trigger] screen(*cells)[row - 1][c] == screen(
                        *old(cells),
                    )[row as int][c],
            decreases BUFFER_WIDTH - col,
        {
            let ch: u16 = read_cell(&cells[row][col]);
            assert(ch == screen(*cells)[row as int][col as int]);
            set_cell(cells, row - 1, col, ch);
            col += 1;
        }
        assert(screen(*cells)[row - 1] =~= screen(*old(cells))[row as int]);
        assert(screen(*cells) =~= screen(*old(cells)).update(
            row - 1,
            screen(*old(cells))[row as int],
        ));
    }

    /// Moves everything up by one row and goes on at the start of the last one.
    fn new_line(&mut self, cells: &mut [[Volatile<u16>; 80]; 25])
        ensures
            final(self).wf(),
            text(*final(self), *final(cells)) == text(*old(self), *old(cells)).new_line(),
    {
        let mut row: usize = 1;
        while row < BUFFER_HEIGHT
            invariant
                1 <= row <= BUFFER_HEIGHT,
                *self == *old(self),
                screen(*cells).len() == 25,
                forall|r: int|
                    0 <= r < row - 1 ==> #[trigger] screen(*cells)[r] == screen(*old(cells))[r + 1],
                forall|r: int|
                    row - 1 <= r < 25 ==> #[trigger] screen(*cells)[r] == screen(*old(cells))[r],
            decreases BUFFER_HEIGHT - row,
        {
            self.copy_up(cells, row);
            row += 1;
        }
        self.clear_row(cells, BUFFER_HEIGHT - 1);
        self.col = 0;
        assert(screen(*cells) =~= text(*old(self), *old(cells)).new_line().rows);
    }

    /// Writes a byte.
    pub fn write_byte(&mut self, cells: &mut [[Volatile<u16>; 80]; 25], byte: u8)
        requires
            old(self).wf(),
        ensures
            final(self).wf(),
            text(*final(self), *final(cells)) == text(*old(self), *old(cells)).put(byte),
    {
        if byte == NEW_LINE {
            self.new_line(cells);
        } else {
            if self.col >= BUFFER_WIDTH {
                self.new_line(cells);
            }
            set_cell(cells, BUFFER_HEIGHT - 1, self.col, cell(byte, self.color_code));
            self.col = self.col + 1;
        }
    }

    /// Writes bytes one after the other.
    pub fn write_bytes(&mut self, cells: &mut [[Volatile<u16>; 80]; 25], bytes: &[u8])
        requires
            old(self).wf(),
        ensures
            final(self).wf(),
            text(*final(self), *final(cells)) == text(*old(self), *old(cells)).put_all(bytes@),
    {
        let mut i: usize = 0;
        while i < bytes.len()
            invariant
                i <= bytes@.len(),
                self.wf(),
                text(*self, *cells) == text(*old(self), *old(cells)).put_all(
                    bytes@.take(i as int),
                ),
            decreases bytes@.len() - i,
        {
            self.write_byte(cells, bytes[i]);
            assert(bytes@.take(i + 1).drop_last() =~= bytes@.take(i as int));
            i += 1;
        }
        assert(bytes@.take(i as int) =~= bytes@);
    }
}

/// The bytes were written: what is on the screen afterwards, and where writing goes on.
/// Without a writer nothing happens.
pub open spec fn wrote(
    before: Option<Writer>,
    cells_before: [[Volatile<u16>; 80]; 25],
    after: Option<Writer>,
    cells_after: [[Volatile<u16>; 80]; 25],
    bytes: Seq<u8>,
) -> bool {
    match before {
        Some(w) => {
            &&& after matches Some(v)
            &&& v.wf()
            &&& text(v, cells_after) == text(w, cells_before).put_all(bytes)
        },
        None => after is None && cells_after == cells_before,
    }
}

/// The writer, if there is one, is in order.
pub open spec fn writer_ok(writer: Option<Writer>) -> bool {
    writer matches Some(w) ==> w.wf()
}

/// Writes bytes, if there is a writer.
pub fn write_bytes(
    writer: &mut Option<Writer>,
    cells: &mut [[Volatile<u16>; 80]; 25],
    bytes: &[u8],
)
    requires
        writer_ok(*old(writer)),
    ensures
        writer_ok(*final(writer)),
        wrote(*old(writer), *old(cells), *final(writer), *final(cells), bytes@),
{
    match *writer {
        Some(w) => {
            let mut at: Writer = w;
            at.write_bytes(cells, bytes);
            *writer = Some(at);
        },
        None => {},
    }
}

/// Writes a text.
pub fn write_str(writer: &mut Option<Writer>, cells: &mut [[Volatile<u16>; 80]; 25], s: &str)
    requires
        writer_ok(*old(writer)),
    ensures
        writer_ok(*final(writer)),
        wrote(*old(writer), *old(cells), *final(writer), *final(cells), s.spec_bytes()),
{
    write_bytes(writer, cells, s.as_bytes());
}

/// Ends the line.
pub fn end_line(writer: &mut Option<Writer>, cells: &mut [[Volatile<u16>; 80]; 25])
    requires
        writer_ok(*old(writer)),
    ensures
        writer_ok(*final(writer)),
        wrote(*old(writer), *old(cells), *final(writer), *final(cells), seq![NEW_LINE]),
{
    let end: [u8; 1] = [NEW_LINE];
    assert(end@ =~= seq![NEW_LINE]);
    write_bytes(writer, cells, &end);
}

/// Writes a text and ends the line.
pub fn write_line(writer: &mut Option<Writer>, cells: &mut [[Volatile<u16>; 80]; 25], s: &str)
    requires
        writer_ok(*old(writer)),
    ensures
        writer_ok(*final(writer)),
        wrote(
            *old(writer),
            *old(cells),
            *final(writer),
            *final(cells),
            s.spec_bytes() + seq![NEW_LINE],
        ),
{
    write_str(writer, cells, s);
    let ghost (w1, c1) = (*writer, *cells);
    end_line(writer, cells);
    proof {
        law_writes_add_up(
            *old(writer),
            *old(cells),
            w1,
            c1,
            *writer,
            *cells,
            s.spec_bytes(),
            seq![NEW_LINE],
        );
    }
}

/// Writes a text behind a prefix and ends the line.
pub fn write_prefixed_line(
    writer: &mut Option<Writer>,
    cells: &mut [[Volatile<u16>; 80]; 25],
    prefix: &str,
    msg: &str,
)
    requires
        writer_ok(*old(writer)),
    ensures
        writer_ok(*final(writer)),
        wrote(
            *old(writer),
            *old(cells),
            *final(writer),
            *final(cells),
            prefix.spec_bytes() + (msg.spec_bytes() + seq![NEW_LINE]),
        ),
{
    write_str(writer, cells, prefix);
    let ghost (w1, c1) = (*writer, *cells);
    write_line(writer, cells, msg);
    proof {
        law_writes_add_up(
            *old(writer),
            *old(cells),
            w1,
            c1,
            *writer,
            *cells,
            prefix.spec_bytes(),
            msg.spec_bytes() + seq![NEW_LINE],
        );
    }
}

/// Two writes one after the other are one write.
pub proof fn law_writes_add_up(
    w0: Option<Writer>,
    c0: [[Volatile<u16>; 80]; 25],
    w1: Option<Writer>,
    c1: [[Volatile<u16>; 80]; 25],
    w2: Option<Writer>,
    c2: [[Volatile<u16>; 80]; 25],
    a: Seq<u8>,
    b: Seq<u8>,
)
    requires
        wrote(w0, c0, w1, c1, a),
        wrote(w1, c1, w2, c2, b),
    ensures
        wrote(w0, c0, w2, c2, a + b),
{
    match w0 {
        Some(w) => {
            law_text_adds_up(text(w, c0), a, b);
        },
        None => {},
    }
}

/// Writing two pieces of text is writing them as one.
pub proof fn law_text_adds_up(t: TextView, a: Seq<u8>, b: Seq<u8>)
    ensures
        t.put_all(a + b) == t.put_all(a).put_all(b),
    decreases b.len(),
{
    if b.len() == 0 {
        assert(a + b =~= a);
    } else {
        law_text_adds_up(t, a, b.drop_last());
        assert((a + b).drop_last() =~= a + b.drop_last());
        assert((a + b).last() == b.last());
    }
}

/// Text that fits in what is left of the row stands there afterwards; no other cell
/// changes.
pub proof fn law_short_text_stands_in_the_row(t: TextView, bytes: Seq<u8>)
    requires
        t.wf(),
        t.col + bytes.len() <= 80,
        !bytes.contains(NEW_LINE),
    ensures
        ({
            let after = t.put_all(bytes);
            &&& after.wf()
            &&& after.col == t.col + bytes.len()
            &&& after.color == t.color
            &&& forall|r: int| 0 <= r < 24 ==> #[trigger] after.rows[r] == t.rows[r]
            &&& forall|c: int|
                0 <= c < 80 ==> #[trigger] after.rows[24][c] == if t.col <= c < t.col
                    + bytes.len() {
                    spec_cell(bytes[c - t.col], t.color)
                } else {
                    t.rows[24][c]
                }
        }),
    decreases bytes.len(),
{
    if bytes.len() > 0 {
        let most = bytes.drop_last();
        assert forall|x: u8| most.contains(x) implies bytes.contains(x) by {
            let i = choose|i: int| 0 <= i < most.len() && most[i] == x;
            assert(bytes[i] == x);
        }
        assert(!most.contains(NEW_LINE));
        law_short_text_stands_in_the_row(t, most);
        assert(bytes[bytes.len() - 1] == bytes.last());
        assert(bytes.contains(bytes.last()));
    }
}

/// A line that fits in the row ends up in the row above the last one, which is empty again,
/// and the next line starts there.
pub proof fn law_line_moves_up(t: TextView, bytes: Seq<u8>)
    requires
        t.wf(),
        t.col == 0,
        bytes.len() <= 80,
        !bytes.contains(NEW_LINE),
    ensures
        ({
            let after = t.put_all(bytes).put(NEW_LINE);
            &&& after.wf()
            &&& after.col == 0
            &&& after.rows[24] == blank_row(t.color)
            &&& forall|c: int|
                0 <= c < bytes.len() ==> #[trigger] after.rows[23][c] == spec_cell(bytes[c], t.color)
            &&& forall|r: int| 0 <= r < 23 ==> #[trigger] after.rows[r] == t.rows[r + 1]
        }),
{
    law_short_text_stands_in_the_row(t, bytes);
}

/// A cell holds the byte and the color, one in each half.
pub proof fn law_cell_holds_byte_and_color(byte: u8, color: u8)
    ensures
        spec_cell(byte, color) % 256 == byte,
        spec_cell(byte, color) / 256 == color,
{
}

/// At the end of a row the next byte is the first one of a new row; the others move up.
pub proof fn law_full_row_is_followed_by_another(t: TextView, byte: u8)
    requires
        t.wf(),
        t.col == 80,
        byte != NEW_LINE,
    ensures
        ({
            let after = t.put(byte);
            &&& after.wf()
            &&& after.col == 1
            &&& after.color == t.color
            &&& forall|r: int| 0 <= r < 24 ==> #[trigger] after.rows[r] == t.rows[r + 1]
            &&& after.rows[24][0] == spec_cell(byte, t.color)
            &&& forall|c: int|
                1 <= c < 80 ==> #[trigger] after.rows[24][c] == spec_cell(BLANK, t.color)
        }),
{
}

} // verus!
