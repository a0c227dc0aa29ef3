//! Laws of the console writer, stated over the abstract writer state and
//! proved once for every well-formed state: the display-safety filter,
//! row filling and wrap, the newline effect, and the scroll invariant.

use vstd::prelude::*;

verus! {

use crate::vga_buffer::{
    WriterView, ScreenChar, ColorCode, wf_state, wf_grid, write_byte_step, write_bytes_step,
    newline_step, put_char_step, scrolled, blank_row, blank_char, filtered, is_printable,
    BUFFER_HEIGHT, BUFFER_WIDTH, NEWLINE, PLACEHOLDER,
};

/// The scroll invariant: after one scroll every row holds what the row
/// below it held before, and the bottom row is entirely blank cells
/// under the given attribute. Scrolling preserves the grid dimensions.
pub proof fn lemma_scroll_invariant(grid: Seq<Seq<ScreenChar>>, color: ColorCode)
    requires
        wf_grid(grid),
    ensures
        wf_grid(scrolled(grid, color)),
        forall|r: int|
            0 <= r < BUFFER_HEIGHT - 1 ==> #[trigger] scrolled(grid, color)[r] == grid[r + 1],
        scrolled(grid, color)[BUFFER_HEIGHT - 1] == blank_row(color),
        forall|j: int|
            0 <= j < BUFFER_WIDTH ==> #[trigger] scrolled(grid, color)[BUFFER_HEIGHT - 1][j]
                == blank_char(color),
{
}

/// One step of the writer keeps the state well formed, whatever the byte.
pub proof fn lemma_write_byte_step_wf(s: WriterView, byte: u8)
    requires
        wf_state(s),
    ensures
        wf_state(write_byte_step(s, byte)),
        write_byte_step(s, byte).color == s.color,
{
    lemma_scroll_invariant(s.grid, s.color);
    if byte != NEWLINE {
        assert(put_char_step(s, byte).grid[BUFFER_HEIGHT - 1].len() == BUFFER_WIDTH);
    }
}

/// Writing any byte sequence keeps the state well formed and the
/// attribute unchanged.
pub proof fn lemma_write_bytes_step_wf(s: WriterView, bytes: Seq<u8>)
    requires
        wf_state(s),
    ensures
        wf_state(write_bytes_step(s, bytes)),
        write_bytes_step(s, bytes).color == s.color,
    decreases bytes.len(),
{
    if bytes.len() > 0 {
        lemma_write_byte_step_wf(s, filtered(bytes[0]));
        lemma_write_bytes_step_wf(write_byte_step(s, filtered(bytes[0])), bytes.drop_first());
    }
}

/// The display-safety filter: writing one non-newline byte through
/// `write_string` stores, at the cell the cursor addressed, the byte
/// itself when it is printable and the placeholder glyph otherwise,
/// always under the writer's attribute.
pub proof fn lemma_write_string_filter(s: WriterView, byte: u8)
    requires
        wf_state(s),
        byte != NEWLINE,
    ensures
        ({
            let t = write_bytes_step(s, seq![byte]);
            let col = if s.col >= BUFFER_WIDTH { 0int } else { s.col as int };
            &&& t.grid[BUFFER_HEIGHT - 1][col] == (ScreenChar {
                ascii_character: filtered(byte),
                color_code: s.color,
            })
            &&& is_printable(byte) ==> t.grid[BUFFER_HEIGHT - 1][col].ascii_character == byte
            &&& !is_printable(byte) ==> t.grid[BUFFER_HEIGHT - 1][col].ascii_character
                == PLACEHOLDER
        }),
{
    let b = filtered(byte);
    assert(seq![byte][0] == byte);
    assert(seq![byte].drop_first() =~= Seq::<u8>::empty());
    assert(write_bytes_step(write_byte_step(s, b), Seq::<u8>::empty()) == write_byte_step(s, b));
    assert(write_bytes_step(s, seq![byte]) == write_byte_step(s, b));
    lemma_scroll_invariant(s.grid, s.color);
    let t = if s.col >= BUFFER_WIDTH {
        newline_step(s)
    } else {
        s
    };
    assert(t.grid[BUFFER_HEIGHT - 1].len() == BUFFER_WIDTH);
}

/// A newline always resets the cursor to column 0 and writes no visible
/// cell for itself: the whole grid afterwards is the scrolled grid, in
/// which every row either comes from the previous contents or is blank.
pub proof fn lemma_newline_resets_column(s: WriterView)
    requires
        wf_state(s),
    ensures
        write_byte_step(s, NEWLINE).col == 0,
        write_byte_step(s, NEWLINE).grid == scrolled(s.grid, s.color),
        forall|r: int|
            0 <= r < BUFFER_HEIGHT - 1 ==> #[trigger] write_byte_step(s, NEWLINE).grid[r] == s.grid[
                r + 1
            ],
        write_byte_step(s, NEWLINE).grid[BUFFER_HEIGHT - 1] == blank_row(s.color),
{
    lemma_scroll_invariant(s.grid, s.color);
}

/// Filling the bottom row: printable bytes that fit to the right of the
/// cursor land left to right at consecutive columns of the bottom row,
/// under the writer's attribute; no scroll is triggered, so every other
/// row and every other bottom-row cell keeps its contents, and the
/// cursor advances by exactly the number of bytes written.
pub proof fn lemma_fill_bottom_row(s: WriterView, bytes: Seq<u8>)
    requires
        wf_state(s),
        s.col + bytes.len() <= BUFFER_WIDTH,
        forall|i: int| 0 <= i < bytes.len() ==> is_printable(#[trigger] bytes[i]),
    ensures
        ({
            let t = write_bytes_step(s, bytes);
            &&& t.col == s.col + bytes.len()
            &&& t.color == s.color
            &&& wf_state(t)
            &&& forall|r: int| 0 <= r < BUFFER_HEIGHT - 1 ==> #[trigger] t.grid[r] == s.grid[r]
            &&& forall|j: int|
                0 <= j < bytes.len() ==> #[trigger] t.grid[BUFFER_HEIGHT - 1][s.col + j]
                    == (ScreenChar { ascii_character: bytes[j], color_code: s.color })
            &&& forall|j: int|
                (0 <= j < s.col || s.col + bytes.len() <= j < BUFFER_WIDTH)
                    ==> #[trigger] t.grid[BUFFER_HEIGHT - 1][j] == s.grid[BUFFER_HEIGHT - 1][j]
        }),
    decreases bytes.len(),
{
    if bytes.len() == 0 {
    } else {
        let b = bytes[0];
        assert(is_printable(b));
        assert(filtered(b) == b);
        assert(b != NEWLINE);
        let s1 = write_byte_step(s, b);
        assert(s1 == put_char_step(s, b));
        assert(s.col < BUFFER_WIDTH);
        lemma_write_byte_step_wf(s, b);
        assert(write_bytes_step(s, bytes) == write_bytes_step(s1, bytes.drop_first()));
        lemma_fill_bottom_row(s1, bytes.drop_first());
        let t = write_bytes_step(s, bytes);
        assert forall|j: int| 0 <= j < bytes.len() implies #[trigger] t.grid[BUFFER_HEIGHT - 1][
            s.col + j
        ] == (ScreenChar { ascii_character: bytes[j], color_code: s.color }) by {
            if j == 0 {
                assert(t.grid[BUFFER_HEIGHT - 1][s.col as int] == s1.grid[BUFFER_HEIGHT - 1][
                    s.col as int
                ]);
            } else {
                assert(t.grid[BUFFER_HEIGHT - 1][s1.col + (j - 1)] == (ScreenChar {
                    ascii_character: bytes.drop_first()[j - 1],
                    color_code: s1.color,
                }));
            }
        };
    }
}

/// The wrap: a printable byte written while the cursor stands past the
/// last column triggers exactly one scroll, after which the byte lands
/// at column 0 of the bottom row and the cursor stands at column 1.
pub proof fn lemma_wrap_scrolls_once(s: WriterView, byte: u8)
    requires
        wf_state(s),
        s.col == BUFFER_WIDTH,
        is_printable(byte),
    ensures
        ({
            let t = write_byte_step(s, byte);
            &&& t.col == 1
            &&& t.grid == scrolled(s.grid, s.color).update(
                BUFFER_HEIGHT - 1,
                blank_row(s.color).update(
                    0,
                    ScreenChar { ascii_character: byte, color_code: s.color },
                ),
            )
            &&& t.grid[BUFFER_HEIGHT - 1][0] == (ScreenChar {
                ascii_character: byte,
                color_code: s.color,
            })
            &&& forall|r: int| 0 <= r < BUFFER_HEIGHT - 1 ==> #[trigger] t.grid[r] == s.grid[r + 1]
        }),
{
    assert(byte != NEWLINE);
    lemma_scroll_invariant(s.grid, s.color);
    let m = newline_step(s);
    assert(m.grid[BUFFER_HEIGHT - 1] == blank_row(s.color));
    assert(write_byte_step(s, byte).grid[BUFFER_HEIGHT - 1][0] == (ScreenChar {
        ascii_character: byte,
        color_code: s.color,
    }));
}

} // verus!
