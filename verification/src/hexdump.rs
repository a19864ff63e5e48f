//! The hex dump that the gateway's file viewer shows for binary files.

use vstd::prelude::*;

use crate::text::{dec, hex, push_char, push_decimal, push_hex_padded, push_str, zero_pad};

verus! {

/// The printable stand-in for a byte: itself when it is visible ASCII,
/// `'.'` otherwise.
pub open spec fn printable(b: u8) -> char {
    if 32 <= b && b < 127 {
        b as char
    } else {
        '.'
    }
}

/// Cell `j` of the hex column for a chunk: the byte in two hex digits and a
/// space (three spaces past the end of the chunk), with an extra space
/// after the eighth cell.
pub open spec fn hex_cell(chunk: Seq<u8>, j: int) -> Seq<char> {
    (if j < chunk.len() {
        zero_pad(hex(chunk[j] as nat), 2) + seq![' ']
    } else {
        seq![' ', ' ', ' ']
    }) + (if j == 7 { seq![' '] } else { Seq::<char>::empty() })
}

/// Cells `j..16` of the hex column.
pub open spec fn hex_cells(chunk: Seq<u8>, j: int) -> Seq<char>
    decreases 16 - j,
{
    if j >= 16 {
        Seq::empty()
    } else {
        hex_cell(chunk, j) + hex_cells(chunk, j + 1)
    }
}

pub open spec fn ascii_column(chunk: Seq<u8>) -> Seq<char> {
    Seq::new(chunk.len(), |j: int| printable(chunk[j]))
}

/// One line of the dump: the offset in eight hex digits, two spaces, the
/// hex column, a space, the printable column and a newline.
pub open spec fn dump_line(offset: nat, chunk: Seq<u8>) -> Seq<char> {
    zero_pad(hex(offset), 8) + seq![' ', ' '] + hex_cells(chunk, 0) + seq![' '] + ascii_column(chunk)
        + seq!['\n']
}

pub open spec fn min(a: int, b: int) -> int {
    if a < b {
        a
    } else {
        b
    }
}

/// The lines for the chunks of sixteen bytes from chunk `i` on.
pub open spec fn dump_lines(shown: Seq<u8>, i: nat) -> Seq<char>
    decreases shown.len() + 16 - 16 * i,
{
    if 16 * i >= shown.len() {
        Seq::empty()
    } else {
        dump_line(16 * i, shown.subrange((16 * i) as int, min((16 * i + 16) as int, shown.len() as int)))
            + dump_lines(shown, i + 1)
    }
}

/// The whole dump of `data` limited to `max_bytes`: the lines of the bytes
/// shown, then a note of how many bytes were left out, if any.
pub open spec fn hex_dump(data: Seq<u8>, max_bytes: nat) -> Seq<char> {
    let shown = data.take(min(data.len() as int, max_bytes as int));
    dump_lines(shown, 0) + if data.len() > max_bytes {
        "\n... ("@ + dec((data.len() - max_bytes) as nat) + " more bytes)\n"@
    } else {
        Seq::<char>::empty()
    }
}

fn printable_char(b: u8) -> (c: char)
    ensures
        c == printable(b),
{
    if b >= 32 && b < 127 {
        b as char
    } else {
        '.'
    }
}

fn push_line(s: &mut String, data: &[u8], start: usize, end: usize)
    requires
        start < end <= data@.len(),
        end - start <= 16,
    ensures
        final(s)@ == old(s)@ + dump_line(start as nat, data@.subrange(start as int, end as int)),
{
    let ghost chunk = data@.subrange(start as int, end as int);
    let ghost s0 = s@;
    push_hex_padded(s, start as u64, 8);
    push_char(s, ' ');
    push_char(s, ' ');
    let ghost s1 = s@;
    let len = end - start;
    let mut j: usize = 0;
    while j < 16
        invariant
            j <= 16,
            len == chunk.len(),
            start + len == end <= data@.len(),
            chunk == data@.subrange(start as int, end as int),
            s@ + hex_cells(chunk, j as int) == s1 + hex_cells(chunk, 0),
        decreases 16 - j,
    {
        let ghost before = s@;
        if j < len {
            push_hex_padded(s, data[start + j] as u64, 2);
            push_char(s, ' ');
        } else {
            push_char(s, ' ');
            push_char(s, ' ');
            push_char(s, ' ');
        }
        if j == 7 {
            push_char(s, ' ');
        }
        assert(s@ =~= before + hex_cell(chunk, j as int));
        assert(hex_cells(chunk, j as int) == hex_cell(chunk, j as int) + hex_cells(chunk, j + 1));
        assert(before + hex_cells(chunk, j as int) =~= s@ + hex_cells(chunk, j + 1));
        j += 1;
    }
    assert(s@ =~= s1 + hex_cells(chunk, 0));
    push_char(s, ' ');
    let ghost s2 = s@;
    let mut k: usize = 0;
    while k < len
        invariant
            k <= len,
            len == chunk.len(),
            start + len == end <= data@.len(),
            chunk == data@.subrange(start as int, end as int),
            s@ == s2 + ascii_column(chunk).take(k as int),
        decreases len - k,
    {
        let c = printable_char(data[start + k]);
        push_char(s, c);
        k += 1;
        assert(s@ =~= s2 + ascii_column(chunk).take(k as int));
    }
    assert(ascii_column(chunk).take(len as int) =~= ascii_column(chunk));
    push_char(s, '\n');
    assert(s@ =~= s0 + dump_line(start as nat, chunk));
}

/// Convert bytes to hex dump for binary files
pub fn to_hex_dump(data: &[u8], max_bytes: usize) -> (r: String)
    ensures
        r@ == hex_dump(data@, max_bytes as nat),
{
    let n = if data.len() < max_bytes {
        data.len()
    } else {
        max_bytes
    };
    let ghost shown = data@.take(n as int);
    let mut result = String::new();
    let mut i: usize = 0;
    let ghost mut c: nat = 0;
    assert(result@ + dump_lines(shown, 0) =~= dump_lines(shown, 0));
    while i < n
        invariant
            n <= data@.len(),
            shown == data@.take(n as int),
            i == (if 16 * c <= n { 16 * c } else { n as nat }),
            result@ + dump_lines(shown, c) == dump_lines(shown, 0),
        decreases n - i,
    {
        let end = if n - i < 16 {
            n
        } else {
            i + 16
        };
        let ghost before = result@;
        push_line(&mut result, data, i, end);
        assert(shown.subrange(i as int, end as int) =~= data@.subrange(i as int, end as int));
        assert(dump_lines(shown, c) == dump_line(i as nat, shown.subrange(i as int, end as int))
            + dump_lines(shown, c + 1));
        i = end;
        proof {
            c = c + 1;
        }
        assert(before + dump_lines(shown, (c - 1) as nat) =~= result@ + dump_lines(shown, c));
    }
    assert(dump_lines(shown, c) == Seq::<char>::empty());
    assert(result@ =~= dump_lines(shown, 0));
    if data.len() > max_bytes {
        push_str(&mut result, "\n... (");
        push_decimal(&mut result, (data.len() - max_bytes) as u64);
        push_str(&mut result, " more bytes)\n");
    }
    result
}

} // verus!
