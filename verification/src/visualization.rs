//! Visual rendering of hash differences: a bit-grid diff map and a
//! one-line summary.

use vstd::prelude::*;

use crate::text::{push_u64, spec_dec, spec_digit};
use crate::hashval::{spec_distance, lemma_distance_upto_bound, MAX_HASH_BYTES, ImageHashValue};

verus! {

/// The bit of a hash at `idx`, most significant bit first within each
/// byte; bits past the end read as zero.
pub open spec fn spec_bit_at(bytes: Seq<u8>, idx: int) -> int {
    if 0 <= idx / 8 < bytes.len() {
        (bytes[idx / 8] as int / spec_shift(7 - idx % 8)) % 2
    } else {
        0
    }
}

/// Powers of two for bit positions.
pub open spec fn spec_shift(n: int) -> int
    decreases n,
{
    if n <= 0 {
        1
    } else {
        2 * spec_shift(n - 1)
    }
}

/// One row of the difference map: two characters per cell, `.` for
/// equal bits and `X` for differing ones, closed by a newline.
pub open spec fn spec_vis_row(a: Seq<u8>, b: Seq<u8>, g: int, row: int, col: int) -> Seq<char>
    decreases g - col,
{
    if col >= g {
        seq!['\n']
    } else {
        let idx = row * g + col;
        let c = if spec_bit_at(a, idx) == spec_bit_at(b, idx) {
            '.'
        } else {
            'X'
        };
        seq![c, ' '] + spec_vis_row(a, b, g, row, col + 1)
    }
}

/// The difference map from `row` down: each row indented by two
/// spaces.
pub open spec fn spec_vis_rows(a: Seq<u8>, b: Seq<u8>, g: int, row: int) -> Seq<char>
    decreases g - row,
{
    if row >= g {
        Seq::empty()
    } else {
        seq![' ', ' '] + spec_vis_row(a, b, g, row, 0) + spec_vis_rows(a, b, g, row + 1)
    }
}

/// The full difference map with its header line.
pub open spec fn spec_visualize(a: Seq<u8>, b: Seq<u8>, g: int) -> Seq<char> {
    "Hash Difference Map (. = same, X = different):\n\n"@ + spec_vis_rows(a, b, g, 0)
}

/// Renders hash differences for the advanced view.
#[derive(Debug, Clone)]
pub struct HashVisualizer {
    /// Side length of the square bit grid.
    pub grid_size: usize,
}

/// The integer square root: the largest value whose square is within
/// the input.
pub open spec fn spec_isqrt_ok(n: int, r: int) -> bool {
    r >= 0 && r * r <= n && (r + 1) * (r + 1) > n
}

/// Integer square root by search.
fn isqrt(n: usize) -> (r: usize)
    requires
        n <= 0x1_0000_0000,
    ensures
        spec_isqrt_ok(n as int, r as int),
{
    let mut r: usize = 0;
    loop
        invariant
            n <= 0x1_0000_0000,
            r * r <= n,
            r <= n || r == 0,
            r <= 0x1_0000,
        ensures
            r * r <= n,
            (r + 1) * (r + 1) > n,
        decreases n - r,
    {
        let next: u64 = r as u64 + 1;
        proof {
            assert(next * next < 0x2_0000_0000) by (nonlinear_arith)
                requires
                    next <= 0x1_0001,
            ;
        }
        if next * next > n as u64 {
            break;
        }
        r = r + 1;
        proof {
            assert(r <= 0x1_0000 && r <= n) by (nonlinear_arith)
                requires
                    r as int * r as int <= 0x1_0000_0000,
                    r as int * r as int <= n,
                    r >= 1,
            ;
        }
    }
    r
}

impl HashVisualizer {
    /// Create a visualizer for hashes of the given byte length: the
    /// grid side is the integer square root of the bit count, and
    /// stays small enough to render.
    pub fn new(hash_bytes: usize) -> (r: HashVisualizer)
        requires
            hash_bytes <= 0x20_0000,
        ensures
            spec_isqrt_ok(8 * hash_bytes as int, r.grid_size as int),
            r.grid_size <= 0x1000,
    {
        let bits = hash_bytes * 8;
        let g = isqrt(bits);
        proof {
            assert(g <= 0x1000) by (nonlinear_arith)
                requires
                    g as int * g as int <= 0x100_0000,
                    g >= 0,
            ;
        }
        HashVisualizer { grid_size: g }
    }

    /// The bit of a hash at `idx`, MSB first; bits past the end read
    /// as zero.
    fn bit_at(bytes: &Vec<u8>, idx: usize) -> (r: u8)
        requires
            idx < 0x4000_0000,
        ensures
            r as int == spec_bit_at(bytes@, idx as int),
    {
        let byte_idx = idx / 8;
        if byte_idx < bytes.len() {
            let sh: u8 = match idx % 8 {
                0 => 128,
                1 => 64,
                2 => 32,
                3 => 16,
                4 => 8,
                5 => 4,
                6 => 2,
                _ => 1,
            };
            proof {
                reveal_with_fuel(spec_shift, 10);
            }
            (bytes[byte_idx] / sh) % 2
        } else {
            0
        }
    }

    /// Render the difference map of two hashes: a grid with `.` where
    /// the bits match and `X` where they differ.
    pub fn visualize_difference(&self, hash_a: &Vec<u8>, hash_b: &Vec<u8>) -> (r: String)
        requires
            self.grid_size <= 0x1000,
        ensures
            r@ == spec_visualize(hash_a@, hash_b@, self.grid_size as int),
    {
        let g = self.grid_size;
        let mut out = String::new();
        out.append("Hash Difference Map (. = same, X = different):\n\n");
        let mut row: usize = 0;
        while row < g
            invariant
                g == self.grid_size,
                g <= 0x1000,
                row <= g,
                out@ == "Hash Difference Map (. = same, X = different):\n\n"@ + spec_vis_rows_upto(
                    hash_a@,
                    hash_b@,
                    g as int,
                    row as int,
                ),
            decreases g - row,
        {
            out.append("  ");
            proof {
                reveal_strlit("  ");
                assert(out@ =~= "Hash Difference Map (. = same, X = different):\n\n"@
                    + spec_vis_rows_upto(hash_a@, hash_b@, g as int, row as int) + seq![' ', ' ']
                    + spec_vis_row_upto(hash_a@, hash_b@, g as int, row as int, 0));
            }
            let mut col: usize = 0;
            while col < g
                invariant
                    g == self.grid_size,
                    g <= 0x1000,
                    row < g,
                    col <= g,
                    out@ == "Hash Difference Map (. = same, X = different):\n\n"@
                        + spec_vis_rows_upto(hash_a@, hash_b@, g as int, row as int) + seq![
                        ' ',
                        ' ',
                    ] + spec_vis_row_upto(hash_a@, hash_b@, g as int, row as int, col as int),
                decreases g - col,
            {
                proof {
                    assert(row as int * g as int + col < 0x100_0000) by (nonlinear_arith)
                        requires
                            row < g,
                            col < g,
                            g <= 0x1000,
                    ;
                }
                let idx = row * g + col;
                let ba = HashVisualizer::bit_at(hash_a, idx);
                let bb = HashVisualizer::bit_at(hash_b, idx);
                if ba == bb {
                    out.push('.');
                } else {
                    out.push('X');
                }
                out.push(' ');
                proof {
                    assert(spec_vis_row_upto(
                        hash_a@,
                        hash_b@,
                        g as int,
                        row as int,
                        col + 1 as int,
                    ) =~= spec_vis_row_upto(hash_a@, hash_b@, g as int, row as int, col as int)
                        + seq![
                        if spec_bit_at(hash_a@, row as int * g as int + col as int) == spec_bit_at(
                            hash_b@,
                            row as int * g as int + col as int,
                        ) {
                            '.'
                        } else {
                            'X'
                        },
                        ' ',
                    ]);
                }
                col = col + 1;
            }
            out.push('\n');
            proof {
                assert(spec_vis_rows_upto(hash_a@, hash_b@, g as int, row + 1 as int)
                    =~= spec_vis_rows_upto(hash_a@, hash_b@, g as int, row as int) + seq![' ', ' ']
                    + spec_vis_row_upto(hash_a@, hash_b@, g as int, row as int, g as int) + seq![
                    '\n',
                ]);
                assert(out@ =~= "Hash Difference Map (. = same, X = different):\n\n"@
                    + spec_vis_rows_upto(hash_a@, hash_b@, g as int, row + 1 as int));
            }
            row = row + 1;
        }
        proof {
            lemma_vis_rows_complete(hash_a@, hash_b@, g as int, g as int);
            assert(spec_vis_rows(hash_a@, hash_b@, g as int, g as int) =~= Seq::<char>::empty());
            assert(out@ =~= spec_visualize(hash_a@, hash_b@, g as int));
        }
        out
    }

    /// A one-line summary: differing bits out of total, with a
    /// similarity percentage to one decimal, rounded half up.
    pub fn summarize_difference(&self, hash_a: &Vec<u8>, hash_b: &Vec<u8>) -> (r: String)
        requires
            hash_a@.len() <= MAX_HASH_BYTES,
            hash_b@.len() <= MAX_HASH_BYTES,
            hash_a@.len() > 0,
        ensures
            r@ == {
                let d = spec_distance(hash_a@, hash_b@);
                let total = 8 * hash_a@.len() as int;
                let tenths = ((total - d) * 1000 + total / 2) / total;
                spec_dec(d as nat) + " of "@ + spec_dec(total as nat) + " bits differ ("@
                    + spec_dec((tenths / 10) as nat) + seq!['.', spec_digit((tenths % 10) as nat)]
                    + "% similar)"@
            },
    {
        let a = ImageHashValue::new(crate::cache::clone_bytes_of(hash_a), crate::hashval::HashAlgorithmKind::Difference);
        let differing = a.distance(
            &ImageHashValue::new(
                crate::cache::clone_bytes_of(hash_b),
                crate::hashval::HashAlgorithmKind::Difference,
            ),
        );
        let total = (hash_a.len() as u64) * 8;
        proof {
            lemma_distance_upto_bound(
                hash_a@,
                hash_b@,
                if hash_a@.len() <= hash_b@.len() {
                    hash_a@.len() as int
                } else {
                    hash_b@.len() as int
                },
            );
        }
        let tenths = ((total - differing as u64) * 1000 + total / 2) / total;
        let mut s = String::new();
        push_u64(&mut s, differing as u64);
        s.append(" of ");
        push_u64(&mut s, total);
        s.append(" bits differ (");
        push_u64(&mut s, tenths / 10);
        s.push('.');
        crate::text::push_u64(&mut s, tenths % 10);
        proof {
            assert(spec_dec((tenths % 10) as nat) =~= seq![spec_digit((tenths % 10) as nat)]);
        }
        s.append("% similar)");
        proof {
            assert(s@ =~= {
                let d = spec_distance(hash_a@, hash_b@);
                let total2 = 8 * hash_a@.len() as int;
                let tenths2 = ((total2 - d) * 1000 + total2 / 2) / total2;
                spec_dec(d as nat) + " of "@ + spec_dec(total2 as nat) + " bits differ ("@
                    + spec_dec((tenths2 / 10) as nat) + seq![
                    '.',
                    spec_digit((tenths2 % 10) as nat),
                ] + "% similar)"@
            });
        }
        s
    }
}

/// The rendered prefix of one row, up to `col` cells.
pub open spec fn spec_vis_row_upto(a: Seq<u8>, b: Seq<u8>, g: int, row: int, col: int) -> Seq<char>
    decreases col,
{
    if col <= 0 {
        Seq::empty()
    } else {
        let idx = row * g + (col - 1);
        let c = if spec_bit_at(a, idx) == spec_bit_at(b, idx) {
            '.'
        } else {
            'X'
        };
        spec_vis_row_upto(a, b, g, row, col - 1) + seq![c, ' ']
    }
}

/// The rendered prefix of the map, up to `row` full rows.
pub open spec fn spec_vis_rows_upto(a: Seq<u8>, b: Seq<u8>, g: int, row: int) -> Seq<char>
    decreases row,
{
    if row <= 0 {
        Seq::empty()
    } else {
        spec_vis_rows_upto(a, b, g, row - 1) + seq![' ', ' '] + spec_vis_row_upto(
            a,
            b,
            g,
            row - 1,
            g,
        ) + seq!['\n']
    }
}

/// A fully rendered row prefix equals the recursive row rendering.
proof fn lemma_vis_row_complete(a: Seq<u8>, b: Seq<u8>, g: int, row: int, col: int)
    requires
        0 <= col <= g,
    ensures
        spec_vis_row_upto(a, b, g, row, col) + spec_vis_row(a, b, g, row, col) =~= spec_vis_row(
            a,
            b,
            g,
            row,
            0,
        ),
    decreases col,
{
    if col > 0 {
        lemma_vis_row_complete(a, b, g, row, col - 1);
        assert(spec_vis_row_upto(a, b, g, row, col - 1) + spec_vis_row(a, b, g, row, col - 1)
            =~= spec_vis_row(a, b, g, row, 0));
        assert(spec_vis_row(a, b, g, row, col - 1) =~= {
            let idx = row * g + (col - 1);
            let c = if spec_bit_at(a, idx) == spec_bit_at(b, idx) {
                '.'
            } else {
                'X'
            };
            seq![c, ' '] + spec_vis_row(a, b, g, row, col)
        });
        assert(spec_vis_row_upto(a, b, g, row, col) + spec_vis_row(a, b, g, row, col)
            =~= spec_vis_row_upto(a, b, g, row, col - 1) + spec_vis_row(a, b, g, row, col - 1));
    }
}

/// A fully rendered map prefix equals the recursive map rendering.
proof fn lemma_vis_rows_complete(a: Seq<u8>, b: Seq<u8>, g: int, row: int)
    requires
        0 <= row <= g,
    ensures
        spec_vis_rows_upto(a, b, g, row) + spec_vis_rows(a, b, g, row) =~= spec_vis_rows(
            a,
            b,
            g,
            0,
        ),
    decreases row,
{
    if row > 0 {
        lemma_vis_rows_complete(a, b, g, row - 1);
        lemma_vis_row_complete(a, b, g, row - 1, 0);
        assert(spec_vis_rows(a, b, g, row - 1) =~= seq![' ', ' '] + spec_vis_row(a, b, g, row - 1, 0)
            + spec_vis_rows(a, b, g, row));
        lemma_vis_row_complete(a, b, g, row - 1, g);
        assert(spec_vis_row(a, b, g, row - 1, 0) =~= spec_vis_row_upto(a, b, g, row - 1, g)
            + spec_vis_row(a, b, g, row - 1, g));
        assert(spec_vis_row(a, b, g, row - 1, g) =~= seq!['\n']);
        assert(spec_vis_rows_upto(a, b, g, row) + spec_vis_rows(a, b, g, row)
            =~= spec_vis_rows_upto(a, b, g, row - 1) + spec_vis_rows(a, b, g, row - 1));
    }
}

} // verus!
