//! The text of a plain PPM ("P3") image.
//!
//! The header is `P3`, the width and height, and the largest sample value 255, each on a
//! line of its own. Then comes each row of pixels in turn: the red, green and blue sample
//! of each pixel as decimal numbers separated by single spaces, wrapped so that no line
//! exceeds 70 characters. A number goes on the current line unless the line would then be
//! longer than that. Every line, the last one included, ends with a newline.
use vstd::prelude::*;

verus! {

/// The longest line that the body of a PPM text may hold.
pub const PPM_LINE_LIMIT: usize = 70;

/// The character of the decimal digit `d`.
pub open spec fn digit_char(d: nat) -> char {
    if d == 0 {
        '0'
    } else if d == 1 {
        '1'
    } else if d == 2 {
        '2'
    } else if d == 3 {
        '3'
    } else if d == 4 {
        '4'
    } else if d == 5 {
        '5'
    } else if d == 6 {
        '6'
    } else if d == 7 {
        '7'
    } else if d == 8 {
        '8'
    } else {
        '9'
    }
}

/// `n` written in decimal, without leading zeros.
pub open spec fn decimal(n: nat) -> Seq<char>
    decreases n,
{
    if n < 10 {
        seq![digit_char(n)]
    } else {
        decimal(n / 10).push(digit_char(n % 10))
    }
}

fn digit_str(d: usize) -> (r: &'static str)
    requires
        d < 10,
    ensures
        r@ == seq![digit_char(d as nat)],
{
    if d == 0 {
        proof {
            reveal_strlit("0");
        }
        assert("0"@ =~= seq!['0']);
        "0"
    } else if d == 1 {
        proof {
            reveal_strlit("1");
        }
        assert("1"@ =~= seq!['1']);
        "1"
    } else if d == 2 {
        proof {
            reveal_strlit("2");
        }
        assert("2"@ =~= seq!['2']);
        "2"
    } else if d == 3 {
        proof {
            reveal_strlit("3");
        }
        assert("3"@ =~= seq!['3']);
        "3"
    } else if d == 4 {
        proof {
            reveal_strlit("4");
        }
        assert("4"@ =~= seq!['4']);
        "4"
    } else if d == 5 {
        proof {
            reveal_strlit("5");
        }
        assert("5"@ =~= seq!['5']);
        "5"
    } else if d == 6 {
        proof {
            reveal_strlit("6");
        }
        assert("6"@ =~= seq!['6']);
        "6"
    } else if d == 7 {
        proof {
            reveal_strlit("7");
        }
        assert("7"@ =~= seq!['7']);
        "7"
    } else if d == 8 {
        proof {
            reveal_strlit("8");
        }
        assert("8"@ =~= seq!['8']);
        "8"
    } else {
        proof {
            reveal_strlit("9");
        }
        assert("9"@ =~= seq!['9']);
        "9"
    }
}

/// Appends `n` in decimal to `out`.
pub fn append_decimal(out: &mut String, n: usize)
    ensures
        final(out)@ == old(out)@ + decimal(n as nat),
    decreases n,
{
    if n >= 10 {
        append_decimal(out, n / 10);
    }
    out.append(digit_str(n % 10));
    assert(old(out)@ + decimal(n as nat) =~= final(out)@);
}

proof fn lemma_sample_width(v: nat)
    requires
        v < 1000,
    ensures
        decimal(v).len() == if v < 10 {
            1nat
        } else if v < 100 {
            2nat
        } else {
            3nat
        },
{
    if v >= 10 {
        assert(decimal(v / 10).len() == if v / 10 < 10 {
            1nat
        } else {
            2nat
        }) by {
            if v / 10 >= 10 {
                assert(decimal(v / 10 / 10).len() == 1);
            }
        }
    }
}

/// The `c`-th sample (red, green, blue) of a pixel.
pub open spec fn sample(p: (u8, u8, u8), c: int) -> u8 {
    if c == 0 {
        p.0
    } else if c == 1 {
        p.1
    } else {
        p.2
    }
}

/// The numbers of a row of pixels, three to a pixel, as text.
pub open spec fn row_tokens(row: Seq<(u8, u8, u8)>) -> Seq<Seq<char>> {
    Seq::new(3 * row.len(), |k: int| decimal(sample(row[k / 3], k % 3) as nat))
}

/// One step of filling lines with tokens. The state holds the lines completed, the line
/// being filled, and the characters that line takes with one separator after it (zero
/// while it is empty). The token goes on that line unless the line would then exceed
/// the limit; then the line is completed and the token starts the next one.
pub open spec fn pack_step(st: (Seq<Seq<char>>, Seq<char>, nat), t: Seq<char>) -> (
    Seq<Seq<char>>,
    Seq<char>,
    nat,
) {
    if st.2 + t.len() > PPM_LINE_LIMIT {
        (st.0.push(st.1), t, t.len() + 1)
    } else if st.2 == 0 {
        (st.0, t, t.len() + 1)
    } else {
        (st.0, st.1 + " "@ + t, st.2 + t.len() + 1)
    }
}

/// The state after filling lines with all of `toks`, in order.
pub open spec fn pack(toks: Seq<Seq<char>>) -> (Seq<Seq<char>>, Seq<char>, nat)
    decreases toks.len(),
{
    if toks.len() == 0 {
        (Seq::empty(), Seq::empty(), 0)
    } else {
        pack_step(pack(toks.drop_last()), toks.last())
    }
}

/// The lines that a row of pixels takes.
pub open spec fn row_lines(row: Seq<(u8, u8, u8)>) -> Seq<Seq<char>> {
    let st = pack(row_tokens(row));
    st.0.push(st.1)
}

/// The lines, each followed by a newline.
pub open spec fn lines_text(lines: Seq<Seq<char>>) -> Seq<char>
    decreases lines.len(),
{
    if lines.len() == 0 {
        Seq::empty()
    } else {
        lines_text(lines.drop_last()) + lines.last() + "\n"@
    }
}

/// The text of the first `rows` rows of pixels of an image `width` pixels wide.
pub open spec fn rows_text(pixels: Seq<(u8, u8, u8)>, width: nat, rows: nat) -> Seq<char>
    decreases rows,
{
    if rows == 0 {
        Seq::empty()
    } else {
        rows_text(pixels, width, (rows - 1) as nat) + lines_text(
            row_lines(pixels.subrange(((rows - 1) * width) as int, (rows * width) as int)),
        )
    }
}

/// The header of a PPM text.
pub open spec fn ppm_header(width: nat, height: nat) -> Seq<char> {
    "P3\n"@ + decimal(width) + " "@ + decimal(height) + "\n255\n"@
}

/// The PPM text of an image of `width` × `height` pixels, given row by row.
pub open spec fn ppm_text(width: nat, height: nat, pixels: Seq<(u8, u8, u8)>) -> Seq<char> {
    ppm_header(width, height) + rows_text(pixels, width, height)
}

/// Appends the lines of the row `pixels[start .. start + width]`, each with its newline.
pub fn append_row(out: &mut String, pixels: &Vec<(u8, u8, u8)>, start: usize, width: usize)
    requires
        start + width <= pixels@.len(),
    ensures
        final(out)@ == old(out)@ + lines_text(
            row_lines(pixels@.subrange(start as int, start + width)),
        ),
{
    let total = pixels.len();
    let ghost row = pixels@.subrange(start as int, start + width);
    let ghost toks = row_tokens(row);
    let mut line = String::new();
    let mut n: usize = 0;
    let mut i: usize = 0;
    while i < width
        invariant
            start + width <= pixels@.len() == total,
            row == pixels@.subrange(start as int, start + width),
            toks == row_tokens(row),
            i <= width,
            n <= PPM_LINE_LIMIT + 1,
            out@ == old(out)@ + lines_text(pack(toks.take(3 * i)).0),
            line@ == pack(toks.take(3 * i)).1,
            n == pack(toks.take(3 * i)).2,
        decreases width - i,
    {
        let p = pixels[start + i];
        let mut c: usize = 0;
        while c < 3
            invariant
                start + width <= pixels@.len(),
                row == pixels@.subrange(start as int, start + width),
                toks == row_tokens(row),
                i < width,
                c <= 3,
                p == pixels@[start + i],
                n <= PPM_LINE_LIMIT + 1,
                out@ == old(out)@ + lines_text(pack(toks.take(3 * i + c)).0),
                line@ == pack(toks.take(3 * i + c)).1,
                n == pack(toks.take(3 * i + c)).2,
            decreases 3 - c,
        {
            let v: u8 = if c == 0 {
                p.0
            } else if c == 1 {
                p.1
            } else {
                p.2
            };
            let ghost j = 3 * i + c;
            assert(toks[j] == decimal(v as nat)) by {
                assert(j / 3 == i as int);
                assert(j % 3 == c as int);
                assert(row[i as int] == p);
            }
            let mut tok = String::new();
            append_decimal(&mut tok, v as usize);
            proof {
                lemma_sample_width(v as nat);
            }
            let k: usize = if v < 10 {
                1
            } else if v < 100 {
                2
            } else {
                3
            };
            assert(toks.take(j + 1).drop_last() =~= toks.take(j));
            let ghost before = pack(toks.take(j));
            if n + k > PPM_LINE_LIMIT {
                out.append(line.as_str());
                out.append("\n");
                proof {
                    assert(before.0.push(before.1).drop_last() =~= before.0);
                    assert(out@ =~= old(out)@ + lines_text(before.0.push(before.1)));
                }
                line = tok;
                n = k + 1;
            } else if n == 0 {
                line = tok;
                n = k + 1;
            } else {
                line.append(" ");
                line.append(tok.as_str());
                n = n + k + 1;
            }
            c = c + 1;
        }
        i = i + 1;
    }
    assert(toks.take(3 * i) =~= toks);
    let ghost st = pack(toks);
    out.append(line.as_str());
    out.append("\n");
    assert(st.0.push(st.1).drop_last() =~= st.0);
    assert(final(out)@ =~= old(out)@ + lines_text(st.0.push(st.1)));
}

/// What holds of every state of filling lines with tokens of at most the limit in length:
/// no line, completed or not, exceeds the limit, and the count is the length of the
/// current line with its separator (zero while it is empty).
pub open spec fn pack_fits(st: (Seq<Seq<char>>, Seq<char>, nat)) -> bool {
    &&& forall|i: int| 0 <= i < st.0.len() ==> (#[trigger] st.0[i]).len() <= PPM_LINE_LIMIT
    &&& st.1.len() <= PPM_LINE_LIMIT
    &&& st.2 == 0 ==> st.1.len() == 0
    &&& st.2 != 0 ==> st.2 == st.1.len() + 1
}

proof fn lemma_pack_fits(toks: Seq<Seq<char>>)
    requires
        forall|i: int| 0 <= i < toks.len() ==> (#[trigger] toks[i]).len() <= PPM_LINE_LIMIT,
    ensures
        pack_fits(pack(toks)),
    decreases toks.len(),
{
    reveal_strlit(" ");
    if toks.len() > 0 {
        let front = toks.drop_last();
        assert forall|i: int| 0 <= i < front.len() implies (#[trigger] front[i]).len()
            <= PPM_LINE_LIMIT by {
            assert(front[i] == toks[i]);
        }
        lemma_pack_fits(front);
        let st = pack(front);
        let t = toks.last();
        assert(t == toks[toks.len() - 1]);
        let next = pack_step(st, t);
        if st.2 + t.len() > PPM_LINE_LIMIT {
            assert forall|i: int| 0 <= i < next.0.len() implies (#[trigger] next.0[i]).len()
                <= PPM_LINE_LIMIT by {
                if i < st.0.len() {
                    assert(next.0[i] == st.0[i]);
                }
            }
        }
    }
}

/// No line of the text of a row of pixels is longer than 70 characters.
pub proof fn lemma_row_lines_fit(row: Seq<(u8, u8, u8)>)
    ensures
        forall|i: int|
            0 <= i < row_lines(row).len() ==> (#[trigger] row_lines(row)[i]).len()
                <= PPM_LINE_LIMIT,
{
    let toks = row_tokens(row);
    assert forall|k: int| 0 <= k < toks.len() implies (#[trigger] toks[k]).len()
        <= PPM_LINE_LIMIT by {
        lemma_sample_width(sample(row[k / 3], k % 3) as nat);
    }
    lemma_pack_fits(toks);
    let st = pack(toks);
    assert forall|i: int| 0 <= i < row_lines(row).len() implies (#[trigger] row_lines(
        row,
    )[i]).len() <= PPM_LINE_LIMIT by {
        if i < st.0.len() {
            assert(row_lines(row)[i] == st.0[i]);
        }
    }
}

} // verus!
