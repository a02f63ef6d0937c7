//! Stated properties of the rendered document, proved against the same spec
//! functions the write methods' contracts use.

use vstd::prelude::*;

use crate::elem::ElemType;
use crate::header::CHeader;
use crate::header::spec_elem_text;
use crate::header::spec_row_text;
use crate::header::spec_rows_text;
use crate::numfmt::dec_digits;
use crate::numfmt::digit_char;
use crate::numfmt::hex_fixed;

verus! {

/// How often `c` occurs in `s`.
pub open spec fn count_char(s: Seq<char>, c: char) -> nat
    decreases s.len(),
{
    if s.len() == 0 {
        0
    } else {
        count_char(s.drop_last(), c) + (if s.last() == c {
            1nat
        } else {
            0nat
        })
    }
}

proof fn lemma_count_char_add(a: Seq<char>, b: Seq<char>, c: char)
    ensures
        count_char(a + b, c) == count_char(a, c) + count_char(b, c),
    decreases b.len(),
{
    if b.len() == 0 {
        assert(a + b =~= a);
    } else {
        assert((a + b).drop_last() =~= a + b.drop_last());
        assert((a + b).last() == b.last());
        lemma_count_char_add(a, b.drop_last(), c);
    }
}

proof fn lemma_count_comma_literals()
    ensures
        count_char(", "@, ',') == 1,
        count_char("\n"@, ',') == 0,
        count_char("0x"@, ',') == 0,
        count_char("-"@, ',') == 0,
{
    reveal_strlit(", ");
    reveal_strlit("\n");
    reveal_strlit("0x");
    reveal_strlit("-");
    let s = ", "@;
    assert(s.drop_last().drop_last().len() == 0);
    assert(count_char(s.drop_last().drop_last(), ',') == 0);
    assert(s.drop_last().last() == ',');
    assert(count_char(s.drop_last(), ',') == 1);
    assert(count_char(s, ',') == 1);
    let n = "\n"@;
    assert(count_char(n.drop_last(), ',') == 0);
    assert(count_char(n, ',') == 0);
    let x = "0x"@;
    assert(x.drop_last().drop_last().len() == 0);
    assert(count_char(x.drop_last().drop_last(), ',') == 0);
    assert(count_char(x.drop_last(), ',') == 0);
    assert(count_char(x, ',') == 0);
    let m = "-"@;
    assert(count_char(m.drop_last(), ',') == 0);
    assert(count_char(m, ',') == 0);
}

proof fn lemma_dec_digits_comma_free(v: nat)
    ensures
        count_char(dec_digits(v), ',') == 0,
    decreases v,
{
    if v < 10 {
        assert(count_char(dec_digits(v).drop_last(), ',') == 0);
    } else {
        lemma_dec_digits_comma_free(v / 10);
        let d = seq![digit_char((v % 10) as int)];
        lemma_count_char_add(dec_digits(v / 10), d, ',');
        assert(count_char(d.drop_last(), ',') == 0);
    }
}

proof fn lemma_hex_fixed_comma_free(v: nat, width: nat)
    ensures
        count_char(hex_fixed(v, width), ',') == 0,
    decreases width,
{
    if width > 0 {
        lemma_hex_fixed_comma_free(v / 16, (width - 1) as nat);
        let d = seq![digit_char((v % 16) as int)];
        assert(count_char(d.drop_last(), ',') == 0);
        assert(count_char(d, ',') == 0);
        lemma_count_char_add(hex_fixed(v / 16, (width - 1) as nat), d, ',');
    }
}

proof fn lemma_elem_text_comma_free(e: ElemType, hex: bool, v: int)
    ensures
        count_char(spec_elem_text(e, hex, v), ',') == 0,
{
    lemma_count_comma_literals();
    if hex {
        lemma_hex_fixed_comma_free(e.unsigned_rep(v) as nat, e.spec_hex_digits());
        lemma_count_char_add(
            "0x"@,
            hex_fixed(e.unsigned_rep(v) as nat, e.spec_hex_digits()),
            ',',
        );
    } else {
        crate::header::lemma_padded_dec_no_pad(v);
        if v < 0 {
            lemma_dec_digits_comma_free((-v) as nat);
            lemma_count_char_add(seq!['-'], dec_digits((-v) as nat), ',');
            assert(count_char(seq!['-'].drop_last(), ',') == 0);
            assert(count_char(seq!['-'], ',') == 0);
        } else {
            lemma_dec_digits_comma_free(v as nat);
        }
    }
}

proof fn lemma_row_text_comma_count(row: Seq<i64>, e: ElemType, hex: bool)
    ensures
        count_char(spec_row_text(row, e, hex), ',') == row.len(),
    decreases row.len(),
{
    if row.len() > 0 {
        lemma_row_text_comma_count(row.drop_last(), e, hex);
        lemma_elem_text_comma_free(e, hex, row.last() as int);
        lemma_count_comma_literals();
        lemma_count_char_add(
            spec_row_text(row.drop_last(), e, hex),
            spec_elem_text(e, hex, row.last() as int),
            ',',
        );
        lemma_count_char_add(
            spec_row_text(row.drop_last(), e, hex) + spec_elem_text(e, hex, row.last() as int),
            ", "@,
            ',',
        );
    }
}

proof fn lemma_rows_text_comma_count(data: Seq<i64>, rows: int, c: int, e: ElemType, hex: bool)
    requires
        0 <= rows,
        0 <= c,
        rows * c <= data.len(),
    ensures
        count_char(spec_rows_text(data, rows, c, e, hex), ',') == rows * c,
    decreases rows,
{
    if rows <= 0 {
        assert(rows * c == 0) by (nonlinear_arith)
            requires
                rows == 0,
        ;
    } else {
        assert((rows - 1) * c == rows * c - c && 0 <= (rows - 1) * c) by (nonlinear_arith)
            requires
                1 <= rows,
                0 <= c,
        ;
        lemma_rows_text_comma_count(data, rows - 1, c, e, hex);
        let row = data.subrange((rows - 1) * c, rows * c);
        assert(row.len() == c);
        lemma_row_text_comma_count(row, e, hex);
        lemma_count_comma_literals();
        lemma_count_char_add(spec_rows_text(data, rows - 1, c, e, hex), spec_row_text(row, e, hex), ',');
        lemma_count_char_add(
            spec_rows_text(data, rows - 1, c, e, hex) + spec_row_text(row, e, hex),
            "\n"@,
            ',',
        );
    }
}

/// Law: for a well-formed header the SIZE define's value — width times
/// height times channels — equals the buffer's element count, so the body's
/// traversal touches exactly the buffer's indices and no others.
pub proof fn lemma_size_is_buffer_len(h: CHeader)
    requires
        h.wf(),
    ensures
        h.spec_size() == h.data@.len(),
{
}

/// Law: the rendered array body holds exactly one comma per element, so the
/// count of comma-separated elements in the body equals the SIZE define's
/// value.
pub proof fn lemma_body_element_count(h: CHeader)
    requires
        h.wf(),
    ensures
        count_char(h.spec_array_body(), ',') == h.spec_size(),
{
    let w = h.width as int;
    let hh = h.height as int;
    let c = h.channels as int;
    assert(0 <= w * hh && (w * hh) * c == w * hh * c) by (nonlinear_arith)
        requires
            0 <= w,
            0 <= hh,
            0 <= c,
    ;
    lemma_rows_text_comma_count(h.data@, w * hh, c, h.elem, h.write_hex);
}

} // verus!
