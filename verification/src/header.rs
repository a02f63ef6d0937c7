//! The header generator: a pixel buffer plus formatting configuration,
//! rendered deterministically into the text of a C header that embeds the
//! buffer as a statically initialized array.

use vstd::prelude::*;

use crate::elem::ElemType;
use crate::numfmt::dec_digits;
use crate::numfmt::dec_int;
use crate::numfmt::hex_fixed;
use crate::numfmt::lemma_dec_digits_len;
use crate::numfmt::push_dec_i64;
use crate::numfmt::push_dec_u64;
use crate::numfmt::push_hex_fixed;
use crate::stem::file_stem;
use crate::stem::stem_of;

verus! {

/// Why a header could not be set up.
#[derive(Clone, Copy, PartialEq, Eq, Structural, Debug)]
pub enum HeaderError {
    /// The buffer length differs from width times height times channels.
    ShapeMismatch,
    /// The variable name is empty and the output path has no usable file
    /// stem to derive one from.
    InvalidNameDerivation,
}

/// `n` space characters.
pub open spec fn spaces(n: int) -> Seq<char>
    decreases n,
{
    if n <= 0 {
        Seq::empty()
    } else {
        spaces(n - 1) + seq![' ']
    }
}

/// `s` left-padded with spaces to length `w`.
pub open spec fn pad_left(s: Seq<char>, w: int) -> Seq<char> {
    if s.len() >= w {
        s
    } else {
        spaces(w - s.len()) + s
    }
}

/// Decimal rendering of one element, left-padded with spaces to a field of
/// width one below ten, width two below a hundred, and width three from a
/// hundred on — thresholds taken on the signed value itself, so negative
/// values always fall in the first field.
pub open spec fn spec_padded_dec(v: int) -> Seq<char> {
    if v < 10 {
        pad_left(dec_int(v), 1)
    } else if v < 100 {
        pad_left(dec_int(v), 2)
    } else {
        pad_left(dec_int(v), 3)
    }
}

/// The digit fields are always at least as wide as the padding asks for, so
/// the padding never adds a space.
pub proof fn lemma_padded_dec_no_pad(v: int)
    ensures
        spec_padded_dec(v) == dec_int(v),
{
    if v < 0 {
        lemma_dec_digits_len((-v) as nat);
        assert(dec_int(v).len() >= 2);
    } else {
        lemma_dec_digits_len(v as nat);
    }
}

/// The text of one rendered element: prefixed fixed-width hex of its
/// unsigned representation in hex mode, the padded decimal text otherwise.
pub open spec fn spec_elem_text(e: ElemType, hex: bool, v: int) -> Seq<char> {
    if hex {
        "0x"@ + hex_fixed(e.unsigned_rep(v) as nat, e.spec_hex_digits())
    } else {
        spec_padded_dec(v)
    }
}

/// One row of the array body: each element followed by `, `.
pub open spec fn spec_row_text(row: Seq<i64>, e: ElemType, hex: bool) -> Seq<char>
    decreases row.len(),
{
    if row.len() == 0 {
        Seq::empty()
    } else {
        spec_row_text(row.drop_last(), e, hex) + spec_elem_text(e, hex, row.last() as int)
            + ", "@
    }
}

/// The first `rows` rows of the array body, each of `c` consecutive buffer
/// elements, each row closed by a newline.
pub open spec fn spec_rows_text(data: Seq<i64>, rows: int, c: int, e: ElemType, hex: bool) -> Seq<
    char,
>
    decreases rows,
{
    if rows <= 0 {
        Seq::empty()
    } else {
        spec_rows_text(data, rows - 1, c, e, hex) + spec_row_text(
            data.subrange((rows - 1) * c, rows * c),
            e,
            hex,
        ) + "\n"@
    }
}

/// A pixel buffer plus the formatting configuration, and the text stream the
/// header document is rendered into.
pub struct CHeader {
    pub name: String,
    pub data: Vec<i64>,
    pub width: u32,
    pub height: u32,
    pub channels: u32,
    pub static_attr: bool,
    pub const_attr: bool,
    pub data_type: String,
    pub elem: ElemType,
    pub str_stream: String,
    pub output_path: String,
    pub write_hex: bool,
    pub link_section: String,
}

impl CHeader {
    /// The total element count, the value of the SIZE define.
    pub open spec fn spec_size(self) -> int {
        self.width * self.height * self.channels
    }

    /// Well-formedness: the buffer has exactly one sample per
    /// width-height-channel cell, and every sample is a value of the
    /// configured element type.
    pub open spec fn wf(self) -> bool {
        &&& self.data@.len() == self.spec_size()
        &&& forall|i: int|
            0 <= i < self.data@.len() ==> self.elem.in_range(#[trigger] self.data@[i] as int)
    }

    /// The fields that configure rendering, unchanged by the write methods.
    pub open spec fn same_config(self, other: CHeader) -> bool {
        &&& self.name@ == other.name@
        &&& self.data@ == other.data@
        &&& self.width == other.width
        &&& self.height == other.height
        &&& self.channels == other.channels
        &&& self.static_attr == other.static_attr
        &&& self.const_attr == other.const_attr
        &&& self.data_type@ == other.data_type@
        &&& self.elem == other.elem
        &&& self.output_path@ == other.output_path@
        &&& self.write_hex == other.write_hex
        &&& self.link_section@ == other.link_section@
    }

    /// The opening include guard: `#ifndef`/`#define` of the variable name
    /// with `_H` appended, the name's case preserved, then a blank line.
    pub open spec fn spec_front_guard(self) -> Seq<char> {
        "#ifndef "@ + self.name@ + "_H\n"@ + "#define "@ + self.name@ + "_H\n\n"@
    }

    /// The closing guard comment line.
    pub open spec fn spec_back_guard(self) -> Seq<char> {
        "#endif // "@ + self.name@ + "_H\n"@
    }

    /// The defines block: the stdint include, then WIDTH, HEIGHT, CHANNELS
    /// and SIZE, where SIZE is width times height times channels.
    pub open spec fn spec_defines(self) -> Seq<char> {
        "#include <stdint.h>\n"@ + "#define WIDTH "@ + dec_digits(self.width as nat) + "\n"@
            + "#define HEIGHT "@ + dec_digits(self.height as nat) + "\n"@ + "#define CHANNELS "@
            + dec_digits(self.channels as nat) + "\n"@ + "#define SIZE "@ + dec_digits(
            self.spec_size() as nat,
        ) + "\n"@
    }

    /// The whole array body: one row per width-height cell.
    pub open spec fn spec_array_body(self) -> Seq<char> {
        spec_rows_text(
            self.data@,
            self.width * self.height,
            self.channels as int,
            self.elem,
            self.write_hex,
        )
    }

    /// Everything of the data block before the body rows: the element-count
    /// comment, the linker-section attribute exactly when a section name is
    /// configured, the storage qualifiers and the array declaration.
    pub open spec fn spec_data_prelude(self) -> Seq<char> {
        "// size of data: "@ + dec_digits(self.spec_size() as nat) + "\n"@ + (
        if self.link_section@.len() > 0 {
            "__attribute__((section(\""@ + self.link_section@ + "\")))\n"@
        } else {
            Seq::<char>::empty()
        }) + (if self.static_attr {
            "static "@
        } else {
            Seq::<char>::empty()
        }) + (if self.const_attr {
            "const "@
        } else {
            Seq::<char>::empty()
        }) + self.data_type@ + " data[SIZE] = {\n"@
    }

    /// The data block: its prelude, the body and the closing brace.
    pub open spec fn spec_data_block(self) -> Seq<char> {
        self.spec_data_prelude() + self.spec_array_body() + "};\n"@
    }

    /// The complete header document.
    pub open spec fn spec_header_text(self) -> Seq<char> {
        self.spec_front_guard() + self.spec_defines() + self.spec_data_block()
            + self.spec_back_guard()
    }

    /// Builds a header generator. The variable name falls back to the output
    /// path's file stem when empty; a buffer whose length is not width times
    /// height times channels is rejected before any rendering.
    pub fn new(
        name: String,
        data: Vec<i64>,
        width: u32,
        height: u32,
        channels: u32,
        static_attr: bool,
        const_attr: bool,
        data_type: String,
        elem: ElemType,
        output_path: String,
        write_hex: bool,
        link_section: String,
    ) -> (r: Result<CHeader, HeaderError>)
        requires
            forall|i: int| 0 <= i < data@.len() ==> elem.in_range(#[trigger] data@[i] as int),
        ensures
            match r {
                Ok(h) => {
                    &&& h.wf()
                    &&& data@.len() == width * height * channels
                    &&& h.name@ == if name@.len() == 0 {
                        stem_of(output_path@)
                    } else {
                        name@
                    }
                    &&& name@.len() == 0 ==> stem_of(output_path@).len() > 0
                    &&& h.data@ == data@
                    &&& h.width == width
                    &&& h.height == height
                    &&& h.channels == channels
                    &&& h.static_attr == static_attr
                    &&& h.const_attr == const_attr
                    &&& h.data_type@ == data_type@
                    &&& h.elem == elem
                    &&& h.str_stream@ == Seq::<char>::empty()
                    &&& h.output_path@ == output_path@
                    &&& h.write_hex == write_hex
                    &&& h.link_section@ == link_section@
                },
                Err(HeaderError::ShapeMismatch) => data@.len() != width * height * channels,
                Err(HeaderError::InvalidNameDerivation) => {
                    &&& data@.len() == width * height * channels
                    &&& name@.len() == 0
                    &&& stem_of(output_path@).len() == 0
                },
            },
    {
        proof {
            assert((width as int) * (height as int) < 0x10000000000000000 && (width as int) * (
            height as int) * (channels as int) < 0x1000000000000000000000000) by (nonlinear_arith)
                requires
                    width < 0x100000000,
                    height < 0x100000000,
                    channels < 0x100000000,
            ;
        }
        let total: u128 = (width as u128) * (height as u128) * (channels as u128);
        if data.len() as u128 != total {
            return Err(HeaderError::ShapeMismatch);
        }
        let var_name: String = if name.as_str().is_empty() {
            match file_stem(output_path.as_str()) {
                Some(s) => s,
                None => {
                    return Err(HeaderError::InvalidNameDerivation);
                },
            }
        } else {
            name
        };
        Ok(
            CHeader {
                name: var_name,
                data,
                width,
                height,
                channels,
                static_attr,
                const_attr,
                data_type,
                elem,
                str_stream: String::new(),
                output_path,
                write_hex,
                link_section,
            },
        )
    }

    /// Appends the front guard of the header file.
    pub fn write_front_guard(&mut self)
        ensures
            old(self).same_config(*final(self)),
            final(self).str_stream@ == old(self).str_stream@ + old(self).spec_front_guard(),
    {
        self.str_stream.append("#ifndef ");
        self.str_stream.append(self.name.as_str());
        self.str_stream.append("_H\n");
        self.str_stream.append("#define ");
        self.str_stream.append(self.name.as_str());
        self.str_stream.append("_H\n\n");
        proof {
            assert(self.str_stream@ =~= old(self).str_stream@ + old(self).spec_front_guard());
        }
    }

    /// Appends the back guard of the header file.
    pub fn write_back_guard(&mut self)
        ensures
            old(self).same_config(*final(self)),
            final(self).str_stream@ == old(self).str_stream@ + old(self).spec_back_guard(),
    {
        self.str_stream.append("#endif // ");
        self.str_stream.append(self.name.as_str());
        self.str_stream.append("_H\n");
        proof {
            assert(self.str_stream@ =~= old(self).str_stream@ + old(self).spec_back_guard());
        }
    }

    /// Appends the defines for the width, height, channels and size of the
    /// data.
    pub fn write_defines(&mut self)
        requires
            old(self).wf(),
        ensures
            old(self).same_config(*final(self)),
            final(self).str_stream@ == old(self).str_stream@ + old(self).spec_defines(),
    {
        self.str_stream.append("#include <stdint.h>\n");
        self.str_stream.append("#define WIDTH ");
        push_dec_u64(&mut self.str_stream, self.width as u64);
        self.str_stream.append("\n");
        self.str_stream.append("#define HEIGHT ");
        push_dec_u64(&mut self.str_stream, self.height as u64);
        self.str_stream.append("\n");
        self.str_stream.append("#define CHANNELS ");
        push_dec_u64(&mut self.str_stream, self.channels as u64);
        self.str_stream.append("\n");
        self.str_stream.append("#define SIZE ");
        let total: usize = self.data.len();
        push_dec_u64(&mut self.str_stream, total as u64);
        self.str_stream.append("\n");
        proof {
            assert(self.str_stream@ =~= old(self).str_stream@ + old(self).spec_defines());
        }
    }

    /// Appends one element in hexadecimal: `0x` then the unsigned
    /// representation, zero-padded to the element type's digit width.
    pub fn write_data_element_hex(&mut self, value: i64)
        requires
            old(self).elem.in_range(value as int),
        ensures
            old(self).same_config(*final(self)),
            final(self).str_stream@ == old(self).str_stream@ + spec_elem_text(
                old(self).elem,
                true,
                value as int,
            ),
    {
        self.str_stream.append("0x");
        let digits: u32 = self.elem.hex_digits();
        let rep: u64 = self.elem.rep_of(value);
        push_hex_fixed(&mut self.str_stream, rep, digits);
        proof {
            assert(self.str_stream@ =~= old(self).str_stream@ + spec_elem_text(
                old(self).elem,
                true,
                value as int,
            ));
        }
    }

    /// Appends one element in decimal, under the width-threshold padding
    /// rule.
    pub fn write_data_element_dec(&mut self, value: i64)
        ensures
            old(self).same_config(*final(self)),
            final(self).str_stream@ == old(self).str_stream@ + spec_padded_dec(value as int),
    {
        push_dec_i64(&mut self.str_stream, value);
        proof {
            lemma_padded_dec_no_pad(value as int);
        }
    }

    /// Appends everything of the data block before the body rows.
    fn write_data_prelude(&mut self)
        requires
            old(self).wf(),
        ensures
            old(self).same_config(*final(self)),
            final(self).str_stream@ == old(self).str_stream@ + old(self).spec_data_prelude(),
    {
        self.str_stream.append("// size of data: ");
        let total: usize = self.data.len();
        push_dec_u64(&mut self.str_stream, total as u64);
        self.str_stream.append("\n");
        if !self.link_section.as_str().is_empty() {
            self.str_stream.append("__attribute__((section(\"");
            self.str_stream.append(self.link_section.as_str());
            self.str_stream.append("\")))\n");
        }
        if self.static_attr {
            self.str_stream.append("static ");
        }
        if self.const_attr {
            self.str_stream.append("const ");
        }
        self.str_stream.append(self.data_type.as_str());
        self.str_stream.append(" data[SIZE] = {\n");
        proof {
            assert(self.str_stream@ =~= old(self).str_stream@ + old(self).spec_data_prelude());
        }
    }

    /// Appends the body rows, walking the buffer in width-major order.
    fn write_data_rows(&mut self)
        requires
            old(self).wf(),
        ensures
            old(self).same_config(*final(self)),
            final(self).str_stream@ == old(self).str_stream@ + old(self).spec_array_body(),
    {
        let ghost pre = self.str_stream@;
        let total: usize = self.data.len();
        let w: u32 = self.width;
        let h: u32 = self.height;
        let c: u32 = self.channels;
        proof {
            assert(self.data@.len() == total as int);
            assert(spec_rows_text(self.data@, 0, c as int, self.elem, self.write_hex)
                == Seq::<char>::empty());
            assert(pre + Seq::<char>::empty() =~= pre);
        }
        let mut i: u32 = 0;
        while i < w
            invariant
                old(self).wf(),
                old(self).same_config(*self),
                w == self.width,
                h == self.height,
                c == self.channels,
                self.data@.len() <= usize::MAX,
                i <= w,
                self.str_stream@ == pre + spec_rows_text(
                    self.data@,
                    (i as int) * (h as int),
                    c as int,
                    self.elem,
                    self.write_hex,
                ),
            decreases w - i,
        {
            let mut j: u32 = 0;
            while j < h
                invariant
                    old(self).wf(),
                    old(self).same_config(*self),
                    w == self.width,
                    h == self.height,
                    c == self.channels,
                    self.data@.len() <= usize::MAX,
                    i < w,
                    j <= h,
                    self.str_stream@ == pre + spec_rows_text(
                        self.data@,
                        (i as int) * (h as int) + (j as int),
                        c as int,
                        self.elem,
                        self.write_hex,
                    ),
                decreases h - j,
            {
                let ghost g = (i as int) * (h as int) + (j as int);
                let ghost row_start = g * (c as int);
                proof {
                    assert(0 <= row_start && row_start <= (w as int) * (h as int) * (c as int))
                        by (nonlinear_arith)
                        requires
                            g == (i as int) * (h as int) + (j as int),
                            row_start == g * (c as int),
                            0 <= (i as int) < (w as int),
                            0 <= (j as int) < (h as int),
                            0 <= (c as int),
                    ;
                    assert(self.data@.len() == (w as int) * (h as int) * (c as int));
                    assert(self.data@.subrange(row_start, row_start) =~= Seq::<i64>::empty());
                    assert(spec_row_text(Seq::<i64>::empty(), self.elem, self.write_hex)
                        == Seq::<char>::empty());
                    assert(self.str_stream@ + Seq::<char>::empty() =~= self.str_stream@);
                }
                let mut k: u32 = 0;
                while k < c
                    invariant
                        old(self).wf(),
                        old(self).same_config(*self),
                        w == self.width,
                        h == self.height,
                        c == self.channels,
                        self.data@.len() <= usize::MAX,
                        i < w,
                        j < h,
                        k <= c,
                        g == (i as int) * (h as int) + (j as int),
                        row_start == g * (c as int),
                        self.str_stream@ == pre + spec_rows_text(
                            self.data@,
                            g,
                            c as int,
                            self.elem,
                            self.write_hex,
                        ) + spec_row_text(
                            self.data@.subrange(row_start, row_start + (k as int)),
                            self.elem,
                            self.write_hex,
                        ),
                    decreases c - k,
                {
                    proof {
                        assert(self.data@.len() == (w as int) * (h as int) * (c as int));
                        assert(0 <= (i as int) * (h as int) && (i as int) * (h as int) + (j as int)
                            == g && g <= row_start && row_start + (k as int) < (w as int) * (
                        h as int) * (c as int)) by (nonlinear_arith)
                            requires
                                g == (i as int) * (h as int) + (j as int),
                                row_start == g * (c as int),
                                0 <= (i as int) < (w as int),
                                0 <= (j as int) < (h as int),
                                0 <= (k as int) < (c as int),
                        ;
                    }
                    let a: usize = (i as usize) * (h as usize);
                    let b: usize = a + (j as usize);
                    let d: usize = b * (c as usize);
                    let idx: usize = d + (k as usize);
                    let v: i64 = self.data[idx];
                    proof {
                        assert(idx as int == row_start + (k as int));
                        assert(self.elem.in_range(self.data@[idx as int] as int));
                    }
                    if self.write_hex {
                        self.write_data_element_hex(v);
                    } else {
                        self.write_data_element_dec(v);
                    }
                    self.str_stream.append(", ");
                    proof {
                        let s_prev = self.data@.subrange(row_start, row_start + (k as int));
                        let s_new = self.data@.subrange(row_start, row_start + (k as int) + 1);
                        assert(s_new.drop_last() =~= s_prev);
                        assert(s_new.last() == self.data@[row_start + (k as int)]);
                        assert(self.str_stream@ =~= pre + spec_rows_text(
                            self.data@,
                            g,
                            c as int,
                            self.elem,
                            self.write_hex,
                        ) + spec_row_text(s_new, self.elem, self.write_hex));
                    }
                    k = k + 1;
                }
                self.str_stream.append("\n");
                proof {
                    assert(row_start + (c as int) == (g + 1) * (c as int)) by (nonlinear_arith)
                        requires
                            row_start == g * (c as int),
                    ;
                    assert(self.str_stream@ =~= pre + spec_rows_text(
                        self.data@,
                        g + 1,
                        c as int,
                        self.elem,
                        self.write_hex,
                    ));
                }
                j = j + 1;
            }
            proof {
                assert(((i as int) + 1) * (h as int) == (i as int) * (h as int) + (h as int))
                    by (nonlinear_arith);
            }
            i = i + 1;
        }
    }

    /// Appends the data block: the element-count comment, the optional
    /// linker-section attribute, the storage qualifiers, the array
    /// declaration, the body rows and the closing brace. The body walks the
    /// buffer in width-major order — element `(i*height + j)*channels + k` —
    /// with a newline after each height-row.
    pub fn write_data(&mut self)
        requires
            old(self).wf(),
        ensures
            old(self).same_config(*final(self)),
            final(self).str_stream@ == old(self).str_stream@ + old(self).spec_data_block(),
    {
        self.write_data_prelude();
        self.write_data_rows();
        self.str_stream.append("};\n");
        proof {
            assert(self.str_stream@ =~= old(self).str_stream@ + old(self).spec_data_block());
        }
    }

    /// Renders the whole document into the stream: front guard, defines,
    /// data block, back guard.
    pub fn write_header(&mut self)
        requires
            old(self).wf(),
        ensures
            old(self).same_config(*final(self)),
            final(self).str_stream@ == old(self).str_stream@ + old(self).spec_header_text(),
    {
        self.write_front_guard();
        self.write_defines();
        self.write_data();
        self.write_back_guard();
        proof {
            assert(self.str_stream@ =~= old(self).str_stream@ + old(self).spec_header_text());
        }
    }

    /// The rendered document so far.
    pub fn contents(&self) -> (r: &str)
        ensures
            r@ == self.str_stream@,
    {
        self.str_stream.as_str()
    }

    /// The configured output path.
    pub fn output_path(&self) -> (r: &str)
        ensures
            r@ == self.output_path@,
    {
        self.output_path.as_str()
    }

    /// The variable name, after any fallback to the file stem.
    pub fn var_name(&self) -> (r: &str)
        ensures
            r@ == self.name@,
    {
        self.name.as_str()
    }
}

} // verus!
