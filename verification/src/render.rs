//! Rendering of records back to trace text.
//!
//! Each record renders to the canonical line the parser accepts: the stage
//! tag, then the fields in order, separated by single spaces, numeric
//! fields in lower-case hexadecimal padded to their customary width and
//! boolean fields as the digit `0` or `1`.  Rendering is proved to be a
//! right inverse of parsing: parsing a rendered line yields the record it
//! came from.

use vstd::arithmetic::div_mod::{lemma_fundamental_div_mod, lemma_mod_bound};
use vstd::prelude::*;

use crate::parse::{
    hex_value_from, spec_hex_digit, spec_hex_value, spec_is_ws, spec_parse_bit, spec_parse_hex,
    spec_parse_line, spec_tokens, tag_d, tag_e, tag_f, tag_m, tag_r, tag_w, token_end,
    tokens_from, lemma_token_end, lemma_token_end_is,
};
use crate::record::ParsedLine;

verus! {

/// The byte printing one hexadecimal digit, lower case.
pub open spec fn hex_digit_byte(d: int) -> u8 {
    if d < 10 {
        (48 + d) as u8
    } else {
        (87 + d) as u8
    }
}

/// The hexadecimal digits of `v`, `width` of them, least significant last.
pub open spec fn spec_hex_bytes(v: int, width: nat) -> Seq<u8>
    decreases width,
{
    if width == 0 {
        Seq::empty()
    } else {
        spec_hex_bytes(v / 16, (width - 1) as nat).push(hex_digit_byte(v % 16))
    }
}

/// How many hexadecimal digits `v` needs.
pub open spec fn spec_hex_len(v: int) -> nat
    decreases v,
{
    if v < 16 {
        1
    } else {
        1 + spec_hex_len(v / 16)
    }
}

/// The width a field renders at: its customary width, or more if the value
/// needs it.
pub open spec fn spec_field_width(v: int, min: nat) -> nat {
    if spec_hex_len(v) > min {
        spec_hex_len(v)
    } else {
        min
    }
}

/// A rendered numeric field: the value's digits at the field's width.
pub open spec fn spec_hex_field(v: int, min: nat) -> Seq<u8> {
    spec_hex_bytes(v, spec_field_width(v, min))
}

/// Sixteen to the `width`th power.
pub open spec fn pow16(width: nat) -> int
    decreases width,
{
    if width == 0 {
        1
    } else {
        16 * pow16((width - 1) as nat)
    }
}

/// A value fits in its own digit count.
pub proof fn lemma_hex_len_bound(v: int)
    requires
        v >= 0,
    ensures
        v < pow16(spec_hex_len(v)),
        spec_hex_len(v) >= 1,
    decreases v,
{
    if v < 16 {
        assert(pow16(1) == 16) by {
            reveal_with_fuel(pow16, 2);
        }
    } else {
        lemma_hex_len_bound(v / 16);
        lemma_fundamental_div_mod(v, 16);
        lemma_mod_bound(v, 16);
        let l = spec_hex_len(v / 16);
        assert(pow16(spec_hex_len(v)) == 16 * pow16(l));
        assert(v == 16 * (v / 16) + v % 16);
        assert(16 * (v / 16) <= 16 * (pow16(l) - 1));
    }
}

/// A value below a power of sixteen needs no more digits than the power.
pub proof fn lemma_hex_len_at_most(v: int, w: nat)
    requires
        0 <= v < pow16(w),
        w >= 1,
    ensures
        spec_hex_len(v) <= w,
    decreases w,
{
    if v >= 16 {
        lemma_fundamental_div_mod(v, 16);
        assert(v / 16 < pow16((w - 1) as nat)) by {
            if v / 16 >= pow16((w - 1) as nat) {
                assert(16 * (v / 16) >= 16 * pow16((w - 1) as nat));
                assert(v >= 16 * (v / 16));
            }
        }
        lemma_hex_len_at_most(v / 16, (w - 1) as nat);
    }
}

/// Powers of sixteen grow with the width.
pub proof fn lemma_pow16_mono(a: nat, b: nat)
    requires
        a <= b,
    ensures
        pow16(a) <= pow16(b),
        pow16(a) >= 1,
    decreases b,
{
    if a < b && b > 0 {
        lemma_pow16_mono(a, (b - 1) as nat);
    } else if b > 0 {
        lemma_pow16_mono((a - 1) as nat, (b - 1) as nat);
    }
}

/// Every rendered digit byte is a hexadecimal digit and not whitespace, and
/// reads back as the digit it prints.
pub proof fn lemma_hex_digit_byte(d: int)
    requires
        0 <= d < 16,
    ensures
        spec_hex_digit(hex_digit_byte(d)) == Some(d as u8),
        !spec_is_ws(hex_digit_byte(d)),
{
}

/// The digits of `v` are all hexadecimal digit bytes.
pub proof fn lemma_hex_bytes_digits(v: int, width: nat)
    requires
        v >= 0,
    ensures
        forall|k: int|
            0 <= k < spec_hex_bytes(v, width).len() ==> spec_hex_digit(
                #[trigger] spec_hex_bytes(v, width)[k],
            ) is Some && !spec_is_ws(spec_hex_bytes(v, width)[k]),
        spec_hex_bytes(v, width).len() == width,
    decreases width,
{
    if width > 0 {
        lemma_hex_bytes_digits(v / 16, (width - 1) as nat);
        lemma_hex_digit_byte(v % 16);
    }
}

/// Appending one digit multiplies the parsed value by sixteen and adds the
/// digit.
proof fn lemma_hex_value_push(t: Seq<u8>, b: u8, i: int, acc: int)
    requires
        0 <= i <= t.len(),
    ensures
        hex_value_from(t.push(b), i, acc) == match (hex_value_from(t, i, acc), spec_hex_digit(
            b,
        )) {
            (Some(v), Some(d)) => Some(16 * v + d),
            _ => None,
        },
    decreases t.len() - i,
{
    if i < t.len() {
        assert(t.push(b)[i] == t[i]);
        match spec_hex_digit(t[i]) {
            Some(d0) => {
                lemma_hex_value_push(t, b, i + 1, acc * 16 + d0);
            },
            None => {},
        }
    } else {
        assert(t.push(b)[i] == b);
        match spec_hex_digit(b) {
            Some(d) => {
                assert(hex_value_from(t.push(b), i + 1, acc * 16 + d) == Some(acc * 16 + d));
            },
            None => {},
        }
    }
}

/// Parsing the digits of `v` gives back `v`, provided the width holds it.
pub proof fn lemma_hex_bytes_value(v: int, width: nat)
    requires
        0 <= v < pow16(width),
        width >= 1,
    ensures
        spec_hex_value(spec_hex_bytes(v, width)) == Some(v),
    decreases width,
{
    let t = spec_hex_bytes(v, width);
    lemma_hex_bytes_digits(v, width);
    if width == 1 {
        assert(v < 16);
        lemma_hex_digit_byte(v);
        assert(t =~= Seq::empty().push(hex_digit_byte(v)));
        assert(hex_value_from(t, 0, 0) == Some(v)) by {
            assert(t[0] == hex_digit_byte(v));
            assert(hex_value_from(t, 1, v) == Some(v));
        }
    } else {
        let head = spec_hex_bytes(v / 16, (width - 1) as nat);
        lemma_pow16_mono(1, (width - 1) as nat);
        assert(v / 16 < pow16((width - 1) as nat));
        lemma_hex_bytes_value(v / 16, (width - 1) as nat);
        lemma_hex_digit_byte(v % 16);
        lemma_hex_value_push(head, hex_digit_byte(v % 16), 0, 0);
        lemma_fundamental_div_mod(v, 16);
    }
}

/// Parsing a rendered field of a value that fits `max` yields the value.
pub proof fn lemma_hex_field_value(v: int, min: nat, max: int)
    requires
        0 <= v <= max,
    ensures
        spec_parse_hex(spec_hex_field(v, min), max) == Some(v),
        spec_hex_field(v, min).len() >= 1,
        forall|k: int|
            0 <= k < spec_hex_field(v, min).len() ==> !spec_is_ws(
                #[trigger] spec_hex_field(v, min)[k],
            ),
{
    let w = spec_field_width(v, min);
    lemma_hex_len_bound(v);
    lemma_pow16_mono(spec_hex_len(v), w);
    lemma_hex_bytes_value(v, w);
    lemma_hex_bytes_digits(v, w);
}

/// The digits of `v`, exactly `width` of them, most significant first.
pub fn hex_bytes(v: u32, width: usize) -> (r: Vec<u8>)
    ensures
        r@ == spec_hex_bytes(v as int, width as nat),
    decreases width,
{
    if width == 0 {
        Vec::new()
    } else {
        let mut r = hex_bytes(v / 16, width - 1);
        let d: u32 = v % 16;
        let b: u8 = if d < 10 {
            48 + (d as u8)
        } else {
            87 + (d as u8)
        };
        r.push(b);
        r
    }
}

/// How many hexadecimal digits `v` needs: at most eight, for a 32-bit
/// value.
pub fn hex_len(v: u32) -> (r: usize)
    ensures
        r as nat == spec_hex_len(v as int),
        r <= 8,
    decreases v,
{
    proof {
        reveal_with_fuel(pow16, 9);
        lemma_hex_len_at_most(v as int, 8);
    }
    if v < 16 {
        1
    } else {
        let rest = hex_len(v / 16);
        1 + rest
    }
}

/// Renders a numeric field at its customary minimum width.
pub fn hex_field(v: u32, min: usize) -> (r: Vec<u8>)
    ensures
        r@ == spec_hex_field(v as int, min as nat),
{
    let n = hex_len(v);
    let width = if n > min {
        n
    } else {
        min
    };
    hex_bytes(v, width)
}

/// The words of a line, joined with single spaces, from word `i` on.
pub open spec fn spec_join_from(ws: Seq<Seq<u8>>, i: int) -> Seq<u8>
    decreases ws.len() - i,
{
    if i < 0 || i >= ws.len() {
        Seq::empty()
    } else if i == ws.len() - 1 {
        ws[i]
    } else {
        ws[i] + seq![32u8] + spec_join_from(ws, i + 1)
    }
}

/// Every word is non-empty and free of whitespace.
pub open spec fn words_wf(ws: Seq<Seq<u8>>) -> bool {
    &&& forall|j: int| 0 <= j < ws.len() ==> (#[trigger] ws[j]).len() > 0
    &&& forall|j: int, k: int|
        0 <= j < ws.len() && 0 <= k < ws[j].len() ==> !spec_is_ws(#[trigger] ws[j][k])
}

/// Tokenizing from a position past a prefix sees only the suffix: the
/// token boundary shifts with the prefix.
proof fn lemma_token_end_shift(a: Seq<u8>, b: Seq<u8>, k: int)
    requires
        0 <= k <= b.len(),
    ensures
        token_end(a + b, a.len() + k) == a.len() + token_end(b, k),
    decreases b.len() - k,
{
    if k < b.len() {
        assert((a + b)[a.len() + k] == b[k]);
        if !spec_is_ws(b[k]) {
            lemma_token_end_shift(a, b, k + 1);
        }
    }
}

/// Tokenizing from a position past a prefix yields the suffix's tokens.
proof fn lemma_tokens_shift(a: Seq<u8>, b: Seq<u8>, k: int)
    requires
        0 <= k <= b.len(),
    ensures
        tokens_from(a + b, a.len() + k) == tokens_from(b, k),
    decreases b.len() - k,
{
    if k < b.len() {
        assert((a + b)[a.len() + k] == b[k]);
        if spec_is_ws(b[k]) {
            lemma_tokens_shift(a, b, k + 1);
        } else {
            lemma_token_end_shift(a, b, k);
            lemma_token_end(b, k);
            let te = token_end(b, k);
            assert((a + b).subrange(a.len() + k, a.len() + te) =~= b.subrange(k, te));
            lemma_tokens_shift(a, b, te);
        }
    }
}

/// The tokens of joined well-formed words are exactly the words.
proof fn lemma_tokens_of_join_from(ws: Seq<Seq<u8>>, i: int)
    requires
        words_wf(ws),
        0 <= i <= ws.len(),
    ensures
        spec_tokens(spec_join_from(ws, i)) == ws.subrange(i, ws.len() as int),
    decreases ws.len() - i,
{
    if i >= ws.len() {
        assert(ws.subrange(i, ws.len() as int) =~= Seq::<Seq<u8>>::empty());
    } else if i == ws.len() - 1 {
        let s = ws[i];
        assert forall|k: int| 0 <= k < s.len() implies !spec_is_ws(s[k]) by {
            assert(!spec_is_ws(ws[i][k]));
        }
        lemma_token_end_is(s, 0, s.len() as int);
        assert(s.subrange(0, s.len() as int) =~= s);
        assert(tokens_from(s, s.len() as int) == Seq::<Seq<u8>>::empty());
        assert(spec_tokens(s) =~= seq![s]);
        assert(ws.subrange(i, ws.len() as int) =~= seq![s]);
    } else {
        let w = ws[i];
        let a = w + seq![32u8];
        let tail = spec_join_from(ws, i + 1);
        let s = spec_join_from(ws, i);
        assert(s == w + seq![32u8] + tail);
        assert(s =~= a + tail);
        let wl = w.len() as int;
        assert forall|k: int| 0 <= k < wl implies !spec_is_ws(s[k]) by {
            assert(s[k] == ws[i][k]);
            assert(!spec_is_ws(ws[i][k]));
        }
        assert(s[wl] == 32);
        lemma_token_end_is(s, 0, wl);
        assert(s.subrange(0, wl) =~= w);
        assert(tokens_from(s, wl) == tokens_from(s, wl + 1));
        lemma_tokens_shift(a, tail, 0);
        assert(tokens_from(a + tail, a.len() as int) == tokens_from(tail, 0));
        lemma_tokens_of_join_from(ws, i + 1);
        assert(spec_tokens(s) =~= seq![w] + ws.subrange(i + 1, ws.len() as int));
        assert(seq![w] + ws.subrange(i + 1, ws.len() as int) =~= ws.subrange(
            i,
            ws.len() as int,
        ));
    }
}

/// A rendered boolean field: the digit `1` or `0`.
pub open spec fn spec_bit_field(b: bool) -> Seq<u8> {
    if b {
        seq![49u8]
    } else {
        seq![48u8]
    }
}

/// The words of one rendered line: the stage tag, then the stage's fields
/// in order, numeric fields at their customary widths.
pub open spec fn spec_line_words(l: ParsedLine) -> Seq<Seq<u8>> {
    match l {
        ParsedLine::F(f) => seq![tag_f(), spec_hex_field(f.pc as int, 8), spec_hex_field(f.instr as int, 8)],
        ParsedLine::D(d) => seq![
            tag_d(),
            spec_hex_field(d.pc as int, 8),
            spec_hex_field(d.opcode as int, 2),
            spec_hex_field(d.rd as int, 2),
            spec_hex_field(d.rs1 as int, 2),
            spec_hex_field(d.rs2 as int, 2),
            spec_hex_field(d.funct3 as int, 1),
            spec_hex_field(d.funct7 as int, 2),
            spec_hex_field(d.imm as int, 8),
            spec_hex_field(d.shamt as int, 2),
        ],
        ParsedLine::R(r) => seq![
            tag_r(),
            spec_hex_field(r.addr_rs1 as int, 2),
            spec_hex_field(r.addr_rs2 as int, 2),
            spec_hex_field(r.data_rs1 as int, 8),
            spec_hex_field(r.data_rs2 as int, 8),
        ],
        ParsedLine::E(e) => seq![
            tag_e(),
            spec_hex_field(e.pc as int, 8),
            spec_hex_field(e.alu_result as int, 8),
            spec_bit_field(e.branch_taken),
        ],
        ParsedLine::M(m) => seq![
            tag_m(),
            spec_hex_field(m.pc as int, 8),
            spec_hex_field(m.addr as int, 8),
            spec_bit_field(m.read_not_write),
            spec_hex_field(m.access_size as int, 1),
            spec_hex_field(m.memory_wdata as int, 8),
        ],
        ParsedLine::W(w) => seq![
            tag_w(),
            spec_hex_field(w.pc as int, 8),
            spec_bit_field(w.we),
            spec_hex_field(w.addr_rd as int, 2),
            spec_hex_field(w.data_rd as int, 8),
        ],
    }
}

/// The canonical text of one trace line.
pub open spec fn spec_render_line(l: ParsedLine) -> Seq<u8> {
    spec_join_from(spec_line_words(l), 0)
}

/// Appends a copy of `src`.
fn extend_bytes(out: &mut Vec<u8>, src: &Vec<u8>)
    ensures
        final(out)@ == old(out)@ + src@,
{
    let n: usize = src.len();
    let mut k: usize = 0;
    while k < n
        invariant
            0 <= k <= n,
            n == src@.len(),
            out@ == old(out)@ + src@.subrange(0, k as int),
        decreases n - k,
    {
        out.push(src[k]);
        proof {
            assert(old(out)@ + src@.subrange(0, k as int + 1) =~= (old(out)@ + src@.subrange(
                0,
                k as int,
            )).push(src@[k as int]));
        }
        k = k + 1;
    }
    proof {
        assert(old(out)@ + src@.subrange(0, n as int) =~= old(out)@ + src@);
    }
}

/// The three bytes of a stage tag.
fn tag_bytes(c: u8) -> (r: Vec<u8>)
    ensures
        r@ == seq![91u8, c, 93u8],
{
    let mut r: Vec<u8> = Vec::new();
    r.push(91);
    r.push(c);
    r.push(93);
    proof {
        assert(r@ =~= seq![91u8, c, 93u8]);
    }
    r
}

/// A rendered boolean field.
fn bit_field(b: bool) -> (r: Vec<u8>)
    ensures
        r@ == spec_bit_field(b),
{
    let mut r: Vec<u8> = Vec::new();
    r.push(if b {
        49
    } else {
        48
    });
    proof {
        assert(r@ =~= spec_bit_field(b));
    }
    r
}

/// The deep view of a word list.
pub open spec fn words_view(ws: Seq<Vec<u8>>) -> Seq<Seq<u8>> {
    ws.map_values(|v: Vec<u8>| v@)
}

/// Joins words with single spaces, from word `i` on.
fn join_from(words: &Vec<Vec<u8>>, i: usize) -> (r: Vec<u8>)
    requires
        i <= words@.len(),
    ensures
        r@ == spec_join_from(words_view(words@), i as int),
    decreases words@.len() - i,
{
    let mut r: Vec<u8> = Vec::new();
    if i >= words.len() {
        proof {
            assert(r@ =~= spec_join_from(words_view(words@), i as int));
        }
        return r;
    }
    extend_bytes(&mut r, &words[i]);
    proof {
        assert(Seq::<u8>::empty() + words@[i as int]@ =~= words@[i as int]@);
        assert(words_view(words@)[i as int] == words@[i as int]@);
    }
    if i + 1 < words.len() {
        r.push(32);
        let mut rest = join_from(words, i + 1);
        r.append(&mut rest);
        proof {
            assert(words@[i as int]@.push(32u8) =~= words@[i as int]@ + seq![32u8]);
        }
    }
    r
}

/// The words of one rendered line.
fn line_words(l: &ParsedLine) -> (ws: Vec<Vec<u8>>)
    ensures
        words_view(ws@) == spec_line_words(*l),
{
    let mut ws: Vec<Vec<u8>> = Vec::new();
    match l {
        ParsedLine::F(f) => {
            ws.push(tag_bytes(70));
            ws.push(hex_field(f.pc, 8));
            ws.push(hex_field(f.instr, 8));
        },
        ParsedLine::D(d) => {
            ws.push(tag_bytes(68));
            ws.push(hex_field(d.pc, 8));
            ws.push(hex_field(d.opcode as u32, 2));
            ws.push(hex_field(d.rd as u32, 2));
            ws.push(hex_field(d.rs1 as u32, 2));
            ws.push(hex_field(d.rs2 as u32, 2));
            ws.push(hex_field(d.funct3 as u32, 1));
            ws.push(hex_field(d.funct7 as u32, 2));
            ws.push(hex_field(d.imm, 8));
            ws.push(hex_field(d.shamt as u32, 2));
        },
        ParsedLine::R(r) => {
            ws.push(tag_bytes(82));
            ws.push(hex_field(r.addr_rs1 as u32, 2));
            ws.push(hex_field(r.addr_rs2 as u32, 2));
            ws.push(hex_field(r.data_rs1, 8));
            ws.push(hex_field(r.data_rs2, 8));
        },
        ParsedLine::E(e) => {
            ws.push(tag_bytes(69));
            ws.push(hex_field(e.pc, 8));
            ws.push(hex_field(e.alu_result, 8));
            ws.push(bit_field(e.branch_taken));
        },
        ParsedLine::M(m) => {
            ws.push(tag_bytes(77));
            ws.push(hex_field(m.pc, 8));
            ws.push(hex_field(m.addr, 8));
            ws.push(bit_field(m.read_not_write));
            ws.push(hex_field(m.access_size as u32, 1));
            ws.push(hex_field(m.memory_wdata, 8));
        },
        ParsedLine::W(w) => {
            ws.push(tag_bytes(87));
            ws.push(hex_field(w.pc, 8));
            ws.push(bit_field(w.we));
            ws.push(hex_field(w.addr_rd as u32, 2));
            ws.push(hex_field(w.data_rd, 8));
        },
    }
    proof {
        assert(words_view(ws@) =~= spec_line_words(*l));
    }
    ws
}

/// Renders one record to the canonical trace line the parser accepts.
pub fn render_line(l: &ParsedLine) -> (r: Vec<u8>)
    ensures
        r@ == spec_render_line(*l),
{
    let words = line_words(l);
    join_from(&words, 0)
}

/// A word fit for joining: non-empty and free of whitespace.
pub open spec fn word_ok(w: Seq<u8>) -> bool {
    w.len() > 0 && forall|k: int| 0 <= k < w.len() ==> !spec_is_ws(#[trigger] w[k])
}

/// A rendered numeric field is a well-formed word.
proof fn lemma_hex_field_ok(v: int, min: nat)
    requires
        v >= 0,
    ensures
        word_ok(spec_hex_field(v, min)),
{
    lemma_hex_field_value(v, min, v);
}

/// A stage tag is a well-formed word.
proof fn lemma_tag_ok(c: u8)
    requires
        !spec_is_ws(c),
    ensures
        word_ok(seq![91u8, c, 93u8]),
{
    let w = seq![91u8, c, 93u8];
    assert forall|k: int| 0 <= k < w.len() implies !spec_is_ws(#[trigger] w[k]) by {
        assert(w[0] == 91u8 && w[1] == c && w[2] == 93u8);
    }
}

/// A rendered boolean field is a well-formed word.
proof fn lemma_bit_ok(b: bool)
    ensures
        word_ok(spec_bit_field(b)),
{
    assert(spec_bit_field(b)[0] == if b {
        49u8
    } else {
        48u8
    });
}

/// The words of any line are well formed: non-empty and free of
/// whitespace.
#[verifier::rlimit(100)]
proof fn lemma_line_words_wf(l: ParsedLine)
    ensures
        words_wf(spec_line_words(l)),
{
    let ws = spec_line_words(l);
    match l {
        ParsedLine::F(f) => {
            lemma_tag_ok(70);
            lemma_hex_field_ok(f.pc as int, 8);
            lemma_hex_field_ok(f.instr as int, 8);
        },
        ParsedLine::D(d) => {
            lemma_tag_ok(68);
            lemma_hex_field_ok(d.pc as int, 8);
            lemma_hex_field_ok(d.opcode as int, 2);
            lemma_hex_field_ok(d.rd as int, 2);
            lemma_hex_field_ok(d.rs1 as int, 2);
            lemma_hex_field_ok(d.rs2 as int, 2);
            lemma_hex_field_ok(d.funct3 as int, 1);
            lemma_hex_field_ok(d.funct7 as int, 2);
            lemma_hex_field_ok(d.imm as int, 8);
            lemma_hex_field_ok(d.shamt as int, 2);
        },
        ParsedLine::R(r) => {
            lemma_tag_ok(82);
            lemma_hex_field_ok(r.addr_rs1 as int, 2);
            lemma_hex_field_ok(r.addr_rs2 as int, 2);
            lemma_hex_field_ok(r.data_rs1 as int, 8);
            lemma_hex_field_ok(r.data_rs2 as int, 8);
        },
        ParsedLine::E(e) => {
            lemma_tag_ok(69);
            lemma_hex_field_ok(e.pc as int, 8);
            lemma_hex_field_ok(e.alu_result as int, 8);
            lemma_bit_ok(e.branch_taken);
        },
        ParsedLine::M(m) => {
            lemma_tag_ok(77);
            lemma_hex_field_ok(m.pc as int, 8);
            lemma_hex_field_ok(m.addr as int, 8);
            lemma_bit_ok(m.read_not_write);
            lemma_hex_field_ok(m.access_size as int, 1);
            lemma_hex_field_ok(m.memory_wdata as int, 8);
        },
        ParsedLine::W(w) => {
            lemma_tag_ok(87);
            lemma_hex_field_ok(w.pc as int, 8);
            lemma_bit_ok(w.we);
            lemma_hex_field_ok(w.addr_rd as int, 2);
            lemma_hex_field_ok(w.data_rd as int, 8);
        },
    }
    assert forall|j: int| 0 <= j < ws.len() implies word_ok(#[trigger] ws[j]) by {}
    assert forall|j: int, k: int|
        0 <= j < ws.len() && 0 <= k < ws[j].len() implies !spec_is_ws(#[trigger] ws[j][k]) by {
        assert(word_ok(ws[j]));
    }
}

/// Establishes, for every numeric field of the line, that its rendered
/// bytes parse back to its value and hold no whitespace.
#[verifier::rlimit(100)]
proof fn field_words_facts(l: ParsedLine)
    ensures
        match l {
            ParsedLine::F(f) => {
                &&& spec_parse_hex(spec_hex_field(f.pc as int, 8), u32::MAX as int) == Some(
                    f.pc as int,
                )
                &&& spec_parse_hex(spec_hex_field(f.instr as int, 8), u32::MAX as int) == Some(
                    f.instr as int,
                )
            },
            ParsedLine::D(d) => {
                &&& spec_parse_hex(spec_hex_field(d.pc as int, 8), u32::MAX as int) == Some(
                    d.pc as int,
                )
                &&& spec_parse_hex(spec_hex_field(d.opcode as int, 2), 0xff) == Some(
                    d.opcode as int,
                )
                &&& spec_parse_hex(spec_hex_field(d.rd as int, 2), 0xff) == Some(d.rd as int)
                &&& spec_parse_hex(spec_hex_field(d.rs1 as int, 2), 0xff) == Some(d.rs1 as int)
                &&& spec_parse_hex(spec_hex_field(d.rs2 as int, 2), 0xff) == Some(d.rs2 as int)
                &&& spec_parse_hex(spec_hex_field(d.funct3 as int, 1), 0xff) == Some(
                    d.funct3 as int,
                )
                &&& spec_parse_hex(spec_hex_field(d.funct7 as int, 2), 0xff) == Some(
                    d.funct7 as int,
                )
                &&& spec_parse_hex(spec_hex_field(d.imm as int, 8), u32::MAX as int) == Some(
                    d.imm as int,
                )
                &&& spec_parse_hex(spec_hex_field(d.shamt as int, 2), 0xff) == Some(
                    d.shamt as int,
                )
            },
            ParsedLine::R(r) => {
                &&& spec_parse_hex(spec_hex_field(r.addr_rs1 as int, 2), 0xff) == Some(
                    r.addr_rs1 as int,
                )
                &&& spec_parse_hex(spec_hex_field(r.addr_rs2 as int, 2), 0xff) == Some(
                    r.addr_rs2 as int,
                )
                &&& spec_parse_hex(spec_hex_field(r.data_rs1 as int, 8), u32::MAX as int) == Some(
                    r.data_rs1 as int,
                )
                &&& spec_parse_hex(spec_hex_field(r.data_rs2 as int, 8), u32::MAX as int) == Some(
                    r.data_rs2 as int,
                )
            },
            ParsedLine::E(e) => {
                &&& spec_parse_hex(spec_hex_field(e.pc as int, 8), u32::MAX as int) == Some(
                    e.pc as int,
                )
                &&& spec_parse_hex(spec_hex_field(e.alu_result as int, 8), u32::MAX as int)
                    == Some(e.alu_result as int)
            },
            ParsedLine::M(m) => {
                &&& spec_parse_hex(spec_hex_field(m.pc as int, 8), u32::MAX as int) == Some(
                    m.pc as int,
                )
                &&& spec_parse_hex(spec_hex_field(m.addr as int, 8), u32::MAX as int) == Some(
                    m.addr as int,
                )
                &&& spec_parse_hex(spec_hex_field(m.access_size as int, 1), 0xff) == Some(
                    m.access_size as int,
                )
                &&& spec_parse_hex(spec_hex_field(m.memory_wdata as int, 8), u32::MAX as int)
                    == Some(m.memory_wdata as int)
            },
            ParsedLine::W(w) => {
                &&& spec_parse_hex(spec_hex_field(w.pc as int, 8), u32::MAX as int) == Some(
                    w.pc as int,
                )
                &&& spec_parse_hex(spec_hex_field(w.addr_rd as int, 2), 0xff) == Some(
                    w.addr_rd as int,
                )
                &&& spec_parse_hex(spec_hex_field(w.data_rd as int, 8), u32::MAX as int) == Some(
                    w.data_rd as int,
                )
            },
        },
{
    match l {
        ParsedLine::F(f) => {
            lemma_hex_field_value(f.pc as int, 8, u32::MAX as int);
            lemma_hex_field_value(f.instr as int, 8, u32::MAX as int);
        },
        ParsedLine::D(d) => {
            lemma_hex_field_value(d.pc as int, 8, u32::MAX as int);
            lemma_hex_field_value(d.opcode as int, 2, 0xff);
            lemma_hex_field_value(d.rd as int, 2, 0xff);
            lemma_hex_field_value(d.rs1 as int, 2, 0xff);
            lemma_hex_field_value(d.rs2 as int, 2, 0xff);
            lemma_hex_field_value(d.funct3 as int, 1, 0xff);
            lemma_hex_field_value(d.funct7 as int, 2, 0xff);
            lemma_hex_field_value(d.imm as int, 8, u32::MAX as int);
            lemma_hex_field_value(d.shamt as int, 2, 0xff);
        },
        ParsedLine::R(r) => {
            lemma_hex_field_value(r.addr_rs1 as int, 2, 0xff);
            lemma_hex_field_value(r.addr_rs2 as int, 2, 0xff);
            lemma_hex_field_value(r.data_rs1 as int, 8, u32::MAX as int);
            lemma_hex_field_value(r.data_rs2 as int, 8, u32::MAX as int);
        },
        ParsedLine::E(e) => {
            lemma_hex_field_value(e.pc as int, 8, u32::MAX as int);
            lemma_hex_field_value(e.alu_result as int, 8, u32::MAX as int);
        },
        ParsedLine::M(m) => {
            lemma_hex_field_value(m.pc as int, 8, u32::MAX as int);
            lemma_hex_field_value(m.addr as int, 8, u32::MAX as int);
            lemma_hex_field_value(m.access_size as int, 1, 0xff);
            lemma_hex_field_value(m.memory_wdata as int, 8, u32::MAX as int);
        },
        ParsedLine::W(w) => {
            lemma_hex_field_value(w.pc as int, 8, u32::MAX as int);
            lemma_hex_field_value(w.addr_rd as int, 2, 0xff);
            lemma_hex_field_value(w.data_rd as int, 8, u32::MAX as int);
        },
    }
}

/// Rendering is a right inverse of parsing: the canonical text of any
/// record parses back to exactly that record.
#[verifier::rlimit(100)]
pub proof fn lemma_parse_render(l: ParsedLine)
    ensures
        spec_parse_line(spec_render_line(l)) == Some(l),
{
    let ws = spec_line_words(l);
    lemma_line_words_wf(l);
    field_words_facts(l);
    lemma_tokens_of_join_from(ws, 0);
    let ts = spec_tokens(spec_render_line(l));
    assert(ws.subrange(0, ws.len() as int) =~= ws);
    assert(ts == ws);
    assert(tag_f()[1] == 70 && tag_d()[1] == 68 && tag_r()[1] == 82 && tag_e()[1] == 69
        && tag_m()[1] == 77 && tag_w()[1] == 87);
    match l {
        ParsedLine::F(_) => {},
        ParsedLine::D(_) => {},
        ParsedLine::R(_) => {},
        ParsedLine::E(_) => {},
        ParsedLine::M(_) => {},
        ParsedLine::W(_) => {},
    }
}

} // verus!
