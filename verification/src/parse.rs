//! Parsing of trace text into records.
//!
//! A trace line is whitespace-tokenized: a bracketed stage tag followed by
//! that stage's fields, numeric fields in hexadecimal and boolean fields as
//! the literal digit `0` or `1`.  Extra trailing tokens are ignored; a
//! missing token, a malformed number, a value too wide for its field, or an
//! unknown tag make the line unparseable.

use vstd::prelude::*;

use crate::record::{DecodeRec, ExecRec, FetchRec, MemRec, ParsedLine, RegRec, TraceError, WbRec};

verus! {

/// A byte that separates tokens on a trace line.
pub open spec fn spec_is_ws(b: u8) -> bool {
    b == 32 || b == 9 || b == 13 || b == 10
}

/// The index just past the token that starts at `i`: the first index at or
/// after `i` holding whitespace, or the end of the line.
pub open spec fn token_end(s: Seq<u8>, i: int) -> int
    decreases s.len() - i,
{
    if i < 0 || i >= s.len() || spec_is_ws(s[i]) {
        i
    } else {
        token_end(s, i + 1)
    }
}

/// `token_end` stays within the line, moves forward, and stops exactly at
/// the first whitespace byte.
pub proof fn lemma_token_end(s: Seq<u8>, i: int)
    requires
        0 <= i <= s.len(),
    ensures
        i <= token_end(s, i) <= s.len(),
        token_end(s, i) < s.len() ==> spec_is_ws(s[token_end(s, i)]),
        forall|k: int| i <= k < token_end(s, i) ==> !spec_is_ws(s[k]),
    decreases s.len() - i,
{
    if !(i >= s.len() || spec_is_ws(s[i])) {
        lemma_token_end(s, i + 1);
    }
}

/// If every byte of `[i, j)` is non-whitespace and `j` sits on whitespace or
/// at the end, the token starting at `i` ends exactly at `j`.
pub proof fn lemma_token_end_is(s: Seq<u8>, i: int, j: int)
    requires
        0 <= i <= j <= s.len(),
        forall|k: int| i <= k < j ==> !spec_is_ws(s[k]),
        j == s.len() || spec_is_ws(s[j]),
    ensures
        token_end(s, i) == j,
    decreases j - i,
{
    if i < j {
        lemma_token_end_is(s, i + 1, j);
    }
}

#[via_fn]
proof fn tokens_from_decreases(s: Seq<u8>, i: int) {
    if 0 <= i < s.len() && !spec_is_ws(s[i]) {
        lemma_token_end(s, i + 1);
    }
}

/// The tokens of the line from byte `i` on, in order.
pub open spec fn tokens_from(s: Seq<u8>, i: int) -> Seq<Seq<u8>>
    decreases s.len() - i,
    when 0 <= i
    via tokens_from_decreases
{
    if i >= s.len() {
        Seq::empty()
    } else if spec_is_ws(s[i]) {
        tokens_from(s, i + 1)
    } else {
        seq![s.subrange(i, token_end(s, i))] + tokens_from(s, token_end(s, i))
    }
}

/// The tokens of a whole line.
pub open spec fn spec_tokens(s: Seq<u8>) -> Seq<Seq<u8>> {
    tokens_from(s, 0)
}

/// The token list `toks` holds exactly the byte strings `ts`.
pub open spec fn toks_match(toks: Seq<Vec<u8>>, ts: Seq<Seq<u8>>) -> bool {
    toks.len() == ts.len() && forall|i: int| 0 <= i < ts.len() ==> #[trigger] toks[i]@ == ts[i]
}

/// Splits a line into its whitespace-separated tokens.
pub fn tokenize(s: &[u8]) -> (toks: Vec<Vec<u8>>)
    ensures
        toks_match(toks@, spec_tokens(s@)),
{
    let n: usize = s.len();
    let mut toks: Vec<Vec<u8>> = Vec::new();
    let ghost mut done: Seq<Seq<u8>> = Seq::empty();
    let mut i: usize = 0;
    while i < n
        invariant
            0 <= i <= n,
            n == s@.len(),
            toks_match(toks@, done),
            spec_tokens(s@) == done + tokens_from(s@, i as int),
        decreases n - i,
    {
        let b: u8 = s[i];
        if b == 32 || b == 9 || b == 13 || b == 10 {
            i = i + 1;
        } else {
            let mut j: usize = i;
            while j < n && s[j] != 32 && s[j] != 9 && s[j] != 13 && s[j] != 10
                invariant
                    0 <= i <= j <= n,
                    n == s@.len(),
                    forall|k: int| i <= k < j ==> !spec_is_ws(s@[k]),
                decreases n - j,
            {
                j = j + 1;
            }
            proof {
                lemma_token_end_is(s@, i as int, j as int);
            }
            let mut tok: Vec<u8> = Vec::new();
            let mut k: usize = i;
            while k < j
                invariant
                    i <= k <= j <= n,
                    n == s@.len(),
                    tok@ == s@.subrange(i as int, k as int),
                decreases j - k,
            {
                tok.push(s[k]);
                proof {
                    assert(s@.subrange(i as int, k as int).push(s@[k as int]) =~= s@.subrange(
                        i as int,
                        k as int + 1,
                    ));
                }
                k = k + 1;
            }
            proof {
                let x = s@.subrange(i as int, j as int);
                let rest = tokens_from(s@, j as int);
                assert(tokens_from(s@, i as int) == seq![x] + rest);
                assert(done + (seq![x] + rest) =~= (done + seq![x]) + rest);
                done = done + seq![x];
            }
            toks.push(tok);
            i = j;
        }
    }
    proof {
        assert(done + tokens_from(s@, i as int) =~= done);
    }
    toks
}

/// The value of a hexadecimal digit byte, if it is one.
pub open spec fn spec_hex_digit(b: u8) -> Option<u8> {
    if 48 <= b <= 57 {
        Some((b - 48) as u8)
    } else if 97 <= b <= 102 {
        Some((b - 87) as u8)
    } else if 65 <= b <= 70 {
        Some((b - 55) as u8)
    } else {
        None
    }
}

/// The value of the digits of `t` from `i` on, accumulated onto `acc`, or
/// `None` if a byte is not a hexadecimal digit.
pub open spec fn hex_value_from(t: Seq<u8>, i: int, acc: int) -> Option<int>
    decreases t.len() - i,
{
    if i < 0 || i >= t.len() {
        Some(acc)
    } else {
        match spec_hex_digit(t[i]) {
            Some(d) => hex_value_from(t, i + 1, acc * 16 + d),
            None => None,
        }
    }
}

/// The numeric value of a whole token: at least one digit, all digits
/// hexadecimal, of arbitrary magnitude.
pub open spec fn spec_hex_value(t: Seq<u8>) -> Option<int> {
    if t.len() == 0 {
        None
    } else {
        hex_value_from(t, 0, 0)
    }
}

/// A numeric field: its token's value, if that value fits the field.
pub open spec fn spec_parse_hex(t: Seq<u8>, max: int) -> Option<int> {
    match spec_hex_value(t) {
        Some(v) => if v <= max {
            Some(v)
        } else {
            None
        },
        None => None,
    }
}

/// Accumulated digits never shrink the value.
proof fn lemma_hex_value_ge(t: Seq<u8>, i: int, acc: int)
    requires
        acc >= 0,
    ensures
        hex_value_from(t, i, acc) matches Some(v) ==> v >= acc,
    decreases t.len() - i,
{
    if !(i < 0 || i >= t.len()) {
        match spec_hex_digit(t[i]) {
            Some(d) => {
                lemma_hex_value_ge(t, i + 1, acc * 16 + d);
            },
            None => {},
        }
    }
}

/// Parses a hexadecimal token into a value of at most `max`.
pub fn parse_hex(t: &Vec<u8>, max: u32) -> (r: Option<u32>)
    ensures
        match r {
            Some(v) => spec_parse_hex(t@, max as int) == Some(v as int),
            None => spec_parse_hex(t@, max as int) is None,
        },
{
    let n: usize = t.len();
    if n == 0 {
        return None;
    }
    let mut acc: u64 = 0;
    let mut i: usize = 0;
    while i < n
        invariant
            0 <= i <= n,
            n == t@.len(),
            acc <= max,
            max <= u32::MAX,
            hex_value_from(t@, 0, 0) == hex_value_from(t@, i as int, acc as int),
        decreases n - i,
    {
        let b: u8 = t[i];
        let d: u8 = if 48 <= b && b <= 57 {
            b - 48
        } else if 97 <= b && b <= 102 {
            b - 87
        } else if 65 <= b && b <= 70 {
            b - 55
        } else {
            return None;
        };
        let next: u64 = acc * 16 + d as u64;
        if next > max as u64 {
            proof {
                lemma_hex_value_ge(t@, i as int + 1, next as int);
            }
            return None;
        }
        acc = next;
        i = i + 1;
    }
    Some(acc as u32)
}

/// A boolean field: the literal digit `1` or `0`.
pub open spec fn spec_parse_bit(t: Seq<u8>) -> Option<bool> {
    if t == seq![49u8] {
        Some(true)
    } else if t == seq![48u8] {
        Some(false)
    } else {
        None
    }
}

/// Parses a boolean field token.
pub fn parse_bit(t: &Vec<u8>) -> (r: Option<bool>)
    ensures
        r == spec_parse_bit(t@),
{
    if t.len() == 1 {
        let b: u8 = t[0];
        if b == 49 {
            proof {
                assert(t@ =~= seq![49u8]);
            }
            Some(true)
        } else if b == 48 {
            proof {
                assert(t@ =~= seq![48u8]);
            }
            Some(false)
        } else {
            None
        }
    } else {
        None
    }
}

/// The fetch line's records, from its tokens.
pub open spec fn spec_parse_fetch(ts: Seq<Seq<u8>>) -> Option<ParsedLine> {
    if ts.len() < 3 {
        None
    } else {
        let pc = spec_parse_hex(ts[1], u32::MAX as int);
        let instr = spec_parse_hex(ts[2], u32::MAX as int);
        if pc is Some && instr is Some {
            Some(ParsedLine::F(FetchRec { pc: pc->Some_0 as u32, instr: instr->Some_0 as u32 }))
        } else {
            None
        }
    }
}

/// The decode line's records, from its tokens.
pub open spec fn spec_parse_decode(ts: Seq<Seq<u8>>) -> Option<ParsedLine> {
    if ts.len() < 10 {
        None
    } else {
        let pc = spec_parse_hex(ts[1], u32::MAX as int);
        let opcode = spec_parse_hex(ts[2], 0xff);
        let rd = spec_parse_hex(ts[3], 0xff);
        let rs1 = spec_parse_hex(ts[4], 0xff);
        let rs2 = spec_parse_hex(ts[5], 0xff);
        let funct3 = spec_parse_hex(ts[6], 0xff);
        let funct7 = spec_parse_hex(ts[7], 0xff);
        let imm = spec_parse_hex(ts[8], u32::MAX as int);
        let shamt = spec_parse_hex(ts[9], 0xff);
        if pc is Some && opcode is Some && rd is Some && rs1 is Some && rs2 is Some && funct3
            is Some && funct7 is Some && imm is Some && shamt is Some {
            Some(
                ParsedLine::D(
                    DecodeRec {
                        pc: pc->Some_0 as u32,
                        opcode: opcode->Some_0 as u8,
                        rd: rd->Some_0 as u8,
                        rs1: rs1->Some_0 as u8,
                        rs2: rs2->Some_0 as u8,
                        funct3: funct3->Some_0 as u8,
                        funct7: funct7->Some_0 as u8,
                        imm: imm->Some_0 as u32,
                        shamt: shamt->Some_0 as u8,
                    },
                ),
            )
        } else {
            None
        }
    }
}

/// The register-read line's records, from its tokens.
pub open spec fn spec_parse_regread(ts: Seq<Seq<u8>>) -> Option<ParsedLine> {
    if ts.len() < 5 {
        None
    } else {
        let a1 = spec_parse_hex(ts[1], 0xff);
        let a2 = spec_parse_hex(ts[2], 0xff);
        let d1 = spec_parse_hex(ts[3], u32::MAX as int);
        let d2 = spec_parse_hex(ts[4], u32::MAX as int);
        if a1 is Some && a2 is Some && d1 is Some && d2 is Some {
            Some(
                ParsedLine::R(
                    RegRec {
                        addr_rs1: a1->Some_0 as u8,
                        addr_rs2: a2->Some_0 as u8,
                        data_rs1: d1->Some_0 as u32,
                        data_rs2: d2->Some_0 as u32,
                    },
                ),
            )
        } else {
            None
        }
    }
}

/// The execute line's records, from its tokens.
pub open spec fn spec_parse_execute(ts: Seq<Seq<u8>>) -> Option<ParsedLine> {
    if ts.len() < 4 {
        None
    } else {
        let pc = spec_parse_hex(ts[1], u32::MAX as int);
        let alu = spec_parse_hex(ts[2], u32::MAX as int);
        let bt = spec_parse_bit(ts[3]);
        if pc is Some && alu is Some && bt is Some {
            Some(
                ParsedLine::E(
                    ExecRec {
                        pc: pc->Some_0 as u32,
                        alu_result: alu->Some_0 as u32,
                        branch_taken: bt->Some_0,
                    },
                ),
            )
        } else {
            None
        }
    }
}

/// The memory line's records, from its tokens.
pub open spec fn spec_parse_memory(ts: Seq<Seq<u8>>) -> Option<ParsedLine> {
    if ts.len() < 6 {
        None
    } else {
        let pc = spec_parse_hex(ts[1], u32::MAX as int);
        let addr = spec_parse_hex(ts[2], u32::MAX as int);
        let rnw = spec_parse_bit(ts[3]);
        let size = spec_parse_hex(ts[4], 0xff);
        let wdata = spec_parse_hex(ts[5], u32::MAX as int);
        if pc is Some && addr is Some && rnw is Some && size is Some && wdata is Some {
            Some(
                ParsedLine::M(
                    MemRec {
                        pc: pc->Some_0 as u32,
                        addr: addr->Some_0 as u32,
                        read_not_write: rnw->Some_0,
                        access_size: size->Some_0 as u8,
                        memory_wdata: wdata->Some_0 as u32,
                    },
                ),
            )
        } else {
            None
        }
    }
}

/// The writeback line's records, from its tokens.
pub open spec fn spec_parse_writeback(ts: Seq<Seq<u8>>) -> Option<ParsedLine> {
    if ts.len() < 5 {
        None
    } else {
        let pc = spec_parse_hex(ts[1], u32::MAX as int);
        let we = spec_parse_bit(ts[2]);
        let addr_rd = spec_parse_hex(ts[3], 0xff);
        let data_rd = spec_parse_hex(ts[4], u32::MAX as int);
        if pc is Some && we is Some && addr_rd is Some && data_rd is Some {
            Some(
                ParsedLine::W(
                    WbRec {
                        pc: pc->Some_0 as u32,
                        we: we->Some_0,
                        addr_rd: addr_rd->Some_0 as u8,
                        data_rd: data_rd->Some_0 as u32,
                    },
                ),
            )
        } else {
            None
        }
    }
}

/// The stage tag `[F]`, as bytes.
pub open spec fn tag_f() -> Seq<u8> {
    seq![91u8, 70u8, 93u8]
}

/// The stage tag `[D]`, as bytes.
pub open spec fn tag_d() -> Seq<u8> {
    seq![91u8, 68u8, 93u8]
}

/// The stage tag `[R]`, as bytes.
pub open spec fn tag_r() -> Seq<u8> {
    seq![91u8, 82u8, 93u8]
}

/// The stage tag `[E]`, as bytes.
pub open spec fn tag_e() -> Seq<u8> {
    seq![91u8, 69u8, 93u8]
}

/// The stage tag `[M]`, as bytes.
pub open spec fn tag_m() -> Seq<u8> {
    seq![91u8, 77u8, 93u8]
}

/// The stage tag `[W]`, as bytes.
pub open spec fn tag_w() -> Seq<u8> {
    seq![91u8, 87u8, 93u8]
}

/// The record on one trace line, or `None` if the line is malformed.
pub open spec fn spec_parse_line(s: Seq<u8>) -> Option<ParsedLine> {
    let ts = spec_tokens(s);
    if ts.len() == 0 {
        None
    } else if ts[0] == tag_f() {
        spec_parse_fetch(ts)
    } else if ts[0] == tag_d() {
        spec_parse_decode(ts)
    } else if ts[0] == tag_r() {
        spec_parse_regread(ts)
    } else if ts[0] == tag_e() {
        spec_parse_execute(ts)
    } else if ts[0] == tag_m() {
        spec_parse_memory(ts)
    } else if ts[0] == tag_w() {
        spec_parse_writeback(ts)
    } else {
        None
    }
}

/// Whether a token is exactly the three bytes `[`, `c`, `]`.
fn is_tag(t: &Vec<u8>, c: u8) -> (r: bool)
    ensures
        r == (t@ == seq![91u8, c, 93u8]),
{
    if t.len() == 3 && t[0] == 91 && t[1] == c && t[2] == 93 {
        proof {
            assert(t@ =~= seq![91u8, c, 93u8]);
        }
        true
    } else {
        proof {
            if t@.len() == 3 {
                assert(t@ != seq![91u8, c, 93u8]) by {
                    if t@ == seq![91u8, c, 93u8] {
                        assert(t@[0] == 91u8 && t@[1] == c && t@[2] == 93u8);
                    }
                }
            }
        }
        false
    }
}

/// Parses one trace line.
pub fn parse_line(s: &[u8]) -> (r: Option<ParsedLine>)
    ensures
        r == spec_parse_line(s@),
{
    let toks = tokenize(s);
    let ghost ts = spec_tokens(s@);
    if toks.len() == 0 {
        return None;
    }
    if is_tag(&toks[0], 70) {
        if toks.len() < 3 {
            return None;
        }
        let pc = parse_hex(&toks[1], u32::MAX);
        let instr = parse_hex(&toks[2], u32::MAX);
        match (pc, instr) {
            (Some(pc), Some(instr)) => Some(ParsedLine::F(FetchRec { pc, instr })),
            _ => None,
        }
    } else if is_tag(&toks[0], 68) {
        if toks.len() < 10 {
            return None;
        }
        let pc = parse_hex(&toks[1], u32::MAX);
        let opcode = parse_hex(&toks[2], 0xff);
        let rd = parse_hex(&toks[3], 0xff);
        let rs1 = parse_hex(&toks[4], 0xff);
        let rs2 = parse_hex(&toks[5], 0xff);
        let funct3 = parse_hex(&toks[6], 0xff);
        let funct7 = parse_hex(&toks[7], 0xff);
        let imm = parse_hex(&toks[8], u32::MAX);
        let shamt = parse_hex(&toks[9], 0xff);
        match (pc, opcode, rd, rs1, rs2, funct3, funct7, imm, shamt) {
            (
                Some(pc),
                Some(opcode),
                Some(rd),
                Some(rs1),
                Some(rs2),
                Some(funct3),
                Some(funct7),
                Some(imm),
                Some(shamt),
            ) => Some(
                ParsedLine::D(
                    DecodeRec {
                        pc,
                        opcode: opcode as u8,
                        rd: rd as u8,
                        rs1: rs1 as u8,
                        rs2: rs2 as u8,
                        funct3: funct3 as u8,
                        funct7: funct7 as u8,
                        imm,
                        shamt: shamt as u8,
                    },
                ),
            ),
            _ => None,
        }
    } else if is_tag(&toks[0], 82) {
        if toks.len() < 5 {
            return None;
        }
        let a1 = parse_hex(&toks[1], 0xff);
        let a2 = parse_hex(&toks[2], 0xff);
        let d1 = parse_hex(&toks[3], u32::MAX);
        let d2 = parse_hex(&toks[4], u32::MAX);
        match (a1, a2, d1, d2) {
            (Some(a1), Some(a2), Some(d1), Some(d2)) => Some(
                ParsedLine::R(
                    RegRec {
                        addr_rs1: a1 as u8,
                        addr_rs2: a2 as u8,
                        data_rs1: d1,
                        data_rs2: d2,
                    },
                ),
            ),
            _ => None,
        }
    } else if is_tag(&toks[0], 69) {
        if toks.len() < 4 {
            return None;
        }
        let pc = parse_hex(&toks[1], u32::MAX);
        let alu = parse_hex(&toks[2], u32::MAX);
        let bt = parse_bit(&toks[3]);
        match (pc, alu, bt) {
            (Some(pc), Some(alu), Some(bt)) => Some(
                ParsedLine::E(ExecRec { pc, alu_result: alu, branch_taken: bt }),
            ),
            _ => None,
        }
    } else if is_tag(&toks[0], 77) {
        if toks.len() < 6 {
            return None;
        }
        let pc = parse_hex(&toks[1], u32::MAX);
        let addr = parse_hex(&toks[2], u32::MAX);
        let rnw = parse_bit(&toks[3]);
        let size = parse_hex(&toks[4], 0xff);
        let wdata = parse_hex(&toks[5], u32::MAX);
        match (pc, addr, rnw, size, wdata) {
            (Some(pc), Some(addr), Some(rnw), Some(size), Some(wdata)) => Some(
                ParsedLine::M(
                    MemRec {
                        pc,
                        addr,
                        read_not_write: rnw,
                        access_size: size as u8,
                        memory_wdata: wdata,
                    },
                ),
            ),
            _ => None,
        }
    } else if is_tag(&toks[0], 87) {
        if toks.len() < 5 {
            return None;
        }
        let pc = parse_hex(&toks[1], u32::MAX);
        let we = parse_bit(&toks[2]);
        let addr_rd = parse_hex(&toks[3], 0xff);
        let data_rd = parse_hex(&toks[4], u32::MAX);
        match (pc, we, addr_rd, data_rd) {
            (Some(pc), Some(we), Some(addr_rd), Some(data_rd)) => Some(
                ParsedLine::W(WbRec { pc, we, addr_rd: addr_rd as u8, data_rd }),
            ),
            _ => None,
        }
    } else {
        None
    }
}

/// The records of a whole trace: every line parsed, in order, or the index
/// of the first malformed line.
pub open spec fn spec_parse_trace(lines: Seq<Seq<u8>>) -> Result<Seq<ParsedLine>, TraceError>
    decreases lines.len(),
{
    if lines.len() == 0 {
        Ok(Seq::empty())
    } else {
        match spec_parse_trace(lines.drop_last()) {
            Ok(rest) => match spec_parse_line(lines.last()) {
                Some(l) => Ok(rest.push(l)),
                None => Err(TraceError::BadLine { line: (lines.len() - 1) as usize }),
            },
            Err(e) => Err(e),
        }
    }
}

/// Parses every line of a trace; the error names the first malformed line.
pub fn parse_trace(lines: &Vec<Vec<u8>>) -> (r: Result<Vec<ParsedLine>, TraceError>)
    ensures
        match r {
            Ok(ls) => spec_parse_trace(lines@.map_values(|v: Vec<u8>| v@)) == Ok::<
                Seq<ParsedLine>,
                TraceError,
            >(ls@),
            Err(e) => spec_parse_trace(lines@.map_values(|v: Vec<u8>| v@)) == Err::<
                Seq<ParsedLine>,
                TraceError,
            >(e),
        },
{
    let ghost all = lines@.map_values(|v: Vec<u8>| v@);
    let mut out: Vec<ParsedLine> = Vec::new();
    let mut i: usize = 0;
    while i < lines.len()
        invariant
            0 <= i <= lines@.len(),
            all == lines@.map_values(|v: Vec<u8>| v@),
            out@.len() == i,
            spec_parse_trace(all.take(i as int)) == Ok::<Seq<ParsedLine>, TraceError>(out@),
        decreases lines@.len() - i,
    {
        let line: &Vec<u8> = &lines[i];
        match parse_line(line.as_slice()) {
            Some(l) => {
                out.push(l);
                proof {
                    assert(all.take(i as int + 1).drop_last() =~= all.take(i as int));
                    assert(all.take(i as int + 1).last() == all[i as int]);
                }
            },
            None => {
                proof {
                    lemma_parse_trace_err(all, i as int);
                }
                return Err(TraceError::BadLine { line: i });
            },
        }
        i = i + 1;
    }
    proof {
        assert(all.take(lines@.len() as int) =~= all);
    }
    Ok(out)
}

/// A malformed line makes the whole trace's parse fail with its index,
/// provided every earlier line parses.
proof fn lemma_parse_trace_err(all: Seq<Seq<u8>>, i: int)
    requires
        0 <= i < all.len(),
        spec_parse_trace(all.take(i)) is Ok,
        spec_parse_line(all[i]) is None,
    ensures
        spec_parse_trace(all) == Err::<Seq<ParsedLine>, TraceError>(
            TraceError::BadLine { line: i as usize },
        ),
    decreases all.len(),
{
    if all.len() - 1 > i {
        assert(all.drop_last().take(i) =~= all.take(i));
        assert(all.drop_last()[i] == all[i]);
        lemma_parse_trace_err(all.drop_last(), i);
    } else {
        assert(all.drop_last() =~= all.take(i));
    }
}

} // verus!
