//! The opcode table and decoder. The table is loaded from a tab-separated
//! text description, one opcode per line: `0xHH<TAB>MNEMONIC<TAB>LENGTH<TAB>CYCLES`,
//! where CYCLES is a single count or a `taken/not-taken` pair and a mnemonic
//! of `-` marks an unused opcode to skip. The decoder turns the bytes at the
//! program counter into a decoded instruction with its immediate arguments.

use vstd::prelude::*;
use vstd::string::StrSliceExecFns;

verus! {

broadcast use vstd::string::is_ascii_spec_bytes;

/// An immutable opcode descriptor as the ghost sees it.
pub ghost struct OpTypeView {
    pub opcode: u8,
    pub instruction: Seq<char>,
    pub len: int,
    /// Cycles when a conditional branch is taken (the only cost for
    /// unconditional instructions).
    pub taken: u8,
    /// Cycles when a conditional branch falls through.
    pub not_taken: u8,
}

impl OpTypeView {
    /// Descriptors hold a length of 1 to 3 bytes and nonzero cycle counts.
    pub open spec fn wf(&self) -> bool {
        1 <= self.len <= 3 && self.taken >= 1 && self.not_taken >= 1
    }
}

/// An immutable opcode descriptor: the opcode byte, its mnemonic, its
/// instruction length in bytes, and its cycle cost as a
/// (taken, not-taken) pair, equal for unconditional instructions.
pub struct OpType {
    pub opcode: u8,
    pub instruction: String,
    pub len: usize,
    pub cycles: (u8, u8),
}

impl View for OpType {
    type V = OpTypeView;

    open spec fn view(&self) -> OpTypeView {
        OpTypeView {
            opcode: self.opcode,
            instruction: self.instruction@,
            len: self.len as int,
            taken: self.cycles.0,
            not_taken: self.cycles.1,
        }
    }
}

impl OpType {
    /// An identical descriptor.
    pub fn dup(&self) -> (r: OpType)
        ensures
            r@ == self@,
    {
        OpType {
            opcode: self.opcode,
            instruction: self.instruction.clone(),
            len: self.len,
            cycles: self.cycles,
        }
    }
}

/// A decoded instruction as the ghost sees it.
pub ghost struct OpView {
    pub optype: OpTypeView,
    pub arg1: Option<u8>,
    pub arg2: Option<u8>,
}

impl OpView {
    /// Immediate arguments are present exactly as the length demands:
    /// `arg1` is the byte after the opcode, `arg2` the byte after that
    /// (so for a 16-bit operand `arg1` is the low and `arg2` the high half).
    pub open spec fn wf(&self) -> bool {
        self.optype.wf() && ((self.arg1 is Some) <==> self.optype.len >= 2) && ((
        self.arg2 is Some) <==> self.optype.len >= 3)
    }
}

/// A decoded instruction: its descriptor and up to two immediate bytes,
/// `arg1` the byte following the opcode and `arg2` the byte after that.
pub struct Op {
    pub optype: OpType,
    pub arg1: Option<u8>,
    pub arg2: Option<u8>,
}

impl View for Op {
    type V = OpView;

    open spec fn view(&self) -> OpView {
        OpView { optype: self.optype@, arg1: self.arg1, arg2: self.arg2 }
    }
}

impl Op {
    /// The mnemonic of the instruction.
    pub fn instruction(&self) -> (r: String)
        ensures
            r@ == self@.optype.instruction,
    {
        self.optype.instruction.clone()
    }

    /// The first immediate byte (the byte at pc+1).
    pub fn arg1(&self) -> (r: u8)
        requires
            self@.arg1 is Some,
        ensures
            r == self@.arg1.unwrap(),
    {
        match self.arg1 {
            Some(a) => a,
            None => vstd::pervasive::unreached(),
        }
    }

    /// The second immediate byte (the byte at pc+2).
    pub fn arg2(&self) -> (r: u8)
        requires
            self@.arg2 is Some,
        ensures
            r == self@.arg2.unwrap(),
    {
        match self.arg2 {
            Some(a) => a,
            None => vstd::pervasive::unreached(),
        }
    }
}

/// Why decoding failed.
#[derive(Debug, Copy, Clone, PartialEq, Eq, Structural)]
pub enum DecodeError {
    /// No bytes to decode.
    Empty,
    /// The first byte is not an opcode the table defines.
    UnknownOpcode(u8),
    /// The instruction needs more immediate bytes than remain.
    Truncated,
    /// The table gives the opcode a length too short for the
    /// immediates the instruction consumes.
    BadLength,
}

// ---------------------------------------------------------------------
// Specification of the table text format.
// ---------------------------------------------------------------------
/// First position at or after `from` whose character is `target`
/// (compared as a byte), or the length if there is none.
pub open spec fn spec_find(s: Seq<char>, from: int, target: u8) -> int
    decreases s.len() - from,
    when 0 <= from <= s.len()
{
    if from >= s.len() {
        s.len() as int
    } else if s[from] as u8 == target {
        from
    } else {
        spec_find(s, from + 1, target)
    }
}

/// A decimal digit.
pub open spec fn is_dec_digit(c: char) -> bool {
    48 <= c as u8 <= 57
}

/// Value of a decimal digit.
pub open spec fn dec_digit_val(c: char) -> int {
    c as u8 - 48
}

/// A hexadecimal digit, either case.
pub open spec fn is_hex_digit(c: char) -> bool {
    48 <= c as u8 <= 57 || 97 <= c as u8 <= 102 || 65 <= c as u8 <= 70
}

/// Value of a hexadecimal digit.
pub open spec fn hex_digit_val(c: char) -> int {
    if 48 <= c as u8 <= 57 {
        c as u8 - 48
    } else if 97 <= c as u8 <= 102 {
        c as u8 - 87
    } else {
        c as u8 - 55
    }
}

/// The number denoted by a sequence of decimal digits.
pub open spec fn dec_value(f: Seq<char>) -> int
    decreases f.len(),
{
    if f.len() == 0 {
        0
    } else {
        dec_value(f.drop_last()) * 10 + dec_digit_val(f.last())
    }
}

/// The number denoted by a sequence of hexadecimal digits.
pub open spec fn hex_value(f: Seq<char>) -> int
    decreases f.len(),
{
    if f.len() == 0 {
        0
    } else {
        hex_value(f.drop_last()) * 16 + hex_digit_val(f.last())
    }
}

/// A field of decimal digits denoting a byte value.
pub open spec fn spec_parse_dec(f: Seq<char>) -> Option<u8> {
    if f.len() > 0 && (forall|k: int| 0 <= k < f.len() ==> is_dec_digit(f[k])) && dec_value(f)
        <= 255 {
        Some(dec_value(f) as u8)
    } else {
        None
    }
}

/// A field `0x` followed by hexadecimal digits denoting a byte value.
pub open spec fn spec_parse_hex(f: Seq<char>) -> Option<u8> {
    if f.len() >= 3 && f[0] as u8 == 48 && f[1] as u8 == 120 && (forall|k: int|
        2 <= k < f.len() ==> is_hex_digit(f[k])) && hex_value(f.skip(2)) <= 255 {
        Some(hex_value(f.skip(2)) as u8)
    } else {
        None
    }
}

/// A cycles field: one decimal count, or a taken/not-taken pair
/// separated by a slash.
pub open spec fn spec_parse_cycles(f: Seq<char>) -> Option<(u8, u8)> {
    let sl = spec_find(f, 0, 47);
    if sl == f.len() {
        match spec_parse_dec(f) {
            Some(c) => Some((c, c)),
            None => None,
        }
    } else {
        match (spec_parse_dec(f.subrange(0, sl)), spec_parse_dec(
            f.subrange(sl + 1, f.len() as int),
        )) {
            (Some(t), Some(n)) => Some((t, n)),
            _ => None,
        }
    }
}

/// What one line of the table text contributes.
pub ghost enum LineResult {
    /// The line is malformed; the whole table is rejected.
    Bad,
    /// The line describes an unused opcode and is skipped.
    Skip,
    /// The line defines this opcode.
    Entry(u8, OpTypeView),
}

/// A line with any trailing carriage return removed.
pub open spec fn strip_cr(line: Seq<char>) -> Seq<char> {
    if line.len() > 0 && line.last() as u8 == 13 {
        line.drop_last()
    } else {
        line
    }
}

/// Meaning of one line of the table text. The line must hold four
/// tab-separated fields (text after a fourth tab is ignored): opcode in
/// hex, mnemonic, length 1 to 3, and nonzero cycles; except that a line
/// whose mnemonic field is `-` is skipped whatever follows it.
pub open spec fn spec_parse_line(raw: Seq<char>) -> LineResult {
    let line = strip_cr(raw);
    let t0 = spec_find(line, 0, 9);
    if t0 == line.len() {
        LineResult::Bad
    } else {
        let t1 = spec_find(line, t0 + 1, 9);
        let f1 = line.subrange(t0 + 1, t1);
        if f1.len() == 1 && f1[0] as u8 == 45 {
            LineResult::Skip
        } else if t1 == line.len() {
            LineResult::Bad
        } else {
            let t2 = spec_find(line, t1 + 1, 9);
            if t2 == line.len() {
                LineResult::Bad
            } else {
                let t3 = spec_find(line, t2 + 1, 9);
                let f0 = line.subrange(0, t0);
                let f2 = line.subrange(t1 + 1, t2);
                let f3 = line.subrange(t2 + 1, t3);
                match (spec_parse_hex(f0), spec_parse_dec(f2), spec_parse_cycles(f3)) {
                    (Some(code), Some(l), Some((ct, cn))) => {
                        if 1 <= l <= 3 && ct >= 1 && cn >= 1 {
                            LineResult::Entry(
                                code,
                                OpTypeView {
                                    opcode: code,
                                    instruction: f1,
                                    len: l as int,
                                    taken: ct,
                                    not_taken: cn,
                                },
                            )
                        } else {
                            LineResult::Bad
                        }
                    },
                    _ => LineResult::Bad,
                }
            }
        }
    }
}

/// A table with no opcodes defined.
pub open spec fn empty_table() -> Seq<Option<OpTypeView>> {
    Seq::new(256, |i: int| None)
}

/// The table after the lines of `s` from position `i` on are applied to
/// `acc`, newest line winning; `None` if any line is malformed.
pub open spec fn spec_parse_lines(s: Seq<char>, i: int, acc: Seq<Option<OpTypeView>>) -> Option<
    Seq<Option<OpTypeView>>,
>
    decreases s.len() - i,
    when 0 <= i <= s.len()
    via spec_parse_lines_decreases
{
    if i >= s.len() {
        Some(acc)
    } else {
        let j = spec_find(s, i, 10);
        let next = if j == s.len() {
            s.len() as int
        } else {
            j + 1
        };
        match spec_parse_line(s.subrange(i, j)) {
            LineResult::Bad => None,
            LineResult::Skip => spec_parse_lines(s, next, acc),
            LineResult::Entry(code, t) => spec_parse_lines(s, next, acc.update(code as int, Some(t))),
        }
    }
}

#[via_fn]
proof fn spec_parse_lines_decreases(s: Seq<char>, i: int, acc: Seq<Option<OpTypeView>>) {
    if 0 <= i < s.len() {
        lemma_find_props(s, i, 10);
    }
}

/// The opcode table described by the whole text.
pub open spec fn spec_parse_table(s: Seq<char>) -> Option<Seq<Option<OpTypeView>>> {
    spec_parse_lines(s, 0, empty_table())
}

/// `spec_find` stays within bounds and marks the first occurrence.
pub proof fn lemma_find_props(s: Seq<char>, from: int, target: u8)
    requires
        0 <= from <= s.len(),
    ensures
        from <= spec_find(s, from, target) <= s.len(),
        spec_find(s, from, target) < s.len() ==> s[spec_find(s, from, target)] as u8 == target,
        forall|k: int| from <= k < spec_find(s, from, target) ==> s[k] as u8 != target,
    decreases s.len() - from,
{
    if from < s.len() && s[from] as u8 != target {
        lemma_find_props(s, from + 1, target);
    }
}

/// An interval free of the target followed by an occurrence (or the
/// end) pins down `spec_find`.
pub proof fn lemma_find_interval(s: Seq<char>, from: int, r: int, target: u8)
    requires
        0 <= from <= r <= s.len(),
        forall|k: int| from <= k < r ==> s[k] as u8 != target,
        r < s.len() ==> s[r] as u8 == target,
    ensures
        spec_find(s, from, target) == r,
    decreases r - from,
{
    if from < r {
        lemma_find_interval(s, from + 1, r, target);
    }
}

// ---------------------------------------------------------------------
// The decoder.
// ---------------------------------------------------------------------
/// The opcode decoder: a table from opcode byte to descriptor.
pub struct OpcodeDecoder {
    opcodes: Vec<Option<OpType>>,
}

impl View for OpcodeDecoder {
    type V = Seq<Option<OpTypeView>>;

    closed spec fn view(&self) -> Seq<Option<OpTypeView>> {
        self.opcodes@.map_values(
            |o: Option<OpType>|
                match o {
                    Some(t) => Some(t@),
                    None => None,
                },
        )
    }
}

/// A table of all 256 opcode slots whose entries are well formed and
/// keyed by their own opcode byte.
pub open spec fn table_wf(t: Seq<Option<OpTypeView>>) -> bool {
    t.len() == 256 && forall|k: int|
        0 <= k < 256 && t[k] is Some ==> ((#[trigger] t[k]).unwrap().wf() && t[k].unwrap().opcode
            == k)
}

impl OpcodeDecoder {
    /// The decoder's table is well formed.
    pub open spec fn wf(&self) -> bool {
        table_wf(self@)
    }

    /// Parses the tab-separated opcode description. Returns the decoder
    /// exactly when the text is ASCII and every line is either well
    /// formed or skipped; on any malformed line the whole description
    /// is rejected.
    pub fn new(opcode_data: &str) -> (r: Option<OpcodeDecoder>)
        ensures
            match r {
                Some(d) => opcode_data.is_ascii() && spec_parse_table(opcode_data@) is Some && d@
                    == spec_parse_table(opcode_data@).unwrap() && d.wf(),
                None => !opcode_data.is_ascii() || spec_parse_table(opcode_data@) is None,
            },
    {
        if !opcode_data.is_ascii() {
            return None;
        }
        let s = opcode_data;
        let n = s.unicode_len();
        let mut table: Vec<Option<OpType>> = Vec::new();
        while table.len() < 256
            invariant
                table@.len() <= 256,
                forall|k: int| 0 <= k < table@.len() ==> table@[k] is None,
            decreases 256 - table@.len(),
        {
            table.push(None);
        }
        proof {
            assert(view_of(table@) =~= empty_table());
        }
        let mut i: usize = 0;
        while i < n
            invariant
                s == opcode_data,
                s.is_ascii(),
                n == s@.len(),
                0 <= i <= n,
                table@.len() == 256,
                table_wf(view_of(table@)),
                spec_parse_lines(s@, 0, empty_table()) == spec_parse_lines(
                    s@,
                    i as int,
                    view_of(table@),
                ),
            decreases n - i,
        {
            let j = find_byte(s, i, n, 10);
            proof {
                lemma_find_interval(s@, i as int, j as int, 10);
            }
            let line = s.substring_ascii(i, j);
            let ghost acc = view_of(table@);
            let ghost next = if j == n {
                n as int
            } else {
                j as int + 1
            };
            proof {
                assert(spec_find(s@, i as int, 10) == j);
                assert(line@ == s@.subrange(i as int, j as int));
            }
            match parse_line(line) {
                ParsedLine::Bad => {
                    proof {
                        assert(spec_parse_lines(s@, i as int, acc) is None);
                    }
                    return None;
                },
                ParsedLine::Skip => {
                    proof {
                        assert(spec_parse_lines(s@, i as int, acc) == spec_parse_lines(
                            s@,
                            next,
                            acc,
                        ));
                    }
                },
                ParsedLine::Entry(code, t) => {
                    let ghost tv = t@;
                    proof {
                        assert(spec_parse_lines(s@, i as int, acc) == spec_parse_lines(
                            s@,
                            next,
                            acc.update(code as int, Some(tv)),
                        ));
                    }
                    table.set(code as usize, Some(t));
                    proof {
                        assert(view_of(table@) =~= acc.update(code as int, Some(tv)));
                    }
                },
            }
            if j == n {
                i = n;
            } else {
                i = j + 1;
            }
        }
        proof {
            assert(spec_parse_lines(s@, n as int, view_of(table@)) == Some(view_of(table@)));
        }
        let d = OpcodeDecoder { opcodes: table };
        proof {
            assert(d@ =~= view_of(table@));
        }
        Some(d)
    }

    /// Decodes the instruction at the start of `program`: looks the
    /// first byte up in the table and attaches the immediate bytes the
    /// length demands. Fails exactly on an empty program, an opcode the
    /// table does not define, or a program shorter than the
    /// instruction.
    pub fn get_next_op(&self, program: &[u8]) -> (r: Result<Op, DecodeError>)
        requires
            self.wf(),
        ensures
            program@.len() == 0 ==> r == Result::<Op, DecodeError>::Err(DecodeError::Empty),
            program@.len() > 0 && self@[program@[0] as int] is None ==> r == Result::<
                Op,
                DecodeError,
            >::Err(DecodeError::UnknownOpcode(program@[0])),
            program@.len() > 0 && self@[program@[0] as int] is Some ==> {
                let t = self@[program@[0] as int].unwrap();
                if t.len > program@.len() {
                    r == Result::<Op, DecodeError>::Err(DecodeError::Truncated)
                } else {
                    r is Ok && r.unwrap()@.wf() && r.unwrap()@.optype == t && r.unwrap()@.arg1 == (
                    if t.len >= 2 {
                        Some(program@[1])
                    } else {
                        None
                    }) && r.unwrap()@.arg2 == (
                    if t.len >= 3 {
                        Some(program@[2])
                    } else {
                        None
                    })
                }
            },
    {
        if program.len() == 0 {
            return Err(DecodeError::Empty);
        }
        let code = program[0];
        match &self.opcodes[code as usize] {
            None => Err(DecodeError::UnknownOpcode(code)),
            Some(optype) => {
                if optype.len > program.len() {
                    return Err(DecodeError::Truncated);
                }
                let mut op = Op { optype: optype.dup(), arg1: None, arg2: None };
                if op.optype.len > 1 {
                    op.arg1 = Some(program[1]);
                }
                if op.optype.len > 2 {
                    op.arg2 = Some(program[2]);
                }
                Ok(op)
            },
        }
    }
}

/// The ghost table a vector of descriptors denotes.
pub open spec fn view_of(t: Seq<Option<OpType>>) -> Seq<Option<OpTypeView>> {
    t.map_values(
        |o: Option<OpType>|
            match o {
                Some(x) => Some(x@),
                None => None,
            },
    )
}

/// Outcome of parsing one line.
enum ParsedLine {
    Bad,
    Skip,
    Entry(u8, OpType),
}

impl ParsedLine {
    /// The ghost meaning of this outcome.
    spec fn view_line(&self) -> LineResult {
        match self {
            ParsedLine::Bad => LineResult::Bad,
            ParsedLine::Skip => LineResult::Skip,
            ParsedLine::Entry(code, t) => LineResult::Entry(*code, t@),
        }
    }
}

/// First position in `[from, end)` holding `target`, or `end`.
fn find_byte(s: &str, from: usize, end: usize, target: u8) -> (r: usize)
    requires
        s.is_ascii(),
        from <= end <= s@.len(),
    ensures
        from <= r <= end,
        forall|k: int| from <= k < r ==> s@[k] as u8 != target,
        r < end ==> s@[r as int] as u8 == target,
{
    let mut i = from;
    while i < end
        invariant
            s.is_ascii(),
            from <= i <= end <= s@.len(),
            forall|k: int| from <= k < i ==> s@[k] as u8 != target,
        decreases end - i,
    {
        if s.get_ascii(i) == target {
            return i;
        }
        i = i + 1;
    }
    end
}

/// Parses a field of decimal digits into a byte value.
fn parse_dec_field(s: &str, from: usize, to: usize) -> (r: Option<u8>)
    requires
        s.is_ascii(),
        from <= to <= s@.len(),
    ensures
        r == spec_parse_dec(s@.subrange(from as int, to as int)),
{
    let ghost f = s@.subrange(from as int, to as int);
    if from == to {
        return None;
    }
    let mut acc: u32 = 0;
    let mut i = from;
    while i < to
        invariant
            s.is_ascii(),
            from <= i <= to <= s@.len(),
            f == s@.subrange(from as int, to as int),
            acc <= 255,
            acc == dec_value(f.subrange(0, i - from)),
            forall|k: int| 0 <= k < i - from ==> is_dec_digit(f[k]),
        decreases to - i,
    {
        let b = s.get_ascii(i);
        if b < 48 || b > 57 {
            proof {
                assert(f[i - from] == s@[i as int]);
                assert(!is_dec_digit(f[i - from]));
            }
            return None;
        }
        proof {
            assert(f[i - from] == s@[i as int]);
            assert(is_dec_digit(f[i - from]));
            assert(f.subrange(0, i - from + 1).drop_last() =~= f.subrange(0, i - from));
            assert(f.subrange(0, i - from + 1).last() == f[i - from]);
        }
        acc = acc * 10 + (b - 48) as u32;
        if acc > 255 {
            proof {
                lemma_dec_overflow(f, i - from + 1);
            }
            return None;
        }
        i = i + 1;
    }
    proof {
        assert(f.subrange(0, to - from) =~= f);
    }
    Some(acc as u8)
}

/// A digit string's value only grows as digits are appended.
proof fn lemma_dec_value_nonneg(f: Seq<char>)
    requires
        forall|k: int| 0 <= k < f.len() ==> is_dec_digit(f[k]),
    ensures
        dec_value(f) >= 0,
    decreases f.len(),
{
    if f.len() > 0 {
        lemma_dec_value_nonneg(f.drop_last());
        assert(forall|k: int| 0 <= k < f.drop_last().len() ==> is_dec_digit(f.drop_last()[k]));
    }
}

/// If a prefix of the digits already exceeds 255, the field denotes no byte.
proof fn lemma_dec_overflow(f: Seq<char>, p: int)
    requires
        0 <= p <= f.len(),
        forall|k: int| 0 <= k < p ==> is_dec_digit(f[k]),
        dec_value(f.subrange(0, p)) > 255,
    ensures
        spec_parse_dec(f) is None,
{
    if forall|k: int| 0 <= k < f.len() ==> is_dec_digit(f[k]) {
        lemma_dec_value_grows(f, p);
    }
}

/// If a prefix of a digit string already exceeds 255, so does the whole.
proof fn lemma_dec_value_grows(f: Seq<char>, p: int)
    requires
        0 <= p <= f.len(),
        forall|k: int| 0 <= k < f.len() ==> is_dec_digit(f[k]),
        dec_value(f.subrange(0, p)) > 255,
    ensures
        dec_value(f) > 255,
    decreases f.len() - p,
{
    if p == f.len() {
        assert(f.subrange(0, p) =~= f);
    } else {
        let g = f.subrange(0, p + 1);
        assert(g.drop_last() =~= f.subrange(0, p));
        assert(is_dec_digit(g.last()));
        lemma_dec_value_nonneg(f.subrange(0, p));
        assert(dec_value(g) == dec_value(f.subrange(0, p)) * 10 + dec_digit_val(g.last()));
        lemma_dec_value_grows(f, p + 1);
    }
}

/// If a prefix of a hex digit string already exceeds 255, so does the whole.
proof fn lemma_hex_value_nonneg(f: Seq<char>)
    requires
        forall|k: int| 0 <= k < f.len() ==> is_hex_digit(f[k]),
    ensures
        hex_value(f) >= 0,
    decreases f.len(),
{
    if f.len() > 0 {
        lemma_hex_value_nonneg(f.drop_last());
        assert(forall|k: int| 0 <= k < f.drop_last().len() ==> is_hex_digit(f.drop_last()[k]));
    }
}

/// If a prefix of the hex digits already exceeds 255, the field denotes
/// no byte.
proof fn lemma_hex_overflow(f: Seq<char>, p: int)
    requires
        f.len() >= 3,
        0 <= p <= f.len() - 2,
        forall|k: int| 0 <= k < p ==> is_hex_digit(f.skip(2)[k]),
        hex_value(f.skip(2).subrange(0, p)) > 255,
    ensures
        spec_parse_hex(f) is None,
{
    if forall|k: int| 2 <= k < f.len() ==> is_hex_digit(f[k]) {
        assert(forall|k: int| 0 <= k < f.skip(2).len() ==> is_hex_digit(f.skip(2)[k]));
        lemma_hex_value_grows(f.skip(2), p);
    }
}

proof fn lemma_hex_value_grows(f: Seq<char>, p: int)
    requires
        0 <= p <= f.len(),
        forall|k: int| 0 <= k < f.len() ==> is_hex_digit(f[k]),
        hex_value(f.subrange(0, p)) > 255,
    ensures
        hex_value(f) > 255,
    decreases f.len() - p,
{
    if p == f.len() {
        assert(f.subrange(0, p) =~= f);
    } else {
        let g = f.subrange(0, p + 1);
        assert(g.drop_last() =~= f.subrange(0, p));
        assert(is_hex_digit(g.last()));
        lemma_hex_value_nonneg(f.subrange(0, p));
        assert(hex_value(g) == hex_value(f.subrange(0, p)) * 16 + hex_digit_val(g.last()));
        lemma_hex_value_grows(f, p + 1);
    }
}

/// Parses a `0xHH` field into a byte value.
fn parse_hex_field(s: &str, from: usize, to: usize) -> (r: Option<u8>)
    requires
        s.is_ascii(),
        from <= to <= s@.len(),
    ensures
        r == spec_parse_hex(s@.subrange(from as int, to as int)),
{
    let ghost f = s@.subrange(from as int, to as int);
    if to - from < 3 {
        return None;
    }
    if s.get_ascii(from) != 48 || s.get_ascii(from + 1) != 120 {
        proof {
            assert(f[0] == s@[from as int]);
            assert(f[1] == s@[from as int + 1]);
        }
        return None;
    }
    proof {
        assert(f[0] == s@[from as int] && f[1] == s@[from as int + 1]);
    }
    let ghost d = f.skip(2);
    let mut acc: u32 = 0;
    let mut i = from + 2;
    while i < to
        invariant
            s.is_ascii(),
            from + 2 <= i <= to <= s@.len(),
            d == f.skip(2),
            f == s@.subrange(from as int, to as int),
            acc <= 255,
            acc == hex_value(d.subrange(0, i - from - 2)),
            forall|k: int| 0 <= k < i - from - 2 ==> is_hex_digit(d[k]),
        decreases to - i,
    {
        let b = s.get_ascii(i);
        let v: u32 = if 48 <= b && b <= 57 {
            (b - 48) as u32
        } else if 97 <= b && b <= 102 {
            (b - 87) as u32
        } else if 65 <= b && b <= 70 {
            (b - 55) as u32
        } else {
            proof {
                assert(d[i - from - 2] == s@[i as int]);
                assert(!is_hex_digit(d[i - from - 2]));
            }
            return None;
        };
        proof {
            assert(d[i - from - 2] == s@[i as int]);
            assert(is_hex_digit(d[i - from - 2]));
            assert(v == hex_digit_val(d[i - from - 2]));
            assert(d.subrange(0, i - from - 2 + 1).drop_last() =~= d.subrange(0, i - from - 2));
            assert(d.subrange(0, i - from - 2 + 1).last() == d[i - from - 2]);
        }
        acc = acc * 16 + v;
        if acc > 255 {
            proof {
                lemma_hex_overflow(f, i - from - 2 + 1);
            }
            return None;
        }
        i = i + 1;
    }
    proof {
        assert(d.subrange(0, to - from - 2) =~= d);
        assert(forall|k: int| 2 <= k < f.len() ==> f[k] == d[k - 2] && is_hex_digit(f[k]));
    }
    Some(acc as u8)
}

/// Parses a cycles field: `N` or `T/N`.
fn parse_cycles_field(s: &str, from: usize, to: usize) -> (r: Option<(u8, u8)>)
    requires
        s.is_ascii(),
        from <= to <= s@.len(),
    ensures
        r == spec_parse_cycles(s@.subrange(from as int, to as int)),
{
    let ghost f = s@.subrange(from as int, to as int);
    let sl = find_byte(s, from, to, 47);
    proof {
        lemma_find_interval(f, 0, sl - from, 47);
    }
    if sl == to {
        match parse_dec_field(s, from, to) {
            Some(c) => Some((c, c)),
            None => None,
        }
    } else {
        let a = parse_dec_field(s, from, sl);
        let b = parse_dec_field(s, sl + 1, to);
        proof {
            assert(f.subrange(0, sl - from) =~= s@.subrange(from as int, sl as int));
            assert(f.subrange(sl - from + 1, f.len() as int) =~= s@.subrange(
                sl as int + 1,
                to as int,
            ));
        }
        match (a, b) {
            (Some(t), Some(n)) => Some((t, n)),
            _ => None,
        }
    }
}

/// Parses one line of the table text.
fn parse_line(line: &str) -> (r: ParsedLine)
    requires
        line.is_ascii(),
    ensures
        r.view_line() == spec_parse_line(line@),
        r matches ParsedLine::Entry(code, t) ==> t@.wf() && t@.opcode == code,
{
    let raw_n = line.unicode_len();
    let end = if raw_n > 0 && line.get_ascii(raw_n - 1) == 13 {
        raw_n - 1
    } else {
        raw_n
    };
    let s = line.substring_ascii(0, end);
    proof {
        if raw_n > 0 && line@.last() as u8 == 13 {
            assert(line@.subrange(0, raw_n - 1) =~= line@.drop_last());
        } else {
            assert(line@.subrange(0, raw_n as int) =~= line@);
        }
        assert(s@ == strip_cr(line@));
    }
    let n = end;
    let t0 = find_byte(s, 0, n, 9);
    proof {
        lemma_find_interval(s@, 0, t0 as int, 9);
    }
    if t0 == n {
        return ParsedLine::Bad;
    }
    let t1 = find_byte(s, t0 + 1, n, 9);
    proof {
        lemma_find_interval(s@, t0 as int + 1, t1 as int, 9);
    }
    if t1 - t0 - 1 == 1 && s.get_ascii(t0 + 1) == 45 {
        proof {
            assert(s@.subrange(t0 as int + 1, t1 as int)[0] == s@[t0 as int + 1]);
        }
        return ParsedLine::Skip;
    }
    proof {
        let f1 = s@.subrange(t0 as int + 1, t1 as int);
        assert(f1.len() == 1 ==> f1[0] == s@[t0 as int + 1]);
    }
    if t1 == n {
        return ParsedLine::Bad;
    }
    let t2 = find_byte(s, t1 + 1, n, 9);
    proof {
        lemma_find_interval(s@, t1 as int + 1, t2 as int, 9);
    }
    if t2 == n {
        return ParsedLine::Bad;
    }
    let t3 = find_byte(s, t2 + 1, n, 9);
    proof {
        lemma_find_interval(s@, t2 as int + 1, t3 as int, 9);
    }
    let code = parse_hex_field(s, 0, t0);
    let lenf = parse_dec_field(s, t1 + 1, t2);
    let cyc = parse_cycles_field(s, t2 + 1, t3);
    match (code, lenf, cyc) {
        (Some(code), Some(l), Some((ct, cn))) => {
            if 1 <= l && l <= 3 && ct >= 1 && cn >= 1 {
                let mnemonic = s.substring_ascii(t0 + 1, t1).to_owned();
                ParsedLine::Entry(
                    code,
                    OpType { opcode: code, instruction: mnemonic, len: l as usize, cycles: (ct, cn) },
                )
            } else {
                ParsedLine::Bad
            }
        },
        _ => ParsedLine::Bad,
    }
}

} // verus!
