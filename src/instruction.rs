//! Instructions sent from the host to the board, one line each, and the
//! sequence numbers that correlate them with acknowledgements.
use vstd::prelude::*;
use crate::parser::{digits_end, line_message, number_at, scan_to, tag_at};
use crate::types::MessageModel;
use crate::text::{
    all_digits, chars_of, decimal_text, is_digit, lemma_decimal_text, push_decimal,
    push_hex_byte, push_str, read_digits, string_of,
};
use crate::types::{hex_text, node_text, supply_text, Bridgelist, Color, Node, SupplySwitchPos};

verus! {

/// A request to the board.
#[derive(Debug, Clone, PartialEq)]
pub enum Instruction {
    GetNetlist,
    /// Upload a netlist, given as the JSON text of each of its nets; the line
    /// holds them as one JSON array.
    SetNetlist(Vec<String>),
    GetBridgelist,
    SetBridgelist(Bridgelist),
    GetSupplySwitch,
    SetSupplySwitch(SupplySwitchPos),
    /// Light the named net in a color.
    Lightnet(String, Color),
    GetChipStatus,
    /// Any command name with an argument text.
    Raw(String, String),
}

/// The command name of an instruction.
pub open spec fn instruction_name(i: Instruction) -> Seq<char> {
    match i {
        Instruction::GetNetlist => "getnetlist"@,
        Instruction::SetNetlist(_) => "netlist"@,
        Instruction::GetBridgelist => "getbridgelist"@,
        Instruction::SetBridgelist(_) => "bridgelist"@,
        Instruction::GetSupplySwitch => "getsupplyswitch"@,
        Instruction::SetSupplySwitch(_) => "setsupplyswitch"@,
        Instruction::Lightnet(_, _) => "lightnet"@,
        Instruction::GetChipStatus => "getchipstatus"@,
        Instruction::Raw(name, _) => name@,
    }
}

pub open spec fn bracketed(a: Seq<char>) -> Seq<char> {
    seq!['['] + a + seq![']']
}

/// `a-b` pairs joined by `,`.
pub open spec fn bridges_text(b: Seq<(Node, Node)>) -> Seq<char>
    decreases b.len(),
{
    if b.len() == 0 {
        Seq::empty()
    } else {
        let last = node_text(b.last().0) + seq!['-'] + node_text(b.last().1);
        if b.len() == 1 {
            last
        } else {
            bridges_text(b.drop_last()) + seq![','] + last
        }
    }
}

/// Texts joined by `,`.
pub open spec fn joined(ts: Seq<Seq<char>>) -> Seq<char>
    decreases ts.len(),
{
    if ts.len() == 0 {
        Seq::empty()
    } else if ts.len() == 1 {
        ts[0]
    } else {
        joined(ts.drop_last()) + seq![','] + ts.last()
    }
}

/// Appends the texts joined by `,`.
fn push_joined(out: &mut String, ts: &Vec<String>)
    ensures
        final(out)@ == old(out)@ + joined(ts@.map_values(|t: String| t@)),
{
    let ghost all = ts@.map_values(|t: String| t@);
    let mut i: usize = 0;
    while i < ts.len()
        invariant
            i <= ts@.len(),
            all == ts@.map_values(|t: String| t@),
            out@ == old(out)@ + joined(all.subrange(0, i as int)),
        decreases ts@.len() - i,
    {
        proof {
            reveal_strlit(",");
            assert(","@ =~= seq![',']);
        }
        let ghost before = out@;
        if i > 0 {
            push_str(out, ",");
        }
        let ghost mid = out@;
        push_str(out, ts[i].as_str());
        proof {
            let next = all.subrange(0, i + 1);
            assert(next.drop_last() =~= all.subrange(0, i as int));
            assert(next.last() == ts@[i as int]@);
            if i == 0 {
                assert(next =~= seq![ts@[0]@]);
            } else {
                assert(mid == before + seq![',']);
            }
        }
        assert(out@ =~= old(out)@ + joined(all.subrange(0, i + 1)));
        i = i + 1;
    }
    assert(all.subrange(0, all.len() as int) =~= all);
}

/// What follows the sequence number on the line of an instruction.
pub open spec fn instruction_tail(i: Instruction) -> Seq<char> {
    match i {
        Instruction::SetNetlist(nets) => bracketed(joined(nets@.map_values(|t: String| t@))),
        Instruction::SetBridgelist(b) => bracketed(bridges_text(b@)),
        Instruction::SetSupplySwitch(p) => bracketed(supply_text(p)),
        Instruction::Lightnet(name, c) => bracketed(
            name@ + seq![':', ' ', '0', 'x'] + hex_text(c.0[0]) + hex_text(c.0[1]) + hex_text(
                c.0[2],
            ),
        ),
        Instruction::Raw(_, args) => bracketed(args@),
        _ => bracketed(Seq::empty()),
    }
}

/// The line of an instruction: `::<name>:<seq>` and its tail.
pub open spec fn instruction_line(i: Instruction, seq: u32) -> Seq<char> {
    seq![':', ':'] + instruction_name(i) + seq![':'] + decimal_text(seq as nat) + instruction_tail(i)
}

/// Appends `a-b` pairs joined by `,`.
fn push_bridges(out: &mut String, b: &Bridgelist)
    ensures
        final(out)@ == old(out)@ + bridges_text(b@),
{
    let mut i: usize = 0;
    while i < b.len()
        invariant
            i <= b@.len(),
            out@ == old(out)@ + bridges_text(b@.subrange(0, i as int)),
        decreases b@.len() - i,
    {
        proof {
            reveal_strlit("-");
            reveal_strlit(",");
            assert("-"@ =~= seq!['-']);
            assert(","@ =~= seq![',']);
        }
        let ghost before = out@;
        if i > 0 {
            push_str(out, ",");
        }
        let ghost mid = out@;
        let a = b[i].0.to_string();
        push_str(out, a.as_str());
        push_str(out, "-");
        let z = b[i].1.to_string();
        push_str(out, z.as_str());
        proof {
            let next = b@.subrange(0, i + 1);
            assert(next.drop_last() =~= b@.subrange(0, i as int));
            assert(next.last() == b@[i as int]);
            if i == 0 {
                assert(mid == before);
            } else {
                assert(mid == before + seq![',']);
            }
        }
        assert(out@ =~= old(out)@ + bridges_text(b@.subrange(0, i + 1)));
        i = i + 1;
    }
    assert(b@.subrange(0, b@.len() as int) =~= b@);
}

impl Instruction {
    /// The line for this instruction with the given sequence number.
    pub fn generate(&self, sequence_number: u32) -> (r: String)
        ensures
            r@ == instruction_line(*self, sequence_number),
    {
        proof {
            reveal_strlit("::");
            reveal_strlit(":");
            reveal_strlit("[");
            reveal_strlit("]");
            reveal_strlit(": 0x");
            assert("::"@ =~= seq![':', ':']);
            assert(":"@ =~= seq![':']);
            assert("["@ =~= seq!['[']);
            assert("]"@ =~= seq![']']);
            assert(": 0x"@ =~= seq![':', ' ', '0', 'x']);
        }
        let mut line = String::new();
        push_str(&mut line, "::");
        let name: &str = match self {
            Instruction::GetNetlist => "getnetlist",
            Instruction::SetNetlist(_) => "netlist",
            Instruction::GetBridgelist => "getbridgelist",
            Instruction::SetBridgelist(_) => "bridgelist",
            Instruction::GetSupplySwitch => "getsupplyswitch",
            Instruction::SetSupplySwitch(_) => "setsupplyswitch",
            Instruction::Lightnet(_, _) => "lightnet",
            Instruction::GetChipStatus => "getchipstatus",
            Instruction::Raw(n, _) => n.as_str(),
        };
        push_str(&mut line, name);
        push_str(&mut line, ":");
        push_decimal(&mut line, sequence_number);
        let ghost head = line@;
        match self {
            Instruction::SetNetlist(nets) => {
                push_str(&mut line, "[");
                push_joined(&mut line, nets);
                push_str(&mut line, "]");
            },
            Instruction::SetBridgelist(b) => {
                push_str(&mut line, "[");
                push_bridges(&mut line, b);
                push_str(&mut line, "]");
            },
            Instruction::SetSupplySwitch(p) => {
                push_str(&mut line, "[");
                let t = p.to_string();
                push_str(&mut line, t.as_str());
                push_str(&mut line, "]");
            },
            Instruction::Lightnet(n, c) => {
                push_str(&mut line, "[");
                push_str(&mut line, n.as_str());
                push_str(&mut line, ": 0x");
                push_hex_byte(&mut line, c.0[0]);
                push_hex_byte(&mut line, c.0[1]);
                push_hex_byte(&mut line, c.0[2]);
                push_str(&mut line, "]");
            },
            Instruction::Raw(_, args) => {
                push_str(&mut line, "[");
                push_str(&mut line, args.as_str());
                push_str(&mut line, "]");
            },
            _ => {
                push_str(&mut line, "[");
                push_str(&mut line, "]");
            },
        }
        assert(line@ =~= head + instruction_tail(*self));
        assert(line@ =~= instruction_line(*self, sequence_number));
        line
    }
}

/// Hands out sequence numbers: 1 first, then each one more than the last.
pub struct SequenceCounter {
    last: u32,
}

impl SequenceCounter {
    pub closed spec fn last_issued(&self) -> nat {
        self.last as nat
    }

    /// A counter that has issued nothing yet.
    pub fn new() -> (r: SequenceCounter)
        ensures
            r.last_issued() == 0,
    {
        SequenceCounter { last: 0 }
    }

    /// The next sequence number, or `None` once every 32-bit number has been
    /// issued.
    pub fn next(&mut self) -> (r: Option<u32>)
        ensures
            old(self).last_issued() < u32::MAX ==> r == Some((old(self).last_issued() + 1) as u32)
                && final(self).last_issued() == old(self).last_issued() + 1,
            old(self).last_issued() >= u32::MAX ==> r is None && final(self).last_issued()
                == old(self).last_issued(),
    {
        if self.last == u32::MAX {
            None
        } else {
            self.last = self.last + 1;
            Some(self.last)
        }
    }
}

/// The name and sequence number at the head of an outgoing line,
/// `::<name>:<seq>`, where the name runs to the first `:`.
pub open spec fn line_header(s: Seq<char>) -> Option<(Seq<char>, u32)> {
    if tag_at(s, 0, seq![':', ':']) {
        let e = scan_to(s, 2, seq![':']);
        if e < s.len() {
            match number_at(s, e + 1, u32::MAX as nat) {
                Some((_, v)) => Some((s.subrange(2, e), v as u32)),
                None => None,
            }
        } else {
            None
        }
    } else {
        None
    }
}

/// Reads the name and sequence number at the head of an outgoing line.
pub fn instruction_header(line: &str) -> (r: Option<(String, u32)>)
    ensures
        match r {
            Some((name, n)) => line_header(line@) == Some((name@, n)),
            None => line_header(line@) is None,
        },
{
    proof {
        reveal_strlit("::");
        reveal_strlit(":");
        assert("::"@ =~= seq![':', ':']);
        assert(":"@ =~= seq![':']);
    }
    let v = chars_of(line);
    let n = v.len();
    let tag = chars_of("::");
    if !crate::text::starts_with_at(&v, 0, &tag) {
        return None;
    }
    let stops = chars_of(":");
    let e = scan_colon(&v, 2, &stops);
    if e >= n {
        return None;
    }
    let d = scan_digit_run(&v, e + 1);
    if d == e + 1 {
        return None;
    }
    match read_digits(&v, e + 1, d, 4294967295) {
        Some(x) => Some((string_of(&v, 2, e), x)),
        None => None,
    }
}

fn scan_colon(v: &Vec<char>, pos: usize, stops: &Vec<char>) -> (r: usize)
    requires
        pos <= v@.len(),
        stops@ == seq![':'],
    ensures
        r == scan_to(v@, pos as int, seq![':']),
        pos <= r <= v@.len(),
{
    let n = v.len();
    let mut i = pos;
    proof {
        crate::parser::lemma_scan_to(v@, pos as int, seq![':']);
    }
    while i < n && v[i] != ':'
        invariant
            n == v@.len(),
            pos <= i <= n,
            scan_to(v@, i as int, seq![':']) == scan_to(v@, pos as int, seq![':']),
        decreases n - i,
    {
        assert(!seq![':'].contains(v@[i as int]));
        i = i + 1;
    }
    if i < n {
        assert(seq![':'][0] == v@[i as int]);
    }
    i
}

fn scan_digit_run(v: &Vec<char>, pos: usize) -> (r: usize)
    requires
        pos <= v@.len(),
    ensures
        r == digits_end(v@, pos as int),
        pos <= r <= v@.len(),
        all_digits(v@.subrange(pos as int, r as int)),
{
    let n = v.len();
    let mut i = pos;
    proof {
        crate::parser::lemma_digits_end(v@, pos as int);
    }
    while i < n && '0' <= v[i] && v[i] <= '9'
        invariant
            n == v@.len(),
            pos <= i <= n,
            digits_end(v@, i as int) == digits_end(v@, pos as int),
        decreases n - i,
    {
        i = i + 1;
    }
    i
}

proof fn lemma_scan_to_reaches(s: Seq<char>, pos: int, e: int, stops: Seq<char>)
    requires
        0 <= pos <= e <= s.len(),
        forall|k: int| pos <= k < e ==> !stops.contains(#[trigger] s[k]),
        e < s.len() ==> stops.contains(s[e]),
    ensures
        scan_to(s, pos, stops) == e,
    decreases e - pos,
{
    if pos < e {
        lemma_scan_to_reaches(s, pos + 1, e, stops);
    }
}

proof fn lemma_digits_end_reaches(s: Seq<char>, pos: int, e: int)
    requires
        0 <= pos <= e <= s.len(),
        forall|k: int| pos <= k < e ==> is_digit(#[trigger] s[k]),
        e < s.len() ==> !is_digit(s[e]),
    ensures
        digits_end(s, pos) == e,
    decreases e - pos,
{
    if pos < e {
        lemma_digits_end_reaches(s, pos + 1, e);
    }
}

/// An instruction whose line can be read back: a raw command name holds no
/// `:`.
pub open spec fn is_valid_instruction(i: Instruction) -> bool {
    match i {
        Instruction::Raw(name, _) => forall|k: int| 0 <= k < name@.len() ==> name@[k] != ':',
        _ => true,
    }
}

/// The name of every instruction but a raw one is a fixed word without `:`.
proof fn lemma_name_has_no_colon(i: Instruction)
    requires
        is_valid_instruction(i),
    ensures
        forall|k: int| 0 <= k < instruction_name(i).len() ==> instruction_name(i)[k] != ':',
{
    reveal_strlit("getnetlist");
    reveal_strlit("netlist");
    reveal_strlit("getbridgelist");
    reveal_strlit("bridgelist");
    reveal_strlit("getsupplyswitch");
    reveal_strlit("setsupplyswitch");
    reveal_strlit("lightnet");
    reveal_strlit("getchipstatus");
}

/// Formatting an instruction with a sequence number and reading the head of
/// the line back gives the instruction's name and the same sequence number.
pub proof fn lemma_sequence_round_trip(i: Instruction, seq: u32)
    requires
        is_valid_instruction(i),
    ensures
        line_header(instruction_line(i, seq)) == Some((instruction_name(i), seq)),
{
    let name = instruction_name(i);
    let dec = decimal_text(seq as nat);
    let tail = instruction_tail(i);
    let s = instruction_line(i, seq);
    lemma_name_has_no_colon(i);
    lemma_decimal_text(seq as nat);
    let e: int = 2 + name.len() as int;
    let d: int = e + 1 + dec.len() as int;
    assert(s.subrange(0, 2) =~= seq![':', ':']);
    assert forall|k: int| 2 <= k < e implies !seq![':'].contains(#[trigger] s[k]) by {
        assert(s[k] == name[k - 2]);
    }
    assert(s[e] == ':');
    assert(seq![':'][0] == s[e]);
    lemma_scan_to_reaches(s, 2, e, seq![':']);
    assert forall|k: int| e + 1 <= k < d implies is_digit(#[trigger] s[k]) by {
        assert(s[k] == dec[k - e - 1]);
    }
    assert(tail.len() > 0 && tail[0] == '[');
    assert(s[d] == tail[0]);
    lemma_digits_end_reaches(s, e + 1, d);
    assert(s.subrange(e + 1, d) =~= dec);
    assert(s.subrange(2, e) =~= name);
}

/// An acknowledgement line `::ok:<seq>` or `::error:<seq>` reads back as the
/// acknowledgement of that same sequence number.
pub proof fn lemma_acknowledgement_round_trip(seq: u32)
    ensures
        line_message(seq![':', ':', 'o', 'k', ':'] + decimal_text(seq as nat)) == Some(
            MessageModel::Ack(Some(seq)),
        ),
        line_message(seq![':', ':', 'e', 'r', 'r', 'o', 'r', ':'] + decimal_text(seq as nat))
            == Some(MessageModel::Error(Some(seq))),
{
    let dec = decimal_text(seq as nat);
    lemma_decimal_text(seq as nat);
    let s = seq![':', ':', 'o', 'k', ':'] + dec;
    assert(s.subrange(0, 4) =~= crate::parser::ok_tag());
    assert forall|k: int| 5 <= k < s.len() implies is_digit(#[trigger] s[k]) by {
        assert(s[k] == dec[k - 5]);
    }
    lemma_digits_end_reaches(s, 5, s.len() as int);
    assert(s.subrange(5, s.len() as int) =~= dec);
    let t = seq![':', ':', 'e', 'r', 'r', 'o', 'r', ':'] + dec;
    assert(t.subrange(0, 4) != crate::parser::ok_tag()) by {
        assert(t.subrange(0, 4)[2] == 'e');
    }
    assert(t.subrange(0, 7) =~= crate::parser::error_tag());
    assert forall|k: int| 8 <= k < t.len() implies is_digit(#[trigger] t[k]) by {
        assert(t[k] == dec[k - 8]);
    }
    lemma_digits_end_reaches(t, 8, t.len() as int);
    assert(t.subrange(8, t.len() as int) =~= dec);
}

} // verus!
