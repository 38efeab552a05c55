//! The wire grammar of lines that the board sends. Every protocol line starts
//! with `::`; each shape is parsed left to right, and a line is a message only
//! when the first shape that fits its start also reaches its end.
use vstd::prelude::*;
use crate::text::{
    all_digits, chars_of, digits_value, is_digit, read_digits, starts_with_at, string_of,
};
use crate::types::{
    color_at, color_bytes, parse_node, Bridgelist, ChipStatus, Color, Message, MessageModel, Net,
    NetModel, Node, SupplySwitchPos,
};

verus! {

/// A line, or a part of one, that does not fit the grammar.
#[derive(Debug, Clone, Copy, PartialEq, Eq, Structural)]
pub struct ParseError;

pub open spec fn tag_at(s: Seq<char>, pos: int, t: Seq<char>) -> bool {
    0 <= pos && pos + t.len() <= s.len() && s.subrange(pos, pos + t.len()) == t
}

pub open spec fn char_at(s: Seq<char>, pos: int, c: char) -> bool {
    0 <= pos < s.len() && s[pos] == c
}

/// The first position at or after `pos` that holds one of `stops`, or the end.
pub open spec fn scan_to(s: Seq<char>, pos: int, stops: Seq<char>) -> int
    decreases s.len() - pos,
{
    if pos < 0 || pos >= s.len() {
        s.len() as int
    } else if stops.contains(s[pos]) {
        pos
    } else {
        scan_to(s, pos + 1, stops)
    }
}

/// The first position at or after `pos` that holds no decimal digit.
pub open spec fn digits_end(s: Seq<char>, pos: int) -> int
    decreases s.len() - pos,
{
    if pos < 0 || pos >= s.len() {
        s.len() as int
    } else if !is_digit(s[pos]) {
        pos
    } else {
        digits_end(s, pos + 1)
    }
}

/// An unsigned number at `pos`: the longest run of digits, at least one, with
/// a value of at most `limit`.
pub open spec fn number_at(s: Seq<char>, pos: int, limit: nat) -> Option<(int, nat)> {
    let e = digits_end(s, pos);
    if e > pos && digits_value(s.subrange(pos, e)) <= limit {
        Some((e, digits_value(s.subrange(pos, e))))
    } else {
        None
    }
}

/// An optional `:<u32>` suffix.
pub open spec fn seq_number_at(s: Seq<char>, pos: int) -> Option<(int, Option<u32>)> {
    if char_at(s, pos, ':') {
        match number_at(s, pos + 1, u32::MAX as nat) {
            Some((e, v)) => Some((e, Some(v as u32))),
            None => None,
        }
    } else {
        Some((pos, None))
    }
}

pub open spec fn token_stops() -> Seq<char> {
    seq![';', ',', '-', ']']
}

/// A node token: the text up to the next `;`, `,`, `-` or `]`.
pub open spec fn node_at(s: Seq<char>, pos: int) -> Option<(int, Node)> {
    let e = scan_to(s, pos, token_stops());
    match parse_node(s.subrange(pos, e)) {
        Some(n) => Some((e, n)),
        None => None,
    }
}

/// Further `;`-separated nodes after the first; stops before a `;` that is
/// not followed by a node.
pub open spec fn nodes_more(s: Seq<char>, pos: int) -> (int, Seq<Node>)
    decreases s.len() - pos,
{
    if char_at(s, pos, ';') {
        match node_at(s, pos + 1) {
            Some((e, n)) => if pos < e <= s.len() {
                (nodes_more(s, e).0, seq![n] + nodes_more(s, e).1)
            } else {
                (pos, Seq::empty())
            },
            None => (pos, Seq::empty()),
        }
    } else {
        (pos, Seq::empty())
    }
}

/// One or more nodes separated by `;`.
pub open spec fn nodes_at(s: Seq<char>, pos: int) -> Option<(int, Seq<Node>)> {
    match node_at(s, pos) {
        Some((e, n)) => Some((nodes_more(s, e).0, seq![n] + nodes_more(s, e).1)),
        None => None,
    }
}

/// A bridge `a-b`.
pub open spec fn bridge_at(s: Seq<char>, pos: int) -> Option<(int, (Node, Node))> {
    match node_at(s, pos) {
        Some((e1, a)) => if char_at(s, e1, '-') {
            match node_at(s, e1 + 1) {
                Some((e2, b)) => Some((e2, (a, b))),
                None => None,
            }
        } else {
            None
        },
        None => None,
    }
}

/// Further `,`-separated bridges after the first.
pub open spec fn bridges_more(s: Seq<char>, pos: int) -> (int, Seq<(Node, Node)>)
    decreases s.len() - pos,
{
    if char_at(s, pos, ',') {
        match bridge_at(s, pos + 1) {
            Some((e, b)) => if pos < e <= s.len() {
                (bridges_more(s, e).0, seq![b] + bridges_more(s, e).1)
            } else {
                (pos, Seq::empty())
            },
            None => (pos, Seq::empty()),
        }
    } else {
        (pos, Seq::empty())
    }
}

/// Zero or more bridges separated by `,`.
pub open spec fn bridges_at(s: Seq<char>, pos: int) -> (int, Seq<(Node, Node)>) {
    match bridge_at(s, pos) {
        Some((e, b)) => (bridges_more(s, e).0, seq![b] + bridges_more(s, e).1),
        None => (pos, Seq::empty()),
    }
}

pub open spec fn bool_at(s: Seq<char>, pos: int) -> Option<(int, bool)> {
    if tag_at(s, pos, seq!['t', 'r', 'u', 'e']) {
        Some((pos + 4, true))
    } else if tag_at(s, pos, seq!['f', 'a', 'l', 's', 'e']) {
        Some((pos + 5, false))
    } else {
        None
    }
}

/// Six characters read as three lenient hexadecimal pairs.
pub open spec fn color_spec_at(s: Seq<char>, pos: int) -> Option<(int, Seq<u8>)> {
    if 0 <= pos && pos + 6 <= s.len() {
        Some((pos + 6, color_bytes(s.subrange(pos, s.len() as int))))
    } else {
        None
    }
}

/// Free text up to the next `]`.
pub open spec fn text_at(s: Seq<char>, pos: int) -> (int, Seq<char>) {
    let e = scan_to(s, pos, seq![']']);
    (e, s.subrange(pos, e))
}

pub open spec fn net_tag() -> Seq<char> {
    seq![':', ':', 'n', 'e', 't', '[']
}

/// `::net[index,number,nodes,special,rrggbb,machine,name]`.
pub open spec fn net_at(s: Seq<char>) -> Option<(int, NetModel)> {
    if !tag_at(s, 0, net_tag()) {
        None
    } else {
        match number_at(s, 6, 255) {
            None => None,
            Some((at2, index)) => if !char_at(s, at2, ',') {
                None
            } else {
                match number_at(s, at2 + 1, 255) {
                    None => None,
                    Some((at3, number)) => if !char_at(s, at3, ',') {
                        None
                    } else {
                        match nodes_at(s, at3 + 1) {
                            None => None,
                            Some((at4, nodes)) => if !char_at(s, at4, ',') {
                                None
                            } else {
                                match bool_at(s, at4 + 1) {
                                    None => None,
                                    Some((at5, special)) => if !char_at(s, at5, ',') {
                                        None
                                    } else {
                                        match color_spec_at(s, at5 + 1) {
                                            None => None,
                                            Some((at6, color)) => if !char_at(s, at6, ',') {
                                                None
                                            } else {
                                                match bool_at(s, at6 + 1) {
                                                    None => None,
                                                    Some((at7, machine)) => if !char_at(
                                                        s,
                                                        at7,
                                                        ',',
                                                    ) {
                                                        None
                                                    } else {
                                                        let (at8, name) = text_at(s, at7 + 1);
                                                        if char_at(s, at8, ']') {
                                                            Some(
                                                                (
                                                                    at8 + 1,
                                                                    NetModel {
                                                                        index: index as u8,
                                                                        number: number as u8,
                                                                        nodes,
                                                                        special,
                                                                        color,
                                                                        machine,
                                                                        name,
                                                                    },
                                                                ),
                                                            )
                                                        } else {
                                                            None
                                                        }
                                                    },
                                                }
                                            },
                                        }
                                    },
                                }
                            },
                        }
                    },
                }
            },
        }
    }
}

pub open spec fn ok_tag() -> Seq<char> {
    seq![':', ':', 'o', 'k']
}

pub open spec fn error_tag() -> Seq<char> {
    seq![':', ':', 'e', 'r', 'r', 'o', 'r']
}

pub open spec fn netlist_begin_tag() -> Seq<char> {
    seq![':', ':', 'n', 'e', 't', 'l', 'i', 's', 't', '-', 'b', 'e', 'g', 'i', 'n']
}

pub open spec fn netlist_end_tag() -> Seq<char> {
    seq![':', ':', 'n', 'e', 't', 'l', 'i', 's', 't', '-', 'e', 'n', 'd']
}

pub open spec fn bridgelist_tag() -> Seq<char> {
    seq![':', ':', 'b', 'r', 'i', 'd', 'g', 'e', 'l', 'i', 's', 't', '[']
}

pub open spec fn supplyswitch_tag() -> Seq<char> {
    seq![':', ':', 's', 'u', 'p', 'p', 'l', 'y', 's', 'w', 'i', 't', 'c', 'h', '[']
}

pub open spec fn chipstatus_begin_tag() -> Seq<char> {
    seq![':', ':', 'c', 'h', 'i', 'p', 's', 't', 'a', 't', 'u', 's', '-', 'b', 'e', 'g', 'i', 'n']
}

pub open spec fn chipstatus_end_tag() -> Seq<char> {
    seq![':', ':', 'c', 'h', 'i', 'p', 's', 't', 'a', 't', 'u', 's', '-', 'e', 'n', 'd']
}

pub open spec fn chipstatus_tag() -> Seq<char> {
    seq![':', ':', 'c', 'h', 'i', 'p', 's', 't', 'a', 't', 'u', 's', '[']
}

/// `::ok` with an optional `:<seq>`.
pub open spec fn ok_at(s: Seq<char>) -> Option<(int, Option<u32>)> {
    if tag_at(s, 0, ok_tag()) {
        seq_number_at(s, 4)
    } else {
        None
    }
}

/// `::error` with an optional `:<seq>`.
pub open spec fn error_at(s: Seq<char>) -> Option<(int, Option<u32>)> {
    if tag_at(s, 0, error_tag()) {
        seq_number_at(s, 7)
    } else {
        None
    }
}

pub open spec fn bridgelist_at(s: Seq<char>) -> Option<(int, Seq<(Node, Node)>)> {
    if tag_at(s, 0, bridgelist_tag()) {
        let (e, b) = bridges_at(s, 13);
        if char_at(s, e, ']') {
            Some((e + 1, b))
        } else {
            None
        }
    } else {
        None
    }
}

pub open spec fn supply_pos_at(s: Seq<char>, pos: int) -> Option<(int, SupplySwitchPos)> {
    if tag_at(s, pos, seq!['3', '.', '3', 'V']) {
        Some((pos + 4, SupplySwitchPos::V3_3))
    } else if tag_at(s, pos, seq!['5', 'V']) {
        Some((pos + 2, SupplySwitchPos::V5))
    } else if tag_at(s, pos, seq!['8', 'V']) {
        Some((pos + 2, SupplySwitchPos::V8))
    } else {
        None
    }
}

pub open spec fn supplyswitch_at(s: Seq<char>) -> Option<(int, SupplySwitchPos)> {
    if tag_at(s, 0, supplyswitch_tag()) {
        match supply_pos_at(s, 15) {
            Some((e, p)) => if char_at(s, e, ']') {
                Some((e + 1, p))
            } else {
                None
            },
            None => None,
        }
    } else {
        None
    }
}

pub open spec fn chipstatus_at(s: Seq<char>) -> Option<(int, Seq<char>)> {
    if tag_at(s, 0, chipstatus_tag()) {
        let (e, t) = text_at(s, 13);
        if char_at(s, e, ']') {
            Some((e + 1, t))
        } else {
            None
        }
    } else {
        None
    }
}

/// The first shape that fits the start of the line, and where it ends.
pub open spec fn first_shape(s: Seq<char>) -> Option<(int, MessageModel)> {
    match ok_at(s) {
        Some((e, n)) => Some((e, MessageModel::Ack(n))),
        None => match error_at(s) {
            Some((e, n)) => Some((e, MessageModel::Error(n))),
            None => if tag_at(s, 0, netlist_begin_tag()) {
                Some((15, MessageModel::NetlistBegin))
            } else if tag_at(s, 0, netlist_end_tag()) {
                Some((13, MessageModel::NetlistEnd))
            } else {
                match net_at(s) {
                    Some((e, net)) => Some((e, MessageModel::Net(net))),
                    None => match bridgelist_at(s) {
                        Some((e, b)) => Some((e, MessageModel::Bridgelist(b))),
                        None => match supplyswitch_at(s) {
                            Some((e, p)) => Some((e, MessageModel::SupplySwitch(p))),
                            None => if tag_at(s, 0, chipstatus_begin_tag()) {
                                Some((18, MessageModel::ChipStatusBegin))
                            } else if tag_at(s, 0, chipstatus_end_tag()) {
                                Some((16, MessageModel::ChipStatusEnd))
                            } else {
                                match chipstatus_at(s) {
                                    Some((e, t)) => Some((e, MessageModel::ChipStatus(t))),
                                    None => None,
                                }
                            },
                        },
                    },
                }
            },
        },
    }
}

/// The message that a whole line holds, if any.
pub open spec fn line_message(s: Seq<char>) -> Option<MessageModel> {
    match first_shape(s) {
        Some((e, m)) => if e == s.len() {
            Some(m)
        } else {
            None
        },
        None => None,
    }
}

/// A line read as a message, or kept whole as unrecognized.
pub open spec fn line_model(s: Seq<char>) -> MessageModel {
    match line_message(s) {
        Some(m) => m,
        None => MessageModel::Unrecognized(s),
    }
}

pub proof fn lemma_scan_to(s: Seq<char>, pos: int, stops: Seq<char>)
    requires
        0 <= pos <= s.len(),
    ensures
        pos <= scan_to(s, pos, stops) <= s.len(),
        forall|k: int| pos <= k < scan_to(s, pos, stops) ==> !stops.contains(#[trigger] s[k]),
        scan_to(s, pos, stops) < s.len() ==> stops.contains(s[scan_to(s, pos, stops)]),
    decreases s.len() - pos,
{
    if pos < s.len() && !stops.contains(s[pos]) {
        lemma_scan_to(s, pos + 1, stops);
    }
}

pub proof fn lemma_digits_end(s: Seq<char>, pos: int)
    requires
        0 <= pos <= s.len(),
    ensures
        pos <= digits_end(s, pos) <= s.len(),
        all_digits(s.subrange(pos, digits_end(s, pos))),
    decreases s.len() - pos,
{
    if pos < s.len() && is_digit(s[pos]) {
        lemma_digits_end(s, pos + 1);
        let e = digits_end(s, pos);
        assert forall|k: int| 0 <= k < e - pos implies is_digit(#[trigger] s.subrange(pos, e)[k]) by {
            if k > 0 {
                assert(s.subrange(pos, e)[k] == s.subrange(pos + 1, e)[k - 1]);
            }
        }
    }
}

fn contains_char(stops: &Vec<char>, c: char) -> (r: bool)
    ensures
        r == stops@.contains(c),
{
    let mut i: usize = 0;
    while i < stops.len()
        invariant
            i <= stops@.len(),
            forall|k: int| 0 <= k < i ==> stops@[k] != c,
        decreases stops@.len() - i,
    {
        if stops[i] == c {
            return true;
        }
        i = i + 1;
    }
    false
}

fn scan_to_stop(v: &Vec<char>, pos: usize, stops: &Vec<char>) -> (r: usize)
    requires
        pos <= v@.len(),
    ensures
        r == scan_to(v@, pos as int, stops@),
        pos <= r <= v@.len(),
{
    let n = v.len();
    let mut i = pos;
    proof {
        lemma_scan_to(v@, pos as int, stops@);
    }
    while i < n && !contains_char(stops, v[i])
        invariant
            n == v@.len(),
            pos <= i <= n,
            scan_to(v@, i as int, stops@) == scan_to(v@, pos as int, stops@),
        decreases n - i,
    {
        i = i + 1;
    }
    i
}

fn scan_digits(v: &Vec<char>, pos: usize) -> (r: usize)
    requires
        pos <= v@.len(),
    ensures
        r == digits_end(v@, pos as int),
        pos <= r <= v@.len(),
{
    let n = v.len();
    let mut i = pos;
    proof {
        lemma_digits_end(v@, pos as int);
    }
    while i < n && '0' <= v[i] && v[i] <= '9'
        invariant
            n == v@.len(),
            pos <= i <= n,
            digits_end(v@, i as int) == digits_end(v@, pos as int),
        decreases n - i,
    {
        i = i + 1;
    }
    i
}

fn number_at_exec(v: &Vec<char>, pos: usize, limit: u32) -> (r: Option<(usize, u32)>)
    requires
        pos <= v@.len(),
    ensures
        match r {
            Some((e, x)) => number_at(v@, pos as int, limit as nat) == Some((e as int, x as nat)),
            None => number_at(v@, pos as int, limit as nat) is None,
        },
{
    let e = scan_digits(v, pos);
    proof {
        lemma_digits_end(v@, pos as int);
    }
    if e == pos {
        return None;
    }
    match read_digits(v, pos, e, limit) {
        Some(x) => Some((e, x)),
        None => None,
    }
}

/// Whether `t` stands at `pos`.
fn tag_exec(v: &Vec<char>, pos: usize, t: &str) -> (r: bool)
    requires
        pos <= v@.len(),
    ensures
        r == tag_at(v@, pos as int, t@),
{
    let tc = chars_of(t);
    starts_with_at(v, pos, &tc)
}

fn char_exec(v: &Vec<char>, pos: usize, c: char) -> (r: bool)
    ensures
        r == char_at(v@, pos as int, c),
{
    pos < v.len() && v[pos] == c
}

fn node_at_exec(v: &Vec<char>, pos: usize, stops: &Vec<char>) -> (r: Option<(usize, Node)>)
    requires
        pos <= v@.len(),
        stops@ == token_stops(),
    ensures
        match r {
            Some((e, n)) => node_at(v@, pos as int) == Some((e as int, n)) && pos <= e <= v@.len(),
            None => node_at(v@, pos as int) is None,
        },
{
    let e = scan_to_stop(v, pos, stops);
    let t = string_of(v, pos, e);
    match Node::parse(t.as_str()) {
        Ok(n) => Some((e, n)),
        Err(_) => None,
    }
}

fn token_stop_chars() -> (r: Vec<char>)
    ensures
        r@ == token_stops(),
{
    proof {
        reveal_strlit(";,-]");
    }
    let r = chars_of(";,-]");
    assert(r@ =~= token_stops());
    r
}

fn nodes_at_exec(v: &Vec<char>, pos: usize) -> (r: Option<(usize, Vec<Node>)>)
    requires
        pos <= v@.len(),
    ensures
        match r {
            Some((e, ns)) => nodes_at(v@, pos as int) == Some((e as int, ns@)) && e <= v@.len(),
            None => nodes_at(v@, pos as int) is None,
        },
{
    let stops = token_stop_chars();
    let (e0, first) = match node_at_exec(v, pos, &stops) {
        Some(x) => x,
        None => return None,
    };
    let ghost s = v@;
    let n = v.len();
    let mut out: Vec<Node> = Vec::new();
    out.push(first);
    let mut i = e0;
    loop
        invariant
            s == v@,
            n == v@.len(),
            stops@ == token_stops(),
            e0 <= i <= v@.len(),
            out@.len() >= 1,
            out@[0] == first,
            nodes_more(s, e0 as int).0 == nodes_more(s, i as int).0,
            nodes_more(s, e0 as int).1 == out@.drop_first() + nodes_more(s, i as int).1,
        ensures
            nodes_more(s, i as int) == (i as int, Seq::<Node>::empty()),
            e0 <= i <= v@.len(),
            out@.len() >= 1,
            out@[0] == first,
            nodes_more(s, e0 as int).0 == nodes_more(s, i as int).0,
            nodes_more(s, e0 as int).1 == out@.drop_first() + nodes_more(s, i as int).1,
        decreases v@.len() - i,
    {
        if !char_exec(v, i, ';') {
            break;
        }
        match node_at_exec(v, i + 1, &stops) {
            Some((e, node)) => {
                if e <= i {
                    break;
                }
                let ghost before = out@;
                out.push(node);
                assert(out@.drop_first() =~= before.drop_first().push(node));
                assert(before.drop_first() + nodes_more(s, i as int).1 =~= out@.drop_first()
                    + nodes_more(s, e as int).1);
                i = e;
            },
            None => {
                break;
            },
        }
    }
    assert(nodes_more(s, i as int).1 =~= Seq::<Node>::empty());
    assert(seq![first] + nodes_more(s, e0 as int).1 =~= out@);
    Some((i, out))
}

fn bridge_at_exec(v: &Vec<char>, pos: usize, stops: &Vec<char>) -> (r: Option<(usize, (Node, Node))>)
    requires
        pos <= v@.len(),
        stops@ == token_stops(),
    ensures
        match r {
            Some((e, b)) => bridge_at(v@, pos as int) == Some((e as int, b)) && pos <= e <= v@.len(),
            None => bridge_at(v@, pos as int) is None,
        },
{
    let (e1, a) = match node_at_exec(v, pos, stops) {
        Some(x) => x,
        None => return None,
    };
    let n = v.len();
    if !char_exec(v, e1, '-') {
        return None;
    }
    assert(e1 < n);
    match node_at_exec(v, e1 + 1, stops) {
        Some((e2, b)) => Some((e2, (a, b))),
        None => None,
    }
}

fn bridges_at_exec(v: &Vec<char>, pos: usize) -> (r: (usize, Vec<(Node, Node)>))
    requires
        pos <= v@.len(),
    ensures
        bridges_at(v@, pos as int) == (r.0 as int, r.1@),
        r.0 <= v@.len(),
{
    let stops = token_stop_chars();
    let (e0, first) = match bridge_at_exec(v, pos, &stops) {
        Some(x) => x,
        None => return (pos, Vec::new()),
    };
    let ghost s = v@;
    let n = v.len();
    let mut out: Vec<(Node, Node)> = Vec::new();
    out.push(first);
    let mut i = e0;
    loop
        invariant
            s == v@,
            n == v@.len(),
            stops@ == token_stops(),
            e0 <= i <= v@.len(),
            out@.len() >= 1,
            out@[0] == first,
            bridges_more(s, e0 as int).0 == bridges_more(s, i as int).0,
            bridges_more(s, e0 as int).1 == out@.drop_first() + bridges_more(s, i as int).1,
        ensures
            bridges_more(s, i as int) == (i as int, Seq::<(Node, Node)>::empty()),
            e0 <= i <= v@.len(),
            out@.len() >= 1,
            out@[0] == first,
            bridges_more(s, e0 as int).0 == bridges_more(s, i as int).0,
            bridges_more(s, e0 as int).1 == out@.drop_first() + bridges_more(s, i as int).1,
        decreases v@.len() - i,
    {
        if !char_exec(v, i, ',') {
            break;
        }
        match bridge_at_exec(v, i + 1, &stops) {
            Some((e, b)) => {
                if e <= i {
                    break;
                }
                let ghost before = out@;
                out.push(b);
                assert(out@.drop_first() =~= before.drop_first().push(b));
                assert(before.drop_first() + bridges_more(s, i as int).1 =~= out@.drop_first()
                    + bridges_more(s, e as int).1);
                i = e;
            },
            None => {
                break;
            },
        }
    }
    assert(bridges_more(s, i as int).1 =~= Seq::<(Node, Node)>::empty());
    assert(seq![first] + bridges_more(s, e0 as int).1 =~= out@);
    (i, out)
}

fn bool_at_exec(v: &Vec<char>, pos: usize) -> (r: Option<(usize, bool)>)
    requires
        pos <= v@.len(),
    ensures
        match r {
            Some((e, b)) => bool_at(v@, pos as int) == Some((e as int, b)) && e <= v@.len(),
            None => bool_at(v@, pos as int) is None,
        },
{
    let len = v.len();
    proof {
        reveal_strlit("true");
        reveal_strlit("false");
        assert("true"@ =~= seq!['t', 'r', 'u', 'e']);
        assert("false"@ =~= seq!['f', 'a', 'l', 's', 'e']);
    }
    if tag_exec(v, pos, "true") {
        Some((pos + 4, true))
    } else if tag_exec(v, pos, "false") {
        Some((pos + 5, false))
    } else {
        None
    }
}

fn color_at_exec(v: &Vec<char>, pos: usize) -> (r: Option<(usize, Color)>)
    requires
        pos <= v@.len(),
    ensures
        match r {
            Some((e, c)) => color_spec_at(v@, pos as int) == Some((e as int, c.0@)) && e <= v@.len(),
            None => color_spec_at(v@, pos as int) is None,
        },
{
    if v.len() - pos < 6 {
        return None;
    }
    Some((pos + 6, color_at(v, pos)))
}

fn text_at_exec(v: &Vec<char>, pos: usize) -> (r: (usize, String))
    requires
        pos <= v@.len(),
    ensures
        text_at(v@, pos as int) == (r.0 as int, r.1@),
        pos <= r.0 <= v@.len(),
{
    proof {
        reveal_strlit("]");
    }
    let stops = chars_of("]");
    assert(stops@ =~= seq![']']);
    let e = scan_to_stop(v, pos, &stops);
    (e, string_of(v, pos, e))
}

fn net_at_exec(v: &Vec<char>) -> (r: Option<(usize, Net)>)
    ensures
        match r {
            Some((e, net)) => net_at(v@) == Some((e as int, net@)) && e <= v@.len(),
            None => net_at(v@) is None,
        },
{
    let len = v.len();
    proof {
        reveal_strlit("::net[");
        assert("::net["@ =~= net_tag());
    }
    if !tag_exec(v, 0, "::net[") {
        return None;
    }
    let (at2, index) = match number_at_exec(v, 6, 255) {
        Some(x) => x,
        None => return None,
    };
    proof { lemma_digits_end(v@, 6); }
    if !char_exec(v, at2, ',') {
        return None;
    }
    let (at3, number) = match number_at_exec(v, at2 + 1, 255) {
        Some(x) => x,
        None => return None,
    };
    proof { lemma_digits_end(v@, at2 + 1); }
    if !char_exec(v, at3, ',') {
        return None;
    }
    let (at4, nodes) = match nodes_at_exec(v, at3 + 1) {
        Some(x) => x,
        None => return None,
    };
    if !char_exec(v, at4, ',') {
        return None;
    }
    let (at5, special) = match bool_at_exec(v, at4 + 1) {
        Some(x) => x,
        None => return None,
    };
    if !char_exec(v, at5, ',') {
        return None;
    }
    let (at6, color) = match color_at_exec(v, at5 + 1) {
        Some(x) => x,
        None => return None,
    };
    if !char_exec(v, at6, ',') {
        return None;
    }
    let (at7, machine) = match bool_at_exec(v, at6 + 1) {
        Some(x) => x,
        None => return None,
    };
    if !char_exec(v, at7, ',') {
        return None;
    }
    let (at8, name) = text_at_exec(v, at7 + 1);
    if !char_exec(v, at8, ']') {
        return None;
    }
    let net = Net { index: index as u8, number: number as u8, nodes, special, color, machine, name };
    Some((at8 + 1, net))
}

fn seq_number_at_exec(v: &Vec<char>, pos: usize) -> (r: Option<(usize, Option<u32>)>)
    requires
        pos <= v@.len(),
    ensures
        match r {
            Some((e, n)) => seq_number_at(v@, pos as int) == Some((e as int, n)) && e <= v@.len(),
            None => seq_number_at(v@, pos as int) is None,
        },
{
    let len = v.len();
    if char_exec(v, pos, ':') {
        proof { lemma_digits_end(v@, pos + 1); }
        match number_at_exec(v, pos + 1, 4294967295) {
            Some((e, x)) => Some((e, Some(x))),
            None => None,
        }
    } else {
        Some((pos, None))
    }
}

fn ok_at_exec(v: &Vec<char>) -> (r: Option<(usize, Option<u32>)>)
    ensures
        match r {
            Some((e, n)) => ok_at(v@) == Some((e as int, n)) && e <= v@.len(),
            None => ok_at(v@) is None,
        },
{
    proof {
        reveal_strlit("::ok");
        assert("::ok"@ =~= ok_tag());
    }
    if tag_exec(v, 0, "::ok") {
        seq_number_at_exec(v, 4)
    } else {
        None
    }
}

fn error_at_exec(v: &Vec<char>) -> (r: Option<(usize, Option<u32>)>)
    ensures
        match r {
            Some((e, n)) => error_at(v@) == Some((e as int, n)) && e <= v@.len(),
            None => error_at(v@) is None,
        },
{
    proof {
        reveal_strlit("::error");
        assert("::error"@ =~= error_tag());
    }
    if tag_exec(v, 0, "::error") {
        seq_number_at_exec(v, 7)
    } else {
        None
    }
}

fn bridgelist_at_exec(v: &Vec<char>) -> (r: Option<(usize, Bridgelist)>)
    ensures
        match r {
            Some((e, b)) => bridgelist_at(v@) == Some((e as int, b@)) && e <= v@.len(),
            None => bridgelist_at(v@) is None,
        },
{
    let len = v.len();
    proof {
        reveal_strlit("::bridgelist[");
        assert("::bridgelist["@ =~= bridgelist_tag());
    }
    if !tag_exec(v, 0, "::bridgelist[") {
        return None;
    }
    let (e, b) = bridges_at_exec(v, 13);
    if char_exec(v, e, ']') {
        Some((e + 1, b))
    } else {
        None
    }
}

fn supplyswitch_at_exec(v: &Vec<char>) -> (r: Option<(usize, SupplySwitchPos)>)
    ensures
        match r {
            Some((e, p)) => supplyswitch_at(v@) == Some((e as int, p)) && e <= v@.len(),
            None => supplyswitch_at(v@) is None,
        },
{
    proof {
        reveal_strlit("::supplyswitch[");
        assert("::supplyswitch["@ =~= supplyswitch_tag());
        reveal_strlit("3.3V");
        assert("3.3V"@ =~= seq!['3', '.', '3', 'V']);
        reveal_strlit("5V");
        assert("5V"@ =~= seq!['5', 'V']);
        reveal_strlit("8V");
        assert("8V"@ =~= seq!['8', 'V']);
    }
    if !tag_exec(v, 0, "::supplyswitch[") {
        return None;
    }
    let (e, p) = if tag_exec(v, 15, "3.3V") {
        (19, SupplySwitchPos::V3_3)
    } else if tag_exec(v, 15, "5V") {
        (17, SupplySwitchPos::V5)
    } else if tag_exec(v, 15, "8V") {
        (17, SupplySwitchPos::V8)
    } else {
        return None;
    };
    if char_exec(v, e, ']') {
        Some((e + 1, p))
    } else {
        None
    }
}

fn chipstatus_at_exec(v: &Vec<char>) -> (r: Option<(usize, String)>)
    ensures
        match r {
            Some((e, t)) => chipstatus_at(v@) == Some((e as int, t@)) && e <= v@.len(),
            None => chipstatus_at(v@) is None,
        },
{
    let len = v.len();
    proof {
        reveal_strlit("::chipstatus[");
        assert("::chipstatus["@ =~= chipstatus_tag());
    }
    if !tag_exec(v, 0, "::chipstatus[") {
        return None;
    }
    let (e, t) = text_at_exec(v, 13);
    if char_exec(v, e, ']') {
        Some((e + 1, t))
    } else {
        None
    }
}

fn first_shape_exec(v: &Vec<char>) -> (r: Option<(usize, Message)>)
    ensures
        match r {
            Some((e, m)) => first_shape(v@) == Some((e as int, m@)),
            None => first_shape(v@) is None,
        },
{
    proof {
        reveal_strlit("::netlist-begin");
        assert("::netlist-begin"@ =~= netlist_begin_tag());
        reveal_strlit("::netlist-end");
        assert("::netlist-end"@ =~= netlist_end_tag());
        reveal_strlit("::chipstatus-begin");
        assert("::chipstatus-begin"@ =~= chipstatus_begin_tag());
        reveal_strlit("::chipstatus-end");
        assert("::chipstatus-end"@ =~= chipstatus_end_tag());
    }
    if let Some((e, n)) = ok_at_exec(v) {
        return Some((e, Message::Ack(n)));
    }
    if let Some((e, n)) = error_at_exec(v) {
        return Some((e, Message::Error(n)));
    }
    if tag_exec(v, 0, "::netlist-begin") {
        return Some((15, Message::NetlistBegin));
    }
    if tag_exec(v, 0, "::netlist-end") {
        return Some((13, Message::NetlistEnd));
    }
    if let Some((e, net)) = net_at_exec(v) {
        return Some((e, Message::Net(net)));
    }
    if let Some((e, b)) = bridgelist_at_exec(v) {
        return Some((e, Message::Bridgelist(b)));
    }
    if let Some((e, p)) = supplyswitch_at_exec(v) {
        return Some((e, Message::SupplySwitch(p)));
    }
    if tag_exec(v, 0, "::chipstatus-begin") {
        return Some((18, Message::ChipStatusBegin));
    }
    if tag_exec(v, 0, "::chipstatus-end") {
        return Some((16, Message::ChipStatusEnd));
    }
    if let Some((e, t)) = chipstatus_at_exec(v) {
        return Some((e, Message::ChipStatus(ChipStatus { text: t })));
    }
    None
}

/// Reads one line from the board as a message. Never fails: a line that fits
/// no shape comes back whole as `Message::Unrecognized`.
pub fn parse_line(line: &str) -> (r: Message)
    ensures
        r@ == line_model(line@),
{
    let v = chars_of(line);
    match first_shape_exec(&v) {
        Some((e, m)) => {
            if e == v.len() {
                m
            } else {
                Message::Unrecognized(String::from_str(line))
            }
        },
        None => Message::Unrecognized(String::from_str(line)),
    }
}

/// Reads a whole line as a message; what is left of the line is empty.
pub fn message(input: &str) -> (r: Result<(&str, Message), ParseError>)
    ensures
        match r {
            Ok((rest, m)) => line_message(input@) == Some(m@) && rest@.len() == 0,
            Err(_) => line_message(input@) is None,
        },
{
    let v = chars_of(input);
    match first_shape_exec(&v) {
        Some((e, m)) => {
            if e == v.len() {
                Ok((input.substring_char(e, e), m))
            } else {
                Err(ParseError)
            }
        },
        None => Err(ParseError),
    }
}

/// `::ok` with an optional sequence number, and the rest of the input.
pub fn ok_response(input: &str) -> (r: Result<(&str, Option<u32>), ParseError>)
    ensures
        match r {
            Ok((rest, n)) => match ok_at(input@) {
                Some((e, m)) => n == m && rest@ == input@.subrange(e, input@.len() as int),
                None => false,
            },
            Err(_) => ok_at(input@) is None,
        },
{
    let v = chars_of(input);
    match ok_at_exec(&v) {
        Some((e, n)) => Ok((input.substring_char(e, v.len()), n)),
        None => Err(ParseError),
    }
}

/// `::error` with an optional sequence number, and the rest of the input.
pub fn error_response(input: &str) -> (r: Result<(&str, Option<u32>), ParseError>)
    ensures
        match r {
            Ok((rest, n)) => match error_at(input@) {
                Some((e, m)) => n == m && rest@ == input@.subrange(e, input@.len() as int),
                None => false,
            },
            Err(_) => error_at(input@) is None,
        },
{
    let v = chars_of(input);
    match error_at_exec(&v) {
        Some((e, n)) => Ok((input.substring_char(e, v.len()), n)),
        None => Err(ParseError),
    }
}

/// `::netlist-begin`, and the rest of the input.
pub fn netlist_begin(input: &str) -> (r: Result<(&str, ()), ParseError>)
    ensures
        match r {
            Ok((rest, _)) => tag_at(input@, 0, netlist_begin_tag())
                && rest@ == input@.subrange(15, input@.len() as int),
            Err(_) => !tag_at(input@, 0, netlist_begin_tag()),
        },
{
    proof {
        reveal_strlit("::netlist-begin");
        assert("::netlist-begin"@ =~= netlist_begin_tag());
    }
    let v = chars_of(input);
    if tag_exec(&v, 0, "::netlist-begin") {
        Ok((input.substring_char(15, v.len()), ()))
    } else {
        Err(ParseError)
    }
}

/// `::netlist-end`, and the rest of the input.
pub fn netlist_end(input: &str) -> (r: Result<(&str, ()), ParseError>)
    ensures
        match r {
            Ok((rest, _)) => tag_at(input@, 0, netlist_end_tag())
                && rest@ == input@.subrange(13, input@.len() as int),
            Err(_) => !tag_at(input@, 0, netlist_end_tag()),
        },
{
    proof {
        reveal_strlit("::netlist-end");
        assert("::netlist-end"@ =~= netlist_end_tag());
    }
    let v = chars_of(input);
    if tag_exec(&v, 0, "::netlist-end") {
        Ok((input.substring_char(13, v.len()), ()))
    } else {
        Err(ParseError)
    }
}

/// A `::net[...]` record, and the rest of the input.
pub fn net(input: &str) -> (r: Result<(&str, Net), ParseError>)
    ensures
        match r {
            Ok((rest, n)) => match net_at(input@) {
                Some((e, m)) => n@ == m && rest@ == input@.subrange(e, input@.len() as int),
                None => false,
            },
            Err(_) => net_at(input@) is None,
        },
{
    let v = chars_of(input);
    match net_at_exec(&v) {
        Some((e, n)) => Ok((input.substring_char(e, v.len()), n)),
        None => Err(ParseError),
    }
}

/// A color as six hexadecimal digits, each pair read leniently (a malformed
/// pair gives 0), and the rest of the input.
pub fn color(input: &str) -> (r: Result<(&str, Color), ParseError>)
    ensures
        match r {
            Ok((rest, c)) => input@.len() >= 6 && c.0@ == color_bytes(input@)
                && rest@ == input@.subrange(6, input@.len() as int),
            Err(_) => input@.len() < 6,
        },
{
    let v = chars_of(input);
    if v.len() < 6 {
        return Err(ParseError);
    }
    let c = color_at(&v, 0);
    assert(v@.subrange(0, v@.len() as int) =~= v@);
    Ok((input.substring_char(6, v.len()), c))
}

/// Zero or more bridges `a-b` separated by `,`, and the rest of the input.
pub fn bridges(input: &str) -> (r: Result<(&str, Bridgelist), ParseError>)
    ensures
        match r {
            Ok((rest, b)) => b@ == bridges_at(input@, 0).1
                && rest@ == input@.subrange(bridges_at(input@, 0).0, input@.len() as int),
            Err(_) => false,
        },
{
    let v = chars_of(input);
    let (e, b) = bridges_at_exec(&v, 0);
    Ok((input.substring_char(e, v.len()), b))
}

/// `true` or `false`, and the rest of the input.
pub fn boolean(input: &str) -> (r: Result<(&str, bool), ParseError>)
    ensures
        match r {
            Ok((rest, b)) => match bool_at(input@, 0) {
                Some((e, c)) => b == c && rest@ == input@.subrange(e, input@.len() as int),
                None => false,
            },
            Err(_) => bool_at(input@, 0) is None,
        },
{
    let v = chars_of(input);
    match bool_at_exec(&v, 0) {
        Some((e, b)) => Ok((input.substring_char(e, v.len()), b)),
        None => Err(ParseError),
    }
}

/// One or more nodes separated by `;`, and the rest of the input.
pub fn nodes(input: &str) -> (r: Result<(&str, Vec<Node>), ParseError>)
    ensures
        match r {
            Ok((rest, ns)) => match nodes_at(input@, 0) {
                Some((e, ms)) => ns@ == ms && rest@ == input@.subrange(e, input@.len() as int),
                None => false,
            },
            Err(_) => nodes_at(input@, 0) is None,
        },
{
    let v = chars_of(input);
    match nodes_at_exec(&v, 0) {
        Some((e, ns)) => Ok((input.substring_char(e, v.len()), ns)),
        None => Err(ParseError),
    }
}

/// A `::bridgelist[...]` report, and the rest of the input.
pub fn bridgelist(input: &str) -> (r: Result<(&str, Bridgelist), ParseError>)
    ensures
        match r {
            Ok((rest, b)) => match bridgelist_at(input@) {
                Some((e, c)) => b@ == c && rest@ == input@.subrange(e, input@.len() as int),
                None => false,
            },
            Err(_) => bridgelist_at(input@) is None,
        },
{
    let v = chars_of(input);
    match bridgelist_at_exec(&v) {
        Some((e, b)) => Ok((input.substring_char(e, v.len()), b)),
        None => Err(ParseError),
    }
}

} // verus!
