//! Nodefiles: lists of connections between nodes, written `a-b,c-d`, as a
//! user edits them.
use vstd::prelude::*;
use crate::parser::scan_to;
use crate::text::{
    chars_of, decimal_text, is_digit_run, is_numeric_text, is_u8_text, push_char, push_decimal,
    push_str, read_digits, str_eq, string_of, u8_text_value, unsigned_digits,
};

verus! {

/// A connection point as nodefiles name it.
#[allow(non_camel_case_types)]
#[derive(Debug, Clone, Copy, PartialEq, Eq, Structural)]
pub enum Node {
    GND,
    SUPPLY_5V,
    SUPPLY_3V3,
    DAC_0_5V,
    DAC_1_8V,
    I_N,
    I_P,
    ADC0_5V,
    ADC1_5V,
    ADC2_5V,
    ADC3_8V,
    D0,
    D1,
    D2,
    D3,
    D4,
    D5,
    D6,
    D7,
    D8,
    D9,
    D10,
    D11,
    D12,
    D13,
    A0,
    A1,
    A2,
    A3,
    A4,
    A5,
    A6,
    A7,
    RESET,
    AREF,
    Column(u8),
}

/// Why a nodefile, or a part of one, was refused.
#[derive(Debug, Clone, PartialEq)]
pub enum NodeFileError {
    /// A number that is not a column (outside 1 to 60).
    InvalidNumber,
    /// Text that names no node.
    UnknownNode(String),
    /// A segment without `-`.
    InvalidSegment(String),
    /// A netlist entry whose bridge text is too short to hold its braces.
    InvalidEntry(String),
}

/// The node that a token stands for: a column number from 1 to 60, or a name.
pub open spec fn parse_node(s: Seq<char>) -> Option<Node> {
    if is_u8_text(s) {
        if 1 <= u8_text_value(s) <= 60 {
            Some(Node::Column(u8_text_value(s) as u8))
        } else {
            None
        }
    } else if is_numeric_text(s) {
        None
    } else {
        match canonical_lookup(s) {
            Some(n) => Some(n),
            None => alias_lookup(s),
        }
    }
}

/// The canonical text of a node: its name, or the column number.
#[verifier::opaque]
pub open spec fn node_text(n: Node) -> Seq<char> {
    match n {
        Node::GND => seq!['G', 'N', 'D'],
        Node::SUPPLY_5V => seq!['S', 'U', 'P', 'P', 'L', 'Y', '_', '5', 'V'],
        Node::SUPPLY_3V3 => seq!['S', 'U', 'P', 'P', 'L', 'Y', '_', '3', 'V', '3'],
        Node::DAC_0_5V => seq!['D', 'A', 'C', '_', '0', '_', '5', 'V'],
        Node::DAC_1_8V => seq!['D', 'A', 'C', '_', '1', '_', '8', 'V'],
        Node::I_N => seq!['I', '_', 'N'],
        Node::I_P => seq!['I', '_', 'P'],
        Node::ADC0_5V => seq!['A', 'D', 'C', '0', '_', '5', 'V'],
        Node::ADC1_5V => seq!['A', 'D', 'C', '1', '_', '5', 'V'],
        Node::ADC2_5V => seq!['A', 'D', 'C', '2', '_', '5', 'V'],
        Node::ADC3_8V => seq!['A', 'D', 'C', '3', '_', '8', 'V'],
        Node::D0 => seq!['D', '0'],
        Node::D1 => seq!['D', '1'],
        Node::D2 => seq!['D', '2'],
        Node::D3 => seq!['D', '3'],
        Node::D4 => seq!['D', '4'],
        Node::D5 => seq!['D', '5'],
        Node::D6 => seq!['D', '6'],
        Node::D7 => seq!['D', '7'],
        Node::D8 => seq!['D', '8'],
        Node::D9 => seq!['D', '9'],
        Node::D10 => seq!['D', '1', '0'],
        Node::D11 => seq!['D', '1', '1'],
        Node::D12 => seq!['D', '1', '2'],
        Node::D13 => seq!['D', '1', '3'],
        Node::A0 => seq!['A', '0'],
        Node::A1 => seq!['A', '1'],
        Node::A2 => seq!['A', '2'],
        Node::A3 => seq!['A', '3'],
        Node::A4 => seq!['A', '4'],
        Node::A5 => seq!['A', '5'],
        Node::A6 => seq!['A', '6'],
        Node::A7 => seq!['A', '7'],
        Node::RESET => seq!['R', 'E', 'S', 'E', 'T'],
        Node::AREF => seq!['A', 'R', 'E', 'F'],
        Node::Column(k) => decimal_text(k as nat),
    }
}

/// The node whose canonical name is `s`.
#[verifier::opaque]
pub open spec fn canonical_lookup(s: Seq<char>) -> Option<Node> {
    if s == seq!['G', 'N', 'D'] {
        Some(Node::GND)
    } else if s == seq!['S', 'U', 'P', 'P', 'L', 'Y', '_', '5', 'V'] {
        Some(Node::SUPPLY_5V)
    } else if s == seq!['S', 'U', 'P', 'P', 'L', 'Y', '_', '3', 'V', '3'] {
        Some(Node::SUPPLY_3V3)
    } else if s == seq!['D', 'A', 'C', '_', '0', '_', '5', 'V'] {
        Some(Node::DAC_0_5V)
    } else if s == seq!['D', 'A', 'C', '_', '1', '_', '8', 'V'] {
        Some(Node::DAC_1_8V)
    } else if s == seq!['I', '_', 'N'] {
        Some(Node::I_N)
    } else if s == seq!['I', '_', 'P'] {
        Some(Node::I_P)
    } else if s == seq!['A', 'D', 'C', '0', '_', '5', 'V'] {
        Some(Node::ADC0_5V)
    } else if s == seq!['A', 'D', 'C', '1', '_', '5', 'V'] {
        Some(Node::ADC1_5V)
    } else if s == seq!['A', 'D', 'C', '2', '_', '5', 'V'] {
        Some(Node::ADC2_5V)
    } else if s == seq!['A', 'D', 'C', '3', '_', '8', 'V'] {
        Some(Node::ADC3_8V)
    } else if s == seq!['D', '0'] {
        Some(Node::D0)
    } else if s == seq!['D', '1'] {
        Some(Node::D1)
    } else if s == seq!['D', '2'] {
        Some(Node::D2)
    } else if s == seq!['D', '3'] {
        Some(Node::D3)
    } else if s == seq!['D', '4'] {
        Some(Node::D4)
    } else if s == seq!['D', '5'] {
        Some(Node::D5)
    } else if s == seq!['D', '6'] {
        Some(Node::D6)
    } else if s == seq!['D', '7'] {
        Some(Node::D7)
    } else if s == seq!['D', '8'] {
        Some(Node::D8)
    } else if s == seq!['D', '9'] {
        Some(Node::D9)
    } else if s == seq!['D', '1', '0'] {
        Some(Node::D10)
    } else if s == seq!['D', '1', '1'] {
        Some(Node::D11)
    } else if s == seq!['D', '1', '2'] {
        Some(Node::D12)
    } else if s == seq!['D', '1', '3'] {
        Some(Node::D13)
    } else if s == seq!['A', '0'] {
        Some(Node::A0)
    } else if s == seq!['A', '1'] {
        Some(Node::A1)
    } else if s == seq!['A', '2'] {
        Some(Node::A2)
    } else if s == seq!['A', '3'] {
        Some(Node::A3)
    } else if s == seq!['A', '4'] {
        Some(Node::A4)
    } else if s == seq!['A', '5'] {
        Some(Node::A5)
    } else if s == seq!['A', '6'] {
        Some(Node::A6)
    } else if s == seq!['A', '7'] {
        Some(Node::A7)
    } else if s == seq!['R', 'E', 'S', 'E', 'T'] {
        Some(Node::RESET)
    } else if s == seq!['A', 'R', 'E', 'F'] {
        Some(Node::AREF)
    } else {
        None
    }
}

/// The node that the alias `s` stands for.
#[verifier::opaque]
pub open spec fn alias_lookup(s: Seq<char>) -> Option<Node> {
    if s == seq!['5', 'V'] {
        Some(Node::SUPPLY_5V)
    } else if s == seq!['3', 'V', '3'] {
        Some(Node::SUPPLY_3V3)
    } else if s == seq!['D', 'A', 'C', '_', '0'] {
        Some(Node::DAC_0_5V)
    } else if s == seq!['D', 'A', 'C', '_', '1'] {
        Some(Node::DAC_1_8V)
    } else if s == seq!['I', '_', 'N', 'E', 'G'] {
        Some(Node::I_N)
    } else if s == seq!['I', '_', 'P', 'O', 'S'] {
        Some(Node::I_P)
    } else {
        None
    }
}

/// Looks `s` up among the canonical names, then among the aliases.
fn lookup_name(s: &str) -> (r: Option<Node>)
    ensures
        r == (match canonical_lookup(s@) {
            Some(n) => Some(n),
            None => alias_lookup(s@),
        }),
{
    reveal(canonical_lookup);
    reveal(alias_lookup);
    proof {
        reveal_strlit("GND");
        assert("GND"@ =~= seq!['G', 'N', 'D']);
    }
    if str_eq(s, "GND") {
        return Some(Node::GND);
    }
    proof {
        reveal_strlit("SUPPLY_5V");
        assert("SUPPLY_5V"@ =~= seq!['S', 'U', 'P', 'P', 'L', 'Y', '_', '5', 'V']);
    }
    if str_eq(s, "SUPPLY_5V") {
        return Some(Node::SUPPLY_5V);
    }
    proof {
        reveal_strlit("SUPPLY_3V3");
        assert("SUPPLY_3V3"@ =~= seq!['S', 'U', 'P', 'P', 'L', 'Y', '_', '3', 'V', '3']);
    }
    if str_eq(s, "SUPPLY_3V3") {
        return Some(Node::SUPPLY_3V3);
    }
    proof {
        reveal_strlit("DAC_0_5V");
        assert("DAC_0_5V"@ =~= seq!['D', 'A', 'C', '_', '0', '_', '5', 'V']);
    }
    if str_eq(s, "DAC_0_5V") {
        return Some(Node::DAC_0_5V);
    }
    proof {
        reveal_strlit("DAC_1_8V");
        assert("DAC_1_8V"@ =~= seq!['D', 'A', 'C', '_', '1', '_', '8', 'V']);
    }
    if str_eq(s, "DAC_1_8V") {
        return Some(Node::DAC_1_8V);
    }
    proof {
        reveal_strlit("I_N");
        assert("I_N"@ =~= seq!['I', '_', 'N']);
    }
    if str_eq(s, "I_N") {
        return Some(Node::I_N);
    }
    proof {
        reveal_strlit("I_P");
        assert("I_P"@ =~= seq!['I', '_', 'P']);
    }
    if str_eq(s, "I_P") {
        return Some(Node::I_P);
    }
    proof {
        reveal_strlit("ADC0_5V");
        assert("ADC0_5V"@ =~= seq!['A', 'D', 'C', '0', '_', '5', 'V']);
    }
    if str_eq(s, "ADC0_5V") {
        return Some(Node::ADC0_5V);
    }
    proof {
        reveal_strlit("ADC1_5V");
        assert("ADC1_5V"@ =~= seq!['A', 'D', 'C', '1', '_', '5', 'V']);
    }
    if str_eq(s, "ADC1_5V") {
        return Some(Node::ADC1_5V);
    }
    proof {
        reveal_strlit("ADC2_5V");
        assert("ADC2_5V"@ =~= seq!['A', 'D', 'C', '2', '_', '5', 'V']);
    }
    if str_eq(s, "ADC2_5V") {
        return Some(Node::ADC2_5V);
    }
    proof {
        reveal_strlit("ADC3_8V");
        assert("ADC3_8V"@ =~= seq!['A', 'D', 'C', '3', '_', '8', 'V']);
    }
    if str_eq(s, "ADC3_8V") {
        return Some(Node::ADC3_8V);
    }
    proof {
        reveal_strlit("D0");
        assert("D0"@ =~= seq!['D', '0']);
    }
    if str_eq(s, "D0") {
        return Some(Node::D0);
    }
    proof {
        reveal_strlit("D1");
        assert("D1"@ =~= seq!['D', '1']);
    }
    if str_eq(s, "D1") {
        return Some(Node::D1);
    }
    proof {
        reveal_strlit("D2");
        assert("D2"@ =~= seq!['D', '2']);
    }
    if str_eq(s, "D2") {
        return Some(Node::D2);
    }
    proof {
        reveal_strlit("D3");
        assert("D3"@ =~= seq!['D', '3']);
    }
    if str_eq(s, "D3") {
        return Some(Node::D3);
    }
    proof {
        reveal_strlit("D4");
        assert("D4"@ =~= seq!['D', '4']);
    }
    if str_eq(s, "D4") {
        return Some(Node::D4);
    }
    proof {
        reveal_strlit("D5");
        assert("D5"@ =~= seq!['D', '5']);
    }
    if str_eq(s, "D5") {
        return Some(Node::D5);
    }
    proof {
        reveal_strlit("D6");
        assert("D6"@ =~= seq!['D', '6']);
    }
    if str_eq(s, "D6") {
        return Some(Node::D6);
    }
    proof {
        reveal_strlit("D7");
        assert("D7"@ =~= seq!['D', '7']);
    }
    if str_eq(s, "D7") {
        return Some(Node::D7);
    }
    proof {
        reveal_strlit("D8");
        assert("D8"@ =~= seq!['D', '8']);
    }
    if str_eq(s, "D8") {
        return Some(Node::D8);
    }
    proof {
        reveal_strlit("D9");
        assert("D9"@ =~= seq!['D', '9']);
    }
    if str_eq(s, "D9") {
        return Some(Node::D9);
    }
    proof {
        reveal_strlit("D10");
        assert("D10"@ =~= seq!['D', '1', '0']);
    }
    if str_eq(s, "D10") {
        return Some(Node::D10);
    }
    proof {
        reveal_strlit("D11");
        assert("D11"@ =~= seq!['D', '1', '1']);
    }
    if str_eq(s, "D11") {
        return Some(Node::D11);
    }
    proof {
        reveal_strlit("D12");
        assert("D12"@ =~= seq!['D', '1', '2']);
    }
    if str_eq(s, "D12") {
        return Some(Node::D12);
    }
    proof {
        reveal_strlit("D13");
        assert("D13"@ =~= seq!['D', '1', '3']);
    }
    if str_eq(s, "D13") {
        return Some(Node::D13);
    }
    proof {
        reveal_strlit("A0");
        assert("A0"@ =~= seq!['A', '0']);
    }
    if str_eq(s, "A0") {
        return Some(Node::A0);
    }
    proof {
        reveal_strlit("A1");
        assert("A1"@ =~= seq!['A', '1']);
    }
    if str_eq(s, "A1") {
        return Some(Node::A1);
    }
    proof {
        reveal_strlit("A2");
        assert("A2"@ =~= seq!['A', '2']);
    }
    if str_eq(s, "A2") {
        return Some(Node::A2);
    }
    proof {
        reveal_strlit("A3");
        assert("A3"@ =~= seq!['A', '3']);
    }
    if str_eq(s, "A3") {
        return Some(Node::A3);
    }
    proof {
        reveal_strlit("A4");
        assert("A4"@ =~= seq!['A', '4']);
    }
    if str_eq(s, "A4") {
        return Some(Node::A4);
    }
    proof {
        reveal_strlit("A5");
        assert("A5"@ =~= seq!['A', '5']);
    }
    if str_eq(s, "A5") {
        return Some(Node::A5);
    }
    proof {
        reveal_strlit("A6");
        assert("A6"@ =~= seq!['A', '6']);
    }
    if str_eq(s, "A6") {
        return Some(Node::A6);
    }
    proof {
        reveal_strlit("A7");
        assert("A7"@ =~= seq!['A', '7']);
    }
    if str_eq(s, "A7") {
        return Some(Node::A7);
    }
    proof {
        reveal_strlit("RESET");
        assert("RESET"@ =~= seq!['R', 'E', 'S', 'E', 'T']);
    }
    if str_eq(s, "RESET") {
        return Some(Node::RESET);
    }
    proof {
        reveal_strlit("AREF");
        assert("AREF"@ =~= seq!['A', 'R', 'E', 'F']);
    }
    if str_eq(s, "AREF") {
        return Some(Node::AREF);
    }
    proof {
        reveal_strlit("5V");
        assert("5V"@ =~= seq!['5', 'V']);
    }
    if str_eq(s, "5V") {
        return Some(Node::SUPPLY_5V);
    }
    proof {
        reveal_strlit("3V3");
        assert("3V3"@ =~= seq!['3', 'V', '3']);
    }
    if str_eq(s, "3V3") {
        return Some(Node::SUPPLY_3V3);
    }
    proof {
        reveal_strlit("DAC_0");
        assert("DAC_0"@ =~= seq!['D', 'A', 'C', '_', '0']);
    }
    if str_eq(s, "DAC_0") {
        return Some(Node::DAC_0_5V);
    }
    proof {
        reveal_strlit("DAC_1");
        assert("DAC_1"@ =~= seq!['D', 'A', 'C', '_', '1']);
    }
    if str_eq(s, "DAC_1") {
        return Some(Node::DAC_1_8V);
    }
    proof {
        reveal_strlit("I_NEG");
        assert("I_NEG"@ =~= seq!['I', '_', 'N', 'E', 'G']);
    }
    if str_eq(s, "I_NEG") {
        return Some(Node::I_N);
    }
    proof {
        reveal_strlit("I_POS");
        assert("I_POS"@ =~= seq!['I', '_', 'P', 'O', 'S']);
    }
    if str_eq(s, "I_POS") {
        return Some(Node::I_P);
    }
    None
}

impl Node {
    /// The canonical text of the node.
    pub fn to_string(&self) -> (r: String)
        ensures
            r@ == node_text(*self),
    {
        reveal(node_text);
        let lit: &str = match self {
            Node::GND => {
                proof {
                    reveal_strlit("GND");
                    assert("GND"@ =~= seq!['G', 'N', 'D']);
                }
                "GND"
            },
            Node::SUPPLY_5V => {
                proof {
                    reveal_strlit("SUPPLY_5V");
                    assert("SUPPLY_5V"@ =~= seq!['S', 'U', 'P', 'P', 'L', 'Y', '_', '5', 'V']);
                }
                "SUPPLY_5V"
            },
            Node::SUPPLY_3V3 => {
                proof {
                    reveal_strlit("SUPPLY_3V3");
                    assert("SUPPLY_3V3"@ =~= seq!['S', 'U', 'P', 'P', 'L', 'Y', '_', '3', 'V', '3']);
                }
                "SUPPLY_3V3"
            },
            Node::DAC_0_5V => {
                proof {
                    reveal_strlit("DAC_0_5V");
                    assert("DAC_0_5V"@ =~= seq!['D', 'A', 'C', '_', '0', '_', '5', 'V']);
                }
                "DAC_0_5V"
            },
            Node::DAC_1_8V => {
                proof {
                    reveal_strlit("DAC_1_8V");
                    assert("DAC_1_8V"@ =~= seq!['D', 'A', 'C', '_', '1', '_', '8', 'V']);
                }
                "DAC_1_8V"
            },
            Node::I_N => {
                proof {
                    reveal_strlit("I_N");
                    assert("I_N"@ =~= seq!['I', '_', 'N']);
                }
                "I_N"
            },
            Node::I_P => {
                proof {
                    reveal_strlit("I_P");
                    assert("I_P"@ =~= seq!['I', '_', 'P']);
                }
                "I_P"
            },
            Node::ADC0_5V => {
                proof {
                    reveal_strlit("ADC0_5V");
                    assert("ADC0_5V"@ =~= seq!['A', 'D', 'C', '0', '_', '5', 'V']);
                }
                "ADC0_5V"
            },
            Node::ADC1_5V => {
                proof {
                    reveal_strlit("ADC1_5V");
                    assert("ADC1_5V"@ =~= seq!['A', 'D', 'C', '1', '_', '5', 'V']);
                }
                "ADC1_5V"
            },
            Node::ADC2_5V => {
                proof {
                    reveal_strlit("ADC2_5V");
                    assert("ADC2_5V"@ =~= seq!['A', 'D', 'C', '2', '_', '5', 'V']);
                }
                "ADC2_5V"
            },
            Node::ADC3_8V => {
                proof {
                    reveal_strlit("ADC3_8V");
                    assert("ADC3_8V"@ =~= seq!['A', 'D', 'C', '3', '_', '8', 'V']);
                }
                "ADC3_8V"
            },
            Node::D0 => {
                proof {
                    reveal_strlit("D0");
                    assert("D0"@ =~= seq!['D', '0']);
                }
                "D0"
            },
            Node::D1 => {
                proof {
                    reveal_strlit("D1");
                    assert("D1"@ =~= seq!['D', '1']);
                }
                "D1"
            },
            Node::D2 => {
                proof {
                    reveal_strlit("D2");
                    assert("D2"@ =~= seq!['D', '2']);
                }
                "D2"
            },
            Node::D3 => {
                proof {
                    reveal_strlit("D3");
                    assert("D3"@ =~= seq!['D', '3']);
                }
                "D3"
            },
            Node::D4 => {
                proof {
                    reveal_strlit("D4");
                    assert("D4"@ =~= seq!['D', '4']);
                }
                "D4"
            },
            Node::D5 => {
                proof {
                    reveal_strlit("D5");
                    assert("D5"@ =~= seq!['D', '5']);
                }
                "D5"
            },
            Node::D6 => {
                proof {
                    reveal_strlit("D6");
                    assert("D6"@ =~= seq!['D', '6']);
                }
                "D6"
            },
            Node::D7 => {
                proof {
                    reveal_strlit("D7");
                    assert("D7"@ =~= seq!['D', '7']);
                }
                "D7"
            },
            Node::D8 => {
                proof {
                    reveal_strlit("D8");
                    assert("D8"@ =~= seq!['D', '8']);
                }
                "D8"
            },
            Node::D9 => {
                proof {
                    reveal_strlit("D9");
                    assert("D9"@ =~= seq!['D', '9']);
                }
                "D9"
            },
            Node::D10 => {
                proof {
                    reveal_strlit("D10");
                    assert("D10"@ =~= seq!['D', '1', '0']);
                }
                "D10"
            },
            Node::D11 => {
                proof {
                    reveal_strlit("D11");
                    assert("D11"@ =~= seq!['D', '1', '1']);
                }
                "D11"
            },
            Node::D12 => {
                proof {
                    reveal_strlit("D12");
                    assert("D12"@ =~= seq!['D', '1', '2']);
                }
                "D12"
            },
            Node::D13 => {
                proof {
                    reveal_strlit("D13");
                    assert("D13"@ =~= seq!['D', '1', '3']);
                }
                "D13"
            },
            Node::A0 => {
                proof {
                    reveal_strlit("A0");
                    assert("A0"@ =~= seq!['A', '0']);
                }
                "A0"
            },
            Node::A1 => {
                proof {
                    reveal_strlit("A1");
                    assert("A1"@ =~= seq!['A', '1']);
                }
                "A1"
            },
            Node::A2 => {
                proof {
                    reveal_strlit("A2");
                    assert("A2"@ =~= seq!['A', '2']);
                }
                "A2"
            },
            Node::A3 => {
                proof {
                    reveal_strlit("A3");
                    assert("A3"@ =~= seq!['A', '3']);
                }
                "A3"
            },
            Node::A4 => {
                proof {
                    reveal_strlit("A4");
                    assert("A4"@ =~= seq!['A', '4']);
                }
                "A4"
            },
            Node::A5 => {
                proof {
                    reveal_strlit("A5");
                    assert("A5"@ =~= seq!['A', '5']);
                }
                "A5"
            },
            Node::A6 => {
                proof {
                    reveal_strlit("A6");
                    assert("A6"@ =~= seq!['A', '6']);
                }
                "A6"
            },
            Node::A7 => {
                proof {
                    reveal_strlit("A7");
                    assert("A7"@ =~= seq!['A', '7']);
                }
                "A7"
            },
            Node::RESET => {
                proof {
                    reveal_strlit("RESET");
                    assert("RESET"@ =~= seq!['R', 'E', 'S', 'E', 'T']);
                }
                "RESET"
            },
            Node::AREF => {
                proof {
                    reveal_strlit("AREF");
                    assert("AREF"@ =~= seq!['A', 'R', 'E', 'F']);
                }
                "AREF"
            },
            Node::Column(k) => {
                let mut r = String::new();
                push_decimal(&mut r, *k as u32);
                assert(r@ =~= node_text(*self));
                return r;
            },
        };
        let r = String::from_str(lit);
        r
    }
}


impl Node {
    /// The column node for `n`, if `n` is a column number (1 to 60).
    pub fn col(n: u8) -> (r: Option<Node>)
        ensures
            r == (if 1 <= n <= 60 { Some(Node::Column(n)) } else { None::<Node> }),
    {
        if 1 <= n && n <= 60 {
            Some(Node::Column(n))
        } else {
            None
        }
    }

    /// Reads a node token.
    pub fn parse(s: &str) -> (r: Result<Node, NodeFileError>)
        ensures
            r is Ok <==> parse_node(s@) is Some,
            match r {
                Ok(n) => parse_node(s@) == Some(n),
                Err(NodeFileError::InvalidNumber) => is_u8_text(s@),
                Err(NodeFileError::UnknownNode(t)) => !is_u8_text(s@) && t@ == s@,
                Err(NodeFileError::InvalidSegment(_)) => false,
                Err(NodeFileError::InvalidEntry(_)) => false,
            },
    {
        let v = chars_of(s);
        let n = v.len();
        let start: usize = if n > 0 && v[0] == '+' { 1 } else { 0 };
        assert(v@.subrange(start as int, n as int) =~= unsigned_digits(s@));
        if is_digit_run(&v, start, n) {
            match read_digits(&v, start, n, 255) {
                Some(x) => {
                    if 1 <= x && x <= 60 {
                        Ok(Node::Column(x as u8))
                    } else {
                        Err(NodeFileError::InvalidNumber)
                    }
                },
                None => Err(NodeFileError::UnknownNode(String::from_str(s))),
            }
        } else {
            match lookup_name(s) {
                Some(node) => Ok(node),
                None => Err(NodeFileError::UnknownNode(String::from_str(s))),
            }
        }
    }
}

/// A connection between two nodes; the order of the two does not matter.
#[derive(Debug, Clone, Copy)]
pub struct Connection(pub Node, pub Node);

/// Whether two connections join the same two nodes, in either order.
pub open spec fn same_connection(a: Connection, b: Connection) -> bool {
    (a.0 == b.0 && a.1 == b.1) || (a.0 == b.1 && a.1 == b.0)
}

impl PartialEq for Connection {
    fn eq(&self, other: &Connection) -> (r: bool) {
        (self.0 == other.0 && self.1 == other.1) || (self.0 == other.1 && self.1 == other.0)
    }
}

impl vstd::std_specs::cmp::PartialEqSpecImpl for Connection {
    open spec fn obeys_eq_spec() -> bool {
        true
    }

    open spec fn eq_spec(&self, other: &Connection) -> bool {
        same_connection(*self, *other)
    }
}

/// A pair of nodes is the same connection as the pair reversed, and the
/// relation reads the same from either side.
pub proof fn lemma_connection_symmetric(a: Node, b: Node, x: Connection, y: Connection)
    ensures
        same_connection(Connection(a, b), Connection(b, a)),
        same_connection(x, y) == same_connection(y, x),
{
}

/// `a-b`.
pub open spec fn connection_text(c: Connection) -> Seq<char> {
    node_text(c.0) + seq!['-'] + node_text(c.1)
}

/// The connection that `a-b` names, split at the first `-`.
pub open spec fn connection_of(s: Seq<char>) -> Option<Connection> {
    let i = scan_to(s, 0, seq!['-']);
    if i < s.len() {
        match (parse_node(s.subrange(0, i)), parse_node(s.subrange(i + 1, s.len() as int))) {
            (Some(a), Some(b)) => Some(Connection(a, b)),
            _ => None,
        }
    } else {
        None
    }
}

impl Connection {
    /// `a-b`.
    pub fn to_string(&self) -> (r: String)
        ensures
            r@ == connection_text(*self),
    {
        let mut r = self.0.to_string();
        push_char(&mut r, '-');
        let b = self.1.to_string();
        push_str(&mut r, b.as_str());
        assert(r@ =~= connection_text(*self));
        r
    }

    /// Reads `a-b`, splitting at the first `-`.
    pub fn parse(source: &str) -> (r: Result<Connection, NodeFileError>)
        ensures
            match r {
                Ok(c) => connection_of(source@) == Some(c),
                Err(NodeFileError::InvalidSegment(t)) => scan_to(source@, 0, seq!['-'])
                    == source@.len() && t@ == source@,
                Err(_) => connection_of(source@) is None,
            },
    {
        let v = chars_of(source);
        let n = v.len();
        let i = find_dash(&v);
        if i == n {
            return Err(NodeFileError::InvalidSegment(String::from_str(source)));
        }
        let a = string_of(&v, 0, i);
        let b = string_of(&v, i + 1, n);
        let na = match Node::parse(a.as_str()) {
            Ok(x) => x,
            Err(e) => return Err(e),
        };
        let nb = match Node::parse(b.as_str()) {
            Ok(x) => x,
            Err(e) => return Err(e),
        };
        Ok(Connection(na, nb))
    }
}

fn find_dash(v: &Vec<char>) -> (r: usize)
    ensures
        r == scan_to(v@, 0, seq!['-']),
        r <= v@.len(),
{
    let n = v.len();
    let mut i: usize = 0;
    proof {
        crate::parser::lemma_scan_to(v@, 0, seq!['-']);
    }
    while i < n && v[i] != '-'
        invariant
            n == v@.len(),
            i <= n,
            scan_to(v@, i as int, seq!['-']) == scan_to(v@, 0, seq!['-']),
        decreases n - i,
    {
        assert(!seq!['-'].contains(v@[i as int]));
        i = i + 1;
    }
    if i < n {
        assert(seq!['-'][0] == v@[i as int]);
    }
    i
}

/// Whether `s` holds a connection that is the same as `c`.
pub open spec fn contains_connection(s: Seq<Connection>, c: Connection) -> bool {
    exists|i: int| 0 <= i < s.len() && same_connection(#[trigger] s[i], c)
}

/// `s` with `c` added at the end, unless it is there already.
pub open spec fn with_connection(s: Seq<Connection>, c: Connection) -> Seq<Connection> {
    if contains_connection(s, c) {
        s
    } else {
        s.push(c)
    }
}

/// `s` without any connection that is the same as `c`, the rest in order.
pub open spec fn without_connection(s: Seq<Connection>, c: Connection) -> Seq<Connection>
    decreases s.len(),
{
    if s.len() == 0 {
        s
    } else if same_connection(s.last(), c) {
        without_connection(s.drop_last(), c)
    } else {
        without_connection(s.drop_last(), c).push(s.last())
    }
}

/// `s` with each of `others` added in turn.
pub open spec fn with_all(s: Seq<Connection>, others: Seq<Connection>) -> Seq<Connection>
    decreases others.len(),
{
    if others.len() == 0 {
        s
    } else {
        with_connection(with_all(s, others.drop_last()), others.last())
    }
}

/// `s` with each of `others` removed in turn.
pub open spec fn without_all(s: Seq<Connection>, others: Seq<Connection>) -> Seq<Connection>
    decreases others.len(),
{
    if others.len() == 0 {
        s
    } else {
        without_connection(without_all(s, others.drop_last()), others.last())
    }
}

/// The connections joined by `,`.
pub open spec fn nodefile_text(s: Seq<Connection>) -> Seq<char>
    decreases s.len(),
{
    if s.len() == 0 {
        Seq::empty()
    } else if s.len() == 1 {
        connection_text(s[0])
    } else {
        nodefile_text(s.drop_last()) + seq![','] + connection_text(s.last())
    }
}

/// The connections that `a-b,c-d,...` names, starting at `pos`: each segment
/// runs to the next `,`.
pub open spec fn nodefile_from(s: Seq<char>, pos: int) -> Option<Seq<Connection>>
    decreases s.len() - pos,
{
    let e = scan_to(s, pos, seq![',']);
    match connection_of(s.subrange(pos, e)) {
        None => None,
        Some(c) => if pos <= e < s.len() {
            match nodefile_from(s, e + 1) {
                Some(rest) => Some(seq![c] + rest),
                None => None,
            }
        } else {
            Some(seq![c])
        },
    }
}

/// A list of connections, as a user edits it.
pub struct NodeFile(pub Vec<Connection>);

impl NodeFile {
    /// Reads `a-b,c-d,...`; any segment that is not a connection fails the whole.
    pub fn parse(source: &str) -> (r: Result<NodeFile, NodeFileError>)
        ensures
            match r {
                Ok(f) => nodefile_from(source@, 0) == Some(f.0@),
                Err(_) => nodefile_from(source@, 0) is None,
            },
    {
        let v = chars_of(source);
        let n = v.len();
        let mut connections: Vec<Connection> = Vec::new();
        let mut pos: usize = 0;
        loop
            invariant
                n == v@.len(),
                v@ == source@,
                pos <= n,
                nodefile_from(v@, 0) == match nodefile_from(v@, pos as int) {
                    Some(rest) => Some(connections@ + rest),
                    None => None::<Seq<Connection>>,
                },
            decreases n - pos,
        {
            let e = find_comma(&v, pos);
            let seg = string_of(&v, pos, e);
            let c = match Connection::parse(seg.as_str()) {
                Ok(c) => c,
                Err(err) => {
                    proof {
                        assert(connection_of(seg@) is None);
                        assert(nodefile_from(v@, pos as int) is None);
                        assert(v@ == source@);
                    }
                    return Err(err);
                },
            };
            let ghost before = connections@;
            connections.push(c);
            if e == n {
                assert(nodefile_from(v@, pos as int) == Some(seq![c]));
                assert(before + seq![c] =~= connections@);
                assert(v@ == source@);
                return Ok(NodeFile(connections));
            }
            proof {
                match nodefile_from(v@, e + 1) {
                    Some(rest) => {
                        assert(before + (seq![c] + rest) =~= connections@ + rest);
                    },
                    None => {},
                }
            }
            pos = e + 1;
        }
    }

    /// Whether the file holds a connection that is the same as `connection`.
    pub fn has(&self, connection: Connection) -> (r: bool)
        ensures
            r == contains_connection(self.0@, connection),
    {
        let mut i: usize = 0;
        while i < self.0.len()
            invariant
                i <= self.0@.len(),
                forall|k: int| 0 <= k < i ==> !same_connection(#[trigger] self.0@[k], connection),
            decreases self.0@.len() - i,
        {
            if self.0[i] == connection {
                assert(same_connection(self.0@[i as int], connection));
                return true;
            }
            i = i + 1;
        }
        false
    }

    /// Adds a connection at the end, unless the same one is there already.
    pub fn add_connection(&mut self, connection: Connection)
        ensures
            final(self).0@ == with_connection(old(self).0@, connection),
    {
        if !self.has(connection) {
            self.0.push(connection);
        }
    }

    /// Removes every connection that is the same as `connection`.
    pub fn remove_connection(&mut self, connection: Connection)
        ensures
            final(self).0@ == without_connection(old(self).0@, connection),
    {
        let mut kept: Vec<Connection> = Vec::new();
        let mut i: usize = 0;
        while i < self.0.len()
            invariant
                i <= self.0@.len(),
                self.0@ == old(self).0@,
                kept@ == without_connection(self.0@.subrange(0, i as int), connection),
            decreases self.0@.len() - i,
        {
            let c = self.0[i];
            proof {
                assert(self.0@.subrange(0, i + 1).drop_last() =~= self.0@.subrange(0, i as int));
            }
            if !(c == connection) {
                kept.push(c);
            }
            i = i + 1;
        }
        assert(self.0@.subrange(0, self.0@.len() as int) =~= self.0@);
        self.0 = kept;
    }

    /// Adds each connection of `other` in turn.
    pub fn add_from(&mut self, other: NodeFile)
        ensures
            final(self).0@ == with_all(old(self).0@, other.0@),
    {
        let mut i: usize = 0;
        while i < other.0.len()
            invariant
                i <= other.0@.len(),
                self.0@ == with_all(old(self).0@, other.0@.subrange(0, i as int)),
            decreases other.0@.len() - i,
        {
            proof {
                assert(other.0@.subrange(0, i + 1).drop_last() =~= other.0@.subrange(0, i as int));
            }
            self.add_connection(other.0[i]);
            i = i + 1;
        }
        assert(other.0@.subrange(0, other.0@.len() as int) =~= other.0@);
    }

    /// Removes each connection of `other` in turn.
    pub fn remove_from(&mut self, other: NodeFile)
        ensures
            final(self).0@ == without_all(old(self).0@, other.0@),
    {
        let mut i: usize = 0;
        while i < other.0.len()
            invariant
                i <= other.0@.len(),
                self.0@ == without_all(old(self).0@, other.0@.subrange(0, i as int)),
            decreases other.0@.len() - i,
        {
            proof {
                assert(other.0@.subrange(0, i + 1).drop_last() =~= other.0@.subrange(0, i as int));
            }
            self.remove_connection(other.0[i]);
            i = i + 1;
        }
        assert(other.0@.subrange(0, other.0@.len() as int) =~= other.0@);
    }

    /// The connections joined by `,`.
    pub fn to_string(&self) -> (r: String)
        ensures
            r@ == nodefile_text(self.0@),
    {
        let mut r = String::new();
        let mut i: usize = 0;
        while i < self.0.len()
            invariant
                i <= self.0@.len(),
                r@ == nodefile_text(self.0@.subrange(0, i as int)),
            decreases self.0@.len() - i,
        {
            let ghost before = r@;
            if i > 0 {
                push_char(&mut r, ',');
            }
            let t = self.0[i].to_string();
            push_str(&mut r, t.as_str());
            proof {
                let next = self.0@.subrange(0, i + 1);
                assert(next.drop_last() =~= self.0@.subrange(0, i as int));
                if i == 0 {
                    assert(next =~= seq![self.0@[0]]);
                }
            }
            assert(r@ =~= nodefile_text(self.0@.subrange(0, i + 1)));
            i = i + 1;
        }
        assert(self.0@.subrange(0, self.0@.len() as int) =~= self.0@);
        r
    }
}

fn find_comma(v: &Vec<char>, pos: usize) -> (r: usize)
    requires
        pos <= v@.len(),
    ensures
        r == scan_to(v@, pos as int, seq![',']),
        pos <= r <= v@.len(),
{
    let n = v.len();
    let mut i = pos;
    proof {
        crate::parser::lemma_scan_to(v@, pos as int, seq![',']);
    }
    while i < n && v[i] != ','
        invariant
            n == v@.len(),
            pos <= i <= n,
            scan_to(v@, i as int, seq![',']) == scan_to(v@, pos as int, seq![',']),
        decreases n - i,
    {
        assert(!seq![','].contains(v@[i as int]));
        i = i + 1;
    }
    if i < n {
        assert(seq![','][0] == v@[i as int]);
    }
    i
}

/// One net as a netlist listing gives it, with its bridges as one text
/// `{a-b,c-d}`.
#[derive(Debug, Clone, PartialEq)]
pub struct NetlistEntry {
    pub index: u32,
    pub name: String,
    pub number: u32,
    pub nodes: String,
    pub bridges: String,
}

/// The bridge text of an entry without its enclosing braces.
pub open spec fn inner_text(b: Seq<char>) -> Seq<char> {
    b.subrange(1, b.len() - 1)
}

/// The `,`-separated segments of `s` from `pos` on, as `str::split` gives them.
pub open spec fn segments_from(s: Seq<char>, pos: int) -> Seq<Seq<char>>
    decreases s.len() - pos,
{
    let e = scan_to(s, pos, seq![',']);
    if pos <= e < s.len() {
        seq![s.subrange(pos, e)] + segments_from(s, e + 1)
    } else {
        seq![s.subrange(pos, e)]
    }
}

/// The bridge segments of all entries, entry after entry.
pub open spec fn entry_segments(es: Seq<NetlistEntry>) -> Seq<Seq<char>>
    decreases es.len(),
{
    if es.len() == 0 {
        Seq::empty()
    } else {
        entry_segments(es.drop_last()) + segments_from(inner_text(es.last().bridges@), 0)
    }
}

/// The segment that stands for no bridge.
pub open spec fn placeholder() -> Seq<char> {
    seq!['0', '-', '0']
}

/// Each segment once, in the order it first appears, without the placeholder.
pub open spec fn distinct_bridges(ss: Seq<Seq<char>>) -> Seq<Seq<char>>
    decreases ss.len(),
{
    if ss.len() == 0 {
        Seq::empty()
    } else {
        let u = distinct_bridges(ss.drop_last());
        if ss.last() == placeholder() || u.contains(ss.last()) {
            u
        } else {
            u.push(ss.last())
        }
    }
}

/// The connections that the segments name, if every one names one.
pub open spec fn connections_of(ts: Seq<Seq<char>>) -> Option<Seq<Connection>>
    decreases ts.len(),
{
    if ts.len() == 0 {
        Some(Seq::empty())
    } else {
        match (connections_of(ts.drop_last()), connection_of(ts.last())) {
            (Some(cs), Some(c)) => Some(cs.push(c)),
            _ => None,
        }
    }
}

pub open spec fn entries_well_formed(es: Seq<NetlistEntry>) -> bool {
    forall|i: int| 0 <= i < es.len() ==> #[trigger] es[i].bridges@.len() >= 2
}

pub open spec fn texts(v: Seq<String>) -> Seq<Seq<char>> {
    v.map_values(|s: String| s@)
}

fn contains_text(v: &Vec<String>, t: &String) -> (r: bool)
    ensures
        r == texts(v@).contains(t@),
{
    let mut i: usize = 0;
    while i < v.len()
        invariant
            i <= v@.len(),
            forall|k: int| 0 <= k < i ==> v@[k]@ != t@,
        decreases v@.len() - i,
    {
        if str_eq(v[i].as_str(), t.as_str()) {
            assert(texts(v@)[i as int] == t@);
            return true;
        }
        i = i + 1;
    }
    assert forall|k: int| 0 <= k < texts(v@).len() implies texts(v@)[k] != t@ by {
        assert(texts(v@)[k] == v@[k]@);
    }
    false
}

/// Appends the `,`-separated segments of `v` to `out`.
fn push_segments(out: &mut Vec<String>, v: &Vec<char>)
    ensures
        texts(final(out)@) == texts(old(out)@) + segments_from(v@, 0),
{
    let n = v.len();
    let mut pos: usize = 0;
    loop
        invariant
            n == v@.len(),
            pos <= n,
            texts(old(out)@) + segments_from(v@, 0) == texts(out@) + segments_from(v@, pos as int),
        decreases n - pos,
    {
        let e = find_comma(v, pos);
        let seg = string_of(v, pos, e);
        let ghost before = out@;
        out.push(seg);
        assert(texts(out@) =~= texts(before).push(v@.subrange(pos as int, e as int)));
        if e == n {
            assert(segments_from(v@, pos as int) == seq![v@.subrange(pos as int, e as int)]);
            assert(texts(before) + seq![v@.subrange(pos as int, e as int)] =~= texts(out@));
            return;
        }
        assert(texts(before) + (seq![v@.subrange(pos as int, e as int)] + segments_from(v@, e + 1))
            =~= texts(out@) + segments_from(v@, e + 1));
        pos = e + 1;
    }
}

impl NodeFile {
    /// The connections of a netlist listing: the bridge text of each entry,
    /// inside its braces, is split at `,`; each segment is kept once, in the
    /// order it first appears, the placeholder `0-0` is dropped, and each is
    /// read as a connection.
    pub fn from(netlist: Vec<NetlistEntry>) -> (r: Result<NodeFile, NodeFileError>)
        ensures
            !entries_well_formed(netlist@) ==> r is Err,
            entries_well_formed(netlist@) ==> match connections_of(
                distinct_bridges(entry_segments(netlist@)),
            ) {
                Some(cs) => r is Ok && r->Ok_0.0@ == cs,
                None => r is Err,
            },
    {
        let mut segs: Vec<String> = Vec::new();
        let mut i: usize = 0;
        while i < netlist.len()
            invariant
                i <= netlist@.len(),
                entries_well_formed(netlist@.subrange(0, i as int)),
                texts(segs@) == entry_segments(netlist@.subrange(0, i as int)),
            decreases netlist@.len() - i,
        {
            let b = chars_of(netlist[i].bridges.as_str());
            if b.len() < 2 {
                assert(!entries_well_formed(netlist@)) by {
                    assert(netlist@[i as int].bridges@.len() < 2);
                }
                return Err(NodeFileError::InvalidEntry(netlist[i].bridges.clone()));
            }
            let inner_s = string_of(&b, 1, b.len() - 1);
            let inner = chars_of(inner_s.as_str());
            push_segments(&mut segs, &inner);
            proof {
                let pre = netlist@.subrange(0, i + 1);
                assert(pre.drop_last() =~= netlist@.subrange(0, i as int));
                assert(pre.last() == netlist@[i as int]);
                assert forall|k: int| 0 <= k < pre.len() implies #[trigger] pre[k].bridges@.len() >= 2 by {
                    if k < i {
                        assert(pre[k] == netlist@.subrange(0, i as int)[k]);
                    }
                }
            }
            i = i + 1;
        }
        assert(netlist@.subrange(0, netlist@.len() as int) =~= netlist@);
        let ghost all = texts(segs@);
        proof {
            reveal_strlit("0-0");
            assert("0-0"@ =~= placeholder());
        }
        let zero = String::from_str("0-0");
        let mut uniq: Vec<String> = Vec::new();
        let mut j: usize = 0;
        while j < segs.len()
            invariant
                j <= segs@.len(),
                all == texts(segs@),
                zero@ == placeholder(),
                texts(uniq@) == distinct_bridges(all.subrange(0, j as int)),
            decreases segs@.len() - j,
        {
            proof {
                assert(all.subrange(0, j + 1).drop_last() =~= all.subrange(0, j as int));
                assert(all.subrange(0, j + 1).last() == segs@[j as int]@);
            }
            if !str_eq(segs[j].as_str(), zero.as_str()) && !contains_text(&uniq, &segs[j]) {
                let ghost before = uniq@;
                uniq.push(segs[j].clone());
                assert(texts(uniq@) =~= texts(before).push(segs@[j as int]@));
            }
            j = j + 1;
        }
        assert(all.subrange(0, all.len() as int) =~= all);
        let ghost ts = texts(uniq@);
        let mut conns: Vec<Connection> = Vec::new();
        let mut k: usize = 0;
        while k < uniq.len()
            invariant
                k <= uniq@.len(),
                ts == texts(uniq@),
                ts == distinct_bridges(entry_segments(netlist@)),
                connections_of(ts.subrange(0, k as int)) == Some(conns@),
            decreases uniq@.len() - k,
        {
            proof {
                assert(ts.subrange(0, k + 1).drop_last() =~= ts.subrange(0, k as int));
                assert(ts.subrange(0, k + 1).last() == uniq@[k as int]@);
            }
            match Connection::parse(uniq[k].as_str()) {
                Ok(c) => {
                    conns.push(c);
                },
                Err(e) => {
                    proof {
                        assert(connection_of(uniq@[k as int]@) is None);
                        lemma_connections_of_prefix_none(ts, k as int + 1);
                        assert(ts.subrange(0, ts.len() as int) =~= ts);
                    }
                    return Err(e);
                },
            }
            k = k + 1;
        }
        assert(ts.subrange(0, ts.len() as int) =~= ts);
        Ok(NodeFile(conns))
    }
}

/// Once a prefix of the segments fails to read, every longer one fails too.
proof fn lemma_connections_of_prefix_none(ts: Seq<Seq<char>>, k: int)
    requires
        0 <= k <= ts.len(),
        connections_of(ts.subrange(0, k)) is None,
    ensures
        connections_of(ts) is None,
    decreases ts.len() - k,
{
    if k < ts.len() {
        assert(ts.subrange(0, k + 1).drop_last() =~= ts.subrange(0, k));
        lemma_connections_of_prefix_none(ts, k + 1);
    } else {
        assert(ts.subrange(0, k) =~= ts);
    }
}

} // verus!
