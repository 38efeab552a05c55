//! The data exchanged with the breadboard: nodes, nets, colors, supply switch
//! positions and the messages that the board sends back.
use vstd::prelude::*;
use crate::text::{
    chars_of, decimal_text, hex_digit, hex_pair, hex_pair_value, is_digit_run, is_numeric_text,
    is_u8_text, lemma_hex_digit, push_char, push_decimal, push_hex_byte, push_str, read_digits,
    skip_repeated, str_eq, strip_repeated, u8_text_value, unsigned_digits,
};

verus! {

/// A connection point on the breadboard: a named rail, channel or pin, or a
/// numbered column.
#[allow(non_camel_case_types)]
#[derive(Debug, Clone, Copy, PartialEq, Eq, Structural)]
pub enum Node {
    GND,
    SUPPLY_5V,
    SUPPLY_3V3,
    DAC0,
    DAC1,
    ISENSE_MINUS,
    ISENSE_PLUS,
    ADC0,
    ADC1,
    ADC2,
    ADC3,
    NANO_D0,
    NANO_D1,
    NANO_D2,
    NANO_D3,
    NANO_D4,
    NANO_D5,
    NANO_D6,
    NANO_D7,
    NANO_D8,
    NANO_D9,
    NANO_D10,
    NANO_D11,
    NANO_D12,
    NANO_D13,
    NANO_A0,
    NANO_A1,
    NANO_A2,
    NANO_A3,
    NANO_A4,
    NANO_A5,
    NANO_A6,
    NANO_A7,
    NANO_RESET,
    NANO_AREF,
    RP_GPIO_0,
    RP_UART_Rx,
    RP_UART_Tx,
    Column(u8),
}

/// Why a node token was refused.
#[derive(Debug, Clone, PartialEq)]
pub enum NodeError {
    /// A number that is not a column (outside 1 to 60).
    InvalidNumber,
    /// Text that names no node.
    Unknown(String),
}

/// The node that a token stands for: a column number from 1 to 60 (written as
/// `u8::from_str` accepts it), or a canonical name or alias.
pub open spec fn parse_node(s: Seq<char>) -> Option<Node> {
    if is_u8_text(s) {
        if 1 <= u8_text_value(s) <= 60 {
            Some(Node::Column(u8_text_value(s) as u8))
        } else {
            None
        }
    } else if is_numeric_text(s) {
        None
    } else {
        match canonical_lookup(s) {
            Some(n) => Some(n),
            None => alias_lookup(s),
        }
    }
}

pub open spec fn is_column_number(n: u8) -> bool {
    1 <= n <= 60
}

/// The canonical text of a node: its name, or the column number.
#[verifier::opaque]
pub open spec fn node_text(n: Node) -> Seq<char> {
    match n {
        Node::GND => seq!['G', 'N', 'D'],
        Node::SUPPLY_5V => seq!['S', 'U', 'P', 'P', 'L', 'Y', '_', '5', 'V'],
        Node::SUPPLY_3V3 => seq!['S', 'U', 'P', 'P', 'L', 'Y', '_', '3', 'V', '3'],
        Node::DAC0 => seq!['D', 'A', 'C', '0'],
        Node::DAC1 => seq!['D', 'A', 'C', '1'],
        Node::ISENSE_MINUS => seq!['I', 'S', 'E', 'N', 'S', 'E', '_', 'M', 'I', 'N', 'U', 'S'],
        Node::ISENSE_PLUS => seq!['I', 'S', 'E', 'N', 'S', 'E', '_', 'P', 'L', 'U', 'S'],
        Node::ADC0 => seq!['A', 'D', 'C', '0'],
        Node::ADC1 => seq!['A', 'D', 'C', '1'],
        Node::ADC2 => seq!['A', 'D', 'C', '2'],
        Node::ADC3 => seq!['A', 'D', 'C', '3'],
        Node::NANO_D0 => seq!['N', 'A', 'N', 'O', '_', 'D', '0'],
        Node::NANO_D1 => seq!['N', 'A', 'N', 'O', '_', 'D', '1'],
        Node::NANO_D2 => seq!['N', 'A', 'N', 'O', '_', 'D', '2'],
        Node::NANO_D3 => seq!['N', 'A', 'N', 'O', '_', 'D', '3'],
        Node::NANO_D4 => seq!['N', 'A', 'N', 'O', '_', 'D', '4'],
        Node::NANO_D5 => seq!['N', 'A', 'N', 'O', '_', 'D', '5'],
        Node::NANO_D6 => seq!['N', 'A', 'N', 'O', '_', 'D', '6'],
        Node::NANO_D7 => seq!['N', 'A', 'N', 'O', '_', 'D', '7'],
        Node::NANO_D8 => seq!['N', 'A', 'N', 'O', '_', 'D', '8'],
        Node::NANO_D9 => seq!['N', 'A', 'N', 'O', '_', 'D', '9'],
        Node::NANO_D10 => seq!['N', 'A', 'N', 'O', '_', 'D', '1', '0'],
        Node::NANO_D11 => seq!['N', 'A', 'N', 'O', '_', 'D', '1', '1'],
        Node::NANO_D12 => seq!['N', 'A', 'N', 'O', '_', 'D', '1', '2'],
        Node::NANO_D13 => seq!['N', 'A', 'N', 'O', '_', 'D', '1', '3'],
        Node::NANO_A0 => seq!['N', 'A', 'N', 'O', '_', 'A', '0'],
        Node::NANO_A1 => seq!['N', 'A', 'N', 'O', '_', 'A', '1'],
        Node::NANO_A2 => seq!['N', 'A', 'N', 'O', '_', 'A', '2'],
        Node::NANO_A3 => seq!['N', 'A', 'N', 'O', '_', 'A', '3'],
        Node::NANO_A4 => seq!['N', 'A', 'N', 'O', '_', 'A', '4'],
        Node::NANO_A5 => seq!['N', 'A', 'N', 'O', '_', 'A', '5'],
        Node::NANO_A6 => seq!['N', 'A', 'N', 'O', '_', 'A', '6'],
        Node::NANO_A7 => seq!['N', 'A', 'N', 'O', '_', 'A', '7'],
        Node::NANO_RESET => seq!['N', 'A', 'N', 'O', '_', 'R', 'E', 'S', 'E', 'T'],
        Node::NANO_AREF => seq!['N', 'A', 'N', 'O', '_', 'A', 'R', 'E', 'F'],
        Node::RP_GPIO_0 => seq!['R', 'P', '_', 'G', 'P', 'I', 'O', '_', '0'],
        Node::RP_UART_Rx => seq!['R', 'P', '_', 'U', 'A', 'R', 'T', '_', 'R', 'x'],
        Node::RP_UART_Tx => seq!['R', 'P', '_', 'U', 'A', 'R', 'T', '_', 'T', 'x'],
        Node::Column(k) => decimal_text(k as nat),
    }
}

/// The node whose canonical name is `s`.
#[verifier::opaque]
pub open spec fn canonical_lookup(s: Seq<char>) -> Option<Node> {
    if s == seq!['G', 'N', 'D'] {
        Some(Node::GND)
    } else if s == seq!['S', 'U', 'P', 'P', 'L', 'Y', '_', '5', 'V'] {
        Some(Node::SUPPLY_5V)
    } else if s == seq!['S', 'U', 'P', 'P', 'L', 'Y', '_', '3', 'V', '3'] {
        Some(Node::SUPPLY_3V3)
    } else if s == seq!['D', 'A', 'C', '0'] {
        Some(Node::DAC0)
    } else if s == seq!['D', 'A', 'C', '1'] {
        Some(Node::DAC1)
    } else if s == seq!['I', 'S', 'E', 'N', 'S', 'E', '_', 'M', 'I', 'N', 'U', 'S'] {
        Some(Node::ISENSE_MINUS)
    } else if s == seq!['I', 'S', 'E', 'N', 'S', 'E', '_', 'P', 'L', 'U', 'S'] {
        Some(Node::ISENSE_PLUS)
    } else if s == seq!['A', 'D', 'C', '0'] {
        Some(Node::ADC0)
    } else if s == seq!['A', 'D', 'C', '1'] {
        Some(Node::ADC1)
    } else if s == seq!['A', 'D', 'C', '2'] {
        Some(Node::ADC2)
    } else if s == seq!['A', 'D', 'C', '3'] {
        Some(Node::ADC3)
    } else if s == seq!['N', 'A', 'N', 'O', '_', 'D', '0'] {
        Some(Node::NANO_D0)
    } else if s == seq!['N', 'A', 'N', 'O', '_', 'D', '1'] {
        Some(Node::NANO_D1)
    } else if s == seq!['N', 'A', 'N', 'O', '_', 'D', '2'] {
        Some(Node::NANO_D2)
    } else if s == seq!['N', 'A', 'N', 'O', '_', 'D', '3'] {
        Some(Node::NANO_D3)
    } else if s == seq!['N', 'A', 'N', 'O', '_', 'D', '4'] {
        Some(Node::NANO_D4)
    } else if s == seq!['N', 'A', 'N', 'O', '_', 'D', '5'] {
        Some(Node::NANO_D5)
    } else if s == seq!['N', 'A', 'N', 'O', '_', 'D', '6'] {
        Some(Node::NANO_D6)
    } else if s == seq!['N', 'A', 'N', 'O', '_', 'D', '7'] {
        Some(Node::NANO_D7)
    } else if s == seq!['N', 'A', 'N', 'O', '_', 'D', '8'] {
        Some(Node::NANO_D8)
    } else if s == seq!['N', 'A', 'N', 'O', '_', 'D', '9'] {
        Some(Node::NANO_D9)
    } else if s == seq!['N', 'A', 'N', 'O', '_', 'D', '1', '0'] {
        Some(Node::NANO_D10)
    } else if s == seq!['N', 'A', 'N', 'O', '_', 'D', '1', '1'] {
        Some(Node::NANO_D11)
    } else if s == seq!['N', 'A', 'N', 'O', '_', 'D', '1', '2'] {
        Some(Node::NANO_D12)
    } else if s == seq!['N', 'A', 'N', 'O', '_', 'D', '1', '3'] {
        Some(Node::NANO_D13)
    } else if s == seq!['N', 'A', 'N', 'O', '_', 'A', '0'] {
        Some(Node::NANO_A0)
    } else if s == seq!['N', 'A', 'N', 'O', '_', 'A', '1'] {
        Some(Node::NANO_A1)
    } else if s == seq!['N', 'A', 'N', 'O', '_', 'A', '2'] {
        Some(Node::NANO_A2)
    } else if s == seq!['N', 'A', 'N', 'O', '_', 'A', '3'] {
        Some(Node::NANO_A3)
    } else if s == seq!['N', 'A', 'N', 'O', '_', 'A', '4'] {
        Some(Node::NANO_A4)
    } else if s == seq!['N', 'A', 'N', 'O', '_', 'A', '5'] {
        Some(Node::NANO_A5)
    } else if s == seq!['N', 'A', 'N', 'O', '_', 'A', '6'] {
        Some(Node::NANO_A6)
    } else if s == seq!['N', 'A', 'N', 'O', '_', 'A', '7'] {
        Some(Node::NANO_A7)
    } else if s == seq!['N', 'A', 'N', 'O', '_', 'R', 'E', 'S', 'E', 'T'] {
        Some(Node::NANO_RESET)
    } else if s == seq!['N', 'A', 'N', 'O', '_', 'A', 'R', 'E', 'F'] {
        Some(Node::NANO_AREF)
    } else if s == seq!['R', 'P', '_', 'G', 'P', 'I', 'O', '_', '0'] {
        Some(Node::RP_GPIO_0)
    } else if s == seq!['R', 'P', '_', 'U', 'A', 'R', 'T', '_', 'R', 'x'] {
        Some(Node::RP_UART_Rx)
    } else if s == seq!['R', 'P', '_', 'U', 'A', 'R', 'T', '_', 'T', 'x'] {
        Some(Node::RP_UART_Tx)
    } else {
        None
    }
}

/// The node that the alias `s` stands for.
#[verifier::opaque]
pub open spec fn alias_lookup(s: Seq<char>) -> Option<Node> {
    if s == seq!['5', 'V'] {
        Some(Node::SUPPLY_5V)
    } else if s == seq!['3', 'V', '3'] {
        Some(Node::SUPPLY_3V3)
    } else if s == seq!['D', 'A', 'C', '0', '_', '5', 'V'] {
        Some(Node::DAC0)
    } else if s == seq!['D', 'A', 'C', '1', '_', '8', 'V'] {
        Some(Node::DAC1)
    } else if s == seq!['I', '_', 'N'] {
        Some(Node::ISENSE_MINUS)
    } else if s == seq!['I', '_', 'P'] {
        Some(Node::ISENSE_PLUS)
    } else if s == seq!['A', 'D', 'C', '0', '_', '5', 'V'] {
        Some(Node::ADC0)
    } else if s == seq!['A', 'D', 'C', '1', '_', '5', 'V'] {
        Some(Node::ADC1)
    } else if s == seq!['A', 'D', 'C', '2', '_', '5', 'V'] {
        Some(Node::ADC2)
    } else if s == seq!['A', 'D', 'C', '3', '_', '8', 'V'] {
        Some(Node::ADC3)
    } else if s == seq!['D', '0'] {
        Some(Node::NANO_D0)
    } else if s == seq!['D', '1'] {
        Some(Node::NANO_D1)
    } else if s == seq!['D', '2'] {
        Some(Node::NANO_D2)
    } else if s == seq!['D', '3'] {
        Some(Node::NANO_D3)
    } else if s == seq!['D', '4'] {
        Some(Node::NANO_D4)
    } else if s == seq!['D', '5'] {
        Some(Node::NANO_D5)
    } else if s == seq!['D', '6'] {
        Some(Node::NANO_D6)
    } else if s == seq!['D', '7'] {
        Some(Node::NANO_D7)
    } else if s == seq!['D', '8'] {
        Some(Node::NANO_D8)
    } else if s == seq!['D', '9'] {
        Some(Node::NANO_D9)
    } else if s == seq!['D', '1', '0'] {
        Some(Node::NANO_D10)
    } else if s == seq!['D', '1', '1'] {
        Some(Node::NANO_D11)
    } else if s == seq!['D', '1', '2'] {
        Some(Node::NANO_D12)
    } else if s == seq!['D', '1', '3'] {
        Some(Node::NANO_D13)
    } else if s == seq!['A', '0'] {
        Some(Node::NANO_A0)
    } else if s == seq!['A', '1'] {
        Some(Node::NANO_A1)
    } else if s == seq!['A', '2'] {
        Some(Node::NANO_A2)
    } else if s == seq!['A', '3'] {
        Some(Node::NANO_A3)
    } else if s == seq!['A', '4'] {
        Some(Node::NANO_A4)
    } else if s == seq!['A', '5'] {
        Some(Node::NANO_A5)
    } else if s == seq!['A', '6'] {
        Some(Node::NANO_A6)
    } else if s == seq!['A', '7'] {
        Some(Node::NANO_A7)
    } else if s == seq!['R', 'E', 'S', 'E', 'T'] {
        Some(Node::NANO_RESET)
    } else if s == seq!['A', 'R', 'E', 'F'] {
        Some(Node::NANO_AREF)
    } else if s == seq!['G', 'P', 'I', 'O', '_', '0'] {
        Some(Node::RP_GPIO_0)
    } else if s == seq!['U', 'A', 'R', 'T', '_', 'R', 'x'] {
        Some(Node::RP_UART_Rx)
    } else if s == seq!['U', 'A', 'R', 'T', '_', 'T', 'x'] {
        Some(Node::RP_UART_Tx)
    } else if s == seq!['D', 'A', 'C', ' ', '0'] {
        Some(Node::DAC0)
    } else if s == seq!['D', 'A', 'C', ' ', '1'] {
        Some(Node::DAC1)
    } else if s == seq!['D', 'A', 'C', '_', '0'] {
        Some(Node::DAC0)
    } else if s == seq!['D', 'A', 'C', '_', '1'] {
        Some(Node::DAC1)
    } else if s == seq!['I', '_', 'N', 'E', 'G'] {
        Some(Node::ISENSE_MINUS)
    } else if s == seq!['I', '_', 'P', 'O', 'S'] {
        Some(Node::ISENSE_PLUS)
    } else if s == seq!['A', 'D', 'C', '_', '0'] {
        Some(Node::ADC0)
    } else if s == seq!['A', 'D', 'C', '_', '1'] {
        Some(Node::ADC1)
    } else if s == seq!['A', 'D', 'C', '_', '2'] {
        Some(Node::ADC2)
    } else if s == seq!['A', 'D', 'C', '_', '3'] {
        Some(Node::ADC3)
    } else if s == seq!['G', 'P', 'I', 'O', '_', '1', '6'] {
        Some(Node::RP_UART_Rx)
    } else if s == seq!['G', 'P', 'I', 'O', '_', '1', '7'] {
        Some(Node::RP_UART_Tx)
    } else {
        None
    }
}

/// Looks `s` up among the canonical names, then among the aliases.
fn lookup_name(s: &str) -> (r: Option<Node>)
    ensures
        r == (match canonical_lookup(s@) {
            Some(n) => Some(n),
            None => alias_lookup(s@),
        }),
{
    reveal(canonical_lookup);
    reveal(alias_lookup);
    proof {
        reveal_strlit("GND");
        assert("GND"@ =~= seq!['G', 'N', 'D']);
    }
    if str_eq(s, "GND") {
        return Some(Node::GND);
    }
    proof {
        reveal_strlit("SUPPLY_5V");
        assert("SUPPLY_5V"@ =~= seq!['S', 'U', 'P', 'P', 'L', 'Y', '_', '5', 'V']);
    }
    if str_eq(s, "SUPPLY_5V") {
        return Some(Node::SUPPLY_5V);
    }
    proof {
        reveal_strlit("SUPPLY_3V3");
        assert("SUPPLY_3V3"@ =~= seq!['S', 'U', 'P', 'P', 'L', 'Y', '_', '3', 'V', '3']);
    }
    if str_eq(s, "SUPPLY_3V3") {
        return Some(Node::SUPPLY_3V3);
    }
    proof {
        reveal_strlit("DAC0");
        assert("DAC0"@ =~= seq!['D', 'A', 'C', '0']);
    }
    if str_eq(s, "DAC0") {
        return Some(Node::DAC0);
    }
    proof {
        reveal_strlit("DAC1");
        assert("DAC1"@ =~= seq!['D', 'A', 'C', '1']);
    }
    if str_eq(s, "DAC1") {
        return Some(Node::DAC1);
    }
    proof {
        reveal_strlit("ISENSE_MINUS");
        assert("ISENSE_MINUS"@ =~= seq!['I', 'S', 'E', 'N', 'S', 'E', '_', 'M', 'I', 'N', 'U', 'S']);
    }
    if str_eq(s, "ISENSE_MINUS") {
        return Some(Node::ISENSE_MINUS);
    }
    proof {
        reveal_strlit("ISENSE_PLUS");
        assert("ISENSE_PLUS"@ =~= seq!['I', 'S', 'E', 'N', 'S', 'E', '_', 'P', 'L', 'U', 'S']);
    }
    if str_eq(s, "ISENSE_PLUS") {
        return Some(Node::ISENSE_PLUS);
    }
    proof {
        reveal_strlit("ADC0");
        assert("ADC0"@ =~= seq!['A', 'D', 'C', '0']);
    }
    if str_eq(s, "ADC0") {
        return Some(Node::ADC0);
    }
    proof {
        reveal_strlit("ADC1");
        assert("ADC1"@ =~= seq!['A', 'D', 'C', '1']);
    }
    if str_eq(s, "ADC1") {
        return Some(Node::ADC1);
    }
    proof {
        reveal_strlit("ADC2");
        assert("ADC2"@ =~= seq!['A', 'D', 'C', '2']);
    }
    if str_eq(s, "ADC2") {
        return Some(Node::ADC2);
    }
    proof {
        reveal_strlit("ADC3");
        assert("ADC3"@ =~= seq!['A', 'D', 'C', '3']);
    }
    if str_eq(s, "ADC3") {
        return Some(Node::ADC3);
    }
    proof {
        reveal_strlit("NANO_D0");
        assert("NANO_D0"@ =~= seq!['N', 'A', 'N', 'O', '_', 'D', '0']);
    }
    if str_eq(s, "NANO_D0") {
        return Some(Node::NANO_D0);
    }
    proof {
        reveal_strlit("NANO_D1");
        assert("NANO_D1"@ =~= seq!['N', 'A', 'N', 'O', '_', 'D', '1']);
    }
    if str_eq(s, "NANO_D1") {
        return Some(Node::NANO_D1);
    }
    proof {
        reveal_strlit("NANO_D2");
        assert("NANO_D2"@ =~= seq!['N', 'A', 'N', 'O', '_', 'D', '2']);
    }
    if str_eq(s, "NANO_D2") {
        return Some(Node::NANO_D2);
    }
    proof {
        reveal_strlit("NANO_D3");
        assert("NANO_D3"@ =~= seq!['N', 'A', 'N', 'O', '_', 'D', '3']);
    }
    if str_eq(s, "NANO_D3") {
        return Some(Node::NANO_D3);
    }
    proof {
        reveal_strlit("NANO_D4");
        assert("NANO_D4"@ =~= seq!['N', 'A', 'N', 'O', '_', 'D', '4']);
    }
    if str_eq(s, "NANO_D4") {
        return Some(Node::NANO_D4);
    }
    proof {
        reveal_strlit("NANO_D5");
        assert("NANO_D5"@ =~= seq!['N', 'A', 'N', 'O', '_', 'D', '5']);
    }
    if str_eq(s, "NANO_D5") {
        return Some(Node::NANO_D5);
    }
    proof {
        reveal_strlit("NANO_D6");
        assert("NANO_D6"@ =~= seq!['N', 'A', 'N', 'O', '_', 'D', '6']);
    }
    if str_eq(s, "NANO_D6") {
        return Some(Node::NANO_D6);
    }
    proof {
        reveal_strlit("NANO_D7");
        assert("NANO_D7"@ =~= seq!['N', 'A', 'N', 'O', '_', 'D', '7']);
    }
    if str_eq(s, "NANO_D7") {
        return Some(Node::NANO_D7);
    }
    proof {
        reveal_strlit("NANO_D8");
        assert("NANO_D8"@ =~= seq!['N', 'A', 'N', 'O', '_', 'D', '8']);
    }
    if str_eq(s, "NANO_D8") {
        return Some(Node::NANO_D8);
    }
    proof {
        reveal_strlit("NANO_D9");
        assert("NANO_D9"@ =~= seq!['N', 'A', 'N', 'O', '_', 'D', '9']);
    }
    if str_eq(s, "NANO_D9") {
        return Some(Node::NANO_D9);
    }
    proof {
        reveal_strlit("NANO_D10");
        assert("NANO_D10"@ =~= seq!['N', 'A', 'N', 'O', '_', 'D', '1', '0']);
    }
    if str_eq(s, "NANO_D10") {
        return Some(Node::NANO_D10);
    }
    proof {
        reveal_strlit("NANO_D11");
        assert("NANO_D11"@ =~= seq!['N', 'A', 'N', 'O', '_', 'D', '1', '1']);
    }
    if str_eq(s, "NANO_D11") {
        return Some(Node::NANO_D11);
    }
    proof {
        reveal_strlit("NANO_D12");
        assert("NANO_D12"@ =~= seq!['N', 'A', 'N', 'O', '_', 'D', '1', '2']);
    }
    if str_eq(s, "NANO_D12") {
        return Some(Node::NANO_D12);
    }
    proof {
        reveal_strlit("NANO_D13");
        assert("NANO_D13"@ =~= seq!['N', 'A', 'N', 'O', '_', 'D', '1', '3']);
    }
    if str_eq(s, "NANO_D13") {
        return Some(Node::NANO_D13);
    }
    proof {
        reveal_strlit("NANO_A0");
        assert("NANO_A0"@ =~= seq!['N', 'A', 'N', 'O', '_', 'A', '0']);
    }
    if str_eq(s, "NANO_A0") {
        return Some(Node::NANO_A0);
    }
    proof {
        reveal_strlit("NANO_A1");
        assert("NANO_A1"@ =~= seq!['N', 'A', 'N', 'O', '_', 'A', '1']);
    }
    if str_eq(s, "NANO_A1") {
        return Some(Node::NANO_A1);
    }
    proof {
        reveal_strlit("NANO_A2");
        assert("NANO_A2"@ =~= seq!['N', 'A', 'N', 'O', '_', 'A', '2']);
    }
    if str_eq(s, "NANO_A2") {
        return Some(Node::NANO_A2);
    }
    proof {
        reveal_strlit("NANO_A3");
        assert("NANO_A3"@ =~= seq!['N', 'A', 'N', 'O', '_', 'A', '3']);
    }
    if str_eq(s, "NANO_A3") {
        return Some(Node::NANO_A3);
    }
    proof {
        reveal_strlit("NANO_A4");
        assert("NANO_A4"@ =~= seq!['N', 'A', 'N', 'O', '_', 'A', '4']);
    }
    if str_eq(s, "NANO_A4") {
        return Some(Node::NANO_A4);
    }
    proof {
        reveal_strlit("NANO_A5");
        assert("NANO_A5"@ =~= seq!['N', 'A', 'N', 'O', '_', 'A', '5']);
    }
    if str_eq(s, "NANO_A5") {
        return Some(Node::NANO_A5);
    }
    proof {
        reveal_strlit("NANO_A6");
        assert("NANO_A6"@ =~= seq!['N', 'A', 'N', 'O', '_', 'A', '6']);
    }
    if str_eq(s, "NANO_A6") {
        return Some(Node::NANO_A6);
    }
    proof {
        reveal_strlit("NANO_A7");
        assert("NANO_A7"@ =~= seq!['N', 'A', 'N', 'O', '_', 'A', '7']);
    }
    if str_eq(s, "NANO_A7") {
        return Some(Node::NANO_A7);
    }
    proof {
        reveal_strlit("NANO_RESET");
        assert("NANO_RESET"@ =~= seq!['N', 'A', 'N', 'O', '_', 'R', 'E', 'S', 'E', 'T']);
    }
    if str_eq(s, "NANO_RESET") {
        return Some(Node::NANO_RESET);
    }
    proof {
        reveal_strlit("NANO_AREF");
        assert("NANO_AREF"@ =~= seq!['N', 'A', 'N', 'O', '_', 'A', 'R', 'E', 'F']);
    }
    if str_eq(s, "NANO_AREF") {
        return Some(Node::NANO_AREF);
    }
    proof {
        reveal_strlit("RP_GPIO_0");
        assert("RP_GPIO_0"@ =~= seq!['R', 'P', '_', 'G', 'P', 'I', 'O', '_', '0']);
    }
    if str_eq(s, "RP_GPIO_0") {
        return Some(Node::RP_GPIO_0);
    }
    proof {
        reveal_strlit("RP_UART_Rx");
        assert("RP_UART_Rx"@ =~= seq!['R', 'P', '_', 'U', 'A', 'R', 'T', '_', 'R', 'x']);
    }
    if str_eq(s, "RP_UART_Rx") {
        return Some(Node::RP_UART_Rx);
    }
    proof {
        reveal_strlit("RP_UART_Tx");
        assert("RP_UART_Tx"@ =~= seq!['R', 'P', '_', 'U', 'A', 'R', 'T', '_', 'T', 'x']);
    }
    if str_eq(s, "RP_UART_Tx") {
        return Some(Node::RP_UART_Tx);
    }
    proof {
        reveal_strlit("5V");
        assert("5V"@ =~= seq!['5', 'V']);
    }
    if str_eq(s, "5V") {
        return Some(Node::SUPPLY_5V);
    }
    proof {
        reveal_strlit("3V3");
        assert("3V3"@ =~= seq!['3', 'V', '3']);
    }
    if str_eq(s, "3V3") {
        return Some(Node::SUPPLY_3V3);
    }
    proof {
        reveal_strlit("DAC0_5V");
        assert("DAC0_5V"@ =~= seq!['D', 'A', 'C', '0', '_', '5', 'V']);
    }
    if str_eq(s, "DAC0_5V") {
        return Some(Node::DAC0);
    }
    proof {
        reveal_strlit("DAC1_8V");
        assert("DAC1_8V"@ =~= seq!['D', 'A', 'C', '1', '_', '8', 'V']);
    }
    if str_eq(s, "DAC1_8V") {
        return Some(Node::DAC1);
    }
    proof {
        reveal_strlit("I_N");
        assert("I_N"@ =~= seq!['I', '_', 'N']);
    }
    if str_eq(s, "I_N") {
        return Some(Node::ISENSE_MINUS);
    }
    proof {
        reveal_strlit("I_P");
        assert("I_P"@ =~= seq!['I', '_', 'P']);
    }
    if str_eq(s, "I_P") {
        return Some(Node::ISENSE_PLUS);
    }
    proof {
        reveal_strlit("ADC0_5V");
        assert("ADC0_5V"@ =~= seq!['A', 'D', 'C', '0', '_', '5', 'V']);
    }
    if str_eq(s, "ADC0_5V") {
        return Some(Node::ADC0);
    }
    proof {
        reveal_strlit("ADC1_5V");
        assert("ADC1_5V"@ =~= seq!['A', 'D', 'C', '1', '_', '5', 'V']);
    }
    if str_eq(s, "ADC1_5V") {
        return Some(Node::ADC1);
    }
    proof {
        reveal_strlit("ADC2_5V");
        assert("ADC2_5V"@ =~= seq!['A', 'D', 'C', '2', '_', '5', 'V']);
    }
    if str_eq(s, "ADC2_5V") {
        return Some(Node::ADC2);
    }
    proof {
        reveal_strlit("ADC3_8V");
        assert("ADC3_8V"@ =~= seq!['A', 'D', 'C', '3', '_', '8', 'V']);
    }
    if str_eq(s, "ADC3_8V") {
        return Some(Node::ADC3);
    }
    proof {
        reveal_strlit("D0");
        assert("D0"@ =~= seq!['D', '0']);
    }
    if str_eq(s, "D0") {
        return Some(Node::NANO_D0);
    }
    proof {
        reveal_strlit("D1");
        assert("D1"@ =~= seq!['D', '1']);
    }
    if str_eq(s, "D1") {
        return Some(Node::NANO_D1);
    }
    proof {
        reveal_strlit("D2");
        assert("D2"@ =~= seq!['D', '2']);
    }
    if str_eq(s, "D2") {
        return Some(Node::NANO_D2);
    }
    proof {
        reveal_strlit("D3");
        assert("D3"@ =~= seq!['D', '3']);
    }
    if str_eq(s, "D3") {
        return Some(Node::NANO_D3);
    }
    proof {
        reveal_strlit("D4");
        assert("D4"@ =~= seq!['D', '4']);
    }
    if str_eq(s, "D4") {
        return Some(Node::NANO_D4);
    }
    proof {
        reveal_strlit("D5");
        assert("D5"@ =~= seq!['D', '5']);
    }
    if str_eq(s, "D5") {
        return Some(Node::NANO_D5);
    }
    proof {
        reveal_strlit("D6");
        assert("D6"@ =~= seq!['D', '6']);
    }
    if str_eq(s, "D6") {
        return Some(Node::NANO_D6);
    }
    proof {
        reveal_strlit("D7");
        assert("D7"@ =~= seq!['D', '7']);
    }
    if str_eq(s, "D7") {
        return Some(Node::NANO_D7);
    }
    proof {
        reveal_strlit("D8");
        assert("D8"@ =~= seq!['D', '8']);
    }
    if str_eq(s, "D8") {
        return Some(Node::NANO_D8);
    }
    proof {
        reveal_strlit("D9");
        assert("D9"@ =~= seq!['D', '9']);
    }
    if str_eq(s, "D9") {
        return Some(Node::NANO_D9);
    }
    proof {
        reveal_strlit("D10");
        assert("D10"@ =~= seq!['D', '1', '0']);
    }
    if str_eq(s, "D10") {
        return Some(Node::NANO_D10);
    }
    proof {
        reveal_strlit("D11");
        assert("D11"@ =~= seq!['D', '1', '1']);
    }
    if str_eq(s, "D11") {
        return Some(Node::NANO_D11);
    }
    proof {
        reveal_strlit("D12");
        assert("D12"@ =~= seq!['D', '1', '2']);
    }
    if str_eq(s, "D12") {
        return Some(Node::NANO_D12);
    }
    proof {
        reveal_strlit("D13");
        assert("D13"@ =~= seq!['D', '1', '3']);
    }
    if str_eq(s, "D13") {
        return Some(Node::NANO_D13);
    }
    proof {
        reveal_strlit("A0");
        assert("A0"@ =~= seq!['A', '0']);
    }
    if str_eq(s, "A0") {
        return Some(Node::NANO_A0);
    }
    proof {
        reveal_strlit("A1");
        assert("A1"@ =~= seq!['A', '1']);
    }
    if str_eq(s, "A1") {
        return Some(Node::NANO_A1);
    }
    proof {
        reveal_strlit("A2");
        assert("A2"@ =~= seq!['A', '2']);
    }
    if str_eq(s, "A2") {
        return Some(Node::NANO_A2);
    }
    proof {
        reveal_strlit("A3");
        assert("A3"@ =~= seq!['A', '3']);
    }
    if str_eq(s, "A3") {
        return Some(Node::NANO_A3);
    }
    proof {
        reveal_strlit("A4");
        assert("A4"@ =~= seq!['A', '4']);
    }
    if str_eq(s, "A4") {
        return Some(Node::NANO_A4);
    }
    proof {
        reveal_strlit("A5");
        assert("A5"@ =~= seq!['A', '5']);
    }
    if str_eq(s, "A5") {
        return Some(Node::NANO_A5);
    }
    proof {
        reveal_strlit("A6");
        assert("A6"@ =~= seq!['A', '6']);
    }
    if str_eq(s, "A6") {
        return Some(Node::NANO_A6);
    }
    proof {
        reveal_strlit("A7");
        assert("A7"@ =~= seq!['A', '7']);
    }
    if str_eq(s, "A7") {
        return Some(Node::NANO_A7);
    }
    proof {
        reveal_strlit("RESET");
        assert("RESET"@ =~= seq!['R', 'E', 'S', 'E', 'T']);
    }
    if str_eq(s, "RESET") {
        return Some(Node::NANO_RESET);
    }
    proof {
        reveal_strlit("AREF");
        assert("AREF"@ =~= seq!['A', 'R', 'E', 'F']);
    }
    if str_eq(s, "AREF") {
        return Some(Node::NANO_AREF);
    }
    proof {
        reveal_strlit("GPIO_0");
        assert("GPIO_0"@ =~= seq!['G', 'P', 'I', 'O', '_', '0']);
    }
    if str_eq(s, "GPIO_0") {
        return Some(Node::RP_GPIO_0);
    }
    proof {
        reveal_strlit("UART_Rx");
        assert("UART_Rx"@ =~= seq!['U', 'A', 'R', 'T', '_', 'R', 'x']);
    }
    if str_eq(s, "UART_Rx") {
        return Some(Node::RP_UART_Rx);
    }
    proof {
        reveal_strlit("UART_Tx");
        assert("UART_Tx"@ =~= seq!['U', 'A', 'R', 'T', '_', 'T', 'x']);
    }
    if str_eq(s, "UART_Tx") {
        return Some(Node::RP_UART_Tx);
    }
    proof {
        reveal_strlit("DAC 0");
        assert("DAC 0"@ =~= seq!['D', 'A', 'C', ' ', '0']);
    }
    if str_eq(s, "DAC 0") {
        return Some(Node::DAC0);
    }
    proof {
        reveal_strlit("DAC 1");
        assert("DAC 1"@ =~= seq!['D', 'A', 'C', ' ', '1']);
    }
    if str_eq(s, "DAC 1") {
        return Some(Node::DAC1);
    }
    proof {
        reveal_strlit("DAC_0");
        assert("DAC_0"@ =~= seq!['D', 'A', 'C', '_', '0']);
    }
    if str_eq(s, "DAC_0") {
        return Some(Node::DAC0);
    }
    proof {
        reveal_strlit("DAC_1");
        assert("DAC_1"@ =~= seq!['D', 'A', 'C', '_', '1']);
    }
    if str_eq(s, "DAC_1") {
        return Some(Node::DAC1);
    }
    proof {
        reveal_strlit("I_NEG");
        assert("I_NEG"@ =~= seq!['I', '_', 'N', 'E', 'G']);
    }
    if str_eq(s, "I_NEG") {
        return Some(Node::ISENSE_MINUS);
    }
    proof {
        reveal_strlit("I_POS");
        assert("I_POS"@ =~= seq!['I', '_', 'P', 'O', 'S']);
    }
    if str_eq(s, "I_POS") {
        return Some(Node::ISENSE_PLUS);
    }
    proof {
        reveal_strlit("ADC_0");
        assert("ADC_0"@ =~= seq!['A', 'D', 'C', '_', '0']);
    }
    if str_eq(s, "ADC_0") {
        return Some(Node::ADC0);
    }
    proof {
        reveal_strlit("ADC_1");
        assert("ADC_1"@ =~= seq!['A', 'D', 'C', '_', '1']);
    }
    if str_eq(s, "ADC_1") {
        return Some(Node::ADC1);
    }
    proof {
        reveal_strlit("ADC_2");
        assert("ADC_2"@ =~= seq!['A', 'D', 'C', '_', '2']);
    }
    if str_eq(s, "ADC_2") {
        return Some(Node::ADC2);
    }
    proof {
        reveal_strlit("ADC_3");
        assert("ADC_3"@ =~= seq!['A', 'D', 'C', '_', '3']);
    }
    if str_eq(s, "ADC_3") {
        return Some(Node::ADC3);
    }
    proof {
        reveal_strlit("GPIO_16");
        assert("GPIO_16"@ =~= seq!['G', 'P', 'I', 'O', '_', '1', '6']);
    }
    if str_eq(s, "GPIO_16") {
        return Some(Node::RP_UART_Rx);
    }
    proof {
        reveal_strlit("GPIO_17");
        assert("GPIO_17"@ =~= seq!['G', 'P', 'I', 'O', '_', '1', '7']);
    }
    if str_eq(s, "GPIO_17") {
        return Some(Node::RP_UART_Tx);
    }
    None
}

impl Node {
    /// The canonical text of the node.
    pub fn to_string(&self) -> (r: String)
        ensures
            r@ == node_text(*self),
    {
        reveal(node_text);
        let lit: &str = match self {
            Node::GND => {
                proof {
                    reveal_strlit("GND");
                    assert("GND"@ =~= seq!['G', 'N', 'D']);
                }
                "GND"
            },
            Node::SUPPLY_5V => {
                proof {
                    reveal_strlit("SUPPLY_5V");
                    assert("SUPPLY_5V"@ =~= seq!['S', 'U', 'P', 'P', 'L', 'Y', '_', '5', 'V']);
                }
                "SUPPLY_5V"
            },
            Node::SUPPLY_3V3 => {
                proof {
                    reveal_strlit("SUPPLY_3V3");
                    assert("SUPPLY_3V3"@ =~= seq!['S', 'U', 'P', 'P', 'L', 'Y', '_', '3', 'V', '3']);
                }
                "SUPPLY_3V3"
            },
            Node::DAC0 => {
                proof {
                    reveal_strlit("DAC0");
                    assert("DAC0"@ =~= seq!['D', 'A', 'C', '0']);
                }
                "DAC0"
            },
            Node::DAC1 => {
                proof {
                    reveal_strlit("DAC1");
                    assert("DAC1"@ =~= seq!['D', 'A', 'C', '1']);
                }
                "DAC1"
            },
            Node::ISENSE_MINUS => {
                proof {
                    reveal_strlit("ISENSE_MINUS");
                    assert("ISENSE_MINUS"@ =~= seq!['I', 'S', 'E', 'N', 'S', 'E', '_', 'M', 'I', 'N', 'U', 'S']);
                }
                "ISENSE_MINUS"
            },
            Node::ISENSE_PLUS => {
                proof {
                    reveal_strlit("ISENSE_PLUS");
                    assert("ISENSE_PLUS"@ =~= seq!['I', 'S', 'E', 'N', 'S', 'E', '_', 'P', 'L', 'U', 'S']);
                }
                "ISENSE_PLUS"
            },
            Node::ADC0 => {
                proof {
                    reveal_strlit("ADC0");
                    assert("ADC0"@ =~= seq!['A', 'D', 'C', '0']);
                }
                "ADC0"
            },
            Node::ADC1 => {
                proof {
                    reveal_strlit("ADC1");
                    assert("ADC1"@ =~= seq!['A', 'D', 'C', '1']);
                }
                "ADC1"
            },
            Node::ADC2 => {
                proof {
                    reveal_strlit("ADC2");
                    assert("ADC2"@ =~= seq!['A', 'D', 'C', '2']);
                }
                "ADC2"
            },
            Node::ADC3 => {
                proof {
                    reveal_strlit("ADC3");
                    assert("ADC3"@ =~= seq!['A', 'D', 'C', '3']);
                }
                "ADC3"
            },
            Node::NANO_D0 => {
                proof {
                    reveal_strlit("NANO_D0");
                    assert("NANO_D0"@ =~= seq!['N', 'A', 'N', 'O', '_', 'D', '0']);
                }
                "NANO_D0"
            },
            Node::NANO_D1 => {
                proof {
                    reveal_strlit("NANO_D1");
                    assert("NANO_D1"@ =~= seq!['N', 'A', 'N', 'O', '_', 'D', '1']);
                }
                "NANO_D1"
            },
            Node::NANO_D2 => {
                proof {
                    reveal_strlit("NANO_D2");
                    assert("NANO_D2"@ =~= seq!['N', 'A', 'N', 'O', '_', 'D', '2']);
                }
                "NANO_D2"
            },
            Node::NANO_D3 => {
                proof {
                    reveal_strlit("NANO_D3");
                    assert("NANO_D3"@ =~= seq!['N', 'A', 'N', 'O', '_', 'D', '3']);
                }
                "NANO_D3"
            },
            Node::NANO_D4 => {
                proof {
                    reveal_strlit("NANO_D4");
                    assert("NANO_D4"@ =~= seq!['N', 'A', 'N', 'O', '_', 'D', '4']);
                }
                "NANO_D4"
            },
            Node::NANO_D5 => {
                proof {
                    reveal_strlit("NANO_D5");
                    assert("NANO_D5"@ =~= seq!['N', 'A', 'N', 'O', '_', 'D', '5']);
                }
                "NANO_D5"
            },
            Node::NANO_D6 => {
                proof {
                    reveal_strlit("NANO_D6");
                    assert("NANO_D6"@ =~= seq!['N', 'A', 'N', 'O', '_', 'D', '6']);
                }
                "NANO_D6"
            },
            Node::NANO_D7 => {
                proof {
                    reveal_strlit("NANO_D7");
                    assert("NANO_D7"@ =~= seq!['N', 'A', 'N', 'O', '_', 'D', '7']);
                }
                "NANO_D7"
            },
            Node::NANO_D8 => {
                proof {
                    reveal_strlit("NANO_D8");
                    assert("NANO_D8"@ =~= seq!['N', 'A', 'N', 'O', '_', 'D', '8']);
                }
                "NANO_D8"
            },
            Node::NANO_D9 => {
                proof {
                    reveal_strlit("NANO_D9");
                    assert("NANO_D9"@ =~= seq!['N', 'A', 'N', 'O', '_', 'D', '9']);
                }
                "NANO_D9"
            },
            Node::NANO_D10 => {
                proof {
                    reveal_strlit("NANO_D10");
                    assert("NANO_D10"@ =~= seq!['N', 'A', 'N', 'O', '_', 'D', '1', '0']);
                }
                "NANO_D10"
            },
            Node::NANO_D11 => {
                proof {
                    reveal_strlit("NANO_D11");
                    assert("NANO_D11"@ =~= seq!['N', 'A', 'N', 'O', '_', 'D', '1', '1']);
                }
                "NANO_D11"
            },
            Node::NANO_D12 => {
                proof {
                    reveal_strlit("NANO_D12");
                    assert("NANO_D12"@ =~= seq!['N', 'A', 'N', 'O', '_', 'D', '1', '2']);
                }
                "NANO_D12"
            },
            Node::NANO_D13 => {
                proof {
                    reveal_strlit("NANO_D13");
                    assert("NANO_D13"@ =~= seq!['N', 'A', 'N', 'O', '_', 'D', '1', '3']);
                }
                "NANO_D13"
            },
            Node::NANO_A0 => {
                proof {
                    reveal_strlit("NANO_A0");
                    assert("NANO_A0"@ =~= seq!['N', 'A', 'N', 'O', '_', 'A', '0']);
                }
                "NANO_A0"
            },
            Node::NANO_A1 => {
                proof {
                    reveal_strlit("NANO_A1");
                    assert("NANO_A1"@ =~= seq!['N', 'A', 'N', 'O', '_', 'A', '1']);
                }
                "NANO_A1"
            },
            Node::NANO_A2 => {
                proof {
                    reveal_strlit("NANO_A2");
                    assert("NANO_A2"@ =~= seq!['N', 'A', 'N', 'O', '_', 'A', '2']);
                }
                "NANO_A2"
            },
            Node::NANO_A3 => {
                proof {
                    reveal_strlit("NANO_A3");
                    assert("NANO_A3"@ =~= seq!['N', 'A', 'N', 'O', '_', 'A', '3']);
                }
                "NANO_A3"
            },
            Node::NANO_A4 => {
                proof {
                    reveal_strlit("NANO_A4");
                    assert("NANO_A4"@ =~= seq!['N', 'A', 'N', 'O', '_', 'A', '4']);
                }
                "NANO_A4"
            },
            Node::NANO_A5 => {
                proof {
                    reveal_strlit("NANO_A5");
                    assert("NANO_A5"@ =~= seq!['N', 'A', 'N', 'O', '_', 'A', '5']);
                }
                "NANO_A5"
            },
            Node::NANO_A6 => {
                proof {
                    reveal_strlit("NANO_A6");
                    assert("NANO_A6"@ =~= seq!['N', 'A', 'N', 'O', '_', 'A', '6']);
                }
                "NANO_A6"
            },
            Node::NANO_A7 => {
                proof {
                    reveal_strlit("NANO_A7");
                    assert("NANO_A7"@ =~= seq!['N', 'A', 'N', 'O', '_', 'A', '7']);
                }
                "NANO_A7"
            },
            Node::NANO_RESET => {
                proof {
                    reveal_strlit("NANO_RESET");
                    assert("NANO_RESET"@ =~= seq!['N', 'A', 'N', 'O', '_', 'R', 'E', 'S', 'E', 'T']);
                }
                "NANO_RESET"
            },
            Node::NANO_AREF => {
                proof {
                    reveal_strlit("NANO_AREF");
                    assert("NANO_AREF"@ =~= seq!['N', 'A', 'N', 'O', '_', 'A', 'R', 'E', 'F']);
                }
                "NANO_AREF"
            },
            Node::RP_GPIO_0 => {
                proof {
                    reveal_strlit("RP_GPIO_0");
                    assert("RP_GPIO_0"@ =~= seq!['R', 'P', '_', 'G', 'P', 'I', 'O', '_', '0']);
                }
                "RP_GPIO_0"
            },
            Node::RP_UART_Rx => {
                proof {
                    reveal_strlit("RP_UART_Rx");
                    assert("RP_UART_Rx"@ =~= seq!['R', 'P', '_', 'U', 'A', 'R', 'T', '_', 'R', 'x']);
                }
                "RP_UART_Rx"
            },
            Node::RP_UART_Tx => {
                proof {
                    reveal_strlit("RP_UART_Tx");
                    assert("RP_UART_Tx"@ =~= seq!['R', 'P', '_', 'U', 'A', 'R', 'T', '_', 'T', 'x']);
                }
                "RP_UART_Tx"
            },
            Node::Column(k) => {
                let mut r = String::new();
                push_decimal(&mut r, *k as u32);
                assert(r@ =~= node_text(*self));
                return r;
            },
        };
        let r = String::from_str(lit);
        r
    }
}


impl Node {
    /// The column node for `n`, if `n` is a column number (1 to 60).
    pub fn col(n: u8) -> (r: Option<Node>)
        ensures
            r == (if is_column_number(n) { Some(Node::Column(n)) } else { None::<Node> }),
    {
        if 1 <= n && n <= 60 {
            Some(Node::Column(n))
        } else {
            None
        }
    }

    /// Reads a node token.
    pub fn parse(s: &str) -> (r: Result<Node, NodeError>)
        ensures
            r is Ok <==> parse_node(s@) is Some,
            match r {
                Ok(n) => parse_node(s@) == Some(n),
                Err(NodeError::InvalidNumber) => is_u8_text(s@),
                Err(NodeError::Unknown(t)) => !is_u8_text(s@) && t@ == s@,
            },
    {
        let v = chars_of(s);
        let n = v.len();
        let start: usize = if n > 0 && v[0] == '+' { 1 } else { 0 };
        assert(v@.subrange(start as int, n as int) =~= unsigned_digits(s@));
        if is_digit_run(&v, start, n) {
            match read_digits(&v, start, n, 255) {
                Some(x) => {
                    if 1 <= x && x <= 60 {
                        Ok(Node::Column(x as u8))
                    } else {
                        Err(NodeError::InvalidNumber)
                    }
                },
                None => Err(NodeError::Unknown(String::from_str(s))),
            }
        } else {
            match lookup_name(s) {
                Some(node) => Ok(node),
                None => Err(NodeError::Unknown(String::from_str(s))),
            }
        }
    }
}

/// A canonical name reads as its own node.
pub proof fn lemma_canonical_reads_back(n: Node)
    requires
        !(n is Column),
    ensures
        parse_node(node_text(n)) == Some(n),
{
    reveal(node_text);
    reveal(canonical_lookup);
    let s = node_text(n);
    assert(s.len() > 0 && !crate::text::is_digit(s[0]) && s[0] != '+');
    assert(unsigned_digits(s) == s);
}

/// An alias reads as the same node as that node's canonical name does.
#[verifier::spinoff_prover]
#[verifier::rlimit(100)]
pub proof fn lemma_alias_agrees_with_canonical(s: Seq<char>)
    requires
        alias_lookup(s) is Some,
    ensures
        parse_node(s) == alias_lookup(s),
        parse_node(node_text(alias_lookup(s)->0)) == parse_node(s),
{
    reveal(alias_lookup);
    reveal(canonical_lookup);
    lemma_canonical_reads_back(alias_lookup(s)->0);
    if s == seq!['5', 'V'] {
        assert(!crate::text::is_digit(s[1]));
        assert(unsigned_digits(s) == s);
    } else if s == seq!['3', 'V', '3'] {
        assert(!crate::text::is_digit(s[1]));
        assert(unsigned_digits(s) == s);
    } else if s == seq!['D', 'A', 'C', '0', '_', '5', 'V'] {
        assert(!crate::text::is_digit(s[0]));
        assert(unsigned_digits(s) == s);
    } else if s == seq!['D', 'A', 'C', '1', '_', '8', 'V'] {
        assert(!crate::text::is_digit(s[0]));
        assert(unsigned_digits(s) == s);
    } else if s == seq!['I', '_', 'N'] {
        assert(!crate::text::is_digit(s[0]));
        assert(unsigned_digits(s) == s);
    } else if s == seq!['I', '_', 'P'] {
        assert(!crate::text::is_digit(s[0]));
        assert(unsigned_digits(s) == s);
    } else if s == seq!['A', 'D', 'C', '0', '_', '5', 'V'] {
        assert(!crate::text::is_digit(s[0]));
        assert(unsigned_digits(s) == s);
    } else if s == seq!['A', 'D', 'C', '1', '_', '5', 'V'] {
        assert(!crate::text::is_digit(s[0]));
        assert(unsigned_digits(s) == s);
    } else if s == seq!['A', 'D', 'C', '2', '_', '5', 'V'] {
        assert(!crate::text::is_digit(s[0]));
        assert(unsigned_digits(s) == s);
    } else if s == seq!['A', 'D', 'C', '3', '_', '8', 'V'] {
        assert(!crate::text::is_digit(s[0]));
        assert(unsigned_digits(s) == s);
    } else if s == seq!['D', '0'] {
        assert(!crate::text::is_digit(s[0]));
        assert(unsigned_digits(s) == s);
    } else if s == seq!['D', '1'] {
        assert(!crate::text::is_digit(s[0]));
        assert(unsigned_digits(s) == s);
    } else if s == seq!['D', '2'] {
        assert(!crate::text::is_digit(s[0]));
        assert(unsigned_digits(s) == s);
    } else if s == seq!['D', '3'] {
        assert(!crate::text::is_digit(s[0]));
        assert(unsigned_digits(s) == s);
    } else if s == seq!['D', '4'] {
        assert(!crate::text::is_digit(s[0]));
        assert(unsigned_digits(s) == s);
    } else if s == seq!['D', '5'] {
        assert(!crate::text::is_digit(s[0]));
        assert(unsigned_digits(s) == s);
    } else if s == seq!['D', '6'] {
        assert(!crate::text::is_digit(s[0]));
        assert(unsigned_digits(s) == s);
    } else if s == seq!['D', '7'] {
        assert(!crate::text::is_digit(s[0]));
        assert(unsigned_digits(s) == s);
    } else if s == seq!['D', '8'] {
        assert(!crate::text::is_digit(s[0]));
        assert(unsigned_digits(s) == s);
    } else if s == seq!['D', '9'] {
        assert(!crate::text::is_digit(s[0]));
        assert(unsigned_digits(s) == s);
    } else if s == seq!['D', '1', '0'] {
        assert(!crate::text::is_digit(s[0]));
        assert(unsigned_digits(s) == s);
    } else if s == seq!['D', '1', '1'] {
        assert(!crate::text::is_digit(s[0]));
        assert(unsigned_digits(s) == s);
    } else if s == seq!['D', '1', '2'] {
        assert(!crate::text::is_digit(s[0]));
        assert(unsigned_digits(s) == s);
    } else if s == seq!['D', '1', '3'] {
        assert(!crate::text::is_digit(s[0]));
        assert(unsigned_digits(s) == s);
    } else if s == seq!['A', '0'] {
        assert(!crate::text::is_digit(s[0]));
        assert(unsigned_digits(s) == s);
    } else if s == seq!['A', '1'] {
        assert(!crate::text::is_digit(s[0]));
        assert(unsigned_digits(s) == s);
    } else if s == seq!['A', '2'] {
        assert(!crate::text::is_digit(s[0]));
        assert(unsigned_digits(s) == s);
    } else if s == seq!['A', '3'] {
        assert(!crate::text::is_digit(s[0]));
        assert(unsigned_digits(s) == s);
    } else if s == seq!['A', '4'] {
        assert(!crate::text::is_digit(s[0]));
        assert(unsigned_digits(s) == s);
    } else if s == seq!['A', '5'] {
        assert(!crate::text::is_digit(s[0]));
        assert(unsigned_digits(s) == s);
    } else if s == seq!['A', '6'] {
        assert(!crate::text::is_digit(s[0]));
        assert(unsigned_digits(s) == s);
    } else if s == seq!['A', '7'] {
        assert(!crate::text::is_digit(s[0]));
        assert(unsigned_digits(s) == s);
    } else if s == seq!['R', 'E', 'S', 'E', 'T'] {
        assert(!crate::text::is_digit(s[0]));
        assert(unsigned_digits(s) == s);
    } else if s == seq!['A', 'R', 'E', 'F'] {
        assert(!crate::text::is_digit(s[0]));
        assert(unsigned_digits(s) == s);
    } else if s == seq!['G', 'P', 'I', 'O', '_', '0'] {
        assert(!crate::text::is_digit(s[0]));
        assert(unsigned_digits(s) == s);
    } else if s == seq!['U', 'A', 'R', 'T', '_', 'R', 'x'] {
        assert(!crate::text::is_digit(s[0]));
        assert(unsigned_digits(s) == s);
    } else if s == seq!['U', 'A', 'R', 'T', '_', 'T', 'x'] {
        assert(!crate::text::is_digit(s[0]));
        assert(unsigned_digits(s) == s);
    } else if s == seq!['D', 'A', 'C', ' ', '0'] {
        assert(!crate::text::is_digit(s[0]));
        assert(unsigned_digits(s) == s);
    } else if s == seq!['D', 'A', 'C', ' ', '1'] {
        assert(!crate::text::is_digit(s[0]));
        assert(unsigned_digits(s) == s);
    } else if s == seq!['D', 'A', 'C', '_', '0'] {
        assert(!crate::text::is_digit(s[0]));
        assert(unsigned_digits(s) == s);
    } else if s == seq!['D', 'A', 'C', '_', '1'] {
        assert(!crate::text::is_digit(s[0]));
        assert(unsigned_digits(s) == s);
    } else if s == seq!['I', '_', 'N', 'E', 'G'] {
        assert(!crate::text::is_digit(s[0]));
        assert(unsigned_digits(s) == s);
    } else if s == seq!['I', '_', 'P', 'O', 'S'] {
        assert(!crate::text::is_digit(s[0]));
        assert(unsigned_digits(s) == s);
    } else if s == seq!['A', 'D', 'C', '_', '0'] {
        assert(!crate::text::is_digit(s[0]));
        assert(unsigned_digits(s) == s);
    } else if s == seq!['A', 'D', 'C', '_', '1'] {
        assert(!crate::text::is_digit(s[0]));
        assert(unsigned_digits(s) == s);
    } else if s == seq!['A', 'D', 'C', '_', '2'] {
        assert(!crate::text::is_digit(s[0]));
        assert(unsigned_digits(s) == s);
    } else if s == seq!['A', 'D', 'C', '_', '3'] {
        assert(!crate::text::is_digit(s[0]));
        assert(unsigned_digits(s) == s);
    } else if s == seq!['G', 'P', 'I', 'O', '_', '1', '6'] {
        assert(!crate::text::is_digit(s[0]));
        assert(unsigned_digits(s) == s);
    } else if s == seq!['G', 'P', 'I', 'O', '_', '1', '7'] {
        assert(!crate::text::is_digit(s[0]));
        assert(unsigned_digits(s) == s);
    }
}

/// A number from 1 to 60 reads as the column of that number, whose text is the
/// number itself; any other number reads as no node.
pub proof fn lemma_column_numbers(n: nat)
    ensures
        parse_node(decimal_text(n)) == (if 1 <= n <= 60 {
            Some(Node::Column(n as u8))
        } else {
            None::<Node>
        }),
        1 <= n <= 60 ==> node_text(Node::Column(n as u8)) == decimal_text(n),
{
    reveal(node_text);
    crate::text::lemma_decimal_text(n);
    let s = decimal_text(n);
    assert(crate::text::is_digit(s[0]));
    assert(unsigned_digits(s) == s);
}

/// A display color, as red, green and blue bytes.
#[derive(Debug, Clone, Copy, PartialEq)]
pub struct Color(pub [u8; 3]);

/// Why a color text was refused.
#[derive(Debug, Clone, Copy, PartialEq, Eq, Structural)]
pub enum ColorError {
    /// Fewer than six characters were left after the prefixes.
    TooShort,
}

pub open spec fn hex_text(b: u8) -> Seq<char> {
    seq![hex_digit((b / 16) as nat), hex_digit((b % 16) as nat)]
}

/// The `#rrggbb` text of a color, in lower-case hexadecimal.
pub open spec fn color_text(c: Color) -> Seq<char> {
    seq!['#'] + hex_text(c.0[0]) + hex_text(c.0[1]) + hex_text(c.0[2])
}

/// The three bytes that the first six characters of `s` give, each pair read
/// leniently (a malformed pair gives 0).
pub open spec fn color_bytes(s: Seq<char>) -> Seq<u8>
    recommends
        s.len() >= 6,
{
    seq![hex_pair_value(s[0], s[1]), hex_pair_value(s[2], s[3]), hex_pair_value(s[4], s[5])]
}

/// The text left once leading `0x`, then `0X`, then `#` are taken off.
pub open spec fn color_digits(s: Seq<char>) -> Seq<char> {
    strip_repeated(strip_repeated(strip_repeated(s, seq!['0', 'x']), seq!['0', 'X']), seq!['#'])
}

/// The color that a text gives: prefixes `0x`, `0X` and `#` are dropped, and
/// then at least six characters must remain.
pub open spec fn color_from_text(s: Seq<char>) -> Option<Seq<u8>> {
    if color_digits(s).len() >= 6 {
        Some(color_bytes(color_digits(s)))
    } else {
        None
    }
}

/// Reads the color in `v[pos..pos + 6]`.
pub fn color_at(v: &Vec<char>, pos: usize) -> (r: Color)
    requires
        pos + 6 <= v@.len(),
    ensures
        r.0@ == color_bytes(v@.subrange(pos as int, v@.len() as int)),
{
    let n = v.len();
    assert(pos + 6 <= n);
    let red = hex_pair(v[pos], v[pos + 1]);
    let green = hex_pair(v[pos + 2], v[pos + 3]);
    let blue = hex_pair(v[pos + 4], v[pos + 5]);
    let r = Color([red, green, blue]);
    assert(r.0@ =~= color_bytes(v@.subrange(pos as int, v@.len() as int)));
    r
}

impl Color {
    /// The color as one number, `0xRRGGBB`.
    pub fn to_u32(&self) -> (r: u32)
        ensures
            r == self.0[0] as u32 * 65536 + self.0[1] as u32 * 256 + self.0[2] as u32,
    {
        self.0[0] as u32 * 65536 + self.0[1] as u32 * 256 + self.0[2] as u32
    }

    /// The `#rrggbb` text of the color.
    pub fn to_string(&self) -> (r: String)
        ensures
            r@ == color_text(*self),
    {
        let mut r = String::new();
        proof {
            reveal_strlit("#");
        }
        push_str(&mut r, "#");
        push_hex_byte(&mut r, self.0[0]);
        push_hex_byte(&mut r, self.0[1]);
        push_hex_byte(&mut r, self.0[2]);
        assert(r@ =~= color_text(*self));
        r
    }

    /// Reads a color written as six hexadecimal digits, optionally after `0x`,
    /// `0X` or `#`.
    pub fn try_from(value: String) -> (r: Result<Color, ColorError>)
        ensures
            match r {
                Ok(c) => color_from_text(value@) == Some(c.0@),
                Err(_) => color_from_text(value@) is None,
            },
    {
        let v = crate::text::chars_of(value.as_str());
        proof {
            reveal_strlit("0x");
            reveal_strlit("0X");
            reveal_strlit("#");
        }
        let lower_prefix = crate::text::chars_of("0x");
        let upper_prefix = crate::text::chars_of("0X");
        let hash_prefix = crate::text::chars_of("#");
        assert(lower_prefix@ =~= seq!['0', 'x']);
        assert(upper_prefix@ =~= seq!['0', 'X']);
        assert(hash_prefix@ =~= seq!['#']);
        assert(v@.subrange(0, v@.len() as int) =~= v@);
        let a = skip_repeated(&v, 0, &lower_prefix);
        let b = skip_repeated(&v, a, &upper_prefix);
        let c = skip_repeated(&v, b, &hash_prefix);
        if v.len() - c < 6 {
            return Err(ColorError::TooShort);
        }
        Ok(color_at(&v, c))
    }
}

/// Formatting a color as `#rrggbb` and reading the text back gives the same
/// three bytes.
pub proof fn lemma_color_round_trip(c: Color)
    ensures
        color_from_text(color_text(c)) == Some(c.0@),
{
    let t = color_text(c);
    lemma_hex_digit((c.0[0] / 16) as nat);
    lemma_hex_digit((c.0[0] % 16) as nat);
    lemma_hex_digit((c.0[1] / 16) as nat);
    lemma_hex_digit((c.0[1] % 16) as nat);
    lemma_hex_digit((c.0[2] / 16) as nat);
    lemma_hex_digit((c.0[2] % 16) as nat);
    assert(t.len() == 7);
    assert(t[0] == '#');
    assert(t.subrange(0, 2)[0] == '#');
    assert(strip_repeated(t, seq!['0', 'x']) == t);
    assert(strip_repeated(t, seq!['0', 'X']) == t);
    let u = t.subrange(1, 7);
    assert(t.subrange(0, 1) =~= seq!['#']);
    assert(u.subrange(0, 1)[0] == t[1]);
    assert(strip_repeated(u, seq!['#']) == u);
    assert(strip_repeated(t, seq!['#']) == u);
    assert(color_digits(t) == u);
    assert(color_bytes(u) =~= c.0@);
}

/// The position of the supply switch, which the board cannot sense itself.
#[derive(Debug, Clone, Copy, PartialEq, Eq, Structural)]
pub enum SupplySwitchPos {
    V8,
    V3_3,
    V5,
}

/// A supply switch position text that is none of `8V`, `3.3V`, `5V`.
#[derive(Debug, Clone, Copy, PartialEq, Eq, Structural)]
pub struct UnknownSupplySwitchPos;

pub open spec fn supply_text(p: SupplySwitchPos) -> Seq<char> {
    match p {
        SupplySwitchPos::V8 => seq!['8', 'V'],
        SupplySwitchPos::V3_3 => seq!['3', '.', '3', 'V'],
        SupplySwitchPos::V5 => seq!['5', 'V'],
    }
}

pub open spec fn supply_from_text(s: Seq<char>) -> Option<SupplySwitchPos> {
    if s == seq!['8', 'V'] {
        Some(SupplySwitchPos::V8)
    } else if s == seq!['3', '.', '3', 'V'] {
        Some(SupplySwitchPos::V3_3)
    } else if s == seq!['5', 'V'] {
        Some(SupplySwitchPos::V5)
    } else {
        None
    }
}

impl SupplySwitchPos {
    /// Reads `8V`, `3.3V` or `5V`.
    pub fn from_str(s: &str) -> (r: Result<SupplySwitchPos, UnknownSupplySwitchPos>)
        ensures
            match r {
                Ok(p) => supply_from_text(s@) == Some(p),
                Err(_) => supply_from_text(s@) is None,
            },
    {
        proof {
            reveal_strlit("8V");
            reveal_strlit("3.3V");
            reveal_strlit("5V");
            assert("8V"@ =~= seq!['8', 'V']);
            assert("3.3V"@ =~= seq!['3', '.', '3', 'V']);
            assert("5V"@ =~= seq!['5', 'V']);
        }
        if str_eq(s, "8V") {
            Ok(SupplySwitchPos::V8)
        } else if str_eq(s, "3.3V") {
            Ok(SupplySwitchPos::V3_3)
        } else if str_eq(s, "5V") {
            Ok(SupplySwitchPos::V5)
        } else {
            Err(UnknownSupplySwitchPos)
        }
    }

    /// The text of the position: `8V`, `3.3V` or `5V`.
    pub fn to_string(&self) -> (r: String)
        ensures
            r@ == supply_text(*self),
    {
        proof {
            reveal_strlit("8V");
            reveal_strlit("3.3V");
            reveal_strlit("5V");
            assert("8V"@ =~= seq!['8', 'V']);
            assert("3.3V"@ =~= seq!['3', '.', '3', 'V']);
            assert("5V"@ =~= seq!['5', 'V']);
        }
        match self {
            SupplySwitchPos::V8 => String::from_str("8V"),
            SupplySwitchPos::V3_3 => String::from_str("3.3V"),
            SupplySwitchPos::V5 => String::from_str("5V"),
        }
    }
}

/// A named, colored set of connected nodes.
#[derive(Debug, Clone, PartialEq)]
pub struct Net {
    pub index: u8,
    pub number: u8,
    pub nodes: Vec<Node>,
    pub special: bool,
    pub color: Color,
    pub machine: bool,
    pub name: String,
}

/// A net in the shape that the board takes for a new netlist: the nodes as
/// one comma-separated text.
#[derive(Debug, Clone, PartialEq)]
pub struct TmpNet {
    pub index: u8,
    pub number: u8,
    pub nodes: String,
    pub special: bool,
    pub color: Color,
    pub machine: bool,
    pub name: String,
}

/// The texts of the nodes, separated by `sep`.
pub open spec fn nodes_text(ns: Seq<Node>, sep: char) -> Seq<char>
    decreases ns.len(),
{
    if ns.len() == 0 {
        Seq::empty()
    } else if ns.len() == 1 {
        node_text(ns[0])
    } else {
        nodes_text(ns.drop_last(), sep) + seq![sep] + node_text(ns.last())
    }
}

/// Appends the texts of `ns`, separated by `sep`.
pub fn push_nodes(out: &mut String, ns: &Vec<Node>, sep: char)
    ensures
        final(out)@ == old(out)@ + nodes_text(ns@, sep),
{
    let mut i: usize = 0;
    while i < ns.len()
        invariant
            i <= ns@.len(),
            out@ == old(out)@ + nodes_text(ns@.subrange(0, i as int), sep),
        decreases ns@.len() - i,
    {
        if i > 0 {
            push_char(out, sep);
        }
        let t = ns[i].to_string();
        push_str(out, t.as_str());
        proof {
            let pre = ns@.subrange(0, i as int);
            let next = ns@.subrange(0, i + 1);
            assert(next.drop_last() =~= pre);
            if i == 0 {
                assert(next =~= seq![ns@[0]]);
            }
        }
        assert(out@ =~= old(out)@ + nodes_text(ns@.subrange(0, i + 1), sep));
        i = i + 1;
    }
    assert(ns@.subrange(0, ns@.len() as int) =~= ns@);
}

impl TmpNet {
    /// The board's shape of a net.
    pub fn from(net: Net) -> (r: TmpNet)
        ensures
            r.index == net.index,
            r.number == net.number,
            r.nodes@ == nodes_text(net.nodes@, ','),
            r.special == net.special,
            r.color == net.color,
            r.machine == net.machine,
            r.name@ == net.name@,
    {
        let mut nodes = String::new();
        push_nodes(&mut nodes, &net.nodes, ',');
        TmpNet {
            index: net.index,
            number: net.number,
            nodes,
            special: net.special,
            color: net.color,
            machine: net.machine,
            name: net.name,
        }
    }
}

/// One record of a chip-status listing, kept as the text between the brackets.
#[derive(Debug, Clone, PartialEq)]
pub struct ChipStatus {
    pub text: String,
}

/// Bridges between nodes, in order.
pub type Bridgelist = Vec<(Node, Node)>;

/// A message received from the board.
#[derive(Debug, Clone, PartialEq)]
pub enum Message {
    /// Positive acknowledgement, with the sequence number it closes if any.
    Ack(Option<u32>),
    /// Negative acknowledgement, with the sequence number it closes if any.
    Error(Option<u32>),
    NetlistBegin,
    NetlistEnd,
    Net(Net),
    Bridgelist(Bridgelist),
    SupplySwitch(SupplySwitchPos),
    ChipStatusBegin,
    ChipStatusEnd,
    ChipStatus(ChipStatus),
    /// A protocol line that fits none of the shapes above, kept whole.
    Unrecognized(String),
}

/// What a net holds, as mathematical values.
pub struct NetModel {
    pub index: u8,
    pub number: u8,
    pub nodes: Seq<Node>,
    pub special: bool,
    pub color: Seq<u8>,
    pub machine: bool,
    pub name: Seq<char>,
}

impl View for Net {
    type V = NetModel;

    open spec fn view(&self) -> NetModel {
        NetModel {
            index: self.index,
            number: self.number,
            nodes: self.nodes@,
            special: self.special,
            color: self.color.0@,
            machine: self.machine,
            name: self.name@,
        }
    }
}

/// What a message holds, as mathematical values.
pub enum MessageModel {
    Ack(Option<u32>),
    Error(Option<u32>),
    NetlistBegin,
    NetlistEnd,
    Net(NetModel),
    Bridgelist(Seq<(Node, Node)>),
    SupplySwitch(SupplySwitchPos),
    ChipStatusBegin,
    ChipStatusEnd,
    ChipStatus(Seq<char>),
    Unrecognized(Seq<char>),
}

impl View for Message {
    type V = MessageModel;

    open spec fn view(&self) -> MessageModel {
        match self {
            Message::Ack(n) => MessageModel::Ack(*n),
            Message::Error(n) => MessageModel::Error(*n),
            Message::NetlistBegin => MessageModel::NetlistBegin,
            Message::NetlistEnd => MessageModel::NetlistEnd,
            Message::Net(net) => MessageModel::Net(net@),
            Message::Bridgelist(b) => MessageModel::Bridgelist(b@),
            Message::SupplySwitch(p) => MessageModel::SupplySwitch(*p),
            Message::ChipStatusBegin => MessageModel::ChipStatusBegin,
            Message::ChipStatusEnd => MessageModel::ChipStatusEnd,
            Message::ChipStatus(c) => MessageModel::ChipStatus(c.text@),
            Message::Unrecognized(t) => MessageModel::Unrecognized(t@),
        }
    }
}

/// Whether two bridges join the same two nodes, in either order.
pub open spec fn same_bridge(a: (Node, Node), b: (Node, Node)) -> bool {
    (a.0 == b.0 && a.1 == b.1) || (a.0 == b.1 && a.1 == b.0)
}

pub open spec fn has_bridge(s: Seq<(Node, Node)>, b: (Node, Node)) -> bool {
    exists|i: int| 0 <= i < s.len() && same_bridge(#[trigger] s[i], b)
}

/// `current` with each of `added` appended in turn, unless the same bridge is
/// there already.
pub open spec fn merged(current: Seq<(Node, Node)>, added: Seq<(Node, Node)>) -> Seq<(Node, Node)>
    decreases added.len(),
{
    if added.len() == 0 {
        current
    } else {
        let m = merged(current, added.drop_last());
        if has_bridge(m, added.last()) {
            m
        } else {
            m.push(added.last())
        }
    }
}

/// A bridge is the same as itself reversed, and the relation reads the same
/// from either side.
pub proof fn lemma_bridge_pair_symmetric(a: Node, b: Node, x: (Node, Node), y: (Node, Node))
    ensures
        same_bridge((a, b), (b, a)),
        same_bridge(x, y) == same_bridge(y, x),
{
}

fn contains_bridge(s: &Bridgelist, b: (Node, Node)) -> (r: bool)
    ensures
        r == has_bridge(s@, b),
{
    let mut i: usize = 0;
    while i < s.len()
        invariant
            i <= s@.len(),
            forall|k: int| 0 <= k < i ==> !same_bridge(#[trigger] s@[k], b),
        decreases s@.len() - i,
    {
        let c = s[i];
        if (c.0 == b.0 && c.1 == b.1) || (c.0 == b.1 && c.1 == b.0) {
            assert(same_bridge(s@[i as int], b));
            return true;
        }
        i = i + 1;
    }
    false
}

/// Adds bridges to a bridge list, skipping any that it holds already in
/// either order.
pub fn merge_bridges(current: Bridgelist, added: &Bridgelist) -> (r: Bridgelist)
    ensures
        r@ == merged(current@, added@),
{
    let mut out = current;
    let ghost start = out@;
    let mut i: usize = 0;
    while i < added.len()
        invariant
            i <= added@.len(),
            out@ == merged(start, added@.subrange(0, i as int)),
        decreases added@.len() - i,
    {
        proof {
            assert(added@.subrange(0, i + 1).drop_last() =~= added@.subrange(0, i as int));
        }
        let b = added[i];
        if !contains_bridge(&out, b) {
            out.push(b);
        }
        i = i + 1;
    }
    assert(added@.subrange(0, added@.len() as int) =~= added@);
    out
}

} // verus!
