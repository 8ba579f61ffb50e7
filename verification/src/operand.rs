//! Operand text: width keywords, register names by width, frame operands.

use vstd::prelude::*;
use crate::text::decimal;

verus! {

/// The operand widths, in bytes, that the target has a keyword for.
pub open spec fn valid_width(size: nat) -> bool {
    size == 1 || size == 2 || size == 4 || size == 8
}

/// The NASM size keyword of an operand width.
pub open spec fn width_word(size: nat) -> Seq<char> {
    if size == 1 {
        "byte"@
    } else if size == 2 {
        "word"@
    } else if size == 4 {
        "dword"@
    } else {
        "qword"@
    }
}

/// The families `a`, `b`, `c`, `d`.
pub open spec fn is_general(family: Seq<char>) -> bool {
    family == "a"@ || family == "b"@ || family == "c"@ || family == "d"@
}

/// The families `sp`, `bp`, `si`, `di`.
pub open spec fn is_pointer_or_index(family: Seq<char>) -> bool {
    family == "sp"@ || family == "bp"@ || family == "si"@ || family == "di"@
}

/// The families `r8` to `r11`.
pub open spec fn is_numbered(family: Seq<char>) -> bool {
    family == "r8"@ || family == "r9"@ || family == "r10"@ || family == "r11"@
}

/// The register families that have a name at every width.
pub open spec fn known_register(family: Seq<char>) -> bool {
    is_general(family) || is_pointer_or_index(family) || is_numbered(family)
}

/// The name of the `size`-byte part of a register family.
pub open spec fn register_name(family: Seq<char>, size: nat) -> Seq<char> {
    if is_general(family) {
        if size == 1 {
            family + "l"@
        } else if size == 2 {
            family + "x"@
        } else if size == 4 {
            "e"@ + family + "x"@
        } else {
            "r"@ + family + "x"@
        }
    } else if is_pointer_or_index(family) {
        if size == 1 {
            family + "l"@
        } else if size == 2 {
            family
        } else if size == 4 {
            "e"@ + family
        } else {
            "r"@ + family
        }
    } else {
        if size == 1 {
            family + "b"@
        } else if size == 2 {
            family + "w"@
        } else if size == 4 {
            family + "d"@
        } else {
            family
        }
    }
}

/// The register family that carries integer argument `index` of a call:
/// `rdi`, `rsi`, `rdx`, `rcx`, `r8`, `r9` in this order.
pub open spec fn arg_family(index: nat) -> Seq<char> {
    if index == 0 {
        "di"@
    } else if index == 1 {
        "si"@
    } else if index == 2 {
        "d"@
    } else if index == 3 {
        "c"@
    } else if index == 4 {
        "r8"@
    } else {
        "r9"@
    }
}

/// The register of integer argument `index` at the given width.
pub open spec fn arg_register(index: nat, size: nat) -> Seq<char> {
    register_name(arg_family(index), size)
}

/// The memory operand of a frame slot that ends `below` bytes under `rbp`.
pub open spec fn slot_operand(width: nat, below: nat) -> Seq<char> {
    width_word(width) + " [rbp-"@ + decimal(below) + "]"@
}

/// The memory operand of the element that `rbx` selects in an array whose
/// storage ends `below` bytes under `rbp`.
pub open spec fn element_operand(width: nat, below: nat) -> Seq<char> {
    width_word(width) + " [rbp-"@ + decimal(below) + "+rbx*"@ + decimal(width) + "]"@
}

} // verus!
