//! The fixed symbolic-name lookup table of the register file: 32 registers,
//! addressed 0 through 31 through their conventional names. Lookup of an
//! unrecognized name is a failure, never a silent default.
use vstd::prelude::*;

use crate::strutil::str_eq;
use crate::vm::VMError;

verus! {

/// The fixed name-to-index table: `$zero` is 0 through `$ra` at 31. A name
/// outside the table has no index.
pub open spec fn register_index(name: Seq<char>) -> Option<usize> {
    if name == "$zero"@ {
        Some(0usize)
    } else if name == "$at"@ {
        Some(1usize)
    } else if name == "$v0"@ {
        Some(2usize)
    } else if name == "$v1"@ {
        Some(3usize)
    } else if name == "$a0"@ {
        Some(4usize)
    } else if name == "$a1"@ {
        Some(5usize)
    } else if name == "$a2"@ {
        Some(6usize)
    } else if name == "$a3"@ {
        Some(7usize)
    } else if name == "$t0"@ {
        Some(8usize)
    } else if name == "$t1"@ {
        Some(9usize)
    } else if name == "$t2"@ {
        Some(10usize)
    } else if name == "$t3"@ {
        Some(11usize)
    } else if name == "$t4"@ {
        Some(12usize)
    } else if name == "$t5"@ {
        Some(13usize)
    } else if name == "$t6"@ {
        Some(14usize)
    } else if name == "$t7"@ {
        Some(15usize)
    } else if name == "$s0"@ {
        Some(16usize)
    } else if name == "$s1"@ {
        Some(17usize)
    } else if name == "$s2"@ {
        Some(18usize)
    } else if name == "$s3"@ {
        Some(19usize)
    } else if name == "$s4"@ {
        Some(20usize)
    } else if name == "$s5"@ {
        Some(21usize)
    } else if name == "$s6"@ {
        Some(22usize)
    } else if name == "$s7"@ {
        Some(23usize)
    } else if name == "$t8"@ {
        Some(24usize)
    } else if name == "$t9"@ {
        Some(25usize)
    } else if name == "$k0"@ {
        Some(26usize)
    } else if name == "$k1"@ {
        Some(27usize)
    } else if name == "$gp"@ {
        Some(28usize)
    } else if name == "$sp"@ {
        Some(29usize)
    } else if name == "$s8"@ {
        Some(30usize)
    } else if name == "$ra"@ {
        Some(31usize)
    } else {
        None
    }
}

/// Every index the table yields addresses one of the 32 register cells.
pub proof fn lemma_register_index_in_range(name: Seq<char>)
    ensures
        register_index(name) matches Some(i) ==> i < 32,
{
}

/// The registers the syscall convention names — `$v0` for the trap code
/// and numeric input, `$a0` for print and read-string arguments — resolve
/// to the fixed cell indices the engine uses for them.
pub proof fn lemma_conventional_registers()
    ensures
        register_index("$v0"@) == Some(crate::vm::model::V0),
        register_index("$a0"@) == Some(crate::vm::model::A0),
{
    broadcast use vstd::string::group_string_axioms;

    reveal_strlit("$zero");
    reveal_strlit("$at");
    reveal_strlit("$v0");
    reveal_strlit("$v1");
    reveal_strlit("$a0");
    assert("$v0"@.len() == 3 && "$zero"@.len() == 5 && "$at"@.len() == 3 && "$v1"@.len() == 3
        && "$a0"@.len() == 3);
    assert("$v0"@[1] == 'v' && "$at"@[1] == 'a' && "$a0"@[1] == 'a' && "$v1"@[2] == '1' && "$a0"@[2]
        == '0' && "$v0"@[2] == '0' && "$at"@[2] == 't');
    assert("$v0"@ != "$at"@ && "$v0"@ != "$zero"@);
    assert("$a0"@ != "$zero"@ && "$a0"@ != "$at"@ && "$a0"@ != "$v0"@ && "$a0"@ != "$v1"@);
}

/// Resolves a symbolic register name through the fixed table, or fails with
/// [`VMError::UnknownRegister`].
pub fn get_register_position(register_name: &str) -> (r: Result<usize, VMError>)
    ensures
        r == (match register_index(register_name@) {
            Some(i) => Ok::<usize, VMError>(i),
            None => Err::<usize, VMError>(VMError::UnknownRegister),
        }),
{
        if str_eq(register_name, "$zero") {
            Ok(0)
        } else if str_eq(register_name, "$at") {
            Ok(1)
        } else if str_eq(register_name, "$v0") {
            Ok(2)
        } else if str_eq(register_name, "$v1") {
            Ok(3)
        } else if str_eq(register_name, "$a0") {
            Ok(4)
        } else if str_eq(register_name, "$a1") {
            Ok(5)
        } else if str_eq(register_name, "$a2") {
            Ok(6)
        } else if str_eq(register_name, "$a3") {
            Ok(7)
        } else if str_eq(register_name, "$t0") {
            Ok(8)
        } else if str_eq(register_name, "$t1") {
            Ok(9)
        } else if str_eq(register_name, "$t2") {
            Ok(10)
        } else if str_eq(register_name, "$t3") {
            Ok(11)
        } else if str_eq(register_name, "$t4") {
            Ok(12)
        } else if str_eq(register_name, "$t5") {
            Ok(13)
        } else if str_eq(register_name, "$t6") {
            Ok(14)
        } else if str_eq(register_name, "$t7") {
            Ok(15)
        } else if str_eq(register_name, "$s0") {
            Ok(16)
        } else if str_eq(register_name, "$s1") {
            Ok(17)
        } else if str_eq(register_name, "$s2") {
            Ok(18)
        } else if str_eq(register_name, "$s3") {
            Ok(19)
        } else if str_eq(register_name, "$s4") {
            Ok(20)
        } else if str_eq(register_name, "$s5") {
            Ok(21)
        } else if str_eq(register_name, "$s6") {
            Ok(22)
        } else if str_eq(register_name, "$s7") {
            Ok(23)
        } else if str_eq(register_name, "$t8") {
            Ok(24)
        } else if str_eq(register_name, "$t9") {
            Ok(25)
        } else if str_eq(register_name, "$k0") {
            Ok(26)
        } else if str_eq(register_name, "$k1") {
            Ok(27)
        } else if str_eq(register_name, "$gp") {
            Ok(28)
        } else if str_eq(register_name, "$sp") {
            Ok(29)
        } else if str_eq(register_name, "$s8") {
            Ok(30)
        } else if str_eq(register_name, "$ra") {
            Ok(31)
        } else {
            Err(VMError::UnknownRegister)
        }
}

/// Anything that can stand for a register in an instruction argument and be
/// resolved to a cell index.
pub trait RegisterPosition {
    /// The symbolic name the implementor carries.
    spec fn spec_name(&self) -> Seq<char>;

    /// Resolves the carried name through the fixed table.
    fn get_register_position(&self) -> (r: Result<usize, VMError>)
        ensures
            r == (match register_index(self.spec_name()) {
                Some(i) => Ok::<usize, VMError>(i),
                None => Err::<usize, VMError>(VMError::UnknownRegister),
            }),
    ;
}

impl RegisterPosition for crate::ast::Register {
    open spec fn spec_name(&self) -> Seq<char> {
        self.name@
    }

    fn get_register_position(&self) -> (r: Result<usize, VMError>) {
        get_register_position(self.name.as_str())
    }
}

} // verus!
