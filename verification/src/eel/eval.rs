use vstd::prelude::*;
use crate::eel::chars::{is_digit, digit_value, is_ascii_digit, ascii_digit_value, str_chars};

verus! {

/// Number of `regNN` registers shared by every EEL environment.
pub const NUM_REGS: usize = 100;

/// The register a variable name refers to: `reg` followed by exactly two
/// ASCII digits names register `10 * d1 + d2`; no other name is a register.
pub open spec fn spec_reg_index(name: Seq<char>) -> Option<usize> {
    if name.len() == 5 && name[0] == 'r' && name[1] == 'e' && name[2] == 'g'
        && is_digit(name[3]) && is_digit(name[4]) {
        Some((10 * digit_value(name[3]) + digit_value(name[4])) as usize)
    } else {
        None
    }
}

/// Resolves a register variable name (`reg00` .. `reg99`) to its slot.
pub fn reg_index(name: &str) -> (r: Option<usize>)
    ensures
        r == spec_reg_index(name@),
        r matches Some(i) ==> i < NUM_REGS,
{
    let n = name.unicode_len();
    if n != 5 {
        return None;
    }
    if name.get_char(0) != 'r' || name.get_char(1) != 'e' || name.get_char(2) != 'g' {
        return None;
    }
    let a = name.get_char(3);
    let b = name.get_char(4);
    if is_ascii_digit(a) && is_ascii_digit(b) {
        Some(10 * ascii_digit_value(a) + ascii_digit_value(b))
    } else {
        None
    }
}

/// The name of register `i`: `reg` and its two decimal digits.
pub open spec fn reg_name(i: int) -> Seq<char> {
    seq!['r', 'e', 'g', (('0' as int) + i / 10) as char, (('0' as int) + i % 10) as char]
}

/// Every register `reg00` .. `reg99` is addressed by its own name.
pub proof fn law_reg_names_resolve(i: int)
    requires
        0 <= i < 100,
    ensures
        spec_reg_index(reg_name(i)) == Some(i as usize),
{
    let a = (('0' as int) + i / 10) as char;
    let b = (('0' as int) + i % 10) as char;
    assert(reg_name(i)[3] == a && reg_name(i)[4] == b);
    assert(is_digit(a) && is_digit(b));
    assert(digit_value(a) == i / 10 && digit_value(b) == i % 10);
}

/// The builtin functions of EEL. `megabuf` reads the environment's own buffer,
/// `gmegabuf` the buffer that every environment shares.
#[derive(Debug, Clone, Copy, PartialEq, Eq)]
pub enum Builtin {
    Loop,
    If,
    Exec2,
    Exec3,
    Assign,
    Megabuf,
    Gmegabuf,
    Sin,
    Cos,
    Tan,
    Asin,
    Acos,
    Atan,
    Atan2,
    Sqrt,
    Sqr,
    Pow,
    Log,
    Log10,
    Exp,
    Abs,
    Sign,
    Floor,
    Ceil,
    Int,
    Frac,
    Min,
    Max,
    Clamp,
    Invsqrt,
    Rand,
    Band,
    Bor,
    Bnot,
    Equal,
    Above,
    Below,
    /// Any other name: calls to it evaluate their arguments and give zero.
    Unknown,
}

/// The builtin a call name denotes.
pub open spec fn spec_builtin(name: Seq<char>) -> Builtin {
    if name == "loop"@ {
        Builtin::Loop
    } else if name == "if"@ {
        Builtin::If
    } else if name == "exec2"@ {
        Builtin::Exec2
    } else if name == "exec3"@ {
        Builtin::Exec3
    } else if name == "assign"@ {
        Builtin::Assign
    } else if name == "megabuf"@ {
        Builtin::Megabuf
    } else if name == "gmegabuf"@ {
        Builtin::Gmegabuf
    } else if name == "sin"@ {
        Builtin::Sin
    } else if name == "cos"@ {
        Builtin::Cos
    } else if name == "tan"@ {
        Builtin::Tan
    } else if name == "asin"@ {
        Builtin::Asin
    } else if name == "acos"@ {
        Builtin::Acos
    } else if name == "atan"@ {
        Builtin::Atan
    } else if name == "atan2"@ {
        Builtin::Atan2
    } else if name == "sqrt"@ {
        Builtin::Sqrt
    } else if name == "sqr"@ {
        Builtin::Sqr
    } else if name == "pow"@ {
        Builtin::Pow
    } else if name == "log"@ {
        Builtin::Log
    } else if name == "log10"@ {
        Builtin::Log10
    } else if name == "exp"@ {
        Builtin::Exp
    } else if name == "abs"@ {
        Builtin::Abs
    } else if name == "sign"@ {
        Builtin::Sign
    } else if name == "floor"@ {
        Builtin::Floor
    } else if name == "ceil"@ {
        Builtin::Ceil
    } else if name == "int"@ {
        Builtin::Int
    } else if name == "frac"@ {
        Builtin::Frac
    } else if name == "min"@ {
        Builtin::Min
    } else if name == "max"@ {
        Builtin::Max
    } else if name == "clamp"@ {
        Builtin::Clamp
    } else if name == "invsqrt"@ {
        Builtin::Invsqrt
    } else if name == "rand"@ {
        Builtin::Rand
    } else if name == "band"@ {
        Builtin::Band
    } else if name == "bor"@ {
        Builtin::Bor
    } else if name == "bnot"@ {
        Builtin::Bnot
    } else if name == "equal"@ {
        Builtin::Equal
    } else if name == "above"@ {
        Builtin::Above
    } else if name == "below"@ {
        Builtin::Below
    } else {
        Builtin::Unknown
    }
}

/// The name by which EEL code calls a builtin (none for `Unknown`).
pub open spec fn builtin_name(b: Builtin) -> Seq<char> {
    match b {
        Builtin::Loop => "loop"@,
        Builtin::If => "if"@,
        Builtin::Exec2 => "exec2"@,
        Builtin::Exec3 => "exec3"@,
        Builtin::Assign => "assign"@,
        Builtin::Megabuf => "megabuf"@,
        Builtin::Gmegabuf => "gmegabuf"@,
        Builtin::Sin => "sin"@,
        Builtin::Cos => "cos"@,
        Builtin::Tan => "tan"@,
        Builtin::Asin => "asin"@,
        Builtin::Acos => "acos"@,
        Builtin::Atan => "atan"@,
        Builtin::Atan2 => "atan2"@,
        Builtin::Sqrt => "sqrt"@,
        Builtin::Sqr => "sqr"@,
        Builtin::Pow => "pow"@,
        Builtin::Log => "log"@,
        Builtin::Log10 => "log10"@,
        Builtin::Exp => "exp"@,
        Builtin::Abs => "abs"@,
        Builtin::Sign => "sign"@,
        Builtin::Floor => "floor"@,
        Builtin::Ceil => "ceil"@,
        Builtin::Int => "int"@,
        Builtin::Frac => "frac"@,
        Builtin::Min => "min"@,
        Builtin::Max => "max"@,
        Builtin::Clamp => "clamp"@,
        Builtin::Invsqrt => "invsqrt"@,
        Builtin::Rand => "rand"@,
        Builtin::Band => "band"@,
        Builtin::Bor => "bor"@,
        Builtin::Bnot => "bnot"@,
        Builtin::Equal => "equal"@,
        Builtin::Above => "above"@,
        Builtin::Below => "below"@,
        Builtin::Unknown => Seq::empty(),
    }
}

/// Every builtin is reached by its own name.
#[verifier::spinoff_prover]
#[verifier::rlimit(100)]
pub proof fn law_builtin_names_resolve(b: Builtin)
    requires
        b != Builtin::Unknown,
    ensures
        spec_builtin(builtin_name(b)) == b,
{
    reveal_strlit("loop");
    assert("loop"@ =~= seq!['l', 'o', 'o', 'p']);
    reveal_strlit("if");
    assert("if"@ =~= seq!['i', 'f']);
    reveal_strlit("exec2");
    assert("exec2"@ =~= seq!['e', 'x', 'e', 'c', '2']);
    reveal_strlit("exec3");
    assert("exec3"@ =~= seq!['e', 'x', 'e', 'c', '3']);
    reveal_strlit("assign");
    assert("assign"@ =~= seq!['a', 's', 's', 'i', 'g', 'n']);
    reveal_strlit("megabuf");
    assert("megabuf"@ =~= seq!['m', 'e', 'g', 'a', 'b', 'u', 'f']);
    reveal_strlit("gmegabuf");
    assert("gmegabuf"@ =~= seq!['g', 'm', 'e', 'g', 'a', 'b', 'u', 'f']);
    reveal_strlit("sin");
    assert("sin"@ =~= seq!['s', 'i', 'n']);
    reveal_strlit("cos");
    assert("cos"@ =~= seq!['c', 'o', 's']);
    reveal_strlit("tan");
    assert("tan"@ =~= seq!['t', 'a', 'n']);
    reveal_strlit("asin");
    assert("asin"@ =~= seq!['a', 's', 'i', 'n']);
    reveal_strlit("acos");
    assert("acos"@ =~= seq!['a', 'c', 'o', 's']);
    reveal_strlit("atan");
    assert("atan"@ =~= seq!['a', 't', 'a', 'n']);
    reveal_strlit("atan2");
    assert("atan2"@ =~= seq!['a', 't', 'a', 'n', '2']);
    reveal_strlit("sqrt");
    assert("sqrt"@ =~= seq!['s', 'q', 'r', 't']);
    reveal_strlit("sqr");
    assert("sqr"@ =~= seq!['s', 'q', 'r']);
    reveal_strlit("pow");
    assert("pow"@ =~= seq!['p', 'o', 'w']);
    reveal_strlit("log");
    assert("log"@ =~= seq!['l', 'o', 'g']);
    reveal_strlit("log10");
    assert("log10"@ =~= seq!['l', 'o', 'g', '1', '0']);
    reveal_strlit("exp");
    assert("exp"@ =~= seq!['e', 'x', 'p']);
    reveal_strlit("abs");
    assert("abs"@ =~= seq!['a', 'b', 's']);
    reveal_strlit("sign");
    assert("sign"@ =~= seq!['s', 'i', 'g', 'n']);
    reveal_strlit("floor");
    assert("floor"@ =~= seq!['f', 'l', 'o', 'o', 'r']);
    reveal_strlit("ceil");
    assert("ceil"@ =~= seq!['c', 'e', 'i', 'l']);
    reveal_strlit("int");
    assert("int"@ =~= seq!['i', 'n', 't']);
    reveal_strlit("frac");
    assert("frac"@ =~= seq!['f', 'r', 'a', 'c']);
    reveal_strlit("min");
    assert("min"@ =~= seq!['m', 'i', 'n']);
    reveal_strlit("max");
    assert("max"@ =~= seq!['m', 'a', 'x']);
    reveal_strlit("clamp");
    assert("clamp"@ =~= seq!['c', 'l', 'a', 'm', 'p']);
    reveal_strlit("invsqrt");
    assert("invsqrt"@ =~= seq!['i', 'n', 'v', 's', 'q', 'r', 't']);
    reveal_strlit("rand");
    assert("rand"@ =~= seq!['r', 'a', 'n', 'd']);
    reveal_strlit("band");
    assert("band"@ =~= seq!['b', 'a', 'n', 'd']);
    reveal_strlit("bor");
    assert("bor"@ =~= seq!['b', 'o', 'r']);
    reveal_strlit("bnot");
    assert("bnot"@ =~= seq!['b', 'n', 'o', 't']);
    reveal_strlit("equal");
    assert("equal"@ =~= seq!['e', 'q', 'u', 'a', 'l']);
    reveal_strlit("above");
    assert("above"@ =~= seq!['a', 'b', 'o', 'v', 'e']);
    reveal_strlit("below");
    assert("below"@ =~= seq!['b', 'e', 'l', 'o', 'w']);
    match b {
        Builtin::Loop => {},
        Builtin::If => {},
        Builtin::Exec2 => {},
        Builtin::Exec3 => {},
        Builtin::Assign => {},
        Builtin::Megabuf => {},
        Builtin::Gmegabuf => {},
        Builtin::Sin => {},
        Builtin::Cos => {},
        Builtin::Tan => {},
        Builtin::Asin => {},
        Builtin::Acos => {},
        Builtin::Atan => {},
        Builtin::Atan2 => {},
        Builtin::Sqrt => {},
        Builtin::Sqr => {},
        Builtin::Pow => {},
        Builtin::Log => {},
        Builtin::Log10 => {},
        Builtin::Exp => {},
        Builtin::Abs => {},
        Builtin::Sign => {},
        Builtin::Floor => {},
        Builtin::Ceil => {},
        Builtin::Int => {},
        Builtin::Frac => {},
        Builtin::Min => {},
        Builtin::Max => {},
        Builtin::Clamp => {},
        Builtin::Invsqrt => {},
        Builtin::Rand => {},
        Builtin::Band => {},
        Builtin::Bor => {},
        Builtin::Bnot => {},
        Builtin::Equal => {},
        Builtin::Above => {},
        Builtin::Below => {},
        Builtin::Unknown => {},
    }
}

/// Distinct builtins have names that resolve to distinct builtins.
pub proof fn law_builtin_names_distinct(a: Builtin, b: Builtin)
    requires
        a != Builtin::Unknown,
        b != Builtin::Unknown,
        a != b,
    ensures
        spec_builtin(builtin_name(a)) != spec_builtin(builtin_name(b)),
{
    law_builtin_names_resolve(a);
    law_builtin_names_resolve(b);
}

/// Resolves the name of a call to the builtin it denotes.
pub fn builtin_of(name: &str) -> (b: Builtin)
    ensures
        b == spec_builtin(name@),
{
    if name_is(name, "loop") {
        Builtin::Loop
    } else if name_is(name, "if") {
        Builtin::If
    } else if name_is(name, "exec2") {
        Builtin::Exec2
    } else if name_is(name, "exec3") {
        Builtin::Exec3
    } else if name_is(name, "assign") {
        Builtin::Assign
    } else if name_is(name, "megabuf") {
        Builtin::Megabuf
    } else if name_is(name, "gmegabuf") {
        Builtin::Gmegabuf
    } else if name_is(name, "sin") {
        Builtin::Sin
    } else if name_is(name, "cos") {
        Builtin::Cos
    } else if name_is(name, "tan") {
        Builtin::Tan
    } else if name_is(name, "asin") {
        Builtin::Asin
    } else if name_is(name, "acos") {
        Builtin::Acos
    } else if name_is(name, "atan") {
        Builtin::Atan
    } else if name_is(name, "atan2") {
        Builtin::Atan2
    } else if name_is(name, "sqrt") {
        Builtin::Sqrt
    } else if name_is(name, "sqr") {
        Builtin::Sqr
    } else if name_is(name, "pow") {
        Builtin::Pow
    } else if name_is(name, "log") {
        Builtin::Log
    } else if name_is(name, "log10") {
        Builtin::Log10
    } else if name_is(name, "exp") {
        Builtin::Exp
    } else if name_is(name, "abs") {
        Builtin::Abs
    } else if name_is(name, "sign") {
        Builtin::Sign
    } else if name_is(name, "floor") {
        Builtin::Floor
    } else if name_is(name, "ceil") {
        Builtin::Ceil
    } else if name_is(name, "int") {
        Builtin::Int
    } else if name_is(name, "frac") {
        Builtin::Frac
    } else if name_is(name, "min") {
        Builtin::Min
    } else if name_is(name, "max") {
        Builtin::Max
    } else if name_is(name, "clamp") {
        Builtin::Clamp
    } else if name_is(name, "invsqrt") {
        Builtin::Invsqrt
    } else if name_is(name, "rand") {
        Builtin::Rand
    } else if name_is(name, "band") {
        Builtin::Band
    } else if name_is(name, "bor") {
        Builtin::Bor
    } else if name_is(name, "bnot") {
        Builtin::Bnot
    } else if name_is(name, "equal") {
        Builtin::Equal
    } else if name_is(name, "above") {
        Builtin::Above
    } else if name_is(name, "below") {
        Builtin::Below
    } else {
        Builtin::Unknown
    }
}

/// How many arguments a lazily evaluated builtin needs; with fewer, the call
/// gives zero without evaluating anything. Eagerly evaluated builtins need none
/// (missing arguments read as zero).
pub open spec fn spec_min_args(b: Builtin) -> usize {
    match b {
        Builtin::Loop => 2,
        Builtin::If => 3,
        Builtin::Exec2 => 2,
        Builtin::Exec3 => 3,
        Builtin::Assign => 2,
        Builtin::Megabuf => 1,
        Builtin::Gmegabuf => 1,
        _ => 0,
    }
}

/// Whether a builtin evaluates its arguments itself (in order, or not at all)
/// rather than all of them up front.
pub open spec fn spec_is_lazy(b: Builtin) -> bool {
    spec_min_args(b) > 0
}

impl Builtin {
    pub fn min_args(&self) -> (n: usize)
        ensures
            n == spec_min_args(*self),
    {
        match self {
            Builtin::Loop => 2,
            Builtin::If => 3,
            Builtin::Exec2 => 2,
            Builtin::Exec3 => 3,
            Builtin::Assign => 2,
            Builtin::Megabuf => 1,
            Builtin::Gmegabuf => 1,
            _ => 0,
        }
    }

    pub fn is_lazy(&self) -> (r: bool)
        ensures
            r == spec_is_lazy(*self),
    {
        self.min_args() > 0
    }
}

/// Most iterations one `loop(n, body)` call runs.
pub const LOOP_LIMIT: usize = 1024;

/// Slots in an environment's `megabuf`, and in the shared `gmegabuf`.
pub const MEGABUF_SIZE: usize = 1000000;

/// How many times `loop(n, body)` runs its body, for a count of `n`: `n`,
/// capped at `LOOP_LIMIT`.
pub fn loop_count(n: usize) -> (r: usize)
    ensures
        r == (if n < LOOP_LIMIT { n } else { LOOP_LIMIT }),
{
    if n < LOOP_LIMIT {
        n
    } else {
        LOOP_LIMIT
    }
}

/// The buffer slot that `megabuf(i)` / `gmegabuf(i)` reads in a buffer of
/// `len` slots: `i` itself when it is in range, none otherwise (the read then
/// gives zero).
pub fn buffer_slot(i: usize, len: usize) -> (r: Option<usize>)
    ensures
        r == (if i < len { Some(i) } else { None::<usize> }),
{
    if i < len {
        Some(i)
    } else {
        None
    }
}

/// Whether two strings hold the same chars.
fn name_is(name: &str, lit: &str) -> (r: bool)
    ensures
        r == (name@ == lit@),
{
    let a = str_chars(name);
    let b = str_chars(lit);
    if a.len() != b.len() {
        return false;
    }
    let mut i: usize = 0;
    while i < a.len()
        invariant
            a@ == name@,
            b@ == lit@,
            a@.len() == b@.len(),
            i <= a.len(),
            forall|j: int| 0 <= j < i ==> a@[j] == b@[j],
        decreases a.len() - i,
    {
        if a[i] != b[i] {
            return false;
        }
        i += 1;
    }
    assert(a@ =~= b@);
    true
}

/// `fastrand::u64(0..n)`: a random number below `n` (it panics on an empty
/// range, hence `n > 0`). Which number is left unsaid.
#[verifier::external_body]
fn random_below(n: u64) -> (r: u64)
    requires
        n > 0,
    ensures
        r < n,
{
    fastrand::u64(0..n)
}

/// EEL `rand(n)` on the integer part `n` of its argument: zero for zero,
/// otherwise a random number below `n`.
pub fn rand_below(n: u64) -> (r: u64)
    ensures
        n == 0 ==> r == 0,
        n > 0 ==> r < n,
{
    if n == 0 {
        0
    } else {
        random_below(n)
    }
}

} // verus!
