//! A model of how the UNIVAC 1219 runs the code the generator emits, and
//! the laws on what that code computes.
//!
//! The model reads each code line as an optional label, an operation and an
//! operand, and runs the lines of one fragment: AL and the memory words are
//! integers, `CMAL b` after `ENTAL a` sets a comparison result that the next
//! conditional jump consumes (`JPALZ`: a == b, `JPALNZ`: a != b, `JPALP`:
//! a > b, `JPALNG`: a <= b), and without one a conditional jump tests AL;
//! `CPAL` negates AL (one's complement negation), `ADDAL`, `SUBAL` and
//! `MULAL` add, subtract and multiply by a word, and `ADDALK` adds its
//! operand.

use vstd::prelude::*;
use crate::ast::{BinaryOp, Expr, Stmt};
use crate::emission::{
    after_first_space, carries_label, instruction_part, lemma_after_label,
    lemma_carries_own_label, lemma_instruction_of_labelled, no_space,
};
use crate::error::Fault;
use crate::model::{lemma_static_words_differ, CompilerState};
use crate::scheme::{comparison_shape, is_comparison};
use crate::text::{decimal, digit_char, lemma_decimal_digits, lemma_decimal_injective};

verus! {

/// What precedes the first space of `s` (all of `s` where it has none).
pub open spec fn before_first_space(s: Seq<char>) -> Seq<char>
    decreases s.len(),
{
    if s.len() == 0 {
        s
    } else if s[0] == ' ' {
        seq![]
    } else {
        seq![s[0]] + before_first_space(s.drop_first())
    }
}

/// The operations the model runs.
pub enum Op {
    Ental,
    Entalk,
    Stral,
    Addal,
    Subal,
    Cmal,
    Jp,
    Jpalz,
    Jpalnz,
    Jpalp,
    Jpalng,
    Data,
    Mulal,
    Cpal,
    Addalk,
    Unknown,
}

/// The operation named by a mnemonic.
pub open spec fn op_of(name: Seq<char>) -> Op {
    if name == "ENTAL"@ {
        Op::Ental
    } else if name == "ENTALK"@ {
        Op::Entalk
    } else if name == "STRAL"@ {
        Op::Stral
    } else if name == "ADDAL"@ {
        Op::Addal
    } else if name == "SUBAL"@ {
        Op::Subal
    } else if name == "CMAL"@ {
        Op::Cmal
    } else if name == "JP"@ {
        Op::Jp
    } else if name == "JPALZ"@ {
        Op::Jpalz
    } else if name == "JPALNZ"@ {
        Op::Jpalnz
    } else if name == "JPALP"@ {
        Op::Jpalp
    } else if name == "JPALNG"@ {
        Op::Jpalng
    } else if name == "DATA"@ {
        Op::Data
    } else if name == "MULAL"@ {
        Op::Mulal
    } else if name == "CPAL"@ {
        Op::Cpal
    } else if name == "ADDALK"@ {
        Op::Addalk
    } else {
        Op::Unknown
    }
}

/// The machine: AL, the memory words by label, and the comparison result
/// that a `CMAL` leaves for the next conditional jump.
pub struct Machine {
    pub al: int,
    pub mem: Map<Seq<char>, int>,
    pub compared: Option<int>,
}

/// Whether line `j` is the first of `lines` to carry the label `l`.
pub open spec fn first_carrying(lines: Seq<Seq<char>>, l: Seq<char>, j: int) -> bool {
    &&& 0 <= j < lines.len()
    &&& carries_label(lines[j], l)
    &&& forall|k: int| 0 <= k < j ==> !carries_label(#[trigger] lines[k], l)
}

/// The line a jump to `l` goes to, if a line carries `l`.
pub open spec fn jump_target(lines: Seq<Seq<char>>, l: Seq<char>) -> Option<int> {
    if exists|j: int| first_carrying(lines, l, j) {
        Some(choose|j: int| first_carrying(lines, l, j))
    } else {
        None
    }
}

/// The number a decimal numeral stands for.
pub open spec fn numeral_value(s: Seq<char>) -> int {
    (choose|n: nat| decimal(n) == s) as int
}

/// Whether a conditional jump is taken on the value `v` it tests.
pub open spec fn jump_taken(op: Op, v: int) -> bool {
    match op {
        Op::Jpalz => v == 0,
        Op::Jpalnz => v != 0,
        Op::Jpalp => v > 0,
        Op::Jpalng => v <= 0,
        _ => false,
    }
}

/// One step of the machine at line `pc`: the next line and the new machine,
/// or `None` where the line cannot be run.
pub open spec fn step(lines: Seq<Seq<char>>, pc: int, m: Machine) -> Option<(int, Machine)> {
    let ins = instruction_part(lines[pc]);
    let arg = after_first_space(ins);
    let op = op_of(before_first_space(ins));
    match op {
        Op::Ental => Some((pc + 1, Machine { al: m.mem[arg], ..m })),
        Op::Entalk => Some((pc + 1, Machine { al: numeral_value(arg), ..m })),
        Op::Stral => Some((pc + 1, Machine { mem: m.mem.insert(arg, m.al), ..m })),
        Op::Addal => Some((pc + 1, Machine { al: m.al + m.mem[arg], ..m })),
        Op::Subal => Some((pc + 1, Machine { al: m.al - m.mem[arg], ..m })),
        Op::Cmal => Some((pc + 1, Machine { compared: Some(m.al - m.mem[arg]), ..m })),
        Op::Jp => match jump_target(lines, arg) {
            Some(j) => Some((j, m)),
            None => None,
        },
        Op::Jpalz | Op::Jpalnz | Op::Jpalp | Op::Jpalng => {
            let v = match m.compared {
                Some(d) => d,
                None => m.al,
            };
            let m2 = Machine { compared: None, ..m };
            if jump_taken(op, v) {
                match jump_target(lines, arg) {
                    Some(j) => Some((j, m2)),
                    None => None,
                }
            } else {
                Some((pc + 1, m2))
            }
        },
        Op::Data => Some((pc + 1, m)),
        Op::Mulal => Some((pc + 1, Machine { al: m.al * m.mem[arg], ..m })),
        Op::Cpal => Some((pc + 1, Machine { al: -m.al, ..m })),
        Op::Addalk => Some((pc + 1, Machine { al: m.al + numeral_value(arg), ..m })),
        Op::Unknown => None,
    }
}

/// The machine after running `lines` from line `pc` to the end, within
/// `fuel` steps; `None` where it does not reach the end in time.
pub open spec fn run(lines: Seq<Seq<char>>, pc: int, m: Machine, fuel: nat) -> Option<Machine>
    decreases fuel,
{
    if pc == lines.len() {
        Some(m)
    } else if !(0 <= pc < lines.len()) || fuel == 0 {
        None
    } else {
        match step(lines, pc, m) {
            Some((next, m2)) => run(lines, next, m2, (fuel - 1) as nat),
            None => None,
        }
    }
}

/// The code lines a generation step from `s` to `t` appends, a label left
/// waiting anchored on its `DATA 0` line.
pub open spec fn appended_code(s: CompilerState, t: CompilerState) -> Seq<Seq<char>> {
    t.final_code().subrange(s.code.len() as int, t.final_code().len() as int)
}

/// A storage word of a variable: a label without spaces that is not one of
/// the generator's temporaries.
pub open spec fn variable_word(l: Seq<char>) -> bool {
    no_space(l) && !"__t"@.is_prefix_of(l)
}

// ── reading lines ─────────────────────────────────────────────────────────

proof fn lemma_before_space(name: Seq<char>, arg: Seq<char>)
    requires
        no_space(name),
    ensures
        before_first_space(name + " "@ + arg) == name,
    decreases name.len(),
{
    reveal_strlit(" ");
    let s = name + " "@ + arg;
    if name.len() == 0 {
        assert(s[0] == ' ');
        assert(name =~= seq![]);
    } else {
        assert(s[0] == name[0]);
        assert(s.drop_first() =~= name.drop_first() + " "@ + arg);
        lemma_before_space(name.drop_first(), arg);
        assert(seq![name[0]] + name.drop_first() =~= name);
    }
}

/// A line `name arg`, where `name` is a mnemonic: it carries no label, runs
/// `name` and takes `arg`.
proof fn lemma_plain_line(name: Seq<char>, arg: Seq<char>)
    requires
        no_space(name),
        name.len() > 0,
        name[0] != '>',
    ensures
        instruction_part(name + " "@ + arg) == name + " "@ + arg,
        before_first_space(name + " "@ + arg) == name,
        after_first_space(name + " "@ + arg) == arg,
        forall|l: Seq<char>| !carries_label(name + " "@ + arg, l),
{
    assert((name + " "@ + arg)[0] == name[0]);
    lemma_before_space(name, arg);
    lemma_after_label(name, arg);
}

/// A line `>l name arg`: it carries `l` and no other space-free label, runs
/// `name` and takes `arg`.
proof fn lemma_labelled_line(l: Seq<char>, name: Seq<char>, arg: Seq<char>)
    requires
        no_space(l),
        no_space(name),
        name.len() > 0,
        name[0] != '>',
    ensures
        instruction_part(">"@ + l + " "@ + (name + " "@ + arg)) == name + " "@ + arg,
        before_first_space(instruction_part(">"@ + l + " "@ + (name + " "@ + arg))) == name,
        after_first_space(instruction_part(">"@ + l + " "@ + (name + " "@ + arg))) == arg,
        forall|k: Seq<char>|
            no_space(k) ==> (carries_label(">"@ + l + " "@ + (name + " "@ + arg), k) <==> k == l),
{
    lemma_instruction_of_labelled(l, name + " "@ + arg);
    lemma_plain_line(name, arg);
    assert forall|k: Seq<char>|
        no_space(k) implies (carries_label(">"@ + l + " "@ + (name + " "@ + arg), k) <==> k
        == l) by {
        lemma_carries_own_label(l, name + " "@ + arg, k);
    }
}

/// A jump to `l` goes to line `j` when `j` is the first line carrying `l`.
proof fn lemma_jump_target(lines: Seq<Seq<char>>, l: Seq<char>, j: int)
    requires
        first_carrying(lines, l, j),
    ensures
        jump_target(lines, l) == Some(j),
{
    let i = choose|i: int| first_carrying(lines, l, i);
    if i < j {
        assert(!carries_label(lines[i], l));
    } else if i > j {
        assert(!carries_label(lines[j], l));
    }
}

/// A decimal numeral stands for its number.
proof fn lemma_numeral(n: nat)
    ensures
        numeral_value(decimal(n)) == n,
{
    let k = choose|k: nat| decimal(k) == decimal(n);
    lemma_decimal_injective(k, n);
}

/// A name made of a space-free prefix and a number has no space.
proof fn lemma_numbered_no_space(p: Seq<char>, n: nat)
    requires
        no_space(p),
    ensures
        no_space(p + decimal(n)),
{
    lemma_decimal_digits(n);
    assert forall|k: int| 0 <= k < (p + decimal(n)).len() implies (p + decimal(n))[k] != ' ' by {
        if k >= p.len() {
            assert((p + decimal(n))[k] == decimal(n)[k - p.len()]);
        }
    }
}

/// A variable word is none of the generator's temporaries.
proof fn lemma_variable_not_temp(l: Seq<char>, n: nat)
    requires
        variable_word(l),
    ensures
        l != "__t"@ + decimal(n),
{
    reveal_strlit("__t");
    if l == "__t"@ + decimal(n) {
        assert(l.subrange(0, 3) =~= "__t"@);
    }
}

/// The mnemonics and instruction texts the laws meet.
proof fn lemma_mnemonics()
    ensures
        op_of("ENTAL"@) == Op::Ental,
        op_of("ENTALK"@) == Op::Entalk,
        op_of("STRAL"@) == Op::Stral,
        op_of("ADDAL"@) == Op::Addal,
        op_of("SUBAL"@) == Op::Subal,
        op_of("CMAL"@) == Op::Cmal,
        op_of("JP"@) == Op::Jp,
        op_of("JPALZ"@) == Op::Jpalz,
        op_of("JPALNZ"@) == Op::Jpalnz,
        op_of("JPALP"@) == Op::Jpalp,
        op_of("JPALNG"@) == Op::Jpalng,
        op_of("DATA"@) == Op::Data,
        op_of("MULAL"@) == Op::Mulal,
        op_of("CPAL"@) == Op::Cpal,
        op_of("ADDALK"@) == Op::Addalk,
        "ADDALK 1"@ == "ADDALK"@ + " "@ + decimal(1),
        no_space("ADDALK"@) && "ADDALK"@.len() > 0 && "ADDALK"@[0] != '>',
        "MULAL "@ == "MULAL"@ + " "@,
        "CPAL"@ == "CPAL"@,
        no_space("MULAL"@) && "MULAL"@.len() > 0 && "MULAL"@[0] != '>',
        no_space("CPAL"@) && "CPAL"@.len() > 0 && "CPAL"@[0] != '>',
        no_space("__lor_t"@) && "__lor_t"@.len() == 7 && "__lor_t"@[6] == 't',
        no_space("__lor_e"@) && "__lor_e"@.len() == 7 && "__lor_e"@[6] == 'e',
        no_space("__lnot_t"@) && "__lnot_t"@.len() == 8 && "__lnot_t"@[7] == 't',
        no_space("__lnot_e"@) && "__lnot_e"@.len() == 8 && "__lnot_e"@[7] == 'e',
        no_space("__whc"@) && "__whc"@.len() == 5 && "__whc"@[4] == 'c',
        no_space("__ife"@) && "__ife"@.len() == 5 && "__ife"@[4] == 'e',
        no_space("__ifd"@) && "__ifd"@.len() == 5 && "__ifd"@[4] == 'd',
        no_space("__forc"@) && "__forc"@.len() == 6 && "__forc"@[5] == 'c',
        no_space("__fors"@) && "__fors"@.len() == 6 && "__fors"@[5] == 's',
        no_space("__fore"@) && "__fore"@.len() == 6 && "__fore"@[5] == 'e',
        no_space("__whe"@) && "__whe"@.len() == 5 && "__whe"@[4] == 'e',
        "ENTAL "@ == "ENTAL"@ + " "@,
        "ENTALK 0"@ == "ENTALK"@ + " "@ + decimal(0),
        "ENTALK 1"@ == "ENTALK"@ + " "@ + decimal(1),
        "STRAL "@ == "STRAL"@ + " "@,
        "ADDAL "@ == "ADDAL"@ + " "@,
        "SUBAL "@ == "SUBAL"@ + " "@,
        "CMAL "@ == "CMAL"@ + " "@,
        "JP "@ == "JP"@ + " "@,
        "JPALZ "@ == "JPALZ"@ + " "@,
        "JPALNZ "@ == "JPALNZ"@ + " "@,
        "JPALP "@ == "JPALP"@ + " "@,
        "JPALNG "@ == "JPALNG"@ + " "@,
        " DATA 0"@ == " "@ + ("DATA"@ + " "@ + decimal(0)),
        no_space("ENTAL"@) && "ENTAL"@.len() > 0 && "ENTAL"@[0] != '>',
        no_space("ENTALK"@) && "ENTALK"@.len() > 0 && "ENTALK"@[0] != '>',
        no_space("STRAL"@) && "STRAL"@.len() > 0 && "STRAL"@[0] != '>',
        no_space("ADDAL"@) && "ADDAL"@.len() > 0 && "ADDAL"@[0] != '>',
        no_space("SUBAL"@) && "SUBAL"@.len() > 0 && "SUBAL"@[0] != '>',
        no_space("CMAL"@) && "CMAL"@.len() > 0 && "CMAL"@[0] != '>',
        no_space("JP"@) && "JP"@.len() > 0 && "JP"@[0] != '>',
        no_space("JPALZ"@) && "JPALZ"@.len() > 0 && "JPALZ"@[0] != '>',
        no_space("JPALNZ"@) && "JPALNZ"@.len() > 0 && "JPALNZ"@[0] != '>',
        no_space("JPALP"@) && "JPALP"@.len() > 0 && "JPALP"@[0] != '>',
        no_space("JPALNG"@) && "JPALNG"@.len() > 0 && "JPALNG"@[0] != '>',
        no_space("DATA"@) && "DATA"@.len() > 0 && "DATA"@[0] != '>',
        no_space("__ct"@) && "__ct"@.len() == 4 && "__ct"@[3] == 't',
        "__ce"@.len() == 4 && "__ce"@[3] == 'e',
        "__land_f"@.len() == 8 && "__land_f"@[7] == 'f',
        "__land_e"@.len() == 8 && "__land_e"@[7] == 'e',
        "__dot"@.len() == 5 && "__dot"@[4] == 't',
        "__doc"@.len() == 5 && "__doc"@[4] == 'c',
        "__doe"@.len() == 5 && "__doe"@[4] == 'e',
        no_space("__ce"@),
        no_space("__land_f"@),
        no_space("__land_e"@),
        no_space("__dot"@),
        no_space("__doc"@),
        no_space("__doe"@),
        no_space("__t"@),
        ">"@ == seq!['>'],
{
    reveal_strlit("ENTAL");
    reveal_strlit("ENTALK");
    reveal_strlit("STRAL");
    reveal_strlit("ADDAL");
    reveal_strlit("SUBAL");
    reveal_strlit("CMAL");
    reveal_strlit("JP");
    reveal_strlit("JPALZ");
    reveal_strlit("JPALNZ");
    reveal_strlit("JPALP");
    reveal_strlit("JPALNG");
    reveal_strlit("DATA");
    reveal_strlit("MULAL");
    reveal_strlit("CPAL");
    reveal_strlit("ADDALK");
    reveal_strlit("ADDALK 1");
    reveal_strlit("MULAL ");
    reveal_strlit("__lor_t");
    reveal_strlit("__lor_e");
    reveal_strlit("__lnot_t");
    reveal_strlit("__lnot_e");
    reveal_strlit("__whc");
    reveal_strlit("__whe");
    reveal_strlit("__ife");
    reveal_strlit("__ifd");
    reveal_strlit("__forc");
    reveal_strlit("__fors");
    reveal_strlit("__fore");
    reveal_strlit("ENTAL ");
    reveal_strlit("ENTALK 0");
    reveal_strlit("ENTALK 1");
    reveal_strlit("STRAL ");
    reveal_strlit("ADDAL ");
    reveal_strlit("SUBAL ");
    reveal_strlit("CMAL ");
    reveal_strlit("JP ");
    reveal_strlit("JPALZ ");
    reveal_strlit("JPALNZ ");
    reveal_strlit("JPALP ");
    reveal_strlit("JPALNG ");
    reveal_strlit(" DATA 0");
    reveal_strlit(" ");
    reveal_strlit(">");
    reveal_strlit("__ct");
    reveal_strlit("__ce");
    reveal_strlit("__land_f");
    reveal_strlit("__land_e");
    reveal_strlit("__dot");
    reveal_strlit("__doc");
    reveal_strlit("__doe");
    reveal_strlit("__t");
    assert(decimal(0) == crate::text::digit_text(0));
    assert(decimal(1) == crate::text::digit_text(1));
    assert(digit_char(0) == '0');
    assert(digit_char(1) == '1');
    assert(decimal(0) =~= seq!['0']);
    assert(decimal(1) =~= seq!['1']);
    assert("ENTAL "@ =~= "ENTAL"@ + " "@);
    assert("ENTALK 0"@ =~= "ENTALK"@ + " "@ + decimal(0));
    assert("ENTALK 1"@ =~= "ENTALK"@ + " "@ + decimal(1));
    assert("STRAL "@ =~= "STRAL"@ + " "@);
    assert("ADDAL "@ =~= "ADDAL"@ + " "@);
    assert("SUBAL "@ =~= "SUBAL"@ + " "@);
    assert("CMAL "@ =~= "CMAL"@ + " "@);
    assert("JP "@ =~= "JP"@ + " "@);
    assert("JPALZ "@ =~= "JPALZ"@ + " "@);
    assert("JPALNZ "@ =~= "JPALNZ"@ + " "@);
    assert("JPALP "@ =~= "JPALP"@ + " "@);
    assert("JPALNG "@ =~= "JPALNG"@ + " "@);
    assert(" DATA 0"@ =~= " "@ + ("DATA"@ + " "@ + decimal(0)));
    assert("STRAL"@[0] != "ENTAL"@[0]);
    assert("ADDAL"@[0] != "ENTAL"@[0]);
    assert("SUBAL"@[0] != "ENTAL"@[0]);
    assert("JPALZ"@[0] != "ENTAL"@[0]);
    assert("JPALP"@[0] != "ENTAL"@[0]);
    assert("JPALNZ"@[0] != "ENTALK"@[0]);
    assert("JPALNG"@[0] != "ENTALK"@[0]);
    assert("ADDAL"@[0] != "STRAL"@[0]);
    assert("SUBAL"@[1] != "STRAL"@[1]);
    assert("JPALZ"@[0] != "STRAL"@[0]);
    assert("JPALP"@[0] != "STRAL"@[0]);
    assert("SUBAL"@[0] != "ADDAL"@[0]);
    assert("JPALZ"@[0] != "ADDAL"@[0]);
    assert("JPALP"@[0] != "ADDAL"@[0]);
    assert("JPALZ"@[0] != "SUBAL"@[0]);
    assert("JPALP"@[0] != "SUBAL"@[0]);
    assert("DATA"@[0] != "CMAL"@[0]);
    assert("JPALP"@[4] != "JPALZ"@[4]);
    assert("JPALNG"@[5] != "JPALNZ"@[5]);
    assert("MULAL "@ =~= "MULAL"@ + " "@);
    assert("ADDALK 1"@ =~= "ADDALK"@ + " "@ + decimal(1));
    assert("ADDALK"@[0] != "ENTALK"@[0]);
    assert("ADDALK"@[0] != "JPALNZ"@[0]);
    assert("ADDALK"@[0] != "JPALNG"@[0]);
    assert("MULAL"@[0] != "ENTAL"@[0]);
    assert("MULAL"@[0] != "STRAL"@[0]);
    assert("MULAL"@[0] != "ADDAL"@[0]);
    assert("MULAL"@[0] != "SUBAL"@[0]);
    assert("MULAL"@[0] != "JPALZ"@[0]);
    assert("MULAL"@[0] != "JPALP"@[0]);
    assert("CPAL"@[1] != "CMAL"@[1]);
    assert("CPAL"@[0] != "DATA"@[0]);
}

/// AL after a run, if it reached the end.
pub open spec fn al_after(o: Option<Machine>) -> Option<int> {
    match o {
        Some(f) => Some(f.al),
        None => None,
    }
}

/// The expression `a op b` over two variables.
pub open spec fn on_variables(op: BinaryOp, a: String, b: String) -> Expr {
    Expr::BinaryOp(op, Box::new(Expr::Identifier(a)), Box::new(Expr::Identifier(b)))
}

// ── laws ──────────────────────────────────────────────────────────────────

/// Subtraction: the code of `a - b` leaves the value of `a` minus the value
/// of `b` in AL.
pub proof fn lemma_subtraction_computes(
    s: CompilerState,
    a: String,
    b: String,
    la: Seq<char>,
    lb: Seq<char>,
    m: Machine,
)
    requires
        s.pending_label is None,
        s.resolve_var(a@) == Ok::<Seq<char>, Fault>(la),
        s.resolve_var(b@) == Ok::<Seq<char>, Fault>(lb),
        variable_word(la),
        variable_word(lb),
    ensures
        s.expr(on_variables(BinaryOp::Minus, a, b)).1 is Ok,
        al_after(run(appended_code(s, s.expr(on_variables(BinaryOp::Minus, a, b)).0), 0, m, 6))
            == Some(m.mem[la] - m.mem[lb]),
{
    lemma_mnemonics();
    let e = on_variables(BinaryOp::Minus, a, b);
    let s1 = s.emit("ENTAL "@ + la);
    assert(s.expr(Expr::Identifier(a)) == (s1, Ok::<(), Fault>(())));
    let (s2, t0) = s1.alloc_temp();
    let s3 = s2.emit("STRAL "@ + t0);
    assert(s3.resolve_var(b@) == s.resolve_var(b@));
    let s4 = s3.emit("ENTAL "@ + lb);
    assert(s3.expr(Expr::Identifier(b)) == (s4, Ok::<(), Fault>(())));
    let (s5, t1) = s4.alloc_temp();
    let t = s5.emit("STRAL "@ + t1).emit("ENTAL "@ + t0).emit("SUBAL "@ + t1);
    assert(s.expr(e) == s.binop(e));
    assert(s.expr(e) == (t, Ok::<(), Fault>(())));
    let lines = seq![
        "ENTAL "@ + la,
        "STRAL "@ + t0,
        "ENTAL "@ + lb,
        "STRAL "@ + t1,
        "ENTAL "@ + t0,
        "SUBAL "@ + t1,
    ];
    assert(appended_code(s, t) =~= lines);
    lemma_static_words_differ(s1, s4, 0, 0);
    lemma_variable_not_temp(lb, s.tmp_cnt);
    lemma_plain_line("ENTAL"@, la);
    lemma_plain_line("STRAL"@, t0);
    lemma_plain_line("ENTAL"@, lb);
    lemma_plain_line("STRAL"@, t1);
    lemma_plain_line("ENTAL"@, t0);
    lemma_plain_line("SUBAL"@, t1);
    let x = m.mem[la];
    let y = m.mem[lb];
    let m1 = Machine { al: x, ..m };
    let m2 = Machine { mem: m.mem.insert(t0, x), ..m1 };
    let m3 = Machine { al: y, ..m2 };
    let m4 = Machine { mem: m2.mem.insert(t1, y), ..m3 };
    let m5 = Machine { al: x, ..m4 };
    let m6 = Machine { al: x - y, ..m5 };
    assert(step(lines, 0, m) == Some((1int, m1)));
    assert(step(lines, 1, m1) == Some((2int, m2)));
    assert(step(lines, 2, m2) == Some((3int, m3)));
    assert(step(lines, 3, m3) == Some((4int, m4)));
    assert(step(lines, 4, m4) == Some((5int, m5)));
    assert(step(lines, 5, m5) == Some((6int, m6)));
    reveal_with_fuel(run, 7);
}

/// The word stored at `l` after a run, if it reached the end.
pub open spec fn word_after(o: Option<Machine>, l: Seq<char>) -> Option<int> {
    match o {
        Some(f) => Some(f.mem[l]),
        None => None,
    }
}

/// Compound assignment: the code of `a += b` or `a -= b` stores the value
/// of `a` plus, or minus, the value of `b` into `a`, and leaves it in AL.
pub proof fn lemma_compound_assignment_computes(
    s: CompilerState,
    op: BinaryOp,
    a: String,
    b: String,
    la: Seq<char>,
    lb: Seq<char>,
    m: Machine,
)
    requires
        op is AssignPlus || op is AssignMinus,
        s.pending_label is None,
        s.resolve_var(a@) == Ok::<Seq<char>, Fault>(la),
        s.resolve_var(b@) == Ok::<Seq<char>, Fault>(lb),
        variable_word(la),
        variable_word(lb),
    ensures
        s.expr(on_variables(op, a, b)).1 is Ok,
        word_after(run(appended_code(s, s.expr(on_variables(op, a, b)).0), 0, m, 5), la) == Some(
            if op is AssignPlus { m.mem[la] + m.mem[lb] } else { m.mem[la] - m.mem[lb] },
        ),
        al_after(run(appended_code(s, s.expr(on_variables(op, a, b)).0), 0, m, 5)) == Some(
            if op is AssignPlus { m.mem[la] + m.mem[lb] } else { m.mem[la] - m.mem[lb] },
        ),
{
    lemma_mnemonics();
    let e = on_variables(op, a, b);
    let name: Seq<char> = if op is AssignPlus { "ADDAL"@ } else { "SUBAL"@ };
    let instr: Seq<char> = if op is AssignPlus { "ADDAL "@ } else { "SUBAL "@ };
    let s1 = s.emit("ENTAL "@ + lb);
    assert(s.expr(Expr::Identifier(b)) == (s1, Ok::<(), Fault>(())));
    let (s2, t0) = s1.alloc_temp();
    let s3 = s2.emit("STRAL "@ + t0);
    assert(s3.resolve_var(a@) == s.resolve_var(a@));
    let t = s3.emit("ENTAL "@ + la).emit(instr + t0).emit("STRAL "@ + la);
    assert(s.expr(e) == s.binop(e));
    assert(s.binop(e) == s.compound_assign(e, instr, false));
    assert(s.expr(e) == (t, Ok::<(), Fault>(())));
    let lines = seq![
        "ENTAL "@ + lb,
        "STRAL "@ + t0,
        "ENTAL "@ + la,
        instr + t0,
        "STRAL "@ + la,
    ];
    assert(appended_code(s, t) =~= lines);
    lemma_variable_not_temp(la, s.tmp_cnt);
    lemma_plain_line("ENTAL"@, lb);
    lemma_plain_line("STRAL"@, t0);
    lemma_plain_line("ENTAL"@, la);
    lemma_plain_line(name, t0);
    lemma_plain_line("STRAL"@, la);
    let x = m.mem[la];
    let y = m.mem[lb];
    let v = if op is AssignPlus { x + y } else { x - y };
    let m1 = Machine { al: y, ..m };
    let m2 = Machine { mem: m.mem.insert(t0, y), ..m1 };
    let m3 = Machine { al: x, ..m2 };
    let m4 = Machine { al: v, ..m3 };
    let m5 = Machine { mem: m4.mem.insert(la, v), ..m4 };
    assert(step(lines, 0, m) == Some((1int, m1)));
    assert(step(lines, 1, m1) == Some((2int, m2)));
    assert(step(lines, 2, m2) == Some((3int, m3)));
    assert(step(lines, 3, m3) == Some((4int, m4)));
    assert(step(lines, 4, m4) == Some((5int, m5)));
    reveal_with_fuel(run, 6);
}

/// Whether the comparison `op` holds between `x` and `y`.
pub open spec fn comparison_holds(op: BinaryOp, x: int, y: int) -> bool {
    match op {
        BinaryOp::Equals => x == y,
        BinaryOp::NotEquals => x != y,
        BinaryOp::Less => x < y,
        BinaryOp::Greater => x > y,
        BinaryOp::LessOrEqual => x <= y,
        _ => x >= y,
    }
}

/// A labelled line of two generated labels `p + decimal(i)` and
/// `q + decimal(j)` that differ at a position of their prefixes.
proof fn lemma_labels_differ(p: Seq<char>, q: Seq<char>, i: nat, j: nat, k: int)
    requires
        0 <= k < p.len(),
        p.len() == q.len(),
        p[k] != q[k],
    ensures
        p + decimal(i) != q + decimal(j),
{
    assert((p + decimal(i))[k] == p[k]);
    assert((q + decimal(j))[k] == q[k]);
}

/// The mnemonic of the jump a comparison ends with.
pub open spec fn jump_name(op: BinaryOp) -> Seq<char> {
    match op {
        BinaryOp::Equals => "JPALZ"@,
        BinaryOp::NotEquals => "JPALNZ"@,
        BinaryOp::Less => "JPALP"@,
        BinaryOp::Greater => "JPALP"@,
        _ => "JPALNG"@,
    }
}

/// The code lines of a comparison of the words `la` and `lb` through the
/// temporaries `t0` and `t1` and the labels `ct` and `ce`.
pub open spec fn comparison_lines(
    la: Seq<char>,
    lb: Seq<char>,
    t0: Seq<char>,
    t1: Seq<char>,
    ct: Seq<char>,
    ce: Seq<char>,
    swap: bool,
    jname: Seq<char>,
) -> Seq<Seq<char>> {
    seq![
        "ENTAL "@ + la,
        "STRAL "@ + t0,
        "ENTAL "@ + lb,
        "STRAL "@ + t1,
        "ENTAL "@ + (if swap { t1 } else { t0 }),
        "CMAL "@ + (if swap { t0 } else { t1 }),
        jname + " "@ + ct,
        "ENTALK 0"@,
        "JP "@ + ce,
        ">"@ + ct + " "@ + "ENTALK 1"@,
        ">"@ + ce + " DATA 0"@,
    ]
}

#[verifier::rlimit(40)]
#[verifier::spinoff_prover]
proof fn lemma_comparison_code(
    s: CompilerState,
    op: BinaryOp,
    a: String,
    b: String,
    la: Seq<char>,
    lb: Seq<char>,
)
    requires
        is_comparison(op),
        s.pending_label is None,
        s.resolve_var(a@) == Ok::<Seq<char>, Fault>(la),
        s.resolve_var(b@) == Ok::<Seq<char>, Fault>(lb),
    ensures
        s.expr(on_variables(op, a, b)).1 is Ok,
        appended_code(s, s.expr(on_variables(op, a, b)).0) == comparison_lines(
            la,
            lb,
            "__t"@ + decimal(s.tmp_cnt),
            "__t"@ + decimal(s.tmp_cnt + 1),
            "__ct"@ + decimal(s.label_cnt),
            "__ce"@ + decimal(s.label_cnt + 1),
            comparison_shape(op).0,
            jump_name(op),
        ),
{
    lemma_mnemonics();
    let e = on_variables(op, a, b);
    let s1 = s.emit("ENTAL "@ + la);
    assert(s.expr(Expr::Identifier(a)) == (s1, Ok::<(), Fault>(())));
    let (s2, t0) = s1.alloc_temp();
    let s3 = s2.emit("STRAL "@ + t0);
    assert(s3.resolve_var(b@) == s.resolve_var(b@));
    let s4 = s3.emit("ENTAL "@ + lb);
    assert(s3.expr(Expr::Identifier(b)) == (s4, Ok::<(), Fault>(())));
    let (s5, t1) = s4.alloc_temp();
    let s6 = s5.emit("STRAL "@ + t1);
    let (s7, ct) = s6.fresh_label("__ct"@);
    let (s8, ce) = s7.fresh_label("__ce"@);
    let (swap, jump) = comparison_shape(op);
    let first = if swap { t1 } else { t0 };
    let second = if swap { t0 } else { t1 };
    let t = s8.emit("ENTAL "@ + first).emit("CMAL "@ + second).emit(jump + ct).emit(
        "ENTALK 0"@,
    ).emit("JP "@ + ce).set_label(ct).emit("ENTALK 1"@).set_label(ce);
    assert(s.expr(e) == s.binop(e));
    assert(s.binop(e) == s.comparison(e));
    assert(s.expr(e) == (t, Ok::<(), Fault>(())));
    assert(jump == jump_name(op) + " "@);
    assert(appended_code(s, t) =~= comparison_lines(la, lb, t0, t1, ct, ce, swap, jump_name(op)));
}

proof fn lemma_comparison_run(
    la: Seq<char>,
    lb: Seq<char>,
    t0: Seq<char>,
    t1: Seq<char>,
    ct: Seq<char>,
    ce: Seq<char>,
    swap: bool,
    jname: Seq<char>,
    m: Machine,
)
    requires
        no_space(la),
        no_space(lb),
        no_space(t0),
        no_space(t1),
        no_space(ct),
        no_space(ce),
        lb != t0,
        t0 != t1,
        ct != ce,
        jname == "JPALZ"@ || jname == "JPALNZ"@ || jname == "JPALP"@ || jname == "JPALNG"@,
        m.compared is None,
    ensures
        al_after(run(comparison_lines(la, lb, t0, t1, ct, ce, swap, jname), 0, m, 12)) == Some(
            if jump_taken(
                op_of(jname),
                if swap { m.mem[lb] - m.mem[la] } else { m.mem[la] - m.mem[lb] },
            ) {
                1int
            } else {
                0int
            },
        ),
{
    lemma_mnemonics();
    lemma_numeral(0);
    lemma_numeral(1);
    let lines = comparison_lines(la, lb, t0, t1, ct, ce, swap, jname);
    let first = if swap { t1 } else { t0 };
    let second = if swap { t0 } else { t1 };
    lemma_plain_line("ENTAL"@, la);
    lemma_plain_line("STRAL"@, t0);
    lemma_plain_line("ENTAL"@, lb);
    lemma_plain_line("STRAL"@, t1);
    lemma_plain_line("ENTAL"@, first);
    lemma_plain_line("CMAL"@, second);
    lemma_plain_line(jname, ct);
    lemma_plain_line("ENTALK"@, decimal(0));
    lemma_plain_line("JP"@, ce);
    lemma_labelled_line(ct, "ENTALK"@, decimal(1));
    assert(">"@ + ce + " DATA 0"@ =~= ">"@ + ce + " "@ + ("DATA"@ + " "@ + decimal(0)));
    lemma_labelled_line(ce, "DATA"@, decimal(0));
    assert(first_carrying(lines, ct, 9));
    assert(first_carrying(lines, ce, 10));
    lemma_jump_target(lines, ct, 9);
    lemma_jump_target(lines, ce, 10);
    let x = m.mem[la];
    let y = m.mem[lb];
    let m1 = Machine { al: x, ..m };
    let m2 = Machine { mem: m.mem.insert(t0, x), ..m1 };
    let m3 = Machine { al: y, ..m2 };
    let m4 = Machine { mem: m2.mem.insert(t1, y), ..m3 };
    let fv = if swap { y } else { x };
    let sv = if swap { x } else { y };
    let m5 = Machine { al: fv, ..m4 };
    let m6 = Machine { compared: Some(fv - sv), ..m5 };
    let m7 = Machine { compared: None, ..m6 };
    assert(step(lines, 0, m) == Some((1int, m1)));
    assert(step(lines, 1, m1) == Some((2int, m2)));
    assert(step(lines, 2, m2) == Some((3int, m3)));
    assert(step(lines, 3, m3) == Some((4int, m4)));
    assert(step(lines, 4, m4) == Some((5int, m5)));
    assert(step(lines, 5, m5) == Some((6int, m6)));
    assert(run(lines, 0, m, 12) == run(lines, 6, m6, 6)) by {
        reveal_with_fuel(run, 7);
    }
    if jump_taken(op_of(jname), fv - sv) {
        let m9 = Machine { al: 1, ..m7 };
        assert(step(lines, 6, m6) == Some((9int, m7)));
        assert(step(lines, 9, m7) == Some((10int, m9)));
        assert(step(lines, 10, m9) == Some((11int, m9)));
        assert(run(lines, 6, m6, 6) == Some(m9)) by {
            reveal_with_fuel(run, 4);
        }
    } else {
        let m8 = Machine { al: 0, ..m7 };
        assert(step(lines, 6, m6) == Some((7int, m7)));
        assert(step(lines, 7, m7) == Some((8int, m8)));
        assert(step(lines, 8, m8) == Some((10int, m8)));
        assert(step(lines, 10, m8) == Some((11int, m8)));
        assert(run(lines, 6, m6, 6) == Some(m8)) by {
            reveal_with_fuel(run, 5);
        }
    }
}

/// Comparison: the code of `a op b`, for `==`, `!=`, `<`, `<=`, `>` and
/// `>=`, leaves 1 in AL when `op` holds between the value of `a` and the
/// value of `b`, and 0 when it does not.
pub proof fn lemma_comparison_computes(
    s: CompilerState,
    op: BinaryOp,
    a: String,
    b: String,
    la: Seq<char>,
    lb: Seq<char>,
    m: Machine,
)
    requires
        is_comparison(op),
        s.pending_label is None,
        s.resolve_var(a@) == Ok::<Seq<char>, Fault>(la),
        s.resolve_var(b@) == Ok::<Seq<char>, Fault>(lb),
        variable_word(la),
        variable_word(lb),
        m.compared is None,
    ensures
        s.expr(on_variables(op, a, b)).1 is Ok,
        al_after(run(appended_code(s, s.expr(on_variables(op, a, b)).0), 0, m, 12)) == Some(
            if comparison_holds(op, m.mem[la], m.mem[lb]) { 1int } else { 0int },
        ),
{
    lemma_mnemonics();
    lemma_comparison_code(s, op, a, b, la, lb);
    let t0 = "__t"@ + decimal(s.tmp_cnt);
    let t1 = "__t"@ + decimal(s.tmp_cnt + 1);
    let ct = "__ct"@ + decimal(s.label_cnt);
    let ce = "__ce"@ + decimal(s.label_cnt + 1);
    lemma_numbered_no_space("__t"@, s.tmp_cnt);
    lemma_numbered_no_space("__t"@, s.tmp_cnt + 1);
    lemma_numbered_no_space("__ct"@, s.label_cnt);
    lemma_numbered_no_space("__ce"@, s.label_cnt + 1);
    lemma_labels_differ("__ct"@, "__ce"@, s.label_cnt, s.label_cnt + 1, 3);
    lemma_variable_not_temp(lb, s.tmp_cnt);
    lemma_static_words_differ(s, CompilerState { tmp_cnt: s.tmp_cnt + 1, ..s }, 0, 0);
    lemma_comparison_run(la, lb, t0, t1, ct, ce, comparison_shape(op).0, jump_name(op), m);
}

/// The code lines of `a && b` for the words `la` and `lb` and the labels
/// `lf` and `le`.
pub open spec fn conjunction_lines(
    la: Seq<char>,
    lb: Seq<char>,
    lf: Seq<char>,
    le: Seq<char>,
) -> Seq<Seq<char>> {
    seq![
        "ENTAL "@ + la,
        "JPALZ "@ + lf,
        "ENTAL "@ + lb,
        "JPALZ "@ + lf,
        "ENTALK 1"@,
        "JP "@ + le,
        ">"@ + lf + " "@ + "ENTALK 0"@,
        ">"@ + le + " DATA 0"@,
    ]
}

proof fn lemma_conjunction_code(
    s: CompilerState,
    a: String,
    b: String,
    la: Seq<char>,
    lb: Seq<char>,
)
    requires
        s.pending_label is None,
        s.resolve_var(a@) == Ok::<Seq<char>, Fault>(la),
        s.resolve_var(b@) == Ok::<Seq<char>, Fault>(lb),
    ensures
        s.expr(on_variables(BinaryOp::LogicalAnd, a, b)).1 is Ok,
        appended_code(s, s.expr(on_variables(BinaryOp::LogicalAnd, a, b)).0) == conjunction_lines(
            la,
            lb,
            "__land_f"@ + decimal(s.label_cnt),
            "__land_e"@ + decimal(s.label_cnt + 1),
        ),
{
    let e = on_variables(BinaryOp::LogicalAnd, a, b);
    let (s1, lf) = s.fresh_label("__land_f"@);
    let (s2, le) = s1.fresh_label("__land_e"@);
    assert(s2.resolve_var(a@) == s.resolve_var(a@));
    let s3 = s2.emit("ENTAL "@ + la);
    assert(s2.expr(Expr::Identifier(a)) == (s3, Ok::<(), Fault>(())));
    let s4 = s3.emit("JPALZ "@ + lf);
    assert(s4.resolve_var(b@) == s.resolve_var(b@));
    let s5 = s4.emit("ENTAL "@ + lb);
    assert(s4.expr(Expr::Identifier(b)) == (s5, Ok::<(), Fault>(())));
    let t = s5.emit("JPALZ "@ + lf).emit("ENTALK 1"@).emit("JP "@ + le).set_label(lf).emit(
        "ENTALK 0"@,
    ).set_label(le);
    assert(s.expr(e) == s.binop(e));
    assert(s.expr(e) == (t, Ok::<(), Fault>(())));
    assert(appended_code(s, t) =~= conjunction_lines(la, lb, lf, le));
}

proof fn lemma_conjunction_run(
    la: Seq<char>,
    lb: Seq<char>,
    lf: Seq<char>,
    le: Seq<char>,
    m: Machine,
)
    requires
        no_space(la),
        no_space(lb),
        no_space(lf),
        no_space(le),
        lf != le,
        m.compared is None,
    ensures
        al_after(run(conjunction_lines(la, lb, lf, le), 0, m, 8)) == Some(
            if m.mem[la] != 0 && m.mem[lb] != 0 { 1int } else { 0int },
        ),
{
    lemma_mnemonics();
    lemma_numeral(0);
    lemma_numeral(1);
    let lines = conjunction_lines(la, lb, lf, le);
    lemma_plain_line("ENTAL"@, la);
    lemma_plain_line("JPALZ"@, lf);
    lemma_plain_line("ENTAL"@, lb);
    lemma_plain_line("ENTALK"@, decimal(1));
    lemma_plain_line("JP"@, le);
    lemma_labelled_line(lf, "ENTALK"@, decimal(0));
    assert(">"@ + le + " DATA 0"@ =~= ">"@ + le + " "@ + ("DATA"@ + " "@ + decimal(0)));
    lemma_labelled_line(le, "DATA"@, decimal(0));
    assert(first_carrying(lines, lf, 6));
    assert(first_carrying(lines, le, 7));
    lemma_jump_target(lines, lf, 6);
    lemma_jump_target(lines, le, 7);
    let x = m.mem[la];
    let y = m.mem[lb];
    let m1 = Machine { al: x, ..m };
    assert(step(lines, 0, m) == Some((1int, m1)));
    if x == 0 {
        let m6 = Machine { al: 0, ..m1 };
        assert(step(lines, 1, m1) == Some((6int, m1)));
        assert(step(lines, 6, m1) == Some((7int, m6)));
        assert(step(lines, 7, m6) == Some((8int, m6)));
        assert(run(lines, 0, m, 8) == Some(m6)) by {
            reveal_with_fuel(run, 5);
        }
    } else {
        let m3 = Machine { al: y, ..m1 };
        assert(step(lines, 1, m1) == Some((2int, m1)));
        assert(step(lines, 2, m1) == Some((3int, m3)));
        if y == 0 {
            let m6 = Machine { al: 0, ..m3 };
            assert(step(lines, 3, m3) == Some((6int, m3)));
            assert(step(lines, 6, m3) == Some((7int, m6)));
            assert(step(lines, 7, m6) == Some((8int, m6)));
            assert(run(lines, 0, m, 8) == Some(m6)) by {
                reveal_with_fuel(run, 7);
            }
        } else {
            let m5 = Machine { al: 1, ..m3 };
            assert(step(lines, 3, m3) == Some((4int, m3)));
            assert(step(lines, 4, m3) == Some((5int, m5)));
            assert(step(lines, 5, m5) == Some((7int, m5)));
            assert(step(lines, 7, m5) == Some((8int, m5)));
            assert(run(lines, 0, m, 8) == Some(m5)) by {
                reveal_with_fuel(run, 8);
            }
        }
    }
}

/// Conjunction: the code of `a && b` leaves 1 in AL when the values of `a`
/// and `b` are both nonzero, and 0 otherwise.
pub proof fn lemma_conjunction_computes(
    s: CompilerState,
    a: String,
    b: String,
    la: Seq<char>,
    lb: Seq<char>,
    m: Machine,
)
    requires
        s.pending_label is None,
        s.resolve_var(a@) == Ok::<Seq<char>, Fault>(la),
        s.resolve_var(b@) == Ok::<Seq<char>, Fault>(lb),
        variable_word(la),
        variable_word(lb),
        m.compared is None,
    ensures
        s.expr(on_variables(BinaryOp::LogicalAnd, a, b)).1 is Ok,
        al_after(
            run(appended_code(s, s.expr(on_variables(BinaryOp::LogicalAnd, a, b)).0), 0, m, 8),
        ) == Some(if m.mem[la] != 0 && m.mem[lb] != 0 { 1int } else { 0int }),
{
    lemma_mnemonics();
    lemma_conjunction_code(s, a, b, la, lb);
    lemma_numbered_no_space("__land_f"@, s.label_cnt);
    lemma_numbered_no_space("__land_e"@, s.label_cnt + 1);
    lemma_labels_differ("__land_f"@, "__land_e"@, s.label_cnt, s.label_cnt + 1, 7);
    lemma_conjunction_run(
        la,
        lb,
        "__land_f"@ + decimal(s.label_cnt),
        "__land_e"@ + decimal(s.label_cnt + 1),
        m,
    );
}

/// The statement `do { continue; } while (v);`.
pub open spec fn continue_loop(v: String) -> Stmt {
    Stmt::DoWhile { statement: Box::new(Stmt::Continue), expression: Box::new(Expr::Identifier(v)) }
}

/// The code lines of `do { continue; } while (v);` for the word `lv` and
/// the labels `top`, `cond` and `end`.
pub open spec fn continue_loop_lines(
    lv: Seq<char>,
    top: Seq<char>,
    cond: Seq<char>,
    end: Seq<char>,
) -> Seq<Seq<char>> {
    seq![
        ">"@ + top + " "@ + ("JP "@ + cond),
        ">"@ + cond + " "@ + ("ENTAL "@ + lv),
        "JPALNZ "@ + top,
        ">"@ + end + " DATA 0"@,
    ]
}

#[verifier::rlimit(40)]
#[verifier::spinoff_prover]
proof fn lemma_continue_loop_code(s: CompilerState, v: String, lv: Seq<char>)
    requires
        s.pending_label is None,
        s.resolve_var(v@) == Ok::<Seq<char>, Fault>(lv),
    ensures
        s.stmt(continue_loop(v)).1 is Ok,
        appended_code(s, s.stmt(continue_loop(v)).0) == continue_loop_lines(
            lv,
            "__dot"@ + decimal(s.label_cnt),
            "__doc"@ + decimal(s.label_cnt + 1),
            "__doe"@ + decimal(s.label_cnt + 2),
        ),
{
    let st = continue_loop(v);
    let (s1, top) = s.fresh_label("__dot"@);
    let (s2, cond) = s1.fresh_label("__doc"@);
    let (s3, end) = s2.fresh_label("__doe"@);
    let s4 = s3.set_label(top).push_loop(end, cond);
    assert(s4.loop_labels.last() == (end, cond));
    let s5 = s4.emit("JP "@ + cond);
    assert(s4.stmt(Stmt::Continue) == (s5, Ok::<(), Fault>(())));
    let s6 = s5.pop_loop().set_label(cond);
    assert(s6.resolve_var(v@) == s.resolve_var(v@));
    let s7 = s6.emit("ENTAL "@ + lv);
    assert(s6.expr(Expr::Identifier(v)) == (s7, Ok::<(), Fault>(())));
    let t = s7.emit("JPALNZ "@ + top).set_label(end);
    assert(s.stmt(st) == (t, Ok::<(), Fault>(())));
    assert(appended_code(s, t) =~= continue_loop_lines(lv, top, cond, end));
}

proof fn lemma_continue_loop_run(
    lv: Seq<char>,
    top: Seq<char>,
    cond: Seq<char>,
    end: Seq<char>,
    m: Machine,
)
    requires
        no_space(lv),
        no_space(top),
        no_space(cond),
        no_space(end),
        top != cond,
        m.compared is None,
        m.mem[lv] == 0,
    ensures
        run(continue_loop_lines(lv, top, cond, end), 0, m, 4) is Some,
{
    lemma_mnemonics();
    let lines = continue_loop_lines(lv, top, cond, end);
    lemma_labelled_line(top, "JP"@, cond);
    lemma_labelled_line(cond, "ENTAL"@, lv);
    lemma_plain_line("JPALNZ"@, top);
    assert(">"@ + end + " DATA 0"@ =~= ">"@ + end + " "@ + ("DATA"@ + " "@ + decimal(0)));
    lemma_labelled_line(end, "DATA"@, decimal(0));
    assert(first_carrying(lines, cond, 1));
    lemma_jump_target(lines, cond, 1);
    let m1 = Machine { al: 0, ..m };
    assert(step(lines, 0, m) == Some((1int, m)));
    assert(step(lines, 1, m) == Some((2int, m1)));
    assert(step(lines, 2, m1) == Some((3int, m1)));
    assert(step(lines, 3, m1) == Some((4int, m1)));
    assert(run(lines, 0, m, 4) == Some(m1)) by {
        reveal_with_fuel(run, 5);
    }
}

/// `continue` in a do-while body goes to the loop condition: the loop
/// `do { continue; } while (v);` with `v` zero runs its body once, tests
/// the condition and ends.
pub proof fn lemma_continue_reaches_condition(
    s: CompilerState,
    v: String,
    lv: Seq<char>,
    m: Machine,
)
    requires
        s.pending_label is None,
        s.resolve_var(v@) == Ok::<Seq<char>, Fault>(lv),
        variable_word(lv),
        m.compared is None,
        m.mem[lv] == 0,
    ensures
        s.stmt(continue_loop(v)).1 is Ok,
        run(appended_code(s, s.stmt(continue_loop(v)).0), 0, m, 4) is Some,
{
    lemma_mnemonics();
    lemma_continue_loop_code(s, v, lv);
    lemma_numbered_no_space("__dot"@, s.label_cnt);
    lemma_numbered_no_space("__doc"@, s.label_cnt + 1);
    lemma_numbered_no_space("__doe"@, s.label_cnt + 2);
    lemma_labels_differ("__dot"@, "__doc"@, s.label_cnt, s.label_cnt + 1, 4);
    lemma_continue_loop_run(
        lv,
        "__dot"@ + decimal(s.label_cnt),
        "__doc"@ + decimal(s.label_cnt + 1),
        "__doe"@ + decimal(s.label_cnt + 2),
        m,
    );
}

/// A line that is a bare mnemonic: it carries no label and runs `name`.
proof fn lemma_bare_line(name: Seq<char>)
    requires
        no_space(name),
        name.len() > 0,
        name[0] != '>',
    ensures
        instruction_part(name) == name,
        before_first_space(name) == name,
        forall|l: Seq<char>| !carries_label(name, l),
{
    lemma_bare_word(name);
}

proof fn lemma_bare_word(name: Seq<char>)
    requires
        no_space(name),
    ensures
        before_first_space(name) == name,
    decreases name.len(),
{
    if name.len() > 0 {
        lemma_bare_word(name.drop_first());
        assert(seq![name[0]] + name.drop_first() =~= name);
    }
}

/// The code lines that combine the words `la` and `lb` through `t` with
/// the instruction `name`.
pub open spec fn combining_lines(la: Seq<char>, lb: Seq<char>, t: Seq<char>, name: Seq<char>) -> Seq<
    Seq<char>,
> {
    seq!["ENTAL "@ + la, "STRAL "@ + t, "ENTAL "@ + lb, name + " "@ + t]
}

/// Sum and product: the code of `a + b` leaves the value of `a` plus the
/// value of `b` in AL, and the code of `a * b` their product.
pub proof fn lemma_sum_and_product_compute(
    s: CompilerState,
    op: BinaryOp,
    a: String,
    b: String,
    la: Seq<char>,
    lb: Seq<char>,
    m: Machine,
)
    requires
        op is Plus || op is Multiply,
        s.pending_label is None,
        s.resolve_var(a@) == Ok::<Seq<char>, Fault>(la),
        s.resolve_var(b@) == Ok::<Seq<char>, Fault>(lb),
        variable_word(la),
        variable_word(lb),
    ensures
        s.expr(on_variables(op, a, b)).1 is Ok,
        al_after(run(appended_code(s, s.expr(on_variables(op, a, b)).0), 0, m, 4)) == Some(
            if op is Plus { m.mem[la] + m.mem[lb] } else { m.mem[la] * m.mem[lb] },
        ),
{
    lemma_mnemonics();
    let e = on_variables(op, a, b);
    let name: Seq<char> = if op is Plus { "ADDAL"@ } else { "MULAL"@ };
    let s1 = s.emit("ENTAL "@ + la);
    assert(s.expr(Expr::Identifier(a)) == (s1, Ok::<(), Fault>(())));
    let (s2, t) = s1.alloc_temp();
    let s3 = s2.emit("STRAL "@ + t);
    assert(s3.resolve_var(b@) == s.resolve_var(b@));
    let s4 = s3.emit("ENTAL "@ + lb);
    assert(s3.expr(Expr::Identifier(b)) == (s4, Ok::<(), Fault>(())));
    let u = s4.emit(name + " "@ + t);
    assert(s.expr(e) == s.binop(e));
    assert(s.binop(e) == s.combine(e));
    assert(s.expr(e) == (u, Ok::<(), Fault>(())));
    let lines = combining_lines(la, lb, t, name);
    assert(appended_code(s, u) =~= lines);
    lemma_variable_not_temp(lb, s.tmp_cnt);
    lemma_plain_line("ENTAL"@, la);
    lemma_plain_line("STRAL"@, t);
    lemma_plain_line("ENTAL"@, lb);
    lemma_plain_line(name, t);
    let x = m.mem[la];
    let y = m.mem[lb];
    let m1 = Machine { al: x, ..m };
    let m2 = Machine { mem: m.mem.insert(t, x), ..m1 };
    let m3 = Machine { al: y, ..m2 };
    let v = if op is Plus { y + x } else { y * x };
    let m4 = Machine { al: v, ..m3 };
    assert(step(lines, 0, m) == Some((1int, m1)));
    assert(step(lines, 1, m1) == Some((2int, m2)));
    assert(step(lines, 2, m2) == Some((3int, m3)));
    assert(step(lines, 3, m3) == Some((4int, m4)));
    assert(y * x == x * y) by (nonlinear_arith);
    assert(run(lines, 0, m, 4) == Some(m4)) by {
        reveal_with_fuel(run, 5);
    }
}

/// Assignment: the code of `a = b` stores the value of `b` into `a` and
/// leaves it in AL.
pub proof fn lemma_assignment_stores(
    s: CompilerState,
    a: String,
    b: String,
    la: Seq<char>,
    lb: Seq<char>,
    m: Machine,
)
    requires
        s.pending_label is None,
        s.resolve_var(a@) == Ok::<Seq<char>, Fault>(la),
        s.resolve_var(b@) == Ok::<Seq<char>, Fault>(lb),
        variable_word(la),
        variable_word(lb),
    ensures
        s.expr(on_variables(BinaryOp::Assign, a, b)).1 is Ok,
        word_after(run(appended_code(s, s.expr(on_variables(BinaryOp::Assign, a, b)).0), 0, m, 2), la)
            == Some(m.mem[lb]),
        al_after(run(appended_code(s, s.expr(on_variables(BinaryOp::Assign, a, b)).0), 0, m, 2))
            == Some(m.mem[lb]),
{
    lemma_mnemonics();
    let e = on_variables(BinaryOp::Assign, a, b);
    let s1 = s.emit("ENTAL "@ + lb);
    assert(s.expr(Expr::Identifier(b)) == (s1, Ok::<(), Fault>(())));
    assert(s1.resolve_var(a@) == s.resolve_var(a@));
    let u = s1.emit("STRAL "@ + la);
    assert(s.expr(e) == s.binop(e));
    assert(s.expr(e) == (u, Ok::<(), Fault>(())));
    let lines = seq!["ENTAL "@ + lb, "STRAL "@ + la];
    assert(appended_code(s, u) =~= lines);
    lemma_plain_line("ENTAL"@, lb);
    lemma_plain_line("STRAL"@, la);
    let y = m.mem[lb];
    let m1 = Machine { al: y, ..m };
    let m2 = Machine { mem: m.mem.insert(la, y), ..m1 };
    assert(step(lines, 0, m) == Some((1int, m1)));
    assert(step(lines, 1, m1) == Some((2int, m2)));
    assert(run(lines, 0, m, 2) == Some(m2)) by {
        reveal_with_fuel(run, 3);
    }
}

/// The expression `op a` over a variable.
pub open spec fn on_variable(op: crate::ast::UnaryOp, a: String) -> Expr {
    Expr::UnaryOp(op, Box::new(Expr::Identifier(a)))
}

/// Negation: the code of `-a` and of `~a` (the same in one's complement)
/// leaves the negated value of `a` in AL.
pub proof fn lemma_negation_computes(
    s: CompilerState,
    op: crate::ast::UnaryOp,
    a: String,
    la: Seq<char>,
    m: Machine,
)
    requires
        op is Minus || op is Complement,
        s.pending_label is None,
        s.resolve_var(a@) == Ok::<Seq<char>, Fault>(la),
        variable_word(la),
    ensures
        s.expr(on_variable(op, a)).1 is Ok,
        al_after(run(appended_code(s, s.expr(on_variable(op, a)).0), 0, m, 2)) == Some(
            -m.mem[la],
        ),
{
    lemma_mnemonics();
    let e = on_variable(op, a);
    let s1 = s.emit("ENTAL "@ + la);
    assert(s.expr(Expr::Identifier(a)) == (s1, Ok::<(), Fault>(())));
    let u = s1.emit("CPAL"@);
    assert(s.expr(e) == s.unary(e));
    assert(s.expr(e) == (u, Ok::<(), Fault>(())));
    let lines = seq!["ENTAL "@ + la, "CPAL"@];
    assert(appended_code(s, u) =~= lines);
    lemma_plain_line("ENTAL"@, la);
    lemma_bare_line("CPAL"@);
    let x = m.mem[la];
    let m1 = Machine { al: x, ..m };
    let m2 = Machine { al: -x, ..m1 };
    assert(step(lines, 0, m) == Some((1int, m1)));
    assert(step(lines, 1, m1) == Some((2int, m2)));
    assert(run(lines, 0, m, 2) == Some(m2)) by {
        reveal_with_fuel(run, 3);
    }
}

/// The code lines of `a || b` for the words `la` and `lb` and the labels
/// `lt` and `le`.
pub open spec fn disjunction_lines(
    la: Seq<char>,
    lb: Seq<char>,
    lt: Seq<char>,
    le: Seq<char>,
) -> Seq<Seq<char>> {
    seq![
        "ENTAL "@ + la,
        "JPALNZ "@ + lt,
        "ENTAL "@ + lb,
        "JPALNZ "@ + lt,
        "ENTALK 0"@,
        "JP "@ + le,
        ">"@ + lt + " "@ + "ENTALK 1"@,
        ">"@ + le + " DATA 0"@,
    ]
}

#[verifier::rlimit(40)]
#[verifier::spinoff_prover]
proof fn lemma_disjunction_code(
    s: CompilerState,
    a: String,
    b: String,
    la: Seq<char>,
    lb: Seq<char>,
)
    requires
        s.pending_label is None,
        s.resolve_var(a@) == Ok::<Seq<char>, Fault>(la),
        s.resolve_var(b@) == Ok::<Seq<char>, Fault>(lb),
    ensures
        s.expr(on_variables(BinaryOp::LogicalOr, a, b)).1 is Ok,
        appended_code(s, s.expr(on_variables(BinaryOp::LogicalOr, a, b)).0) == disjunction_lines(
            la,
            lb,
            "__lor_t"@ + decimal(s.label_cnt),
            "__lor_e"@ + decimal(s.label_cnt + 1),
        ),
{
    let e = on_variables(BinaryOp::LogicalOr, a, b);
    let (s1, lt) = s.fresh_label("__lor_t"@);
    let (s2, le) = s1.fresh_label("__lor_e"@);
    assert(s2.resolve_var(a@) == s.resolve_var(a@));
    let s3 = s2.emit("ENTAL "@ + la);
    assert(s2.expr(Expr::Identifier(a)) == (s3, Ok::<(), Fault>(())));
    let s4 = s3.emit("JPALNZ "@ + lt);
    assert(s4.resolve_var(b@) == s.resolve_var(b@));
    let s5 = s4.emit("ENTAL "@ + lb);
    assert(s4.expr(Expr::Identifier(b)) == (s5, Ok::<(), Fault>(())));
    let t = s5.emit("JPALNZ "@ + lt).emit("ENTALK 0"@).emit("JP "@ + le).set_label(lt).emit(
        "ENTALK 1"@,
    ).set_label(le);
    assert(s.expr(e) == s.binop(e));
    assert(s.expr(e) == (t, Ok::<(), Fault>(())));
    assert(appended_code(s, t) =~= disjunction_lines(la, lb, lt, le));
}

proof fn lemma_disjunction_run(
    la: Seq<char>,
    lb: Seq<char>,
    lt: Seq<char>,
    le: Seq<char>,
    m: Machine,
)
    requires
        no_space(la),
        no_space(lb),
        no_space(lt),
        no_space(le),
        lt != le,
        m.compared is None,
    ensures
        al_after(run(disjunction_lines(la, lb, lt, le), 0, m, 8)) == Some(
            if m.mem[la] != 0 || m.mem[lb] != 0 { 1int } else { 0int },
        ),
{
    lemma_mnemonics();
    lemma_numeral(0);
    lemma_numeral(1);
    let lines = disjunction_lines(la, lb, lt, le);
    lemma_plain_line("ENTAL"@, la);
    lemma_plain_line("JPALNZ"@, lt);
    lemma_plain_line("ENTAL"@, lb);
    lemma_plain_line("ENTALK"@, decimal(0));
    lemma_plain_line("JP"@, le);
    lemma_labelled_line(lt, "ENTALK"@, decimal(1));
    assert(">"@ + le + " DATA 0"@ =~= ">"@ + le + " "@ + ("DATA"@ + " "@ + decimal(0)));
    lemma_labelled_line(le, "DATA"@, decimal(0));
    assert(first_carrying(lines, lt, 6));
    assert(first_carrying(lines, le, 7));
    lemma_jump_target(lines, lt, 6);
    lemma_jump_target(lines, le, 7);
    let x = m.mem[la];
    let y = m.mem[lb];
    let m1 = Machine { al: x, ..m };
    assert(step(lines, 0, m) == Some((1int, m1)));
    if x != 0 {
        let m6 = Machine { al: 1, ..m1 };
        assert(step(lines, 1, m1) == Some((6int, m1)));
        assert(step(lines, 6, m1) == Some((7int, m6)));
        assert(step(lines, 7, m6) == Some((8int, m6)));
        assert(run(lines, 0, m, 8) == Some(m6)) by {
            reveal_with_fuel(run, 5);
        }
    } else {
        let m3 = Machine { al: y, ..m1 };
        assert(step(lines, 1, m1) == Some((2int, m1)));
        assert(step(lines, 2, m1) == Some((3int, m3)));
        if y != 0 {
            let m6 = Machine { al: 1, ..m3 };
            assert(step(lines, 3, m3) == Some((6int, m3)));
            assert(step(lines, 6, m3) == Some((7int, m6)));
            assert(step(lines, 7, m6) == Some((8int, m6)));
            assert(run(lines, 0, m, 8) == Some(m6)) by {
                reveal_with_fuel(run, 7);
            }
        } else {
            let m5 = Machine { al: 0, ..m3 };
            assert(step(lines, 3, m3) == Some((4int, m3)));
            assert(step(lines, 4, m3) == Some((5int, m5)));
            assert(step(lines, 5, m5) == Some((7int, m5)));
            assert(step(lines, 7, m5) == Some((8int, m5)));
            assert(run(lines, 0, m, 8) == Some(m5)) by {
                reveal_with_fuel(run, 8);
            }
        }
    }
}

/// Disjunction: the code of `a || b` leaves 1 in AL when the value of `a`
/// or of `b` is nonzero, and 0 when both are zero.
pub proof fn lemma_disjunction_computes(
    s: CompilerState,
    a: String,
    b: String,
    la: Seq<char>,
    lb: Seq<char>,
    m: Machine,
)
    requires
        s.pending_label is None,
        s.resolve_var(a@) == Ok::<Seq<char>, Fault>(la),
        s.resolve_var(b@) == Ok::<Seq<char>, Fault>(lb),
        variable_word(la),
        variable_word(lb),
        m.compared is None,
    ensures
        s.expr(on_variables(BinaryOp::LogicalOr, a, b)).1 is Ok,
        al_after(
            run(appended_code(s, s.expr(on_variables(BinaryOp::LogicalOr, a, b)).0), 0, m, 8),
        ) == Some(if m.mem[la] != 0 || m.mem[lb] != 0 { 1int } else { 0int }),
{
    lemma_mnemonics();
    lemma_disjunction_code(s, a, b, la, lb);
    lemma_numbered_no_space("__lor_t"@, s.label_cnt);
    lemma_numbered_no_space("__lor_e"@, s.label_cnt + 1);
    lemma_labels_differ("__lor_t"@, "__lor_e"@, s.label_cnt, s.label_cnt + 1, 6);
    lemma_disjunction_run(
        la,
        lb,
        "__lor_t"@ + decimal(s.label_cnt),
        "__lor_e"@ + decimal(s.label_cnt + 1),
        m,
    );
}

/// The code lines of `!a` for the word `la` and the labels `lt` and `le`.
pub open spec fn logical_not_lines(la: Seq<char>, lt: Seq<char>, le: Seq<char>) -> Seq<Seq<char>> {
    seq![
        "ENTAL "@ + la,
        "JPALZ "@ + lt,
        "ENTALK 0"@,
        "JP "@ + le,
        ">"@ + lt + " "@ + "ENTALK 1"@,
        ">"@ + le + " DATA 0"@,
    ]
}

proof fn lemma_logical_not_run(la: Seq<char>, lt: Seq<char>, le: Seq<char>, m: Machine)
    requires
        no_space(la),
        no_space(lt),
        no_space(le),
        lt != le,
        m.compared is None,
    ensures
        al_after(run(logical_not_lines(la, lt, le), 0, m, 6)) == Some(
            if m.mem[la] == 0 { 1int } else { 0int },
        ),
{
    lemma_mnemonics();
    lemma_numeral(0);
    lemma_numeral(1);
    let lines = logical_not_lines(la, lt, le);
    lemma_plain_line("ENTAL"@, la);
    lemma_plain_line("JPALZ"@, lt);
    lemma_plain_line("ENTALK"@, decimal(0));
    lemma_plain_line("JP"@, le);
    lemma_labelled_line(lt, "ENTALK"@, decimal(1));
    assert(">"@ + le + " DATA 0"@ =~= ">"@ + le + " "@ + ("DATA"@ + " "@ + decimal(0)));
    lemma_labelled_line(le, "DATA"@, decimal(0));
    assert(first_carrying(lines, lt, 4));
    assert(first_carrying(lines, le, 5));
    lemma_jump_target(lines, lt, 4);
    lemma_jump_target(lines, le, 5);
    let x = m.mem[la];
    let m1 = Machine { al: x, ..m };
    assert(step(lines, 0, m) == Some((1int, m1)));
    if x == 0 {
        let m4 = Machine { al: 1, ..m1 };
        assert(step(lines, 1, m1) == Some((4int, m1)));
        assert(step(lines, 4, m1) == Some((5int, m4)));
        assert(step(lines, 5, m4) == Some((6int, m4)));
        assert(run(lines, 0, m, 6) == Some(m4)) by {
            reveal_with_fuel(run, 5);
        }
    } else {
        let m2 = Machine { al: 0, ..m1 };
        assert(step(lines, 1, m1) == Some((2int, m1)));
        assert(step(lines, 2, m1) == Some((3int, m2)));
        assert(step(lines, 3, m2) == Some((5int, m2)));
        assert(step(lines, 5, m2) == Some((6int, m2)));
        assert(run(lines, 0, m, 6) == Some(m2)) by {
            reveal_with_fuel(run, 6);
        }
    }
}

/// Logical not: the code of `!a` leaves 1 in AL when the value of `a` is
/// zero, and 0 otherwise.
pub proof fn lemma_logical_not_computes(
    s: CompilerState,
    a: String,
    la: Seq<char>,
    m: Machine,
)
    requires
        s.pending_label is None,
        s.resolve_var(a@) == Ok::<Seq<char>, Fault>(la),
        variable_word(la),
        m.compared is None,
    ensures
        s.expr(on_variable(crate::ast::UnaryOp::Negate, a)).1 is Ok,
        al_after(
            run(appended_code(s, s.expr(on_variable(crate::ast::UnaryOp::Negate, a)).0), 0, m, 6),
        ) == Some(if m.mem[la] == 0 { 1int } else { 0int }),
{
    lemma_mnemonics();
    let e = on_variable(crate::ast::UnaryOp::Negate, a);
    let s1 = s.emit("ENTAL "@ + la);
    assert(s.expr(Expr::Identifier(a)) == (s1, Ok::<(), Fault>(())));
    let (s2, lt) = s1.fresh_label("__lnot_t"@);
    let (s3, le) = s2.fresh_label("__lnot_e"@);
    let u = s3.emit("JPALZ "@ + lt).emit("ENTALK 0"@).emit("JP "@ + le).set_label(lt).emit(
        "ENTALK 1"@,
    ).set_label(le);
    assert(s.expr(e) == s.unary(e));
    assert(s.expr(e) == (u, Ok::<(), Fault>(())));
    assert(appended_code(s, u) =~= logical_not_lines(la, lt, le));
    lemma_numbered_no_space("__lnot_t"@, s.label_cnt);
    lemma_numbered_no_space("__lnot_e"@, s.label_cnt + 1);
    lemma_labels_differ("__lnot_t"@, "__lnot_e"@, s.label_cnt, s.label_cnt + 1, 7);
    lemma_logical_not_run(la, lt, le, m);
}

/// Increment: `++a` stores the value of `a` plus one into `a` and leaves
/// it in AL; `a++` stores the same but leaves the value `a` had before.
pub proof fn lemma_increment_computes(
    s: CompilerState,
    op: crate::ast::UnaryOp,
    a: String,
    la: Seq<char>,
    m: Machine,
)
    requires
        op is PreIncrement || op is PostIncrement,
        s.pending_label is None,
        s.resolve_var(a@) == Ok::<Seq<char>, Fault>(la),
        variable_word(la),
    ensures
        s.expr(on_variable(op, a)).1 is Ok,
        word_after(run(appended_code(s, s.expr(on_variable(op, a)).0), 0, m, 5), la) == Some(
            m.mem[la] + 1,
        ),
        al_after(run(appended_code(s, s.expr(on_variable(op, a)).0), 0, m, 5)) == Some(
            if op is PreIncrement { m.mem[la] + 1 } else { m.mem[la] },
        ),
{
    lemma_mnemonics();
    lemma_numeral(1);
    let e = on_variable(op, a);
    let x = m.mem[la];
    assert(s.expr(e) == s.unary(e));
    lemma_plain_line("ENTAL"@, la);
    lemma_plain_line("ADDALK"@, decimal(1));
    lemma_plain_line("STRAL"@, la);
    let m1 = Machine { al: x, ..m };
    if op is PreIncrement {
        let u = s.emit("ENTAL "@ + la).emit("ADDALK 1"@).emit("STRAL "@ + la);
        assert(s.expr(e) == (u, Ok::<(), Fault>(())));
        let lines = seq!["ENTAL "@ + la, "ADDALK 1"@, "STRAL "@ + la];
        assert(appended_code(s, u) =~= lines);
        let m2 = Machine { al: x + 1, ..m1 };
        let m3 = Machine { mem: m.mem.insert(la, x + 1), ..m2 };
        assert(step(lines, 0, m) == Some((1int, m1)));
        assert(step(lines, 1, m1) == Some((2int, m2)));
        assert(step(lines, 2, m2) == Some((3int, m3)));
        assert(run(lines, 0, m, 5) == Some(m3)) by {
            reveal_with_fuel(run, 4);
        }
    } else {
        let (s1, t) = s.alloc_temp();
        let u = s1.emit("ENTAL "@ + la).emit("STRAL "@ + t).emit("ADDALK 1"@).emit(
            "STRAL "@ + la,
        ).emit("ENTAL "@ + t);
        assert(s.expr(e) == (u, Ok::<(), Fault>(())));
        let lines = seq![
            "ENTAL "@ + la,
            "STRAL "@ + t,
            "ADDALK 1"@,
            "STRAL "@ + la,
            "ENTAL "@ + t,
        ];
        assert(appended_code(s, u) =~= lines);
        lemma_plain_line("STRAL"@, t);
        lemma_plain_line("ENTAL"@, t);
        lemma_variable_not_temp(la, s.tmp_cnt);
        let m2 = Machine { mem: m.mem.insert(t, x), ..m1 };
        let m3 = Machine { al: x + 1, ..m2 };
        let m4 = Machine { mem: m2.mem.insert(la, x + 1), ..m3 };
        let m5 = Machine { al: x, ..m4 };
        assert(step(lines, 0, m) == Some((1int, m1)));
        assert(step(lines, 1, m1) == Some((2int, m2)));
        assert(step(lines, 2, m2) == Some((3int, m3)));
        assert(step(lines, 3, m3) == Some((4int, m4)));
        assert(step(lines, 4, m4) == Some((5int, m5)));
        assert(run(lines, 0, m, 5) == Some(m5)) by {
            reveal_with_fuel(run, 6);
        }
    }
}


/// The statement `while (v) break;`.
pub open spec fn breaking_while(v: String) -> Stmt {
    Stmt::While { expression: Box::new(Expr::Identifier(v)), statement: Box::new(Stmt::Break) }
}

/// The code lines of `while (v) break;` for the word `lv` and the labels
/// `cond` and `end`.
pub open spec fn breaking_while_lines(lv: Seq<char>, cond: Seq<char>, end: Seq<char>) -> Seq<
    Seq<char>,
> {
    seq![
        ">"@ + cond + " "@ + ("ENTAL "@ + lv),
        "JPALZ "@ + end,
        "JP "@ + end,
        "JP "@ + cond,
        ">"@ + end + " DATA 0"@,
    ]
}

#[verifier::rlimit(40)]
#[verifier::spinoff_prover]
proof fn lemma_breaking_while_code(s: CompilerState, v: String, lv: Seq<char>)
    requires
        s.pending_label is None,
        s.resolve_var(v@) == Ok::<Seq<char>, Fault>(lv),
    ensures
        s.stmt(breaking_while(v)).1 is Ok,
        appended_code(s, s.stmt(breaking_while(v)).0) == breaking_while_lines(
            lv,
            "__whc"@ + decimal(s.label_cnt),
            "__whe"@ + decimal(s.label_cnt + 1),
        ),
{
    let st = breaking_while(v);
    let (s1, cond) = s.fresh_label("__whc"@);
    let (s2, end) = s1.fresh_label("__whe"@);
    let s3 = s2.set_label(cond);
    assert(s3.resolve_var(v@) == s.resolve_var(v@));
    let s4 = s3.emit("ENTAL "@ + lv);
    assert(s3.expr(Expr::Identifier(v)) == (s4, Ok::<(), Fault>(())));
    let s5 = s4.emit("JPALZ "@ + end).push_loop(end, cond);
    assert(s5.loop_labels.last() == (end, cond));
    let s6 = s5.emit("JP "@ + end);
    assert(s5.stmt(Stmt::Break) == (s6, Ok::<(), Fault>(())));
    let t = s6.pop_loop().emit("JP "@ + cond).set_label(end);
    assert(s.stmt(st) == (t, Ok::<(), Fault>(())));
    assert(appended_code(s, t) =~= breaking_while_lines(lv, cond, end));
}

proof fn lemma_breaking_while_run(lv: Seq<char>, cond: Seq<char>, end: Seq<char>, m: Machine)
    requires
        no_space(lv),
        no_space(cond),
        no_space(end),
        cond != end,
        m.compared is None,
    ensures
        run(breaking_while_lines(lv, cond, end), 0, m, 4) is Some,
{
    lemma_mnemonics();
    let lines = breaking_while_lines(lv, cond, end);
    lemma_labelled_line(cond, "ENTAL"@, lv);
    lemma_plain_line("JPALZ"@, end);
    lemma_plain_line("JP"@, end);
    lemma_plain_line("JP"@, cond);
    assert(">"@ + end + " DATA 0"@ =~= ">"@ + end + " "@ + ("DATA"@ + " "@ + decimal(0)));
    lemma_labelled_line(end, "DATA"@, decimal(0));
    assert(first_carrying(lines, end, 4));
    lemma_jump_target(lines, end, 4);
    let x = m.mem[lv];
    let m1 = Machine { al: x, ..m };
    assert(step(lines, 0, m) == Some((1int, m1)));
    if x == 0 {
        assert(step(lines, 1, m1) == Some((4int, m1)));
        assert(step(lines, 4, m1) == Some((5int, m1)));
        assert(run(lines, 0, m, 4) == Some(m1)) by {
            reveal_with_fuel(run, 4);
        }
    } else {
        assert(step(lines, 1, m1) == Some((2int, m1)));
        assert(step(lines, 2, m1) == Some((4int, m1)));
        assert(step(lines, 4, m1) == Some((5int, m1)));
        assert(run(lines, 0, m, 4) == Some(m1)) by {
            reveal_with_fuel(run, 5);
        }
    }
}

/// `break` leaves a while loop: `while (v) break;` ends after testing its
/// condition once, whatever the value of `v`.
pub proof fn lemma_break_leaves_while(s: CompilerState, v: String, lv: Seq<char>, m: Machine)
    requires
        s.pending_label is None,
        s.resolve_var(v@) == Ok::<Seq<char>, Fault>(lv),
        variable_word(lv),
        m.compared is None,
    ensures
        s.stmt(breaking_while(v)).1 is Ok,
        run(appended_code(s, s.stmt(breaking_while(v)).0), 0, m, 4) is Some,
{
    lemma_mnemonics();
    lemma_breaking_while_code(s, v, lv);
    lemma_numbered_no_space("__whc"@, s.label_cnt);
    lemma_numbered_no_space("__whe"@, s.label_cnt + 1);
    lemma_labels_differ("__whc"@, "__whe"@, s.label_cnt, s.label_cnt + 1, 4);
    lemma_breaking_while_run(
        lv,
        "__whc"@ + decimal(s.label_cnt),
        "__whe"@ + decimal(s.label_cnt + 1),
        m,
    );
}

/// The statement `do { break; } while (v);`.
pub open spec fn breaking_loop(v: String) -> Stmt {
    Stmt::DoWhile { statement: Box::new(Stmt::Break), expression: Box::new(Expr::Identifier(v)) }
}

#[verifier::rlimit(40)]
#[verifier::spinoff_prover]
proof fn lemma_breaking_loop_code(s: CompilerState, v: String, lv: Seq<char>)
    requires
        s.pending_label is None,
        s.resolve_var(v@) == Ok::<Seq<char>, Fault>(lv),
    ensures
        s.stmt(breaking_loop(v)).1 is Ok,
        appended_code(s, s.stmt(breaking_loop(v)).0) == continue_loop_lines(
            lv,
            "__dot"@ + decimal(s.label_cnt),
            "__doc"@ + decimal(s.label_cnt + 1),
            "__doe"@ + decimal(s.label_cnt + 2),
        ).update(
            0,
            ">"@ + ("__dot"@ + decimal(s.label_cnt)) + " "@ + ("JP "@ + ("__doe"@ + decimal(
                s.label_cnt + 2,
            ))),
        ),
{
    let st = breaking_loop(v);
    let (s1, top) = s.fresh_label("__dot"@);
    let (s2, cond) = s1.fresh_label("__doc"@);
    let (s3, end) = s2.fresh_label("__doe"@);
    let s4 = s3.set_label(top).push_loop(end, cond);
    assert(s4.loop_labels.last() == (end, cond));
    let s5 = s4.emit("JP "@ + end);
    assert(s4.stmt(Stmt::Break) == (s5, Ok::<(), Fault>(())));
    let s6 = s5.pop_loop().set_label(cond);
    assert(s6.resolve_var(v@) == s.resolve_var(v@));
    let s7 = s6.emit("ENTAL "@ + lv);
    assert(s6.expr(Expr::Identifier(v)) == (s7, Ok::<(), Fault>(())));
    let t = s7.emit("JPALNZ "@ + top).set_label(end);
    assert(s.stmt(st) == (t, Ok::<(), Fault>(())));
    assert(appended_code(s, t) =~= continue_loop_lines(lv, top, cond, end).update(
        0,
        ">"@ + top + " "@ + ("JP "@ + end),
    ));
}

proof fn lemma_breaking_loop_run(
    lv: Seq<char>,
    top: Seq<char>,
    cond: Seq<char>,
    end: Seq<char>,
    m: Machine,
)
    requires
        no_space(lv),
        no_space(top),
        no_space(cond),
        no_space(end),
        top != end,
        cond != end,
        m.compared is None,
    ensures
        run(continue_loop_lines(lv, top, cond, end).update(0, ">"@ + top + " "@ + ("JP "@ + end)), 0, m, 2)
            is Some,
{
    lemma_mnemonics();
    let lines = continue_loop_lines(lv, top, cond, end).update(0, ">"@ + top + " "@ + ("JP "@ + end));
    lemma_labelled_line(top, "JP"@, end);
    lemma_labelled_line(cond, "ENTAL"@, lv);
    lemma_plain_line("JPALNZ"@, top);
    assert(">"@ + end + " DATA 0"@ =~= ">"@ + end + " "@ + ("DATA"@ + " "@ + decimal(0)));
    lemma_labelled_line(end, "DATA"@, decimal(0));
    assert(lines[0] == ">"@ + top + " "@ + ("JP "@ + end));
    assert(lines[1] == ">"@ + cond + " "@ + ("ENTAL "@ + lv));
    assert(lines[2] == "JPALNZ "@ + top);
    assert(lines[3] == ">"@ + end + " DATA 0"@);
    assert(first_carrying(lines, end, 3));
    lemma_jump_target(lines, end, 3);
    assert(step(lines, 0, m) == Some((3int, m)));
    assert(step(lines, 3, m) == Some((4int, m)));
    assert(run(lines, 0, m, 2) == Some(m)) by {
        reveal_with_fuel(run, 3);
    }
}

/// `break` leaves a do-while loop: `do { break; } while (v);` ends after
/// its body, without testing the condition, whatever the value of `v`.
pub proof fn lemma_break_leaves_do_while(s: CompilerState, v: String, lv: Seq<char>, m: Machine)
    requires
        s.pending_label is None,
        s.resolve_var(v@) == Ok::<Seq<char>, Fault>(lv),
        variable_word(lv),
        m.compared is None,
    ensures
        s.stmt(breaking_loop(v)).1 is Ok,
        run(appended_code(s, s.stmt(breaking_loop(v)).0), 0, m, 2) is Some,
{
    lemma_mnemonics();
    lemma_breaking_loop_code(s, v, lv);
    lemma_numbered_no_space("__dot"@, s.label_cnt);
    lemma_numbered_no_space("__doc"@, s.label_cnt + 1);
    lemma_numbered_no_space("__doe"@, s.label_cnt + 2);
    lemma_labels_differ("__dot"@, "__doe"@, s.label_cnt, s.label_cnt + 2, 4);
    lemma_labels_differ("__doc"@, "__doe"@, s.label_cnt + 1, s.label_cnt + 2, 4);
    lemma_breaking_loop_run(
        lv,
        "__dot"@ + decimal(s.label_cnt),
        "__doc"@ + decimal(s.label_cnt + 1),
        "__doe"@ + decimal(s.label_cnt + 2),
        m,
    );
}

} // verus!
