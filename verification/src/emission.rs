//! How labels and instructions come out in the code: every label on
//! exactly one line, every instruction once, in call order.

use vstd::prelude::*;
use crate::model::{emitted_lines, CompilerState, Emission, lemma_emission_order};

verus! {

/// The label an emission sets, if it sets one.
pub open spec fn label_of(e: Emission) -> Option<Seq<char>> {
    match e {
        Emission::Label(l) => Some(l),
        Emission::Instr(_) => None,
    }
}

/// Whether `s` holds no space.
pub open spec fn no_space(s: Seq<char>) -> bool {
    forall|k: int| 0 <= k < s.len() ==> s[k] != ' '
}

/// Emissions of the ordinary kind: labels without spaces, and instructions
/// that neither start with `>` nor are the bare anchor `DATA 0`.
pub open spec fn plain_emissions(ops: Seq<Emission>) -> bool {
    forall|k: int|
        0 <= k < ops.len() ==> match #[trigger] ops[k] {
            Emission::Label(l) => no_space(l),
            Emission::Instr(i) => !(i.len() > 0 && i[0] == '>') && i != "DATA 0"@,
        }
}

/// Whether no label is set twice.
pub open spec fn distinct_labels(ops: Seq<Emission>) -> bool {
    forall|a: int, b: int|
        0 <= a < ops.len() && 0 <= b < ops.len() && a != b && (#[trigger] label_of(ops[a])) is Some
            ==> label_of(ops[a]) != #[trigger] label_of(ops[b])
}

/// Whether a code line begins with the label `l`: `>`, the label, a space.
pub open spec fn carries_label(line: Seq<char>, l: Seq<char>) -> bool {
    &&& l.len() + 1 < line.len()
    &&& line[0] == '>'
    &&& line.subrange(1, l.len() + 1 as int) == l
    &&& line[l.len() + 1 as int] == ' '
}

/// The number of lines that begin with the label `l`.
pub open spec fn count_carrying(lines: Seq<Seq<char>>, l: Seq<char>) -> nat
    decreases lines.len(),
{
    if lines.len() == 0 {
        0
    } else {
        (if carries_label(lines[0], l) { 1nat } else { 0nat }) + count_carrying(lines.drop_first(), l)
    }
}

/// The number of emissions that set the label `l`.
pub open spec fn label_count(ops: Seq<Emission>, l: Seq<char>) -> nat
    decreases ops.len(),
{
    if ops.len() == 0 {
        0
    } else {
        (if label_of(ops[0]) == Some(l) { 1nat } else { 0nat }) + label_count(ops.drop_first(), l)
    }
}

/// What follows the first space of `s` (all of `s` where it has none).
pub open spec fn after_first_space(s: Seq<char>) -> Seq<char>
    decreases s.len(),
{
    if s.len() == 0 {
        s
    } else if s[0] == ' ' {
        s.drop_first()
    } else {
        after_first_space(s.drop_first())
    }
}

/// The instruction of a code line: what follows the label, if it has one.
pub open spec fn instruction_part(line: Seq<char>) -> Seq<char> {
    if line.len() > 0 && line[0] == '>' {
        after_first_space(line)
    } else {
        line
    }
}

/// The instructions of code lines, in order, without the `DATA 0` anchors.
pub open spec fn instruction_lines(lines: Seq<Seq<char>>) -> Seq<Seq<char>>
    decreases lines.len(),
{
    if lines.len() == 0 {
        seq![]
    } else {
        let x = instruction_part(lines[0]);
        (if x == "DATA 0"@ { seq![] } else { seq![x] }) + instruction_lines(lines.drop_first())
    }
}

/// The instructions among emissions, in call order.
pub open spec fn instructions(ops: Seq<Emission>) -> Seq<Seq<char>>
    decreases ops.len(),
{
    if ops.len() == 0 {
        seq![]
    } else {
        match ops[0] {
            Emission::Instr(i) => seq![i] + instructions(ops.drop_first()),
            Emission::Label(_) => instructions(ops.drop_first()),
        }
    }
}

proof fn lemma_count_carrying_add(a: Seq<Seq<char>>, b: Seq<Seq<char>>, l: Seq<char>)
    ensures
        count_carrying(a + b, l) == count_carrying(a, l) + count_carrying(b, l),
    decreases a.len(),
{
    if a.len() == 0 {
        assert(a + b =~= b);
    } else {
        assert((a + b).drop_first() =~= a.drop_first() + b);
        assert((a + b)[0] == a[0]);
        lemma_count_carrying_add(a.drop_first(), b, l);
    }
}

proof fn lemma_instruction_lines_add(a: Seq<Seq<char>>, b: Seq<Seq<char>>)
    ensures
        instruction_lines(a + b) == instruction_lines(a) + instruction_lines(b),
    decreases a.len(),
{
    if a.len() == 0 {
        assert(a + b =~= b);
        assert(instruction_lines(a) + instruction_lines(b) =~= instruction_lines(b));
    } else {
        assert((a + b).drop_first() =~= a.drop_first() + b);
        assert((a + b)[0] == a[0]);
        lemma_instruction_lines_add(a.drop_first(), b);
        let x = instruction_part(a[0]);
        let h: Seq<Seq<char>> = if x == "DATA 0"@ { seq![] } else { seq![x] };
        assert(h + (instruction_lines(a.drop_first()) + instruction_lines(b)) =~= (h
            + instruction_lines(a.drop_first())) + instruction_lines(b));
    }
}

proof fn lemma_one_line(line: Seq<char>, l: Seq<char>)
    ensures
        count_carrying(seq![line], l) == (if carries_label(line, l) { 1nat } else { 0nat }),
        instruction_lines(seq![line]) == (if instruction_part(line) == "DATA 0"@ {
            Seq::<Seq<char>>::empty()
        } else {
            seq![instruction_part(line)]
        }),
{
    let one = seq![line];
    assert(one.drop_first() =~= Seq::<Seq<char>>::empty());
    assert(count_carrying(one.drop_first(), l) == 0);
    assert(instruction_lines(one.drop_first()) == Seq::<Seq<char>>::empty());
    let x = instruction_part(line);
    let h: Seq<Seq<char>> = if x == "DATA 0"@ { seq![] } else { seq![x] };
    assert(h + Seq::<Seq<char>>::empty() =~= h);
}

/// A line `>m x`, with `m` free of spaces, begins with the label `l`
/// exactly when `l` is `m`.
pub proof fn lemma_carries_own_label(m: Seq<char>, x: Seq<char>, l: Seq<char>)
    requires
        no_space(m),
        no_space(l),
    ensures
        carries_label(">"@ + m + " "@ + x, l) <==> l == m,
{
    reveal_strlit(">");
    reveal_strlit(" ");
    let line = ">"@ + m + " "@ + x;
    assert(line[0] == '>');
    assert(line[m.len() + 1 as int] == ' ');
    assert(line.subrange(1, m.len() + 1 as int) =~= m);
    if carries_label(line, l) {
        if l.len() < m.len() {
            assert(line[l.len() + 1 as int] == m[l.len() as int]);
        } else if l.len() > m.len() {
            assert(line.subrange(1, l.len() + 1 as int)[m.len() as int] == line[m.len() + 1 as int]);
        } else {
            assert(l =~= m);
        }
    }
}

/// Past a space-free label and the space, what follows the first space.
pub proof fn lemma_after_label(m: Seq<char>, x: Seq<char>)
    requires
        no_space(m),
    ensures
        after_first_space(m + " "@ + x) == x,
    decreases m.len(),
{
    reveal_strlit(" ");
    let s = m + " "@ + x;
    if m.len() == 0 {
        assert(s[0] == ' ');
        assert(s.drop_first() =~= x);
    } else {
        assert(s[0] == m[0]);
        assert(s.drop_first() =~= m.drop_first() + " "@ + x);
        lemma_after_label(m.drop_first(), x);
    }
}

/// The instruction part of a labelled line `>m x` is `x`.
pub proof fn lemma_instruction_of_labelled(m: Seq<char>, x: Seq<char>)
    requires
        no_space(m),
    ensures
        instruction_part(">"@ + m + " "@ + x) == x,
{
    reveal_strlit(">");
    let line = ">"@ + m + " "@ + x;
    assert(line[0] == '>');
    assert(line.drop_first() =~= m + " "@ + x);
    lemma_after_label(m, x);
}

proof fn lemma_plain_rest(ops: Seq<Emission>)
    requires
        plain_emissions(ops),
        ops.len() > 0,
    ensures
        plain_emissions(ops.drop_first()),
{
    assert forall|k: int| 0 <= k < ops.drop_first().len() implies match #[trigger] ops.drop_first()[k] {
        Emission::Label(l) => no_space(l),
        Emission::Instr(i) => !(i.len() > 0 && i[0] == '>') && i != "DATA 0"@,
    } by {
        assert(ops.drop_first()[k] == ops[k + 1]);
    }
}

/// After a space-free waiting label `p`, the lines beginning with `l` are
/// one for `p` if it is `l`, and one for each emission that sets `l`.
proof fn lemma_count_lines(p: Option<Seq<char>>, ops: Seq<Emission>, l: Seq<char>)
    requires
        plain_emissions(ops),
        p matches Some(q) ==> no_space(q),
        no_space(l),
    ensures
        count_carrying(emitted_lines(p, ops), l) == (if p == Some(l) { 1nat } else { 0nat })
            + label_count(ops, l),
    decreases ops.len(),
{
    reveal_strlit("DATA 0");
    if ops.len() == 0 {
        match p {
            Some(q) => {
                lemma_carries_own_label(q, "DATA 0"@, l);
                assert(">"@ + q + " DATA 0"@ =~= ">"@ + q + " "@ + "DATA 0"@) by {
                    reveal_strlit(" DATA 0");
                    reveal_strlit(" ");
                }
                lemma_one_line(">"@ + q + " DATA 0"@, l);
            },
            None => {},
        }
    } else {
        let rest = ops.drop_first();
        lemma_plain_rest(ops);
        assert(plain_emissions(ops) ==> match ops[0] {
            Emission::Label(l) => no_space(l),
            Emission::Instr(i) => !(i.len() > 0 && i[0] == '>') && i != "DATA 0"@,
        });
        match ops[0] {
            Emission::Instr(i) => {
                lemma_count_lines(None, rest, l);
                match p {
                    Some(q) => {
                        lemma_carries_own_label(q, i, l);
                        assert(">"@ + q + " "@ + i =~= ">"@ + q + " "@ + i);
                        lemma_count_carrying_add(seq![">"@ + q + " "@ + i], emitted_lines(None, rest), l);
                        lemma_one_line(">"@ + q + " "@ + i, l);
                    },
                    None => {
                        lemma_count_carrying_add(seq![i], emitted_lines(None, rest), l);
                        lemma_one_line(i, l);
                    },
                }
            },
            Emission::Label(m) => {
                lemma_count_lines(Some(m), rest, l);
                match p {
                    Some(q) => {
                        lemma_carries_own_label(q, "DATA 0"@, l);
                        assert(">"@ + q + " DATA 0"@ =~= ">"@ + q + " "@ + "DATA 0"@) by {
                            reveal_strlit(" DATA 0");
                            reveal_strlit(" ");
                        }
                        lemma_count_carrying_add(
                            seq![">"@ + q + " DATA 0"@],
                            emitted_lines(Some(m), rest),
                            l,
                        );
                        lemma_one_line(">"@ + q + " DATA 0"@, l);
                    },
                    None => {},
                }
            },
        }
    }
}

/// Where no emission sets `l`, no emission counts for it.
proof fn lemma_label_count_zero(ops: Seq<Emission>, l: Seq<char>)
    requires
        forall|j: int| 0 <= j < ops.len() ==> label_of(#[trigger] ops[j]) != Some(l),
    ensures
        label_count(ops, l) == 0,
    decreases ops.len(),
{
    if ops.len() > 0 {
        assert(label_of(ops[0]) != Some(l));
        assert forall|j: int| 0 <= j < ops.drop_first().len() implies label_of(
            #[trigger] ops.drop_first()[j],
        ) != Some(l) by {
            assert(ops.drop_first()[j] == ops[j + 1]);
        }
        lemma_label_count_zero(ops.drop_first(), l);
    }
}

/// With no label set twice, the label set at `k` is set once.
proof fn lemma_label_count_one(ops: Seq<Emission>, k: int, l: Seq<char>)
    requires
        distinct_labels(ops),
        0 <= k < ops.len(),
        label_of(ops[k]) == Some(l),
    ensures
        label_count(ops, l) == 1,
    decreases ops.len(),
{
    let rest = ops.drop_first();
    if k == 0 {
        assert forall|j: int| 0 <= j < rest.len() implies label_of(#[trigger] rest[j]) != Some(l) by {
            assert(rest[j] == ops[j + 1]);
            assert(label_of(ops[0]) != label_of(ops[j + 1]));
        }
        lemma_label_count_zero(rest, l);
    } else {
        assert(label_of(ops[k]) != label_of(ops[0]));
        assert(rest[k - 1] == ops[k]);
        assert forall|a: int, b: int|
            0 <= a < rest.len() && 0 <= b < rest.len() && a != b && (#[trigger] label_of(
                rest[a],
            )) is Some implies label_of(rest[a]) != #[trigger] label_of(rest[b]) by {
            assert(rest[a] == ops[a + 1]);
            assert(rest[b] == ops[b + 1]);
            assert(label_of(ops[a + 1]) != label_of(ops[b + 1]));
        }
        lemma_label_count_one(rest, k - 1, l);
    }
}

/// After a space-free waiting label, the instructions of the lines that a
/// run of plain emissions produces are its instructions, in order.
proof fn lemma_instructions_kept(p: Option<Seq<char>>, ops: Seq<Emission>)
    requires
        plain_emissions(ops),
        p matches Some(q) ==> no_space(q),
    ensures
        instruction_lines(emitted_lines(p, ops)) == instructions(ops),
    decreases ops.len(),
{
    reveal_strlit("DATA 0");
    reveal_strlit(" DATA 0");
    reveal_strlit(" ");
    if ops.len() == 0 {
        match p {
            Some(q) => {
                assert(">"@ + q + " DATA 0"@ =~= ">"@ + q + " "@ + "DATA 0"@);
                lemma_instruction_of_labelled(q, "DATA 0"@);
                lemma_one_line(">"@ + q + " DATA 0"@, q);
                assert(emitted_lines(p, ops) == seq![">"@ + q + " DATA 0"@]);
                assert(instruction_lines(emitted_lines(p, ops)) =~= instructions(ops));
            },
            None => {},
        }
    } else {
        let rest = ops.drop_first();
        lemma_plain_rest(ops);
        assert(plain_emissions(ops) ==> match ops[0] {
            Emission::Label(l) => no_space(l),
            Emission::Instr(i) => !(i.len() > 0 && i[0] == '>') && i != "DATA 0"@,
        });
        match ops[0] {
            Emission::Instr(i) => {
                lemma_instructions_kept(None, rest);
                let line = match p {
                    Some(q) => ">"@ + q + " "@ + i,
                    None => i,
                };
                match p {
                    Some(q) => lemma_instruction_of_labelled(q, i),
                    None => {},
                }
                assert(instruction_part(line) == i);
                lemma_instruction_lines_add(seq![line], emitted_lines(None, rest));
                lemma_one_line(line, i);
                assert(instruction_lines(seq![line]) =~= seq![i]);
            },
            Emission::Label(m) => {
                lemma_instructions_kept(Some(m), rest);
                match p {
                    Some(q) => {
                        let line = ">"@ + q + " DATA 0"@;
                        assert(line =~= ">"@ + q + " "@ + "DATA 0"@);
                        lemma_instruction_of_labelled(q, "DATA 0"@);
                        lemma_instruction_lines_add(seq![line], emitted_lines(Some(m), rest));
                        lemma_one_line(line, m);
                        assert(instruction_lines(seq![line]) =~= Seq::<Seq<char>>::empty());
                        assert(instruction_lines(seq![line]) + instructions(rest) =~= instructions(
                            rest,
                        ));
                    },
                    None => {},
                }
            },
        }
    }
}

/// Labels and instructions given to a new code generator, labels pairwise
/// distinct: every label begins exactly one line of the code (the line of
/// the first instruction after it, or its own `DATA 0` line where another
/// label or the end of the code comes first), and the instructions of the
/// code, past their labels and without the `DATA 0` anchors, are the
/// instructions given, each once, in call order.
pub proof fn lemma_labels_and_instructions_once(ops: Seq<Emission>)
    requires
        plain_emissions(ops),
        distinct_labels(ops),
    ensures
        forall|k: int|
            0 <= k < ops.len() && (#[trigger] label_of(ops[k])) is Some ==> count_carrying(
                CompilerState::initial().apply(ops).final_code(),
                label_of(ops[k])->0,
            ) == 1,
        instruction_lines(CompilerState::initial().apply(ops).final_code()) == instructions(ops),
{
    lemma_emission_order(ops);
    assert forall|k: int|
        0 <= k < ops.len() && (#[trigger] label_of(ops[k])) is Some implies count_carrying(
        CompilerState::initial().apply(ops).final_code(),
        label_of(ops[k])->0,
    ) == 1 by {
        let l = label_of(ops[k])->0;
        assert(match ops[k] {
            Emission::Label(m) => no_space(m),
            Emission::Instr(i) => !(i.len() > 0 && i[0] == '>') && i != "DATA 0"@,
        });
        lemma_count_lines(None, ops, l);
        lemma_label_count_one(ops, k, l);
    }
    lemma_instructions_kept(None, ops);
}

} // verus!
