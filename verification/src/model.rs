//! The mathematical model of the code generator's state, and the primitive
//! steps the generator takes on it.

use vstd::prelude::*;
use crate::error::Fault;
use crate::text::{decimal, digit_free, lemma_decimal_digits, lemma_decimal_injective};

verus! {

/// Whether `i` is the first position of the key `k` in an association list.
pub open spec fn key_position<V>(m: Seq<(Seq<char>, V)>, k: Seq<char>, i: int) -> bool {
    &&& 0 <= i < m.len()
    &&& m[i].0 == k
    &&& forall|j: int| 0 <= j < i ==> m[j].0 != k
}

/// Whether the key `k` occurs in an association list.
pub open spec fn has_key<V>(m: Seq<(Seq<char>, V)>, k: Seq<char>) -> bool {
    exists|i: int| key_position(m, k, i)
}

/// The value bound to the key `k` (at its first occurrence), if any.
pub open spec fn lookup<V>(m: Seq<(Seq<char>, V)>, k: Seq<char>) -> Option<V> {
    if has_key(m, k) {
        Some(m[choose|i: int| key_position(m, k, i)].1)
    } else {
        None
    }
}

/// The association list with `k` bound to `v`: the existing binding is
/// replaced in place, or a new one is added at the end.
pub open spec fn bind<V>(m: Seq<(Seq<char>, V)>, k: Seq<char>, v: V) -> Seq<(Seq<char>, V)> {
    if has_key(m, k) {
        m.update(choose|i: int| key_position(m, k, i), (k, v))
    } else {
        m.push((k, v))
    }
}

/// One call the code generator makes on its code: label the next
/// instruction, or emit an instruction.
pub enum Emission {
    Label(Seq<char>),
    Instr(Seq<char>),
}

/// The code lines that a run of emissions produces after a waiting label
/// (if any): an instruction takes the waiting label, if there is one, as
/// `>label instr`; a label that meets another label or the end of the code
/// is anchored on a `DATA 0` line of its own.
pub open spec fn emitted_lines(pending: Option<Seq<char>>, ops: Seq<Emission>) -> Seq<Seq<char>>
    decreases ops.len(),
{
    if ops.len() == 0 {
        match pending {
            Some(l) => seq![">"@ + l + " DATA 0"@],
            None => seq![],
        }
    } else {
        match ops[0] {
            Emission::Instr(i) => match pending {
                Some(l) => seq![">"@ + l + " "@ + i] + emitted_lines(None, ops.drop_first()),
                None => seq![i] + emitted_lines(None, ops.drop_first()),
            },
            Emission::Label(l2) => match pending {
                Some(l) => seq![">"@ + l + " DATA 0"@] + emitted_lines(Some(l2), ops.drop_first()),
                None => emitted_lines(Some(l2), ops.drop_first()),
            },
        }
    }
}

/// The state of a code generator.
pub struct CompilerState {
    /// Lines of code emitted so far.
    pub code: Seq<Seq<char>>,
    /// DATA declarations emitted so far.
    pub data: Seq<Seq<char>>,
    pub label_cnt: nat,
    pub tmp_cnt: nat,
    pub const_cnt: nat,
    /// The function being compiled.
    pub current_fn: Option<Seq<char>>,
    /// Local variables and parameters: name and storage label.
    pub locals: Seq<(Seq<char>, Seq<char>)>,
    /// Global variables: name and storage label.
    pub globals: Seq<(Seq<char>, Seq<char>)>,
    /// Known functions: name and number of parameters.
    pub functions: Seq<(Seq<char>, nat)>,
    /// Break and continue targets of the enclosing loops, innermost last.
    pub loop_labels: Seq<(Seq<char>, Seq<char>)>,
    /// A label waiting for the next instruction.
    pub pending_label: Option<Seq<char>>,
}

/// The outcome of a generation step.
pub type Outcome = Result<(), Fault>;

impl CompilerState {
    /// The state of a new code generator.
    pub open spec fn initial() -> CompilerState {
        CompilerState {
            code: seq![],
            data: seq![],
            label_cnt: 0,
            tmp_cnt: 0,
            const_cnt: 0,
            current_fn: None,
            locals: seq![],
            globals: seq![],
            functions: seq![],
            loop_labels: seq![],
            pending_label: None,
        }
    }

    /// Room for `n` more increments of each counter within `usize`.
    pub open spec fn room(self, n: nat) -> bool {
        &&& self.label_cnt + n <= usize::MAX
        &&& self.tmp_cnt + n <= usize::MAX
        &&& self.const_cnt + n <= usize::MAX
    }

    /// Each counter of `next` lies between its value here and `n` more.
    pub open spec fn counted_within(self, next: CompilerState, n: nat) -> bool {
        &&& self.label_cnt <= next.label_cnt <= self.label_cnt + n
        &&& self.tmp_cnt <= next.tmp_cnt <= self.tmp_cnt + n
        &&& self.const_cnt <= next.const_cnt <= self.const_cnt + n
    }

    /// `next` holds the code and the data of this state as prefixes of its
    /// own: what was emitted stays as it was, and new lines come after it.
    pub open spec fn keeps_output(self, next: CompilerState) -> bool {
        &&& self.code.len() <= next.code.len()
        &&& forall|k: int| 0 <= k < self.code.len() ==> #[trigger] next.code[k] == self.code[k]
        &&& self.data.len() <= next.data.len()
        &&& forall|k: int| 0 <= k < self.data.len() ==> #[trigger] next.data[k] == self.data[k]
    }

    /// `next` has the scopes of this state: the same variables, functions,
    /// enclosing loops and current function.
    pub open spec fn same_scopes(self, next: CompilerState) -> bool {
        &&& next.locals == self.locals
        &&& next.globals == self.globals
        &&& next.functions == self.functions
        &&& next.loop_labels == self.loop_labels
        &&& next.current_fn == self.current_fn
    }

    /// A fresh label `prefix` followed by the label counter.
    pub open spec fn fresh_label(self, prefix: Seq<char>) -> (CompilerState, Seq<char>) {
        (CompilerState { label_cnt: self.label_cnt + 1, ..self }, prefix + decimal(self.label_cnt))
    }

    /// Make `label` the label of the next instruction; a label already
    /// waiting is anchored on a `DATA 0` word of its own.
    pub open spec fn set_label(self, label: Seq<char>) -> CompilerState {
        let code = match self.pending_label {
            Some(prev) => self.code.push(">"@ + prev + " DATA 0"@),
            None => self.code,
        };
        CompilerState { code, pending_label: Some(label), ..self }
    }

    /// Append an instruction, carrying the waiting label if there is one.
    pub open spec fn emit(self, instr: Seq<char>) -> CompilerState {
        let line = match self.pending_label {
            Some(l) => ">"@ + l + " "@ + instr,
            None => instr,
        };
        CompilerState { code: self.code.push(line), pending_label: None, ..self }
    }

    /// The state after the emissions `ops`, made in order.
    pub open spec fn apply(self, ops: Seq<Emission>) -> CompilerState
        decreases ops.len(),
    {
        if ops.len() == 0 {
            self
        } else {
            match ops[0] {
                Emission::Label(l) => self.set_label(l).apply(ops.drop_first()),
                Emission::Instr(i) => self.emit(i).apply(ops.drop_first()),
            }
        }
    }

    /// The code with a label still waiting at the end anchored on a
    /// `DATA 0` line.
    pub open spec fn final_code(self) -> Seq<Seq<char>> {
        match self.pending_label {
            Some(l) => self.code.push(">"@ + l + " DATA 0"@),
            None => self.code,
        }
    }

    /// Append a labelled DATA word to the static data.
    pub open spec fn data_decl(self, label: Seq<char>, value: nat) -> CompilerState {
        CompilerState { data: self.data.push(">"@ + label + " DATA "@ + decimal(value)), ..self }
    }

    /// A new zero-initialised temporary word.
    pub open spec fn alloc_temp(self) -> (CompilerState, Seq<char>) {
        let label = "__t"@ + decimal(self.tmp_cnt);
        (CompilerState { tmp_cnt: self.tmp_cnt + 1, ..self }.data_decl(label, 0), label)
    }

    /// A new constant word holding `value`.
    pub open spec fn alloc_const(self, value: nat) -> (CompilerState, Seq<char>) {
        let label = "__c"@ + decimal(self.const_cnt);
        (CompilerState { const_cnt: self.const_cnt + 1, ..self }.data_decl(label, value), label)
    }

    /// The storage label of a variable: a local first, then a global.
    pub open spec fn resolve_var(self, name: Seq<char>) -> Result<Seq<char>, Fault> {
        match lookup(self.locals, name) {
            Some(l) => Ok(l),
            None => match lookup(self.globals, name) {
                Some(l) => Ok(l),
                None => Err(Fault::UndefinedVar(name)),
            },
        }
    }
}

/// Two names made of a digit-free prefix followed by a decimal number are
/// equal only when their prefixes and their numbers are.
pub proof fn lemma_numbered_names_distinct(p: Seq<char>, q: Seq<char>, i: nat, j: nat)
    requires
        digit_free(p),
        digit_free(q),
    ensures
        (p + decimal(i) == q + decimal(j)) <==> (p == q && i == j),
{
    let a = p + decimal(i);
    let b = q + decimal(j);
    if a == b {
        lemma_decimal_digits(i);
        lemma_decimal_digits(j);
        if p.len() < q.len() {
            assert(a[p.len() as int] == decimal(i)[0]);
            assert(b[p.len() as int] == q[p.len() as int]);
        } else if q.len() < p.len() {
            assert(b[q.len() as int] == decimal(j)[0]);
            assert(a[q.len() as int] == p[q.len() as int]);
        }
        assert(p =~= a.subrange(0, p.len() as int));
        assert(q =~= b.subrange(0, q.len() as int));
        assert(decimal(i) =~= a.subrange(p.len() as int, a.len() as int));
        assert(decimal(j) =~= b.subrange(q.len() as int, b.len() as int));
        lemma_decimal_injective(i, j);
    }
}

/// Labels drawn from the label counter at different counts differ, whatever
/// digit-free prefixes they carry.
pub proof fn lemma_fresh_labels_differ(
    s: CompilerState,
    t: CompilerState,
    p: Seq<char>,
    q: Seq<char>,
)
    requires
        digit_free(p),
        digit_free(q),
        s.label_cnt != t.label_cnt,
    ensures
        s.fresh_label(p).1 != t.fresh_label(q).1,
{
    lemma_numbered_names_distinct(p, q, s.label_cnt, t.label_cnt);
}

/// Temporaries allocated at different counts have different labels, so do
/// constant words, and no temporary shares its label with a constant word.
pub proof fn lemma_static_words_differ(s: CompilerState, t: CompilerState, v: nat, w: nat)
    ensures
        s.tmp_cnt != t.tmp_cnt ==> s.alloc_temp().1 != t.alloc_temp().1,
        s.const_cnt != t.const_cnt ==> s.alloc_const(v).1 != t.alloc_const(w).1,
        s.alloc_temp().1 != t.alloc_const(w).1,
{
    reveal_strlit("__t");
    reveal_strlit("__c");
    assert(digit_free("__t"@));
    assert(digit_free("__c"@));
    lemma_numbered_names_distinct("__t"@, "__t"@, s.tmp_cnt, t.tmp_cnt);
    lemma_numbered_names_distinct("__c"@, "__c"@, s.const_cnt, t.const_cnt);
    lemma_numbered_names_distinct("__t"@, "__c"@, s.tmp_cnt, t.const_cnt);
    assert("__t"@ != "__c"@) by {
        assert("__t"@[2] != "__c"@[2]);
    }
}

/// The code after a run of emissions is the code before it followed by the
/// lines the run produces after the label that was waiting.
pub proof fn lemma_emissions_append(s: CompilerState, ops: Seq<Emission>)
    ensures
        s.apply(ops).final_code() == s.code + emitted_lines(s.pending_label, ops),
    decreases ops.len(),
{
    if ops.len() == 0 {
        assert(s.code + emitted_lines(s.pending_label, ops) =~= s.final_code());
    } else {
        let rest = ops.drop_first();
        match ops[0] {
            Emission::Label(l) => {
                let t = s.set_label(l);
                lemma_emissions_append(t, rest);
                assert(t.code + emitted_lines(t.pending_label, rest) =~= s.code + emitted_lines(
                    s.pending_label,
                    ops,
                ));
            },
            Emission::Instr(i) => {
                let t = s.emit(i);
                lemma_emissions_append(t, rest);
                assert(t.code + emitted_lines(t.pending_label, rest) =~= s.code + emitted_lines(
                    s.pending_label,
                    ops,
                ));
            },
        }
    }
}

/// Labels and instructions given to a new code generator come out as
/// `emitted_lines` says: in call order, each label on the first
/// instruction after it, or on a `DATA 0` line where another label or the
/// end of the code comes first.
pub proof fn lemma_emission_order(ops: Seq<Emission>)
    ensures
        CompilerState::initial().apply(ops).final_code() == emitted_lines(None, ops),
{
    lemma_emissions_append(CompilerState::initial(), ops);
    assert(CompilerState::initial().code + emitted_lines(None, ops) =~= emitted_lines(None, ops));
}

} // verus!
