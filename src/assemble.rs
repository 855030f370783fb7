//! The assembler: lowers pseudo-instructions to native instructions by
//! resolving every label to the address of the instruction it precedes.

use crate::isa::{Instr, PInstr, Val};
use vstd::prelude::*;
use vstd::string::StringExecFns;

verus! {

/// Number of native instructions that `q` lowers to: one for each entry but a label.
pub open spec fn native_count(q: Seq<PInstr>) -> nat
    decreases q.len(),
{
    if q.len() == 0 {
        0
    } else {
        native_count(q.drop_last()) + if q.last() is PLabel {
            0nat
        } else {
            1nat
        }
    }
}

/// Entry `k` of `p` declares the label `name`.
pub open spec fn declares(p: Seq<PInstr>, k: int, name: Seq<char>) -> bool {
    &&& 0 <= k < p.len()
    &&& p[k] is PLabel
    &&& p[k]->PLabel_0@ == name
}

/// Some entry of `p` declares `name`.
pub open spec fn defined(p: Seq<PInstr>, name: Seq<char>) -> bool {
    exists|k: int| declares(p, k, name)
}

/// Entries `a` and `b` of `p` declare the same label.
pub open spec fn duplicate_pair(p: Seq<PInstr>, a: int, b: int) -> bool {
    &&& 0 <= a < b < p.len()
    &&& p[a] is PLabel
    &&& declares(p, b, p[a]->PLabel_0@)
}

/// Some label is declared twice.
pub open spec fn has_duplicate(p: Seq<PInstr>) -> bool {
    exists|a: int, b: int| duplicate_pair(p, a, b)
}

/// Entry `k` of `p` pushes a label that `p` never declares.
pub open spec fn undefined_at(p: Seq<PInstr>, k: int) -> bool {
    &&& 0 <= k < p.len()
    &&& p[k] is PPush
    &&& !defined(p, p[k]->PPush_0@)
}

/// Some pushed label is never declared.
pub open spec fn has_undefined(p: Seq<PInstr>) -> bool {
    exists|k: int| undefined_at(p, k)
}

/// Address of a label: the number of native instructions before its declaration.
pub open spec fn address_of(p: Seq<PInstr>, name: Seq<char>) -> nat {
    native_count(p.take(choose|k: int| declares(p, k, name)))
}

/// What one entry lowers to, with labels resolved in `p`.
pub open spec fn lower_one(x: PInstr, p: Seq<PInstr>) -> Seq<Instr> {
    match x {
        PInstr::PLabel(_) => Seq::empty(),
        PInstr::PPush(l) => seq![Instr::Push(Val::Vloc(address_of(p, l@) as u32))],
        PInstr::PI(i) => seq![i],
    }
}

/// What the entries of `q` lower to, with labels resolved in `p`.
pub open spec fn lower_all(q: Seq<PInstr>, p: Seq<PInstr>) -> Seq<Instr>
    decreases q.len(),
{
    if q.len() == 0 {
        Seq::empty()
    } else {
        lower_all(q.drop_last(), p) + lower_one(q.last(), p)
    }
}

proof fn lemma_native_count_bound(q: Seq<PInstr>)
    ensures
        native_count(q) <= q.len(),
    decreases q.len(),
{
    if q.len() > 0 {
        lemma_native_count_bound(q.drop_last());
    }
}

proof fn lemma_address_unique(p: Seq<PInstr>, k: int, name: Seq<char>)
    requires
        declares(p, k, name),
        !has_duplicate(p),
    ensures
        address_of(p, name) == native_count(p.take(k)),
{
    let c = choose|j: int| declares(p, j, name);
    assert(declares(p, c, name));
    if c < k {
        assert(duplicate_pair(p, c, k));
    } else if k < c {
        assert(duplicate_pair(p, k, c));
    }
}

/// Lower an assembly program to the equivalent native program.
///
/// Fails on a label declared twice, naming it; otherwise fails on a pushed
/// label that is never declared, naming it.
pub fn assemble(pinstrs: Vec<PInstr>) -> (r: Result<Vec<Instr>, String>)
    requires
        pinstrs@.len() <= u32::MAX,
    ensures
        match r {
            Ok(out) => !has_duplicate(pinstrs@) && !has_undefined(pinstrs@) && out@ == lower_all(
                pinstrs@,
                pinstrs@,
            ),
            Err(msg) => if has_duplicate(pinstrs@) {
                exists|a: int, b: int|
                    duplicate_pair(pinstrs@, a, b) && msg@ == "duplicate label: "@
                        + pinstrs@[b]->PLabel_0@
            } else {
                has_undefined(pinstrs@) && exists|k: int|
                    undefined_at(pinstrs@, k) && msg@ == "undefined label: "@
                        + pinstrs@[k]->PPush_0@
            },
        },
{
    let n = pinstrs.len();
    // Pass 1: the address of each label.
    let mut table: Vec<(usize, u32)> = Vec::new();
    let mut count: u32 = 0;
    let mut i: usize = 0;
    while i < n
        invariant
            n == pinstrs@.len(),
            n <= u32::MAX,
            i <= n,
            count == native_count(pinstrs@.take(i as int)),
            forall|j: int|
                0 <= j < table@.len() ==> {
                    let (k, a) = #[trigger] table@[j];
                    &&& k < i
                    &&& pinstrs@[k as int] is PLabel
                    &&& a == native_count(pinstrs@.take(k as int))
                },
            forall|k: int|
                0 <= k < i && pinstrs@[k] is PLabel ==> exists|j: int|
                    0 <= j < table@.len() && (#[trigger] table@[j]).0 == k,
            forall|a: int, b: int| #[trigger] duplicate_pair(pinstrs@, a, b) ==> b >= i,
        decreases n - i,
    {
        proof {
            assert(pinstrs@.take(i + 1).drop_last() =~= pinstrs@.take(i as int));
            lemma_native_count_bound(pinstrs@.take(i as int));
        }
        match &pinstrs[i] {
            PInstr::PLabel(l) => {
                let mut j: usize = 0;
                while j < table.len()
                    invariant
                        0 <= i < n == pinstrs@.len(),
                        pinstrs@[i as int] is PLabel,
                        l@ == pinstrs@[i as int]->PLabel_0@,
                        j <= table@.len(),
                        forall|t: int|
                            0 <= t < table@.len() ==> {
                                let (k, a) = #[trigger] table@[t];
                                &&& k < i
                                &&& pinstrs@[k as int] is PLabel
                            },
                        forall|t: int|
                            0 <= t < j ==> pinstrs@[(#[trigger] table@[t]).0 as int]->PLabel_0@ != l@,
                    decreases table@.len() - j,
                {
                    let k = table[j].0;
                    match &pinstrs[k] {
                        PInstr::PLabel(m) => {
                            if m.eq(l) {
                                proof {
                                    assert(duplicate_pair(pinstrs@, k as int, i as int));
                                }
                                let msg = String::from_str("duplicate label: ").concat(l.as_str());
                                return Err(msg);
                            }
                        },
                        _ => {},
                    }
                    j += 1;
                }
                proof {
                    assert forall|a: int, b: int| #[trigger] duplicate_pair(pinstrs@, a, b) implies b
                        >= i + 1 by {
                        if b == i {
                            let t = choose|t: int| 0 <= t < table@.len() && (#[trigger] table@[t]).0 == a;
                            assert(pinstrs@[table@[t].0 as int]->PLabel_0@ != l@);
                        }
                    }
                }
                let ghost old_table = table@;
                table.push((i, count));
                proof {
                    assert forall|k: int| 0 <= k < i + 1 && pinstrs@[k] is PLabel implies exists|t: int|
                        0 <= t < table@.len() && (#[trigger] table@[t]).0 == k by {
                        if k == i {
                            assert(table@[old_table.len() as int].0 == k);
                        } else {
                            let t0 = choose|t: int| 0 <= t < old_table.len() && (#[trigger] old_table[t]).0 == k;
                            assert(table@[t0] == old_table[t0]);
                        }
                    }
                }
            },
            _ => {
                count = count + 1;
                proof {
                    assert forall|k: int| 0 <= k < i + 1 && pinstrs@[k] is PLabel implies exists|t: int|
                        0 <= t < table@.len() && (#[trigger] table@[t]).0 == k by {
                        assert(k < i);
                    }
                }
            },
        }
        i += 1;
    }
    proof {
        assert(pinstrs@.take(n as int) =~= pinstrs@);
        assert(!has_duplicate(pinstrs@));
    }
    // Pass 2: emit, resolving each pushed label through the table.
    let mut out: Vec<Instr> = Vec::new();
    let mut i: usize = 0;
    while i < n
        invariant
            n == pinstrs@.len(),
            i <= n,
            !has_duplicate(pinstrs@),
            forall|j: int|
                0 <= j < table@.len() ==> {
                    let (k, a) = #[trigger] table@[j];
                    &&& k < n
                    &&& pinstrs@[k as int] is PLabel
                    &&& a == native_count(pinstrs@.take(k as int))
                },
            forall|k: int|
                0 <= k < n && pinstrs@[k] is PLabel ==> exists|j: int|
                    0 <= j < table@.len() && (#[trigger] table@[j]).0 == k,
            forall|k: int| 0 <= k < i ==> !undefined_at(pinstrs@, k),
            out@ == lower_all(pinstrs@.take(i as int), pinstrs@),
        decreases n - i,
    {
        proof {
            assert(pinstrs@.take(i + 1).drop_last() =~= pinstrs@.take(i as int));
        }
        match &pinstrs[i] {
            PInstr::PLabel(_) => {
                proof {
                    assert(out@ =~= lower_all(pinstrs@.take(i + 1), pinstrs@));
                }
            },
            PInstr::PI(x) => {
                out.push(*x);
            },
            PInstr::PPush(l) => {
                let mut j: usize = 0;
                let mut found: Option<u32> = None;
                while j < table.len()
                    invariant
                        0 <= i < n == pinstrs@.len(),
                        pinstrs@[i as int] is PPush,
                        l@ == pinstrs@[i as int]->PPush_0@,
                        !has_duplicate(pinstrs@),
                        j <= table@.len(),
                        forall|t: int|
                            0 <= t < table@.len() ==> {
                                let (k, a) = #[trigger] table@[t];
                                &&& k < n
                                &&& pinstrs@[k as int] is PLabel
                                &&& a == native_count(pinstrs@.take(k as int))
                            },
                        match found {
                            Some(a) => a == address_of(pinstrs@, l@) && defined(pinstrs@, l@),
                            None => forall|t: int|
                                0 <= t < j ==> pinstrs@[(#[trigger] table@[t]).0 as int]->PLabel_0@
                                    != l@,
                        },
                    decreases table@.len() - j,
                {
                    let (k, a) = table[j];
                    match &pinstrs[k] {
                        PInstr::PLabel(m) => {
                            if found.is_none() && m.eq(l) {
                                proof {
                                    assert(declares(pinstrs@, k as int, l@));
                                    lemma_address_unique(pinstrs@, k as int, l@);
                                }
                                found = Some(a);
                            }
                        },
                        _ => {},
                    }
                    j += 1;
                }
                match found {
                    Some(a) => {
                        out.push(Instr::Push(Val::Vloc(a)));
                    },
                    None => {
                        proof {
                            assert(!defined(pinstrs@, l@)) by {
                                if defined(pinstrs@, l@) {
                                    let k = choose|k: int| declares(pinstrs@, k, l@);
                                    let t = choose|t: int| 0 <= t < table@.len() && (#[trigger] table@[t]).0 == k;
                                    assert(pinstrs@[table@[t].0 as int]->PLabel_0@ != l@);
                                }
                            }
                            assert(undefined_at(pinstrs@, i as int));
                        }
                        return Err(String::from_str("undefined label: ").concat(l.as_str()));
                    },
                }
            },
        }
        proof {
            assert(!undefined_at(pinstrs@, i as int));
        }
        i += 1;
    }
    proof {
        assert(pinstrs@.take(n as int) =~= pinstrs@);
    }
    Ok(out)
}

} // verus!
