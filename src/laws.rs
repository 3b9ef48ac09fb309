use vstd::prelude::*;

use crate::block::{lemma_reference_errors, mass_ratio_of, param_line, param_value, weight_ratio_of};
use crate::error::ConvertError;
use crate::legacy::{in_set, members, set_pred};
use crate::render::{block_text, block_text_with, body_text, head_text};
use crate::text::upper_of;
use crate::lookup::resolve;
use crate::species::{display_tag, first_unresolved, is_mass_tag, labels, simplify, summary};
use crate::types::{Document, Mixture, Process, ProcessInfo, Reaction, State, StateEntry};

verus! {

/// For an elastic or effective process whose states resolve and whose
/// caption can be formed, rendering fails for want of a mass ratio exactly
/// when the record has none; otherwise its `PARAM.:` line gives `m/M = `
/// and the mass ratio.
pub proof fn lemma_mass_ratio_governs(
    r: Reaction<String>,
    info: ProcessInfo,
    complete: bool,
    states: Seq<(String, State)>,
    refs: Seq<(String, String)>,
)
    requires
        r.type_tags@.len() > 0,
        is_mass_tag(display_tag(r.type_tags@[0]@)),
        first_unresolved(r.lhs@, states) is None,
        first_unresolved(r.rhs@, states) is None,
        summary(r, states) is Ok,
    ensures
        (block_text(r, info, complete, states, refs) == Err::<Seq<char>, ConvertError>(
            ConvertError::MissingMassRatio(info.id),
        )) <==> mass_ratio_of(info) is None,
        mass_ratio_of(info) is Some ==> param_line(
            display_tag(r.type_tags@[0]@),
            r.reversible,
            info,
            complete,
        ).take(16) == "\nPARAM.:  m/M = "@,
        block_text(r, info, complete, states, refs) matches Ok(t) ==> exists|a: Seq<char>, b: Seq<char>|
            t == a + "\nPARAM.:  m/M = "@ + b,
{
    reveal(block_text_with);
    lemma_reference_errors(info.references@, refs);
    let tag = display_tag(r.type_tags@[0]@);
    reveal_strlit("\nPARAM.:  m/M = ");
    if let Some(m) = mass_ratio_of(info) {
        let line = param_line(tag, r.reversible, info, complete);
        assert(line.take(16) =~= "\nPARAM.:  m/M = "@);
        if let Ok(t) = block_text(r, info, complete, states, refs) {
            let caption = summary(r, states)->Ok_0;
            let head = head_text(r, upper_of(tag), tag, caption, m, states);
            let body = body_text(tag, r.reversible, info, complete, refs)->Ok_0;
            assert(body.take(16) =~= "\nPARAM.:  m/M = "@);
            let b = body.skip(16);
            assert(t =~= head + "\nPARAM.:  m/M = "@ + b);
        }
    }
}

/// A reaction that cannot go backwards shows no statistical weight ratio:
/// its `PARAM.:` line is the governing quantity, then the completeness mark
/// if the set is complete.
pub proof fn lemma_irreversible_no_weight_ratio(
    tag: Seq<char>,
    info: ProcessInfo,
    complete: bool,
)
    ensures
        param_line(tag, false, info, complete) == param_value(tag, info) + if complete {
            ", complete set"@
        } else {
            seq![]
        },
{
    assert(param_line(tag, false, info, complete) =~= param_value(tag, info) + if complete {
        ", complete set"@
    } else {
        seq![]
    });
}

/// A reversible reaction with a statistical weight ratio shows it once,
/// right after the governing quantity.
pub proof fn lemma_reversible_weight_ratio(tag: Seq<char>, info: ProcessInfo, complete: bool)
    requires
        weight_ratio_of(info) is Some,
    ensures
        param_line(tag, true, info, complete) == param_value(tag, info) + ", g1/g0 = "@
            + weight_ratio_of(info)->Some_0.plain_text() + if complete {
            ", complete set"@
        } else {
            seq![]
        },
{
    assert(param_line(tag, true, info, complete) =~= param_value(tag, info) + ", g1/g0 = "@
        + weight_ratio_of(info)->Some_0.plain_text() + if complete {
        ", complete set"@
    } else {
        seq![]
    });
}

/// A process is rendered under a set exactly when it is one of the
/// processes and every one of its records lists that set.
pub proof fn lemma_set_membership(ps: Seq<Process>, key: Seq<char>, p: Process)
    ensures
        members(ps, key).contains(p) <==> (ps.contains(p) && in_set(p, key)),
{
    let pred = set_pred(key);
    let f = members(ps, key);
    if f.contains(p) {
        let i = choose|i: int| 0 <= i < f.len() && f[i] == p;
        ps.lemma_filter_pred(pred, i);
        ps.lemma_filter_contains_rev(pred, p);
    }
    if ps.contains(p) && in_set(p, key) {
        let i = choose|i: int| 0 <= i < ps.len() && ps[i] == p;
        ps.lemma_filter_contains(pred, i);
    }
}

/// The free electron is never shown as `e^-`: that label is shown as `e`.
pub proof fn lemma_electron_shown_as_e(s: Seq<char>)
    ensures
        s == "e^-"@ ==> simplify(s) == "e"@,
        simplify(s) != "e^-"@,
{
    reveal_strlit("e^-");
    reveal_strlit("e");
    if s == "e^-"@ {
        assert(simplify(s).len() != "e^-"@.len());
    }
}

/// Every label of a side of a reaction, from which its species line,
/// equation and caption are made, shows a state written `e^-` as `e`.
pub proof fn lemma_labels_show_electron_as_e(
    entries: Seq<StateEntry<String>>,
    states: Seq<(String, State)>,
)
    ensures
        forall|i: int|
            0 <= i < entries.len() ==> #[trigger] labels(entries, states)[i] != "e^-"@ && (
            resolve(states, entries[i].state@)->Some_0.serialized.summary@ == "e^-"@ ==> labels(
                entries,
                states,
            )[i] == "e"@),
{
    assert forall|i: int| 0 <= i < entries.len() implies #[trigger] labels(entries, states)[i]
        != "e^-"@ && (resolve(states, entries[i].state@)->Some_0.serialized.summary@ == "e^-"@
        ==> labels(entries, states)[i] == "e"@) by {
        lemma_electron_shown_as_e(resolve(states, entries[i].state@)->Some_0.serialized.summary@);
    }
}

/// The text of a dataset depends on its contents alone: equal datasets give
/// equal texts, or equal errors.
pub proof fn lemma_document_deterministic(a: Document, b: Document)
    requires
        a == b,
    ensures
        a.legacy_text() == b.legacy_text(),
{
}

/// The text of a mixture depends on its contents alone.
pub proof fn lemma_mixture_deterministic(a: Mixture, b: Mixture)
    requires
        a == b,
    ensures
        a.legacy_text() == b.legacy_text(),
{
}

} // verus!
