use vstd::prelude::*;

use crate::error::{ConvertError, Side};
use crate::lookup::{find_key, key_index, resolve};
use crate::text::{append_join, join, views};
use crate::types::{Reaction, State, StateEntry};

verus! {

/// The category shown for a reaction, from its first type tag: the three
/// kinds of excitation are shown as one.
pub open spec fn display_tag(t: Seq<char>) -> Seq<char> {
    if t == "Electronic"@ || t == "Vibrational"@ || t == "Rotational"@ {
        "Excitation"@
    } else {
        t
    }
}

/// Elastic and effective processes are governed by a mass ratio.
pub open spec fn is_mass_tag(t: Seq<char>) -> bool {
    t == "Elastic"@ || t == "Effective"@
}

/// The free electron `e^-` is written `e`.
pub open spec fn simplify(s: Seq<char>) -> Seq<char> {
    if s == "e^-"@ {
        "e"@
    } else {
        s
    }
}

pub open spec fn entry_resolves(e: StateEntry<String>, states: Seq<(String, State)>) -> bool {
    key_index(states, e.state@) is Some
}

pub open spec fn all_resolve(entries: Seq<StateEntry<String>>, states: Seq<(String, State)>) -> bool {
    forall|i: int| 0 <= i < entries.len() ==> entry_resolves(#[trigger] entries[i], states)
}

/// The state key of the first entry that the state list lacks.
pub open spec fn first_unresolved(
    entries: Seq<StateEntry<String>>,
    states: Seq<(String, State)>,
) -> Option<String>
    decreases entries.len(),
{
    if entries.len() == 0 {
        None
    } else {
        match first_unresolved(entries.drop_last(), states) {
            Some(k) => Some(k),
            None => if !entry_resolves(entries.last(), states) {
                Some(entries.last().state)
            } else {
                None
            },
        }
    }
}

/// The text shown for a state: its summary, with the electron simplified.
pub open spec fn label(e: StateEntry<String>, states: Seq<(String, State)>) -> Seq<char> {
    simplify(resolve(states, e.state@).unwrap().serialized.summary@)
}

pub open spec fn labels(entries: Seq<StateEntry<String>>, states: Seq<(String, State)>) -> Seq<
    Seq<char>,
> {
    entries.map_values(|e: StateEntry<String>| label(e, states))
}

/// The labels that are not the electron, in order, repeats kept.
pub open spec fn significant(ls: Seq<Seq<char>>) -> Seq<Seq<char>>
    decreases ls.len(),
{
    if ls.len() == 0 {
        seq![]
    } else if ls.last() != "e"@ {
        significant(ls.drop_last()).push(ls.last())
    } else {
        significant(ls.drop_last())
    }
}

/// The labels in order of first appearance, each once.
pub open spec fn distinct(ls: Seq<Seq<char>>) -> Seq<Seq<char>>
    decreases ls.len(),
{
    if ls.len() == 0 {
        seq![]
    } else if distinct(ls.drop_last()).contains(ls.last()) {
        distinct(ls.drop_last())
    } else {
        distinct(ls.drop_last()).push(ls.last())
    }
}

/// The caption of a reaction: the target alone for elastic and effective
/// processes, else the significant species of both sides.
pub open spec fn summary(r: Reaction<String>, states: Seq<(String, State)>) -> Result<
    Seq<char>,
    ConvertError,
> {
    let lhs = significant(labels(r.lhs@, states));
    let rhs = significant(labels(r.rhs@, states));
    if lhs.len() == 0 {
        Err(ConvertError::ZeroSignificantSpecies(Side::Lhs))
    } else if is_mass_tag(display_tag(r.type_tags@[0]@)) {
        Ok(lhs[0])
    } else if rhs.len() == 0 {
        Err(ConvertError::ZeroSignificantSpecies(Side::Rhs))
    } else {
        Ok(join(lhs, " + "@) + " -> "@ + join(rhs, " + "@))
    }
}

/// One term of an equation: the label `count` times.
pub open spec fn term(count: nat, l: Seq<char>) -> Seq<char> {
    join(Seq::new(count, |i: int| l), " + "@)
}

/// One side of the reaction equation.
pub open spec fn formula(entries: Seq<StateEntry<String>>, states: Seq<(String, State)>) -> Seq<
    char,
> {
    join(
        entries.map_values(|e: StateEntry<String>| term(e.count as nat, label(e, states))),
        " + "@,
    )
}

/// Classifies a reaction by its first type tag.
pub fn parse_tag(type_tags: &[String]) -> (r: String)
    requires
        type_tags@.len() > 0,
    ensures
        r@ == display_tag(type_tags@[0]@),
{
    let tag = &type_tags[0];
    if tag.eq(&String::from_str("Electronic")) || tag.eq(&String::from_str("Vibrational"))
        || tag.eq(&String::from_str("Rotational")) {
        String::from_str("Excitation")
    } else {
        tag.clone()
    }
}

/// Whether a display tag is governed by a mass ratio.
pub fn is_mass_tag_exec(tag: &String) -> (r: bool)
    ensures
        r == is_mass_tag(tag@),
{
    tag.eq(&String::from_str("Elastic")) || tag.eq(&String::from_str("Effective"))
}

/// Writes the free electron `e^-` as `e`.
pub fn simplify_electrons(state: &String) -> (r: String)
    ensures
        r@ == simplify(state@),
{
    if state.eq(&String::from_str("e^-")) {
        String::from_str("e")
    } else {
        state.clone()
    }
}

/// The key of the first entry whose state is missing, if any.
pub fn find_unresolved(entries: &Vec<StateEntry<String>>, states: &Vec<(String, State)>) -> (r:
    Option<String>)
    ensures
        r == first_unresolved(entries@, states@),
        r is None <==> all_resolve(entries@, states@),
{
    let mut i: usize = 0;
    while i < entries.len()
        invariant
            i <= entries@.len(),
            first_unresolved(entries@.take(i as int), states@) is None,
            all_resolve(entries@.take(i as int), states@),
        decreases entries@.len() - i,
    {
        assert(entries@.take(i + 1).drop_last() =~= entries@.take(i as int));
        if find_key(states, &entries[i].state).is_none() {
            proof {
                lemma_first_unresolved_prefix(entries@, states@, i + 1);
            }
            return Some(entries[i].state.clone());
        }
        i = i + 1;
        assert(all_resolve(entries@.take(i as int), states@)) by {
            assert forall|j: int| 0 <= j < i implies entry_resolves(
                #[trigger] entries@.take(i as int)[j],
                states@,
            ) by {
                if j < i - 1 {
                    assert(entries@.take(i - 1)[j] == entries@.take(i as int)[j]);
                }
            }
        }
    }
    assert(entries@.take(i as int) =~= entries@);
    None
}

proof fn lemma_first_unresolved_prefix(
    entries: Seq<StateEntry<String>>,
    states: Seq<(String, State)>,
    j: int,
)
    requires
        0 <= j <= entries.len(),
        first_unresolved(entries.take(j), states) is Some,
    ensures
        first_unresolved(entries, states) == first_unresolved(entries.take(j), states),
    decreases entries.len(),
{
    if j < entries.len() {
        assert(entries.drop_last().take(j) =~= entries.take(j));
        lemma_first_unresolved_prefix(entries.drop_last(), states, j);
    } else {
        assert(entries.take(j) =~= entries);
    }
}

/// The label of the state of an entry.
pub fn get_state_id(entry: &StateEntry<String>, states: &Vec<(String, State)>) -> (r: String)
    requires
        entry_resolves(*entry, states@),
    ensures
        r@ == label(*entry, states@),
{
    let i = find_key(states, &entry.state).unwrap();
    simplify_electrons(&states[i].1.serialized.summary)
}

/// The significant species of one side, in order.
pub fn get_species(entries: &Vec<StateEntry<String>>, states: &Vec<(String, State)>) -> (r: Vec<
    String,
>)
    requires
        all_resolve(entries@, states@),
    ensures
        views(r@) == significant(labels(entries@, states@)),
{
    let mut r: Vec<String> = Vec::new();
    let mut i: usize = 0;
    while i < entries.len()
        invariant
            i <= entries@.len(),
            all_resolve(entries@, states@),
            views(r@) == significant(labels(entries@.take(i as int), states@)),
        decreases entries@.len() - i,
    {
        let ghost before = r@;
        assert(labels(entries@.take(i + 1), states@).drop_last() =~= labels(
            entries@.take(i as int),
            states@,
        ));
        let id = get_state_id(&entries[i], states);
        if !id.eq(&String::from_str("e")) {
            r.push(id);
            assert(views(r@) =~= views(before).push(id@));
        }
        i = i + 1;
    }
    assert(entries@.take(i as int) =~= entries@);
    r
}

/// The caption of a reaction.
pub fn get_reaction_summary(reaction: &Reaction<String>, states: &Vec<(String, State)>) -> (r:
    Result<String, ConvertError>)
    requires
        reaction.type_tags@.len() > 0,
        all_resolve(reaction.lhs@, states@),
        all_resolve(reaction.rhs@, states@),
    ensures
        r matches Ok(s) ==> summary(*reaction, states@) == Ok::<Seq<char>, ConvertError>(s@),
        r matches Err(e) ==> summary(*reaction, states@) == Err::<Seq<char>, ConvertError>(e),
{
    let lhs = get_species(&reaction.lhs, states);
    let rhs = get_species(&reaction.rhs, states);
    if lhs.len() == 0 {
        return Err(ConvertError::ZeroSignificantSpecies(Side::Lhs));
    }
    let tag = parse_tag(reaction.type_tags.as_slice());
    if is_mass_tag_exec(&tag) {
        assert(views(lhs@)[0] == lhs@[0]@);
        return Ok(lhs[0].clone());
    }
    if rhs.len() == 0 {
        return Err(ConvertError::ZeroSignificantSpecies(Side::Rhs));
    }
    let mut out = String::new();
    append_join(&mut out, &lhs, " + ");
    out.append(" -> ");
    append_join(&mut out, &rhs, " + ");
    Ok(out)
}

/// One term of an equation: `state` written `count` times.
pub fn fold_entry(count: u32, state: &String) -> (r: String)
    ensures
        r@ == term(count as nat, simplify(state@)),
{
    let l = simplify_electrons(state);
    let mut out = String::new();
    let mut i: u32 = 0;
    while i < count
        invariant
            i <= count,
            l@ == simplify(state@),
            out@ == term(i as nat, l@),
        decreases count - i,
    {
        assert(Seq::new((i + 1) as nat, |j: int| l@).drop_last() =~= Seq::new(
            i as nat,
            |j: int| l@,
        ));
        if i > 0 {
            out.append(" + ");
        }
        out.append(l.as_str());
        i = i + 1;
    }
    out
}

/// One side of the reaction equation.
pub fn parse_entries(entries: &Vec<StateEntry<String>>, states: &Vec<(String, State)>) -> (r:
    String)
    requires
        all_resolve(entries@, states@),
    ensures
        r@ == formula(entries@, states@),
{
    let ghost f = |e: StateEntry<String>| term(e.count as nat, label(e, states@));
    let mut out = String::new();
    let mut i: usize = 0;
    while i < entries.len()
        invariant
            i <= entries@.len(),
            all_resolve(entries@, states@),
            f == (|e: StateEntry<String>| term(e.count as nat, label(e, states@))),
            out@ == join(entries@.take(i as int).map_values(f), " + "@),
        decreases entries@.len() - i,
    {
        assert(entries@.take(i + 1).map_values(f).drop_last() =~= entries@.take(
            i as int,
        ).map_values(f));
        let j = find_key(states, &entries[i].state).unwrap();
        let t = fold_entry(entries[i].count, &states[j].1.serialized.summary);
        if i > 0 {
            out.append(" + ");
        }
        out.append(t.as_str());
        i = i + 1;
    }
    assert(entries@.take(i as int) =~= entries@);
    out
}

/// The distinct species on the left of a reaction, in order of first
/// appearance.
pub fn get_particles(reaction: &Reaction<String>, states: &Vec<(String, State)>) -> (r: Vec<
    String,
>)
    requires
        all_resolve(reaction.lhs@, states@),
    ensures
        views(r@) == distinct(labels(reaction.lhs@, states@)),
{
    let entries = &reaction.lhs;
    let mut r: Vec<String> = Vec::new();
    let mut i: usize = 0;
    while i < entries.len()
        invariant
            i <= entries@.len(),
            entries == &reaction.lhs,
            all_resolve(entries@, states@),
            views(r@) == distinct(labels(entries@.take(i as int), states@)),
        decreases entries@.len() - i,
    {
        let ghost before = r@;
        assert(labels(entries@.take(i + 1), states@).drop_last() =~= labels(
            entries@.take(i as int),
            states@,
        ));
        let id = get_state_id(&entries[i], states);
        let mut seen = false;
        let mut k: usize = 0;
        while k < r.len()
            invariant
                k <= r@.len(),
                r@ == before,
                seen <==> views(r@).take(k as int).contains(id@),
            decreases r@.len() - k,
        {
            assert(views(r@).take(k + 1) =~= views(r@).take(k as int).push(views(r@)[k as int]));
            let ghost prefix = views(r@).take(k as int);
            let ghost next = views(r@).take(k + 1);
            assert(views(r@)[k as int] == r@[k as int]@);
            if r[k].eq(&id) {
                seen = true;
                assert(next[k as int] == id@);
            } else {
                assert(next.contains(id@) ==> prefix.contains(id@)) by {
                    if next.contains(id@) {
                        let j = choose|j: int| 0 <= j < next.len() && next[j] == id@;
                        assert(prefix[j] == id@);
                    }
                }
            }
            assert(prefix.contains(id@) ==> next.contains(id@)) by {
                if prefix.contains(id@) {
                    let j = choose|j: int| 0 <= j < prefix.len() && prefix[j] == id@;
                    assert(next[j] == id@);
                }
            }
            k = k + 1;
        }
        assert(views(r@).take(k as int) =~= views(r@));
        if !seen {
            r.push(id);
            assert(views(r@) =~= views(before).push(id@));
        }
        i = i + 1;
    }
    assert(entries@.take(i as int) =~= entries@);
    r
}

} // verus!
