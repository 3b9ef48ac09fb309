use vstd::prelude::*;

use crate::block::{
    append_comments, append_param_suffix, append_param_value, append_references, append_table, governing, info_wf,
    own_comments, param_line, references_text, table_text,
};
use crate::decimal::{append_sci, Decimal};
use crate::error::ConvertError;
use crate::species::{
    display_tag, distinct, find_unresolved, first_unresolved, formula, get_particles,
    get_reaction_summary, is_mass_tag_exec, labels, parse_entries, parse_tag, summary,
};
use crate::text::{append_join, join, to_upper, upper_of, views};
use crate::types::{Process, ProcessInfo, Reaction, State};

verus! {

/// A process is renderable when its reaction has a type tag and all its
/// numbers are well formed.
pub open spec fn process_wf(p: Process) -> bool {
    &&& p.reaction.type_tags@.len() > 0
    &&& forall|i: int| 0 <= i < p.info@.len() ==> info_wf(#[trigger] p.info@[i])
}

pub open spec fn processes_wf(ps: Seq<Process>) -> bool {
    forall|i: int| 0 <= i < ps.len() ==> process_wf(#[trigger] ps[i])
}

/// The tag line, caption, governing value, species and equation of a block.
pub open spec fn head_text(
    r: Reaction<String>,
    upper: Seq<char>,
    tag: Seq<char>,
    caption: Seq<char>,
    gov: Decimal,
    states: Seq<(String, State)>,
) -> Seq<char> {
    "\n"@ + upper + "\n"@ + caption + "\n "@ + gov.sci_text() + "\nSPECIES: "@ + join(
        distinct(labels(r.lhs@, states)),
        " / "@,
    ) + "\nPROCESS: "@ + formula(r.lhs@, states) + " "@ + (if r.reversible {
        "<"@
    } else {
        seq![]
    }) + "-> "@ + formula(r.rhs@, states) + ", "@ + tag
}

/// What follows the equation in a block: parameters, comments, references
/// and the data table.
pub open spec fn body_text(
    tag: Seq<char>,
    reversible: bool,
    info: ProcessInfo,
    complete: bool,
    refs: Seq<(String, String)>,
) -> Result<Seq<char>, ConvertError> {
    match references_text(info.references@, refs) {
        Err(e) => Err(e),
        Ok(rt) => Ok(
            param_line(tag, reversible, info, complete) + own_comments(info) + rt + table_text(
                info.data,
            ),
        ),
    }
}

/// The text block of one record of a process, or the first error met.
pub open spec fn block_text(
    r: Reaction<String>,
    info: ProcessInfo,
    complete: bool,
    states: Seq<(String, State)>,
    refs: Seq<(String, String)>,
) -> Result<Seq<char>, ConvertError> {
    block_text_with(upper_of(display_tag(r.type_tags@[0]@)), r, info, complete, states, refs)
}

/// The text block of one record, given the uppercase form `upper` of its
/// display tag.
#[verifier::opaque]
pub open spec fn block_text_with(
    upper: Seq<char>,
    r: Reaction<String>,
    info: ProcessInfo,
    complete: bool,
    states: Seq<(String, State)>,
    refs: Seq<(String, String)>,
) -> Result<Seq<char>, ConvertError> {
    let tag = display_tag(r.type_tags@[0]@);
    match first_unresolved(r.lhs@, states) {
        Some(k) => Err(ConvertError::UnknownState(k)),
        None => match first_unresolved(r.rhs@, states) {
            Some(k) => Err(ConvertError::UnknownState(k)),
            None => match summary(r, states) {
                Err(e) => Err(e),
                Ok(caption) => match governing(tag, info) {
                    None => Err(ConvertError::MissingMassRatio(info.id)),
                    Some(g) => after(
                        head_text(r, upper, tag, caption, g, states),
                        body_text(tag, r.reversible, info, complete, refs),
                    ),
                },
            },
        },
    }
}

/// The blocks of the given records of one reaction, in order.
pub open spec fn infos_text(
    r: Reaction<String>,
    infos: Seq<ProcessInfo>,
    complete: bool,
    states: Seq<(String, State)>,
    refs: Seq<(String, String)>,
) -> Result<Seq<char>, ConvertError>
    decreases infos.len(),
{
    if infos.len() == 0 {
        Ok(seq![])
    } else {
        match infos_text(r, infos.drop_last(), complete, states, refs) {
            Err(e) => Err(e),
            Ok(t) => match block_text(r, infos.last(), complete, states, refs) {
                Err(e) => Err(e),
                Ok(u) => Ok(t + u),
            },
        }
    }
}

pub open spec fn process_text(
    p: Process,
    complete: bool,
    states: Seq<(String, State)>,
    refs: Seq<(String, String)>,
) -> Result<Seq<char>, ConvertError> {
    infos_text(p.reaction, p.info@, complete, states, refs)
}

/// The blocks of all records of the processes, in order.
pub open spec fn processes_text(
    ps: Seq<Process>,
    complete: bool,
    states: Seq<(String, State)>,
    refs: Seq<(String, String)>,
) -> Result<Seq<char>, ConvertError>
    decreases ps.len(),
{
    if ps.len() == 0 {
        Ok(seq![])
    } else {
        match processes_text(ps.drop_last(), complete, states, refs) {
            Err(e) => Err(e),
            Ok(t) => match process_text(ps.last(), complete, states, refs) {
                Err(e) => Err(e),
                Ok(u) => Ok(t + u),
            },
        }
    }
}

/// `prefix` put before a text; an error is kept.
pub open spec fn after(prefix: Seq<char>, r: Result<Seq<char>, ConvertError>) -> Result<
    Seq<char>,
    ConvertError,
> {
    match r {
        Ok(t) => Ok(prefix + t),
        Err(e) => Err(e),
    }
}

pub open spec fn result_view(r: Result<String, ConvertError>) -> Result<Seq<char>, ConvertError> {
    match r {
        Ok(s) => Ok(s@),
        Err(e) => Err(e),
    }
}

#[verifier::rlimit(40)]
fn append_head(
    out: &mut String,
    reaction: &Reaction<String>,
    tag: &String,
    upper: &String,
    caption: &String,
    gov: &Decimal,
    states: &Vec<(String, State)>,
)
    requires
        gov.wf(),
        crate::species::all_resolve(reaction.lhs@, states@),
        crate::species::all_resolve(reaction.rhs@, states@),
    ensures
        final(out)@ == old(out)@ + head_text(*reaction, upper@, tag@, caption@, *gov, states@),
{
    let ghost start = out@;
    out.append("\n");
    out.append(upper.as_str());
    out.append("\n");
    out.append(caption.as_str());
    out.append("\n ");
    append_sci(out, gov);
    out.append("\nSPECIES: ");
    let particles = get_particles(reaction, states);
    append_join(out, &particles, " / ");
    out.append("\nPROCESS: ");
    let lhs = parse_entries(&reaction.lhs, states);
    out.append(lhs.as_str());
    out.append(" ");
    if reaction.reversible {
        out.append("<");
    }
    out.append("-> ");
    let rhs = parse_entries(&reaction.rhs, states);
    out.append(rhs.as_str());
    out.append(", ");
    out.append(tag.as_str());
    assert(out@ =~= start + head_text(*reaction, upper@, tag@, caption@, *gov, states@));
}

/// Appends the block of one record, given the uppercase form `upper` of
/// the display tag `tag`.
#[verifier::rlimit(40)]
pub fn append_block(
    out: &mut String,
    reaction: &Reaction<String>,
    tag: &String,
    upper: &String,
    info: &ProcessInfo,
    complete: bool,
    states: &Vec<(String, State)>,
    references: &Vec<(String, String)>,
) -> (r: Result<(), ConvertError>)
    requires
        reaction.type_tags@.len() > 0,
        tag@ == display_tag(reaction.type_tags@[0]@),
        info_wf(*info),
    ensures
        r is Ok ==> (block_text_with(upper@, *reaction, *info, complete, states@, references@) matches Ok(t)
            && final(out)@ == old(out)@ + t),
        r matches Err(e) ==> block_text_with(upper@, *reaction, *info, complete, states@, references@) == Err::<
            Seq<char>,
            ConvertError,
        >(e),
{
    let ghost start = out@;
    proof {
        reveal(block_text_with);
    }
    if let Some(k) = find_unresolved(&reaction.lhs, states) {
        return Err(ConvertError::UnknownState(k));
    }
    if let Some(k) = find_unresolved(&reaction.rhs, states) {
        return Err(ConvertError::UnknownState(k));
    }
    let caption = match get_reaction_summary(reaction, states) {
        Ok(c) => c,
        Err(e) => {
            return Err(e);
        },
    };
    let gov: &Decimal;
    if is_mass_tag_exec(tag) {
        match &info.parameters {
            Some(p) => match &p.mass_ratio {
                Some(m) => {
                    gov = m;
                },
                None => {
                    return Err(ConvertError::MissingMassRatio(info.id.clone()));
                },
            },
            None => {
                return Err(ConvertError::MissingMassRatio(info.id.clone()));
            },
        }
    } else {
        gov = &info.threshold;
    }
    append_head(out, reaction, tag, upper, &caption, gov, states);
    append_body(out, tag, reaction.reversible, info, complete, references)
}

#[verifier::rlimit(40)]
fn append_body(
    out: &mut String,
    tag: &String,
    reversible: bool,
    info: &ProcessInfo,
    complete: bool,
    references: &Vec<(String, String)>,
) -> (r: Result<(), ConvertError>)
    requires
        info_wf(*info),
        governing(tag@, *info) is Some,
    ensures
        r is Ok ==> (body_text(tag@, reversible, *info, complete, references@) matches Ok(t)
            && final(out)@ == old(out)@ + t),
        r matches Err(e) ==> body_text(tag@, reversible, *info, complete, references@) == Err::<
            Seq<char>,
            ConvertError,
        >(e),
{
    let ghost start = out@;
    append_param_value(out, tag, info);
    append_param_suffix(out, reversible, info, complete);
    match &info.comments {
        Some(cs) => append_comments(out, cs),
        None => {},
    }
    if let Err(e) = append_references(out, &info.references, references) {
        return Err(e);
    }
    append_table(out, &info.data);
    assert(out@ =~= start + body_text(tag@, reversible, *info, complete, references@)->Ok_0);
    Ok(())
}

/// Combines the results of two consecutive parts: the first error wins.
pub open spec fn sequenced(a: Result<Seq<char>, ConvertError>, b: Result<Seq<char>, ConvertError>) -> Result<
    Seq<char>,
    ConvertError,
> {
    match a {
        Err(e) => Err(e),
        Ok(t) => match b {
            Err(e) => Err(e),
            Ok(u) => Ok(t + u),
        },
    }
}

/// The blocks of `a + b` are those of `a` followed by those of `b`.
pub proof fn lemma_processes_append(
    a: Seq<Process>,
    b: Seq<Process>,
    complete: bool,
    states: Seq<(String, State)>,
    refs: Seq<(String, String)>,
)
    ensures
        processes_text(a + b, complete, states, refs) == sequenced(
            processes_text(a, complete, states, refs),
            processes_text(b, complete, states, refs),
        ),
    decreases b.len(),
{
    if b.len() == 0 {
        assert(a + b =~= a);
    } else {
        assert((a + b).drop_last() =~= a + b.drop_last());
        lemma_processes_append(a, b.drop_last(), complete, states, refs);
        match processes_text(a, complete, states, refs) {
            Err(e) => {},
            Ok(t) => match processes_text(b.drop_last(), complete, states, refs) {
                Err(e) => {},
                Ok(u) => match process_text(b.last(), complete, states, refs) {
                    Err(e) => {},
                    Ok(v) => {
                        assert(t + u + v =~= t + (u + v));
                    },
                },
            },
        }
    }
}

/// An error in the first `j` records is the error of the whole process.
proof fn lemma_infos_prefix(
    r: Reaction<String>,
    infos: Seq<ProcessInfo>,
    complete: bool,
    states: Seq<(String, State)>,
    refs: Seq<(String, String)>,
    j: int,
)
    requires
        0 <= j <= infos.len(),
        infos_text(r, infos.take(j), complete, states, refs) is Err,
    ensures
        infos_text(r, infos, complete, states, refs) == infos_text(
            r,
            infos.take(j),
            complete,
            states,
            refs,
        ),
    decreases infos.len(),
{
    if j < infos.len() {
        assert(infos.drop_last().take(j) =~= infos.take(j));
        lemma_infos_prefix(r, infos.drop_last(), complete, states, refs, j);
    } else {
        assert(infos.take(j) =~= infos);
    }
}

/// Renders every record of a process after `buffer`.
#[verifier::rlimit(40)]
pub fn parse_process(
    buffer: String,
    process: &Process,
    complete: bool,
    states: &Vec<(String, State)>,
    references: &Vec<(String, String)>,
) -> (r: Result<String, ConvertError>)
    requires
        process_wf(*process),
    ensures
        result_view(r) == after(buffer@, process_text(*process, complete, states@, references@)),
{
    let ghost start = buffer@;
    let mut out = buffer;
    let tag = parse_tag(process.reaction.type_tags.as_slice());
    let upper = to_upper(tag.as_str());
    let infos = &process.info;
    let mut i: usize = 0;
    while i < infos.len()
        invariant
            i <= infos@.len(),
            infos == &process.info,
            process_wf(*process),
            tag@ == display_tag(process.reaction.type_tags@[0]@),
            upper@ == upper_of(tag@),
            infos_text(process.reaction, infos@.take(i as int), complete, states@, references@) matches Ok(t)
                && out@ == start + t,
        decreases infos@.len() - i,
    {
        assert(infos@.take(i + 1).drop_last() =~= infos@.take(i as int));
        assert(infos@.take(i + 1).last() == infos@[i as int]);
        match append_block(
            &mut out,
            &process.reaction,
            &tag,
            &upper,
            &infos[i],
            complete,
            states,
            references,
        ) {
            Ok(()) => {},
            Err(e) => {
                proof {
                    lemma_infos_prefix(process.reaction, infos@, complete, states@, references@, i + 1);
                }
                return Err(e);
            },
        }
        i = i + 1;
        assert(infos_text(process.reaction, infos@.take(i as int), complete, states@, references@) matches Ok(t)
            && out@ =~= start + t);
    }
    assert(infos@.take(i as int) =~= infos@);
    Ok(out)
}

/// Renders all processes, in order, after `buffer`.
pub fn parse_processes(
    buffer: String,
    processes: &Vec<Process>,
    complete: bool,
    states: &Vec<(String, State)>,
    references: &Vec<(String, String)>,
) -> (r: Result<String, ConvertError>)
    requires
        processes_wf(processes@),
    ensures
        result_view(r) == after(buffer@, processes_text(processes@, complete, states@, references@)),
{
    let ghost start = buffer@;
    let mut out = buffer;
    let mut i: usize = 0;
    while i < processes.len()
        invariant
            i <= processes@.len(),
            processes_wf(processes@),
            processes_text(processes@.take(i as int), complete, states@, references@) matches Ok(t)
                && out@ == start + t,
        decreases processes@.len() - i,
    {
        assert(processes@.take(i + 1).drop_last() =~= processes@.take(i as int));
        assert(processes@.take(i + 1).last() == processes@[i as int]);
        out = match parse_process(out, &processes[i], complete, states, references) {
            Ok(o) => o,
            Err(e) => {
                proof {
                    lemma_processes_append(
                        processes@.take(i + 1),
                        processes@.skip(i + 1),
                        complete,
                        states@,
                        references@,
                    );
                    assert(processes@.take(i + 1) + processes@.skip(i + 1) =~= processes@);
                }
                return Err(e);
            },
        };
        i = i + 1;
        assert(processes_text(processes@.take(i as int), complete, states@, references@) matches Ok(t)
            && out@ =~= start + t);
    }
    assert(processes@.take(i as int) =~= processes@);
    Ok(out)
}

/// Whether every process can be rendered: each reaction has a type tag
/// and all numbers are well formed.
pub fn check_processes(processes: &Vec<Process>) -> (r: bool)
    ensures
        r == processes_wf(processes@),
{
    let mut i: usize = 0;
    while i < processes.len()
        invariant
            i <= processes@.len(),
            forall|k: int| 0 <= k < i ==> process_wf(#[trigger] processes@[k]),
        decreases processes@.len() - i,
    {
        let p = &processes[i];
        if p.reaction.type_tags.len() == 0 {
            return false;
        }
        let mut j: usize = 0;
        while j < p.info.len()
            invariant
                i < processes@.len(),
                *p == processes@[i as int],
                j <= p.info@.len(),
                forall|k: int| 0 <= k < j ==> info_wf(#[trigger] p.info@[k]),
            decreases p.info@.len() - j,
        {
            if !crate::block::check_info(&p.info[j]) {
                assert(!process_wf(processes@[i as int]));
                return false;
            }
            j = j + 1;
        }
        i = i + 1;
    }
    true
}

} // verus!
