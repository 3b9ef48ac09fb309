use vstd::prelude::*;

use crate::error::ConvertError;
use crate::render::{
    after, lemma_processes_append, parse_processes, process_text, processes_text, processes_wf,
    result_view, sequenced,
};
use crate::types::{Document, Mixture, Process, ProcessInfo, SetHeader, State};

verus! {

/// The marker line that bounds each banner and ends the text.
pub const END: &'static str = "xxxxxxxxxxxxxxxxxxxxxxxxxxxxxxxxxxxxxxxxxxxxxxxxxxxxxxxxxxxxxxxxxxxxxxxxxxxxxxxxxxxxxxxxxxxxxxxxxxxxxxxxxxxxxxxxxxxxxxxx";

/// The permalink and the terms of use.
pub open spec fn preamble(url: Seq<char>, terms: Seq<char>) -> Seq<char> {
    "PERMLINK:     "@ + url + "\nTERMS OF USE: "@ + terms + "\n\n"@
}

/// The database name and description between two marker lines.
pub open spec fn banner(name: Seq<char>, description: Seq<char>) -> Seq<char> {
    END@ + "\nDATABASE:         "@ + name + "\nDESCRIPTION:      "@ + description + "\n"@ + END@
        + "\n"@
}

/// `prefix` and `suffix` put around a text; an error is kept.
pub open spec fn around(
    prefix: Seq<char>,
    r: Result<Seq<char>, ConvertError>,
    suffix: Seq<char>,
) -> Result<Seq<char>, ConvertError> {
    match r {
        Ok(t) => Ok(prefix + t + suffix),
        Err(e) => Err(e),
    }
}

/// A record belongs to the set with key `key`.
pub open spec fn lists(info: ProcessInfo, key: Seq<char>) -> bool {
    &&& info.is_part_of is Some
    &&& exists|j: int|
        0 <= j < info.is_part_of->Some_0@.len() && (#[trigger] info.is_part_of->Some_0@[j])@
            == key
}

/// A process belongs to a set when every one of its records does.
pub open spec fn in_set(p: Process, key: Seq<char>) -> bool {
    forall|i: int| 0 <= i < p.info@.len() ==> lists(#[trigger] p.info@[i], key)
}

pub open spec fn set_pred(key: Seq<char>) -> spec_fn(Process) -> bool {
    |p: Process| in_set(p, key)
}

/// The processes of a set, in their order.
pub open spec fn members(ps: Seq<Process>, key: Seq<char>) -> Seq<Process> {
    ps.filter(set_pred(key))
}

/// For each set in turn, its banner and the blocks of its processes.
pub open spec fn sets_text(
    sets: Seq<(String, SetHeader)>,
    ps: Seq<Process>,
    states: Seq<(String, State)>,
    refs: Seq<(String, String)>,
) -> Result<Seq<char>, ConvertError>
    decreases sets.len(),
{
    if sets.len() == 0 {
        Ok(seq![])
    } else {
        let (key, h) = sets.last();
        sequenced(
            sets_text(sets.drop_last(), ps, states, refs),
            after(
                banner(h.contributor.name@, h.description@),
                processes_text(members(ps, key@), h.complete, states, refs),
            ),
        )
    }
}

impl Document {
    pub open spec fn wf(&self) -> bool {
        processes_wf(self.processes@)
    }

    /// The legacy text of the dataset, or the first error met.
    pub open spec fn legacy_text(&self) -> Result<Seq<char>, ConvertError> {
        around(
            preamble(self.url@, self.terms_of_use@) + banner(
                self.contributor.name@,
                self.description@,
            ) + "\n"@,
            processes_text(self.processes@, self.complete, self.states@, self.references@),
            END@,
        )
    }

    /// Renders the dataset in the legacy text layout.
    pub fn into_legacy(self) -> (r: Result<String, ConvertError>)
        requires
            self.wf(),
        ensures
            result_view(r) == self.legacy_text(),
    {
        let mut legacy = String::new();
        legacy.append("PERMLINK:     ");
        legacy.append(self.url.as_str());
        legacy.append("\nTERMS OF USE: ");
        legacy.append(self.terms_of_use.as_str());
        legacy.append("\n\n");
        legacy.append(END);
        legacy.append("\nDATABASE:         ");
        legacy.append(self.contributor.name.as_str());
        legacy.append("\nDESCRIPTION:      ");
        legacy.append(self.description.as_str());
        legacy.append("\n");
        legacy.append(END);
        legacy.append("\n");
        legacy.append("\n");
        assert(legacy@ =~= preamble(self.url@, self.terms_of_use@) + banner(
            self.contributor.name@,
            self.description@,
        ) + "\n"@);
        let mut legacy = match parse_processes(
            legacy,
            &self.processes,
            self.complete,
            &self.states,
            &self.references,
        ) {
            Ok(l) => l,
            Err(e) => {
                return Err(e);
            },
        };
        legacy.append(END);
        assert(Ok::<Seq<char>, ConvertError>(legacy@) =~= self.legacy_text());
        Ok(legacy)
    }
}

/// Whether a record lists the set `key`.
pub fn lists_exec(info: &ProcessInfo, key: &String) -> (r: bool)
    ensures
        r == lists(*info, key@),
{
    match &info.is_part_of {
        None => false,
        Some(v) => {
            let mut j: usize = 0;
            while j < v.len()
                invariant
                    j <= v@.len(),
                    info.is_part_of == Some(*v),
                    forall|k: int| 0 <= k < j ==> (#[trigger] v@[k])@ != key@,
                decreases v@.len() - j,
            {
                if v[j].eq(key) {
                    assert((info.is_part_of->Some_0@[j as int])@ == key@);
                    return true;
                }
                j = j + 1;
            }
            false
        },
    }
}

/// Whether every record of a process lists the set `key`.
pub fn in_set_exec(p: &Process, key: &String) -> (r: bool)
    ensures
        r == in_set(*p, key@),
{
    let mut i: usize = 0;
    while i < p.info.len()
        invariant
            i <= p.info@.len(),
            forall|k: int| 0 <= k < i ==> lists(#[trigger] p.info@[k], key@),
        decreases p.info@.len() - i,
    {
        if !lists_exec(&p.info[i], key) {
            return false;
        }
        i = i + 1;
    }
    true
}

/// Renders, after `buffer`, the processes that belong to the set `key`.
#[verifier::rlimit(40)]
fn render_members(
    buffer: String,
    processes: &Vec<Process>,
    key: &String,
    complete: bool,
    states: &Vec<(String, State)>,
    references: &Vec<(String, String)>,
) -> (r: Result<String, ConvertError>)
    requires
        processes_wf(processes@),
    ensures
        result_view(r) == after(
            buffer@,
            processes_text(members(processes@, key@), complete, states@, references@),
        ),
{
    let ghost start = buffer@;
    let ghost pred = set_pred(key@);
    let mut out = buffer;
    let mut i: usize = 0;
    while i < processes.len()
        invariant
            i <= processes@.len(),
            processes_wf(processes@),
            pred == set_pred(key@),
            processes_text(members(processes@.take(i as int), key@), complete, states@, references@) matches Ok(t)
                && out@ == start + t,
        decreases processes@.len() - i,
    {
        let ghost prev = members(processes@.take(i as int), key@);
        proof {
            reveal(Seq::filter);
            assert(processes@.take(i + 1).drop_last() =~= processes@.take(i as int));
            assert(processes@.take(i + 1).last() == processes@[i as int]);
            assert(prev.push(processes@[i as int]).drop_last() =~= prev);
        }
        if in_set_exec(&processes[i], key) {
            assert(members(processes@.take(i + 1), key@) == prev.push(processes@[i as int]));
            out = match crate::render::parse_process(out, &processes[i], complete, states, references) {
                Ok(o) => o,
                Err(e) => {
                    proof {
                        let a = processes@.take(i + 1);
                        let b = processes@.skip(i + 1);
                        assert(a + b =~= processes@);
                        Seq::filter_distributes_over_add(a, b, pred);
                        lemma_processes_append(
                            members(a, key@),
                            members(b, key@),
                            complete,
                            states@,
                            references@,
                        );
                    }
                    return Err(e);
                },
            };
        } else {
            assert(members(processes@.take(i + 1), key@) == prev);
        }
        i = i + 1;
        assert(processes_text(members(processes@.take(i as int), key@), complete, states@, references@) matches Ok(t)
            && out@ =~= start + t);
    }
    assert(processes@.take(i as int) =~= processes@);
    Ok(out)
}

/// An error in the first `j` sets is the error of the whole text.
proof fn lemma_sets_prefix(
    sets: Seq<(String, SetHeader)>,
    ps: Seq<Process>,
    states: Seq<(String, State)>,
    refs: Seq<(String, String)>,
    j: int,
)
    requires
        0 <= j <= sets.len(),
        sets_text(sets.take(j), ps, states, refs) is Err,
    ensures
        sets_text(sets, ps, states, refs) == sets_text(sets.take(j), ps, states, refs),
    decreases sets.len(),
{
    if j < sets.len() {
        assert(sets.drop_last().take(j) =~= sets.take(j));
        lemma_sets_prefix(sets.drop_last(), ps, states, refs, j);
    } else {
        assert(sets.take(j) =~= sets);
    }
}

impl Mixture {
    pub open spec fn wf(&self) -> bool {
        processes_wf(self.processes@)
    }

    /// The legacy text of the mixture, or the first error met.
    pub open spec fn legacy_text(&self) -> Result<Seq<char>, ConvertError> {
        around(
            preamble(self.url@, self.terms_of_use@),
            sets_text(self.sets@, self.processes@, self.states@, self.references@),
            END@,
        )
    }

    /// Renders the mixture in the legacy text layout, set after set.
    pub fn into_legacy(self) -> (r: Result<String, ConvertError>)
        requires
            self.wf(),
        ensures
            result_view(r) == self.legacy_text(),
    {
        let mut legacy = String::new();
        legacy.append("PERMLINK:     ");
        legacy.append(self.url.as_str());
        legacy.append("\nTERMS OF USE: ");
        legacy.append(self.terms_of_use.as_str());
        legacy.append("\n\n");
        let ghost start = legacy@;
        let ghost sets = self.sets@;
        let ghost ps = self.processes@;
        let ghost st = self.states@;
        let ghost rf = self.references@;
        let mut j: usize = 0;
        while j < self.sets.len()
            invariant
                j <= sets.len(),
                sets == self.sets@,
                ps == self.processes@,
                st == self.states@,
                rf == self.references@,
                processes_wf(ps),
                sets_text(sets.take(j as int), ps, st, rf) matches Ok(t) && legacy@ == start + t,
            decreases sets.len() - j,
        {
            assert(sets.take(j + 1).drop_last() =~= sets.take(j as int));
            assert(sets.take(j + 1).last() == sets[j as int]);
            let ghost before = legacy@;
            let (key, set) = &self.sets[j];
            legacy.append(END);
            legacy.append("\nDATABASE:         ");
            legacy.append(set.contributor.name.as_str());
            legacy.append("\nDESCRIPTION:      ");
            legacy.append(set.description.as_str());
            legacy.append("\n");
            legacy.append(END);
            legacy.append("\n");
            assert(legacy@ =~= before + banner(set.contributor.name@, set.description@));
            legacy = match render_members(
                legacy,
                &self.processes,
                key,
                set.complete,
                &self.states,
                &self.references,
            ) {
                Ok(l) => l,
                Err(e) => {
                    proof {
                        lemma_sets_prefix(sets, ps, st, rf, j + 1);
                    }
                    return Err(e);
                },
            };
            j = j + 1;
            assert(sets_text(sets.take(j as int), ps, st, rf) matches Ok(t) && legacy@ =~= start + t);
        }
        assert(sets.take(j as int) =~= sets);
        legacy.append(END);
        assert(Ok::<Seq<char>, ConvertError>(legacy@) =~= self.legacy_text());
        Ok(legacy)
    }
}

} // verus!
