use vstd::prelude::*;

use crate::decimal::{append_plain, append_sci, Decimal};
use crate::error::ConvertError;
use crate::lookup::{find_key, resolve};
use crate::species::is_mass_tag;
use crate::text::{trim_text, trimmed};
use crate::types::{LUT, ProcessInfo, ReferenceRef};

verus! {

/// The line drawn above and below a data table.
pub const DASHES: &'static str = "\n-----------------------------";

pub open spec fn mass_ratio_of(info: ProcessInfo) -> Option<Decimal> {
    match info.parameters {
        Some(p) => p.mass_ratio,
        None => None,
    }
}

pub open spec fn weight_ratio_of(info: ProcessInfo) -> Option<Decimal> {
    match info.parameters {
        Some(p) => p.statistical_weight_ratio,
        None => None,
    }
}

/// All numbers of a record are well formed.
pub open spec fn info_wf(info: ProcessInfo) -> bool {
    &&& info.threshold.wf()
    &&& mass_ratio_of(info) matches Some(m) ==> m.wf()
    &&& weight_ratio_of(info) matches Some(w) ==> w.wf()
    &&& forall|i: int|
        0 <= i < info.data.values@.len() ==> (#[trigger] info.data.values@[i]).0.wf()
            && info.data.values@[i].1.wf()
}

/// The value that governs a process: the mass ratio for elastic and
/// effective processes, else the threshold.
pub open spec fn governing(tag: Seq<char>, info: ProcessInfo) -> Option<Decimal> {
    if is_mass_tag(tag) {
        mass_ratio_of(info)
    } else {
        Some(info.threshold)
    }
}

/// The `PARAM.:` line of a record whose governing value is present.
pub open spec fn param_line(
    tag: Seq<char>,
    reversible: bool,
    info: ProcessInfo,
    complete: bool,
) -> Seq<char> {
    param_value(tag, info) + param_suffix(reversible, info, complete)
}

/// One `COMMENT:` line per text, each trimmed.
pub open spec fn comment_lines(cs: Seq<String>) -> Seq<char>
    decreases cs.len(),
{
    if cs.len() == 0 {
        seq![]
    } else {
        comment_lines(cs.drop_last()) + "\nCOMMENT: "@ + trimmed(cs.last()@)
    }
}

/// The comments that a record carries itself.
pub open spec fn own_comments(info: ProcessInfo) -> Seq<char> {
    match info.comments {
        Some(cs) => comment_lines(cs@),
        None => seq![],
    }
}

/// The `COMMENT:` lines of one reference: its resolved text, then its own
/// comments.
pub open spec fn reference_text(r: ReferenceRef, refs: Seq<(String, String)>) -> Result<
    Seq<char>,
    ConvertError,
> {
    match r {
        ReferenceRef::Id(k) => match resolve(refs, k@) {
            Some(t) => Ok("\nCOMMENT: "@ + trimmed(t@)),
            None => Err(ConvertError::UnresolvedReference(k)),
        },
        ReferenceRef::WithComment(w) => match resolve(refs, w.id@) {
            Some(t) => Ok("\nCOMMENT: "@ + trimmed(t@) + comment_lines(w.comments@)),
            None => Err(ConvertError::UnresolvedReference(w.id)),
        },
    }
}

pub open spec fn references_text(rs: Seq<ReferenceRef>, refs: Seq<(String, String)>) -> Result<
    Seq<char>,
    ConvertError,
>
    decreases rs.len(),
{
    if rs.len() == 0 {
        Ok(seq![])
    } else {
        match references_text(rs.drop_last(), refs) {
            Err(e) => Err(e),
            Ok(t) => match reference_text(rs.last(), refs) {
                Err(e) => Err(e),
                Ok(u) => Ok(t + u),
            },
        }
    }
}

/// The references can only fail for want of a reference text.
pub proof fn lemma_reference_errors(rs: Seq<ReferenceRef>, refs: Seq<(String, String)>)
    ensures
        references_text(rs, refs) matches Err(e) ==> e is UnresolvedReference,
    decreases rs.len(),
{
    if rs.len() > 0 {
        lemma_reference_errors(rs.drop_last(), refs);
    }
}

/// One line per data pair, both values in scientific notation.
pub open spec fn rows_text(values: Seq<(Decimal, Decimal)>) -> Seq<char>
    decreases values.len(),
{
    if values.len() == 0 {
        seq![]
    } else {
        rows_text(values.drop_last()) + "\n "@ + values.last().0.sci_text() + "\t"@
            + values.last().1.sci_text()
    }
}

/// The column header, the rows between two dashed lines, and a newline.
pub open spec fn table_text(data: LUT) -> Seq<char> {
    "\nCOLUMNS: "@ + data.labels.0@ + " ("@ + data.units.0@ + ") | "@ + data.labels.1@ + " ("@
        + data.units.1@ + ")"@ + DASHES@ + rows_text(data.values@) + DASHES@ + "\n"@
}

/// The first part of the `PARAM.:` line: the governing quantity.
pub open spec fn param_value(tag: Seq<char>, info: ProcessInfo) -> Seq<char> {
    if is_mass_tag(tag) {
        "\nPARAM.:  m/M = "@ + mass_ratio_of(info).unwrap().sci_text()
    } else {
        "\nPARAM.:  E = "@ + info.threshold.plain_text() + " "@ + info.data.units.0@
    }
}

/// The suffixes of the `PARAM.:` line: the statistical weight ratio of a
/// reversible process, and the completeness mark.
pub open spec fn param_suffix(reversible: bool, info: ProcessInfo, complete: bool) -> Seq<char> {
    (if reversible && weight_ratio_of(info) is Some {
        ", g1/g0 = "@ + weight_ratio_of(info).unwrap().plain_text()
    } else {
        seq![]
    }) + (if complete {
        ", complete set"@
    } else {
        seq![]
    })
}

pub fn append_param_value(out: &mut String, tag: &String, info: &ProcessInfo)
    requires
        info_wf(*info),
        governing(tag@, *info) is Some,
    ensures
        final(out)@ == old(out)@ + param_value(tag@, *info),
{
    let ghost start = out@;
    if crate::species::is_mass_tag_exec(tag) {
        out.append("\nPARAM.:  m/M = ");
        match &info.parameters {
            Some(p) => match &p.mass_ratio {
                Some(m) => append_sci(out, m),
                None => {},
            },
            None => {},
        }
    } else {
        out.append("\nPARAM.:  E = ");
        append_plain(out, &info.threshold);
        out.append(" ");
        out.append(info.data.units.0.as_str());
    }
    assert(out@ =~= start + param_value(tag@, *info));
}

pub fn append_param_suffix(out: &mut String, reversible: bool, info: &ProcessInfo, complete: bool)
    requires
        info_wf(*info),
    ensures
        final(out)@ == old(out)@ + param_suffix(reversible, *info, complete),
{
    let ghost start = out@;
    if reversible {
        match &info.parameters {
            Some(p) => match &p.statistical_weight_ratio {
                Some(w) => {
                    out.append(", g1/g0 = ");
                    append_plain(out, w);
                },
                None => {},
            },
            None => {},
        }
    }
    if complete {
        out.append(", complete set");
    }
    assert(out@ =~= start + param_suffix(reversible, *info, complete));
}

pub fn append_comments(out: &mut String, cs: &Vec<String>)
    ensures
        final(out)@ == old(out)@ + comment_lines(cs@),
{
    let ghost start = out@;
    let mut i: usize = 0;
    while i < cs.len()
        invariant
            i <= cs@.len(),
            out@ == start + comment_lines(cs@.take(i as int)),
        decreases cs@.len() - i,
    {
        assert(cs@.take(i + 1).drop_last() =~= cs@.take(i as int));
        out.append("\nCOMMENT: ");
        let t = trim_text(cs[i].as_str());
        out.append(t.as_str());
        i = i + 1;
        assert(out@ =~= start + comment_lines(cs@.take(i as int)));
    }
    assert(cs@.take(i as int) =~= cs@);
}

/// Appends the resolved text of a reference key as a comment line.
fn append_reference_key(out: &mut String, key: &String, refs: &Vec<(String, String)>) -> (r:
    Result<(), ConvertError>)
    ensures
        r is Ok ==> (resolve(refs@, key@) matches Some(t) && final(out)@ == old(out)@
            + "\nCOMMENT: "@ + trimmed(t@)),
        r is Err ==> resolve(refs@, key@) is None && r == Err::<(), ConvertError>(
            ConvertError::UnresolvedReference(*key),
        ),
{
    match find_key(refs, key) {
        Some(i) => {
            out.append("\nCOMMENT: ");
            let t = trim_text(refs[i].1.as_str());
            out.append(t.as_str());
            Ok(())
        },
        None => Err(ConvertError::UnresolvedReference(key.clone())),
    }
}

/// An error in the first `j` references is the error of the whole list.
proof fn lemma_references_prefix(rs: Seq<ReferenceRef>, refs: Seq<(String, String)>, j: int)
    requires
        0 <= j <= rs.len(),
        references_text(rs.take(j), refs) is Err,
    ensures
        references_text(rs, refs) == references_text(rs.take(j), refs),
    decreases rs.len(),
{
    if j < rs.len() {
        assert(rs.drop_last().take(j) =~= rs.take(j));
        lemma_references_prefix(rs.drop_last(), refs, j);
    } else {
        assert(rs.take(j) =~= rs);
    }
}

pub fn append_references(out: &mut String, rs: &Vec<ReferenceRef>, refs: &Vec<(String, String)>) -> (r:
    Result<(), ConvertError>)
    ensures
        r is Ok ==> (references_text(rs@, refs@) matches Ok(t) && final(out)@ == old(out)@ + t),
        r matches Err(e) ==> references_text(rs@, refs@) == Err::<Seq<char>, ConvertError>(e),
{
    let ghost start = out@;
    let mut i: usize = 0;
    while i < rs.len()
        invariant
            i <= rs@.len(),
            references_text(rs@.take(i as int), refs@) matches Ok(t) && out@ == start + t,
        decreases rs@.len() - i,
    {
        assert(rs@.take(i + 1).drop_last() =~= rs@.take(i as int));
        assert(rs@.take(i + 1).last() == rs@[i as int]);
        match &rs[i] {
            ReferenceRef::Id(k) => {
                if let Err(e) = append_reference_key(out, k, refs) {
                    proof {
                        lemma_references_prefix(rs@, refs@, i + 1);
                    }
                    return Err(e);
                }
            },
            ReferenceRef::WithComment(w) => {
                if let Err(e) = append_reference_key(out, &w.id, refs) {
                    proof {
                        lemma_references_prefix(rs@, refs@, i + 1);
                    }
                    return Err(e);
                }
                append_comments(out, &w.comments);
            },
        }
        i = i + 1;
        assert(references_text(rs@.take(i as int), refs@) matches Ok(t) && out@ =~= start + t);
    }
    assert(rs@.take(i as int) =~= rs@);
    Ok(())
}

pub fn append_table(out: &mut String, data: &LUT)
    requires
        forall|i: int|
            0 <= i < data.values@.len() ==> (#[trigger] data.values@[i]).0.wf()
                && data.values@[i].1.wf(),
    ensures
        final(out)@ == old(out)@ + table_text(*data),
{
    let ghost start = out@;
    out.append("\nCOLUMNS: ");
    out.append(data.labels.0.as_str());
    out.append(" (");
    out.append(data.units.0.as_str());
    out.append(") | ");
    out.append(data.labels.1.as_str());
    out.append(" (");
    out.append(data.units.1.as_str());
    out.append(")");
    out.append(DASHES);
    let ghost mid = out@;
    let mut i: usize = 0;
    while i < data.values.len()
        invariant
            i <= data.values@.len(),
            forall|j: int|
                0 <= j < data.values@.len() ==> (#[trigger] data.values@[j]).0.wf()
                    && data.values@[j].1.wf(),
            out@ == mid + rows_text(data.values@.take(i as int)),
        decreases data.values@.len() - i,
    {
        assert(data.values@.take(i + 1).drop_last() =~= data.values@.take(i as int));
        let (x, y) = &data.values[i];
        out.append("\n ");
        append_sci(out, x);
        out.append("\t");
        append_sci(out, y);
        i = i + 1;
        assert(out@ =~= mid + rows_text(data.values@.take(i as int)));
    }
    assert(data.values@.take(i as int) =~= data.values@);
    out.append(DASHES);
    out.append("\n");
    assert(out@ =~= start + table_text(*data));
}

/// Whether all numbers of a record are well formed.
pub fn check_info(info: &ProcessInfo) -> (r: bool)
    ensures
        r == info_wf(*info),
{
    if !info.threshold.is_wf() {
        return false;
    }
    match &info.parameters {
        Some(p) => {
            match &p.mass_ratio {
                Some(m) => if !m.is_wf() {
                    return false;
                },
                None => {},
            }
            match &p.statistical_weight_ratio {
                Some(w) => if !w.is_wf() {
                    return false;
                },
                None => {},
            }
        },
        None => {},
    }
    let values = &info.data.values;
    let mut i: usize = 0;
    while i < values.len()
        invariant
            i <= values@.len(),
            values == &info.data.values,
            forall|j: int| 0 <= j < i ==> (#[trigger] values@[j]).0.wf() && values@[j].1.wf(),
        decreases values@.len() - i,
    {
        if !values[i].0.is_wf() || !values[i].1.is_wf() {
            return false;
        }
        i = i + 1;
    }
    true
}

} // verus!
