//! Which cases of a suite are run.
//!
//! A suite announces every case before it starts on it, so the last announcement
//! of a suite that died names the case to look at. Asked for by that name, the
//! suite runs that case and no other.

use vstd::prelude::*;
use crate::numbers::{dec, decimal};
use crate::report::{one_check, Outcome, Report, ReportView};
use crate::text::{same, texts, three};

verus! {

/// A filter lets a case through: every case when there is none.
pub open spec fn lets_through(only: Option<Seq<char>>, name: Seq<char>) -> bool {
    match only {
        Some(filter) => name == filter,
        None => true,
    }
}

pub open spec fn optional_text(s: Option<&str>) -> Option<Seq<char>> {
    match s {
        Some(t) => Some(t@),
        None => None,
    }
}

/// Whether a case is run.
pub fn wanted(only: Option<&str>, case: &str) -> (r: bool)
    ensures
        r == lets_through(optional_text(only), case@),
{
    match only {
        Some(filter) => same(case, filter),
        None => true,
    }
}

/// A filter lets some case of a list through.
pub open spec fn lets_any_through(only: Option<Seq<char>>, names: Seq<Seq<char>>) -> bool {
    exists|i: int| 0 <= i < names.len() && lets_through(only, #[trigger] names[i])
}

/// Whether any case of a list is run.
pub fn any_wanted(only: Option<&str>, names: &Vec<String>) -> (r: bool)
    ensures
        r == lets_any_through(optional_text(only), texts(names@)),
{
    let mut i: usize = 0;
    while i < names.len()
        invariant
            i <= names@.len(),
            forall|k: int|
                0 <= k < i ==> !lets_through(optional_text(only), #[trigger] texts(names@)[k]),
        decreases names@.len() - i,
    {
        if wanted(only, names[i].as_str()) {
            assert(lets_through(optional_text(only), texts(names@)[i as int]));
            return true;
        }
        i += 1;
    }
    false
}

/// The report after a filter that let no case of a suite through.
pub open spec fn after_no_match(r: ReportView, total: nat) -> ReportView {
    r.skip("cases"@, "no case matched the --only filter ("@ + dec(total) + " cases)"@)
}

/// Whether a suite with these cases has anything to run; where it has not, that is
/// recorded, so that a misspelt name cannot look like a case that passed.
pub fn anything_to_run(report: &mut Report, only: Option<&str>, names: &Vec<String>) -> (r: bool)
    ensures
        r == lets_any_through(optional_text(only), texts(names@)),
        final(report)@ == (if r {
            old(report)@
        } else {
            after_no_match(old(report)@, names@.len())
        }),
{
    if any_wanted(only, names) {
        return true;
    }
    report.skip(
        "cases",
        three(
            "no case matched the --only filter (",
            decimal(names.len() as u64).as_str(),
            " cases)",
        ).as_str(),
    );
    false
}

/// No two cases share a name.
pub open spec fn all_differ(names: Seq<Seq<char>>) -> bool {
    forall|i: int, j: int|
        0 <= i < j < names.len() ==> #[trigger] names[i] != #[trigger] names[j]
}

/// Where no two cases share a name, asking for one of them lets that one through
/// and no other.
pub proof fn a_name_lets_one_case_through(names: Seq<Seq<char>>, i: int, k: int)
    requires
        all_differ(names),
        0 <= i < names.len(),
        0 <= k < names.len(),
    ensures
        lets_through(Some(names[i]), names[k]) <==> k == i,
        lets_any_through(Some(names[i]), names),
{
    assert(lets_through(Some(names[i]), names[i]));
    if k < i {
        assert(names[k] != names[i]);
    } else if i < k {
        assert(names[i] != names[k]);
    }
}

/// Without a filter every case runs, with one exactly the case of that name; a filter
/// that lets nothing through is recorded as not checked.
pub proof fn a_filter_is_a_whole_name(r: ReportView, name: Seq<char>, filter: Seq<char>, total: nat)
    ensures
        lets_through(None, name),
        lets_through(Some(filter), name) <==> filter == name,
        one_check(r, after_no_match(r, total), "cases"@, Outcome::Skip),
{
}

} // verus!
