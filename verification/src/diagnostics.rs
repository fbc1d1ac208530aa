//! Environment diagnostics: which entries of a catalog of known-conflicting
//! services are flagged for the operator, and which lines of the resolver
//! configuration are shown. The catalog itself is configuration handed in by
//! the caller, so a different catalog — or a fake one under test — slots in
//! unchanged.

use vstd::prelude::*;
use crate::status::{clone_status, ServiceStatus, StatusView};
use crate::text::{contains_pat, contains_pattern, copy_range, lemma_chars_deep_view};

verus! {

/// The abstract value of one diagnostics catalog entry.
pub struct CatalogEntryView {
    pub name: Seq<char>,
    pub status: StatusView,
}

/// One catalog entry once its service has been queried: the service's name
/// and its normalized status.
#[derive(Debug)]
pub struct CatalogEntry {
    pub name: Vec<char>,
    pub status: ServiceStatus,
}

impl DeepView for CatalogEntry {
    type V = CatalogEntryView;

    open spec fn deep_view(&self) -> CatalogEntryView {
        CatalogEntryView { name: self.name@, status: self.status@ }
    }
}

/// An entry is flagged when its service is registered at all, running or
/// not: the registration itself is the conflict signal, never the running
/// state.
pub open spec fn flagged(e: CatalogEntryView) -> bool {
    !(e.status is NotFound)
}

/// The entries a diagnostics pass reports: exactly the flagged ones, in
/// catalog order.
pub open spec fn conflict_report_spec(entries: Seq<CatalogEntryView>) -> Seq<CatalogEntryView>
    decreases entries.len(),
{
    if entries.len() == 0 {
        Seq::empty()
    } else {
        let rest = conflict_report_spec(entries.drop_last());
        if flagged(entries.last()) {
            rest.push(entries.last())
        } else {
            rest
        }
    }
}

/// Whether one queried entry is flagged.
pub fn is_flagged(e: &CatalogEntry) -> (b: bool)
    ensures
        b == flagged(e.deep_view()),
{
    match &e.status {
        ServiceStatus::NotFound => false,
        _ => true,
    }
}

/// Clones one catalog entry, field for field.
fn clone_entry(e: &CatalogEntry) -> (r: CatalogEntry)
    ensures
        r.deep_view() == e.deep_view(),
{
    let name = copy_range(&e.name, 0, e.name.len());
    proof {
        assert(name@ =~= e.name@);
    }
    CatalogEntry { name, status: clone_status(&e.status) }
}

/// Filters a queried catalog down to the entries to report: exactly those
/// whose service exists, in catalog order.
pub fn conflict_report(entries: &Vec<CatalogEntry>) -> (r: Vec<CatalogEntry>)
    ensures
        r.deep_view() == conflict_report_spec(entries.deep_view()),
{
    let mut r: Vec<CatalogEntry> = Vec::new();
    let mut i: usize = 0;
    while i < entries.len()
        invariant
            i <= entries@.len(),
            r.deep_view() == conflict_report_spec(entries.deep_view().subrange(0, i as int)),
        decreases entries@.len() - i,
    {
        proof {
            let prefix = entries.deep_view().subrange(0, i as int);
            let next = entries.deep_view().subrange(0, i + 1);
            assert(next.drop_last() =~= prefix);
            assert(next.last() == entries.deep_view()[i as int]);
        }
        if is_flagged(&entries[i]) {
            let copied = clone_entry(&entries[i]);
            r.push(copied);
            proof {
                assert(r.deep_view() =~= conflict_report_spec(
                    entries.deep_view().subrange(0, i + 1),
                ));
            }
        } else {
            proof {
                assert(r.deep_view() =~= conflict_report_spec(
                    entries.deep_view().subrange(0, i + 1),
                ));
            }
        }
        i += 1;
    }
    proof {
        assert(entries.deep_view().subrange(0, entries.deep_view().len() as int)
            =~= entries.deep_view());
    }
    r
}

/// Every reported entry is flagged: a service the manager does not know at
/// all is never reported.
pub proof fn lemma_report_only_flagged(entries: Seq<CatalogEntryView>, k: int)
    requires
        0 <= k < conflict_report_spec(entries).len(),
    ensures
        flagged(conflict_report_spec(entries)[k]),
    decreases entries.len(),
{
    if entries.len() > 0 {
        let rest = conflict_report_spec(entries.drop_last());
        if flagged(entries.last()) {
            if k < rest.len() {
                lemma_report_only_flagged(entries.drop_last(), k);
            }
        } else {
            lemma_report_only_flagged(entries.drop_last(), k);
        }
    }
}

/// Every flagged entry is reported: together with the soundness lemma, the
/// report holds exactly the catalog's flagged entries.
pub proof fn lemma_report_keeps_flagged(entries: Seq<CatalogEntryView>, i: int)
    requires
        0 <= i < entries.len(),
        flagged(entries[i]),
    ensures
        conflict_report_spec(entries).contains(entries[i]),
    decreases entries.len(),
{
    let report = conflict_report_spec(entries);
    let rest = conflict_report_spec(entries.drop_last());
    if i == entries.len() - 1 {
        assert(report[rest.len() as int] == entries[i]);
    } else {
        lemma_report_keeps_flagged(entries.drop_last(), i);
        let e = entries.drop_last()[i];
        let k = choose|k: int| 0 <= k < rest.len() && rest[k] == e;
        assert(report[k] == entries[i]);
    }
}

/// A catalog with nothing registered yields an empty report.
pub proof fn lemma_nothing_registered_nothing_reported(entries: Seq<CatalogEntryView>)
    requires
        forall|i: int| 0 <= i < entries.len() ==> !flagged(#[trigger] entries[i]),
    ensures
        conflict_report_spec(entries).len() == 0,
    decreases entries.len(),
{
    if entries.len() > 0 {
        assert(forall|i: int| 0 <= i < entries.drop_last().len() ==> #[trigger] entries
            .drop_last()[i] == entries[i]);
        lemma_nothing_registered_nothing_reported(entries.drop_last());
    }
}

/// The label that marks a resolver line in the host-configuration output.
pub open spec fn dns_label() -> Seq<char> {
    seq!['D', 'N', 'S', ' ', 'S', 'e', 'r', 'v', 'e', 'r', 's']
}

/// The resolver label, as a vector.
pub fn dns_label_chars() -> (r: Vec<char>)
    ensures
        r@ == dns_label(),
{
    let mut r: Vec<char> = Vec::new();
    r.push('D');
    r.push('N');
    r.push('S');
    r.push(' ');
    r.push('S');
    r.push('e');
    r.push('r');
    r.push('v');
    r.push('e');
    r.push('r');
    r.push('s');
    proof {
        assert(r@ =~= dns_label());
    }
    r
}

/// The lines of the host-configuration output that are shown verbatim:
/// exactly those carrying the resolver label, in their original order.
pub open spec fn dns_lines_spec(lines: Seq<Seq<char>>) -> Seq<Seq<char>>
    decreases lines.len(),
{
    if lines.len() == 0 {
        Seq::empty()
    } else {
        let rest = dns_lines_spec(lines.drop_last());
        if contains_pat(lines.last(), dns_label()) {
            rest.push(lines.last())
        } else {
            rest
        }
    }
}

/// Filters the host-configuration output down to its resolver lines.
pub fn filter_dns_lines(lines: &Vec<Vec<char>>) -> (r: Vec<Vec<char>>)
    ensures
        r.deep_view() == dns_lines_spec(lines.deep_view()),
{
    let label = dns_label_chars();
    let mut r: Vec<Vec<char>> = Vec::new();
    let mut i: usize = 0;
    while i < lines.len()
        invariant
            i <= lines@.len(),
            label@ == dns_label(),
            r.deep_view() == dns_lines_spec(lines.deep_view().subrange(0, i as int)),
        decreases lines@.len() - i,
    {
        proof {
            let prefix = lines.deep_view().subrange(0, i as int);
            let next = lines.deep_view().subrange(0, i + 1);
            assert(next.drop_last() =~= prefix);
            assert(next.last() == lines.deep_view()[i as int]);
            lemma_chars_deep_view(&lines@[i as int]);
        }
        if contains_pattern(&lines[i], &label) {
            let copied = copy_range(&lines[i], 0, lines[i].len());
            proof {
                lemma_chars_deep_view(&copied);
                assert(copied.deep_view() =~= lines.deep_view()[i as int]);
            }
            r.push(copied);
            proof {
                assert(r.deep_view() =~= dns_lines_spec(lines.deep_view().subrange(0, i + 1)));
            }
        } else {
            proof {
                assert(r.deep_view() =~= dns_lines_spec(lines.deep_view().subrange(0, i + 1)));
            }
        }
        i += 1;
    }
    proof {
        assert(lines.deep_view().subrange(0, lines.deep_view().len() as int)
            =~= lines.deep_view());
    }
    r
}

} // verus!
