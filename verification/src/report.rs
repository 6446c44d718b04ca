//! The scan report: the entries of the open ports, ordered by port.

use vstd::prelude::*;

verus! {

/// The entries are in ascending order of port; equal ports may follow one
/// another.
pub open spec fn ascending(entries: Seq<(u16, Option<String>)>) -> bool {
    forall|i: int, j: int| 0 <= i < j < entries.len() ==> entries[i].0 <= entries[j].0
}

/// The ports of the entries are strictly increasing.
pub open spec fn strictly_ascending(entries: Seq<(u16, Option<String>)>) -> bool {
    forall|i: int, j: int| 0 <= i < j < entries.len() ==> entries[i].0 < entries[j].0
}

/// No port stands in two entries.
pub open spec fn distinct_ports(entries: Seq<(u16, Option<String>)>) -> bool {
    forall|i: int, j: int|
        0 <= i < entries.len() && 0 <= j < entries.len() && i != j ==> entries[i].0
            != entries[j].0
}

/// The test that an entry is for `port`.
pub open spec fn is_for(port: u16) -> spec_fn((u16, Option<String>)) -> bool {
    |entry: (u16, Option<String>)| entry.0 == port
}

/// The entries for `port`, in the order in which they stand.
pub open spec fn entries_for(entries: Seq<(u16, Option<String>)>, port: u16) -> Seq<
    (u16, Option<String>),
> {
    entries.filter(is_for(port))
}

/// `report` is the report made of `results`: the same entries, in ascending
/// order of port, those of one port in the order in which they came in.
pub open spec fn is_report_of(
    report: Seq<(u16, Option<String>)>,
    results: Seq<(u16, Option<String>)>,
) -> bool {
    &&& ascending(report)
    &&& report.to_multiset() == results.to_multiset()
    &&& forall|port: u16| #[trigger] entries_for(report, port) == entries_for(results, port)
}

/// A filter keeps nothing where no element passes.
proof fn lemma_filter_none<A>(s: Seq<A>, pred: spec_fn(A) -> bool)
    requires
        forall|i: int| 0 <= i < s.len() ==> !pred(#[trigger] s[i]),
    ensures
        s.filter(pred).len() == 0,
    decreases s.len(),
{
    reveal(Seq::filter);
    if s.len() > 0 {
        lemma_filter_none(s.drop_last(), pred);
    }
}

/// A filter keeps at least one element where one passes.
proof fn lemma_filter_some<A>(s: Seq<A>, pred: spec_fn(A) -> bool, i: int)
    requires
        0 <= i < s.len(),
        pred(s[i]),
    ensures
        s.filter(pred).len() >= 1,
    decreases s.len(),
{
    reveal(Seq::filter);
    if i < s.len() - 1 {
        lemma_filter_some(s.drop_last(), pred, i);
    }
}

/// A filter keeps at least two elements where two pass.
proof fn lemma_filter_two<A>(s: Seq<A>, pred: spec_fn(A) -> bool, i: int, j: int)
    requires
        0 <= i < j < s.len(),
        pred(s[i]),
        pred(s[j]),
    ensures
        s.filter(pred).len() >= 2,
    decreases s.len(),
{
    reveal(Seq::filter);
    if j < s.len() - 1 {
        lemma_filter_two(s.drop_last(), pred, i, j);
    } else {
        lemma_filter_some(s.drop_last(), pred, i);
    }
}

/// A filter keeps at most one element where no two pass.
proof fn lemma_filter_at_most_one<A>(s: Seq<A>, pred: spec_fn(A) -> bool)
    requires
        forall|i: int, j: int| 0 <= i < j < s.len() ==> !(pred(s[i]) && pred(s[j])),
    ensures
        s.filter(pred).len() <= 1,
    decreases s.len(),
{
    reveal(Seq::filter);
    if s.len() > 0 {
        let front = s.drop_last();
        if pred(s.last()) {
            assert forall|i: int| 0 <= i < front.len() implies !pred(#[trigger] front[i]) by {
                assert(!(pred(s[i]) && pred(s[s.len() - 1])));
            }
            lemma_filter_none(front, pred);
        } else {
            assert forall|i: int, j: int| 0 <= i < j < front.len() implies !(pred(front[i])
                && pred(front[j])) by {
                assert(!(pred(s[i]) && pred(s[j])));
            }
            lemma_filter_at_most_one(front, pred);
        }
    }
}

/// The report of results with distinct ports has strictly increasing
/// ports, so no port stands in it twice.
pub proof fn lemma_report_strictly_ascending(
    report: Seq<(u16, Option<String>)>,
    results: Seq<(u16, Option<String>)>,
)
    requires
        is_report_of(report, results),
        distinct_ports(results),
    ensures
        strictly_ascending(report),
        distinct_ports(report),
{
    assert forall|i: int, j: int| 0 <= i < j < report.len() implies report[i].0
        < report[j].0 by {
        if report[i].0 == report[j].0 {
            let port = report[i].0;
            lemma_filter_two(report, is_for(port), i, j);
            lemma_filter_at_most_one(results, is_for(port));
            assert(entries_for(report, port) == entries_for(results, port));
        }
    }
}

/// Every entry of the report is one of the results, and every result is in
/// the report.
pub proof fn lemma_report_has_the_results(
    report: Seq<(u16, Option<String>)>,
    results: Seq<(u16, Option<String>)>,
)
    requires
        is_report_of(report, results),
    ensures
        report.len() == results.len(),
        forall|entry: (u16, Option<String>)| report.contains(entry) <==> results.contains(entry),
{
    broadcast use vstd::seq_lib::group_to_multiset_ensures;

    assert(results.len() == results.to_multiset().len());
    assert forall|entry: (u16, Option<String>)| report.contains(entry) <==> results.contains(
        entry,
    ) by {
        assert(report.to_multiset().count(entry) == results.to_multiset().count(entry));
    }
}

/// Two runs of entries with strictly increasing ports that hold the same
/// entries are the same run.
proof fn lemma_strictly_ascending_unique(
    first: Seq<(u16, Option<String>)>,
    second: Seq<(u16, Option<String>)>,
)
    requires
        strictly_ascending(first),
        strictly_ascending(second),
        first.to_multiset() == second.to_multiset(),
    ensures
        first == second,
    decreases first.len(),
{
    first.to_multiset_ensures();
    second.to_multiset_ensures();
    if first.len() == 0 {
        assert(first =~= second);
    } else {
        let n = first.len() - 1;
        let a = first[n];
        let b = second[n];
        assert(second.to_multiset().count(a) > 0);
        let ka = choose|k: int| 0 <= k < second.len() && second[k] == a;
        assert(first.to_multiset().count(b) > 0);
        let kb = choose|k: int| 0 <= k < first.len() && first[k] == b;
        assert(ka == n) by {
            if ka < n {
                if kb < n {
                    assert(first[kb].0 < first[n].0);
                }
            }
        }
        assert(first.remove(n) =~= first.drop_last());
        assert(second.remove(n) =~= second.drop_last());
        lemma_strictly_ascending_unique(first.drop_last(), second.drop_last());
        assert(second =~= second.drop_last().push(b));
    }
}

/// The report does not depend on the order in which the probes completed:
/// two runs of results that hold the same entries, no port twice, give the
/// same report.
pub proof fn lemma_report_ignores_completion_order(
    first: Seq<(u16, Option<String>)>,
    second: Seq<(u16, Option<String>)>,
    first_report: Seq<(u16, Option<String>)>,
    second_report: Seq<(u16, Option<String>)>,
)
    requires
        first.to_multiset() == second.to_multiset(),
        distinct_ports(first),
        is_report_of(first_report, first),
        is_report_of(second_report, second),
    ensures
        first_report == second_report,
{
    first.to_multiset_ensures();
    second.to_multiset_ensures();
    first.lemma_multiset_has_no_duplicates();
    second.lemma_multiset_has_no_duplicates_conv();
    assert forall|i: int, j: int|
        0 <= i < second.len() && 0 <= j < second.len() && i != j implies second[i].0
        != second[j].0 by {
        if second[i].0 == second[j].0 {
            assert(first.to_multiset().count(second[i]) > 0);
            let ki = choose|k: int| 0 <= k < first.len() && first[k] == second[i];
            assert(first.to_multiset().count(second[j]) > 0);
            let kj = choose|k: int| 0 <= k < first.len() && first[k] == second[j];
            assert(ki == kj);
        }
    }
    lemma_report_strictly_ascending(first_report, first);
    lemma_report_strictly_ascending(second_report, second);
    lemma_strictly_ascending_unique(first_report, second_report);
}

/// What one more result adds to the entries for `port`: itself where it
/// is for that port.
proof fn lemma_entries_for_push(
    results: Seq<(u16, Option<String>)>,
    entry: (u16, Option<String>),
    port: u16,
)
    ensures
        entries_for(results.push(entry), port) == if entry.0 == port {
            entries_for(results, port).push(entry)
        } else {
            entries_for(results, port)
        },
{
    reveal(Seq::filter);
    assert(results.push(entry).drop_last() =~= results);
}

/// Putting an entry behind all entries of its own and of smaller ports, and
/// before all of greater ports, gives the report of the results with the
/// entry added at their end.
proof fn lemma_placed_entry(
    report: Seq<(u16, Option<String>)>,
    entry: (u16, Option<String>),
    at: int,
)
    requires
        ascending(report),
        0 <= at <= report.len(),
        forall|k: int| 0 <= k < at ==> report[k].0 <= entry.0,
        forall|k: int| at <= k < report.len() ==> entry.0 < report[k].0,
    ensures
        is_report_of(report.insert(at, entry), report.push(entry)),
{
    broadcast use vstd::seq_lib::group_to_multiset_ensures;

    let placed = report.insert(at, entry);
    let front = report.subrange(0, at);
    let back = report.subrange(at, report.len() as int);
    assert(placed.to_multiset() =~= report.push(entry).to_multiset()) by {
        vstd::seq_lib::to_multiset_insert(report, at, entry);
    }
    assert forall|port: u16| #[trigger]
        entries_for(placed, port) == entries_for(report.push(entry), port) by {
        lemma_entries_for_push(report, entry, port);
        lemma_entries_for_push(front, entry, port);
        Seq::filter_distributes_over_add(front.push(entry), back, is_for(port));
        Seq::filter_distributes_over_add(front, back, is_for(port));
        assert(front + back =~= report);
        if entry.0 == port {
            lemma_filter_none(back, is_for(port));
        }
    }
}

/// The report of results to which one more is added is the report of the
/// earlier report with that result added.
proof fn lemma_report_grows(
    report: Seq<(u16, Option<String>)>,
    results: Seq<(u16, Option<String>)>,
    entry: (u16, Option<String>),
    grown: Seq<(u16, Option<String>)>,
)
    requires
        is_report_of(report, results),
        is_report_of(grown, report.push(entry)),
    ensures
        is_report_of(grown, results.push(entry)),
{
    broadcast use vstd::seq_lib::group_to_multiset_ensures;

    assert forall|port: u16| #[trigger]
        entries_for(grown, port) == entries_for(results.push(entry), port) by {
        lemma_entries_for_push(report, entry, port);
        lemma_entries_for_push(results, entry, port);
    }
}

/// Puts `entry` into the report behind the entries of its own and of
/// smaller ports.
fn place(report: &mut Vec<(u16, Option<String>)>, entry: (u16, Option<String>))
    requires
        ascending(old(report)@),
    ensures
        is_report_of(final(report)@, old(report)@.push(entry)),
{
    let mut at: usize = report.len();
    while at > 0 && report[at - 1].0 > entry.0
        invariant
            at <= report.len(),
            report@ == old(report)@,
            forall|k: int| at <= k < report@.len() ==> entry.0 < report@[k].0,
        decreases at,
    {
        at -= 1;
    }
    proof {
        assert forall|k: int| 0 <= k < at implies report@[k].0 <= entry.0 by {
            assert(report@[k].0 <= report@[at - 1].0);
        }
        lemma_placed_entry(report@, entry, at as int);
    }
    report.insert(at, entry);
}

/// The same results, the last one first.
fn turned(results: Vec<(u16, Option<String>)>) -> (back: Vec<(u16, Option<String>)>)
    ensures
        back@.len() == results@.len(),
        forall|k: int| 0 <= k < back@.len() ==> back@[k] == results@[results@.len() - 1 - k],
{
    let mut rest = results;
    let mut back: Vec<(u16, Option<String>)> = Vec::new();
    loop
        invariant
            rest@.len() + back@.len() == results@.len(),
            rest@ == results@.take(rest@.len() as int),
            forall|k: int| 0 <= k < back@.len() ==> back@[k] == results@[results@.len() - 1 - k],
        decreases rest@.len(),
    {
        match rest.pop() {
            Some(entry) => back.push(entry),
            None => return back,
        }
    }
}

/// Makes the scan report of the entries that the probes produced, in
/// whatever order they came in: the same entries in ascending order of
/// port, those of one port in the order in which they came in. Where no port
/// was probed twice the ports of the report are strictly increasing; no
/// results give the empty report. Results that come in nearly in order are
/// placed in little more than one pass.
pub fn finish_report(results: Vec<(u16, Option<String>)>) -> (report: Vec<(u16, Option<String>)>)
    ensures
        is_report_of(report@, results@),
        report@.len() == results@.len(),
        forall|entry: (u16, Option<String>)| report@.contains(entry) <==> results@.contains(entry),
        distinct_ports(results@) ==> strictly_ascending(report@),
{
    let ghost all = results@;
    let mut pending = turned(results);
    let mut report: Vec<(u16, Option<String>)> = Vec::new();
    assert(all.take(0) =~= Seq::<(u16, Option<String>)>::empty());
    assert(is_report_of(report@, all.take(0))) by {
        assert(report@ =~= all.take(0));
    }
    loop
        invariant
            pending@.len() <= all.len(),
            forall|k: int| 0 <= k < pending@.len() ==> pending@[k] == all[all.len() - 1 - k],
            is_report_of(report@, all.take(all.len() - pending@.len())),
        ensures
            is_report_of(report@, all),
        decreases pending@.len(),
    {
        let ghost done = all.len() - pending@.len();
        let ghost before = report@;
        match pending.pop() {
            Some(entry) => {
                place(&mut report, entry);
                proof {
                    lemma_report_grows(before, all.take(done), entry, report@);
                    assert(all.take(done).push(entry) =~= all.take(done + 1));
                }
            },
            None => {
                assert(all.take(done) =~= all);
                break ;
            },
        }
    }
    proof {
        lemma_report_has_the_results(report@, all);
        if distinct_ports(all) {
            lemma_report_strictly_ascending(report@, all);
        }
    }
    report
}

} // verus!
