use vstd::prelude::*;
use vstd::string::*;
use crate::record::{EndpointMonitor, RecordView, host_line, descriptor, tags_field};

verus! {

/// The values of a sequence of records.
pub open spec fn views(s: Seq<EndpointMonitor>) -> Seq<RecordView> {
    s.map_values(|e: EndpointMonitor| e@)
}

/// The whole configuration file: each record's host line followed by a
/// newline, in the order given. An empty snapshot renders to an empty file.
pub open spec fn rendered(s: Seq<RecordView>) -> Seq<char>
    decreases s.len(),
{
    if s.len() == 0 {
        Seq::empty()
    } else {
        rendered(s.drop_last()) + host_line(s.last()) + "\n"@
    }
}

/// The identity of a record.
pub open spec fn identity(r: RecordView) -> (Seq<char>, Seq<char>) {
    (r.namespace, r.name)
}

/// A snapshot holds each identity at most once.
pub open spec fn unique_identities(s: Seq<RecordView>) -> bool {
    s.map_values(|r: RecordView| identity(r)).no_duplicates()
}

/// How many times `c` occurs in `s`.
pub open spec fn occurrences(s: Seq<char>, c: char) -> nat
    decreases s.len(),
{
    if s.len() == 0 {
        0
    } else {
        occurrences(s.drop_last(), c) + if s.last() == c {
            1nat
        } else {
            0nat
        }
    }
}

pub open spec fn free_of_newline(s: Seq<char>) -> bool {
    forall|i: int| 0 <= i < s.len() ==> s[i] != '\n'
}

/// No field of the record holds a line break.
pub open spec fn single_line_fields(r: RecordView) -> bool {
    &&& free_of_newline(r.namespace)
    &&& free_of_newline(r.name)
    &&& free_of_newline(r.url)
    &&& free_of_newline(descriptor(r))
    &&& free_of_newline(tags_field(r))
}

/// Renders the records into the configuration file's text.
pub fn render_config(records: &Vec<EndpointMonitor>) -> (r: String)
    ensures
        r@ == rendered(views(records@)),
{
    let mut out = String::new();
    let n = records.len();
    let mut i: usize = 0;
    while i < n
        invariant
            n == records@.len(),
            i <= n,
            out@ == rendered(views(records@).take(i as int)),
        decreases n - i,
    {
        let line = records[i].as_string();
        out.append(line.as_str());
        out.append("\n");
        proof {
            let v = views(records@);
            assert(v.take(i + 1).drop_last() =~= v.take(i as int));
            assert(v.take(i + 1).last() == records@[i as int]@);
        }
        i = i + 1;
    }
    proof {
        assert(views(records@).take(n as int) =~= views(records@));
    }
    out
}

proof fn lemma_occurrences_concat(a: Seq<char>, b: Seq<char>, c: char)
    ensures
        occurrences(a + b, c) == occurrences(a, c) + occurrences(b, c),
    decreases b.len(),
{
    if b.len() == 0 {
        assert(a + b =~= a);
    } else {
        assert((a + b).drop_last() =~= a + b.drop_last());
        lemma_occurrences_concat(a, b.drop_last(), c);
    }
}

proof fn lemma_no_occurrence(s: Seq<char>)
    requires
        free_of_newline(s),
    ensures
        occurrences(s, '\n') == 0,
    decreases s.len(),
{
    if s.len() > 0 {
        lemma_no_occurrence(s.drop_last());
    }
}

proof fn lemma_host_line_single(r: RecordView)
    requires
        single_line_fields(r),
    ensures
        free_of_newline(host_line(r)),
{
    reveal_strlit("0.0.0.0 ");
    reveal_strlit("__");
    reveal_strlit(" # noconn ");
    reveal_strlit(" ");
    let line = host_line(r);
    assert forall|i: int| 0 <= i < line.len() implies line[i] != '\n' by {
        let p1 = "0.0.0.0 "@;
        let p2 = "__"@;
        let p3 = " # noconn "@;
        let p4 = " "@;
        assert(free_of_newline(p1));
        assert(free_of_newline(p2));
        assert(free_of_newline(p3));
        assert(free_of_newline(p4));
    }
}

/// Rendering a snapshot whose fields hold no line breaks yields exactly one
/// line per record; when the identities are unique that is one line per
/// identity.
pub proof fn lemma_one_line_per_record(s: Seq<RecordView>)
    requires
        forall|i: int| 0 <= i < s.len() ==> single_line_fields(#[trigger] s[i]),
    ensures
        occurrences(rendered(s), '\n') == s.len(),
        unique_identities(s) ==> occurrences(rendered(s), '\n') == s.map_values(
            |r: RecordView| identity(r),
        ).to_set().len(),
    decreases s.len(),
{
    if s.len() > 0 {
        let rest = s.drop_last();
        assert forall|i: int| 0 <= i < rest.len() implies single_line_fields(#[trigger] rest[i]) by {
            assert(rest[i] == s[i]);
        }
        lemma_one_line_per_record(rest);
        lemma_host_line_single(s.last());
        lemma_no_occurrence(host_line(s.last()));
        reveal_strlit("\n");
        let nl = "\n"@;
        assert(occurrences(nl, '\n') == 1) by {
            assert(nl.len() == 1);
            assert(nl.last() == '\n');
            assert(nl.drop_last() =~= Seq::<char>::empty());
            assert(occurrences(Seq::<char>::empty(), '\n') == 0);
        }
        lemma_occurrences_concat(rendered(rest), host_line(s.last()), '\n');
        lemma_occurrences_concat(rendered(rest) + host_line(s.last()), nl, '\n');
    }
    if unique_identities(s) {
        s.map_values(|r: RecordView| identity(r)).unique_seq_to_set();
    }
}

/// Rendering is a function of the records' values: two snapshots with the
/// same records render to the same text, so rendering one snapshot twice
/// gives identical output.
pub proof fn lemma_render_deterministic(a: Seq<EndpointMonitor>, b: Seq<EndpointMonitor>)
    requires
        views(a) == views(b),
    ensures
        rendered(views(a)) == rendered(views(b)),
{
}

} // verus!
