use vstd::prelude::*;
use vstd::string::*;

verus! {

/// What an endpoint monitor declares: the url to probe, an optional content
/// check and optional free-form tags.
pub struct EndpointMonitorSpec {
    pub url: String,
    pub content_check: Option<String>,
    pub tags: Option<String>,
}

/// One endpoint monitor record, identified by `(namespace, name)`.
pub struct EndpointMonitor {
    pub namespace: String,
    pub name: String,
    pub spec: EndpointMonitorSpec,
}

/// The mathematical value of a record.
pub struct RecordView {
    pub namespace: Seq<char>,
    pub name: Seq<char>,
    pub url: Seq<char>,
    pub content_check: Option<Seq<char>>,
    pub tags: Option<Seq<char>>,
}

pub open spec fn opt_view(o: Option<String>) -> Option<Seq<char>> {
    match o {
        Some(s) => Some(s@),
        None => None,
    }
}

impl View for EndpointMonitor {
    type V = RecordView;

    open spec fn view(&self) -> RecordView {
        RecordView {
            namespace: self.namespace@,
            name: self.name@,
            url: self.spec.url@,
            content_check: opt_view(self.spec.content_check),
            tags: opt_view(self.spec.tags),
        }
    }
}

/// The probe descriptor: the url alone, or `cont;<url>;<check>` when a
/// content check is declared.
pub open spec fn descriptor(r: RecordView) -> Seq<char> {
    match r.content_check {
        Some(c) => "cont;"@ + r.url + ";"@ + c,
        None => r.url,
    }
}

/// The tags field, empty when no tags are declared.
pub open spec fn tags_field(r: RecordView) -> Seq<char> {
    match r.tags {
        Some(t) => t,
        None => Seq::empty(),
    }
}

/// The host line of a record, without its line terminator:
/// `0.0.0.0 <namespace>__<name> # noconn <descriptor> <tags>`.
pub open spec fn host_line(r: RecordView) -> Seq<char> {
    "0.0.0.0 "@ + r.namespace + "__"@ + r.name + " # noconn "@ + descriptor(r) + " "@
        + tags_field(r)
}

impl EndpointMonitor {
    /// The host line of this record, without a line terminator.
    pub fn as_string(&self) -> (r: String)
        ensures
            r@ == host_line(self@),
    {
        let mut out = String::from_str("0.0.0.0 ");
        out.append(self.namespace.as_str());
        out.append("__");
        out.append(self.name.as_str());
        out.append(" # noconn ");
        match &self.spec.content_check {
            Some(c) => {
                out.append("cont;");
                out.append(self.spec.url.as_str());
                out.append(";");
                out.append(c.as_str());
            },
            None => {
                out.append(self.spec.url.as_str());
            },
        }
        out.append(" ");
        match &self.spec.tags {
            Some(t) => {
                out.append(t.as_str());
            },
            None => {},
        }
        proof {
            assert(out@ =~= host_line(self@));
        }
        out
    }
}

} // verus!
