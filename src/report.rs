//! Report kinds, report items and their field lists.
use vstd::prelude::*;
use vstd::utf8::encode_utf8;

verus! {

/// The identity of a record shape. Each kind is routed on its own.
#[derive(Clone, Copy, Debug, PartialEq, Eq, Structural)]
pub enum ReportKind {
    Incidence,
    Death,
}

/// New cases counted by one producer at one point in time.
#[derive(Clone, Debug)]
pub struct Incidence {
    pub context_name: String,
    pub counter: usize,
    pub timestamp: String,
    pub new_cases: u32,
}

/// Deaths counted by one producer at one point in time.
#[derive(Clone, Debug)]
pub struct Death {
    pub context_name: String,
    pub counter: usize,
    pub timestamp: String,
    pub deaths: u32,
}

/// A report of any kind, as it travels through a channel.
#[derive(Clone, Debug)]
pub enum ReportItem {
    Incidence(Incidence),
    Death(Death),
}

impl ReportItem {
    pub open spec fn spec_kind(&self) -> ReportKind {
        match self {
            ReportItem::Incidence(_) => ReportKind::Incidence,
            ReportItem::Death(_) => ReportKind::Death,
        }
    }

    /// The kind this item is routed by.
    #[verifier::when_used_as_spec(spec_kind)]
    pub fn kind(&self) -> (k: ReportKind)
        ensures
            k == self.spec_kind(),
    {
        match self {
            ReportItem::Incidence(_) => ReportKind::Incidence,
            ReportItem::Death(_) => ReportKind::Death,
        }
    }

    /// The item's fields, in column order, as bytes.
    pub fn fields(&self) -> (r: Vec<Vec<u8>>)
        ensures
            r.deep_view() == record_fields(*self),
    {
        let mut r: Vec<Vec<u8>> = Vec::new();
        match self {
            ReportItem::Incidence(i) => {
                r.push(utf8_bytes(i.context_name.as_str()));
                r.push(decimal_bytes(i.counter as u64));
                r.push(utf8_bytes(i.timestamp.as_str()));
                r.push(decimal_bytes(i.new_cases as u64));
            },
            ReportItem::Death(d) => {
                r.push(utf8_bytes(d.context_name.as_str()));
                r.push(decimal_bytes(d.counter as u64));
                r.push(utf8_bytes(d.timestamp.as_str()));
                r.push(decimal_bytes(d.deaths as u64));
            },
        }
        assert(r.deep_view() =~~= record_fields(*self));
        r
    }
}

/// A record type that can travel through the pipeline.
pub trait Report: Sized {
    /// The item that this report becomes.
    spec fn spec_item(self) -> ReportItem;

    /// Wraps the report into the item sent through its kind's channel.
    fn into_item(self) -> (r: ReportItem)
        ensures
            r == self.spec_item(),
    ;
}

impl Report for Incidence {
    open spec fn spec_item(self) -> ReportItem {
        ReportItem::Incidence(self)
    }

    fn into_item(self) -> (r: ReportItem) {
        ReportItem::Incidence(self)
    }
}

impl Report for Death {
    open spec fn spec_item(self) -> ReportItem {
        ReportItem::Death(self)
    }

    fn into_item(self) -> (r: ReportItem) {
        ReportItem::Death(self)
    }
}

/// The ASCII decimal digits of `n`, most significant first, without sign or
/// leading zeros.
pub open spec fn decimal(n: nat) -> Seq<u8>
    decreases n,
{
    if n < 10 {
        seq![(48 + n) as u8]
    } else {
        decimal(n / 10).push((48 + n % 10) as u8)
    }
}

/// The column names of a kind, in column order.
pub open spec fn header_fields(kind: ReportKind) -> Seq<Seq<u8>> {
    match kind {
        ReportKind::Incidence => seq![
            encode_utf8("context_name"@),
            encode_utf8("counter"@),
            encode_utf8("timestamp"@),
            encode_utf8("new_cases"@),
        ],
        ReportKind::Death => seq![
            encode_utf8("context_name"@),
            encode_utf8("counter"@),
            encode_utf8("timestamp"@),
            encode_utf8("deaths"@),
        ],
    }
}

/// The fields of an item, in the column order of its kind.
pub open spec fn record_fields(item: ReportItem) -> Seq<Seq<u8>> {
    match item {
        ReportItem::Incidence(i) => seq![
            encode_utf8(i.context_name@),
            decimal(i.counter as nat),
            encode_utf8(i.timestamp@),
            decimal(i.new_cases as nat),
        ],
        ReportItem::Death(d) => seq![
            encode_utf8(d.context_name@),
            decimal(d.counter as nat),
            encode_utf8(d.timestamp@),
            decimal(d.deaths as nat),
        ],
    }
}

/// The column names of `kind`, in column order, as bytes.
pub fn header(kind: ReportKind) -> (r: Vec<Vec<u8>>)
    ensures
        r.deep_view() == header_fields(kind),
{
    let mut r: Vec<Vec<u8>> = Vec::new();
    r.push(utf8_bytes("context_name"));
    r.push(utf8_bytes("counter"));
    r.push(utf8_bytes("timestamp"));
    match kind {
        ReportKind::Incidence => r.push(utf8_bytes("new_cases")),
        ReportKind::Death => r.push(utf8_bytes("deaths")),
    }
    assert(r.deep_view() =~~= header_fields(kind));
    r
}

/// The UTF-8 encoding of `s`.
pub fn utf8_bytes(s: &str) -> (r: Vec<u8>)
    ensures
        r@ == encode_utf8(s@),
{
    let b = s.as_bytes();
    let mut r: Vec<u8> = Vec::new();
    let mut i: usize = 0;
    while i < b.len()
        invariant
            i <= b@.len(),
            r@ == b@.subrange(0, i as int),
        decreases b@.len() - i,
    {
        r.push(b[i]);
        i = i + 1;
    }
    assert(r@ =~= b@);
    r
}

/// The ASCII decimal digits of `n`.
pub fn decimal_bytes(n: u64) -> (r: Vec<u8>)
    ensures
        r@ == decimal(n as nat),
    decreases n,
{
    if n < 10 {
        vec![(48 + n) as u8]
    } else {
        let mut r = decimal_bytes(n / 10);
        r.push((48 + n % 10) as u8);
        r
    }
}

} // verus!
