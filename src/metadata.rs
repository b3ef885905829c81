//! Envelopes and the normalization of broker properties into metadata.

use vstd::prelude::*;
use crate::decimal::{decimal, to_decimal};

verus! {

/// The number of broker properties that become metadata.
pub const RECOGNIZED_PROPERTIES: usize = 13;

/// The properties of one broker delivery, as plain values. Header tables are not
/// carried: their nested, typed values have no lossless text form.
#[derive(Clone, Debug, Default)]
pub struct Properties {
    pub content_type: Option<String>,
    pub content_encoding: Option<String>,
    pub delivery_mode: Option<u8>,
    pub priority: Option<u8>,
    pub correlation_id: Option<String>,
    pub reply_to: Option<String>,
    pub expiration: Option<String>,
    pub message_id: Option<String>,
    pub timestamp: Option<u64>,
    pub kind: Option<String>,
    pub user_id: Option<String>,
    pub app_id: Option<String>,
    pub cluster_id: Option<String>,
}

/// How a handler is to read an envelope's payload.
#[derive(Clone, Copy, Debug, PartialEq, Eq, Structural)]
pub enum ContentFormat {
    /// A message as an AMQP broker delivered it.
    Amqp,
}

/// The unit handed to a handler: the delivery's bytes, their format, and the
/// recognized properties as text pairs (absent rather than empty).
#[derive(Clone, Debug)]
pub struct Envelope {
    pub payload: Vec<u8>,
    pub format: ContentFormat,
    pub metadata: Option<Vec<(String, String)>>,
}

impl Envelope {
    /// Metadata is absent or holds at least one pair.
    pub open spec fn wf(&self) -> bool {
        self.metadata matches Some(m) ==> m.len() > 0
    }

    /// The envelope of one delivery: its bytes unchanged, AMQP format, and the
    /// normalized metadata of its properties.
    pub fn from_delivery(payload: Vec<u8>, properties: &Properties) -> (r: Envelope)
        ensures
            r.payload@ == payload@,
            r.format == ContentFormat::Amqp,
            metadata_view(r.metadata) == metadata_of(*properties),
            r.wf(),
    {
        proof {
            lemma_metadata_absent_not_empty(*properties);
        }
        let metadata = normalize_metadata(properties);
        assert(metadata matches Some(m) ==> pairs_view(m@).len() == m@.len());
        Envelope { payload, format: ContentFormat::Amqp, metadata }
    }

    /// The synthetic envelope of a test run: the bytes `hello`, no metadata.
    pub fn synthetic() -> (r: Envelope)
        ensures
            r.payload@ == seq![104u8, 101u8, 108u8, 108u8, 111u8],
            r.format == ContentFormat::Amqp,
            r.metadata is None,
            r.wf(),
    {
        Envelope { payload: vec![104u8, 101u8, 108u8, 108u8, 111u8], format: ContentFormat::Amqp, metadata: None }
    }
}

pub open spec fn text_of(v: Option<String>) -> Option<Seq<char>> {
    match v {
        Some(s) => Some(s@),
        None => None,
    }
}

pub open spec fn number_of(v: Option<u64>) -> Option<Seq<char>> {
    match v {
        Some(n) => Some(decimal(n as nat)),
        None => None,
    }
}

pub open spec fn small_number_of(v: Option<u8>) -> Option<Seq<char>> {
    match v {
        Some(n) => Some(decimal(n as nat)),
        None => None,
    }
}

/// The metadata key of the property at position `k` of the scan order.
pub open spec fn metadata_key(k: nat) -> Seq<char> {
    if k == 0 { "content_type"@ }
    else if k == 1 { "content_encoding"@ }
    else if k == 2 { "delivery_mode"@ }
    else if k == 3 { "priority"@ }
    else if k == 4 { "correlation_id"@ }
    else if k == 5 { "reply_to"@ }
    else if k == 6 { "expiration"@ }
    else if k == 7 { "message_id"@ }
    else if k == 8 { "timestamp"@ }
    else if k == 9 { "type"@ }
    else if k == 10 { "user_id"@ }
    else if k == 11 { "app_id"@ }
    else { "cluster_id"@ }
}

/// The text of the property at position `k` of the scan order, if it is set.
pub open spec fn property_text(p: Properties, k: nat) -> Option<Seq<char>> {
    if k == 0 { text_of(p.content_type) }
    else if k == 1 { text_of(p.content_encoding) }
    else if k == 2 { small_number_of(p.delivery_mode) }
    else if k == 3 { small_number_of(p.priority) }
    else if k == 4 { text_of(p.correlation_id) }
    else if k == 5 { text_of(p.reply_to) }
    else if k == 6 { text_of(p.expiration) }
    else if k == 7 { text_of(p.message_id) }
    else if k == 8 { number_of(p.timestamp) }
    else if k == 9 { text_of(p.kind) }
    else if k == 10 { text_of(p.user_id) }
    else if k == 11 { text_of(p.app_id) }
    else if k == 12 { text_of(p.cluster_id) }
    else { None }
}

/// The set properties among the first `k` of the scan order, each with its
/// position, in that order.
pub open spec fn scan_upto(p: Properties, k: nat) -> Seq<(nat, Seq<char>)>
    decreases k,
{
    if k == 0 {
        Seq::empty()
    } else {
        let before = scan_upto(p, (k - 1) as nat);
        match property_text(p, (k - 1) as nat) {
            Some(v) => before.push(((k - 1) as nat, v)),
            None => before,
        }
    }
}

/// The metadata pairs of a property bag: one pair per set property, in scan order.
pub open spec fn metadata_entries(p: Properties) -> Seq<(Seq<char>, Seq<char>)> {
    scan_upto(p, RECOGNIZED_PROPERTIES as nat).map_values(
        |e: (nat, Seq<char>)| (metadata_key(e.0), e.1),
    )
}

/// The text pairs of a metadata vector.
pub open spec fn pairs_view(v: Seq<(String, String)>) -> Seq<(Seq<char>, Seq<char>)> {
    v.map_values(|e: (String, String)| (e.0@, e.1@))
}

/// The metadata of a property bag: absent when no property is set.
pub open spec fn metadata_of(p: Properties) -> Option<Seq<(Seq<char>, Seq<char>)>> {
    if metadata_entries(p).len() == 0 {
        None
    } else {
        Some(metadata_entries(p))
    }
}

pub open spec fn metadata_view(m: Option<Vec<(String, String)>>) -> Option<Seq<(Seq<char>, Seq<char>)>> {
    match m {
        Some(v) => Some(pairs_view(v@)),
        None => None,
    }
}

fn push_text(out: &mut Vec<(String, String)>, key: &str, value: &Option<String>)
    ensures
        pairs_view(final(out)@) == match text_of(*value) {
            Some(t) => pairs_view(old(out)@).push((key@, t)),
            None => pairs_view(old(out)@),
        },
{
    if let Some(t) = value {
        out.push((String::from_str(key), t.clone()));
        assert(pairs_view(out@) =~= pairs_view(old(out)@).push((key@, t@)));
    }
}

fn push_number(out: &mut Vec<(String, String)>, key: &str, value: Option<u64>)
    ensures
        pairs_view(final(out)@) == match number_of(value) {
            Some(t) => pairs_view(old(out)@).push((key@, t)),
            None => pairs_view(old(out)@),
        },
{
    if let Some(n) = value {
        out.push((String::from_str(key), to_decimal(n)));
        assert(pairs_view(out@) =~= pairs_view(old(out)@).push((key@, decimal(n as nat))));
    }
}

fn widen(v: Option<u8>) -> (r: Option<u64>)
    ensures
        number_of(r) == small_number_of(v),
{
    match v {
        Some(n) => Some(n as u64),
        None => None,
    }
}

proof fn lemma_scan_step(p: Properties, k: nat)
    ensures
        scan_upto(p, k + 1).map_values(|e: (nat, Seq<char>)| (metadata_key(e.0), e.1))
            == match property_text(p, k) {
                Some(v) => scan_upto(p, k).map_values(
                    |e: (nat, Seq<char>)| (metadata_key(e.0), e.1),
                ).push((metadata_key(k), v)),
                None => scan_upto(p, k).map_values(|e: (nat, Seq<char>)| (metadata_key(e.0), e.1)),
            },
{
    let f = |e: (nat, Seq<char>)| (metadata_key(e.0), e.1);
    match property_text(p, k) {
        Some(v) => {
            assert(scan_upto(p, k + 1).map_values(f) =~= scan_upto(p, k).map_values(f).push(
                (metadata_key(k), v),
            ));
        },
        None => {},
    }
}

/// Normalizes a property bag into metadata pairs: one pair per set property, in
/// the fixed scan order; `None` when no property is set.
pub fn normalize_metadata(p: &Properties) -> (r: Option<Vec<(String, String)>>)
    ensures
        metadata_view(r) == metadata_of(*p),
{
    let mut out: Vec<(String, String)> = Vec::new();
    let ghost f = |e: (nat, Seq<char>)| (metadata_key(e.0), e.1);
    assert(pairs_view(out@) =~= scan_upto(*p, 0).map_values(f));
    push_text(&mut out, "content_type", &p.content_type);
    proof { lemma_scan_step(*p, 0); }
    push_text(&mut out, "content_encoding", &p.content_encoding);
    proof { lemma_scan_step(*p, 1); }
    push_number(&mut out, "delivery_mode", widen(p.delivery_mode));
    proof { lemma_scan_step(*p, 2); }
    push_number(&mut out, "priority", widen(p.priority));
    proof { lemma_scan_step(*p, 3); }
    push_text(&mut out, "correlation_id", &p.correlation_id);
    proof { lemma_scan_step(*p, 4); }
    push_text(&mut out, "reply_to", &p.reply_to);
    proof { lemma_scan_step(*p, 5); }
    push_text(&mut out, "expiration", &p.expiration);
    proof { lemma_scan_step(*p, 6); }
    push_text(&mut out, "message_id", &p.message_id);
    proof { lemma_scan_step(*p, 7); }
    push_number(&mut out, "timestamp", p.timestamp);
    proof { lemma_scan_step(*p, 8); }
    push_text(&mut out, "type", &p.kind);
    proof { lemma_scan_step(*p, 9); }
    push_text(&mut out, "user_id", &p.user_id);
    proof { lemma_scan_step(*p, 10); }
    push_text(&mut out, "app_id", &p.app_id);
    proof { lemma_scan_step(*p, 11); }
    push_text(&mut out, "cluster_id", &p.cluster_id);
    proof { lemma_scan_step(*p, 12); }
    assert(pairs_view(out@) == metadata_entries(*p));
    if out.len() == 0 {
        None
    } else {
        Some(out)
    }
}

proof fn lemma_scan_upto_shape(p: Properties, k: nat)
    ensures
        forall|i: int, j: int|
            0 <= i < j < scan_upto(p, k).len() ==> #[trigger] scan_upto(p, k)[i].0
                < #[trigger] scan_upto(p, k)[j].0,
        forall|i: int|
            0 <= i < scan_upto(p, k).len() ==> #[trigger] scan_upto(p, k)[i].0 < k
                && property_text(p, scan_upto(p, k)[i].0) == Some(scan_upto(p, k)[i].1),
        forall|m: nat|
            m < k && (#[trigger] property_text(p, m)) is Some ==> exists|i: int|
                0 <= i < scan_upto(p, k).len() && (#[trigger] scan_upto(p, k)[i]).0 == m,
    decreases k,
{
    if k > 0 {
        let k1 = (k - 1) as nat;
        lemma_scan_upto_shape(p, k1);
        let before = scan_upto(p, k1);
        assert forall|m: nat| m < k && (#[trigger] property_text(p, m)) is Some implies exists|i: int|
            0 <= i < scan_upto(p, k).len() && (#[trigger] scan_upto(p, k)[i]).0 == m by {
            if m < k1 {
                let i = choose|i: int| 0 <= i < before.len() && (#[trigger] before[i]).0 == m;
                assert(scan_upto(p, k)[i] == before[i]);
            } else {
                assert(scan_upto(p, k)[before.len() as int].0 == m);
            }
        }
    }
}

proof fn lemma_keys_distinct(a: nat, b: nat)
    requires
        a < b < RECOGNIZED_PROPERTIES,
    ensures
        metadata_key(a) != metadata_key(b),
{
    reveal_strlit("content_type");
    reveal_strlit("content_encoding");
    reveal_strlit("delivery_mode");
    reveal_strlit("priority");
    reveal_strlit("correlation_id");
    reveal_strlit("reply_to");
    reveal_strlit("expiration");
    reveal_strlit("message_id");
    reveal_strlit("timestamp");
    reveal_strlit("type");
    reveal_strlit("user_id");
    reveal_strlit("app_id");
    reveal_strlit("cluster_id");
    if metadata_key(a).len() == metadata_key(b).len() {
        assert(metadata_key(a)[0] != metadata_key(b)[0]);
    }
}

/// Normalized metadata lists each recognized key at most once, in the fixed scan
/// order, only for properties that are set and with their text, and lists every
/// property that is set.
pub proof fn lemma_metadata_scan_order(p: Properties)
    ensures
        forall|i: int, j: int|
            0 <= i < j < metadata_entries(p).len() ==> #[trigger] metadata_entries(p)[i].0
                != #[trigger] metadata_entries(p)[j].0,
        forall|i: int, j: int|
            0 <= i < j < scan_upto(p, RECOGNIZED_PROPERTIES as nat).len()
                ==> #[trigger] scan_upto(p, RECOGNIZED_PROPERTIES as nat)[i].0
                < #[trigger] scan_upto(p, RECOGNIZED_PROPERTIES as nat)[j].0,
        forall|i: int|
            0 <= i < metadata_entries(p).len() ==> {
                let k = #[trigger] scan_upto(p, RECOGNIZED_PROPERTIES as nat)[i].0;
                &&& k < RECOGNIZED_PROPERTIES
                &&& metadata_entries(p)[i].0 == metadata_key(k)
                &&& property_text(p, k) == Some(metadata_entries(p)[i].1)
            },
        forall|k: nat|
            k < RECOGNIZED_PROPERTIES && (#[trigger] property_text(p, k)) is Some ==> exists|i: int|
                0 <= i < metadata_entries(p).len() && #[trigger] metadata_entries(p)[i] == (
                    metadata_key(k),
                    property_text(p, k).unwrap(),
                ),
{
    let n = RECOGNIZED_PROPERTIES as nat;
    lemma_scan_upto_shape(p, n);
    let scan = scan_upto(p, n);
    let m = metadata_entries(p);
    assert forall|i: int, j: int| 0 <= i < j < m.len() implies #[trigger] m[i].0 != #[trigger] m[j].0 by {
        assert(scan[i].0 < scan[j].0);
        lemma_keys_distinct(scan[i].0, scan[j].0);
    }
    assert forall|k: nat| k < RECOGNIZED_PROPERTIES && (#[trigger] property_text(p, k)) is Some implies exists|i: int|
        0 <= i < m.len() && #[trigger] m[i] == (metadata_key(k), property_text(p, k).unwrap()) by {
        let i = choose|i: int| 0 <= i < scan.len() && (#[trigger] scan[i]).0 == k;
        assert(m[i] == (metadata_key(k), property_text(p, k).unwrap()));
    }
}

/// A property bag with no recognized property set gives absent metadata, and
/// metadata that is present is never empty.
pub proof fn lemma_metadata_absent_not_empty(p: Properties)
    ensures
        (forall|k: nat| k < RECOGNIZED_PROPERTIES ==> (#[trigger] property_text(p, k)) is None)
            ==> metadata_of(p) is None,
        match metadata_of(p) {
            Some(m) => m.len() > 0,
            None => true,
        },
{
    let n = RECOGNIZED_PROPERTIES as nat;
    lemma_scan_upto_shape(p, n);
    if forall|k: nat| k < RECOGNIZED_PROPERTIES ==> (#[trigger] property_text(p, k)) is None {
        if scan_upto(p, n).len() > 0 {
            let k = scan_upto(p, n)[0].0;
            assert(property_text(p, k) is None);
        }
    }
}

} // verus!
