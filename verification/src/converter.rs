use vstd::prelude::*;

use crate::fields::{FieldData, FieldMap, FieldValue, KvMap};
use crate::severity::{level_map, level_to_level, Level, TraceLevel};

verus! {

/// One value of a breadcrumb's structured data payload.
pub enum DataValue {
    /// A field mapping: the event's own fields, or one span's snapshot.
    Mapping(FieldMap),
    /// The span trail: one snapshot per active span, root ancestor first.
    Trail(Vec<FieldMap>),
    /// A verbatim JSON value, kept as its compact text.
    RawJson(String),
    /// An object of verbatim JSON values, each kept as its compact text.
    RawObject(KvMap<String>),
}

/// The mathematical value of one data payload entry.
#[verifier::ext_equal]
pub enum DataData {
    Mapping(Map<Seq<char>, FieldData>),
    Trail(Seq<Map<Seq<char>, FieldData>>),
    RawJson(Seq<char>),
    RawObject(Map<Seq<char>, Seq<char>>),
}

/// The mathematical values of a sequence of field mappings.
pub open spec fn trail_views(ts: Seq<FieldMap>) -> Seq<Map<Seq<char>, FieldData>> {
    ts.map_values(|t: FieldMap| t@)
}

impl View for DataValue {
    type V = DataData;

    open spec fn view(&self) -> DataData {
        match self {
            DataValue::Mapping(m) => DataData::Mapping(m@),
            DataValue::Trail(ts) => DataData::Trail(trail_views(ts@)),
            DataValue::RawJson(s) => DataData::RawJson(s@),
            DataValue::RawObject(m) => DataData::RawObject(m@),
        }
    }
}

/// A breadcrumb: one immutable, timestamped record handed to the
/// error-reporting client once fully assembled.
pub struct Breadcrumb {
    /// Capture time, as RFC 3339 text.
    pub timestamp: String,
    /// The fixed breadcrumb type, always `log`.
    pub ty: String,
    /// The event's target identifier.
    pub category: Option<String>,
    /// The mapped severity.
    pub level: Level,
    /// The human message, when the event carried one.
    pub message: Option<String>,
    /// The structured data payload.
    pub data: KvMap<DataValue>,
}

/// The human message that a field mapping carries: the value of the field
/// conventionally named `message`, when it is of string kind.
pub open spec fn message_of(fields: Map<Seq<char>, FieldData>) -> Option<Seq<char>> {
    if fields.contains_key("message"@) {
        match fields["message"@] {
            FieldData::Text(s) => Some(s),
            _ => None,
        }
    } else {
        None
    }
}

/// The data payload of a breadcrumb assembled on the primary path: the
/// event's own fields under `fields`, and, when a span is active, the
/// enclosing span's snapshot under `span` and the whole trail under
/// `spans`.
pub open spec fn breadcrumb_data_spec(
    fields: Map<Seq<char>, FieldData>,
    trail: Seq<Map<Seq<char>, FieldData>>,
) -> Map<Seq<char>, DataData> {
    let base = Map::<Seq<char>, DataData>::empty().insert("fields"@, DataData::Mapping(fields));
    if trail.len() == 0 {
        base
    } else {
        base.insert("span"@, DataData::Mapping(trail.last())).insert(
            "spans"@,
            DataData::Trail(trail),
        )
    }
}

/// Assemble one breadcrumb from an event's severity, target, recorded
/// fields and the ambient span trail (root ancestor first; empty when no
/// span is active), stamped with the given capture time.
pub fn event_to_breadcrumb(
    level: TraceLevel,
    target: &str,
    fields: FieldMap,
    trail: Vec<FieldMap>,
    timestamp: String,
) -> (b: Breadcrumb)
    ensures
        b.timestamp@ == timestamp@,
        b.ty@ == "log"@,
        b.category matches Some(c) && c@ == target@,
        b.level == level_map(level),
        match message_of(fields@) {
            Some(ms) => b.message matches Some(m) && m@ == ms,
            None => b.message is None,
        },
        b.data@ == breadcrumb_data_spec(fields@, trail_views(trail@)),
{
    let message: Option<String> = match fields.get("message") {
        Some(FieldValue::Text(s)) => Some(s.clone()),
        _ => None,
    };
    let mut data: KvMap<DataValue> = KvMap::new();
    let ghost gfields = fields@;
    let ghost gtrail = trail_views(trail@);
    let has_span = trail.len() > 0;
    if has_span {
        let span = trail[trail.len() - 1].duplicate();
        let ghost gspan = span@;
        proof {
            assert(gtrail.len() == trail@.len());
            assert(gspan == gtrail.last());
        }
        data.insert("span".to_owned(), DataValue::Mapping(span));
        data.insert("spans".to_owned(), DataValue::Trail(trail));
    }
    data.insert("fields".to_owned(), DataValue::Mapping(fields));
    proof {
        reveal_strlit("fields");
        reveal_strlit("span");
        reveal_strlit("spans");
        assert("fields"@.len() == 6);
        assert("span"@.len() == 4);
        assert("spans"@.len() == 5);
        assert("fields"@ != "span"@ && "fields"@ != "spans"@ && "span"@ != "spans"@);
        assert(data@ =~~= breadcrumb_data_spec(gfields, gtrail));
    }
    Breadcrumb {
        timestamp,
        ty: "log".to_owned(),
        category: Some(target.to_owned()),
        level: level_to_level(level),
        message,
        data,
    }
}

} // verus!
