use vstd::prelude::*;

use crate::converter::{Breadcrumb, DataData, DataValue};
use crate::fields::{lemma_map_of_absent, lemma_map_of_found, map_of, KvMap};
use crate::rfc3339::{check_rfc3339, is_rfc3339};
use crate::severity::{level_of_str, parse_level, Level};
use crate::text::str_eq;

verus! {

/// The entries of the top-level JSON object that `bytes` holds, each value
/// re-rendered as its compact JSON text; nothing when `bytes` is not one
/// JSON object.
pub uninterp spec fn json_object_of(bytes: Seq<u8>) -> Option<Map<Seq<char>, Seq<char>>>;

/// The entries of the JSON object that the text `t` holds, each value
/// re-rendered as its compact JSON text; nothing when `t` is not one JSON
/// object.
pub uninterp spec fn json_object_of_text(t: Seq<char>) -> Option<Map<Seq<char>, Seq<char>>>;

/// The content of the JSON string that the text `t` holds; nothing when
/// `t` is not one JSON string.
pub uninterp spec fn json_string_of(t: Seq<char>) -> Option<Seq<char>>;

/// Relies on serde_json::from_slice to parse one JSON document, and on the
/// Display of serde_json::Value for the compact re-rendering of each value
/// of the top-level object.
#[verifier::external_body]
fn parse_object(bytes: &[u8]) -> (r: Option<Vec<(String, String)>>)
    ensures
        r is Some <==> json_object_of(bytes@) is Some,
        r matches Some(es) ==> json_object_of(bytes@) == Some(map_of(es@)),
{
    match serde_json::from_slice::<serde_json::Map<String, serde_json::Value>>(bytes) {
        Ok(m) => {
            let mut out = Vec::new();
            for (k, v) in m {
                out.push((k, v.to_string()));
            }
            Some(out)
        },
        Err(_) => None,
    }
}

/// Relies on serde_json::from_str to parse one JSON document, and on the
/// Display of serde_json::Value for the compact re-rendering of each value
/// of the object.
#[verifier::external_body]
fn parse_object_text(t: &str) -> (r: Option<Vec<(String, String)>>)
    ensures
        r is Some <==> json_object_of_text(t@) is Some,
        r matches Some(es) ==> json_object_of_text(t@) == Some(map_of(es@)),
{
    match serde_json::from_str::<serde_json::Map<String, serde_json::Value>>(t) {
        Ok(m) => {
            let mut out = Vec::new();
            for (k, v) in m {
                out.push((k, v.to_string()));
            }
            Some(out)
        },
        Err(_) => None,
    }
}

/// Relies on serde_json::from_str: the content of one JSON string.
#[verifier::external_body]
fn parse_string_text(t: &str) -> (r: Option<String>)
    ensures
        r is Some <==> json_string_of(t@) is Some,
        r matches Some(v) ==> json_string_of(t@) == Some(v@),
{
    match serde_json::from_str::<String>(t) {
        Ok(s) => Some(s),
        Err(_) => None,
    }
}

/// The keys that the wire format reserves at the top level of a log line.
pub open spec fn required_key(k: Seq<char>) -> bool {
    k == "timestamp"@ || k == "level"@ || k == "target"@ || k == "fields"@
}

/// A top-level object without its reserved keys.
pub open spec fn strip_required(m: Map<Seq<char>, Seq<char>>) -> Map<Seq<char>, Seq<char>> {
    m.remove("timestamp"@).remove("level"@).remove("target"@).remove("fields"@)
}

/// Verbatim JSON values as data payload entries.
pub open spec fn raw_data_of(m: Map<Seq<char>, Seq<char>>) -> Map<Seq<char>, DataData> {
    Map::new(|k: Seq<char>| m.contains_key(k), |k: Seq<char>| DataData::RawJson(m[k]))
}

/// The well-formed reading of one log line: its timestamp, severity,
/// target, message, remaining event fields and remaining top-level keys;
/// nothing when the line does not parse as the wire format demands.
pub struct LineShape {
    pub timestamp: Seq<char>,
    pub level: Level,
    pub category: Seq<char>,
    pub message: Seq<char>,
    pub rest_fields: Map<Seq<char>, Seq<char>>,
    pub extra: Map<Seq<char>, Seq<char>>,
}

/// Read one log line of the wire format: a JSON object whose `timestamp`
/// is an RFC 3339 string, whose `level` names a known severity, whose
/// `target` is a string, and whose `fields` object carries a string
/// `message`; any other shape is no reading at all.
pub open spec fn line_shape(line: Seq<u8>) -> Option<LineShape> {
    match json_object_of(line) {
        None => None,
        Some(top) => {
            if top.contains_key("timestamp"@) && top.contains_key("level"@) && top.contains_key(
                "target"@,
            ) && top.contains_key("fields"@) {
                match (
                    json_string_of(top["timestamp"@]),
                    json_string_of(top["level"@]),
                    json_string_of(top["target"@]),
                    json_object_of_text(top["fields"@]),
                ) {
                    (Some(ts), Some(lv), Some(tg), Some(fm)) => {
                        if is_rfc3339(ts) {
                            match level_of_str(lv) {
                                Some(l) => {
                                    if fm.contains_key("message"@) {
                                        match json_string_of(fm["message"@]) {
                                            Some(msg) => Some(
                                                LineShape {
                                                    timestamp: ts,
                                                    level: l,
                                                    category: tg,
                                                    message: msg,
                                                    rest_fields: fm.remove("message"@),
                                                    extra: strip_required(top),
                                                },
                                            ),
                                            None => None,
                                        }
                                    } else {
                                        None
                                    }
                                },
                                None => None,
                            }
                        } else {
                            None
                        }
                    },
                    _ => None,
                }
            } else {
                None
            }
        },
    }
}

/// The data payload of a breadcrumb built from one log line: every
/// non-reserved top-level value verbatim, and the non-message event fields
/// verbatim under `fields`.
pub open spec fn alt_data_spec(sh: LineShape) -> Map<Seq<char>, DataData> {
    raw_data_of(sh.extra).insert("fields"@, DataData::RawObject(sh.rest_fields))
}

/// The breadcrumb that one log line denotes.
pub open spec fn breadcrumb_matches_line(b: Breadcrumb, line: Seq<u8>) -> bool {
    &&& line_shape(line) matches Some(sh)
    &&& line_shape(line) matches Some(sh) ==> {
        &&& b.timestamp@ == sh.timestamp
        &&& b.ty@ == "log"@
        &&& b.category matches Some(c) && c@ == sh.category
        &&& b.level == sh.level
        &&& b.message matches Some(m) && m@ == sh.message
        &&& b.data@ == alt_data_spec(sh)
    }
}

/// The event fields without the `message` entry, read left to right.
pub open spec fn rest_fields_of(s: Seq<(String, String)>) -> Map<Seq<char>, Seq<char>>
    decreases s.len(),
{
    if s.len() == 0 {
        Map::empty()
    } else {
        let r0 = rest_fields_of(s.drop_last());
        if s.last().0@ == "message"@ {
            r0
        } else {
            r0.insert(s.last().0@, s.last().1@)
        }
    }
}

proof fn lemma_rest_fields(s: Seq<(String, String)>)
    ensures
        rest_fields_of(s) == map_of(s).remove("message"@),
    decreases s.len(),
{
    if s.len() == 0 {
        assert(rest_fields_of(s) =~= map_of(s).remove("message"@));
    } else {
        let s0 = s.drop_last();
        lemma_rest_fields(s0);
        assert(rest_fields_of(s) =~= map_of(s).remove("message"@));
    }
}

/// The non-reserved entries of the top-level object, read left to right,
/// as verbatim data payload entries.
pub open spec fn extra_data_of(s: Seq<(String, String)>) -> Map<Seq<char>, DataData>
    decreases s.len(),
{
    if s.len() == 0 {
        Map::empty()
    } else {
        let r0 = extra_data_of(s.drop_last());
        if required_key(s.last().0@) {
            r0
        } else {
            r0.insert(s.last().0@, DataData::RawJson(s.last().1@))
        }
    }
}

proof fn lemma_extra_data(s: Seq<(String, String)>)
    ensures
        extra_data_of(s) == raw_data_of(strip_required(map_of(s))),
    decreases s.len(),
{
    if s.len() == 0 {
        assert(extra_data_of(s) =~= raw_data_of(strip_required(map_of(s))));
    } else {
        let s0 = s.drop_last();
        lemma_extra_data(s0);
        assert(extra_data_of(s) =~= raw_data_of(strip_required(map_of(s))));
    }
}

/// The last value listed under `k`, if any.
fn entry_of<'a>(es: &'a Vec<(String, String)>, k: &str) -> (r: Option<&'a String>)
    ensures
        match r {
            Some(v) => map_of(es@).contains_key(k@) && v@ == map_of(es@)[k@],
            None => !map_of(es@).contains_key(k@),
        },
{
    let n = es.len();
    let mut i: usize = n;
    while i > 0
        invariant
            i <= n,
            n == es@.len(),
            forall|j: int| i <= j < n ==> es@[j].0@ != k@,
        decreases i,
    {
        i -= 1;
        if str_eq(es[i].0.as_str(), k) {
            proof {
                lemma_map_of_found(es@, i as int);
            }
            return Some(&es[i].1);
        }
    }
    proof {
        lemma_map_of_absent(es@, k@);
    }
    None
}

fn is_required_key(k: &str) -> (r: bool)
    ensures
        r == required_key(k@),
{
    str_eq(k, "timestamp") || str_eq(k, "level") || str_eq(k, "target") || str_eq(k, "fields")
}

/// Turn one complete log line into a breadcrumb: type `log`, category from
/// `target`, severity from the lower-cased `level`, message from
/// `fields.message`, and the remaining values verbatim in the data
/// payload.  A line of any other shape yields no breadcrumb at all.
pub fn line_to_breadcrumb(line: &[u8]) -> (r: Option<Breadcrumb>)
    ensures
        r is Some <==> line_shape(line@) is Some,
        r matches Some(b) ==> breadcrumb_matches_line(b, line@),
{
    let es = match parse_object(line) {
        Some(es) => es,
        None => {
            return None;
        },
    };
    let ts_text = match entry_of(&es, "timestamp") {
        Some(v) => v,
        None => {
            return None;
        },
    };
    let lv_text = match entry_of(&es, "level") {
        Some(v) => v,
        None => {
            return None;
        },
    };
    let tg_text = match entry_of(&es, "target") {
        Some(v) => v,
        None => {
            return None;
        },
    };
    let fields_text = match entry_of(&es, "fields") {
        Some(v) => v,
        None => {
            return None;
        },
    };
    let ts = match parse_string_text(ts_text.as_str()) {
        Some(v) => v,
        None => {
            return None;
        },
    };
    let lv = match parse_string_text(lv_text.as_str()) {
        Some(v) => v,
        None => {
            return None;
        },
    };
    let tg = match parse_string_text(tg_text.as_str()) {
        Some(v) => v,
        None => {
            return None;
        },
    };
    let fs = match parse_object_text(fields_text.as_str()) {
        Some(v) => v,
        None => {
            return None;
        },
    };
    if !check_rfc3339(ts.as_str()) {
        return None;
    }
    let level = match parse_level(lv.as_str()) {
        Some(l) => l,
        None => {
            return None;
        },
    };
    let msg_text = match entry_of(&fs, "message") {
        Some(v) => v,
        None => {
            return None;
        },
    };
    let msg = match parse_string_text(msg_text.as_str()) {
        Some(v) => v,
        None => {
            return None;
        },
    };
    let mut rest: KvMap<String> = KvMap::new();
    let n = fs.len();
    let mut i: usize = 0;
    while i < n
        invariant
            i <= n,
            n == fs@.len(),
            rest@ == rest_fields_of(fs@.take(i as int)),
        decreases n - i,
    {
        let ghost pre = fs@.take(i as int);
        let ghost post = fs@.take(i as int + 1);
        proof {
            assert(post.drop_last() =~= pre);
            assert(post.last() == fs@[i as int]);
        }
        if !str_eq(fs[i].0.as_str(), "message") {
            rest.insert(fs[i].0.clone(), fs[i].1.clone());
        }
        i += 1;
    }
    proof {
        assert(fs@.take(n as int) =~= fs@);
        lemma_rest_fields(fs@);
    }
    let mut data: KvMap<DataValue> = KvMap::new();
    let m = es.len();
    let mut j: usize = 0;
    while j < m
        invariant
            j <= m,
            m == es@.len(),
            data@ == extra_data_of(es@.take(j as int)),
        decreases m - j,
    {
        let ghost pre = es@.take(j as int);
        let ghost post = es@.take(j as int + 1);
        proof {
            assert(post.drop_last() =~= pre);
            assert(post.last() == es@[j as int]);
        }
        if !is_required_key(es[j].0.as_str()) {
            data.insert(es[j].0.clone(), DataValue::RawJson(es[j].1.clone()));
        }
        j += 1;
    }
    proof {
        assert(es@.take(m as int) =~= es@);
        lemma_extra_data(es@);
    }
    data.insert("fields".to_owned(), DataValue::RawObject(rest));
    Some(
        Breadcrumb {
            timestamp: ts,
            ty: "log".to_owned(),
            category: Some(tg),
            level,
            message: Some(msg),
            data,
        },
    )
}

/// The line-buffering state machine: consume `s` byte by byte into the
/// carried buffer, and emit the buffer as one complete line at every
/// newline.  The result is the buffer left over and the complete lines
/// emitted, in order.
pub open spec fn scan_lines(buf: Seq<u8>, s: Seq<u8>) -> (Seq<u8>, Seq<Seq<u8>>)
    decreases s.len(),
{
    if s.len() == 0 {
        (buf, Seq::empty())
    } else if s[0] == 10 {
        let (fb, ls) = scan_lines(Seq::empty(), s.skip(1));
        (fb, seq![buf] + ls)
    } else {
        scan_lines(buf.push(s[0]), s.skip(1))
    }
}

/// `bs` holds exactly the breadcrumbs of the well-formed lines of `lines`,
/// in order; malformed lines contribute none.
pub open spec fn crumbs_of(bs: Seq<Breadcrumb>, lines: Seq<Seq<u8>>) -> bool
    decreases lines.len(),
{
    if lines.len() == 0 {
        bs.len() == 0
    } else if line_shape(lines.last()) is Some {
        &&& bs.len() > 0
        &&& breadcrumb_matches_line(bs.last(), lines.last())
        &&& crumbs_of(bs.drop_last(), lines.drop_last())
    } else {
        crumbs_of(bs, lines.drop_last())
    }
}

/// The line-buffered sink of the roundtrip path.  Bytes written to it are
/// buffered until a newline completes one log line; each complete line is
/// parsed back into a breadcrumb, and a line that does not parse is
/// dropped silently.
pub struct SentryBreadcrumbWriterInner {
    buf: Vec<u8>,
}

impl View for SentryBreadcrumbWriterInner {
    type V = Seq<u8>;

    closed spec fn view(&self) -> Seq<u8> {
        self.buf@
    }
}

impl SentryBreadcrumbWriterInner {
    /// A sink with an empty buffer.
    pub fn new() -> (r: Self)
        ensures
            r@ == Seq::<u8>::empty(),
    {
        SentryBreadcrumbWriterInner { buf: Vec::new() }
    }

    /// Consume a chunk of bytes: buffer them, and hand back the breadcrumb
    /// of every log line that a newline completed, in order.  Depositing
    /// the breadcrumbs into the error-reporting client is the caller's
    /// step.
    pub fn write(&mut self, bytes: &[u8]) -> (out: Vec<Breadcrumb>)
        ensures
            final(self)@ == scan_lines(old(self)@, bytes@).0,
            crumbs_of(out@, scan_lines(old(self)@, bytes@).1),
    {
        let ghost total = scan_lines(self.buf@, bytes@);
        let ghost mut done: Seq<Seq<u8>> = Seq::empty();
        let mut out: Vec<Breadcrumb> = Vec::new();
        let n = bytes.len();
        let mut i: usize = 0;
        proof {
            assert(bytes@.skip(0) =~= bytes@);
            assert(done + scan_lines(self.buf@, bytes@).1 =~= scan_lines(self.buf@, bytes@).1);
        }
        while i < n
            invariant
                i <= n,
                n == bytes@.len(),
                scan_lines(self.buf@, bytes@.skip(i as int)).0 == total.0,
                done + scan_lines(self.buf@, bytes@.skip(i as int)).1 == total.1,
                crumbs_of(out@, done),
            decreases n - i,
        {
            let ghost rest = bytes@.skip(i as int);
            proof {
                assert(rest.skip(1) =~= bytes@.skip(i as int + 1));
                assert(rest[0] == bytes@[i as int]);
            }
            let b = bytes[i];
            if b == 10 {
                let ghost line = self.buf@;
                match line_to_breadcrumb(self.buf.as_slice()) {
                    Some(c) => {
                        let ghost outpre = out@;
                        out.push(c);
                        proof {
                            assert(out@.drop_last() =~= outpre);
                        }
                    },
                    None => {},
                }
                self.buf.clear();
                proof {
                    let ghost donepre = done;
                    done = done + seq![line];
                    assert(done.drop_last() =~= donepre);
                    assert(done.last() == line);
                    assert(done + scan_lines(self.buf@, bytes@.skip(i as int + 1)).1 =~= total.1);
                }
            } else {
                let ghost bufpre = self.buf@;
                self.buf.push(b);
                proof {
                    assert(self.buf@ =~= bufpre.push(b));
                }
            }
            i += 1;
        }
        proof {
            assert(bytes@.skip(n as int) =~= Seq::<u8>::empty());
            assert(done + scan_lines(self.buf@, bytes@.skip(n as int)).1 =~= done);
            assert(done =~= total.1);
        }
        out
    }

    /// Flushing is a no-op: an incomplete line stays buffered until its
    /// newline arrives.
    pub fn flush(&mut self)
        ensures
            final(self)@ == old(self)@,
    {
    }
}

/// The factory that hands the host runtime's formatter a fresh
/// line-buffered sink.
pub struct SentryBreadcrumbWriter;

impl SentryBreadcrumbWriter {
    /// A fresh sink with an empty buffer.
    pub fn make_writer(&self) -> (r: SentryBreadcrumbWriterInner)
        ensures
            r@ == Seq::<u8>::empty(),
    {
        SentryBreadcrumbWriterInner::new()
    }
}

} // verus!
