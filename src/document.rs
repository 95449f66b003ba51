//! The document's JSON layout: reading records out of JSON text and writing
//! them back.
use vstd::prelude::*;
use vstd::string::*;

use crate::json::{field, json_array, json_field, json_str, json_u64, parse_json, parsed_json};
use crate::points::{entries, Entry, ImageRecord, Point, PointsError};

verus! {

/// The member `key` of `v` as an unsigned integer.
pub open spec fn field_u64(v: serde_json::Value, key: Seq<char>) -> Option<u64> {
    match json_field(v, key) {
        Some(f) => json_u64(f),
        None => None,
    }
}

/// The point that a JSON object `{"x": .., "y": .., "n": ..}` describes.
/// Coordinates must fit in a `u32` and the ordinal in a `usize`.
pub open spec fn point_of(v: serde_json::Value) -> Option<Point> {
    match (field_u64(v, "x"@), field_u64(v, "y"@), field_u64(v, "n"@)) {
        (Some(x), Some(y), Some(n)) => if x <= u32::MAX && y <= u32::MAX && n <= usize::MAX {
            Some(Point { x: x as u32, y: y as u32, n: n as usize })
        } else {
            None
        },
        _ => None,
    }
}

/// Every item of `items` describes a point.
pub open spec fn points_ok(items: Seq<serde_json::Value>) -> bool {
    forall|i: int| 0 <= i < items.len() ==> (#[trigger] point_of(items[i])) is Some
}

/// The points that `items` describe, in order.
pub open spec fn points_of(items: Seq<serde_json::Value>) -> Seq<Point> {
    items.map_values(|v: serde_json::Value| point_of(v)->0)
}

/// The record that a JSON object `{"path": .., "points": [..]}` describes.
pub open spec fn record_of(v: serde_json::Value) -> Option<Entry> {
    match json_field(v, "path"@) {
        Some(p) => match (json_str(p), json_field(v, "points"@)) {
            (Some(path), Some(ps)) => match json_array(ps) {
                Some(items) => if points_ok(items) {
                    Some((path, points_of(items)))
                } else {
                    None
                },
                None => None,
            },
            _ => None,
        },
        None => None,
    }
}

/// Every item of `items` describes a record.
pub open spec fn records_ok(items: Seq<serde_json::Value>) -> bool {
    forall|i: int| 0 <= i < items.len() ==> (#[trigger] record_of(items[i])) is Some
}

/// The records that `items` describe, in order.
pub open spec fn records_of(items: Seq<serde_json::Value>) -> Seq<Entry> {
    items.map_values(|v: serde_json::Value| record_of(v)->0)
}

/// The records of the document `text`, or `None` where `text` is not a JSON
/// array of records.
pub open spec fn document_of(text: Seq<char>) -> Option<Seq<Entry>> {
    match parsed_json(text) {
        Some(v) => match json_array(v) {
            Some(items) => if records_ok(items) {
                Some(records_of(items))
            } else {
                None
            },
            None => None,
        },
        None => None,
    }
}

fn field_u64_exec(v: &serde_json::Value, key: &str) -> (r: Option<u64>)
    ensures
        r == field_u64(*v, key@),
{
    match field(v, key) {
        Some(f) => f.as_u64(),
        None => None,
    }
}

/// Reads one point out of a JSON object.
pub fn point_from_json(v: &serde_json::Value) -> (r: Option<Point>)
    ensures
        r == point_of(*v),
{
    let x = field_u64_exec(v, "x");
    let y = field_u64_exec(v, "y");
    let n = field_u64_exec(v, "n");
    match (x, y, n) {
        (Some(x), Some(y), Some(n)) => if x <= u32::MAX as u64 && y <= u32::MAX as u64 && n as u128
            <= usize::MAX as u128 {
            Some(Point { x: x as u32, y: y as u32, n: n as usize })
        } else {
            None
        },
        _ => None,
    }
}

/// Reads the points of one record out of the JSON array `items`.
pub fn points_from_json(items: &Vec<serde_json::Value>) -> (r: Option<Vec<Point>>)
    ensures
        match r {
            Some(ps) => points_ok(items@) && ps@ == points_of(items@),
            None => !points_ok(items@),
        },
{
    let mut out: Vec<Point> = Vec::new();
    for i in 0..items.len()
        invariant
            out@ == points_of(items@).take(i as int),
            forall|j: int| 0 <= j < i ==> (#[trigger] point_of(items@[j])) is Some,
    {
        match point_from_json(&items[i]) {
            Some(p) => out.push(p),
            None => return None,
        }
        assert(out@ =~= points_of(items@).take(i + 1));
    }
    assert(out@ =~= points_of(items@));
    Some(out)
}

/// Reads one image record out of a JSON object.
pub fn record_from_json(v: &serde_json::Value) -> (r: Option<ImageRecord>)
    ensures
        match r {
            Some(rec) => record_of(*v) == Some(rec@),
            None => record_of(*v) is None,
        },
{
    let p = match field(v, "path") {
        Some(p) => p,
        None => return None,
    };
    let path = match p.as_str() {
        Some(s) => s,
        None => return None,
    };
    let ps = match field(v, "points") {
        Some(ps) => ps,
        None => return None,
    };
    let items = match ps.as_array() {
        Some(items) => items,
        None => return None,
    };
    match points_from_json(items) {
        Some(points) => Some(ImageRecord { path: path.to_owned(), points }),
        None => None,
    }
}

/// Reads the records of a document out of its JSON text.
pub fn parse_document(text: &str) -> (r: Result<Vec<ImageRecord>, PointsError>)
    ensures
        match r {
            Ok(recs) => document_of(text@) == Some(entries(recs@)),
            Err(e) => document_of(text@) is None && e == PointsError::Parse,
        },
{
    let v = match parse_json(text) {
        Ok(v) => v,
        Err(_) => return Err(PointsError::Parse),
    };
    let items = match v.as_array() {
        Some(items) => items,
        None => return Err(PointsError::Parse),
    };
    let mut out: Vec<ImageRecord> = Vec::new();
    for i in 0..items.len()
        invariant
            parsed_json(text@) == Some(v),
            json_array(v) == Some(items@),
            entries(out@) == records_of(items@).take(i as int),
            forall|j: int| 0 <= j < i ==> (#[trigger] record_of(items@[j])) is Some,
    {
        match record_from_json(&items[i]) {
            Some(rec) => {
                let ghost prev = out@;
                out.push(rec);
                assert(entries(out@) =~= entries(prev).push(rec@));
            },
            None => {
                assert(record_of(items@[i as int]) is None);
                assert(!records_ok(items@));
                return Err(PointsError::Parse);
            },
        }
        assert(entries(out@) =~= records_of(items@).take(i + 1));
    }
    assert(entries(out@) =~= records_of(items@));
    Ok(out)
}

/// The text of one hexadecimal digit, in lower case; decimal digits are
/// the first ten.
pub open spec fn digit_text(d: nat) -> Seq<char> {
    if d == 0 {
        "0"@
    } else if d == 1 {
        "1"@
    } else if d == 2 {
        "2"@
    } else if d == 3 {
        "3"@
    } else if d == 4 {
        "4"@
    } else if d == 5 {
        "5"@
    } else if d == 6 {
        "6"@
    } else if d == 7 {
        "7"@
    } else if d == 8 {
        "8"@
    } else if d == 9 {
        "9"@
    } else if d == 10 {
        "a"@
    } else if d == 11 {
        "b"@
    } else if d == 12 {
        "c"@
    } else if d == 13 {
        "d"@
    } else if d == 14 {
        "e"@
    } else {
        "f"@
    }
}

/// The decimal text of `n`, without leading zeros.
pub open spec fn decimal(n: nat) -> Seq<char>
    decreases n,
{
    if n < 10 {
        digit_text(n)
    } else {
        decimal(n / 10) + digit_text(n % 10)
    }
}

/// How one character stands inside a JSON string literal.
pub open spec fn escape_char(c: char) -> Seq<char> {
    if c == '"' {
        "\\\""@
    } else if c == '\\' {
        "\\\\"@
    } else if (c as u32) < 32 {
        "\\u00"@ + digit_text((c as u32 / 16) as nat) + digit_text((c as u32 % 16) as nat)
    } else {
        seq![c]
    }
}

/// The body of a JSON string literal holding `s`.
pub open spec fn escaped(s: Seq<char>) -> Seq<char>
    decreases s.len(),
{
    if s.len() == 0 {
        Seq::empty()
    } else {
        escaped(s.drop_last()) + escape_char(s.last())
    }
}

/// The text of one point.
pub open spec fn point_text(p: Point) -> Seq<char> {
    "{ \"x\": "@ + decimal(p.x as nat) + ", \"y\": "@ + decimal(p.y as nat) + ", \"n\": "@
        + decimal(p.n as nat) + " }"@
}

/// The points of a record, separated by `, `.
pub open spec fn points_text(ps: Seq<Point>) -> Seq<char>
    decreases ps.len(),
{
    if ps.len() == 0 {
        Seq::empty()
    } else if ps.len() == 1 {
        point_text(ps[0])
    } else {
        points_text(ps.drop_last()) + ", "@ + point_text(ps.last())
    }
}

/// The text of one record, indented as an item of the top-level array.
pub open spec fn record_text(e: Entry) -> Seq<char> {
    "    {\n        \"path\": \""@ + escaped(e.0) + "\",\n        \"points\": ["@ + points_text(e.1)
        + "]\n    }"@
}

/// The text of one record standing alone, at the outermost level.
pub open spec fn standalone_record_text(e: Entry) -> Seq<char> {
    "{\n    \"path\": \""@ + escaped(e.0) + "\",\n    \"points\": ["@ + points_text(e.1) + "]\n}"@
}

/// The records of a document, separated by `,` and a line break.
pub open spec fn records_text(doc: Seq<Entry>) -> Seq<char>
    decreases doc.len(),
{
    if doc.len() == 0 {
        Seq::empty()
    } else if doc.len() == 1 {
        record_text(doc[0])
    } else {
        records_text(doc.drop_last()) + ",\n"@ + record_text(doc.last())
    }
}

/// The text of a whole document: a JSON array of its records.
pub open spec fn document_text(doc: Seq<Entry>) -> Seq<char> {
    if doc.len() == 0 {
        "[]"@
    } else {
        "[\n"@ + records_text(doc) + "\n]"@
    }
}

fn digit_str(d: u64) -> (r: &'static str)
    requires
        d < 16,
    ensures
        r@ == digit_text(d as nat),
{
    if d == 0 {
        "0"
    } else if d == 1 {
        "1"
    } else if d == 2 {
        "2"
    } else if d == 3 {
        "3"
    } else if d == 4 {
        "4"
    } else if d == 5 {
        "5"
    } else if d == 6 {
        "6"
    } else if d == 7 {
        "7"
    } else if d == 8 {
        "8"
    } else if d == 9 {
        "9"
    } else if d == 10 {
        "a"
    } else if d == 11 {
        "b"
    } else if d == 12 {
        "c"
    } else if d == 13 {
        "d"
    } else if d == 14 {
        "e"
    } else {
        "f"
    }
}

/// Appends the decimal text of `n` to `out`.
pub fn push_decimal(out: &mut String, n: u64)
    ensures
        final(out)@ == old(out)@ + decimal(n as nat),
    decreases n,
{
    if n >= 10 {
        push_decimal(out, n / 10);
    }
    out.append(digit_str(n % 10));
    assert(final(out)@ =~= old(out)@ + decimal(n as nat));
}

/// Appends `s`, escaped for a JSON string literal, to `out`.
pub fn push_escaped(out: &mut String, s: &str)
    ensures
        final(out)@ == old(out)@ + escaped(s@),
{
    let len = s.unicode_len();
    let mut i: usize = 0;
    while i < len
        invariant
            len == s@.len(),
            i <= len,
            out@ == old(out)@ + escaped(s@.take(i as int)),
        decreases len - i,
    {
        let c = s.get_char(i);
        let ghost prev = out@;
        if c == '"' {
            out.append("\\\"");
        } else if c == '\\' {
            out.append("\\\\");
        } else if (c as u32) < 32 {
            out.append("\\u00");
            out.append(digit_str(c as u32 as u64 / 16));
            out.append(digit_str(c as u32 as u64 % 16));
        } else {
            out.append(s.substring_char(i, i + 1));
            assert(s@.subrange(i as int, i + 1) =~= seq![c]);
        }
        assert(s@.take(i + 1).drop_last() =~= s@.take(i as int));
        assert(out@ =~= old(out)@ + escaped(s@.take(i + 1)));
        i = i + 1;
    }
    assert(s@.take(len as int) =~= s@);
}

fn push_point(out: &mut String, p: Point)
    ensures
        final(out)@ == old(out)@ + point_text(p),
{
    out.append("{ \"x\": ");
    push_decimal(out, p.x as u64);
    out.append(", \"y\": ");
    push_decimal(out, p.y as u64);
    out.append(", \"n\": ");
    push_decimal(out, p.n as u64);
    out.append(" }");
    assert(final(out)@ =~= old(out)@ + point_text(p));
}

fn push_points(out: &mut String, ps: &Vec<Point>)
    ensures
        final(out)@ == old(out)@ + points_text(ps@),
{
    let ghost start = out@;
    for i in 0..ps.len()
        invariant
            out@ == start + points_text(ps@.take(i as int)),
    {
        if i > 0 {
            out.append(", ");
        }
        push_point(out, ps[i]);
        assert(ps@.take(i + 1).drop_last() =~= ps@.take(i as int));
        assert(out@ =~= start + points_text(ps@.take(i + 1)));
    }
    assert(ps@.take(ps@.len() as int) =~= ps@);
}

fn push_record(out: &mut String, rec: &ImageRecord)
    ensures
        final(out)@ == old(out)@ + record_text(rec@),
{
    out.append("    {\n        \"path\": \"");
    push_escaped(out, rec.path.as_str());
    out.append("\",\n        \"points\": [");
    push_points(out, &rec.points);
    out.append("]\n    }");
    assert(final(out)@ =~= old(out)@ + record_text(rec@));
}

/// The text of one record standing alone, at the outermost level.
pub fn serialize_record(image_path: &str, points: &Vec<Point>) -> (r: String)
    ensures
        r@ == standalone_record_text((image_path@, points@)),
{
    let mut out = String::from_str("{\n    \"path\": \"");
    push_escaped(&mut out, image_path);
    out.append("\",\n    \"points\": [");
    push_points(&mut out, points);
    out.append("]\n}");
    out
}

/// The JSON text of a document holding `records`, in order.
pub fn render_document(records: &Vec<ImageRecord>) -> (r: String)
    ensures
        r@ == document_text(entries(records@)),
{
    if records.len() == 0 {
        return String::from_str("[]");
    }
    let mut out = String::from_str("[\n");
    let ghost start = out@;
    for i in 0..records.len()
        invariant
            out@ == start + records_text(entries(records@).take(i as int)),
    {
        if i > 0 {
            out.append(",\n");
        }
        push_record(&mut out, &records[i]);
        assert(entries(records@).take(i + 1).drop_last() =~= entries(records@).take(i as int));
        assert(out@ =~= start + records_text(entries(records@).take(i + 1)));
    }
    assert(entries(records@).take(records@.len() as int) =~= entries(records@));
    out.append("\n]");
    out
}

} // verus!
