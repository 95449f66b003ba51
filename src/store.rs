//! The point store: looking up, merging and appending image records, on the
//! document's JSON text.
use vstd::prelude::*;
use vstd::string::*;

use crate::document::{
    document_of, document_text, parse_document, render_document, serialize_record,
    standalone_record_text,
};
use crate::points::{
    appended, doc_map, entries, has_path, is_first_match, lookup, normalize_path, unique_paths,
    Entry, ImageRecord, Point, PointsError,
};

verus! {

/// `path` with every back-slash made a forward slash.
fn normalized(path: &str) -> (r: String)
    ensures
        r@ == normalize_path(path@),
{
    let len = path.unicode_len();
    let mut out = String::new();
    let mut i: usize = 0;
    while i < len
        invariant
            len == path@.len(),
            i <= len,
            out@ == normalize_path(path@.take(i as int)),
        decreases len - i,
    {
        let c = path.get_char(i);
        if c == '\\' {
            proof {
                reveal_strlit("/");
            }
            out.append("/");
        } else {
            out.append(path.substring_char(i, i + 1));
        }
        assert(path@.subrange(i as int, i + 1) =~= seq![c]);
        assert(out@ =~= normalize_path(path@.take(i + 1)));
        i = i + 1;
    }
    assert(path@.take(len as int) =~= path@);
    out
}

fn copy_points(ps: &Vec<Point>) -> (r: Vec<Point>)
    ensures
        r@ == ps@,
{
    let mut out: Vec<Point> = Vec::new();
    for i in 0..ps.len()
        invariant
            out@ == ps@.take(i as int),
    {
        out.push(ps[i]);
        assert(out@ =~= ps@.take(i + 1));
    }
    assert(out@ =~= ps@);
    out
}

fn copy_record(rec: &ImageRecord) -> (r: ImageRecord)
    ensures
        r@ == rec@,
{
    ImageRecord { path: rec.path.clone(), points: copy_points(&rec.points) }
}

/// The index of the first record of `records` whose path is `path`.
fn find_record(records: &Vec<ImageRecord>, path: &String) -> (r: Option<usize>)
    ensures
        match r {
            Some(i) => is_first_match(entries(records@), path@, i as int),
            None => !has_path(entries(records@), path@),
        },
{
    let ghost doc = entries(records@);
    for i in 0..records.len()
        invariant
            doc == entries(records@),
            forall|j: int| 0 <= j < i ==> (#[trigger] doc[j]).0 != path@,
    {
        if records[i].path == *path {
            return Some(i);
        }
    }
    None
}

/// The points of the first record whose path is `image_path` with its
/// back-slashes made forward slashes.
pub fn load_one(records: &Vec<ImageRecord>, image_path: &str) -> (r: Result<Vec<Point>, PointsError>)
    ensures
        match lookup(entries(records@), normalize_path(image_path@)) {
            Some(ps) => r is Ok && r->Ok_0@ == ps,
            None => r == Err::<Vec<Point>, PointsError>(PointsError::ImageNotFound),
        },
{
    let path = normalized(image_path);
    let ghost doc = entries(records@);
    match find_record(records, &path) {
        Some(i) => {
            proof {
                let k = choose|k: int| is_first_match(doc, path@, k);
                assert(is_first_match(doc, path@, k));
                if k < i {
                    assert(doc[k].0 != path@);
                } else if i < k {
                    assert(doc[i as int].0 != path@);
                }
            }
            Ok(copy_points(&records[i].points))
        },
        None => Err(PointsError::ImageNotFound),
    }
}

proof fn lemma_doc_map_update(doc: Seq<Entry>, j: int, v: Seq<Point>)
    requires
        unique_paths(doc),
        0 <= j < doc.len(),
    ensures
        doc_map(doc.update(j, (doc[j].0, v))) == doc_map(doc).insert(doc[j].0, v),
    decreases doc.len(),
{
    let k = doc[j].0;
    let upd = doc.update(j, (k, v));
    let last = doc.len() - 1;
    if j == last {
        assert(upd.drop_last() =~= doc.drop_last());
        assert(doc_map(upd) =~= doc_map(doc).insert(k, v));
    } else {
        let prefix = doc.drop_last();
        assert(unique_paths(prefix)) by {
            assert forall|a: int, b: int|
                0 <= a < prefix.len() && 0 <= b < prefix.len() && a != b implies (#[trigger] prefix[a]).0
                != (#[trigger] prefix[b]).0 by {
                assert(prefix[a] == doc[a] && prefix[b] == doc[b]);
            }
        }
        lemma_doc_map_update(prefix, j, v);
        assert(upd.drop_last() =~= prefix.update(j, (k, v)));
        assert(doc[last].0 != k);
        assert(doc_map(upd) =~= doc_map(doc).insert(k, v));
    }
}

/// The mapping from path to points that `records` describe, one record per
/// path: where paths repeat, the later record's points win.
pub fn load_all(records: &Vec<ImageRecord>) -> (r: Vec<ImageRecord>)
    ensures
        unique_paths(entries(r@)),
        doc_map(entries(r@)) == doc_map(entries(records@)),
{
    let ghost doc = entries(records@);
    let mut out: Vec<ImageRecord> = Vec::new();
    for i in 0..records.len()
        invariant
            doc == entries(records@),
            unique_paths(entries(out@)),
            doc_map(entries(out@)) == doc_map(doc.take(i as int)),
    {
        let rec = copy_record(&records[i]);
        let ghost prev = entries(out@);
        assert(doc.take(i + 1).drop_last() =~= doc.take(i as int));
        match find_record(&out, &rec.path) {
            Some(j) => {
                proof {
                    lemma_doc_map_update(prev, j as int, rec@.1);
                }
                out.set(j, rec);
                assert(entries(out@) =~= prev.update(j as int, (prev[j as int].0, rec@.1)));
            },
            None => {
                out.push(rec);
                assert(entries(out@) =~= prev.push(rec@));
                assert(entries(out@).drop_last() =~= prev);
            },
        }
    }
    assert(doc.take(records@.len() as int) =~= doc);
    out
}

/// What a document read yields: the points of one image, or the mapping
/// of every image to its points.
#[derive(Debug)]
pub enum Imported {
    One(Vec<Point>),
    All(Vec<ImageRecord>),
}

impl Point {
    /// The points of the image `image_path` in the document `json`: those of
    /// the first record whose path equals `image_path` with back-slashes made
    /// forward slashes.
    pub fn import_one(json: &str, image_path: &str) -> (r: Result<Vec<Point>, PointsError>)
        ensures
            match document_of(json@) {
                None => r == Err::<Vec<Point>, PointsError>(PointsError::Parse),
                Some(doc) => match lookup(doc, normalize_path(image_path@)) {
                    Some(ps) => r is Ok && r->Ok_0@ == ps,
                    None => r == Err::<Vec<Point>, PointsError>(PointsError::ImageNotFound),
                },
            },
    {
        let records = parse_document(json)?;
        load_one(&records, image_path)
    }

    /// Every record of the document `json`, one per path: where paths
    /// repeat, the later record's points win.
    pub fn import_all(json: &str) -> (r: Result<Vec<ImageRecord>, PointsError>)
        ensures
            match document_of(json@) {
                None => r == Err::<Vec<ImageRecord>, PointsError>(PointsError::Parse),
                Some(doc) => r is Ok && unique_paths(entries(r->Ok_0@)) && doc_map(
                    entries(r->Ok_0@),
                ) == doc_map(doc),
            },
    {
        let records = parse_document(json)?;
        Ok(load_all(&records))
    }

    /// Reads the document `json`: the points of `image_path` where one is
    /// given, as `import_one` does, else every record, as `import_all` does.
    pub fn import(json: &str, image_path: Option<&str>) -> (r: Result<Imported, PointsError>)
        ensures
            match document_of(json@) {
                None => r == Err::<Imported, PointsError>(PointsError::Parse),
                Some(doc) => match image_path {
                    Some(p) => match lookup(doc, normalize_path(p@)) {
                        Some(ps) => r matches Ok(Imported::One(v)) && v@ == ps,
                        None => r == Err::<Imported, PointsError>(PointsError::ImageNotFound),
                    },
                    None => r matches Ok(Imported::All(m)) && unique_paths(entries(m@)) && doc_map(
                        entries(m@),
                    ) == doc_map(doc),
                },
            },
    {
        match image_path {
            Some(p) => {
                let points = Point::import_one(json, p)?;
                Ok(Imported::One(points))
            },
            None => {
                let all = Point::import_all(json)?;
                Ok(Imported::All(all))
            },
        }
    }

    /// The text of a document holding exactly `images_points`, one record
    /// each, in order.
    pub fn export_all(images_points: &Vec<ImageRecord>) -> (r: String)
        ensures
            r@ == document_text(entries(images_points@)),
    {
        render_document(images_points)
    }

    /// The JSON text of one record for `image_path` and `points`, standing
    /// alone.
    pub fn serialize(image_path: &str, points: &Vec<Point>) -> (r: String)
        ensures
            r@ == standalone_record_text((image_path@, points@)),
    {
        serialize_record(image_path, points)
    }

    /// The text of the document `current` with one more record, for
    /// `image_path` and `points`, at its end; where there is no document yet,
    /// of a document holding that record alone. Records already there for the
    /// same path stay.
    pub fn export(current: Option<&str>, image_path: &str, points: &Vec<Point>) -> (r: Result<
        String,
        PointsError,
    >)
        ensures
            match current {
                None => r is Ok && r->Ok_0@ == document_text(
                    appended(Seq::empty(), image_path@, points@),
                ),
                Some(text) => match document_of(text@) {
                    None => r == Err::<String, PointsError>(PointsError::Parse),
                    Some(doc) => r is Ok && r->Ok_0@ == document_text(
                        appended(doc, image_path@, points@),
                    ),
                },
            },
    {
        let mut records = match current {
            Some(text) => parse_document(text)?,
            None => Vec::new(),
        };
        let ghost before = entries(records@);
        let rec = ImageRecord { path: String::from_str(image_path), points: copy_points(points) };
        records.push(rec);
        assert(entries(records@) =~= appended(before, image_path@, points@));
        Ok(render_document(&records))
    }
}

} // verus!
