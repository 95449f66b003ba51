//! Points, image records, and the document model that the store works on.
use vstd::prelude::*;

verus! {

/// mint's 2D point, a plain struct with public fields `x` and `y`.
#[verifier::external_type_specification]
#[verifier::reject_recursive_types(T)]
pub struct ExPoint2<T>(mint::Point2<T>);

/// A 2D integer coordinate with the ordinal number of the annotation.
#[derive(Clone, Copy, Debug, PartialEq, Eq)]
pub struct Point {
    pub x: u32,
    pub y: u32,
    pub n: usize,
}

impl Point {
    /// Creates a point at `(x, y)` with ordinal `n`.
    pub fn new(x: u32, y: u32, n: usize) -> (r: Point)
        ensures
            r == (Point { x, y, n }),
    {
        Point { x, y, n }
    }

    /// The x-coordinate of this point.
    pub fn x(&self) -> (r: u32)
        ensures
            r == self.x,
    {
        self.x
    }

    /// The y-coordinate of this point.
    pub fn y(&self) -> (r: u32)
        ensures
            r == self.y,
    {
        self.y
    }

    /// This point's coordinate as a `mint::Point2`.
    pub fn point(&self) -> (r: mint::Point2<u32>)
        ensures
            r.x == self.x,
            r.y == self.y,
    {
        mint::Point2 { x: self.x, y: self.y }
    }
}

/// One entry of a document: an image path and the points recorded for it.
#[derive(Clone, Debug)]
pub struct ImageRecord {
    pub path: String,
    pub points: Vec<Point>,
}

/// The model of a record: its path and its points, in order.
pub type Entry = (Seq<char>, Seq<Point>);

impl View for ImageRecord {
    type V = Entry;

    open spec fn view(&self) -> Entry {
        (self.path@, self.points@)
    }
}

impl ImageRecord {
    /// Creates a record for `path` holding `points`.
    pub fn new(path: String, points: Vec<Point>) -> (r: ImageRecord)
        ensures
            r@ == (path@, points@),
    {
        ImageRecord { path, points }
    }
}

/// The model of a sequence of records.
pub open spec fn entries(records: Seq<ImageRecord>) -> Seq<Entry> {
    records.map_values(|r: ImageRecord| r@)
}

/// Why an operation on the point document failed.
#[derive(Clone, Copy, Debug, PartialEq, Eq)]
pub enum PointsError {
    /// The document could not be read.
    FileRead,
    /// The document is not a JSON array of well-formed image records.
    Parse,
    /// No record of the document has the requested path.
    ImageNotFound,
    /// The document could not be written.
    Write,
}

/// The path used for lookups: every back-slash becomes a forward slash.
pub open spec fn normalize_path(p: Seq<char>) -> Seq<char> {
    p.map_values(|c: char| if c == '\\' { '/' } else { c })
}

/// Some record of `doc` has path `p`.
pub open spec fn has_path(doc: Seq<Entry>, p: Seq<char>) -> bool {
    exists|i: int| 0 <= i < doc.len() && (#[trigger] doc[i]).0 == p
}

/// `i` is the first record of `doc` with path `p`.
pub open spec fn is_first_match(doc: Seq<Entry>, p: Seq<char>, i: int) -> bool {
    &&& 0 <= i < doc.len()
    &&& doc[i].0 == p
    &&& forall|j: int| 0 <= j < i ==> (#[trigger] doc[j]).0 != p
}

/// The points of the first record of `doc` with path `p`, if there is one.
pub open spec fn lookup(doc: Seq<Entry>, p: Seq<char>) -> Option<Seq<Point>> {
    if has_path(doc, p) {
        Some(doc[choose|i: int| is_first_match(doc, p, i)].1)
    } else {
        None
    }
}

/// No two records of `doc` share a path.
pub open spec fn unique_paths(doc: Seq<Entry>) -> bool {
    forall|i: int, j: int| 0 <= i < doc.len() && 0 <= j < doc.len() && i != j
        ==> (#[trigger] doc[i]).0 != (#[trigger] doc[j]).0
}

/// The mapping from path to points that `doc` describes: where paths repeat,
/// the later record wins.
pub open spec fn doc_map(doc: Seq<Entry>) -> Map<Seq<char>, Seq<Point>>
    decreases doc.len(),
{
    if doc.len() == 0 {
        Map::empty()
    } else {
        doc_map(doc.drop_last()).insert(doc.last().0, doc.last().1)
    }
}

/// The document after one record for `p` holding `pts` is appended.
pub open spec fn appended(doc: Seq<Entry>, p: Seq<char>, pts: Seq<Point>) -> Seq<Entry> {
    doc.push((p, pts))
}

proof fn lemma_unique_prefix(doc: Seq<Entry>)
    requires
        unique_paths(doc),
        doc.len() > 0,
    ensures
        unique_paths(doc.drop_last()),
        !has_path(doc.drop_last(), doc.last().0),
{
    let prefix = doc.drop_last();
    assert forall|a: int, b: int|
        0 <= a < prefix.len() && 0 <= b < prefix.len() && a != b implies (#[trigger] prefix[a]).0
        != (#[trigger] prefix[b]).0 by {
        assert(prefix[a] == doc[a] && prefix[b] == doc[b]);
    }
    if has_path(prefix, doc.last().0) {
        let i = choose|i: int| 0 <= i < prefix.len() && (#[trigger] prefix[i]).0 == doc.last().0;
        assert(doc[i] == prefix[i]);
        assert(doc[doc.len() - 1] == doc.last());
    }
}

/// Where paths are unique, the mapping of a document holds each record as
/// it stands, holds nothing else, and has one key per record.
pub proof fn lemma_doc_map_of_unique(doc: Seq<Entry>)
    requires
        unique_paths(doc),
    ensures
        forall|i: int|
            0 <= i < doc.len() ==> #[trigger] doc_map(doc).contains_key(doc[i].0) && doc_map(
                doc,
            )[doc[i].0] == doc[i].1,
        forall|k: Seq<char>| #[trigger] doc_map(doc).contains_key(k) ==> has_path(doc, k),
        doc_map(doc).dom().finite(),
        doc_map(doc).dom().len() == doc.len(),
    decreases doc.len(),
{
    if doc.len() > 0 {
        let prefix = doc.drop_last();
        let last = doc.last();
        lemma_unique_prefix(doc);
        lemma_doc_map_of_unique(prefix);
        let m = doc_map(doc);
        assert(m == doc_map(prefix).insert(last.0, last.1));
        assert forall|i: int| 0 <= i < doc.len() implies #[trigger] m.contains_key(doc[i].0) && m[doc[i].0]
            == doc[i].1 by {
            if i < doc.len() - 1 {
                assert(doc[i] == prefix[i]);
                if doc[i].0 == last.0 {
                    assert(has_path(prefix, last.0));
                }
            }
        }
        assert forall|k: Seq<char>| #[trigger] m.contains_key(k) implies has_path(doc, k) by {
            if k == last.0 {
                assert(doc[doc.len() - 1].0 == k);
            } else {
                assert(doc_map(prefix).contains_key(k));
                let i = choose|i: int| 0 <= i < prefix.len() && (#[trigger] prefix[i]).0 == k;
                assert(doc[i] == prefix[i]);
            }
        }
        assert(!doc_map(prefix).contains_key(last.0));
        assert(m.dom() == doc_map(prefix).dom().insert(last.0));
    } else {
        assert(doc_map(doc).dom() =~= Set::empty());
    }
}

/// Writing back the mapping that a document loads to reproduces its
/// records: where the document's paths are unique, any record list with
/// unique paths and the same mapping (what loading every record yields)
/// holds the same records, as many, in some order.
pub proof fn lemma_round_trip(doc: Seq<Entry>, loaded: Seq<Entry>)
    requires
        unique_paths(doc),
        unique_paths(loaded),
        doc_map(loaded) == doc_map(doc),
    ensures
        loaded.len() == doc.len(),
        loaded.to_set() == doc.to_set(),
{
    lemma_doc_map_of_unique(doc);
    lemma_doc_map_of_unique(loaded);
    assert forall|e: Entry| #[trigger] doc.contains(e) implies loaded.contains(e) by {
        let i = choose|i: int| 0 <= i < doc.len() && doc[i] == e;
        assert(doc_map(doc).contains_key(doc[i].0));
        let j = choose|j: int| 0 <= j < loaded.len() && (#[trigger] loaded[j]).0 == e.0;
        assert(loaded[j] == e);
    }
    assert forall|e: Entry| #[trigger] loaded.contains(e) implies doc.contains(e) by {
        let i = choose|i: int| 0 <= i < loaded.len() && loaded[i] == e;
        assert(doc_map(loaded).contains_key(loaded[i].0));
        let j = choose|j: int| 0 <= j < doc.len() && (#[trigger] doc[j]).0 == e.0;
        assert(doc[j] == e);
    }
    assert(loaded.to_set() =~= doc.to_set());
}

/// Appending two records for the same path keeps both: the document grows
/// by two, keeps what it held, and ends with two records for that path.
pub proof fn lemma_append_twice(doc: Seq<Entry>, p: Seq<char>, pts: Seq<Point>)
    ensures
        appended(appended(doc, p, pts), p, pts).len() == doc.len() + 2,
        appended(appended(doc, p, pts), p, pts).take(doc.len() as int) == doc,
        appended(appended(doc, p, pts), p, pts)[doc.len() as int] == (p, pts),
        appended(appended(doc, p, pts), p, pts)[doc.len() as int + 1] == (p, pts),
{
    assert(appended(appended(doc, p, pts), p, pts).take(doc.len() as int) =~= doc);
}

} // verus!
