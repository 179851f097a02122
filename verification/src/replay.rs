//! Recorded transform streams: a line-oriented text format, what a recording covers, and
//! the queries that are drawn from it.
//!
//! ```text
//! S <parent> <child> <qw> <qx> <qy> <qz> <tx> <ty> <tz>
//! D <parent> <child> <stamp_ns> <qw> <qx> <qy> <qz> <tx> <ty> <tz>
//! ```
//!
//! Quaternions are stored with `w` first. Stamps count from the start of the recording.

use vstd::prelude::*;

use crate::text::{
    self, decimal, digits, lemma_texts_push, lines, read_i64, same, texts, trimmed, words,
};

pub mod query;
pub mod robot;

verus! {

/// A rigid transform: a quaternion and a translation, each component by its bit pattern.
#[derive(Debug, Clone, Copy, PartialEq, Eq, Structural)]
pub struct Pose {
    pub qw: u64,
    pub qx: u64,
    pub qy: u64,
    pub qz: u64,
    pub tx: u64,
    pub ty: u64,
    pub tz: u64,
}

/// One recorded sample of a dynamic edge.
#[derive(Debug, Clone, Copy, PartialEq, Eq, Structural)]
pub struct Sample {
    /// Index into [`TfStream::dynamic_edges`].
    pub edge: usize,
    /// Nanoseconds from the start of the recording.
    pub stamp_ns: i64,
    /// From the child to the parent.
    pub pose: Pose,
}

/// A recording: its topology and all its samples.
#[derive(Debug, Clone)]
pub struct TfStream {
    /// Static edges: parent, child and transform.
    pub static_edges: Vec<(String, String, Pose)>,
    /// Dynamic edges: parent and child, in the order in which they are first seen.
    pub dynamic_edges: Vec<(String, String)>,
    /// Every sample, by stamp.
    pub samples: Vec<Sample>,
    /// The comments of the file, which say where it came from.
    pub provenance: Vec<String>,
}

pub struct StreamView {
    pub statics: Seq<(Seq<char>, Seq<char>, Pose)>,
    pub dynamics: Seq<(Seq<char>, Seq<char>)>,
    pub samples: Seq<Sample>,
    pub provenance: Seq<Seq<char>>,
}

pub open spec fn static_views(v: Seq<(String, String, Pose)>) -> Seq<
    (Seq<char>, Seq<char>, Pose),
> {
    v.map_values(|e: (String, String, Pose)| (e.0@, e.1@, e.2))
}

pub open spec fn dynamic_views(v: Seq<(String, String)>) -> Seq<(Seq<char>, Seq<char>)> {
    v.map_values(|e: (String, String)| (e.0@, e.1@))
}

impl View for TfStream {
    type V = StreamView;

    open spec fn view(&self) -> StreamView {
        StreamView {
            statics: static_views(self.static_edges@),
            dynamics: dynamic_views(self.dynamic_edges@),
            samples: self.samples@,
            provenance: texts(self.provenance@),
        }
    }
}

impl StreamView {
    /// What every recording satisfies: a sample belongs to one of the dynamic edges, and
    /// no dynamic edge is listed twice.
    pub open spec fn wf(self) -> bool {
        &&& forall|i: int|
            0 <= i < self.samples.len() ==> (#[trigger] self.samples[i]).edge < self.dynamics.len()
        &&& self.dynamics.no_duplicates()
    }
}

/// Why a text is no recording.
pub enum StreamError {
    /// A static line without its ten fields.
    StaticFields { line: usize, got: usize },
    /// A dynamic line without its eleven fields.
    DynamicFields { line: usize, got: usize },
    /// A stamp that is no integer.
    BadStamp { line: usize, word: String },
    /// A component that is no number.
    BadFloat { line: usize, word: String },
    /// A line of neither kind.
    NotALine { line: usize, text: String },
    /// No line with a transform.
    NoTransforms,
}

pub enum ErrorView {
    StaticFields { line: nat, got: nat },
    DynamicFields { line: nat, got: nat },
    BadStamp { line: nat, word: Seq<char> },
    BadFloat { line: nat, word: Seq<char> },
    NotALine { line: nat, text: Seq<char> },
    NoTransforms,
}

impl View for StreamError {
    type V = ErrorView;

    open spec fn view(&self) -> ErrorView {
        match *self {
            StreamError::StaticFields { line, got } => ErrorView::StaticFields {
                line: line as nat,
                got: got as nat,
            },
            StreamError::DynamicFields { line, got } => ErrorView::DynamicFields {
                line: line as nat,
                got: got as nat,
            },
            StreamError::BadStamp { line, word } => ErrorView::BadStamp {
                line: line as nat,
                word: word@,
            },
            StreamError::BadFloat { line, word } => ErrorView::BadFloat {
                line: line as nat,
                word: word@,
            },
            StreamError::NotALine { line, text } => ErrorView::NotALine {
                line: line as nat,
                text: text@,
            },
            StreamError::NoTransforms => ErrorView::NoTransforms,
        }
    }
}

/// How a text is printed in quotes, with what cannot be printed escaped.
pub uninterp spec fn quoted_text(s: Seq<char>) -> Seq<char>;

/// `Debug` of `str`, through `format!`: what it prints depends on the text alone.
#[verifier::external_body]
pub(crate) fn quoted(s: &str) -> (r: String)
    ensures
        r@ == quoted_text(s@),
{
    format!("{s:?}")
}

impl ErrorView {
    pub open spec fn message(self) -> Seq<char> {
        match self {
            ErrorView::StaticFields { line, got } => "line "@ + digits(line)
                + ": `S` needs 10 fields, got "@ + digits(got),
            ErrorView::DynamicFields { line, got } => "line "@ + digits(line)
                + ": `D` needs 11 fields, got "@ + digits(got),
            ErrorView::BadStamp { line, word } => "line "@ + digits(line) + ": bad stamp "@
                + quoted_text(word),
            ErrorView::BadFloat { line, word } => "line "@ + digits(line) + ": bad float "@
                + quoted_text(word),
            ErrorView::NotALine { line, text } => "line "@ + digits(line)
                + ": expected `S`, `D` or `#`, got "@ + quoted_text(text),
            ErrorView::NoTransforms => "stream contains no transforms"@,
        }
    }
}

fn on_line(line: usize, what: &str, rest: &str) -> (r: String)
    ensures
        r@ == "line "@ + digits(line as nat) + what@ + rest@,
{
    let mut s = "line ".to_owned();
    s.append(decimal(line as u64).as_str());
    s.append(what);
    s.append(rest);
    s
}

impl StreamError {
    /// What is said of it.
    pub fn message(&self) -> (r: String)
        ensures
            r@ == self@.message(),
    {
        match self {
            StreamError::StaticFields { line, got } => on_line(
                *line,
                ": `S` needs 10 fields, got ",
                decimal(*got as u64).as_str(),
            ),
            StreamError::DynamicFields { line, got } => on_line(
                *line,
                ": `D` needs 11 fields, got ",
                decimal(*got as u64).as_str(),
            ),
            StreamError::BadStamp { line, word } => on_line(
                *line,
                ": bad stamp ",
                quoted(word.as_str()).as_str(),
            ),
            StreamError::BadFloat { line, word } => on_line(
                *line,
                ": bad float ",
                quoted(word.as_str()).as_str(),
            ),
            StreamError::NotALine { line, text } => on_line(
                *line,
                ": expected `S`, `D` or `#`, got ",
                quoted(text.as_str()).as_str(),
            ),
            StreamError::NoTransforms => "stream contains no transforms".to_owned(),
        }
    }
}

// ---------------------------------------------------------------------------
// One line
// ---------------------------------------------------------------------------

/// What the `i`-th word of a line is as a double, nothing where it is none.
pub open spec fn double(row: Seq<Option<u64>>, i: int) -> Option<u64> {
    if 0 <= i < row.len() {
        row[i]
    } else {
        None
    }
}

/// The first of the words from `from` to `to` that is no number, or `to`.
pub open spec fn first_bad(row: Seq<Option<u64>>, from: int, to: int) -> int
    decreases to - from,
{
    if from >= to || double(row, from) is None {
        from
    } else {
        first_bad(row, from + 1, to)
    }
}

/// The transform in the seven words from `from` on.
pub open spec fn pose_of(row: Seq<Option<u64>>, from: int) -> Pose {
    Pose {
        qw: double(row, from)->0,
        qx: double(row, from + 1)->0,
        qy: double(row, from + 2)->0,
        qz: double(row, from + 3)->0,
        tx: double(row, from + 4)->0,
        ty: double(row, from + 5)->0,
        tz: double(row, from + 6)->0,
    }
}

/// Where an edge stands among some edges, or how many they are where it does not.
pub open spec fn place_of(v: Seq<(Seq<char>, Seq<char>)>, key: (Seq<char>, Seq<char>)) -> nat
    decreases v.len(),
{
    if v.len() == 0 || v[0] == key {
        0
    } else {
        1 + place_of(v.skip(1), key)
    }
}

/// Some edges and one more, unless it is among them.
pub open spec fn with_edge(v: Seq<(Seq<char>, Seq<char>)>, key: (Seq<char>, Seq<char>)) -> Seq<
    (Seq<char>, Seq<char>),
> {
    if v.contains(key) {
        v
    } else {
        v.push(key)
    }
}

/// A recording and the static line with the words `w`.
pub open spec fn read_static(
    s: StreamView,
    w: Seq<Seq<char>>,
    n: nat,
    row: Seq<Option<u64>>,
) -> Result<StreamView, ErrorView> {
    let bad = first_bad(row, 3, 10);
    if w.len() != 10 {
        Err(ErrorView::StaticFields { line: n, got: w.len() })
    } else if bad < 10 {
        Err(ErrorView::BadFloat { line: n, word: w[bad] })
    } else {
        Ok(StreamView { statics: s.statics.push((w[1], w[2], pose_of(row, 3))), ..s })
    }
}

/// A recording and the dynamic line with the words `w`.
pub open spec fn read_dynamic(
    s: StreamView,
    w: Seq<Seq<char>>,
    n: nat,
    row: Seq<Option<u64>>,
) -> Result<StreamView, ErrorView> {
    let bad = first_bad(row, 4, 11);
    if w.len() != 11 {
        Err(ErrorView::DynamicFields { line: n, got: w.len() })
    } else if read_i64(w[3]) is None {
        Err(ErrorView::BadStamp { line: n, word: w[3] })
    } else if bad < 11 {
        Err(ErrorView::BadFloat { line: n, word: w[bad] })
    } else {
        let key = (w[1], w[2]);
        Ok(
            StreamView {
                dynamics: with_edge(s.dynamics, key),
                samples: s.samples.push(
                    Sample {
                        edge: place_of(s.dynamics, key) as usize,
                        stamp_ns: read_i64(w[3])->0,
                        pose: pose_of(row, 4),
                    },
                ),
                ..s
            },
        )
    }
}

/// A recording and its `n`-th line, whose words are the doubles of `row`.
pub open spec fn read_line(s: StreamView, line: Seq<char>, n: nat, row: Seq<Option<u64>>) -> Result<
    StreamView,
    ErrorView,
> {
    let t = trimmed(line);
    let w = words(t);
    if t.len() == 0 {
        Ok(s)
    } else if t[0] == '#' {
        Ok(StreamView { provenance: s.provenance.push(trimmed(t.skip(1))), ..s })
    } else if w.len() > 0 && w[0] == "S"@ {
        read_static(s, w, n, row)
    } else if w.len() > 0 && w[0] == "D"@ {
        read_dynamic(s, w, n, row)
    } else {
        Err(ErrorView::NotALine { line: n, text: t })
    }
}

/// The recording that a text holds before anything of it is read.
pub open spec fn no_stream() -> StreamView {
    StreamView { statics: seq![], dynamics: seq![], samples: seq![], provenance: seq![] }
}

pub open spec fn row_at(rows: Seq<Vec<Option<u64>>>, i: int) -> Seq<Option<u64>> {
    if 0 <= i < rows.len() {
        rows[i]@
    } else {
        seq![]
    }
}

/// What the first `n` lines hold, or why the first of them that is wrong is.
pub open spec fn read_lines(ls: Seq<Seq<char>>, rows: Seq<Vec<Option<u64>>>, n: nat) -> Result<
    StreamView,
    ErrorView,
>
    decreases n,
{
    if n == 0 {
        Ok(no_stream())
    } else {
        match read_lines(ls, rows, (n - 1) as nat) {
            Err(e) => Err(e),
            Ok(s) => read_line(s, ls[n - 1], n, row_at(rows, n - 1)),
        }
    }
}

/// What a text holds, where `rows` are the words of its lines as doubles.
pub open spec fn parsed(t: Seq<char>, rows: Seq<Vec<Option<u64>>>) -> Result<
    StreamView,
    ErrorView,
> {
    match read_lines(lines(t), rows, lines(t).len()) {
        Err(e) => Err(e),
        Ok(s) => if s.samples.len() == 0 && s.statics.len() == 0 {
            Err(ErrorView::NoTransforms)
        } else {
            Ok(StreamView { samples: by_stamp(s.samples), ..s })
        },
    }
}

// ---------------------------------------------------------------------------
// The order of the samples
// ---------------------------------------------------------------------------

/// How many of some samples in order stand before one that came after them.
pub open spec fn slot(v: Seq<Sample>, x: Sample) -> nat
    decreases v.len(),
{
    if v.len() == 0 {
        0
    } else if v.last().stamp_ns <= x.stamp_ns {
        v.len()
    } else {
        slot(v.drop_last(), x)
    }
}

/// Some samples by stamp; those of one stamp keep their order.
pub open spec fn by_stamp(v: Seq<Sample>) -> Seq<Sample>
    decreases v.len(),
{
    if v.len() == 0 {
        seq![]
    } else {
        let rest = by_stamp(v.drop_last());
        rest.insert(slot(rest, v.last()) as int, v.last())
    }
}

proof fn lemma_slot(v: Seq<Sample>, x: Sample)
    requires
        forall|i: int, j: int| 0 <= i <= j < v.len() ==> v[i].stamp_ns <= v[j].stamp_ns,
    ensures
        slot(v, x) <= v.len(),
        forall|i: int| 0 <= i < slot(v, x) ==> (#[trigger] v[i]).stamp_ns <= x.stamp_ns,
        forall|i: int| slot(v, x) <= i < v.len() ==> x.stamp_ns < (#[trigger] v[i]).stamp_ns,
    decreases v.len(),
{
    if v.len() > 0 {
        if v.last().stamp_ns <= x.stamp_ns {
            assert forall|i: int| 0 <= i < v.len() implies (#[trigger] v[i]).stamp_ns
                <= x.stamp_ns by {
                assert(v[i].stamp_ns <= v[v.len() - 1].stamp_ns);
            }
        } else {
            let w = v.drop_last();
            assert forall|i: int, j: int| 0 <= i <= j < w.len() implies w[i].stamp_ns
                <= w[j].stamp_ns by {
                assert(v[i].stamp_ns <= v[j].stamp_ns);
            }
            lemma_slot(w, x);
            assert forall|i: int| 0 <= i < slot(v, x) implies (#[trigger] v[i]).stamp_ns
                <= x.stamp_ns by {
                assert(w[i] == v[i]);
            }
            assert forall|i: int| slot(v, x) <= i < v.len() implies x.stamp_ns < (
            #[trigger] v[i]).stamp_ns by {
                if i < v.len() - 1 {
                    assert(w[i] == v[i]);
                }
            }
        }
    }
}

/// The samples of a parsed recording ascend by stamp, and are the samples of the text.
pub proof fn law_by_stamp_is_sorted(v: Seq<Sample>)
    ensures
        by_stamp(v).len() == v.len(),
        by_stamp(v).to_multiset() == v.to_multiset(),
        forall|i: int, j: int|
            0 <= i <= j < v.len() ==> by_stamp(v)[i].stamp_ns <= by_stamp(v)[j].stamp_ns,
    decreases v.len(),
{
    broadcast use vstd::seq_lib::group_to_multiset_ensures;

    if v.len() > 0 {
        let rest = by_stamp(v.drop_last());
        let x = v.last();
        law_by_stamp_is_sorted(v.drop_last());
        lemma_slot(rest, x);
        let p = slot(rest, x) as int;
        assert(v =~= v.drop_last().push(x));
        vstd::seq_lib::to_multiset_insert(rest, p, x);
        vstd::seq_lib::to_multiset_build(v.drop_last(), x);
        let b = by_stamp(v);
        assert forall|i: int, j: int| 0 <= i <= j < v.len() implies b[i].stamp_ns
            <= b[j].stamp_ns by {
            let bi = if i < p {
                rest[i]
            } else if i == p {
                x
            } else {
                rest[i - 1]
            };
            let bj = if j < p {
                rest[j]
            } else if j == p {
                x
            } else {
                rest[j - 1]
            };
            assert(b[i] == bi);
            assert(b[j] == bj);
        }
    } else {
        assert(by_stamp(v) =~= v);
    }
}

/// The samples of one stamp.
pub open spec fn at_stamp(v: Seq<Sample>, stamp: i64) -> Seq<Sample> {
    v.filter(|s: Sample| s.stamp_ns == stamp)
}

proof fn lemma_none_at(v: Seq<Sample>, stamp: i64)
    requires
        forall|i: int| 0 <= i < v.len() ==> (#[trigger] v[i]).stamp_ns != stamp,
    ensures
        at_stamp(v, stamp) == Seq::<Sample>::empty(),
    decreases v.len(),
{
    reveal(Seq::filter);
    if v.len() > 0 {
        lemma_none_at(v.drop_last(), stamp);
    }
}

/// Samples of one stamp keep the order that they have in the text.
pub proof fn law_by_stamp_keeps_order(v: Seq<Sample>, stamp: i64)
    ensures
        at_stamp(by_stamp(v), stamp) == at_stamp(v, stamp),
    decreases v.len(),
{
    if v.len() > 0 {
        let rest = by_stamp(v.drop_last());
        let x = v.last();
        let p = slot(rest, x) as int;
        let keep = |s: Sample| s.stamp_ns == stamp;
        law_by_stamp_keeps_order(v.drop_last(), stamp);
        law_by_stamp_is_sorted(v.drop_last());
        lemma_slot(rest, x);
        let (a, b) = (rest.take(p), rest.skip(p));
        assert(rest =~= a + b);
        assert(by_stamp(v) =~= (a + seq![x]) + b);
        assert(v =~= v.drop_last() + seq![x]);
        Seq::filter_distributes_over_add(a, b, keep);
        Seq::filter_distributes_over_add(a + seq![x], b, keep);
        Seq::filter_distributes_over_add(a, seq![x], keep);
        Seq::filter_distributes_over_add(v.drop_last(), seq![x], keep);
        if x.stamp_ns == stamp {
            assert forall|i: int| 0 <= i < b.len() implies (#[trigger] b[i]).stamp_ns
                != stamp by {
                assert(b[i] == rest[p + i]);
            }
            lemma_none_at(b, stamp);
        } else {
            assert forall|i: int| 0 <= i < seq![x].len() implies (#[trigger] seq![x][i]).stamp_ns
                != stamp by {}
            lemma_none_at(seq![x], stamp);
        }
        assert(at_stamp(by_stamp(v), stamp) =~= at_stamp(v, stamp));
    }
}

fn find_slot(v: &Vec<Sample>, x: &Sample) -> (r: usize)
    ensures
        r == slot(v@, *x),
        r <= v@.len(),
{
    let mut n: usize = v.len();
    assert(v@.take(n as int) =~= v@);
    while n > 0 && x.stamp_ns < v[n - 1].stamp_ns
        invariant
            n <= v@.len(),
            slot(v@.take(n as int), *x) == slot(v@, *x),
        decreases n,
    {
        assert(v@.take(n as int).drop_last() =~= v@.take(n - 1));
        assert(v@.take(n as int).last() == v@[n - 1]);
        n = n - 1;
    }
    assert(n > 0 ==> v@.take(n as int).last() == v@[n - 1]);
    n
}

/// Some samples by stamp; those of one stamp keep their order.
pub fn sort_by_stamp(v: &Vec<Sample>) -> (r: Vec<Sample>)
    ensures
        r@ == by_stamp(v@),
{
    let mut out: Vec<Sample> = Vec::new();
    let mut i: usize = 0;
    assert(v@.take(0) =~= seq![]);
    while i < v.len()
        invariant
            i <= v@.len(),
            out@ == by_stamp(v@.take(i as int)),
        decreases v@.len() - i,
    {
        assert(v@.take(i + 1).drop_last() =~= v@.take(i as int));
        let p = find_slot(&out, &v[i]);
        out.insert(p, v[i]);
        i = i + 1;
    }
    assert(v@.take(i as int) =~= v@);
    out
}

// ---------------------------------------------------------------------------
// Reading
// ---------------------------------------------------------------------------

fn read_double(row: &Vec<Option<u64>>, i: usize) -> (r: Option<u64>)
    ensures
        r == double(row@, i as int),
{
    if i < row.len() {
        row[i]
    } else {
        None
    }
}

fn find_bad(row: &Vec<Option<u64>>, from: usize, to: usize) -> (r: usize)
    requires
        from <= to,
    ensures
        r == first_bad(row@, from as int, to as int),
        from <= r <= to,
        forall|i: int| from <= i < r ==> double(row@, i) is Some,
{
    let mut i: usize = from;
    while i < to
        invariant
            from <= i <= to,
            first_bad(row@, i as int, to as int) == first_bad(row@, from as int, to as int),
            forall|k: int| from <= k < i ==> double(row@, k) is Some,
        decreases to - i,
    {
        match read_double(row, i) {
            None => return i,
            Some(_) => {},
        }
        i = i + 1;
    }
    i
}

fn component(row: &Vec<Option<u64>>, i: usize) -> (r: u64)
    requires
        double(row@, i as int) is Some,
    ensures
        r == double(row@, i as int)->0,
{
    match row[i] {
        Some(x) => x,
        None => 0,
    }
}

fn read_pose(row: &Vec<Option<u64>>, from: usize) -> (r: Pose)
    requires
        from <= 100,
        forall|i: int| from <= i < from + 7 ==> double(row@, i) is Some,
    ensures
        r == pose_of(row@, from as int),
{
    Pose {
        qw: component(row, from),
        qx: component(row, from + 1),
        qy: component(row, from + 2),
        qz: component(row, from + 3),
        tx: component(row, from + 4),
        ty: component(row, from + 5),
        tz: component(row, from + 6),
    }
}

/// Where an edge stands among the edges, which grow by it where it is new.
fn edge_index(v: &mut Vec<(String, String)>, parent: &String, child: &String) -> (r: usize)
    ensures
        r == place_of(dynamic_views(old(v)@), (parent@, child@)),
        dynamic_views(final(v)@) == with_edge(dynamic_views(old(v)@), (parent@, child@)),
        r < final(v)@.len(),
{
    let ghost all = dynamic_views(v@);
    let ghost key = (parent@, child@);
    let mut i: usize = 0;
    assert(all.skip(0) =~= all);
    while i < v.len()
        invariant
            i <= v@.len(),
            all == dynamic_views(v@),
            all == dynamic_views(old(v)@),
            key == (parent@, child@),
            place_of(all, key) == i + place_of(all.skip(i as int), key),
            forall|j: int| 0 <= j < i ==> all[j] != key,
        decreases v@.len() - i,
    {
        assert(all.skip(i as int)[0] == all[i as int]);
        assert(all.skip(i as int).skip(1) =~= all.skip(i + 1));
        if same(v[i].0.as_str(), parent.as_str()) && same(v[i].1.as_str(), child.as_str()) {
            assert(all[i as int] == key);
            return i;
        }
        i = i + 1;
    }
    assert(!all.contains(key));
    v.push((parent.clone(), child.clone()));
    assert(dynamic_views(v@) =~= all.push(key));
    i
}

proof fn lemma_place_of(v: Seq<(Seq<char>, Seq<char>)>, key: (Seq<char>, Seq<char>))
    ensures
        place_of(v, key) <= v.len(),
        place_of(v, key) < with_edge(v, key).len(),
        with_edge(v, key)[place_of(v, key) as int] == key,
        v.no_duplicates() ==> with_edge(v, key).no_duplicates(),
    decreases v.len(),
{
    if v.len() > 0 && v[0] != key {
        let w = v.skip(1);
        lemma_place_of(w, key);
        if w.contains(key) {
            let i = choose|i: int| 0 <= i < w.len() && w[i] == key;
            assert(v[i + 1] == key);
        } else if v.contains(key) {
            let i = choose|i: int| 0 <= i < v.len() && v[i] == key;
            assert(w[i - 1] == key);
        }
    }
}

/// Every line keeps a recording well formed.
proof fn lemma_read_lines_wf(ls: Seq<Seq<char>>, rows: Seq<Vec<Option<u64>>>, n: nat)
    requires
        n <= ls.len(),
        read_lines(ls, rows, n) is Ok,
        read_lines(ls, rows, n)->Ok_0.dynamics.len() <= usize::MAX,
    ensures
        read_lines(ls, rows, n)->Ok_0.wf(),
    decreases n,
{
    if n > 0 {
        let before = read_lines(ls, rows, (n - 1) as nat)->Ok_0;
        let after = read_lines(ls, rows, n)->Ok_0;
        let w = words(trimmed(ls[n - 1]));
        lemma_place_of(before.dynamics, (w[1], w[2]));
        assert(before.dynamics.len() <= after.dynamics.len());
        lemma_read_lines_wf(ls, rows, (n - 1) as nat);
        assert forall|i: int| 0 <= i < after.samples.len() implies (
        #[trigger] after.samples[i]).edge < after.dynamics.len() by {
            if i < before.samples.len() {
                assert(after.samples[i] == before.samples[i]);
            }
        }
    }
}

impl TfStream {
    fn empty() -> (r: TfStream)
        ensures
            r@ == no_stream(),
    {
        let r = TfStream {
            static_edges: Vec::new(),
            dynamic_edges: Vec::new(),
            samples: Vec::new(),
            provenance: Vec::new(),
        };
        assert(r@.statics =~= seq![]);
        assert(r@.dynamics =~= seq![]);
        assert(r@.samples =~= seq![]);
        assert(r@.provenance =~= seq![]);
        r
    }

    fn take_static(&mut self, w: &Vec<String>, n: usize, row: &Vec<Option<u64>>) -> (r: Result<
        (),
        StreamError,
    >)
        ensures
            match r {
                Ok(()) => read_static(old(self)@, texts(w@), n as nat, row@) == Ok::<
                    StreamView,
                    ErrorView,
                >(final(self)@),
                Err(e) => read_static(old(self)@, texts(w@), n as nat, row@) == Err::<
                    StreamView,
                    ErrorView,
                >(e@),
            },
    {
        let ghost before = self@;
        if w.len() != 10 {
            return Err(StreamError::StaticFields { line: n, got: w.len() });
        }
        let bad = find_bad(row, 3, 10);
        if bad < 10 {
            return Err(StreamError::BadFloat { line: n, word: w[bad].clone() });
        }
        let pose = read_pose(row, 3);
        self.static_edges.push((w[1].clone(), w[2].clone(), pose));
        assert(self@.statics =~= before.statics.push((w@[1]@, w@[2]@, pose)));
        Ok(())
    }

    fn take_dynamic(&mut self, w: &Vec<String>, n: usize, row: &Vec<Option<u64>>) -> (r: Result<
        (),
        StreamError,
    >)
        ensures
            match r {
                Ok(()) => read_dynamic(old(self)@, texts(w@), n as nat, row@) == Ok::<
                    StreamView,
                    ErrorView,
                >(final(self)@),
                Err(e) => read_dynamic(old(self)@, texts(w@), n as nat, row@) == Err::<
                    StreamView,
                    ErrorView,
                >(e@),
            },
    {
        let ghost before = self@;
        if w.len() != 11 {
            return Err(StreamError::DynamicFields { line: n, got: w.len() });
        }
        let stamp_ns: i64 = match text::parse_i64(w[3].as_str()) {
            Some(t) => t,
            None => return Err(StreamError::BadStamp { line: n, word: w[3].clone() }),
        };
        let bad = find_bad(row, 4, 11);
        if bad < 11 {
            return Err(StreamError::BadFloat { line: n, word: w[bad].clone() });
        }
        let pose = read_pose(row, 4);
        let edge: usize = edge_index(&mut self.dynamic_edges, &w[1], &w[2]);
        self.samples.push(Sample { edge, stamp_ns, pose });
        Ok(())
    }

    fn take_line(&mut self, line: &str, n: usize, row: &Vec<Option<u64>>) -> (r: Result<
        (),
        StreamError,
    >)
        ensures
            match r {
                Ok(()) => read_line(old(self)@, line@, n as nat, row@) == Ok::<
                    StreamView,
                    ErrorView,
                >(final(self)@),
                Err(e) => read_line(old(self)@, line@, n as nat, row@) == Err::<
                    StreamView,
                    ErrorView,
                >(e@),
            },
    {
        broadcast use lemma_texts_push;

        let t = text::trim(line);
        let cs = text::chars(t.as_str());
        if cs.len() == 0 {
            return Ok(());
        }
        if cs[0] == '#' {
            let rest = text::slice(&cs, 1, cs.len());
            assert(rest@ =~= t@.skip(1));
            self.provenance.push(text::trim(rest.as_str()));
            return Ok(());
        }
        let w = text::split_words(t.as_str());
        if w.len() > 0 && same(w[0].as_str(), "S") {
            return self.take_static(&w, n, row);
        }
        if w.len() > 0 && same(w[0].as_str(), "D") {
            proof {
                reveal_strlit("S");
                reveal_strlit("D");
                assert("S"@[0] != "D"@[0]);
            }
            return self.take_dynamic(&w, n, row);
        }
        Err(StreamError::NotALine { line: n, text: t })
    }

    /// Reads a recording. `rows` holds, for each line, its words as the bit patterns of
    /// doubles, with nothing where a word is no number.
    ///
    /// # Errors
    ///
    /// On the first line that is wrong, with its number: a truncated or edited recording
    /// fails rather than replaying less.
    pub fn parse(text: &str, rows: &Vec<Vec<Option<u64>>>) -> (r: Result<TfStream, StreamError>)
        ensures
            match r {
                Ok(s) => parsed(text@, rows@) == Ok::<StreamView, ErrorView>(s@) && s@.wf(),
                Err(e) => parsed(text@, rows@) == Err::<StreamView, ErrorView>(e@),
            },
    {
        let all = text::split_lines(text);
        let ghost ls = lines(text@);
        let no_row: Vec<Option<u64>> = Vec::new();
        let mut s = TfStream::empty();
        let mut i: usize = 0;
        while i < all.len()
            invariant
                i <= all.len(),
                ls == lines(text@),
                texts(all@) == ls,
                no_row@ == Seq::<Option<u64>>::empty(),
                read_lines(ls, rows@, i as nat) == Ok::<StreamView, ErrorView>(s@),
            decreases all.len() - i,
        {
            assert(ls[i as int] == all@[i as int]@);
            let row = if i < rows.len() {
                &rows[i]
            } else {
                &no_row
            };
            assert(row@ =~= row_at(rows@, i as int));
            match s.take_line(all[i].as_str(), i + 1, row) {
                Ok(()) => {},
                Err(e) => {
                    proof {
                        lemma_error_stays(ls, rows@, (i + 1) as nat, ls.len(), e@);
                    }
                    return Err(e);
                },
            }
            i = i + 1;
        }
        if s.samples.len() == 0 && s.static_edges.len() == 0 {
            return Err(StreamError::NoTransforms);
        }
        proof {
            assert(s@.dynamics.len() == s.dynamic_edges.len());
            lemma_read_lines_wf(ls, rows@, ls.len());
            law_by_stamp_is_sorted(s@.samples);
            lemma_sorted_in_range(s@.samples, s@.dynamics.len());
        }
        let samples = sort_by_stamp(&s.samples);
        s.samples = samples;
        Ok(s)
    }
}

proof fn lemma_error_stays(
    ls: Seq<Seq<char>>,
    rows: Seq<Vec<Option<u64>>>,
    n: nat,
    m: nat,
    e: ErrorView,
)
    requires
        n <= m,
        read_lines(ls, rows, n) == Err::<StreamView, ErrorView>(e),
    ensures
        read_lines(ls, rows, m) == Err::<StreamView, ErrorView>(e),
    decreases m,
{
    if n < m {
        lemma_error_stays(ls, rows, n, (m - 1) as nat, e);
    }
}

pub proof fn lemma_sorted_in_range(v: Seq<Sample>, edges: nat)
    requires
        forall|i: int| 0 <= i < v.len() ==> (#[trigger] v[i]).edge < edges,
    ensures
        by_stamp(v).len() == v.len(),
        forall|i: int| 0 <= i < v.len() ==> (#[trigger] by_stamp(v)[i]).edge < edges,
{
    law_by_stamp_is_sorted(v);
    let b = by_stamp(v);
    assert forall|i: int| 0 <= i < v.len() implies (#[trigger] b[i]).edge < edges by {
        broadcast use vstd::seq_lib::group_to_multiset_ensures;

        assert(b.contains(b[i]));
        assert(b.to_multiset().count(b[i]) > 0);
        assert(v.contains(b[i]));
    }
}

// ---------------------------------------------------------------------------
// What a recording says
// ---------------------------------------------------------------------------

/// The seven components from a word on are all numbers.
pub open spec fn seven_numbers(row: Seq<Option<u64>>, from: int) -> bool {
    &&& row.len() >= from + 7
    &&& forall|i: int| from <= i < from + 7 ==> (#[trigger] row[i]) is Some
}

/// A transform whose components, in the order `qw qx qy qz tx ty tz`, are seven numbers.
pub open spec fn written_as(p: Pose, row: Seq<Option<u64>>, from: int) -> bool {
    &&& row[from] == Some(p.qw)
    &&& row[from + 1] == Some(p.qx)
    &&& row[from + 2] == Some(p.qy)
    &&& row[from + 3] == Some(p.qz)
    &&& row[from + 4] == Some(p.tx)
    &&& row[from + 5] == Some(p.ty)
    &&& row[from + 6] == Some(p.tz)
}

proof fn lemma_first_bad(row: Seq<Option<u64>>, from: int, to: int)
    requires
        0 <= from <= to,
    ensures
        from <= first_bad(row, from, to) <= to,
        from < to && row.len() >= to && (forall|i: int| from <= i < to ==> (#[trigger] row[i]) is Some)
            ==> first_bad(row, from, to) == to,
        first_bad(row, from, to) == to && from < to ==> row.len() >= to && forall|i: int|
            from <= i < to ==> (#[trigger] row[i]) is Some,
    decreases to - from,
{
    if from < to && double(row, from) is Some {
        lemma_first_bad(row, from + 1, to);
    }
}

/// A static line is kept as the edge that it names, with the transform whose components are
/// its last seven words in the order in which they are written; and it is refused where it
/// has not ten words, or one of the seven is no number.
pub proof fn law_a_static_line_is_its_transform(
    s: StreamView,
    line: Seq<char>,
    n: nat,
    row: Seq<Option<u64>>,
)
    requires
        trimmed(line).len() > 0,
        trimmed(line)[0] != '#',
        words(trimmed(line)).len() > 0,
        words(trimmed(line))[0] == "S"@,
    ensures
        ({
            let w = words(trimmed(line));
            let r = read_line(s, line, n, row);
            &&& r is Ok <==> w.len() == 10 && seven_numbers(row, 3)
            &&& r matches Ok(t) ==> {
                &&& t.statics.len() == s.statics.len() + 1
                &&& t.statics.drop_last() == s.statics
                &&& t.statics.last().0 == w[1]
                &&& t.statics.last().1 == w[2]
                &&& written_as(t.statics.last().2, row, 3)
                &&& t.dynamics == s.dynamics
                &&& t.samples == s.samples
                &&& t.provenance == s.provenance
            }
        }),
{
    lemma_first_bad(row, 3, 10);
    let w = words(trimmed(line));
    if w.len() == 10 && seven_numbers(row, 3) {
        let t = read_line(s, line, n, row)->Ok_0;
        assert(t.statics.drop_last() =~= s.statics);
        assert(row[3] is Some && row[4] is Some && row[5] is Some && row[6] is Some && row[7] is Some
            && row[8] is Some && row[9] is Some);
    }
}

proof fn lemma_place_of_is(v: Seq<(Seq<char>, Seq<char>)>, key: (Seq<char>, Seq<char>))
    ensures
        place_of(v, key) <= v.len(),
        place_of(v, key) < v.len() ==> v[place_of(v, key) as int] == key,
        place_of(v, key) == v.len() <==> !v.contains(key),
    decreases v.len(),
{
    if v.len() > 0 && v[0] != key {
        let rest = v.skip(1);
        lemma_place_of_is(rest, key);
        if v.contains(key) {
            let i = choose|i: int| 0 <= i < v.len() && v[i] == key;
            assert(rest[i - 1] == key);
        }
        if rest.contains(key) {
            let i = choose|i: int| 0 <= i < rest.len() && rest[i] == key;
            assert(v[i + 1] == key);
        }
    } else if v.len() > 0 {
        assert(v[0] == key);
    }
}

/// A dynamic line is kept as a sample of the edge that it names, at its stamp, with the
/// transform whose components are its last seven words in order; an edge keeps its number
/// once it has one. It is refused where it has not eleven words, its stamp is no integer, or
/// one of the seven is no number.
pub proof fn law_a_dynamic_line_is_its_sample(
    s: StreamView,
    line: Seq<char>,
    n: nat,
    row: Seq<Option<u64>>,
)
    requires
        trimmed(line).len() > 0,
        trimmed(line)[0] != '#',
        words(trimmed(line)).len() > 0,
        words(trimmed(line))[0] == "D"@,
        s.dynamics.len() < usize::MAX,
    ensures
        ({
            let w = words(trimmed(line));
            let r = read_line(s, line, n, row);
            &&& r is Ok <==> w.len() == 11 && read_i64(w[3]) is Some && seven_numbers(row, 4)
            &&& r matches Ok(t) ==> {
                let x = t.samples.last();
                &&& t.samples.len() == s.samples.len() + 1
                &&& t.samples.drop_last() == s.samples
                &&& x.edge < t.dynamics.len()
                &&& t.dynamics[x.edge as int] == (w[1], w[2])
                &&& Some(x.stamp_ns) == read_i64(w[3])
                &&& written_as(x.pose, row, 4)
                &&& s.dynamics.len() <= t.dynamics.len() <= s.dynamics.len() + 1
                &&& forall|i: int|
                    0 <= i < s.dynamics.len() ==> t.dynamics[i] == #[trigger] s.dynamics[i]
                &&& s.dynamics.contains((w[1], w[2])) ==> t.dynamics == s.dynamics
                &&& t.statics == s.statics
                &&& t.provenance == s.provenance
            }
        }),
{
    reveal_strlit("S");
    reveal_strlit("D");
    assert("S"@[0] != "D"@[0]);
    lemma_first_bad(row, 4, 11);
    let w = words(trimmed(line));
    if w.len() == 11 && read_i64(w[3]) is Some && seven_numbers(row, 4) {
        let t = read_line(s, line, n, row)->Ok_0;
        lemma_place_of_is(s.dynamics, (w[1], w[2]));
        assert(t.samples.drop_last() =~= s.samples);
        assert(row[4] is Some && row[5] is Some && row[6] is Some && row[7] is Some && row[8] is Some
            && row[9] is Some && row[10] is Some);
    }
}

/// A blank line says nothing, a comment is kept as such without its mark, and a line of no
/// known kind is refused.
pub proof fn law_other_lines_say_nothing(
    s: StreamView,
    line: Seq<char>,
    n: nat,
    row: Seq<Option<u64>>,
)
    ensures
        ({
            let t = trimmed(line);
            let r = read_line(s, line, n, row);
            &&& t.len() == 0 ==> r == Ok::<StreamView, ErrorView>(s)
            &&& t.len() > 0 && t[0] == '#' ==> (r matches Ok(u) && u.provenance
                == s.provenance.push(trimmed(t.skip(1))) && u.statics == s.statics && u.dynamics
                == s.dynamics && u.samples == s.samples)
            &&& t.len() > 0 && t[0] != '#' && (words(t).len() == 0 || (words(t)[0] != "S"@ && words(
                t,
            )[0] != "D"@)) ==> r is Err
        }),
{
}

/// A recording is refused where one of its lines is, or where none holds a transform; and
/// else it is the recording of its lines, one after the other, its samples by stamp.
pub proof fn law_a_recording_is_its_lines(t: Seq<char>, rows: Seq<Vec<Option<u64>>>, n: nat)
    requires
        n < lines(t).len(),
    ensures
        read_lines(lines(t), rows, 0) == Ok::<StreamView, ErrorView>(no_stream()),
        ({
            let before = read_lines(lines(t), rows, n);
            let after = read_lines(lines(t), rows, n + 1);
            &&& before is Err ==> after == before
            &&& before matches Ok(s) ==> after == read_line(
                s,
                lines(t)[n as int],
                n + 1,
                if n < rows.len() {
                    rows[n as int]@
                } else {
                    seq![]
                },
            )
        }),
        ({
            let whole = read_lines(lines(t), rows, lines(t).len());
            &&& parsed(t, rows) is Ok <==> (whole matches Ok(s) && (s.samples.len() >= 1
                || s.statics.len() >= 1))
            &&& parsed(t, rows) matches Ok(r) ==> {
                let s = whole->Ok_0;
                &&& r.statics == s.statics
                &&& r.dynamics == s.dynamics
                &&& r.provenance == s.provenance
                &&& r.samples.to_multiset() == s.samples.to_multiset()
                &&& forall|i: int, j: int|
                    0 <= i <= j < r.samples.len() ==> r.samples[i].stamp_ns <= r.samples[j].stamp_ns
            }
        }),
{
    let whole = read_lines(lines(t), rows, lines(t).len());
    if whole is Ok {
        law_by_stamp_is_sorted(whole->Ok_0.samples);
    }
}

} // verus!
