//! Per-target decisions: the directory names a target's files go under, and
//! the accessions that are looked up for it.
use vstd::prelude::*;
use vstd::string::*;

use crate::text::push_char;

verus! {

/// Separator between accessions in a target's accession field.
pub const ACCESSION_SEPARATOR: char = '|';

/// The path separator, which a directory name cannot hold.
pub const NAME_SEPARATOR: char = '/';

/// What a path separator in a target name is replaced by.
pub const NAME_SUBSTITUTE: char = '|';

/// One input record: a target's primary id, its name, and its accessions
/// joined by `ACCESSION_SEPARATOR`.
#[derive(Debug, PartialEq, Eq)]
pub struct TargetRecord {
    pub id: String,
    pub name: String,
    pub accession_field: String,
}

/// The work that one target asks for.
#[derive(Debug, PartialEq, Eq)]
pub struct TargetPlan {
    /// The target's directory name: its name with path separators replaced.
    pub dir_name: String,
    /// The name of the empty marker file that records the target as seen.
    pub marker_name: String,
    /// The accessions to look up, one after the other, in field order.
    pub accessions: Vec<String>,
}

/// A name with every path separator replaced.
pub open spec fn sanitized(name: Seq<char>) -> Seq<char> {
    name.map_values(|c: char| if c == NAME_SEPARATOR { NAME_SUBSTITUTE } else { c })
}

/// A piece of the field, kept unless it is empty.
pub open spec fn keep_piece(p: Seq<char>) -> Seq<Seq<char>> {
    if p.len() == 0 {
        seq![]
    } else {
        seq![p]
    }
}

/// The non-empty pieces of `f` from the piece that starts at `start`, where
/// `f` holds no separator from `start` up to `i`.
pub open spec fn pieces_from(f: Seq<char>, start: int, i: int) -> Seq<Seq<char>>
    decreases f.len() - i,
{
    if i >= f.len() {
        keep_piece(f.subrange(start, f.len() as int))
    } else if f[i] == ACCESSION_SEPARATOR {
        keep_piece(f.subrange(start, i)) + pieces_from(f, i + 1, i + 1)
    } else {
        pieces_from(f, start, i + 1)
    }
}

/// The accessions that an accession field names, in order, empty pieces left
/// out.
pub open spec fn accessions_of(f: Seq<char>) -> Seq<Seq<char>> {
    pieces_from(f, 0, 0)
}

/// The suffix of a record's lookup URL.
pub open spec fn record_suffix() -> Seq<char> {
    seq!['.', 't', 'x', 't']
}

/// Where the record of `accession` is looked up under `base`.
pub open spec fn lookup_url_spec(base: Seq<char>, accession: Seq<char>) -> Seq<char> {
    base + seq!['/'] + accession + record_suffix()
}

/// The plan that a record gives.
pub open spec fn plan_spec(r: TargetRecord) -> (Seq<char>, Seq<char>, Seq<Seq<char>>) {
    (sanitized(r.name@), r.id@, accessions_of(r.accession_field@))
}

/// `name` with every path separator replaced, so that it can name a
/// directory.
pub fn sanitize_name(name: &str) -> (r: String)
    ensures
        r@ == sanitized(name@),
{
    let n = name.unicode_len();
    let mut out = String::new();
    let mut k: usize = 0;
    while k < n
        invariant
            k <= n == name@.len(),
            out@ == sanitized(name@.take(k as int)),
        decreases n - k,
    {
        let c = name.get_char(k);
        let d = if c == NAME_SEPARATOR {
            NAME_SUBSTITUTE
        } else {
            c
        };
        push_char(&mut out, d);
        assert(sanitized(name@.take(k + 1)) =~= sanitized(name@.take(k as int)).push(d));
        k = k + 1;
    }
    assert(name@.take(n as int) =~= name@);
    out
}

/// The group directory of the record at `index`: records are bucketed into
/// batches of `group_size` in input order.
pub fn group_of(index: usize, group_size: usize) -> (r: usize)
    requires
        group_size > 0,
    ensures
        r == index / group_size,
{
    index / group_size
}

/// The accessions that `field` names, split on `ACCESSION_SEPARATOR`, in
/// order, with empty pieces left out.
pub fn split_accessions(field: &str) -> (r: Vec<String>)
    ensures
        r.deep_view() == accessions_of(field@),
{
    let n = field.unicode_len();
    let mut out: Vec<String> = Vec::new();
    let mut start: usize = 0;
    let mut i: usize = 0;
    assert(out.deep_view() + pieces_from(field@, 0, 0) =~= accessions_of(field@));
    while i < n
        invariant
            start <= i <= n == field@.len(),
            out.deep_view() + pieces_from(field@, start as int, i as int) == accessions_of(field@),
        decreases n - i,
    {
        if field.get_char(i) == ACCESSION_SEPARATOR {
            let ghost before = out.deep_view();
            let ghost rest = pieces_from(field@, i + 1, i + 1);
            if start < i {
                let piece = String::from_str(field.substring_char(start, i));
                out.push(piece);
                assert(out.deep_view() =~= before.push(piece@));
                assert(before + (seq![piece@] + rest) =~= out.deep_view() + rest);
            } else {
                assert(field@.subrange(start as int, i as int).len() == 0);
                assert(before + (seq![] + rest) =~= before + rest);
            }
            start = i + 1;
        }
        i = i + 1;
    }
    let ghost before = out.deep_view();
    if start < n {
        let piece = String::from_str(field.substring_char(start, n));
        out.push(piece);
        assert(out.deep_view() =~= before.push(piece@));
        assert(before + seq![piece@] =~= out.deep_view());
    } else {
        assert(before + seq![] =~= before);
    }
    out
}

/// Every accession that a field names is non-empty.
pub proof fn lemma_accessions_nonempty(f: Seq<char>)
    ensures
        forall|k: int| 0 <= k < accessions_of(f).len() ==> #[trigger] accessions_of(f)[k].len() > 0,
{
    lemma_pieces_nonempty(f, 0, 0);
}

proof fn lemma_pieces_nonempty(f: Seq<char>, start: int, i: int)
    requires
        0 <= start <= i <= f.len(),
    ensures
        forall|k: int| 0 <= k < pieces_from(f, start, i).len() ==> #[trigger] pieces_from(f, start, i)[k].len() > 0,
    decreases f.len() - i,
{
    if i < f.len() {
        if f[i] == ACCESSION_SEPARATOR {
            lemma_pieces_nonempty(f, i + 1, i + 1);
            let a = keep_piece(f.subrange(start, i));
            let b = pieces_from(f, i + 1, i + 1);
            assert(pieces_from(f, start, i) == a + b);
            assert forall|k: int| 0 <= k < (a + b).len() implies #[trigger] (a + b)[k].len() > 0 by {
                if k >= a.len() {
                    assert((a + b)[k] == b[k - a.len()]);
                } else {
                    assert((a + b)[k] == a[k]);
                    assert(a[k] == f.subrange(start, i));
                }
            }
        } else {
            lemma_pieces_nonempty(f, start, i + 1);
            assert(pieces_from(f, start, i) == pieces_from(f, start, i + 1));
        }
    } else {
        let a = keep_piece(f.subrange(start, f.len() as int));
        assert(pieces_from(f, start, i) == a);
        if a.len() > 0 {
            assert(a[0] == f.subrange(start, f.len() as int));
        }
        assert(a.len() <= 1);
    }
}

/// An empty accession field names no accession, so a target with one looks
/// nothing up.
pub proof fn lemma_empty_field_no_lookups(f: Seq<char>)
    requires
        f.len() == 0,
    ensures
        accessions_of(f).len() == 0,
{
    assert(f.subrange(0, 0).len() == 0);
}

/// The URL under which the record of `accession` is looked up:
/// `<base>/<accession>.txt`.
pub fn lookup_url(base: &str, accession: &str) -> (r: String)
    ensures
        r@ == lookup_url_spec(base@, accession@),
{
    proof {
        reveal_strlit("/");
        reveal_strlit(".txt");
    }
    String::from_str(base).concat("/").concat(accession).concat(".txt")
}

/// The directory name, marker file name and accessions of a target.
pub fn plan_target(record: &TargetRecord) -> (r: TargetPlan)
    ensures
        (r.dir_name@, r.marker_name@, r.accessions.deep_view()) == plan_spec(*record),
{
    TargetPlan {
        dir_name: sanitize_name(record.name.as_str()),
        marker_name: record.id.clone(),
        accessions: split_accessions(record.accession_field.as_str()),
    }
}

} // verus!
