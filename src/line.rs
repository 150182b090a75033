//! Lines of a subtitle file: telling timing lines apart and shifting the timestamps in them.
use vstd::prelude::*;
use crate::timestamp::{apply_offset, shift_text_spec, ParseCause, ParseError};

verus! {

/// The token that joins the two timestamps of a timing line.
pub const SEPARATOR: &'static str = " --> ";

/// A timing line whose timestamps could not all be read.
#[derive(Debug)]
pub struct ProcessError {
    /// The whole line, as it was read.
    pub line: String,
    /// The first piece of the line that is no timestamp.
    pub cause: ParseError,
}

/// `sep` occurs in `s` starting at `i`.
pub open spec fn occurs_at(s: Seq<char>, sep: Seq<char>, i: int) -> bool {
    0 <= i && i + sep.len() <= s.len() && s.subrange(i, i + sep.len()) == sep
}

pub open spec fn contains(s: Seq<char>, sep: Seq<char>) -> bool {
    exists|i: int| occurs_at(s, sep, i)
}

/// The pieces of `s[start..]` between non-overlapping occurrences of `sep`, found from
/// left to right, where the search has reached `i` and found nothing in `start..i`.
pub open spec fn split_from(s: Seq<char>, sep: Seq<char>, start: int, i: int) -> Seq<Seq<char>>
    decreases s.len() - i,
{
    if sep.len() == 0 || i + sep.len() > s.len() {
        seq![s.subrange(start, s.len() as int)]
    } else if occurs_at(s, sep, i) {
        seq![s.subrange(start, i)] + split_from(s, sep, i + sep.len(), i + sep.len())
    } else {
        split_from(s, sep, start, i + 1)
    }
}

/// `s` cut at each occurrence of `sep`, as `str::split` cuts it.
pub open spec fn split_spec(s: Seq<char>, sep: Seq<char>) -> Seq<Seq<char>> {
    split_from(s, sep, 0, 0)
}

/// The pieces joined again, with `sep` between each two.
pub open spec fn join_spec(pieces: Seq<Seq<char>>, sep: Seq<char>) -> Seq<char>
    decreases pieces.len(),
{
    if pieces.len() == 0 {
        Seq::empty()
    } else if pieces.len() == 1 {
        pieces[0]
    } else {
        join_spec(pieces.drop_last(), sep) + sep + pieces.last()
    }
}

/// Each piece shifted as a timestamp; or the first piece that is none, and why.
pub open spec fn shift_pieces(pieces: Seq<Seq<char>>, offset: int) -> Result<
    Seq<Seq<char>>,
    (Seq<char>, ParseCause),
>
    decreases pieces.len(),
{
    if pieces.len() == 0 {
        Ok(Seq::empty())
    } else {
        match shift_pieces(pieces.drop_last(), offset) {
            Err(e) => Err(e),
            Ok(done) => match shift_text_spec(pieces.last(), offset) {
                Ok(x) => Ok(done.push(x)),
                Err(c) => Err((pieces.last(), c)),
            },
        }
    }
}

/// What shifting the timestamps of `line`, cut at `sep`, gives: the new line, or the
/// first piece that is no timestamp and why.
pub open spec fn process_spec(line: Seq<char>, offset: int, sep: Seq<char>) -> Result<
    Seq<char>,
    (Seq<char>, ParseCause),
> {
    match shift_pieces(split_spec(line, sep), offset) {
        Ok(shifted) => Ok(join_spec(shifted, sep)),
        Err(e) => Err(e),
    }
}

/// What becomes of one line of the file: a line without the separator stays as it is.
pub open spec fn line_spec(line: Seq<char>, offset: int) -> Result<
    Seq<char>,
    (Seq<char>, ParseCause),
> {
    if contains(line, SEPARATOR@) {
        process_spec(line, offset, SEPARATOR@)
    } else {
        Ok(line)
    }
}

/// `r` is the outcome that `spec` describes for the line `line`.
pub open spec fn outcome_matches(
    r: Result<String, ProcessError>,
    line: Seq<char>,
    spec: Result<Seq<char>, (Seq<char>, ParseCause)>,
) -> bool {
    match r {
        Ok(s) => spec == Ok::<Seq<char>, (Seq<char>, ParseCause)>(s@),
        Err(e) => e.line@ == line && spec == Err::<Seq<char>, (Seq<char>, ParseCause)>(
            (e.cause.text@, e.cause.cause),
        ),
    }
}

fn chars_of(s: &str) -> (r: Vec<char>)
    ensures
        r@ == s@,
{
    let n = s.unicode_len();
    let mut out: Vec<char> = Vec::new();
    let mut i: usize = 0;
    while i < n
        invariant
            i <= n,
            n == s@.len(),
            out@ == s@.subrange(0, i as int),
        decreases n - i,
    {
        out.push(s.get_char(i));
        i = i + 1;
    }
    out
}

fn occurs_at_exec(s: &Vec<char>, sep: &Vec<char>, i: usize) -> (r: bool)
    ensures
        r == occurs_at(s@, sep@, i as int),
{
    if i > s.len() || sep.len() > s.len() - i {
        return false;
    }
    let mut k: usize = 0;
    while k < sep.len()
        invariant
            k <= sep.len(),
            i + sep.len() <= s.len(),
            forall|j: int| 0 <= j < k ==> s@[i + j] == sep@[j],
        decreases sep.len() - k,
    {
        if s[i + k] != sep[k] {
            assert(s@.subrange(i as int, i + sep.len())[k as int] != sep@[k as int]);
            return false;
        }
        k = k + 1;
    }
    assert(s@.subrange(i as int, i + sep.len()) =~= sep@);
    true
}

/// The line holds the separator token, and so carries timestamps.
pub fn is_timing_line(line: &str) -> (r: bool)
    ensures
        r == contains(line@, SEPARATOR@),
{
    let s = chars_of(line);
    let sep = chars_of(SEPARATOR);
    let mut i: usize = 0;
    while i < s.len()
        invariant
            s@ == line@,
            sep@ == SEPARATOR@,
            i <= s.len(),
            forall|j: int| 0 <= j < i ==> !occurs_at(s@, sep@, j),
        decreases s.len() - i,
    {
        if occurs_at_exec(&s, &sep, i) {
            return true;
        }
        i = i + 1;
    }
    assert forall|j: int| !occurs_at(line@, SEPARATOR@, j) by {
        if 0 <= j && j >= i {
            assert(j + sep@.len() > s@.len()) by {
                if j + sep@.len() <= s@.len() {
                    assert(j < s@.len()) by {
                        reveal_strlit(" --> ");
                    }
                }
            }
        }
    }
    false
}

/// Cuts `line` at each occurrence of `sep`, from left to right.
fn split_on<'a>(line: &'a str, sep: &str) -> (r: Vec<&'a str>)
    requires
        sep@.len() > 0,
    ensures
        r@.map_values(|p: &str| p@) == split_spec(line@, sep@),
{
    let s = chars_of(line);
    let sv = chars_of(sep);
    let n = s.len();
    let m = sv.len();
    let mut pieces: Vec<&'a str> = Vec::new();
    let mut start: usize = 0;
    let mut i: usize = 0;
    while m <= n && i <= n - m
        invariant
            s@ == line@,
            sv@ == sep@,
            n == s@.len(),
            m == sv@.len(),
            m > 0,
            start <= i <= n,
            pieces@.map_values(|p: &str| p@) + split_from(s@, sv@, start as int, i as int)
                == split_spec(line@, sep@),
        decreases n - i,
    {
        if occurs_at_exec(&s, &sv, i) {
            let ghost before = pieces@.map_values(|p: &str| p@);
            let ghost (start0, i0) = (start as int, i as int);
            let piece = line.substring_char(start, i);
            pieces.push(piece);
            start = i + m;
            i = i + m;
            proof {
                assert(pieces@.map_values(|p: &str| p@) =~= before.push(piece@));
                assert(split_from(s@, sv@, start0, i0) == seq![piece@] + split_from(
                    s@,
                    sv@,
                    start as int,
                    i as int,
                ));
                assert(before.push(piece@) + split_from(s@, sv@, start as int, i as int)
                    =~= before + split_from(s@, sv@, start0, i0));
            }
        } else {
            i = i + 1;
        }
    }
    let ghost before = pieces@.map_values(|p: &str| p@);
    let last = line.substring_char(start, n);
    pieces.push(last);
    proof {
        assert(pieces@.map_values(|p: &str| p@) =~= before.push(last@));
        assert(split_from(s@, sv@, start as int, i as int) == seq![last@]);
        assert(before.push(last@) =~= before + seq![last@]);
    }
    pieces
}

/// Once a prefix of the pieces holds a piece that is no timestamp, so do all pieces, and
/// the first such piece stays the first.
proof fn lemma_shift_pieces_err(pieces: Seq<Seq<char>>, k: int, offset: int)
    requires
        0 <= k <= pieces.len(),
        shift_pieces(pieces.subrange(0, k), offset) is Err,
    ensures
        shift_pieces(pieces, offset) == shift_pieces(pieces.subrange(0, k), offset),
    decreases pieces.len() - k,
{
    if k < pieces.len() {
        assert(pieces.subrange(0, k + 1).drop_last() =~= pieces.subrange(0, k));
        lemma_shift_pieces_err(pieces, k + 1, offset);
    } else {
        assert(pieces.subrange(0, k) =~= pieces);
    }
}

/// Shifts every timestamp of a timing line by `offset` milliseconds. The line is cut at
/// each `separator`, each piece must be a timestamp, and the shifted pieces are joined
/// again with the same separator.
pub fn process_duration(line: &str, offset: i64, separator: &str) -> (r: Result<
    String,
    ProcessError,
>)
    requires
        separator@.len() > 0,
    ensures
        outcome_matches(r, line@, process_spec(line@, offset as int, separator@)),
{
    let pieces = split_on(line, separator);
    let ghost views = pieces@.map_values(|p: &str| p@);
    assert(views == split_spec(line@, separator@));
    let mut out = String::new();
    let ghost mut shifted: Seq<Seq<char>> = Seq::empty();
    let mut k: usize = 0;
    while k < pieces.len()
        invariant
            views == split_spec(line@, separator@),
            views.len() == pieces@.len(),
            forall|j: int| 0 <= j < views.len() ==> #[trigger] views[j] == pieces@[j]@,
            k <= pieces.len(),
            shift_pieces(views.subrange(0, k as int), offset as int) == Ok::<
                Seq<Seq<char>>,
                (Seq<char>, ParseCause),
            >(shifted),
            out@ == join_spec(shifted, separator@),
            shifted.len() == k,
        decreases pieces.len() - k,
    {
        let ghost prefix = views.subrange(0, k + 1);
        assert(prefix.drop_last() =~= views.subrange(0, k as int));
        assert(prefix.last() == pieces@[k as int]@);
        match apply_offset(pieces[k], offset) {
            Ok(text) => {
                let ghost before = out@;
                if k > 0 {
                    out.append(separator);
                }
                out.append(text.as_str());
                proof {
                    let next = shifted.push(text@);
                    assert(next.drop_last() =~= shifted);
                    if k == 0 {
                        assert(before =~= Seq::<char>::empty());
                        assert(out@ =~= text@);
                    }
                    shifted = next;
                }
            },
            Err(e) => {
                proof {
                    assert(shift_pieces(prefix, offset as int) == Err::<
                        Seq<Seq<char>>,
                        (Seq<char>, ParseCause),
                    >((e.text@, e.cause)));
                    lemma_shift_pieces_err(views, k + 1, offset as int);
                }
                return Err(ProcessError { line: String::from_str(line), cause: e });
            },
        }
        k = k + 1;
    }
    assert(views.subrange(0, k as int) =~= views);
    Ok(out)
}

/// What becomes of one line of a subtitle file: a timing line has its timestamps shifted
/// by `offset` milliseconds, any other line is kept as it is.
pub fn shift_line(line: &str, offset: i64) -> (r: Result<String, ProcessError>)
    ensures
        outcome_matches(r, line@, line_spec(line@, offset as int)),
        !contains(line@, SEPARATOR@) ==> r is Ok && r->Ok_0@ == line@,
{
    if is_timing_line(line) {
        proof {
            reveal_strlit(" --> ");
        }
        process_duration(line, offset, SEPARATOR)
    } else {
        Ok(String::from_str(line))
    }
}

} // verus!
