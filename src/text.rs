//! Operations on plain text that the cursor hands its work to, and the
//! outside parsing library they rely on.
use nom::error::ErrorKind;
use nom::{Compare, CompareResult, InputTakeAtPosition, Needed};
use vstd::prelude::*;

verus! {

/// The error tag of the parse engine, chosen by whoever asks for a split.
#[verifier::external_type_specification]
#[verifier::external_body]
pub struct ExErrorKind(ErrorKind);

/// Why a split produced no pair of spans.
#[derive(Debug)]
pub enum ParseErr<T> {
    /// The span ended before the split could be decided; more input may
    /// decide it. Holds the number of further characters asked for, if known.
    Incomplete(Option<usize>),
    /// A recoverable mismatch at the given span, with the caller's tag.
    Error(T, ErrorKind),
    /// An unrecoverable mismatch at the given span, with the caller's tag.
    Failure(T, ErrorKind),
}

/// `p` answered `b` on each of the first `k` characters of `s`, and `!b` on
/// the character at `k`, if there is one.
pub open spec fn answers_until<P: Fn(char) -> bool>(s: Seq<char>, p: P, k: int, b: bool) -> bool {
    &&& 0 <= k <= s.len()
    &&& forall|j: int| 0 <= j < k ==> call_ensures(p, (s[j],), b)
    &&& k < s.len() ==> call_ensures(p, (s[k],), !b)
}

/// `p` may be called on every character of `s`.
pub open spec fn callable_on<P: Fn(char) -> bool>(s: Seq<char>, p: P) -> bool {
    forall|j: int| 0 <= j < s.len() ==> call_requires(p, (s[j],))
}

/// The text of a split result.
pub open spec fn str_view<'a>(r: Result<(&'a str, &'a str), ParseErr<&'a str>>) -> Result<
    (Seq<char>, Seq<char>),
    ParseErr<Seq<char>>,
> {
    match r {
        Ok((rest, head)) => Ok((rest@, head@)),
        Err(ParseErr::Incomplete(n)) => Err(ParseErr::Incomplete(n)),
        Err(ParseErr::Error(at, kind)) => Err(ParseErr::Error(at@, kind)),
        Err(ParseErr::Failure(at, kind)) => Err(ParseErr::Failure(at@, kind)),
    }
}

/// What splitting `s` while `p` holds yields, as (remainder, consumed).
///
/// `complete` says that `s` is all the input there is: reaching its end
/// while `p` still holds ends the match instead of asking for more input.
/// With a `tag`, consuming nothing is a mismatch reported under that tag.
pub open spec fn split_outcome<P: Fn(char) -> bool>(
    s: Seq<char>,
    p: P,
    complete: bool,
    tag: Option<ErrorKind>,
    r: Result<(Seq<char>, Seq<char>), ParseErr<Seq<char>>>,
) -> bool {
    match r {
        Ok((rest, head)) => {
            &&& head + rest == s
            &&& answers_until(s, p, head.len() as int, true)
            &&& tag is Some ==> head.len() > 0
            &&& !complete ==> head.len() < s.len()
        },
        Err(ParseErr::Incomplete(n)) => {
            &&& !complete
            &&& n == Some(1usize)
            &&& answers_until(s, p, s.len() as int, true)
        },
        Err(ParseErr::Error(at, kind)) => {
            &&& tag == Some(kind)
            &&& at == s
            &&& answers_until(s, p, 0, true)
            &&& complete || s.len() > 0
        },
        Err(ParseErr::Failure(_, _)) => false,
    }
}

/// Relies on nom's `InputTakeAtPosition::split_at_position` for `&str`: it
/// splits before the first character on which `q` answers true, and asks for
/// one more character when there is none.
#[verifier::external_body]
fn nom_split<'a, Q: Fn(char) -> bool>(t: &'a str, q: Q) -> (r: Result<
    (&'a str, &'a str),
    ParseErr<&'a str>,
>)
    requires
        callable_on(t@, q),
    ensures
        match r {
            Ok((rest, head)) => {
                &&& head@ + rest@ == t@
                &&& head@.len() < t@.len()
                &&& answers_until(t@, q, head@.len() as int, false)
            },
            Err(ParseErr::Incomplete(n)) => n == Some(1usize) && answers_until(t@, q, t@.len() as int, false),
            Err(_) => false,
        },
{
    match t.split_at_position::<Q, (&'a str, ErrorKind)>(q) {
        Ok(pair) => Ok(pair),
        Err(nom::Err::Incomplete(Needed::Unknown)) => Err(ParseErr::Incomplete(None)),
        Err(nom::Err::Incomplete(Needed::Size(n))) => Err(ParseErr::Incomplete(Some(n.get()))),
        Err(nom::Err::Error((i, k))) => Err(ParseErr::Error(i, k)),
        Err(nom::Err::Failure((i, k))) => Err(ParseErr::Failure(i, k)),
    }
}

/// Relies on nom's `InputTakeAtPosition::split_at_position1` for `&str`: as
/// `split_at_position`, but a split before the first character is a
/// mismatch on the whole text, tagged `e`.
#[verifier::external_body]
fn nom_split1<'a, Q: Fn(char) -> bool>(t: &'a str, q: Q, e: ErrorKind) -> (r: Result<
    (&'a str, &'a str),
    ParseErr<&'a str>,
>)
    requires
        callable_on(t@, q),
    ensures
        match r {
            Ok((rest, head)) => {
                &&& head@ + rest@ == t@
                &&& 0 < head@.len() < t@.len()
                &&& answers_until(t@, q, head@.len() as int, false)
            },
            Err(ParseErr::Incomplete(n)) => n == Some(1usize) && answers_until(t@, q, t@.len() as int, false),
            Err(ParseErr::Error(at, kind)) => {
                &&& at@ == t@
                &&& kind == e
                &&& t@.len() > 0
                &&& answers_until(t@, q, 0, false)
            },
            Err(ParseErr::Failure(_, _)) => false,
        },
{
    match t.split_at_position1::<Q, (&'a str, ErrorKind)>(q, e) {
        Ok(pair) => Ok(pair),
        Err(nom::Err::Incomplete(Needed::Unknown)) => Err(ParseErr::Incomplete(None)),
        Err(nom::Err::Incomplete(Needed::Size(n))) => Err(ParseErr::Incomplete(Some(n.get()))),
        Err(nom::Err::Error((i, k))) => Err(ParseErr::Error(i, k)),
        Err(nom::Err::Failure((i, k))) => Err(ParseErr::Failure(i, k)),
    }
}

/// Relies on nom's `InputTakeAtPosition::split_at_position_complete` for
/// `&str`: it splits before the first character on which `q` answers true,
/// or at the end of the text when there is none.
#[verifier::external_body]
pub(crate) fn nom_split_complete<'a, Q: Fn(char) -> bool>(t: &'a str, q: Q) -> (r: Result<
    (&'a str, &'a str),
    ParseErr<&'a str>,
>)
    requires
        callable_on(t@, q),
    ensures
        match r {
            Ok((rest, head)) => head@ + rest@ == t@ && answers_until(t@, q, head@.len() as int, false),
            Err(_) => false,
        },
{
    match t.split_at_position_complete::<Q, (&'a str, ErrorKind)>(q) {
        Ok(pair) => Ok(pair),
        Err(nom::Err::Incomplete(Needed::Unknown)) => Err(ParseErr::Incomplete(None)),
        Err(nom::Err::Incomplete(Needed::Size(n))) => Err(ParseErr::Incomplete(Some(n.get()))),
        Err(nom::Err::Error((i, k))) => Err(ParseErr::Error(i, k)),
        Err(nom::Err::Failure((i, k))) => Err(ParseErr::Failure(i, k)),
    }
}

/// Relies on nom's `InputTakeAtPosition::split_at_position1_complete` for
/// `&str`: as `split_at_position_complete`, but consuming nothing is a
/// mismatch on the whole text, tagged `e`.
#[verifier::external_body]
fn nom_split1_complete<'a, Q: Fn(char) -> bool>(t: &'a str, q: Q, e: ErrorKind) -> (r: Result<
    (&'a str, &'a str),
    ParseErr<&'a str>,
>)
    requires
        callable_on(t@, q),
    ensures
        match r {
            Ok((rest, head)) => {
                &&& head@ + rest@ == t@
                &&& 0 < head@.len()
                &&& answers_until(t@, q, head@.len() as int, false)
            },
            Err(ParseErr::Error(at, kind)) => at@ == t@ && kind == e && answers_until(t@, q, 0, false),
            Err(_) => false,
        },
{
    match t.split_at_position1_complete::<Q, (&'a str, ErrorKind)>(q, e) {
        Ok(pair) => Ok(pair),
        Err(nom::Err::Incomplete(Needed::Unknown)) => Err(ParseErr::Incomplete(None)),
        Err(nom::Err::Incomplete(Needed::Size(n))) => Err(ParseErr::Incomplete(Some(n.get()))),
        Err(nom::Err::Error((i, k))) => Err(ParseErr::Error(i, k)),
        Err(nom::Err::Failure((i, k))) => Err(ParseErr::Failure(i, k)),
    }
}

/// Splits `t` before the first character on which `p` does not hold, as
/// (remainder, consumed); see `split_outcome` for `complete` and `tag`.
pub fn split_text<'a, P: Fn(char) -> bool>(
    t: &'a str,
    p: P,
    complete: bool,
    tag: Option<ErrorKind>,
) -> (r: Result<(&'a str, &'a str), ParseErr<&'a str>>)
    requires
        callable_on(t@, p),
    ensures
        split_outcome(t@, p, complete, tag, str_view(r)),
{
    let keep = &p;
    let stop = move |c: char| -> (b: bool)
        requires
            keep.requires((c,)),
        ensures
            keep.ensures((c,), !b),
        { !keep(c) };
    match tag {
        None => if complete {
            nom_split_complete(t, stop)
        } else {
            nom_split(t, stop)
        },
        Some(e) => if complete {
            nom_split1_complete(t, stop, e)
        } else {
            nom_split1(t, stop, e)
        },
    }
}

/// How the start of a text compares with a literal.
#[derive(Debug, PartialEq, Eq, Structural)]
pub enum CompareOutcome {
    /// The text starts with the literal.
    Match,
    /// The text is a proper prefix of the literal: more input may match.
    NeedMore,
    /// The text cannot start with the literal.
    Mismatch,
}

/// `s` starts with `pre`.
pub open spec fn starts_with(s: Seq<char>, pre: Seq<char>) -> bool {
    pre.len() <= s.len() && s.take(pre.len() as int) == pre
}

/// Exact comparison of the start of `s` with the literal `lit`.
pub open spec fn compare_outcome(s: Seq<char>, lit: Seq<char>) -> CompareOutcome {
    if starts_with(s, lit) {
        CompareOutcome::Match
    } else if starts_with(lit, s) {
        CompareOutcome::NeedMore
    } else {
        CompareOutcome::Mismatch
    }
}

/// The characters that `char::to_lowercase` yields for `c`.
pub uninterp spec fn lower_of(c: char) -> Seq<char>;

/// Number of bytes of `c` in UTF-8.
pub open spec fn utf8_width(c: char) -> nat {
    if (c as u32) < 0x80 {
        1
    } else if (c as u32) < 0x800 {
        2
    } else if (c as u32) < 0x10000 {
        3
    } else {
        4
    }
}

/// Number of bytes of `s` in UTF-8.
pub open spec fn utf8_len(s: Seq<char>) -> nat
    decreases s.len(),
{
    if s.len() == 0 {
        0
    } else {
        utf8_len(s.drop_last()) + utf8_width(s.last())
    }
}

/// Some character among the first of `s` and `lit` lowers differently from
/// its counterpart.
pub open spec fn lowered_differ(s: Seq<char>, lit: Seq<char>) -> bool {
    exists|i: int| 0 <= i < s.len() && i < lit.len() && lower_of(s[i]) != lower_of(lit[i])
}

/// Case-insensitive comparison of the start of `s` with the literal `lit`:
/// pairwise by lowercase over the shorter one, then by length in bytes.
pub open spec fn compare_no_case_outcome(s: Seq<char>, lit: Seq<char>) -> CompareOutcome {
    if lowered_differ(s, lit) {
        CompareOutcome::Mismatch
    } else if utf8_len(s) >= utf8_len(lit) {
        CompareOutcome::Match
    } else {
        CompareOutcome::NeedMore
    }
}

/// Relies on nom's `Compare::compare` for `&str`, which compares the UTF-8
/// bytes of `t` with those of `lit`. UTF-8 is a prefix code, so a byte
/// prefix of one valid text is a character prefix of it.
#[verifier::external_body]
pub(crate) fn nom_compare(t: &str, lit: &str) -> (r: CompareOutcome)
    ensures
        r == compare_outcome(t@, lit@),
{
    match t.compare(lit) {
        CompareResult::Ok => CompareOutcome::Match,
        CompareResult::Incomplete => CompareOutcome::NeedMore,
        CompareResult::Error => CompareOutcome::Mismatch,
    }
}

/// Relies on nom's `Compare::compare_no_case` for `&str`: it compares the
/// characters of `t` and `lit` pairwise by `char::to_lowercase` as far as
/// the shorter goes, then their lengths in bytes.
#[verifier::external_body]
pub(crate) fn nom_compare_no_case(t: &str, lit: &str) -> (r: CompareOutcome)
    ensures
        (exists|i: int|
            0 <= i < t@.len() && i < lit@.len() && lower_of(t@[i]) != lower_of(lit@[i]))
            ==> r == CompareOutcome::Mismatch,
        !lowered_differ(t@, lit@) ==> r == (if utf8_len(t@) >= utf8_len(lit@) {
            CompareOutcome::Match
        } else {
            CompareOutcome::NeedMore
        }),
{
    match t.compare_no_case(lit) {
        CompareResult::Ok => CompareOutcome::Match,
        CompareResult::Incomplete => CompareOutcome::NeedMore,
        CompareResult::Error => CompareOutcome::Mismatch,
    }
}

} // verus!
