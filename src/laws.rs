//! Laws that relate the cursor's operations to each other.
use crate::input::{cursor_view, is_slice_of, Input};
use crate::text::{answers_until, split_outcome, ParseErr};
use nom::error::ErrorKind;
use vstd::prelude::*;

verus! {

/// `p` gives one answer for each character.
pub open spec fn answers_by_char<P: Fn(char) -> bool>(p: P) -> bool {
    forall|c: char, a: bool, b: bool|
        call_ensures(p, (c,), a) && call_ensures(p, (c,), b) ==> a == b
}

/// For a predicate that answers by the character alone, there is one index
/// of a text up to which it holds and after which it fails.
pub proof fn lemma_split_point_unique<P: Fn(char) -> bool>(s: Seq<char>, p: P, k1: int, k2: int)
    requires
        answers_by_char(p),
        answers_until(s, p, k1, true),
        answers_until(s, p, k2, true),
    ensures
        k1 == k2,
{
    if k1 < k2 {
        assert(call_ensures(p, (s[k1],), true));
    } else if k2 < k1 {
        assert(call_ensures(p, (s[k2],), true));
    }
}

/// Splitting a text by a predicate that answers by the character alone has
/// one outcome: whatever carries the text, a cursor or a plain string, the
/// texts that come out are the same.
pub proof fn lemma_split_determined<P: Fn(char) -> bool>(
    s: Seq<char>,
    p: P,
    complete: bool,
    tag: Option<ErrorKind>,
    a: Result<(Seq<char>, Seq<char>), ParseErr<Seq<char>>>,
    b: Result<(Seq<char>, Seq<char>), ParseErr<Seq<char>>>,
)
    requires
        answers_by_char(p),
        split_outcome(s, p, complete, tag, a),
        split_outcome(s, p, complete, tag, b),
    ensures
        a == b,
{
    let len = s.len() as int;
    match (a, b) {
        (Ok((rest1, head1)), Ok((rest2, head2))) => {
            lemma_split_point_unique(s, p, head1.len() as int, head2.len() as int);
            assert(head1 =~= s.take(head1.len() as int));
            assert(head2 =~= s.take(head2.len() as int));
            assert(rest1 =~= s.skip(head1.len() as int));
            assert(rest2 =~= s.skip(head2.len() as int));
        },
        (Ok((_, head1)), Err(ParseErr::Incomplete(_))) => {
            lemma_split_point_unique(s, p, head1.len() as int, len);
        },
        (Ok((_, head1)), Err(ParseErr::Error(_, _))) => {
            lemma_split_point_unique(s, p, head1.len() as int, 0);
        },
        (Err(ParseErr::Incomplete(_)), Ok((_, head2))) => {
            lemma_split_point_unique(s, p, head2.len() as int, len);
        },
        (Err(ParseErr::Error(_, _)), Ok((_, head2))) => {
            lemma_split_point_unique(s, p, head2.len() as int, 0);
        },
        (Err(ParseErr::Incomplete(_)), Err(ParseErr::Error(_, _))) => {
            lemma_split_point_unique(s, p, len, 0);
        },
        (Err(ParseErr::Error(_, _)), Err(ParseErr::Incomplete(_))) => {
            lemma_split_point_unique(s, p, len, 0);
        },
        _ => {},
    }
}

/// Splitting by a predicate that answers by the character alone gives the
/// same texts for two cursors over the same text, whatever their contexts.
pub proof fn lemma_split_ignores_context<'a, O, P: Fn(char) -> bool>(
    c1: Input<'a, O>,
    c2: Input<'a, O>,
    p: P,
    complete: bool,
    tag: Option<ErrorKind>,
    r1: Result<(Input<'a, O>, Input<'a, O>), ParseErr<Input<'a, O>>>,
    r2: Result<(Input<'a, O>, Input<'a, O>), ParseErr<Input<'a, O>>>,
)
    requires
        c1.text@ == c2.text@,
        answers_by_char(p),
        split_outcome(c1.text@, p, complete, tag, cursor_view(r1)),
        split_outcome(c2.text@, p, complete, tag, cursor_view(r2)),
    ensures
        cursor_view(r1) == cursor_view(r2),
{
    lemma_split_determined(c1.text@, p, complete, tag, cursor_view(r1), cursor_view(r2));
}

/// The two halves of a take-and-split rejoin into the span they came from.
pub proof fn lemma_take_split_rejoins<'a, O>(
    c: Input<'a, O>,
    count: int,
    rest: Input<'a, O>,
    taken: Input<'a, O>,
)
    requires
        0 <= count <= c.text@.len(),
        is_slice_of(rest, c, count, c.text@.len() as int),
        is_slice_of(taken, c, 0, count),
    ensures
        taken.text@ + rest.text@ == c.text@,
        taken.opts == c.opts && rest.opts == c.opts,
{
    assert(taken.text@ + rest.text@ =~= c.text@);
}

/// Slicing a cursor by its whole length gives back its text and context.
pub proof fn lemma_slice_whole<'a, O>(c: Input<'a, O>, r: Input<'a, O>)
    requires
        is_slice_of(r, c, 0, c.text@.len() as int),
    ensures
        r.text@ == c.text@,
        r.opts == c.opts,
{
    assert(r.text@ =~= c.text@);
}

} // verus!
