//! The cursor: a span of text with a borrowed context, and every operation a
//! parse engine performs on its input.
use crate::text::{
    answers_until, callable_on, nom_compare, nom_compare_no_case, nom_split_complete, split_outcome,
    split_text, str_view, CompareOutcome, ParseErr,
};
use nom::error::ErrorKind;
use vstd::prelude::*;

verus! {

/// A view over the remaining text together with a borrowed context value.
///
/// Every cursor derived from another one keeps the same context; only the
/// text span changes.
#[derive(Debug)]
pub struct Input<'a, O> {
    pub text: &'a str,
    pub opts: &'a O,
}

/// What a split of cursors yields, as texts.
pub open spec fn cursor_view<'a, O>(
    r: Result<(Input<'a, O>, Input<'a, O>), ParseErr<Input<'a, O>>>,
) -> Result<(Seq<char>, Seq<char>), ParseErr<Seq<char>>> {
    match r {
        Ok((rest, head)) => Ok((rest.text@, head.text@)),
        Err(ParseErr::Incomplete(n)) => Err(ParseErr::Incomplete(n)),
        Err(ParseErr::Error(at, kind)) => Err(ParseErr::Error(at.text@, kind)),
        Err(ParseErr::Failure(at, kind)) => Err(ParseErr::Failure(at.text@, kind)),
    }
}

/// Every cursor in `r` carries the context `opts`.
pub open spec fn keeps_context<'a, O>(
    r: Result<(Input<'a, O>, Input<'a, O>), ParseErr<Input<'a, O>>>,
    opts: &'a O,
) -> bool {
    match r {
        Ok((rest, head)) => rest.opts == opts && head.opts == opts,
        Err(ParseErr::Incomplete(_)) => true,
        Err(ParseErr::Error(at, _)) => at.opts == opts,
        Err(ParseErr::Failure(at, _)) => at.opts == opts,
    }
}

/// `r` is the cursor over the characters `start..end` of `c`, with its context.
pub open spec fn is_slice_of<'a, O>(r: Input<'a, O>, c: Input<'a, O>, start: int, end: int) -> bool {
    &&& r.opts == c.opts
    &&& r.text@ == c.text@.subrange(start, end)
}

impl<'a, O> Clone for Input<'a, O> {
    fn clone(&self) -> (r: Self)
        ensures
            r == *self,
    {
        Input { text: self.text, opts: self.opts }
    }
}

impl<'a, O> Copy for Input<'a, O> {}

/// Two cursors are equal when their texts are; the contexts play no part.
impl<'a, O> PartialEq for Input<'a, O> {
    fn eq(&self, o: &Input<'a, O>) -> (r: bool) {
        let same_len = self.text.unicode_len() == o.text.unicode_len();
        let starts = nom_compare(self.text, o.text) == CompareOutcome::Match;
        proof {
            if same_len && starts {
                assert(self.text@ =~= o.text@);
            }
            if self.text@ == o.text@ {
                assert(self.text@.take(o.text@.len() as int) =~= o.text@);
            }
        }
        same_len && starts
    }
}

impl<'a, O> vstd::std_specs::cmp::PartialEqSpecImpl for Input<'a, O> {
    open spec fn obeys_eq_spec() -> bool {
        true
    }

    open spec fn eq_spec(&self, o: &Input<'a, O>) -> bool {
        self.text@ == o.text@
    }
}

impl<'a, O> Input<'a, O> {
    /// Builds the root cursor over `input_text`, carrying `options`.
    pub fn new(input_text: &'a str, options: &'a O) -> (r: Input<'a, O>)
        ensures
            r.text == input_text,
            r.opts == options,
    {
        Input { text: input_text, opts: options }
    }

    /// The text of the cursor, as a plain string slice.
    pub fn as_ref(&self) -> (r: &'a str)
        ensures
            r == self.text,
    {
        self.text
    }

    /// Number of characters left in the span.
    pub fn input_len(&self) -> (r: usize)
        ensures
            r == self.text@.len(),
    {
        self.text.unicode_len()
    }

    /// The cursor over `t`, with this cursor's context.
    fn with_text(&self, t: &'a str) -> (r: Input<'a, O>)
        ensures
            r.text == t,
            r.opts == self.opts,
    {
        Input { text: t, opts: self.opts }
    }

    /// Turns a split of this cursor's text into a split of cursors that all
    /// carry this cursor's context.
    fn rewrap(&self, r: Result<(&'a str, &'a str), ParseErr<&'a str>>) -> (out: Result<
        (Input<'a, O>, Input<'a, O>),
        ParseErr<Input<'a, O>>,
    >)
        ensures
            cursor_view(out) == str_view(r),
            keeps_context(out, self.opts),
    {
        match r {
            Ok((rest, head)) => Ok((self.with_text(rest), self.with_text(head))),
            Err(ParseErr::Incomplete(n)) => Err(ParseErr::Incomplete(n)),
            Err(ParseErr::Error(at, kind)) => Err(ParseErr::Error(self.with_text(at), kind)),
            Err(ParseErr::Failure(at, kind)) => Err(ParseErr::Failure(self.with_text(at), kind)),
        }
    }

    /// Splits before the first character on which `p` fails, as
    /// (remainder, consumed). Reaching the end of the span while `p` still
    /// holds asks for more input.
    pub fn split_at_position<P: Fn(char) -> bool>(&self, p: P) -> (r: Result<
        (Input<'a, O>, Input<'a, O>),
        ParseErr<Input<'a, O>>,
    >)
        requires
            callable_on(self.text@, p),
        ensures
            split_outcome(self.text@, p, false, None, cursor_view(r)),
            keeps_context(r, self.opts),
    {
        self.rewrap(split_text(self.text, p, false, None))
    }

    /// As `split_at_position`, but consuming nothing is a mismatch tagged `e`.
    pub fn split_at_position1<P: Fn(char) -> bool>(&self, p: P, e: ErrorKind) -> (r: Result<
        (Input<'a, O>, Input<'a, O>),
        ParseErr<Input<'a, O>>,
    >)
        requires
            callable_on(self.text@, p),
        ensures
            split_outcome(self.text@, p, false, Some(e), cursor_view(r)),
            keeps_context(r, self.opts),
    {
        self.rewrap(split_text(self.text, p, false, Some(e)))
    }

    /// Splits before the first character on which `p` fails, as
    /// (remainder, consumed); the span is all the input, so its end also
    /// ends the match.
    pub fn split_at_position_complete<P: Fn(char) -> bool>(&self, p: P) -> (r: Result<
        (Input<'a, O>, Input<'a, O>),
        ParseErr<Input<'a, O>>,
    >)
        requires
            callable_on(self.text@, p),
        ensures
            split_outcome(self.text@, p, true, None, cursor_view(r)),
            keeps_context(r, self.opts),
    {
        self.rewrap(split_text(self.text, p, true, None))
    }

    /// As `split_at_position_complete`, but consuming nothing is a mismatch
    /// tagged `e`.
    pub fn split_at_position1_complete<P: Fn(char) -> bool>(&self, p: P, e: ErrorKind) -> (r:
        Result<(Input<'a, O>, Input<'a, O>), ParseErr<Input<'a, O>>>)
        requires
            callable_on(self.text@, p),
        ensures
            split_outcome(self.text@, p, true, Some(e), cursor_view(r)),
            keeps_context(r, self.opts),
    {
        self.rewrap(split_text(self.text, p, true, Some(e)))
    }

    /// The cursor over the characters `r.start..r.end`.
    pub fn slice(&self, r: std::ops::Range<usize>) -> (out: Input<'a, O>)
        requires
            r.start <= r.end <= self.text@.len(),
        ensures
            is_slice_of(out, *self, r.start as int, r.end as int),
    {
        self.with_text(self.text.substring_char(r.start, r.end))
    }

    /// The cursor over the characters from `start` on.
    pub fn slice_from(&self, start: usize) -> (out: Input<'a, O>)
        requires
            start <= self.text@.len(),
        ensures
            is_slice_of(out, *self, start as int, self.text@.len() as int),
    {
        let len = self.text.unicode_len();
        self.with_text(self.text.substring_char(start, len))
    }

    /// The cursor over the characters before `end`.
    pub fn slice_to(&self, end: usize) -> (out: Input<'a, O>)
        requires
            end <= self.text@.len(),
        ensures
            is_slice_of(out, *self, 0, end as int),
    {
        self.with_text(self.text.substring_char(0, end))
    }

    /// The cursor over the first `count` characters.
    pub fn take(&self, count: usize) -> (out: Input<'a, O>)
        requires
            count <= self.text@.len(),
        ensures
            is_slice_of(out, *self, 0, count as int),
    {
        self.slice_to(count)
    }

    /// The cursors after and over the first `count` characters, as
    /// (remainder, taken).
    pub fn take_split(&self, count: usize) -> (out: (Input<'a, O>, Input<'a, O>))
        requires
            count <= self.text@.len(),
        ensures
            is_slice_of(out.0, *self, count as int, self.text@.len() as int),
            is_slice_of(out.1, *self, 0, count as int),
    {
        (self.slice_from(count), self.slice_to(count))
    }

    /// Each character of the span with its index, in order.
    pub fn iter_indices(&self) -> (r: Vec<(usize, char)>)
        ensures
            r@.len() == self.text@.len(),
            forall|i: int| 0 <= i < r@.len() ==> #[trigger] r@[i] == (i as usize, self.text@[i]),
    {
        let len = self.text.unicode_len();
        let mut out: Vec<(usize, char)> = Vec::new();
        let mut i: usize = 0;
        while i < len
            invariant
                len == self.text@.len(),
                i <= len,
                out@.len() == i,
                forall|j: int| 0 <= j < i ==> #[trigger] out@[j] == (j as usize, self.text@[j]),
            decreases len - i,
        {
            out.push((i, self.text.get_char(i)));
            i = i + 1;
        }
        out
    }

    /// The characters of the span, in order.
    pub fn iter_elements(&self) -> (r: Vec<char>)
        ensures
            r@ == self.text@,
    {
        let len = self.text.unicode_len();
        let mut out: Vec<char> = Vec::new();
        let mut i: usize = 0;
        while i < len
            invariant
                len == self.text@.len(),
                i <= len,
                out@ == self.text@.take(i as int),
            decreases len - i,
        {
            out.push(self.text.get_char(i));
            i = i + 1;
        }
        out
    }

    /// The index of the first character on which `p` holds, if any.
    pub fn position<P: Fn(char) -> bool>(&self, p: P) -> (r: Option<usize>)
        requires
            callable_on(self.text@, p),
        ensures
            match r {
                Some(k) => k < self.text@.len() && answers_until(self.text@, p, k as int, false),
                None => answers_until(self.text@, p, self.text@.len() as int, false),
            },
    {
        let len = self.text.unicode_len();
        match nom_split_complete(self.text, p) {
            Ok((_, head)) => {
                let k = head.unicode_len();
                if k < len {
                    Some(k)
                } else {
                    None
                }
            },
            Err(_) => None,
        }
    }

    /// The index reached by advancing `count` characters, if the span has
    /// that many.
    pub fn slice_index(&self, count: usize) -> (r: Option<usize>)
        ensures
            r == (if count <= self.text@.len() {
                Some(count)
            } else {
                None::<usize>
            }),
    {
        if count <= self.text.unicode_len() {
            Some(count)
        } else {
            None
        }
    }

    /// Compares the start of the span with `s`, character for character.
    pub fn compare(&self, s: &str) -> (r: CompareOutcome)
        ensures
            r == crate::text::compare_outcome(self.text@, s@),
    {
        nom_compare(self.text, s)
    }

    /// Compares the start of the span with `s`, ignoring case.
    pub fn compare_no_case(&self, s: &str) -> (r: CompareOutcome)
        ensures
            r == crate::text::compare_no_case_outcome(self.text@, s@),
    {
        nom_compare_no_case(self.text, s)
    }
}

} // verus!
