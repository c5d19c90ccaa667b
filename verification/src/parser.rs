//! Reading delimited groups of items out of source text.
use vstd::prelude::*;

verus! {

/// A position in a source text: how many characters into the text it is,
/// and the text from there on.
#[derive(Clone, Copy)]
pub struct Span<'a> {
    pub offset: usize,
    pub fragment: &'a str,
}

/// The mathematical model of a [`Span`].
pub struct SpanView {
    pub offset: int,
    pub text: Seq<char>,
}

impl<'a> View for Span<'a> {
    type V = SpanView;

    open spec fn view(&self) -> SpanView {
        SpanView { offset: self.offset as int, text: self.fragment@ }
    }
}

/// What a parser expected and did not find.
#[derive(Clone, Copy, PartialEq, Eq, Structural, Debug)]
pub enum ErrorKind {
    /// A fixed piece of text.
    Tag,
    /// An item that consumes input, or the closing text.
    ManyTill,
}

/// Where a parser failed, and what it expected there.
#[derive(Clone, Copy)]
pub struct ParseError<'a> {
    pub input: Span<'a>,
    pub code: ErrorKind,
}

/// A failed parse. An `Error` lets an alternative be tried; a `Failure` does not.
pub enum Failure<'a> {
    Error(ParseError<'a>),
    Failure(ParseError<'a>),
}

/// A group of items between an opening and a closing piece of text.
pub struct Group<'a, T> {
    pub open: Span<'a>,
    pub close: Span<'a>,
    pub values: Vec<T>,
}

/// What reading items up to the closing text can come to: the items, the
/// closing text and the input after it; or a failure, whether fatal, where,
/// and what was expected.
pub enum TillOutcome<T> {
    Done(Seq<T>, SpanView, SpanView),
    Failed(bool, SpanView, ErrorKind),
}

/// What a parse of a group can come to.
pub enum GroupOutcome<T> {
    /// The group was read: its opening text, the items, its closing text,
    /// and the input after it.
    Done(SpanView, Seq<T>, SpanView, SpanView),
    /// It failed: whether fatally, where, and what was expected.
    Failed(bool, SpanView, ErrorKind),
}

pub open spec fn failure_view<T>(f: Failure) -> TillOutcome<T> {
    match f {
        Failure::Error(e) => TillOutcome::Failed(false, e.input@, e.code),
        Failure::Failure(e) => TillOutcome::Failed(true, e.input@, e.code),
    }
}

pub open spec fn starts_with(s: Seq<char>, p: Seq<char>) -> bool {
    p.len() <= s.len() && s.subrange(0, p.len() as int) == p
}

/// The first `n` characters at a position.
pub open spec fn span_prefix(s: SpanView, n: int) -> SpanView {
    SpanView { offset: s.offset, text: s.text.subrange(0, n) }
}

/// The position `n` characters on.
pub open spec fn span_after(s: SpanView, n: int) -> SpanView {
    SpanView { offset: s.offset + n, text: s.text.subrange(n, s.text.len() as int) }
}

/// What reading items up to the closing text can come to, from `cur`, with
/// the items `acc` read so far. Before each item, spaces are skipped and the
/// closing text is looked for; an item that fails ends the group with its
/// failure, and one that consumes nothing ends it with an error.
pub open spec fn till_outcome<'a, T, S, I>(
    close: Seq<char>,
    skip: S,
    item: I,
    cur: Span<'a>,
    acc: Seq<T>,
    out: TillOutcome<T>,
) -> bool where S: Fn(Span<'a>) -> Span<'a>, I: Fn(Span<'a>) -> Result<(Span<'a>, T), Failure<'a>>
    decreases cur.fragment@.len(),
{
    exists|s: Span<'a>|
        #[trigger] call_ensures(skip, (cur,), s) && if starts_with(s.fragment@, close) {
            out == TillOutcome::Done(
                acc,
                span_prefix(s@, close.len() as int),
                span_after(s@, close.len() as int),
            )
        } else {
            exists|r: Result<(Span<'a>, T), Failure<'a>>|
                #[trigger] call_ensures(item, (cur,), r) && match r {
                    Err(f) => out == failure_view::<T>(f),
                    Ok((i1, o)) => if i1.fragment@.len() >= cur.fragment@.len() {
                        out == TillOutcome::<T>::Failed(false, i1@, ErrorKind::ManyTill)
                    } else {
                        till_outcome(close, skip, item, i1, acc.push(o), out)
                    },
                }
        }
}

/// The outcome of a group that opened at `open`, once its items are read.
pub open spec fn group_of<T>(open: SpanView, t: TillOutcome<T>) -> GroupOutcome<T> {
    match t {
        TillOutcome::Done(v, c, r) => GroupOutcome::Done(open, v, c, r),
        TillOutcome::Failed(f, at, k) => GroupOutcome::Failed(f, at, k),
    }
}

/// What parsing a group can come to: spaces are skipped and the opening
/// text is expected, then items are read up to the closing text.
pub open spec fn group_outcome<'a, T, S, I>(
    open: Seq<char>,
    close: Seq<char>,
    skip: S,
    item: I,
    input: Span<'a>,
    out: GroupOutcome<T>,
) -> bool where S: Fn(Span<'a>) -> Span<'a>, I: Fn(Span<'a>) -> Result<(Span<'a>, T), Failure<'a>> {
    exists|s: Span<'a>|
        #[trigger] call_ensures(skip, (input,), s) && if starts_with(s.fragment@, open) {
            exists|rest: Span<'a>, t: TillOutcome<T>|
                rest@ == span_after(s@, open.len() as int) && #[trigger] till_outcome(
                    close,
                    skip,
                    item,
                    rest,
                    Seq::empty(),
                    t,
                ) && out == group_of(span_prefix(s@, open.len() as int), t)
        } else {
            out == GroupOutcome::<T>::Failed(false, s@, ErrorKind::Tag)
        }
}

/// The outcome a parse result stands for.
pub open spec fn result_outcome<'a, T>(r: Result<(Span<'a>, Group<'a, T>), Failure<'a>>) -> GroupOutcome<T> {
    match r {
        Ok((rest, g)) => GroupOutcome::Done(g.open@, g.values@, g.close@, rest@),
        Err(Failure::Error(e)) => GroupOutcome::Failed(false, e.input@, e.code),
        Err(Failure::Failure(e)) => GroupOutcome::Failed(true, e.input@, e.code),
    }
}

/// Whether the text at `s` starts with `t`.
fn has_prefix(s: &str, t: &str) -> (r: bool)
    ensures
        r == starts_with(s@, t@),
{
    let n = t.unicode_len();
    let m = s.unicode_len();
    if n > m {
        return false;
    }
    let mut i: usize = 0;
    while i < n
        invariant
            n == t@.len(),
            m == s@.len(),
            n <= m,
            i <= n,
            forall|j: int| 0 <= j < i ==> s@[j] == t@[j],
        decreases n - i,
    {
        if s.get_char(i) != t.get_char(i) {
            assert(s@.subrange(0, n as int)[i as int] != t@[i as int]);
            return false;
        }
        i = i + 1;
    }
    assert(s@.subrange(0, n as int) =~= t@);
    true
}

/// Expects the text `t` at `s`: gives the position after it and the text
/// matched, or a `Tag` error at `s`.
fn tag<'a>(t: &str, s: Span<'a>) -> (r: Result<(Span<'a>, Span<'a>), ParseError<'a>>)
    requires
        s.offset + s.fragment@.len() <= usize::MAX,
    ensures
        match r {
            Ok((rest, m)) => starts_with(s@.text, t@) && rest@ == span_after(s@, t@.len() as int)
                && m@ == span_prefix(s@, t@.len() as int),
            Err(e) => !starts_with(s@.text, t@) && e.input == s && e.code == ErrorKind::Tag,
        },
{
    if has_prefix(s.fragment, t) {
        let n = t.unicode_len();
        let m = s.fragment.unicode_len();
        let matched = Span { offset: s.offset, fragment: s.fragment.substring_char(0, n) };
        let rest = Span { offset: s.offset + n, fragment: s.fragment.substring_char(n, m) };
        Ok((rest, matched))
    } else {
        Err(ParseError { input: s, code: ErrorKind::Tag })
    }
}

/// Parses `open`, then items up to `close`, skipping spaces before each.
pub fn parse_group<'a, S, T, I>(open: &str, close: &str, skip_space: S, item: I, input: Span<'a>) -> (r:
    Result<(Span<'a>, Group<'a, T>), Failure<'a>>) where
    S: Fn(Span<'a>) -> Span<'a>,
    I: Fn(Span<'a>) -> Result<(Span<'a>, T), Failure<'a>>,

    requires
        forall|i: Span<'a>| call_requires(skip_space, (i,)),
        forall|i: Span<'a>| call_requires(item, (i,)),
        forall|i: Span<'a>, o: Span<'a>|
            call_ensures(skip_space, (i,), o) ==> o.offset + o.fragment@.len() <= usize::MAX,
    ensures
        group_outcome(open@, close@, skip_space, item, input, result_outcome(r)),
{
    let s0 = skip_space(input);
    let (rest0, open_span) = match tag(open, s0) {
        Ok(x) => x,
        Err(e) => {
            return Err(Failure::Error(e));
        },
    };
    let ghost start = input;
    assert forall|t: TillOutcome<T>|
        till_outcome(close@, skip_space, item, rest0, Seq::empty(), t) implies group_outcome(
            open@,
            close@,
            skip_space,
            item,
            start,
            group_of(open_span@, t),
        ) by {
        assert(call_ensures(skip_space, (start,), s0));
    }
    let mut cur = rest0;
    let mut values: Vec<T> = Vec::new();
    loop
        invariant
            forall|i: Span<'a>| call_requires(skip_space, (i,)),
            forall|i: Span<'a>| call_requires(item, (i,)),
            forall|i: Span<'a>, o: Span<'a>|
                call_ensures(skip_space, (i,), o) ==> o.offset + o.fragment@.len() <= usize::MAX,
            forall|t: TillOutcome<T>|
                till_outcome(close@, skip_space, item, cur, values@, t) ==> till_outcome(
                    close@,
                    skip_space,
                    item,
                    rest0,
                    Seq::empty(),
                    t,
                ),
            start == input,
            forall|t: TillOutcome<T>|
                till_outcome(close@, skip_space, item, rest0, Seq::empty(), t) ==> group_outcome(
                    open@,
                    close@,
                    skip_space,
                    item,
                    start,
                    group_of(open_span@, t),
                ),
        decreases cur.fragment@.len(),
    {
        let s = skip_space(cur);
        match tag(close, s) {
            Ok((rest, close_span)) => {
                let ghost t = TillOutcome::Done(values@, close_span@, rest@);
                assert(till_outcome(close@, skip_space, item, cur, values@, t));
                let group = Group { open: open_span, close: close_span, values };
                assert(result_outcome(Ok::<(Span<'a>, Group<'a, T>), Failure<'a>>((rest, group)))
                    == group_of(open_span@, t));
                assert(till_outcome(close@, skip_space, item, rest0, Seq::empty(), t));
                assert(group_outcome(open@, close@, skip_space, item, start, group_of(open_span@, t)));

                return Ok((rest, group));
            },
            Err(_) => {},
        }
        let r = item(cur);
        match r {
            Err(f) => {
                let ghost t = failure_view::<T>(f);
                assert(till_outcome(close@, skip_space, item, cur, values@, t));
                assert(till_outcome(close@, skip_space, item, rest0, Seq::empty(), t));
                assert(group_outcome(open@, close@, skip_space, item, start, group_of(open_span@, t)));
                assert(result_outcome(Err::<(Span<'a>, Group<'a, T>), Failure<'a>>(f)) == group_of(
                    open_span@,
                    t,
                ));
                return Err(f);
            },
            Ok((i1, o)) => {
                if i1.fragment.unicode_len() >= cur.fragment.unicode_len() {
                    let ghost t = TillOutcome::<T>::Failed(false, i1@, ErrorKind::ManyTill);
                    assert(till_outcome(close@, skip_space, item, cur, values@, t));
                    let e = Failure::Error(ParseError { input: i1, code: ErrorKind::ManyTill });
                    assert(result_outcome(Err::<(Span<'a>, Group<'a, T>), Failure<'a>>(e))
                        == group_of(open_span@, t));
                    assert(till_outcome(close@, skip_space, item, rest0, Seq::empty(), t));
                assert(group_outcome(open@, close@, skip_space, item, start, group_of(open_span@, t)));

                    return Err(e);
                }
                let ghost prev = cur;
                let ghost acc = values@;
                values.push(o);
                cur = i1;
                assert forall|t: TillOutcome<T>|
                    till_outcome(close@, skip_space, item, cur, values@, t) implies till_outcome(
                        close@,
                        skip_space,
                        item,
                        prev,
                        acc,
                        t,
                    ) by {
                    assert(call_ensures(item, (prev,), r));
                }
            },
        }
    }
}

proof fn lemma_till_done_closes<'a, T, S, I>(
    close: Seq<char>,
    skip: S,
    item: I,
    cur: Span<'a>,
    acc: Seq<T>,
    out: TillOutcome<T>,
) where S: Fn(Span<'a>) -> Span<'a>, I: Fn(Span<'a>) -> Result<(Span<'a>, T), Failure<'a>>
    requires
        till_outcome(close, skip, item, cur, acc, out),
    ensures
        out matches TillOutcome::Done(_, c, r) ==> c.text == close && c.offset + close.len()
            == r.offset,
    decreases cur.fragment@.len(),
{
    let s = choose|s: Span<'a>|
        #[trigger] call_ensures(skip, (cur,), s) && if starts_with(s.fragment@, close) {
            out == TillOutcome::Done(
                acc,
                span_prefix(s@, close.len() as int),
                span_after(s@, close.len() as int),
            )
        } else {
            exists|r: Result<(Span<'a>, T), Failure<'a>>|
                #[trigger] call_ensures(item, (cur,), r) && match r {
                    Err(f) => out == failure_view::<T>(f),
                    Ok((i1, o)) => if i1.fragment@.len() >= cur.fragment@.len() {
                        out == TillOutcome::<T>::Failed(false, i1@, ErrorKind::ManyTill)
                    } else {
                        till_outcome(close, skip, item, i1, acc.push(o), out)
                    },
                }
        };
    if !starts_with(s.fragment@, close) {
        let r = choose|r: Result<(Span<'a>, T), Failure<'a>>|
            #[trigger] call_ensures(item, (cur,), r) && match r {
                Err(f) => out == failure_view::<T>(f),
                Ok((i1, o)) => if i1.fragment@.len() >= cur.fragment@.len() {
                    out == TillOutcome::<T>::Failed(false, i1@, ErrorKind::ManyTill)
                } else {
                    till_outcome(close, skip, item, i1, acc.push(o), out)
                },
            };
        match r {
            Ok((i1, o)) => if i1.fragment@.len() < cur.fragment@.len() {
                lemma_till_done_closes(close, skip, item, i1, acc.push(o), out);
            },
            Err(_) => {},
        }
    }
}

/// A group that parses starts with its opening text and ends with its
/// closing text, and the input goes on right after the closing text.
pub proof fn law_group_has_its_delimiters<'a, T, S, I>(
    open: Seq<char>,
    close: Seq<char>,
    skip: S,
    item: I,
    input: Span<'a>,
    out: GroupOutcome<T>,
) where S: Fn(Span<'a>) -> Span<'a>, I: Fn(Span<'a>) -> Result<(Span<'a>, T), Failure<'a>>
    requires
        group_outcome(open, close, skip, item, input, out),
    ensures
        out matches GroupOutcome::Done(o, _, c, r) ==> o.text == open && c.text == close
            && c.offset + close.len() == r.offset,
{
    let s = choose|s: Span<'a>|
        #[trigger] call_ensures(skip, (input,), s) && if starts_with(s.fragment@, open) {
            exists|rest: Span<'a>, t: TillOutcome<T>|
                rest@ == span_after(s@, open.len() as int) && #[trigger] till_outcome(
                    close,
                    skip,
                    item,
                    rest,
                    Seq::empty(),
                    t,
                ) && out == group_of(span_prefix(s@, open.len() as int), t)
        } else {
            out == GroupOutcome::<T>::Failed(false, s@, ErrorKind::Tag)
        };
    if starts_with(s.fragment@, open) {
        let (rest, t) = choose|rest: Span<'a>, t: TillOutcome<T>|
            rest@ == span_after(s@, open.len() as int) && #[trigger] till_outcome(
                close,
                skip,
                item,
                rest,
                Seq::empty(),
                t,
            ) && out == group_of(span_prefix(s@, open.len() as int), t);
        lemma_till_done_closes(close, skip, item, rest, Seq::empty(), t);
    }
}

} // verus!
