//! Where the lines of a text begin and end.
use vstd::prelude::*;

use crate::text;

verus! {

/// Whether a text ends in a line feed.
pub open spec fn ends_line(s: Seq<char>) -> bool {
    s.len() > 0 && s.last() == '\n'
}


/// Whether a text holds no line feed.
pub open spec fn single_line(s: Seq<char>) -> bool {
    forall|i: int| 0 <= i < s.len() ==> #[trigger] s[i] != '\n'
}

/// Whether a text ends in a carriage return.
pub open spec fn ends_return(s: Seq<char>) -> bool {
    s.len() > 0 && s.last() == '\r'
}

/// What separates two lines is one line feed, so that what was joined comes
/// apart at the same places: none of the pieces holds a line feed, none that a
/// line feed follows ends in a carriage return, and the last is no empty piece
/// that nothing ends.
pub open spec fn separable(pieces: Seq<Seq<char>>, ended: bool) -> bool {
    &&& forall|i: int| 0 <= i < pieces.len() ==> single_line(#[trigger] pieces[i])
    &&& forall|i: int|
        0 <= i < pieces.len() && (i + 1 < pieces.len() || ended) ==> !ends_return(
            #[trigger] pieces[i],
        )
    &&& ended ==> pieces.len() > 0
    &&& !ended && pieces.len() > 0 ==> pieces.last().len() > 0
}

/// Behind a text that does not hold it, a character is found where the rest holds
/// it.
pub proof fn lemma_find_in_rest(front: Seq<char>, c: char, rest: Seq<char>)
    requires
        forall|i: int| 0 <= i < front.len() ==> #[trigger] front[i] != c,
    ensures
        text::find(front + rest, c) == front.len() + text::find(rest, c),
    decreases front.len(),
{
    let s = front + rest;
    if front.len() == 0 {
        assert(s == rest);
    } else {
        assert(s[0] == front[0]);
        assert(s.skip(1) == front.skip(1) + rest);
        lemma_find_in_rest(front.skip(1), c, rest);
    }
}

/// A character behind a text that holds none is found there.
pub proof fn lemma_find_behind(front: Seq<char>, c: char, rest: Seq<char>)
    requires
        forall|i: int| 0 <= i < front.len() ==> #[trigger] front[i] != c,
    ensures
        text::find(front + seq![c] + rest, c) == front.len(),
{
    let tail = seq![c] + rest;
    assert(front + seq![c] + rest == front + tail);
    assert(tail[0] == c);
    lemma_find_in_rest(front, c, tail);
}

proof fn lemma_find_none(s: Seq<char>)
    requires
        single_line(s),
    ensures
        text::find(s, '\n') == s.len(),
    decreases s.len(),
{
    if s.len() > 0 {
        assert(s[0] != '\n');
        lemma_find_none(s.skip(1));
    }
}

pub proof fn lemma_find_bounds(s: Seq<char>)
    ensures
        text::find(s, '\n') <= s.len(),
        single_line(s.take(text::find(s, '\n') as int)),
        text::find(s, '\n') < s.len() ==> s[text::find(s, '\n') as int] == '\n',
    decreases s.len(),
{
    let n = text::find(s, '\n') as int;
    if s.len() > 0 && s[0] != '\n' {
        lemma_find_bounds(s.skip(1));
        assert forall|i: int| 0 <= i < n implies #[trigger] s.take(n)[i] != '\n' by {
            if i > 0 {
                assert(s.skip(1).take(n - 1)[i - 1] == s[i]);
            }
        }
    }
}

/// Whether pieces that are joined by line feeds come apart into as many lines: none
/// holds a line feed, and the last is no empty piece that nothing ends.
pub open spec fn countable(pieces: Seq<Seq<char>>, ended: bool) -> bool {
    &&& forall|i: int| 0 <= i < pieces.len() ==> single_line(#[trigger] pieces[i])
    &&& ended ==> pieces.len() > 0
    &&& !ended && pieces.len() > 0 ==> pieces.last().len() > 0
}

/// The pieces, each that a line feed follows without one carriage return at its
/// end.
pub open spec fn without_returns(pieces: Seq<Seq<char>>, ended: bool) -> Seq<Seq<char>> {
    Seq::new(
        pieces.len(),
        |i: int|
            if i + 1 < pieces.len() || ended {
                text::without_carriage_return(pieces[i])
            } else {
                pieces[i]
            },
    )
}

/// The lines of pieces that were joined are the pieces, but for a carriage return
/// that a line feed follows.
pub proof fn lemma_lines_of_pieces(pieces: Seq<Seq<char>>, ended: bool)
    requires
        countable(pieces, ended),
    ensures
        text::lines(
            text::join(pieces, "\n"@) + if ended {
                "\n"@
            } else {
                Seq::<char>::empty()
            },
        ) == without_returns(pieces, ended),
    decreases pieces.len(),
{
    reveal_strlit("\n");
    let end = if ended {
        "\n"@
    } else {
        Seq::<char>::empty()
    };
    let whole = text::join(pieces, "\n"@) + end;
    let expected = without_returns(pieces, ended);
    if pieces.len() == 0 {
        assert(whole == Seq::<char>::empty());
        assert(text::lines(whole) == expected);
    } else {
        let first = pieces[0];
        assert(single_line(first));
        let rest = pieces.skip(1);
        if rest.len() == 0 && !ended {
            assert(whole == first);
            assert(first == pieces.last());
            lemma_find_none(first);
            assert(expected == seq![first]);
        } else if rest.len() == 0 {
            assert(whole == first + seq!['\n'] + Seq::<char>::empty());
            lemma_find_behind(first, '\n', Seq::<char>::empty());
            assert(whole.take(first.len() as int) == first);
            assert(whole.skip(first.len() as int + 1) == Seq::<char>::empty());
            assert(text::lines(Seq::<char>::empty()) == Seq::<Seq<char>>::empty());
            assert(text::lines(whole) == seq![text::without_carriage_return(first)] + Seq::<
                Seq<char>,
            >::empty());
            assert(expected == seq![text::without_carriage_return(first)]);
        } else {
            assert forall|i: int| 0 <= i < rest.len() implies single_line(#[trigger] rest[i]) by {
                assert(rest[i] == pieces[i + 1]);
            }
            assert(rest.last() == pieces.last());
            lemma_lines_of_pieces(rest, ended);
            let tail = text::join(rest, "\n"@) + end;
            assert(whole == first + seq!['\n'] + tail);
            lemma_find_behind(first, '\n', tail);
            assert(whole.take(first.len() as int) == first);
            assert(whole.skip(first.len() as int + 1) == tail);
            assert(text::lines(whole) == seq![text::without_carriage_return(first)]
                + without_returns(rest, ended));
            assert(expected == seq![text::without_carriage_return(first)] + without_returns(
                rest,
                ended,
            ));
        }
    }
}

/// The lines of pieces that were joined are the pieces.
pub proof fn lemma_lines_of_join(pieces: Seq<Seq<char>>, ended: bool)
    requires
        separable(pieces, ended),
    ensures
        text::lines(
            text::join(pieces, "\n"@) + if ended {
                "\n"@
            } else {
                Seq::<char>::empty()
            },
        ) == pieces,
{
    lemma_lines_of_pieces(pieces, ended);
    assert forall|i: int| 0 <= i < pieces.len() implies #[trigger] without_returns(
        pieces,
        ended,
    )[i] == pieces[i] by {
        if i + 1 < pieces.len() || ended {
            assert(!ends_return(pieces[i]));
        }
    }
    assert(without_returns(pieces, ended) == pieces);
}

/// No line holds a line feed, and the last line of a text that ends in none is
/// not empty.
pub proof fn lemma_lines(s: Seq<char>)
    ensures
        forall|i: int| 0 <= i < text::lines(s).len() ==> single_line(#[trigger] text::lines(s)[i]),
        s.len() > 0 ==> text::lines(s).len() > 0,
        s.len() > 0 && !ends_line(s) ==> text::lines(s).last().len() > 0,
    decreases s.len(),
{
    if s.len() > 0 {
        let n = text::find(s, '\n') as int;
        lemma_find_bounds(s);
        if n >= s.len() {
            assert(s.take(n) == s);
        } else {
            let rest = s.skip(n + 1);
            let first = text::without_carriage_return(s.take(n));
            lemma_lines(rest);
            assert(text::lines(s) == seq![first] + text::lines(rest));
            assert forall|i: int| 0 <= i < text::lines(s).len() implies single_line(
                #[trigger] text::lines(s)[i],
            ) by {
                if i == 0 {
                    assert forall|j: int| 0 <= j < first.len() implies #[trigger] first[j] != '\n' by {
                        assert(first[j] == s.take(n)[j]);
                    }
                } else {
                    assert(text::lines(s)[i] == text::lines(rest)[i - 1]);
                }
            }
            if !ends_line(s) {
                assert(rest.len() > 0);
                assert(rest.last() == s.last());
                assert(text::lines(s).last() == text::lines(rest).last());
            }
        }
    }
}

/// A line that a carriage return and a line feed end is the first of the lines.
pub proof fn lemma_first_line(line: Seq<char>, rest: Seq<char>)
    requires
        single_line(line),
    ensures
        text::lines(line + "\r\n"@ + rest) == seq![line] + text::lines(rest),
{
    reveal_strlit("\r\n");
    let whole = line + "\r\n"@ + rest;
    let ended = line.push('\r');
    assert(whole == ended + seq!['\n'] + rest);
    assert(single_line(ended));
    lemma_find_behind(ended, '\n', rest);
    let n = text::find(whole, '\n') as int;
    assert(whole.take(n) == ended);
    assert(ended.drop_last() == line);
    assert(whole.skip(n + 1) == rest);
}

/// Two texts without a line feed make one without.
pub proof fn lemma_single_line_sum(one: Seq<char>, other: Seq<char>)
    requires
        single_line(one),
        single_line(other),
    ensures
        single_line(one + other),
{
    assert forall|i: int| 0 <= i < (one + other).len() implies #[trigger] (one + other)[i]
        != '\n' by {
        if i < one.len() {
            assert((one + other)[i] == one[i]);
        } else {
            assert((one + other)[i] == other[i - one.len()]);
        }
    }
}

/// The lines of a text: none where it is empty, itself where nothing ends it, and
/// otherwise what stands before the first line end, with the lines behind it. A line
/// feed ends a line, or a carriage return with a line feed behind it.
pub proof fn law_lines_of_text(line: Seq<char>, rest: Seq<char>)
    requires
        single_line(line),
    ensures
        text::lines(Seq::<char>::empty()) == Seq::<Seq<char>>::empty(),
        line.len() > 0 ==> text::lines(line) == seq![line],
        text::lines(line + "\r\n"@ + rest) == seq![line] + text::lines(rest),
        line.len() == 0 || line.last() != '\r' ==> text::lines(line + "\n"@ + rest) == seq![line]
            + text::lines(rest),
{
    reveal_strlit("\n");
    lemma_find_none(line);
    lemma_first_line(line, rest);
    let whole = line + "\n"@ + rest;
    assert(whole == line + seq!['\n'] + rest);
    lemma_find_behind(line, '\n', rest);
    assert(whole.take(line.len() as int) == line);
    assert(whole.skip(line.len() as int + 1) == rest);
}

} // verus!
