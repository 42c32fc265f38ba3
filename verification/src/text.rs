//! Character-level operations on text, stated over `Seq<char>`.
use vstd::prelude::*;
use vstd::slice::{slice_subrange, slice_to_vec};

verus! {

/// Whether a character has the Unicode `White_Space` property.
pub open spec fn white_space(c: char) -> bool {
    let n = c as u32;
    ||| 0x09 <= n <= 0x0d
    ||| n == 0x20
    ||| n == 0x85
    ||| n == 0xa0
    ||| n == 0x1680
    ||| 0x2000 <= n <= 0x200a
    ||| n == 0x2028
    ||| n == 0x2029
    ||| n == 0x202f
    ||| n == 0x205f
    ||| n == 0x3000
}

/// The number of white-space characters at the front of `s`.
pub open spec fn indent_len(s: Seq<char>) -> nat
    decreases s.len(),
{
    if s.len() > 0 && white_space(s[0]) {
        1 + indent_len(s.skip(1))
    } else {
        0
    }
}

/// `s` without the white space at its front.
pub open spec fn trim_start(s: Seq<char>) -> Seq<char> {
    s.skip(indent_len(s) as int)
}

/// `s` without the white space at its end.
pub open spec fn trim_end(s: Seq<char>) -> Seq<char>
    decreases s.len(),
{
    if s.len() > 0 && white_space(s.last()) {
        trim_end(s.drop_last())
    } else {
        s
    }
}

/// `s` without the white space at either end.
pub open spec fn trim(s: Seq<char>) -> Seq<char> {
    trim_end(trim_start(s))
}

/// Whether every character of `s` is white space.
pub open spec fn blank(s: Seq<char>) -> bool {
    forall|i: int| 0 <= i < s.len() ==> white_space(#[trigger] s[i])
}

/// Whether `p` stands in `s` at position `i`.
pub open spec fn occurs_at(s: Seq<char>, p: Seq<char>, i: int) -> bool {
    0 <= i && i + p.len() <= s.len() && s.subrange(i, i + p.len()) == p
}

/// Whether `s` begins with `p`.
pub open spec fn starts_with(s: Seq<char>, p: Seq<char>) -> bool {
    occurs_at(s, p, 0)
}

/// Whether `p` stands anywhere in `s`.
pub open spec fn contains_text(s: Seq<char>, p: Seq<char>) -> bool {
    exists|i: int| #[trigger] occurs_at(s, p, i)
}

/// The position of the first `c` in `s`, or the length of `s` where there is none.
pub open spec fn find(s: Seq<char>, c: char) -> nat
    decreases s.len(),
{
    if s.len() == 0 || s[0] == c {
        0
    } else {
        1 + find(s.skip(1), c)
    }
}

/// `s` without one carriage return at its end, where it ends in one.
pub open spec fn without_carriage_return(s: Seq<char>) -> Seq<char> {
    if s.len() > 0 && s.last() == '\r' {
        s.drop_last()
    } else {
        s
    }
}

/// The lines of `s`. A line feed, or a carriage return with a line feed behind
/// it, ends a line and belongs to none; the last line needs no end.
pub open spec fn lines(s: Seq<char>) -> Seq<Seq<char>>
    decreases s.len(),
{
    if s.len() == 0 {
        seq![]
    } else if find(s, '\n') >= s.len() {
        seq![s]
    } else {
        seq![without_carriage_return(s.take(find(s, '\n') as int))] + lines(
            s.skip(find(s, '\n') as int + 1),
        )
    }
}

/// The pieces one behind the other, with `sep` between each two.
pub open spec fn join(pieces: Seq<Seq<char>>, sep: Seq<char>) -> Seq<char>
    decreases pieces.len(),
{
    if pieces.len() == 0 {
        seq![]
    } else if pieces.len() == 1 {
        pieces[0]
    } else {
        pieces[0] + sep + join(pieces.skip(1), sep)
    }
}

/// The length of the front of `s` that holds no white space.
pub open spec fn word_len(s: Seq<char>) -> nat
    decreases s.len(),
{
    if s.len() == 0 || white_space(s[0]) {
        0
    } else {
        1 + word_len(s.skip(1))
    }
}

/// The words of `s`, which white space separates.
pub open spec fn words(s: Seq<char>) -> Seq<Seq<char>>
    decreases s.len(),
{
    let t = trim_start(s);
    let n = word_len(t) as int;
    if n == 0 {
        seq![]
    } else {
        proof {
            lemma_indent(s);
            lemma_word_len(t);
        }
        seq![t.take(n)] + words(t.skip(n))
    }
}

/// A word is no longer than what it stands in.
pub proof fn lemma_word_len(s: Seq<char>)
    ensures
        word_len(s) <= s.len(),
    decreases s.len(),
{
    if s.len() > 0 && !white_space(s[0]) {
        lemma_word_len(s.skip(1));
    }
}

/// A letter of `A` to `Z` in lower case; any other character as it is.
pub open spec fn ascii_lower(c: char) -> char {
    if 'A' <= c <= 'Z' {
        (c as u8 + 32) as char
    } else {
        c
    }
}

/// A text in lower case, as far as it is ASCII.
pub open spec fn lowered(s: Seq<char>) -> Seq<char> {
    s.map_values(|c: char| ascii_lower(c))
}

/// What each string of a list holds.
pub open spec fn views(list: Seq<String>) -> Seq<Seq<char>> {
    list.map_values(|s: String| s@)
}

/// The standard library's `String::push`: it puts one character behind the
/// string's last.
pub assume_specification[ String::push ](s: &mut String, c: char)
    ensures
        final(s)@ == old(s)@.push(c),
;

/// The characters of a string.
pub fn chars_of(s: &str) -> (r: Vec<char>)
    ensures
        r@ == s@,
{
    let mut r: Vec<char> = Vec::new();
    for c in iter: s.chars()
        invariant
            r@ == s@.take(iter.index()),
            iter.seq() == s@,
    {
        r.push(c);
    }
    r
}

/// Puts characters behind the end of a string.
pub fn push_chars(s: &mut String, more: &[char])
    ensures
        final(s)@ == old(s)@ + more@,
{
    let mut i: usize = 0;
    while i < more.len()
        invariant
            i <= more@.len(),
            s@ == old(s)@ + more@.take(i as int),
        decreases more@.len() - i,
    {
        s.push(more[i]);
        i = i + 1;
    }
}

/// The string made of the given characters.
pub fn string_of(s: &[char]) -> (r: String)
    ensures
        r@ == s@,
{
    let mut r = String::new();
    push_chars(&mut r, s);
    r
}

/// Whether two strings hold the same characters.
pub fn same(a: &[char], b: &[char]) -> (r: bool)
    ensures
        r == (a@ == b@),
{
    if a.len() != b.len() {
        return false;
    }
    let mut i: usize = 0;
    while i < a.len()
        invariant
            i <= a@.len(),
            a@.len() == b@.len(),
            a@.take(i as int) == b@.take(i as int),
        decreases a@.len() - i,
    {
        if a[i] != b[i] {
            assert(a@[i as int] != b@[i as int]);
            return false;
        }
        i = i + 1;
    }
    assert(a@.take(i as int) == a@);
    assert(b@.take(i as int) == b@);
    true
}

/// Whether the character is white space.
pub fn is_white_space(c: char) -> (r: bool)
    ensures
        r == white_space(c),
{
    let n: u32 = c as u32;
    (0x09 <= n && n <= 0x0d) || n == 0x20 || n == 0x85 || n == 0xa0 || n == 0x1680 || (0x2000 <= n
        && n <= 0x200a) || n == 0x2028 || n == 0x2029 || n == 0x202f || n == 0x205f || n == 0x3000
}

/// Whether `p` stands in `s` at position `i`.
fn stands_at(s: &[char], p: &[char], i: usize) -> (r: bool)
    ensures
        r == occurs_at(s@, p@, i as int),
{
    if i > s.len() || p.len() > s.len() - i {
        return false;
    }
    same(slice_subrange(s, i, i + p.len()), p)
}

/// Whether `s` begins with `p`.
pub fn begins_with(s: &[char], p: &[char]) -> (r: bool)
    ensures
        r == starts_with(s@, p@),
{
    stands_at(s, p, 0)
}

/// Whether `p` stands anywhere in `s`.
pub fn holds(s: &[char], p: &[char]) -> (r: bool)
    ensures
        r == contains_text(s@, p@),
{
    let mut i: usize = 0;
    while i < s.len()
        invariant
            i <= s@.len(),
            forall|j: int| 0 <= j < i ==> !#[trigger] occurs_at(s@, p@, j),
        decreases s@.len() - i,
    {
        if stands_at(s, p, i) {
            return true;
        }
        i = i + 1;
    }
    stands_at(s, p, i)
}

/// The number of white-space characters at the front of `s`.
pub fn indent_of(s: &[char]) -> (n: usize)
    ensures
        n == indent_len(s@),
        n <= s@.len(),
{
    let mut n: usize = 0;
    assert(s@.skip(0) == s@);
    while n < s.len() && is_white_space(s[n])
        invariant
            n <= s@.len(),
            indent_len(s@) == n + indent_len(s@.skip(n as int)),
        decreases s@.len() - n,
    {
        assert(s@.skip(n as int).skip(1) == s@.skip(n + 1));
        n = n + 1;
    }
    n
}

/// `s` without the white space at either end.
pub fn trimmed<'a>(s: &'a [char]) -> (r: &'a [char])
    ensures
        r@ == trim(s@),
{
    let start: usize = indent_of(s);
    let ghost front = trim_start(s@);
    let mut end: usize = s.len();
    assert(s@.subrange(start as int, end as int) == front);
    while end > start && is_white_space(s[end - 1])
        invariant
            start <= end <= s@.len(),
            trim_end(front) == trim_end(s@.subrange(start as int, end as int)),
        decreases end,
    {
        assert(s@.subrange(start as int, end as int).drop_last() == s@.subrange(
            start as int,
            end - 1,
        ));
        end = end - 1;
    }
    slice_subrange(s, start, end)
}

/// Whether every character is white space.
pub fn is_blank(s: &[char]) -> (r: bool)
    ensures
        r == blank(s@),
{
    let mut i: usize = 0;
    while i < s.len()
        invariant
            i <= s@.len(),
            forall|j: int| 0 <= j < i ==> white_space(#[trigger] s@[j]),
        decreases s@.len() - i,
    {
        if !is_white_space(s[i]) {
            assert(!white_space(s@[i as int]));
            return false;
        }
        i = i + 1;
    }
    true
}

/// The position of the first `c` in `s`, or the length of `s`.
pub fn position(s: &[char], c: char) -> (n: usize)
    ensures
        n == find(s@, c),
        n <= s@.len(),
{
    let mut n: usize = 0;
    assert(s@.skip(0) == s@);
    while n < s.len() && s[n] != c
        invariant
            n <= s@.len(),
            find(s@, c) == n + find(s@.skip(n as int), c),
        decreases s@.len() - n,
    {
        assert(s@.skip(n as int).skip(1) == s@.skip(n + 1));
        n = n + 1;
    }
    n
}

/// A character in lower case, as far as it is ASCII.
fn lower(c: char) -> (r: char)
    ensures
        r == ascii_lower(c),
{
    if 'A' <= c && c <= 'Z' {
        (c as u8 + 32) as char
    } else {
        c
    }
}

/// A text in lower case, as far as it is ASCII.
pub fn lower_case(s: &[char]) -> (r: Vec<char>)
    ensures
        r@ == lowered(s@),
{
    let mut r: Vec<char> = Vec::new();
    let mut i: usize = 0;
    while i < s.len()
        invariant
            i <= s@.len(),
            r@ == lowered(s@).take(i as int),
        decreases s@.len() - i,
    {
        r.push(lower(s[i]));
        i = i + 1;
    }
    r
}

/// What each character sequence of a list holds.
pub open spec fn char_views(list: Seq<Vec<char>>) -> Seq<Seq<char>> {
    list.map_values(|s: Vec<char>| s@)
}

/// The lines of a text.
pub fn split_lines(s: &[char]) -> (r: Vec<Vec<char>>)
    ensures
        char_views(r@) == lines(s@),
{
    let mut r: Vec<Vec<char>> = Vec::new();
    let mut start: usize = 0;
    assert(s@.skip(0) == s@);
    assert(char_views(r@) + lines(s@) == lines(s@));
    while start < s.len()
        invariant
            start <= s@.len(),
            lines(s@) == char_views(r@) + lines(s@.skip(start as int)),
        decreases s@.len() - start,
    {
        let ghost before = r@;
        let rest = slice_subrange(s, start, s.len());
        assert(rest@ == s@.skip(start as int));
        let n: usize = position(rest, '\n');
        if n == rest.len() {
            r.push(slice_to_vec(rest));
            assert(char_views(r@) == char_views(before).push(rest@));
            start = s.len();
            assert(lines(s@.skip(start as int)) == Seq::<Seq<char>>::empty());
            assert(char_views(before) + seq![rest@] == char_views(r@) + Seq::<Seq<char>>::empty());
        } else {
            let mut end: usize = n;
            if n > 0 && rest[n - 1] == '\r' {
                end = n - 1;
            }
            let line = slice_subrange(rest, 0, end);
            assert(line@ == without_carriage_return(rest@.take(n as int)));
            r.push(slice_to_vec(line));
            assert(char_views(r@) == char_views(before).push(line@));
            assert(rest@.skip(n + 1) == s@.skip(start + n + 1));
            assert(char_views(before) + (seq![line@] + lines(rest@.skip(n + 1))) == char_views(r@)
                + lines(rest@.skip(n + 1)));
            start = start + n + 1;
        }
    }
    assert(lines(s@.skip(start as int)) == Seq::<Seq<char>>::empty());
    r
}

/// The length of the front of a text that holds no white space.
fn word_end(s: &[char]) -> (n: usize)
    ensures
        n == word_len(s@),
        n <= s@.len(),
{
    let mut n: usize = 0;
    assert(s@.skip(0) == s@);
    while n < s.len() && !is_white_space(s[n])
        invariant
            n <= s@.len(),
            word_len(s@) == n + word_len(s@.skip(n as int)),
        decreases s@.len() - n,
    {
        assert(s@.skip(n as int).skip(1) == s@.skip(n + 1));
        n = n + 1;
    }
    n
}

/// The words of a text.
pub fn split_words(s: &[char]) -> (r: Vec<Vec<char>>)
    ensures
        char_views(r@) == words(s@),
{
    let mut r: Vec<Vec<char>> = Vec::new();
    let mut start: usize = 0;
    assert(s@.skip(0) == s@);
    assert(char_views(r@) + words(s@) == words(s@));
    loop
        invariant
            start <= s@.len(),
            words(s@) == char_views(r@) + words(s@.skip(start as int)),
        ensures
            words(s@) == char_views(r@),
        decreases s@.len() - start,
    {
        let ghost before = r@;
        let rest = slice_subrange(s, start, s.len());
        assert(rest@ == s@.skip(start as int));
        let indent: usize = indent_of(rest);
        let body = slice_subrange(rest, indent, rest.len());
        assert(body@ == trim_start(rest@));
        let n: usize = word_end(body);
        if n == 0 {
            assert(words(rest@) == Seq::<Seq<char>>::empty());
            assert(char_views(r@) + words(rest@) == char_views(r@));
            break;
        }
        let word = slice_subrange(body, 0, n);
        r.push(slice_to_vec(word));
        proof {
            assert(word@ == body@.take(n as int));
            assert(char_views(r@) == char_views(before).push(word@));
            assert(body@.skip(n as int) == s@.skip(start + indent + n));
            assert(char_views(before) + (seq![word@] + words(body@.skip(n as int))) == char_views(
                r@,
            ) + words(body@.skip(n as int)));
        }
        start = start + indent + n;
    }
    r
}

/// Puts strings one behind the other, with a separator between each two.
pub fn join_strings(pieces: &[String], sep: &str) -> (r: String)
    ensures
        r@ == join(views(pieces@), sep@),
{
    let ghost all = views(pieces@);
    let mut r = String::new();
    let mut i: usize = 0;
    assert(all.take(0) == Seq::<Seq<char>>::empty());
    while i < pieces.len()
        invariant
            i <= pieces@.len(),
            all == views(pieces@),
            r@ == join(all.take(i as int), sep@),
        decreases pieces@.len() - i,
    {
        if i > 0 {
            r.append(sep);
        }
        r.append(pieces[i].as_str());
        proof {
            lemma_join_push(all.take(i as int), all[i as int], sep@);
            assert(all.take(i as int).push(all[i as int]) == all.take(i + 1));
        }
        i = i + 1;
    }
    assert(all.take(i as int) == all);
    r
}

/// A piece behind the others joins on behind a separator.
pub proof fn lemma_join_push(pieces: Seq<Seq<char>>, piece: Seq<char>, sep: Seq<char>)
    ensures
        join(pieces.push(piece), sep) == if pieces.len() == 0 {
            piece
        } else {
            join(pieces, sep) + sep + piece
        },
    decreases pieces.len(),
{
    reveal_with_fuel(join, 2);
    if pieces.len() > 1 {
        lemma_join_push(pieces.skip(1), piece, sep);
        assert(pieces.push(piece).skip(1) == pieces.skip(1).push(piece));
        assert(pieces[0] + sep + (join(pieces.skip(1), sep) + sep + piece) == pieces[0] + sep
            + join(pieces.skip(1), sep) + sep + piece);
    } else if pieces.len() == 1 {
        assert(pieces.push(piece).skip(1) == seq![piece]);
    }
}

/// The front that `indent_len` counts is white space, and what follows it
/// begins with none.
pub proof fn lemma_indent(s: Seq<char>)
    ensures
        indent_len(s) <= s.len(),
        blank(s.take(indent_len(s) as int)),
        s == s.take(indent_len(s) as int) + trim_start(s),
        trim_start(s).len() > 0 ==> !white_space(trim_start(s)[0]),
    decreases s.len(),
{
    if s.len() > 0 && white_space(s[0]) {
        let rest = s.skip(1);
        lemma_indent(rest);
        let n = indent_len(s) as int;
        assert forall|i: int| 0 <= i < n implies white_space(#[trigger] s.take(n)[i]) by {
            if i > 0 {
                assert(rest.take(n - 1)[i - 1] == s[i]);
            }
        }
        assert(rest.skip(n - 1) == s.skip(n));
    }
    assert(s == s.take(indent_len(s) as int) + trim_start(s));
}

/// White space in front of a text that begins with none is its indent.
pub proof fn lemma_indent_of_sum(front: Seq<char>, rest: Seq<char>)
    requires
        blank(front),
        rest.len() == 0 || !white_space(rest[0]),
    ensures
        indent_len(front + rest) == front.len(),
        trim_start(front + rest) == rest,
        (front + rest).take(front.len() as int) == front,
    decreases front.len(),
{
    let s = front + rest;
    if front.len() == 0 {
        assert(s == rest);
    } else {
        assert(white_space(front[0]));
        assert forall|i: int| 0 <= i < front.skip(1).len() implies white_space(
            #[trigger] front.skip(1)[i],
        ) by {
            assert(front.skip(1)[i] == front[i + 1]);
        }
        lemma_indent_of_sum(front.skip(1), rest);
        assert(s.skip(1) == front.skip(1) + rest);
    }
    assert(s.skip(front.len() as int) == rest);
    assert(s.take(front.len() as int) == front);
}

/// White space in front of a text is trimmed with the text's own.
proof fn lemma_trim_start_sum(front: Seq<char>, s: Seq<char>)
    requires
        blank(front),
    ensures
        trim_start(front + s) == trim_start(s),
    decreases front.len(),
{
    let whole = front + s;
    if front.len() == 0 {
        assert(whole == s);
    } else {
        assert(white_space(front[0]));
        assert forall|i: int| 0 <= i < front.skip(1).len() implies white_space(
            #[trigger] front.skip(1)[i],
        ) by {
            assert(front.skip(1)[i] == front[i + 1]);
        }
        lemma_trim_start_sum(front.skip(1), s);
        assert(whole.skip(1) == front.skip(1) + s);
        lemma_indent(whole.skip(1));
        assert(whole[0] == front[0]);
        assert(whole.skip(indent_len(whole) as int) == whole.skip(1).skip(
            indent_len(whole.skip(1)) as int,
        ));
    }
}

/// White space behind a text is trimmed with the text's own.
proof fn lemma_trim_end_sum(s: Seq<char>, back: Seq<char>)
    requires
        blank(back),
    ensures
        trim_end(s + back) == trim_end(s),
    decreases back.len(),
{
    let whole = s + back;
    if back.len() == 0 {
        assert(whole == s);
    } else {
        assert(white_space(back[back.len() - 1]));
        assert(whole.last() == back.last());
        assert forall|i: int| 0 <= i < back.drop_last().len() implies white_space(
            #[trigger] back.drop_last()[i],
        ) by {
            assert(back.drop_last()[i] == back[i]);
        }
        lemma_trim_end_sum(s, back.drop_last());
        assert(whole.drop_last() == s + back.drop_last());
    }
}

/// White space round a text is trimmed with the text's own.
pub proof fn lemma_trim_sum(front: Seq<char>, s: Seq<char>, back: Seq<char>)
    requires
        blank(front),
        blank(back),
    ensures
        trim(front + s + back) == trim(s),
{
    lemma_indent(s);
    let indent = s.take(indent_len(s) as int);
    let body = trim_start(s);
    assert(front + s + back == front + (s + back));
    lemma_trim_start_sum(front, s + back);
    assert(s + back == indent + (body + back));
    lemma_trim_start_sum(indent, body + back);
    if body.len() > 0 {
        assert((body + back)[0] == body[0]);
        assert(indent_len(body + back) == 0);
        assert(trim_start(body + back) == body + back);
        lemma_trim_end_sum(body, back);
    } else {
        let empty = Seq::<char>::empty();
        assert(body + back == back + empty);
        lemma_trim_start_sum(back, empty);
        assert(trim_start(empty) == empty);
        assert(body == empty);
    }
}

/// Letter case does not matter to what is trimmed.
pub proof fn lemma_trim_lowered(s: Seq<char>)
    ensures
        trim(lowered(s)) == lowered(trim(s)),
{
    lemma_trim_start_lowered(s);
    lemma_trim_end_lowered(trim_start(s));
}

proof fn lemma_trim_start_lowered(s: Seq<char>)
    ensures
        indent_len(lowered(s)) == indent_len(s),
        trim_start(lowered(s)) == lowered(trim_start(s)),
    decreases s.len(),
{
    if s.len() > 0 && white_space(s[0]) {
        lemma_trim_start_lowered(s.skip(1));
        assert(lowered(s).skip(1) == lowered(s.skip(1)));
        assert(indent_len(s) <= s.len()) by {
            lemma_indent(s);
        }
    }
    lemma_indent(s);
    assert(trim_start(lowered(s)) == lowered(trim_start(s)));
}

proof fn lemma_trim_end_lowered(s: Seq<char>)
    ensures
        trim_end(lowered(s)) == lowered(trim_end(s)),
    decreases s.len(),
{
    if s.len() > 0 && white_space(s.last()) {
        lemma_trim_end_lowered(s.drop_last());
        assert(lowered(s).drop_last() == lowered(s.drop_last()));
    }
}

/// Each piece stands in what the pieces were joined to.
pub proof fn lemma_piece_in_join(pieces: Seq<Seq<char>>, sep: Seq<char>, i: int)
    requires
        0 <= i < pieces.len(),
    ensures
        contains_text(join(pieces, sep), pieces[i]),
    decreases pieces.len(),
{
    let whole = join(pieces, sep);
    if i == 0 {
        assert(whole.subrange(0, pieces[0].len() as int) == pieces[0]);
        assert(occurs_at(whole, pieces[0], 0));
    } else {
        let rest = pieces.skip(1);
        lemma_piece_in_join(rest, sep, i - 1);
        let tail = join(rest, sep);
        let piece = pieces[i];
        assert(rest[i - 1] == piece);
        let at = choose|at: int| occurs_at(tail, piece, at);
        let n = pieces[0].len() + sep.len();
        assert(whole.subrange(at + n, at + n + pieces[i].len()) == tail.subrange(
            at,
            at + pieces[i].len(),
        ));
        assert(occurs_at(whole, pieces[i], at + n));
    }
}

/// A text is contained in another exactly where the other is something, the text,
/// and something behind it.
pub proof fn law_contained_text(s: Seq<char>, p: Seq<char>)
    ensures
        contains_text(s, p) <==> exists|a: Seq<char>, b: Seq<char>| s == #[trigger] (a + p + b),
{
    if contains_text(s, p) {
        let i = choose|i: int| #[trigger] occurs_at(s, p, i);
        let a = s.take(i);
        let b = s.skip(i + p.len());
        assert(a + p + b =~= s) by {
            assert(s.subrange(i, i + p.len()) == p);
            assert forall|j: int| 0 <= j < s.len() implies (a + p + b)[j] == s[j] by {
                if i <= j < i + p.len() {
                    assert(s.subrange(i, i + p.len())[j - i] == s[j]);
                }
            }
        }
    }
    if exists|a: Seq<char>, b: Seq<char>| s == #[trigger] (a + p + b) {
        let (a, b) = choose|a: Seq<char>, b: Seq<char>| s == #[trigger] (a + p + b);
        assert(s.subrange(a.len() as int, a.len() as int + p.len()) =~= p);
        assert(occurs_at(s, p, a.len() as int));
    }
}

/// A text begins with another exactly where it is the other and something behind
/// it.
pub proof fn law_front_of_text(s: Seq<char>, p: Seq<char>)
    ensures
        starts_with(s, p) <==> s.len() >= p.len() && s.take(p.len() as int) == p,
{
    if s.len() >= p.len() {
        assert(s.take(p.len() as int) =~= s.subrange(0, p.len() as int));
    }
}

/// Trimming takes white space from both ends, and all of it.
pub proof fn law_trimmed_text(s: Seq<char>)
    ensures
        exists|front: Seq<char>, back: Seq<char>|
            s == #[trigger] (front + trim(s) + back) && blank(front) && blank(back),
        trim(s).len() > 0 ==> !white_space(trim(s)[0]) && !white_space(trim(s).last()),
{
    lemma_indent(s);
    let front = s.take(indent_len(s) as int);
    let body = trim_start(s);
    lemma_trim_end(body);
    let back = body.skip(trim_end(body).len() as int);
    assert(s =~= front + trim(s) + back);
    if trim(s).len() > 0 {
        assert(trim(s)[0] == body[0]);
    }
}

proof fn lemma_trim_end(s: Seq<char>)
    ensures
        trim_end(s).len() <= s.len(),
        trim_end(s) == s.take(trim_end(s).len() as int),
        blank(s.skip(trim_end(s).len() as int)),
        trim_end(s).len() > 0 ==> !white_space(trim_end(s).last()),
    decreases s.len(),
{
    if s.len() > 0 && white_space(s.last()) {
        lemma_trim_end(s.drop_last());
        let n = trim_end(s).len() as int;
        assert(s.take(n) =~= s.drop_last().take(n));
        assert forall|i: int| 0 <= i < s.skip(n).len() implies white_space(
            #[trigger] s.skip(n)[i],
        ) by {
            if i + n < s.len() - 1 {
                assert(s.drop_last().skip(n)[i] == s[i + n]);
            }
        }
    } else {
        assert(s.take(s.len() as int) =~= s);
    }
}

/// In lower case, a letter of `A` to `Z` becomes the one 32 places on, and nothing
/// else changes.
pub proof fn law_lowered_text(s: Seq<char>, i: int)
    requires
        0 <= i < s.len(),
    ensures
        lowered(s).len() == s.len(),
        'A' <= s[i] <= 'Z' ==> lowered(s)[i] as int == s[i] as int + 32,
        !('A' <= s[i] <= 'Z') ==> lowered(s)[i] == s[i],
{
}

/// The words of a text: white space in front does not matter, a word ends where
/// white space begins, and the rest gives the other words.
pub proof fn law_words_of_text(front: Seq<char>, word: Seq<char>, rest: Seq<char>)
    requires
        blank(front),
        word.len() > 0,
        forall|i: int| 0 <= i < word.len() ==> !white_space(#[trigger] word[i]),
        rest.len() == 0 || white_space(rest[0]),
    ensures
        words(front) == Seq::<Seq<char>>::empty(),
        words(front + word + rest) == seq![word] + words(rest),
{
    let empty = Seq::<char>::empty();
    let s = word + rest;
    assert(front + word + rest =~= front + s);
    assert(s[0] == word[0]);
    lemma_indent_of_sum(front, s);
    lemma_word_len_of_sum(word, rest);
    assert(s.take(word.len() as int) =~= word);
    assert(s.skip(word.len() as int) =~= rest);
    assert(front + empty =~= front);
    lemma_indent_of_sum(front, empty);
}

/// A word in front of white space has the word's length.
pub proof fn lemma_word_len_of_sum(word: Seq<char>, rest: Seq<char>)
    requires
        forall|i: int| 0 <= i < word.len() ==> !white_space(#[trigger] word[i]),
        rest.len() == 0 || white_space(rest[0]),
    ensures
        word_len(word + rest) == word.len(),
    decreases word.len(),
{
    let s = word + rest;
    if word.len() > 0 {
        assert(s[0] == word[0]);
        assert(s.skip(1) =~= word.skip(1) + rest);
        lemma_word_len_of_sum(word.skip(1), rest);
    } else {
        assert(s =~= rest);
    }
}

/// A character is found where it stands first, or behind the end where it stands
/// nowhere.
pub proof fn law_first_place(s: Seq<char>, c: char)
    ensures
        find(s, c) <= s.len(),
        find(s, c) < s.len() ==> s[find(s, c) as int] == c,
        forall|i: int| 0 <= i < find(s, c) ==> #[trigger] s[i] != c,
    decreases s.len(),
{
    if s.len() > 0 && s[0] != c {
        law_first_place(s.skip(1), c);
        assert forall|i: int| 0 <= i < find(s, c) implies #[trigger] s[i] != c by {
            if i > 0 {
                assert(s.skip(1)[i - 1] == s[i]);
            }
        }
    }
}

/// Joining puts nothing before the first piece, the separator between each two, and
/// nothing behind the last.
pub proof fn law_joined_pieces(pieces: Seq<Seq<char>>, piece: Seq<char>, sep: Seq<char>)
    ensures
        join(Seq::<Seq<char>>::empty(), sep) == Seq::<char>::empty(),
        join(seq![piece], sep) == piece,
        pieces.len() > 0 ==> join(pieces.push(piece), sep) == join(pieces, sep) + sep + piece,
{
    lemma_join_push(pieces, piece, sep);
}

/// Which characters are white space.
pub proof fn law_white_space(c: char)
    ensures
        white_space(c) <==> c == '\t' || c == '\n' || c == '\u{b}' || c == '\u{c}' || c == '\r' || c
            == ' ' || c == '\u{85}' || c == '\u{a0}' || c == '\u{1680}' || '\u{2000}' <= c
            <= '\u{200a}' || c == '\u{2028}' || c == '\u{2029}' || c == '\u{202f}' || c
            == '\u{205f}' || c == '\u{3000}',
{
}

/// What the strings of a list hold stands in their order.
pub proof fn law_views_in_order(list: Seq<String>, i: int)
    requires
        0 <= i < list.len(),
    ensures
        views(list).len() == list.len(),
        views(list)[i] == list[i]@,
{
}

/// A text in front of which white space stands has that as its indent, all of it and
/// nothing else.
pub proof fn law_indent_of_text(front: Seq<char>, rest: Seq<char>)
    requires
        forall|i: int| 0 <= i < front.len() ==> white_space(#[trigger] front[i]),
        rest.len() == 0 || !white_space(rest[0]),
    ensures
        indent_len(front + rest) == front.len(),
        trim_start(front + rest) == rest,
{
    lemma_indent_of_sum(front, rest);
}

/// A text is blank where it holds nothing but white space.
pub proof fn law_blank_text(one: Seq<char>, c: char, other: Seq<char>)
    ensures
        blank(Seq::<char>::empty()),
        blank(seq![c]) <==> white_space(c),
        blank(one + other) <==> blank(one) && blank(other),
{
    if white_space(c) {
        assert forall|i: int| 0 <= i < seq![c].len() implies white_space(#[trigger] seq![c][i]) by {}
    } else {
        assert(!white_space(seq![c][0]));
    }
    let all = one + other;
    if blank(all) {
        assert forall|i: int| 0 <= i < one.len() implies white_space(#[trigger] one[i]) by {
            assert(white_space(all[i]));
        }
        assert forall|i: int| 0 <= i < other.len() implies white_space(#[trigger] other[i]) by {
            assert(white_space(all[one.len() + i]));
        }
    }
    if blank(one) && blank(other) {
        assert forall|i: int| 0 <= i < all.len() implies white_space(#[trigger] all[i]) by {
            if i < one.len() {
                assert(white_space(one[i]));
            } else {
                assert(white_space(other[i - one.len()]));
            }
        }
    }
}

/// What the pieces of a list hold stands in their order.
pub proof fn law_char_views_in_order(list: Seq<Vec<char>>, i: int)
    requires
        0 <= i < list.len(),
    ensures
        char_views(list).len() == list.len(),
        char_views(list)[i] == list[i]@,
{
}

} // verus!
