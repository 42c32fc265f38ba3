//! Quoting of arguments for a POSIX shell.
use vstd::prelude::*;

use crate::text;
use crate::text::{chars_of, join_strings, string_of};

verus! {

/// A character that a word may hold without quotes.
pub open spec fn safe(c: char) -> bool {
    ||| 'a' <= c <= 'z'
    ||| 'A' <= c <= 'Z'
    ||| '0' <= c <= '9'
    ||| c == '.'
    ||| c == '/'
    ||| c == '-'
    ||| c == '_'
}

/// Whether a value needs no quotes.
pub open spec fn all_safe(value: Seq<char>) -> bool {
    forall|i: int| 0 <= i < value.len() ==> safe(#[trigger] value[i])
}

/// What stands between the outer single quotes: a single quote ends them, stands
/// in double quotes, and begins them again.
pub open spec fn quoted(value: Seq<char>) -> Seq<char>
    decreases value.len(),
{
    if value.len() == 0 {
        seq![]
    } else if value[0] == '\'' {
        "'\"'\"'"@ + quoted(value.skip(1))
    } else {
        seq![value[0]] + quoted(value.skip(1))
    }
}

/// A value as one word for the shell.
pub open spec fn escaped(value: Seq<char>) -> Seq<char> {
    if value.len() == 0 {
        "''"@
    } else if all_safe(value) {
        value
    } else {
        "'"@ + quoted(value) + "'"@
    }
}

/// Whether a word may hold the character without quotes.
fn is_safe(c: char) -> (r: bool)
    ensures
        r == safe(c),
{
    ('a' <= c && c <= 'z') || ('A' <= c && c <= 'Z') || ('0' <= c && c <= '9') || c == '.' || c
        == '/' || c == '-' || c == '_'
}

/// Whether the value needs no quotes.
fn is_all_safe(value: &[char]) -> (r: bool)
    ensures
        r == all_safe(value@),
{
    let mut i: usize = 0;
    while i < value.len()
        invariant
            i <= value@.len(),
            forall|j: int| 0 <= j < i ==> safe(#[trigger] value@[j]),
        decreases value@.len() - i,
    {
        if !is_safe(value[i]) {
            assert(!safe(value@[i as int]));
            return false;
        }
        i = i + 1;
    }
    true
}

/// Turns a value into one word for the shell.
pub fn shell_escape(value: &str) -> (r: String)
    ensures
        r@ == escaped(value@),
{
    let chars = chars_of(value);
    if chars.len() == 0 {
        return "''".to_string();
    }
    if is_all_safe(&chars) {
        return string_of(&chars);
    }
    let mut out = "'".to_string();
    let mut i: usize = 0;
    assert(chars@.skip(0) == chars@);
    while i < chars.len()
        invariant
            i <= chars@.len(),
            "'"@ + quoted(chars@) == out@ + quoted(chars@.skip(i as int)),
        decreases chars@.len() - i,
    {
        let ghost before = out@;
        let ghost rest = chars@.skip(i as int);
        assert(rest.skip(1) == chars@.skip(i + 1));
        if chars[i] == '\'' {
            out.append("'\"'\"'");
            assert(before + ("'\"'\"'"@ + quoted(rest.skip(1))) == out@ + quoted(rest.skip(1)));
        } else {
            out.push(chars[i]);
            assert(before + (seq![rest[0]] + quoted(rest.skip(1))) == out@ + quoted(rest.skip(1)));
        }
        i = i + 1;
    }
    assert(quoted(chars@.skip(i as int)) == Seq::<char>::empty());
    assert(out@ == "'"@ + quoted(chars@));
    out.append("'");
    out
}

/// The arguments of a command as one line for the shell.
pub open spec fn command_line(args: Seq<Seq<char>>) -> Seq<char> {
    text::join(args.map_values(|arg: Seq<char>| escaped(arg)), " "@)
}

/// Turns the arguments of a command into one line for the shell.
pub fn shell_join(args: &[String]) -> (r: String)
    ensures
        r@ == command_line(text::views(args@)),
{
    let mut words: Vec<String> = Vec::new();
    let mut i: usize = 0;
    while i < args.len()
        invariant
            i <= args@.len(),
            words@.len() == i,
            forall|j: int| 0 <= j < i ==> (#[trigger] words@[j])@ == escaped(args@[j]@),
        decreases args@.len() - i,
    {
        words.push(shell_escape(&args[i]));
        i = i + 1;
    }
    assert(text::views(words@) =~= text::views(args@).map_values(
        |arg: Seq<char>| escaped(arg),
    ));
    join_strings(&words, " ")
}

/// Where a shell stands that reads a command: outside quotes, or inside one of
/// the two kinds.
pub enum Quoting {
    Bare,
    Single,
    Double,
}

/// A character that a shell takes as it is outside quotes.
pub open spec fn ordinary(c: char) -> bool {
    safe(c) || c == '=' || c == ':' || c == ',' || c == '@' || c == '%' || c == '+'
}

/// The words that a POSIX shell makes of the rest of a line, given what it has
/// read of the present word. `None` where a quote does not end, or where a
/// character stands that has a meaning of its own to the shell there.
pub open spec fn words_from(
    line: Seq<char>,
    quoting: Quoting,
    word: Option<Seq<char>>,
) -> Option<Seq<Seq<char>>>
    decreases line.len(),
{
    let so_far = match word {
        Some(w) => w,
        None => Seq::<char>::empty(),
    };
    if line.len() == 0 {
        match (quoting, word) {
            (Quoting::Bare, None) => Some(Seq::<Seq<char>>::empty()),
            (Quoting::Bare, Some(w)) => Some(seq![w]),
            _ => None,
        }
    } else {
        let c = line[0];
        let rest = line.skip(1);
        match quoting {
            Quoting::Single => if c == '\'' {
                words_from(rest, Quoting::Bare, Some(so_far))
            } else {
                words_from(rest, Quoting::Single, Some(so_far.push(c)))
            },
            Quoting::Double => if c == '"' {
                words_from(rest, Quoting::Bare, Some(so_far))
            } else if c == '$' || c == '`' || c == '\\' {
                None
            } else {
                words_from(rest, Quoting::Double, Some(so_far.push(c)))
            },
            Quoting::Bare => if c == '\'' {
                words_from(rest, Quoting::Single, Some(so_far))
            } else if c == '"' {
                words_from(rest, Quoting::Double, Some(so_far))
            } else if c == ' ' || c == '\t' {
                match (word, words_from(rest, Quoting::Bare, None)) {
                    (Some(w), Some(more)) => Some(seq![w] + more),
                    (None, Some(more)) => Some(more),
                    (_, None) => None,
                }
            } else if ordinary(c) {
                words_from(rest, Quoting::Bare, Some(so_far.push(c)))
            } else {
                None
            },
        }
    }
}

/// The words that a POSIX shell makes of a line.
pub open spec fn shell_words(line: Seq<char>) -> Option<Seq<Seq<char>>> {
    words_from(line, Quoting::Bare, None)
}

/// Outside quotes, ordinary characters go to the present word one by one.
proof fn lemma_read_ordinary(value: Seq<char>, rest: Seq<char>, word: Option<Seq<char>>)
    requires
        value.len() > 0,
        forall|i: int| 0 <= i < value.len() ==> ordinary(#[trigger] value[i]),
    ensures
        words_from(value + rest, Quoting::Bare, word) == words_from(
            rest,
            Quoting::Bare,
            Some(
                match word {
                    Some(w) => w,
                    None => Seq::<char>::empty(),
                } + value,
            ),
        ),
    decreases value.len(),
{
    let so_far = match word {
        Some(w) => w,
        None => Seq::<char>::empty(),
    };
    let line = value + rest;
    assert(ordinary(value[0]));
    assert(line[0] == value[0]);
    assert(line.skip(1) == value.skip(1) + rest);
    if value.len() == 1 {
        assert(value.skip(1) + rest == rest);
        assert(so_far.push(value[0]) == so_far + value);
    } else {
        assert forall|i: int| 0 <= i < value.skip(1).len() implies ordinary(
            #[trigger] value.skip(1)[i],
        ) by {
            assert(value.skip(1)[i] == value[i + 1]);
        }
        lemma_read_ordinary(value.skip(1), rest, Some(so_far.push(value[0])));
        assert(so_far.push(value[0]) + value.skip(1) == so_far + value);
    }
}

/// Inside single quotes, what was quoted gives the value back.
proof fn lemma_read_quoted(value: Seq<char>, rest: Seq<char>, word: Seq<char>)
    ensures
        words_from(quoted(value) + "'"@ + rest, Quoting::Single, Some(word)) == words_from(
            rest,
            Quoting::Bare,
            Some(word + value),
        ),
    decreases value.len(),
{
    reveal_strlit("'");
    reveal_strlit("'\"'\"'");
    let line = quoted(value) + "'"@ + rest;
    if value.len() == 0 {
        assert(line[0] == '\'');
        assert(line.skip(1) == rest);
        assert(word + value == word);
    } else {
        let tail = quoted(value.skip(1)) + "'"@ + rest;
        let next = word.push(value[0]);
        lemma_read_quoted(value.skip(1), rest, next);
        assert(next + value.skip(1) == word + value);
        if value[0] == '\'' {
            let l1 = line.skip(1);
            let l2 = l1.skip(1);
            let l3 = l2.skip(1);
            let l4 = l3.skip(1);
            assert(l4.skip(1) == tail);
            assert(line[0] == '\'' && l1[0] == '"' && l2[0] == '\'' && l3[0] == '"' && l4[0]
                == '\'');
            assert(words_from(line, Quoting::Single, Some(word)) == words_from(
                l1,
                Quoting::Bare,
                Some(word),
            ));
            assert(words_from(l1, Quoting::Bare, Some(word)) == words_from(
                l2,
                Quoting::Double,
                Some(word),
            ));
            assert(words_from(l2, Quoting::Double, Some(word)) == words_from(
                l3,
                Quoting::Double,
                Some(next),
            ));
            assert(words_from(l3, Quoting::Double, Some(next)) == words_from(
                l4,
                Quoting::Bare,
                Some(next),
            ));
            assert(words_from(l4, Quoting::Bare, Some(next)) == words_from(
                tail,
                Quoting::Single,
                Some(next),
            ));
        } else {
            assert(line[0] == value[0]);
            assert(line.skip(1) == tail);
        }
    }
}

/// Reading an escaped value puts the value behind the present word.
proof fn lemma_read_escaped(value: Seq<char>, rest: Seq<char>)
    ensures
        words_from(escaped(value) + rest, Quoting::Bare, None) == words_from(
            rest,
            Quoting::Bare,
            Some(value),
        ),
{
    reveal_strlit("'");
    reveal_strlit("''");
    let line = escaped(value) + rest;
    let empty = Seq::<char>::empty();
    assert(empty + value == value);
    if value.len() == 0 {
        let l1 = line.skip(1);
        assert(line[0] == '\'' && l1[0] == '\'');
        assert(l1.skip(1) == rest);
        assert(words_from(line, Quoting::Bare, None) == words_from(
            l1,
            Quoting::Single,
            Some(empty),
        ));
        assert(value == empty);
    } else if all_safe(value) {
        lemma_read_ordinary(value, rest, None);
    } else {
        assert(line[0] == '\'');
        assert(line.skip(1) == quoted(value) + "'"@ + rest);
        lemma_read_quoted(value, rest, empty);
    }
}

/// The shell makes of an escaped value one word, which is the value.
pub proof fn law_escaped_value_is_one_word(value: Seq<char>)
    ensures
        shell_words(escaped(value)) == Some(seq![value]),
{
    let empty = Seq::<char>::empty();
    lemma_read_escaped(value, empty);
    assert(escaped(value) + empty == escaped(value));
}

/// Whether a shell that begins to read a piece of a line has a word at its end.
pub open spec fn reads_as(piece: Seq<char>, word: Seq<char>) -> bool {
    forall|rest: Seq<char>| #[trigger]
        words_from(piece + rest, Quoting::Bare, None) == words_from(
            rest,
            Quoting::Bare,
            Some(word),
        )
}

/// An escaped value reads as the value.
pub proof fn lemma_escaped_reads(value: Seq<char>)
    ensures
        reads_as(escaped(value), value),
{
    assert forall|rest: Seq<char>| #[trigger]
        words_from(escaped(value) + rest, Quoting::Bare, None) == words_from(
            rest,
            Quoting::Bare,
            Some(value),
        ) by {
        lemma_read_escaped(value, rest);
    }
}

/// Ordinary characters read as they are.
pub proof fn lemma_ordinary_reads(value: Seq<char>)
    requires
        value.len() > 0,
        forall|i: int| 0 <= i < value.len() ==> ordinary(#[trigger] value[i]),
    ensures
        reads_as(value, value),
{
    assert forall|rest: Seq<char>| #[trigger]
        words_from(value + rest, Quoting::Bare, None) == words_from(
            rest,
            Quoting::Bare,
            Some(value),
        ) by {
        lemma_read_ordinary(value, rest, None);
        assert(Seq::<char>::empty() + value == value);
    }
}

/// Pieces with blanks between them read as the words that they read as.
pub proof fn lemma_words_of_join(pieces: Seq<Seq<char>>, words: Seq<Seq<char>>)
    requires
        pieces.len() == words.len(),
        forall|i: int| 0 <= i < pieces.len() ==> reads_as(#[trigger] pieces[i], words[i]),
    ensures
        shell_words(text::join(pieces, " "@)) == Some(words),
    decreases pieces.len(),
{
    reveal_strlit(" ");
    let line = text::join(pieces, " "@);
    if pieces.len() == 0 {
        assert(line == Seq::<char>::empty());
        assert(words == Seq::<Seq<char>>::empty());
    } else if pieces.len() == 1 {
        assert(reads_as(pieces[0], words[0]));
        assert(line + Seq::<char>::empty() == line);
        assert(words == seq![words[0]]);
    } else {
        let more = pieces.skip(1);
        assert forall|i: int| 0 <= i < more.len() implies reads_as(
            #[trigger] more[i],
            words.skip(1)[i],
        ) by {
            assert(reads_as(pieces[i + 1], words[i + 1]));
        }
        lemma_words_of_join(more, words.skip(1));
        let tail = " "@ + text::join(more, " "@);
        assert(line == pieces[0] + tail);
        assert(reads_as(pieces[0], words[0]));
        assert(tail[0] == ' ');
        assert(tail.skip(1) == text::join(more, " "@));
        assert(words == seq![words[0]] + words.skip(1));
    }
}

/// The shell makes of a command line the arguments that it was made of.
pub proof fn law_command_line_gives_the_arguments_back(args: Seq<Seq<char>>)
    ensures
        shell_words(command_line(args)) == Some(args),
{
    let pieces = args.map_values(|arg: Seq<char>| escaped(arg));
    assert forall|i: int| 0 <= i < pieces.len() implies reads_as(#[trigger] pieces[i], args[i]) by {
        lemma_escaped_reads(args[i]);
    }
    lemma_words_of_join(pieces, args);
}

/// Which characters need no quotes.
pub proof fn law_safe_characters(c: char)
    ensures
        safe(c) <==> 97 <= c as int <= 122 || 65 <= c as int <= 90 || 48 <= c as int <= 57 || c
            == '.' || c == '/' || c == '-' || c == '_',
{
}

/// A value of letters, digits, points, slashes, hyphens and underscores is its own
/// word. Any other stands between single quotes, and so does nothing.
pub proof fn law_only_safe_values_stay_bare(value: Seq<char>)
    ensures
        value.len() == 0 ==> escaped(value) == "''"@,
        value.len() > 0 && (forall|i: int| 0 <= i < value.len() ==> safe(#[trigger] value[i]))
            ==> escaped(value) == value,
        forall|i: int|
            0 <= i < value.len() && !safe(#[trigger] value[i]) ==> escaped(value) == "'"@ + quoted(
                value,
            ) + "'"@,
{
    assert forall|i: int| 0 <= i < value.len() && !safe(#[trigger] value[i]) implies escaped(value)
        == "'"@ + quoted(value) + "'"@ by {
        assert(!all_safe(value));
    }
}

/// Between the quotes every character stands as it is, in its order, but for a single
/// quote, which stands in double quotes of its own.
pub proof fn law_quoting_goes_by_character(one: Seq<char>, c: char, other: Seq<char>)
    ensures
        quoted(Seq::<char>::empty()) == Seq::<char>::empty(),
        c != '\'' ==> quoted(seq![c]) == seq![c],
        c == '\'' ==> quoted(seq![c]) == "'\"'\"'"@,
        quoted(one + other) == quoted(one) + quoted(other),
    decreases one.len(),
{
    reveal_with_fuel(quoted, 2);
    let empty = Seq::<char>::empty();
    assert(quoted(empty) =~= empty);
    assert(seq![c].skip(1) =~= empty);
    assert(seq![c] + empty =~= seq![c]);
    assert("'\"'\"'"@ + empty =~= "'\"'\"'"@);
    if one.len() == 0 {
        assert(one + other =~= other);
        assert(quoted(one) + quoted(other) =~= quoted(other));
    } else {
        law_quoting_goes_by_character(one.skip(1), c, other);
        assert((one + other).skip(1) =~= one.skip(1) + other);
        assert((one + other)[0] == one[0]);
        assert(quoted(one + other) =~= quoted(one) + quoted(other));
    }
}

/// A command line is its arguments, each as one word, with a space between each two.
pub proof fn law_command_line_grows_by_argument(args: Seq<Seq<char>>, arg: Seq<char>)
    ensures
        command_line(Seq::<Seq<char>>::empty()) == Seq::<char>::empty(),
        command_line(seq![arg]) == escaped(arg),
        args.len() > 0 ==> command_line(args.push(arg)) == command_line(args) + " "@ + escaped(arg),
{
    let f = |a: Seq<char>| escaped(a);
    assert(Seq::<Seq<char>>::empty().map_values(f) =~= Seq::<Seq<char>>::empty());
    assert(seq![arg].map_values(f) =~= seq![escaped(arg)]);
    assert(args.push(arg).map_values(f) =~= args.map_values(f).push(escaped(arg)));
    text::law_joined_pieces(args.map_values(f), escaped(arg), " "@);
}

} // verus!
