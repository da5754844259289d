//! Text tables: lines, and the words of a line.

use vstd::prelude::*;

verus! {

/// `s` cut at every `at`: the stretches between them, in order, the first and
/// the last included.
pub open spec fn split<T>(s: Seq<T>, at: T) -> Seq<Seq<T>>
    decreases s.len(),
{
    if s.len() == 0 {
        seq![Seq::empty()]
    } else {
        let head = split(s.drop_last(), at);
        if s.last() == at {
            head.push(Seq::empty())
        } else {
            head.drop_last().push(head.last().push(s.last()))
        }
    }
}

/// The characters with Unicode's White_Space property.
pub open spec fn is_space(c: char) -> bool {
    ||| '\u{9}' <= c <= '\u{d}'
    ||| c == '\u{20}'
    ||| c == '\u{85}'
    ||| c == '\u{a0}'
    ||| c == '\u{1680}'
    ||| '\u{2000}' <= c <= '\u{200a}'
    ||| c == '\u{2028}'
    ||| c == '\u{2029}'
    ||| c == '\u{202f}'
    ||| c == '\u{205f}'
    ||| c == '\u{3000}'
}

/// The longest stretches of `s` without white space, in order.
pub open spec fn words(s: Seq<char>) -> Seq<Seq<char>>
    decreases s.len(),
{
    if s.len() == 0 {
        Seq::empty()
    } else {
        let head = words(s.drop_last());
        if is_space(s.last()) {
            head
        } else if s.len() == 1 || is_space(s[s.len() - 2]) {
            head.push(seq![s.last()])
        } else {
            head.drop_last().push(head.last().push(s.last()))
        }
    }
}

/// The sequences behind a list of vectors.
pub open spec fn views<T>(v: Seq<Vec<T>>) -> Seq<Seq<T>> {
    Seq::new(v.len(), |i: int| v[i]@)
}

/// There is always at least one stretch.
pub proof fn split_is_not_empty<T>(s: Seq<T>, at: T)
    ensures
        split(s, at).len() > 0,
    decreases s.len(),
{
    if s.len() > 0 {
        split_is_not_empty(s.drop_last(), at);
    }
}

/// A text that ends inside a word has a last word.
proof fn words_end_with_the_last_word(s: Seq<char>)
    requires
        s.len() > 0,
        !is_space(s.last()),
    ensures
        words(s).len() > 0,
{
}

/// What follows the last cut and holds none itself joins the last stretch.
pub proof fn split_extends_the_last_stretch<T>(s: Seq<T>, tail: Seq<T>, at: T)
    requires
        !tail.contains(at),
    ensures
        split(s + tail, at) == split(s, at).drop_last().push(split(s, at).last() + tail),
    decreases tail.len(),
{
    split_is_not_empty(s, at);
    if tail.len() == 0 {
        assert(s + tail =~= s);
        assert(split(s, at).last() + tail =~= split(s, at).last());
        assert(split(s, at) =~= split(s, at).drop_last().push(split(s, at).last()));
    } else {
        let short = tail.drop_last();
        assert(tail.contains(tail.last()));
        assert(!short.contains(at)) by {
            if short.contains(at) {
                let i = choose|i: int| 0 <= i < short.len() && short[i] == at;
                assert(tail[i] == at);
            }
        }
        split_extends_the_last_stretch(s, short, at);
        assert((s + tail).drop_last() =~= s + short);
        assert(split(s, at).last() + tail =~= (split(s, at).last() + short).push(tail.last()));
        let head = split(s + short, at);
        assert(head.drop_last() =~= split(s, at).drop_last());
    }
}

/// A cut adds the next stretch to those before it.
pub proof fn split_adds_a_stretch<T>(s: Seq<T>, tail: Seq<T>, at: T)
    requires
        !tail.contains(at),
    ensures
        split(s.push(at) + tail, at) == split(s, at).push(tail),
{
    split_is_not_empty(s, at);
    assert(s.push(at).drop_last() =~= s);
    split_extends_the_last_stretch(s.push(at), tail, at);
    assert(Seq::<T>::empty() + tail =~= tail);
    assert(split(s.push(at), at).drop_last() =~= split(s, at));
}

/// Cutting goes part by part: around a cut, the stretches are those before it and
/// those after it.
pub proof fn split_parts_at_a_cut<T>(a: Seq<T>, b: Seq<T>, at: T)
    ensures
        split(a.push(at) + b, at) == split(a, at) + split(b, at),
    decreases b.len(),
{
    let whole = a.push(at) + b;
    split_is_not_empty(a, at);
    if b.len() == 0 {
        assert(whole =~= a.push(at));
        assert(a.push(at).drop_last() =~= a);
        assert(split(a, at) + split(b, at) =~= split(a, at).push(Seq::empty()));
    } else {
        let short = b.drop_last();
        split_parts_at_a_cut(a, short, at);
        split_is_not_empty(short, at);
        assert(whole.drop_last() =~= a.push(at) + short);
        let head = split(a, at) + split(short, at);
        assert(head.last() == split(short, at).last());
        assert(head.drop_last() =~= split(a, at) + split(short, at).drop_last());
        assert(split(whole, at) =~= split(a, at) + split(b, at));
    }
}

/// A line of its own between two parts stands between their stretches.
pub proof fn split_puts_a_line_between<T>(head: Seq<T>, line: Seq<T>, tail: Seq<T>, at: T)
    requires
        !line.contains(at),
    ensures
        split(head.push(at) + (line.push(at) + tail), at) == split(head, at).push(line) + split(
            tail,
            at,
        ),
{
    split_adds_a_stretch(head, line, at);
    assert(head.push(at) + (line.push(at) + tail) =~= (head.push(at) + line).push(at) + tail);
    split_parts_at_a_cut(head.push(at) + line, tail, at);
}

/// A word after white space is added to the words before it.
pub proof fn words_add_a_word(s: Seq<char>, word: Seq<char>)
    requires
        s.len() == 0 || is_space(s.last()),
        word.len() > 0,
        forall|i: int| 0 <= i < word.len() ==> !is_space(#[trigger] word[i]),
    ensures
        words(s + word) == words(s).push(word),
    decreases word.len(),
{
    let short = word.drop_last();
    assert((s + word).drop_last() =~= s + short);
    assert(!is_space(word[word.len() - 1]));
    if short.len() == 0 {
        assert(s + short =~= s);
        assert(word =~= seq![word.last()]);
    } else {
        words_add_a_word(s, short);
        assert((s + word)[(s + word).len() - 2] == word[word.len() - 2]);
        assert(words(s).push(short).drop_last() =~= words(s));
        assert(short.push(word.last()) =~= word);
    }
}

/// Whether a character is white space.
pub fn is_white_space(c: char) -> (r: bool)
    ensures
        r == is_space(c),
{
    ('\u{9}' <= c && c <= '\u{d}') || c == '\u{20}' || c == '\u{85}' || c == '\u{a0}' || c
        == '\u{1680}' || ('\u{2000}' <= c && c <= '\u{200a}') || c == '\u{2028}' || c == '\u{2029}'
        || c == '\u{202f}' || c == '\u{205f}' || c == '\u{3000}'
}

/// The words of a line.
pub fn split_words(line: &Vec<char>) -> (out: Vec<Vec<char>>)
    ensures
        views(out@) == words(line@),
        out@.len() == words(line@).len(),
        forall|i: int| 0 <= i < out@.len() ==> (#[trigger] out@[i])@ == words(line@)[i],
{
    let mut out: Vec<Vec<char>> = Vec::new();
    let mut i: usize = 0;
    assert(views(out@) =~= words(line@.take(0)));
    while i < line.len()
        invariant
            i <= line.len(),
            views(out@) == words(line@.take(i as int)),
        decreases line.len() - i,
    {
        let ghost before = views(out@);
        let c = line[i];
        proof {
            assert(line@.take(i + 1).drop_last() =~= line@.take(i as int));
        }
        if !is_white_space(c) {
            if i == 0 || is_white_space(line[i - 1]) {
                let mut word: Vec<char> = Vec::new();
                word.push(c);
                out.push(word);
                assert(word@ =~= seq![c]);
                assert(views(out@) =~= before.push(seq![c]));
            } else {
                proof {
                    words_end_with_the_last_word(line@.take(i as int));
                }
                match out.pop() {
                    Some(last) => {
                        let mut word = last;
                        word.push(c);
                        out.push(word);
                        assert(views(out@) =~= before.drop_last().push(before.last().push(c)));
                    },
                    None => {},
                }
            }
        }
        i += 1;
    }
    assert(line@.take(i as int) =~= line@);
    assert forall|k: int| 0 <= k < out@.len() implies (#[trigger] out@[k])@ == words(line@)[k] by {
        assert(views(out@)[k] == out@[k]@);
    }
    out
}

/// The lines of a text.
pub fn split_lines(text: &Vec<char>) -> (out: Vec<Vec<char>>)
    ensures
        views(out@) == split(text@, '\n'),
        out@.len() == split(text@, '\n').len(),
        forall|i: int| 0 <= i < out@.len() ==> (#[trigger] out@[i])@ == split(text@, '\n')[i],
{
    let mut out: Vec<Vec<char>> = Vec::new();
    let mut line: Vec<char> = Vec::new();
    let mut i: usize = 0;
    assert(views(out@).push(line@) =~= split(text@.take(0), '\n'));
    while i < text.len()
        invariant
            i <= text.len(),
            views(out@).push(line@) == split(text@.take(i as int), '\n'),
        decreases text.len() - i,
    {
        let ghost done = views(out@);
        let c = text[i];
        proof {
            assert(text@.take(i + 1).drop_last() =~= text@.take(i as int));
            assert(done.push(line@).drop_last() =~= done);
        }
        if c == '\n' {
            let ghost ended = line@;
            out.push(line);
            line = Vec::new();
            assert(views(out@) =~= done.push(ended));
        } else {
            line.push(c);
        }
        i += 1;
    }
    let ghost done = views(out@);
    let ghost ended = line@;
    out.push(line);
    assert(views(out@) =~= done.push(ended));
    assert(text@.take(i as int) =~= text@);
    assert forall|k: int| 0 <= k < out@.len() implies (#[trigger] out@[k])@ == split(
        text@,
        '\n',
    )[k] by {
        assert(views(out@)[k] == out@[k]@);
    }
    out
}

/// The lines of a byte stream.
pub fn split_byte_lines(raw: &[u8]) -> (out: Vec<Vec<u8>>)
    ensures
        views(out@) == split(raw@, 10u8),
        out@.len() == split(raw@, 10u8).len(),
        forall|i: int| 0 <= i < out@.len() ==> (#[trigger] out@[i])@ == split(raw@, 10u8)[i],
{
    let mut out: Vec<Vec<u8>> = Vec::new();
    let mut line: Vec<u8> = Vec::new();
    let mut i: usize = 0;
    assert(views(out@).push(line@) =~= split(raw@.take(0), 10u8));
    while i < raw.len()
        invariant
            i <= raw.len(),
            views(out@).push(line@) == split(raw@.take(i as int), 10u8),
        decreases raw.len() - i,
    {
        let ghost done = views(out@);
        let b: u8 = raw[i];
        proof {
            assert(raw@.take(i + 1).drop_last() =~= raw@.take(i as int));
            assert(done.push(line@).drop_last() =~= done);
        }
        if b == 10 {
            let ghost ended = line@;
            out.push(line);
            line = Vec::new();
            assert(views(out@) =~= done.push(ended));
        } else {
            line.push(b);
        }
        i += 1;
    }
    let ghost done = views(out@);
    let ghost ended = line@;
    out.push(line);
    assert(views(out@) =~= done.push(ended));
    assert(raw@.take(i as int) =~= raw@);
    assert forall|k: int| 0 <= k < out@.len() implies (#[trigger] out@[k])@ == split(
        raw@,
        10u8,
    )[k] by {
        assert(views(out@)[k] == out@[k]@);
    }
    out
}

/// The stretches put together again, with `at` between them.
pub open spec fn joined<T>(parts: Seq<Seq<T>>, at: T) -> Seq<T>
    decreases parts.len(),
{
    if parts.len() == 0 {
        Seq::empty()
    } else if parts.len() == 1 {
        parts[0]
    } else {
        joined(parts.drop_last(), at).push(at) + parts.last()
    }
}

/// Cutting loses nothing and cuts everywhere: the stretches, put together again,
/// are the whole, and none of them holds a cut.
pub proof fn stretches_join_to_the_whole<T>(s: Seq<T>, at: T)
    ensures
        joined(split(s, at), at) == s,
        forall|i: int| 0 <= i < split(s, at).len() ==> !(#[trigger] split(s, at)[i]).contains(at),
    decreases s.len(),
{
    let parts = split(s, at);
    if s.len() == 0 {
        assert(parts[0] =~= s);
    } else {
        let head = split(s.drop_last(), at);
        stretches_join_to_the_whole(s.drop_last(), at);
        split_is_not_empty(s.drop_last(), at);
        let last = head[head.len() - 1];
        assert(!last.contains(at));
        if s.last() == at {
            assert(parts.drop_last() =~= head);
            assert(joined(parts, at) =~= s.drop_last().push(at) + Seq::<T>::empty());
            assert(s =~= s.drop_last().push(at));
        } else {
            assert(parts.drop_last() =~= head.drop_last());
            assert(joined(parts, at) =~= joined(head, at).push(s.last()));
            assert(s =~= s.drop_last().push(s.last()));
            assert forall|i: int| 0 <= i < parts.len() implies !(#[trigger] parts[i]).contains(
                at,
            ) by {
                if i < head.len() - 1 {
                    assert(parts[i] == head[i]);
                    assert(!head[i].contains(at));
                } else if parts[i].contains(at) {
                    let k = choose|k: int| 0 <= k < parts[i].len() && parts[i][k] == at;
                    assert(k < last.len());
                    assert(last[k] == at);
                }
            }
        }
    }
}

/// What holds no cut is one stretch.
pub proof fn a_stretch_stands_alone<T>(s: Seq<T>, at: T)
    requires
        !s.contains(at),
    ensures
        split(s, at) == seq![s],
{
    let none = Seq::<T>::empty();
    split_extends_the_last_stretch(none, s, at);
    assert(none + s =~= s);
    assert(split(none, at).drop_last().push(s) =~= seq![s]);
}

/// White space parts words wherever it stands: the words around it are those before
/// it and those after it.
pub proof fn words_part_at_white_space(a: Seq<char>, c: char, b: Seq<char>)
    requires
        is_space(c),
    ensures
        words(a.push(c) + b) == words(a) + words(b),
    decreases b.len(),
{
    let whole = a.push(c) + b;
    if b.len() == 0 {
        assert(whole =~= a.push(c));
        assert(whole.drop_last() =~= a);
        assert(words(a) + words(b) =~= words(a));
    } else {
        let short = b.drop_last();
        words_part_at_white_space(a, c, short);
        assert(whole.drop_last() =~= a.push(c) + short);
        if b.len() > 1 {
            assert(whole[whole.len() - 2] == b[b.len() - 2]);
            if !is_space(b.last()) && !is_space(b[b.len() - 2]) {
                words_end_with_the_last_word(short);
                assert((words(a) + words(short)).drop_last() =~= words(a)
                    + words(short).drop_last());
            }
        } else {
            assert(whole[whole.len() - 2] == c);
        }
        assert(words(whole) =~= words(a) + words(b));
    }
}

/// What holds no white space is one word, and nothing holds no word.
pub proof fn a_word_stands_alone(word: Seq<char>)
    requires
        forall|i: int| 0 <= i < word.len() ==> !is_space(#[trigger] word[i]),
    ensures
        words(word) == (if word.len() == 0 {
            Seq::empty()
        } else {
            seq![word]
        }),
{
    let none = Seq::<char>::empty();
    if word.len() > 0 {
        words_add_a_word(none, word);
        assert(none + word =~= word);
        assert(words(none).push(word) =~= seq![word]);
    }
}

} // verus!
