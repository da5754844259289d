//! The order of strings: byte by byte over their UTF-8 encodings.

use vstd::prelude::*;
use vstd::string::*;
use vstd::utf8::*;

verus! {

/// `a` comes before `b`: at the first place where they differ `a` holds the
/// smaller byte, or there is no such place and `a` is the shorter one.
pub open spec fn bytes_less(a: Seq<u8>, b: Seq<u8>) -> bool
    decreases a.len(),
{
    if b.len() == 0 {
        false
    } else if a.len() == 0 {
        true
    } else if a[0] != b[0] {
        a[0] < b[0]
    } else {
        bytes_less(a.drop_first(), b.drop_first())
    }
}

/// The order of strings.
pub open spec fn text_less(a: Seq<char>, b: Seq<char>) -> bool {
    bytes_less(encode_utf8(a), encode_utf8(b))
}

/// Every string comes before all later ones, so none occurs twice.
pub open spec fn ascending(names: Seq<String>) -> bool {
    forall|i: int, j: int|
        0 <= i < j < names.len() ==> text_less(#[trigger] names[i]@, #[trigger] names[j]@)
}

/// Some string in `names` reads `name`.
pub open spec fn holds(names: Seq<String>, name: Seq<char>) -> bool {
    exists|i: int| 0 <= i < names.len() && #[trigger] names[i]@ == name
}

proof fn bytes_less_is_strict(a: Seq<u8>)
    ensures
        !bytes_less(a, a),
    decreases a.len(),
{
    if a.len() > 0 {
        bytes_less_is_strict(a.drop_first());
    }
}

proof fn bytes_less_is_transitive(a: Seq<u8>, b: Seq<u8>, c: Seq<u8>)
    requires
        bytes_less(a, b),
        bytes_less(b, c),
    ensures
        bytes_less(a, c),
    decreases a.len(),
{
    if a.len() > 0 && a[0] == b[0] && b[0] == c[0] {
        bytes_less_is_transitive(a.drop_first(), b.drop_first(), c.drop_first());
    }
}

proof fn bytes_less_is_total(a: Seq<u8>, b: Seq<u8>)
    ensures
        a == b || bytes_less(a, b) || bytes_less(b, a),
    decreases a.len(),
{
    if a.len() == 0 || b.len() == 0 {
        if a.len() == b.len() {
            assert(a =~= b);
        }
    } else if a[0] == b[0] {
        bytes_less_is_total(a.drop_first(), b.drop_first());
        if a.drop_first() == b.drop_first() {
            assert(a =~= seq![a[0]] + a.drop_first());
            assert(b =~= seq![b[0]] + b.drop_first());
        }
    }
}

/// The order of strings is strict and total: no string precedes itself, and of
/// two different strings exactly one precedes the other.
pub proof fn text_less_is_a_strict_total_order(a: Seq<char>, b: Seq<char>)
    ensures
        !text_less(a, a),
        a != b <==> text_less(a, b) || text_less(b, a),
        !(text_less(a, b) && text_less(b, a)),
{
    let ea = encode_utf8(a);
    let eb = encode_utf8(b);
    bytes_less_is_strict(ea);
    bytes_less_is_total(ea, eb);
    if ea == eb {
        crate::text::encode_utf8_is_injective(a, b);
    }
    if bytes_less(ea, eb) && bytes_less(eb, ea) {
        bytes_less_is_transitive(ea, eb, ea);
    }
}

/// What comes before a text comes before all that the text precedes.
pub proof fn text_less_is_transitive(a: Seq<char>, b: Seq<char>, c: Seq<char>)
    requires
        text_less(a, b),
        text_less(b, c),
    ensures
        text_less(a, c),
{
    bytes_less_is_transitive(encode_utf8(a), encode_utf8(b), encode_utf8(c));
}

/// Of two texts in ASCII, the one with the smaller first character comes first, and
/// a text comes before what extends it.
pub proof fn ascii_texts_compare_by_character(a: Seq<char>, b: Seq<char>)
    requires
        is_ascii_chars(a),
        is_ascii_chars(b),
        a.len() > 0,
        b.len() > 0,
        a[0] < b[0] || (a.len() == 1 && b.len() > 1 && a[0] == b[0]),
    ensures
        text_less(a, b),
        a != b,
{
    is_ascii_chars_encode_utf8(a);
    is_ascii_chars_encode_utf8(b);
    let ea = encode_utf8(a);
    let eb = encode_utf8(b);
    assert(ea[0] == a[0] as u8 && eb[0] == b[0] as u8);
    if a[0] == b[0] {
        assert(!bytes_less(ea, eb) ==> !bytes_less(ea.drop_first(), eb.drop_first()));
        assert(ea.drop_first().len() == 0 && eb.drop_first().len() > 0);
    }
}

/// An ascending list is determined by what it holds: two that hold the same
/// names read the same.
pub proof fn ascending_lists_are_canonical(a: Seq<String>, b: Seq<String>)
    requires
        ascending(a),
        ascending(b),
        forall|name: Seq<char>| #[trigger] holds(a, name) <==> holds(b, name),
    ensures
        a.len() == b.len(),
        forall|i: int| 0 <= i < a.len() ==> #[trigger] a[i]@ == b[i]@,
    decreases a.len(),
{
    if a.len() == 0 {
        if b.len() > 0 {
            assert(b[0]@ == b[0]@);
            assert(holds(b, b[0]@));
            assert(holds(a, b[0]@));
        }
    } else {
        let last = a.len() - 1;
        assert(holds(a, a[last]@));
        assert(holds(b, a[last]@));
        let bl = b.len() - 1;
        assert(holds(b, b[bl]@));
        assert(holds(a, b[bl]@));
        let k = choose|k: int| 0 <= k < b.len() && #[trigger] b[k]@ == a[last]@;
        let m = choose|m: int| 0 <= m < a.len() && #[trigger] a[m]@ == b[bl]@;
        text_less_is_a_strict_total_order(a[last]@, b[bl]@);
        if k < bl {
            assert(text_less(b[k]@, b[bl]@));
            if m < last {
                assert(text_less(a[m]@, a[last]@));
            }
        }
        assert(a[last]@ == b[bl]@);
        let a2 = a.drop_last();
        let b2 = b.drop_last();
        assert forall|name: Seq<char>| #[trigger] holds(a2, name) <==> holds(b2, name) by {
            if holds(a2, name) {
                let i = choose|i: int| 0 <= i < a2.len() && #[trigger] a2[i]@ == name;
                assert(a[i]@ == name);
                assert(holds(a, name));
                assert(holds(b, name));
                let j = choose|j: int| 0 <= j < b.len() && #[trigger] b[j]@ == name;
                text_less_is_a_strict_total_order(a[last]@, name);
                assert(text_less(a[i]@, a[last]@));
                assert(j != bl);
                assert(b2[j]@ == name);
            }
            if holds(b2, name) {
                let i = choose|i: int| 0 <= i < b2.len() && #[trigger] b2[i]@ == name;
                assert(b[i]@ == name);
                assert(holds(b, name));
                assert(holds(a, name));
                let j = choose|j: int| 0 <= j < a.len() && #[trigger] a[j]@ == name;
                text_less_is_a_strict_total_order(b[bl]@, name);
                assert(text_less(b[i]@, b[bl]@));
                assert(j != last);
                assert(a2[j]@ == name);
            }
        }
        ascending_lists_are_canonical(a2, b2);
        assert forall|i: int| 0 <= i < a.len() implies #[trigger] a[i]@ == b[i]@ by {
            if i < last {
                assert(a2[i]@ == b2[i]@);
            }
        }
    }
}

/// Whether `a` comes before `b` in the order of strings.
pub fn precedes(a: &str, b: &str) -> (r: bool)
    ensures
        r == text_less(a@, b@),
{
    let x = a.as_bytes();
    let y = b.as_bytes();
    let mut i: usize = 0;
    proof {
        assert(x@.skip(0) =~= x@);
        assert(y@.skip(0) =~= y@);
    }
    while i < x.len() && i < y.len() && x[i] == y[i]
        invariant
            i <= x.len(),
            i <= y.len(),
            bytes_less(x@.skip(i as int), y@.skip(i as int)) == bytes_less(x@, y@),
        decreases x.len() - i,
    {
        proof {
            assert(x@.skip(i as int).drop_first() =~= x@.skip(i + 1));
            assert(y@.skip(i as int).drop_first() =~= y@.skip(i + 1));
        }
        i += 1;
    }
    if i >= y.len() {
        false
    } else if i >= x.len() {
        true
    } else {
        x[i] < y[i]
    }
}

/// Puts a name into an ascending list, unless it is there already.
pub fn insert_name(names: &mut Vec<String>, name: String)
    requires
        ascending(old(names)@),
    ensures
        ascending(final(names)@),
        forall|n: Seq<char>| #[trigger]
            holds(final(names)@, n) <==> holds(old(names)@, n) || n == name@,
{
    let ghost before = names@;
    let mut at: usize = 0;
    while at < names.len() && precedes(names[at].as_str(), name.as_str())
        invariant
            at <= names.len(),
            names@ == before,
            forall|j: int| 0 <= j < at ==> text_less(#[trigger] names[j]@, name@),
        decreases names.len() - at,
    {
        at += 1;
    }
    let ghost added = name@;
    if at < names.len() && names[at] == name {
        assert(names@[at as int]@ == added);
        assert(holds(names@, added));
        return ;
    }
    proof {
        if at < names.len() {
            text_less_is_a_strict_total_order(names@[at as int]@, name@);
            assert forall|j: int| at <= j < names.len() implies text_less(
                name@,
                #[trigger] names@[j]@,
            ) by {
                if at < j {
                    assert(text_less(names@[at as int]@, names@[j]@));
                    bytes_less_is_transitive(
                        encode_utf8(name@),
                        encode_utf8(names@[at as int]@),
                        encode_utf8(names@[j]@),
                    );
                }
            }
        }
    }
    names.insert(at, name);
    proof {
        let after = names@;
        assert(after =~= before.insert(at as int, name));
        assert forall|n: Seq<char>| #[trigger]
            holds(after, n) <==> holds(before, n) || n == added by {
            if holds(after, n) {
                let i = choose|i: int| 0 <= i < after.len() && #[trigger] after[i]@ == n;
                if i < at {
                    assert(before[i]@ == n);
                } else if i > at {
                    assert(before[i - 1]@ == n);
                }
            }
            if holds(before, n) {
                let i = choose|i: int| 0 <= i < before.len() && #[trigger] before[i]@ == n;
                if i < at {
                    assert(after[i]@ == n);
                } else {
                    assert(after[i + 1]@ == n);
                }
            }
            if n == added {
                assert(after[at as int]@ == n);
            }
        }
        assert forall|i: int, j: int| 0 <= i < j < after.len() implies text_less(
            #[trigger] after[i]@,
            #[trigger] after[j]@,
        ) by {
            if i < at && j < at {
                assert(text_less(before[i]@, before[j]@));
            } else if i < at && j > at {
                assert(text_less(before[i]@, before[j - 1]@));
            } else if i > at {
                assert(text_less(before[i - 1]@, before[j - 1]@));
            }
        }
    }
}

/// The first difference decides, wherever it stands: behind the same bytes, whatever
/// goes on with the smaller byte comes before whatever goes on with the larger one.
pub proof fn the_first_difference_decides(p: Seq<u8>, x: u8, s: Seq<u8>, y: u8, t: Seq<u8>)
    requires
        x < y,
    ensures
        bytes_less(p + seq![x] + s, p + seq![y] + t),
        !bytes_less(p + seq![y] + t, p + seq![x] + s),
    decreases p.len(),
{
    let a = p + seq![x] + s;
    let b = p + seq![y] + t;
    if p.len() == 0 {
        assert(a[0] == x && b[0] == y);
    } else {
        let q = p.drop_first();
        the_first_difference_decides(q, x, s, y, t);
        assert(a[0] == p[0] && b[0] == p[0]);
        assert(a.drop_first() =~= q + seq![x] + s);
        assert(b.drop_first() =~= q + seq![y] + t);
    }
}

/// What goes on comes after what ends: a string of bytes comes before every longer
/// one that begins with it, and no string comes before itself.
pub proof fn a_beginning_comes_first(p: Seq<u8>, s: Seq<u8>)
    ensures
        bytes_less(p, p + s) <==> s.len() > 0,
        !bytes_less(p + s, p),
    decreases p.len(),
{
    if p.len() == 0 {
        assert(p + s =~= s);
    } else {
        a_beginning_comes_first(p.drop_first(), s);
        assert((p + s).drop_first() =~= p.drop_first() + s);
        assert((p + s)[0] == p[0]);
    }
}

/// The bytes of the smaller of two characters and those of the larger one are the
/// same up to some byte, and there the smaller character has the smaller byte.
proof fn characters_encode_in_order(x: char, y: char) -> (k: int)
    requires
        x < y,
    ensures
        0 <= k < encode_scalar(x as u32).len(),
        k < encode_scalar(y as u32).len(),
        encode_scalar(x as u32).take(k) == encode_scalar(y as u32).take(k),
        encode_scalar(x as u32)[k] < encode_scalar(y as u32)[k],
{
    let u = x as u32;
    let v = y as u32;
    char_is_scalar(x);
    char_is_scalar(y);
    assert(u < 0x80 ==> leading_byte_width_1(u) == u) by (bit_vector);
    assert(v < 0x80 ==> leading_byte_width_1(v) == v) by (bit_vector);
    assert(0xC0 <= leading_byte_width_2(u) < 0xE0 && 0xC0 <= leading_byte_width_2(v) < 0xE0
        && 0xE0 <= leading_byte_width_3(u) < 0xF0 && 0xE0 <= leading_byte_width_3(v) < 0xF0
        && 0xF0 <= leading_byte_width_4(v)) by (bit_vector);
    if v < 0x80 {
        0
    } else if u < 0x80 {
        0
    } else if v < 0x800 {
        assert(u < v < 0x800 ==> leading_byte_width_2(u) < leading_byte_width_2(v) || (
        leading_byte_width_2(u) == leading_byte_width_2(v) && last_continuation_byte(u)
            < last_continuation_byte(v))) by (bit_vector);
        if leading_byte_width_2(u) < leading_byte_width_2(v) {
            0
        } else {
            assert(encode_scalar(u).take(1) =~= encode_scalar(v).take(1));
            1
        }
    } else if u < 0x800 {
        0
    } else if v < 0x10000 {
        assert(u < v < 0x10000 ==> leading_byte_width_3(u) < leading_byte_width_3(v) || (
        leading_byte_width_3(u) == leading_byte_width_3(v) && (second_last_continuation_byte(u)
            < second_last_continuation_byte(v) || (second_last_continuation_byte(u)
            == second_last_continuation_byte(v) && last_continuation_byte(u)
            < last_continuation_byte(v))))) by (bit_vector);
        if leading_byte_width_3(u) < leading_byte_width_3(v) {
            0
        } else if second_last_continuation_byte(u) < second_last_continuation_byte(v) {
            assert(encode_scalar(u).take(1) =~= encode_scalar(v).take(1));
            1
        } else {
            assert(encode_scalar(u).take(2) =~= encode_scalar(v).take(2));
            2
        }
    } else if u < 0x10000 {
        0
    } else {
        assert(u < v < 0x110000 ==> leading_byte_width_4(u) < leading_byte_width_4(v) || (
        leading_byte_width_4(u) == leading_byte_width_4(v) && (third_last_continuation_byte(u)
            < third_last_continuation_byte(v) || (third_last_continuation_byte(u)
            == third_last_continuation_byte(v) && (second_last_continuation_byte(u)
            < second_last_continuation_byte(v) || (second_last_continuation_byte(u)
            == second_last_continuation_byte(v) && last_continuation_byte(u)
            < last_continuation_byte(v))))))) by (bit_vector);
        if leading_byte_width_4(u) < leading_byte_width_4(v) {
            0
        } else if third_last_continuation_byte(u) < third_last_continuation_byte(v) {
            assert(encode_scalar(u).take(1) =~= encode_scalar(v).take(1));
            1
        } else if second_last_continuation_byte(u) < second_last_continuation_byte(v) {
            assert(encode_scalar(u).take(2) =~= encode_scalar(v).take(2));
            2
        } else {
            assert(encode_scalar(u).take(3) =~= encode_scalar(v).take(3));
            3
        }
    }
}

/// A byte of the middle part stands between what is ahead of it and what follows.
proof fn a_byte_stands_between(a: Seq<u8>, b: Seq<u8>, c: Seq<u8>, k: int)
    requires
        0 <= k < b.len(),
    ensures
        a + b + c == (a + b.take(k)) + seq![b[k]] + (b.skip(k + 1) + c),
{
    assert(b =~= b.take(k) + seq![b[k]] + b.skip(k + 1));
    assert(a + b + c =~= (a + b.take(k)) + seq![b[k]] + (b.skip(k + 1) + c));
}

/// A character alone encodes to its own bytes.
proof fn a_character_encodes_alone(c: char)
    ensures
        encode_utf8(seq![c]) == encode_scalar(c as u32),
{
    assert(seq![c].drop_first() =~= Seq::<char>::empty());
    assert(encode_utf8(Seq::<char>::empty()) =~= Seq::<u8>::empty());
    assert(encode_utf8(seq![c]) =~= encode_scalar(c as u32));
}

/// The order of strings is that of their characters: behind the same characters,
/// whatever goes on with the smaller one comes first.
pub proof fn the_first_different_character_decides(
    p: Seq<char>,
    x: char,
    s: Seq<char>,
    y: char,
    t: Seq<char>,
)
    requires
        x < y,
    ensures
        text_less(p + seq![x] + s, p + seq![y] + t),
        !text_less(p + seq![y] + t, p + seq![x] + s),
{
    let a = p + seq![x] + s;
    let b = p + seq![y] + t;
    let ex = encode_scalar(x as u32);
    let ey = encode_scalar(y as u32);
    let k = characters_encode_in_order(x, y);
    a_character_encodes_alone(x);
    a_character_encodes_alone(y);
    crate::text::encode_utf8_concat(p, seq![x]);
    crate::text::encode_utf8_concat(p + seq![x], s);
    crate::text::encode_utf8_concat(p, seq![y]);
    crate::text::encode_utf8_concat(p + seq![y], t);
    let same = encode_utf8(p) + ex.take(k);
    let after_x = ex.skip(k + 1) + encode_utf8(s);
    let after_y = ey.skip(k + 1) + encode_utf8(t);
    a_byte_stands_between(encode_utf8(p), ex, encode_utf8(s), k);
    a_byte_stands_between(encode_utf8(p), ey, encode_utf8(t), k);
    the_first_difference_decides(same, ex[k], after_x, ey[k], after_y);
}

/// A string comes before every longer one that begins with it, and not before
/// itself.
pub proof fn a_beginning_of_a_text_comes_first(p: Seq<char>, s: Seq<char>)
    ensures
        text_less(p, p + s) <==> s.len() > 0,
        !text_less(p + s, p),
{
    crate::text::encode_utf8_concat(p, s);
    a_beginning_comes_first(encode_utf8(p), encode_utf8(s));
    if s.len() > 0 {
        char_is_scalar(s[0]);
        assert(encode_scalar(s[0] as u32).len() > 0);
    } else {
        assert(encode_utf8(s) =~= Seq::<u8>::empty());
    }
}

/// Where two strings part: the first character in which they differ, or the end of
/// one that the other begins with.
proof fn texts_part_somewhere(a: Seq<char>, b: Seq<char>) -> (k: int)
    ensures
        0 <= k <= a.len(),
        k <= b.len(),
        a.take(k) == b.take(k),
        k < a.len() && k < b.len() ==> a[k] != b[k],
    decreases a.len(),
{
    if a.len() == 0 || b.len() == 0 || a[0] != b[0] {
        assert(a.take(0) =~= b.take(0));
        0
    } else {
        let k = texts_part_somewhere(a.drop_first(), b.drop_first());
        assert(a.take(k + 1) =~= seq![a[0]] + a.drop_first().take(k));
        assert(b.take(k + 1) =~= seq![b[0]] + b.drop_first().take(k));
        if k + 1 < a.len() && k + 1 < b.len() {
            assert(a[k + 1] == a.drop_first()[k] && b[k + 1] == b.drop_first()[k]);
        }
        k + 1
    }
}

/// One string comes before another exactly when, behind the characters that both
/// begin with, it ends and the other goes on, or goes on with the smaller character.
pub proof fn strings_are_ordered_by_where_they_part(a: Seq<char>, b: Seq<char>)
    ensures
        text_less(a, b) <==> exists|k: int|
            0 <= k <= a.len() && k < b.len() && #[trigger] a.take(k) == b.take(k) && (k == a.len()
                || a[k] < b[k]),
{
    if text_less(a, b) {
        let k = texts_part_somewhere(a, b);
        if k == b.len() {
            assert(b.take(k) =~= b);
            assert(a =~= a.take(k) + a.skip(k));
            a_beginning_of_a_text_comes_first(b, a.skip(k));
        } else if k < a.len() && b[k] < a[k] {
            assert(a =~= a.take(k) + seq![a[k]] + a.skip(k + 1));
            assert(b =~= b.take(k) + seq![b[k]] + b.skip(k + 1));
            the_first_different_character_decides(
                b.take(k),
                b[k],
                b.skip(k + 1),
                a[k],
                a.skip(k + 1),
            );
        }
        assert(a.take(k) == b.take(k));
    }
    if exists|k: int|
        0 <= k <= a.len() && k < b.len() && #[trigger] a.take(k) == b.take(k) && (k == a.len()
            || a[k] < b[k]) {
        let k = choose|k: int|
            0 <= k <= a.len() && k < b.len() && #[trigger] a.take(k) == b.take(k) && (k == a.len()
                || a[k] < b[k]);
        if k == a.len() {
            assert(a.take(k) =~= a);
            assert(b =~= b.take(k) + b.skip(k));
            a_beginning_of_a_text_comes_first(a, b.skip(k));
        } else {
            assert(a =~= a.take(k) + seq![a[k]] + a.skip(k + 1));
            assert(b =~= b.take(k) + seq![b[k]] + b.skip(k + 1));
            the_first_different_character_decides(
                a.take(k),
                a[k],
                a.skip(k + 1),
                b[k],
                b.skip(k + 1),
            );
        }
    }
}

/// In an ascending list no string occurs twice, and of any two the later one goes
/// on, or has the larger character, where they part.
pub proof fn an_ascending_list_is_sorted(names: Seq<String>, i: int, j: int)
    requires
        ascending(names),
        0 <= i < j < names.len(),
    ensures
        names[i]@ != names[j]@,
        exists|k: int|
            0 <= k <= names[i]@.len() && k < names[j]@.len() && #[trigger] names[i]@.take(k)
                == names[j]@.take(k) && (k == names[i]@.len() || names[i]@[k] < names[j]@[k]),
{
    assert(text_less(names[i]@, names[j]@));
    strings_are_ordered_by_where_they_part(names[i]@, names[j]@);
    text_less_is_a_strict_total_order(names[i]@, names[j]@);
}

/// A list holds what was put into it and nothing else.
pub proof fn a_list_holds_what_was_put_in(names: Seq<String>, put: String, at: int, name: Seq<char>)
    requires
        0 <= at <= names.len(),
    ensures
        !holds(Seq::empty(), name),
        holds(names.insert(at, put), name) <==> holds(names, name) || name == put@,
{
    let more = names.insert(at, put);
    if holds(more, name) {
        let i = choose|i: int| 0 <= i < more.len() && #[trigger] more[i]@ == name;
        if i < at {
            assert(names[i]@ == name);
        } else if i > at {
            assert(names[i - 1]@ == name);
        }
    }
    if holds(names, name) {
        let i = choose|i: int| 0 <= i < names.len() && #[trigger] names[i]@ == name;
        if i < at {
            assert(more[i]@ == name);
        } else {
            assert(more[i + 1]@ == name);
        }
    }
    assert(more[at]@ == put@);
}

} // verus!
