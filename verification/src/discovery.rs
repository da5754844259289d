//! Finding live sandboxes in the kernel's table of Unix sockets.
//!
//! The table's columns are Num RefCount Protocol Flags Type St Inode Path. A
//! socket that listens carries the flag `00010000`. An abstract name is printed
//! with its leading NUL as `@`. The first line holds the column titles. Columns
//! are parted by white space, to which a carriage return at the end of a line
//! belongs.

use vstd::prelude::*;
use vstd::string::*;
use vstd::utf8::*;

use crate::order::insert_name;
use crate::table::{split_byte_lines, split_lines, split_words};
use crate::text::{chars_of, push_decimal};

verus! {

/// The sandbox of `uid` whose control socket listens according to one line of
/// the table.
pub open spec fn line_name(line: Seq<char>, uid: u32) -> Option<Seq<char>> {
    let fields = crate::table::words(line);
    let prefix = crate::address::path_prefix(uid);
    if fields.len() > 7 && fields[3] == "00010000"@ && prefix.is_prefix_of(fields[7]) {
        Some(fields[7].skip(prefix.len() as int))
    } else {
        None
    }
}

/// Some line after the first names the sandbox.
pub open spec fn lines_name(lines: Seq<Seq<char>>, uid: u32, name: Seq<char>) -> bool {
    exists|i: int| 1 <= i < lines.len() && line_name(#[trigger] lines[i], uid) == Some(name)
}

/// The table lists a sandbox of `uid` under `name`.
pub open spec fn lists(text: Seq<char>, uid: u32, name: Seq<char>) -> bool {
    lines_name(crate::table::split(text, '\n'), uid, name)
}

/// A line of the raw table as text. Socket names are bytes and need not be
/// text; a line that is none reads as blank.
pub open spec fn line_text(line: Seq<u8>) -> Seq<char> {
    if valid_utf8(line) {
        decode_utf8(line)
    } else {
        Seq::empty()
    }
}

/// The lines of the raw table as text.
pub open spec fn raw_lines(raw: Seq<u8>) -> Seq<Seq<char>> {
    let lines = crate::table::split(raw, 10u8);
    Seq::new(lines.len(), |i: int| line_text(lines[i]))
}

/// Reads bytes as text, as `std::str::from_utf8` documents: it succeeds on
/// valid UTF-8 and on nothing else, and hands back the same bytes as a string.
#[verifier::external_body]
fn utf8_text(bytes: &[u8]) -> (r: Option<&str>)
    ensures
        r is Some <==> valid_utf8(bytes@),
        r matches Some(s) ==> encode_utf8(s@) == bytes@,
{
    std::str::from_utf8(bytes).ok()
}

/// The prefix that marks the control sockets of `uid`.
fn socket_path_prefix(uid: u32) -> (out: Vec<char>)
    ensures
        out@ == crate::address::path_prefix(uid),
{
    let mut out: String = String::new();
    out.append("@");
    out.append("sandlock/");
    push_decimal(&mut out, uid as u64);
    out.append("/");
    assert(out@ =~= crate::address::path_prefix(uid));
    chars_of(out.as_str())
}

/// Whether `s` begins with `prefix`.
fn begins_with(s: &Vec<char>, prefix: &Vec<char>) -> (r: bool)
    ensures
        r == prefix@.is_prefix_of(s@),
{
    if s.len() < prefix.len() {
        return false;
    }
    let mut i: usize = 0;
    while i < prefix.len()
        invariant
            i <= prefix.len() <= s.len(),
            prefix@.take(i as int) =~= s@.take(i as int),
        decreases prefix.len() - i,
    {
        if s[i] != prefix[i] {
            proof {
                assert(s@.subrange(0, prefix@.len() as int)[i as int] == s@[i as int]);
            }
            return false;
        }
        proof {
            assert(prefix@.take(i + 1) =~= prefix@.take(i as int).push(prefix@[i as int]));
            assert(s@.take(i + 1) =~= s@.take(i as int).push(s@[i as int]));
        }
        i += 1;
    }
    assert(prefix@.take(i as int) =~= prefix@);
    true
}

/// The characters of `s` from `from` on.
fn rest_of(s: &Vec<char>, from: usize) -> (out: String)
    requires
        from <= s.len(),
    ensures
        out@ == s@.skip(from as int),
{
    let mut out: String = String::new();
    let mut i: usize = from;
    while i < s.len()
        invariant
            from <= i <= s.len(),
            out@ == s@.subrange(from as int, i as int),
        decreases s.len() - i,
    {
        out.push(s[i]);
        i += 1;
        assert(out@ =~= s@.subrange(from as int, i as int));
    }
    assert(out@ =~= s@.skip(from as int));
    out
}

/// The sandbox named by one line of the table.
fn name_on_line(line: &Vec<char>, prefix: &Vec<char>, uid: u32) -> (r: Option<String>)
    requires
        prefix@ == crate::address::path_prefix(uid),
    ensures
        match r {
            Some(name) => line_name(line@, uid) == Some(name@),
            None => line_name(line@, uid) is None,
        },
{
    let fields = split_words(line);
    let ghost seen = crate::table::words(line@);
    if fields.len() <= 7 {
        return None;
    }
    let listening = chars_of("00010000");
    assert(fields@[3]@ == seen[3] && fields@[7]@ == seen[7]);
    if fields[3].len() == listening.len() && begins_with(&fields[3], &listening) && begins_with(
        &fields[7],
        prefix,
    ) {
        assert(fields@[3]@ =~= listening@);
        Some(rest_of(&fields[7], prefix.len()))
    } else {
        None
    }
}

/// The sandboxes of `uid` named by the lines of the table.
fn names_on_lines(lines: &Vec<Vec<char>>, uid: u32) -> (names: Vec<String>)
    ensures
        crate::order::ascending(names@),
        forall|name: Seq<char>| #[trigger]
            crate::order::holds(names@, name) <==> lines_name(
                crate::table::views(lines@),
                uid,
                name,
            ),
{
    let prefix = socket_path_prefix(uid);
    let ghost all = crate::table::views(lines@);
    let mut names: Vec<String> = Vec::new();
    let mut i: usize = 1;
    while i < lines.len()
        invariant
            1 <= i,
            i <= lines.len() || lines.len() == 0,
            all == crate::table::views(lines@),
            prefix@ == crate::address::path_prefix(uid),
            crate::order::ascending(names@),
            forall|name: Seq<char>| #[trigger]
                crate::order::holds(names@, name) <==> exists|k: int|
                    1 <= k < i && k < all.len() && line_name(#[trigger] all[k], uid) == Some(name),
        decreases lines.len() - i,
    {
        let ghost before = names@;
        let ghost at = i as int;
        assert(all[at] == lines@[at]@);
        match name_on_line(&lines[i], &prefix, uid) {
            Some(name) => {
                insert_name(&mut names, name);
            },
            None => {},
        }
        i += 1;
        proof {
            assert forall|name: Seq<char>| #[trigger]
                crate::order::holds(names@, name) <==> exists|k: int|
                    1 <= k < i && k < all.len() && line_name(#[trigger] all[k], uid) == Some(
                        name,
                    ) by {
                if crate::order::holds(names@, name) {
                    if crate::order::holds(before, name) {
                        let k = choose|k: int|
                            1 <= k < at && k < all.len() && line_name(#[trigger] all[k], uid)
                                == Some(name);
                        assert(1 <= k < i && line_name(all[k], uid) == Some(name));
                    } else {
                        assert(line_name(all[at], uid) == Some(name));
                    }
                }
                if exists|k: int|
                    1 <= k < i && k < all.len() && line_name(#[trigger] all[k], uid) == Some(name) {
                    let k = choose|k: int|
                        1 <= k < i && k < all.len() && line_name(#[trigger] all[k], uid) == Some(
                            name,
                        );
                    if k < at {
                        assert(crate::order::holds(before, name));
                    }
                }
            }
        }
    }
    names
}

/// Names of every listening control socket belonging to `uid`, parsed from the
/// text of the kernel's table: in order, each once.
pub fn parse_proc_net_unix(text: &str, uid: u32) -> (names: Vec<String>)
    ensures
        crate::order::ascending(names@),
        forall|name: Seq<char>| #[trigger]
            crate::order::holds(names@, name) <==> lists(text@, uid, name),
{
    let chars = chars_of(text);
    let lines = split_lines(&chars);
    names_on_lines(&lines, uid)
}

/// Names of the live sandboxes of `uid`, sorted, from the bytes of the kernel's
/// table. A line with a socket name that is no text, which no sandbox can have,
/// is passed over and disturbs no other.
pub fn list_sandboxes(raw: &[u8], uid: u32) -> (names: Vec<String>)
    ensures
        crate::order::ascending(names@),
        forall|name: Seq<char>| #[trigger]
            crate::order::holds(names@, name) <==> lines_name(raw_lines(raw@), uid, name),
{
    let byte_lines = split_byte_lines(raw);
    let ghost cut = crate::table::split(raw@, 10u8);
    let mut lines: Vec<Vec<char>> = Vec::new();
    let mut i: usize = 0;
    while i < byte_lines.len()
        invariant
            i <= byte_lines.len(),
            crate::table::views(byte_lines@) == cut,
            lines.len() == i,
            forall|k: int| 0 <= k < i ==> (#[trigger] lines@[k])@ == line_text(cut[k]),
        decreases byte_lines.len() - i,
    {
        assert(cut[i as int] == byte_lines@[i as int]@);
        match utf8_text(byte_lines[i].as_slice()) {
            Some(line) => {
                proof {
                    encode_utf8_decode_utf8(line@);
                }
                lines.push(chars_of(line));
            },
            None => {
                lines.push(Vec::new());
            },
        }
        i += 1;
    }
    assert(crate::table::views(lines@) =~= raw_lines(raw@));
    names_on_lines(&lines, uid)
}

/// A line speaks for one user: no line of the table names a sandbox of two
/// different uids.
pub proof fn a_line_names_a_sandbox_of_one_uid(line: Seq<char>, uid1: u32, uid2: u32)
    requires
        line_name(line, uid1) is Some,
        line_name(line, uid2) is Some,
    ensures
        uid1 == uid2,
{
    let path = crate::table::words(line)[7];
    let p1 = crate::address::path_prefix(uid1);
    let p2 = crate::address::path_prefix(uid2);
    let name1 = path.skip(p1.len() as int);
    let name2 = path.skip(p2.len() as int);
    reveal_strlit("@");
    assert(path =~= p1 + name1);
    assert(path =~= p2 + name2);
    assert(path =~= "@"@ + crate::address::socket_text(uid1, name1));
    assert(path =~= "@"@ + crate::address::socket_text(uid2, name2));
    assert(path.skip(1) =~= crate::address::socket_text(uid1, name1));
    assert(path.skip(1) =~= crate::address::socket_text(uid2, name2));
    crate::address::socket_text_is_injective(uid1, name1, uid2, name2);
}

/// A control socket that listens is listed: where the seven columns ahead of
/// the path carry the listening flag and the path is that of the control socket
/// of `uid` and `name`, the line names `name` for `uid` and nothing for anyone
/// else. Columns are parted by white space, so this is for names without any.
pub proof fn a_listening_control_socket_is_named(head: Seq<char>, uid: u32, name: Seq<char>)
    requires
        crate::table::words(head).len() == 7,
        crate::table::words(head)[3] == "00010000"@,
        crate::table::is_space(head.last()),
        forall|i: int| 0 <= i < name.len() ==> !crate::table::is_space(#[trigger] name[i]),
    ensures
        line_name(head + "@"@ + crate::address::socket_text(uid, name), uid) == Some(name),
        forall|other: u32|
            other != uid ==> #[trigger] line_name(
                head + "@"@ + crate::address::socket_text(uid, name),
                other,
            ) is None,
{
    let path = "@"@ + crate::address::socket_text(uid, name);
    let line = head + "@"@ + crate::address::socket_text(uid, name);
    let prefix = crate::address::path_prefix(uid);
    reveal_strlit("@");
    reveal_strlit("sandlock/");
    reveal_strlit("/");
    crate::text::decimal_is_digits(uid as nat);
    let number = crate::text::decimal(uid as nat);
    assert forall|i: int| 0 <= i < path.len() implies !crate::table::is_space(
        #[trigger] path[i],
    ) by {
        if 10 <= i < 10 + number.len() {
            assert(path[i] == number[i - 10]);
        } else if i > 10 + number.len() {
            assert(path[i] == name[i - 11 - number.len()]);
        }
    }
    crate::table::words_add_a_word(head, path);
    assert(line =~= head + path);
    let fields = crate::table::words(line);
    assert(fields[3] == "00010000"@);
    assert(fields[7] == path);
    assert(path =~= prefix + name);
    assert(prefix.is_prefix_of(path));
    assert(path.skip(prefix.len() as int) =~= name);
    assert forall|other: u32| other != uid implies #[trigger] line_name(line, other) is None by {
        if line_name(line, other) is Some {
            a_line_names_a_sandbox_of_one_uid(line, uid, other);
        }
    }
}

/// One more line, anywhere after the first, adds what it names and nothing else.
proof fn a_line_adds_what_it_names(
    before: Seq<Seq<char>>,
    line: Seq<char>,
    after: Seq<Seq<char>>,
    uid: u32,
    name: Seq<char>,
)
    requires
        before.len() > 0,
    ensures
        lines_name(before.push(line) + after, uid, name) <==> lines_name(before + after, uid, name)
            || line_name(line, uid) == Some(name),
{
    let without = before + after;
    let with = before.push(line) + after;
    let at = before.len() as int;
    if lines_name(with, uid, name) {
        let i = choose|i: int|
            1 <= i < with.len() && line_name(#[trigger] with[i], uid) == Some(name);
        if i < at {
            assert(without[i] == with[i]);
        } else if i > at {
            assert(without[i - 1] == with[i]);
        }
    }
    if lines_name(without, uid, name) {
        let i = choose|i: int|
            1 <= i < without.len() && line_name(#[trigger] without[i], uid) == Some(name);
        if i < at {
            assert(with[i] == without[i]);
        } else {
            assert(with[i + 1] == without[i]);
        }
    }
    if line_name(line, uid) == Some(name) {
        assert(with[at] == line);
    }
}

/// The listing follows the listeners: one more line, wherever in the table it
/// stands, adds the sandbox it names, if any, and changes nothing else; without
/// the line the listing is as before. A last line may lack its newline.
pub proof fn the_listing_follows_the_table(
    head: Seq<char>,
    line: Seq<char>,
    tail: Seq<char>,
    uid: u32,
    name: Seq<char>,
)
    requires
        !line.contains('\n'),
    ensures
        lists(head.push('\n') + (line.push('\n') + tail), uid, name) <==> lists(
            head.push('\n') + tail,
            uid,
            name,
        ) || line_name(line, uid) == Some(name),
        lists(head.push('\n') + line, uid, name) <==> lists(head, uid, name) || line_name(line, uid)
            == Some(name),
{
    let before = crate::table::split(head, '\n');
    let after = crate::table::split(tail, '\n');
    crate::table::split_is_not_empty(head, '\n');
    crate::table::split_puts_a_line_between(head, line, tail, '\n');
    crate::table::split_parts_at_a_cut(head, tail, '\n');
    a_line_adds_what_it_names(before, line, after, uid, name);
    crate::table::split_adds_a_stretch(head, line, '\n');
    a_line_adds_what_it_names(before, line, Seq::empty(), uid, name);
    assert(before.push(line) + Seq::<Seq<char>>::empty() =~= before.push(line));
    assert(before + Seq::<Seq<char>>::empty() =~= before);
}

/// A character other than the newline encodes without a newline byte.
proof fn newline_bytes_are_newlines(c: char)
    ensures
        c == '\n' ==> encode_utf8(seq![c]) == seq![10u8],
        c != '\n' ==> !encode_utf8(seq![c]).contains(10u8),
{
    let v = c as u32;
    char_is_scalar(c);
    assert(seq![c].drop_first() =~= Seq::<char>::empty());
    assert(encode_utf8(Seq::<char>::empty()) =~= Seq::<u8>::empty());
    assert(encode_utf8(seq![c]) =~= encode_scalar(v));
    assert(v < 0x80 ==> leading_byte_width_1(v) == v) by (bit_vector);
    assert(leading_byte_width_2(v) >= 0x80 && leading_byte_width_3(v) >= 0x80
        && leading_byte_width_4(v) >= 0x80 && last_continuation_byte(v) >= 0x80
        && second_last_continuation_byte(v) >= 0x80 && third_last_continuation_byte(v) >= 0x80)
        by (bit_vector);
}

/// Cutting a text into lines and encoding it commute.
proof fn lines_encode_to_lines(text: Seq<char>)
    ensures
        crate::table::split(encode_utf8(text), 10u8).len() == crate::table::split(
            text,
            '\n',
        ).len(),
        forall|i: int|
            0 <= i < crate::table::split(text, '\n').len() ==> #[trigger] crate::table::split(
                encode_utf8(text),
                10u8,
            )[i] == encode_utf8(crate::table::split(text, '\n')[i]),
    decreases text.len(),
{
    if text.len() == 0 {
        assert(encode_utf8(text) =~= Seq::<u8>::empty());
    } else {
        let head = text.drop_last();
        let c = text.last();
        lines_encode_to_lines(head);
        newline_bytes_are_newlines(c);
        crate::text::encode_utf8_concat(head, seq![c]);
        assert(text =~= head + seq![c]);
        let whole = crate::table::split(head, '\n');
        let cut = crate::table::split(encode_utf8(head), 10u8);
        crate::table::split_is_not_empty(head, '\n');
        if c == '\n' {
            assert(encode_utf8(text) =~= encode_utf8(head).push(10u8));
            assert(encode_utf8(head).push(10u8).drop_last() =~= encode_utf8(head));
            assert(encode_utf8(Seq::<char>::empty()) =~= Seq::<u8>::empty());
        } else {
            crate::table::split_extends_the_last_stretch(
                encode_utf8(head),
                encode_utf8(seq![c]),
                10u8,
            );
            crate::text::encode_utf8_concat(whole.last(), seq![c]);
            assert(whole.last() + seq![c] =~= whole.last().push(c));
            assert(cut.last() == encode_utf8(whole.last()));
        }
    }
}

/// On a table that is text, reading its bytes and reading the text list the
/// same sandboxes.
pub proof fn bytes_and_text_list_the_same(text: Seq<char>, uid: u32, name: Seq<char>)
    ensures
        lines_name(raw_lines(encode_utf8(text)), uid, name) <==> lists(text, uid, name),
{
    lines_encode_to_lines(text);
    let lines = crate::table::split(text, '\n');
    let cut = crate::table::split(encode_utf8(text), 10u8);
    assert forall|i: int| 0 <= i < lines.len() implies line_text(#[trigger] cut[i])
        == lines[i] by {
        encode_utf8_valid_utf8(lines[i]);
        encode_utf8_decode_utf8(lines[i]);
    }
    assert(raw_lines(encode_utf8(text)) =~= lines);
}

/// A line that is no text disturbs no other: adding one to the raw table,
/// wherever it stands, or taking it away, leaves the listing as it is. A last line
/// may lack its newline.
pub proof fn a_foreign_line_leaves_the_listing_alone(
    head: Seq<u8>,
    line: Seq<u8>,
    tail: Seq<u8>,
    uid: u32,
    name: Seq<char>,
)
    requires
        !line.contains(10u8),
        !valid_utf8(line),
    ensures
        lines_name(raw_lines(head.push(10u8) + (line.push(10u8) + tail)), uid, name)
            <==> lines_name(raw_lines(head.push(10u8) + tail), uid, name),
        lines_name(raw_lines(head.push(10u8) + line), uid, name) <==> lines_name(
            raw_lines(head),
            uid,
            name,
        ),
{
    let before = raw_lines(head);
    let after = raw_lines(tail);
    let blank = Seq::<char>::empty();
    let none = Seq::<Seq<char>>::empty();
    assert(crate::table::words(blank).len() == 0);
    crate::table::split_is_not_empty(head, 10u8);
    crate::table::split_puts_a_line_between(head, line, tail, 10u8);
    crate::table::split_parts_at_a_cut(head, tail, 10u8);
    assert(raw_lines(head.push(10u8) + (line.push(10u8) + tail)) =~= before.push(blank) + after);
    assert(raw_lines(head.push(10u8) + tail) =~= before + after);
    a_line_adds_what_it_names(before, blank, after, uid, name);
    crate::table::split_adds_a_stretch(head, line, 10u8);
    assert(raw_lines(head.push(10u8) + line) =~= before.push(blank) + none);
    assert(before + none =~= before);
    a_line_adds_what_it_names(before, blank, none, uid, name);
}

/// A line names a sandbox of `uid` exactly when it has eight columns or more, its
/// fourth is the listening flag, and its eighth is `@sandlock/`, decimal digits that
/// come to the uid, a slash, and the name.
pub proof fn a_line_names_what_its_path_says(line: Seq<char>, uid: u32, name: Seq<char>)
    ensures
        line_name(line, uid) == Some(name) <==> crate::table::words(line).len() >= 8
            && crate::table::words(line)[3] == "00010000"@ && exists|digits: Seq<char>|
            #[trigger] crate::text::is_numeral(digits, uid as int) && crate::table::words(line)[7]
                == "@sandlock/"@ + digits + "/"@ + name,
{
    let fields = crate::table::words(line);
    let path = fields[7];
    let prefix = crate::address::path_prefix(uid);
    let number = crate::text::decimal(uid as nat);
    crate::text::decimal_reads_back(uid as nat);
    crate::address::a_path_prefix_spells_the_uid(uid, number, name);
    if line_name(line, uid) == Some(name) {
        assert(path =~= prefix + name);
        assert(crate::text::is_numeral(number, uid as int));
    }
    if exists|digits: Seq<char>| #[trigger]
        crate::text::is_numeral(digits, uid as int) && path == "@sandlock/"@ + digits + "/"@
            + name {
        let digits = choose|digits: Seq<char>| #[trigger]
            crate::text::is_numeral(digits, uid as int) && path == "@sandlock/"@ + digits + "/"@
                + name;
        crate::address::a_path_prefix_spells_the_uid(uid, digits, name);
        assert(path == prefix + name);
        assert(prefix.is_prefix_of(path));
        assert(path.skip(prefix.len() as int) =~= name);
    }
}

/// The first line holds titles: a table of one line lists nothing, whatever it
/// says, read as text or as bytes.
pub proof fn the_first_line_names_nothing(
    text: Seq<char>,
    raw: Seq<u8>,
    uid: u32,
    name: Seq<char>,
)
    ensures
        !text.contains('\n') ==> !lists(text, uid, name),
        !raw.contains(10u8) ==> !lines_name(raw_lines(raw), uid, name),
{
    if !text.contains('\n') {
        crate::table::a_stretch_stands_alone(text, '\n');
    }
    if !raw.contains(10u8) {
        crate::table::a_stretch_stands_alone(raw, 10u8);
    }
}

/// The listing follows the raw table too: one more line of bytes, wherever it stands
/// after the first, adds what its text names, and nothing where it is no text. A last
/// line may lack its newline.
pub proof fn the_listing_follows_the_raw_table(
    head: Seq<u8>,
    line: Seq<u8>,
    tail: Seq<u8>,
    uid: u32,
    name: Seq<char>,
)
    requires
        !line.contains(10u8),
    ensures
        lines_name(raw_lines(head.push(10u8) + (line.push(10u8) + tail)), uid, name)
            <==> lines_name(raw_lines(head.push(10u8) + tail), uid, name) || (valid_utf8(line)
            && line_name(decode_utf8(line), uid) == Some(name)),
        lines_name(raw_lines(head.push(10u8) + line), uid, name) <==> lines_name(
            raw_lines(head),
            uid,
            name,
        ) || (valid_utf8(line) && line_name(decode_utf8(line), uid) == Some(name)),
{
    if valid_utf8(line) {
        let before = raw_lines(head);
        let after = raw_lines(tail);
        let text = decode_utf8(line);
        let none = Seq::<Seq<char>>::empty();
        crate::table::split_is_not_empty(head, 10u8);
        crate::table::split_puts_a_line_between(head, line, tail, 10u8);
        crate::table::split_parts_at_a_cut(head, tail, 10u8);
        assert(raw_lines(head.push(10u8) + (line.push(10u8) + tail)) =~= before.push(text) + after);
        assert(raw_lines(head.push(10u8) + tail) =~= before + after);
        a_line_adds_what_it_names(before, text, after, uid, name);
        crate::table::split_adds_a_stretch(head, line, 10u8);
        assert(raw_lines(head.push(10u8) + line) =~= before.push(text) + none);
        assert(before + none =~= before);
        a_line_adds_what_it_names(before, text, none, uid, name);
    } else {
        a_foreign_line_leaves_the_listing_alone(head, line, tail, uid, name);
    }
}

} // verus!
