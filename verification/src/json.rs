//! JSON values, as `serde_json` holds and writes them.
//!
//! A value is opaque here. It is known by how it was made: from an integer, from a
//! truth value, from an optional text, or from the members of an object. Objects
//! can also be written member by member, in a chosen order.

use std::collections::HashMap;
use vstd::prelude::*;
use vstd::utf8::*;

verus! {

/// `serde_json::Value`: any JSON value.
#[verifier::external_type_specification]
#[verifier::external_body]
pub struct ExValue(serde_json::Value);

/// `serde_json::Map`: the members of a JSON object, by name.
#[verifier::external_type_specification]
#[verifier::external_body]
#[verifier::reject_recursive_types(K)]
#[verifier::reject_recursive_types(V)]
pub struct ExMembers<K, V>(serde_json::Map<K, V>);

/// What a `serde_json::Map` holds.
pub uninterp spec fn members_of(m: serde_json::Map<String, serde_json::Value>) -> Map<
    Seq<char>,
    serde_json::Value,
>;

/// The value that `serde_json::Value::from` makes of an integer.
pub uninterp spec fn number_value(n: int) -> serde_json::Value;

/// The value that `serde_json::Value::from` makes of a truth value.
pub uninterp spec fn bool_value(b: bool) -> serde_json::Value;

/// The value that `serde_json::Value::from` makes of an optional text: a string,
/// or null.
pub uninterp spec fn text_value(s: Option<Seq<char>>) -> serde_json::Value;

/// The value that `serde_json::Value::Object` makes of its members.
pub uninterp spec fn object_value(members: Map<Seq<char>, serde_json::Value>) -> serde_json::Value;

/// What `serde_json::to_vec` makes of a value: its JSON text in UTF-8.
pub uninterp spec fn json_text(v: serde_json::Value) -> Seq<u8>;

/// No character of the text needs an escape in a JSON string.
pub open spec fn is_plain(s: Seq<char>) -> bool {
    forall|i: int|
        0 <= i < s.len() ==> ' ' <= #[trigger] s[i] && s[i] != '"' && s[i] != '\\'
}

/// A text in quotes.
pub open spec fn quoted(s: Seq<char>) -> Seq<char> {
    seq!['"'] + s + seq!['"']
}

/// A hexadecimal digit.
pub open spec fn hex_digit(d: int) -> char {
    if d < 10 {
        (48 + d) as char
    } else {
        (87 + d) as char
    }
}

/// A character inside a JSON string: quotes, backslashes and control characters
/// are escaped.
pub open spec fn escaped_char(c: char) -> Seq<char> {
    if c == '"' || c == '\\' {
        seq!['\\', c]
    } else if c == '\u{8}' {
        seq!['\\', 'b']
    } else if c == '\u{9}' {
        seq!['\\', 't']
    } else if c == '\u{a}' {
        seq!['\\', 'n']
    } else if c == '\u{c}' {
        seq!['\\', 'f']
    } else if c == '\u{d}' {
        seq!['\\', 'r']
    } else if (c as int) < 32 {
        seq!['\\', 'u', '0', '0', hex_digit((c as int) / 16), hex_digit((c as int) % 16)]
    } else {
        seq![c]
    }
}

/// A text inside a JSON string.
pub open spec fn escaped(s: Seq<char>) -> Seq<char>
    decreases s.len(),
{
    if s.len() == 0 {
        Seq::empty()
    } else {
        escaped(s.drop_last()) + escaped_char(s.last())
    }
}

/// A text as a JSON string.
pub open spec fn string_text(s: Seq<char>) -> Seq<char> {
    quoted(escaped(s))
}

/// A text as a JSON string, and null where there is none.
pub open spec fn string_or_null_text(s: Option<Seq<char>>) -> Seq<char> {
    match s {
        Some(s) => string_text(s),
        None => "null"@,
    }
}

/// A truth value in JSON.
pub open spec fn truth_text(b: bool) -> Seq<char> {
    if b {
        "true"@
    } else {
        "false"@
    }
}

/// The value is written as this text.
pub open spec fn is_written_as(v: serde_json::Value, text: Seq<char>) -> bool {
    json_text(v) == encode_utf8(text)
}

/// One member of an object ahead of its value: its name as a string and a colon,
/// behind a comma where it is not the first.
pub open spec fn member_head(key: Seq<char>, first: bool) -> Seq<char> {
    (if first {
        Seq::empty()
    } else {
        seq![',']
    }) + string_text(key) + seq![':']
}

/// The members of an object as JSON text.
pub open spec fn members_text(members: Seq<(Seq<char>, serde_json::Value)>) -> Seq<u8>
    decreases members.len(),
{
    if members.len() == 0 {
        Seq::empty()
    } else {
        members_text(members.drop_last()) + encode_utf8(
            member_head(members.last().0, members.len() == 1),
        ) + json_text(members.last().1)
    }
}

/// An object with these members, in this order, as JSON text without white space.
pub open spec fn object_text(members: Seq<(Seq<char>, serde_json::Value)>) -> Seq<u8> {
    encode_utf8(seq!['{']) + members_text(members) + encode_utf8(seq!['}'])
}

/// `list` holds the members of an object, each once, in the order of their names.
pub open spec fn is_listing(
    list: Seq<(Seq<char>, serde_json::Value)>,
    members: Map<Seq<char>, serde_json::Value>,
) -> bool {
    &&& forall|i: int, j: int|
        0 <= i < j < list.len() ==> crate::order::text_less(
            (#[trigger] list[i]).0,
            (#[trigger] list[j]).0,
        )
    &&& forall|i: int|
        0 <= i < list.len() ==> members.contains_key((#[trigger] list[i]).0) && members[list[i].0]
            == list[i].1
    &&& forall|key: Seq<char>| #[trigger]
        members.contains_key(key) ==> exists|i: int|
            0 <= i < list.len() && (#[trigger] list[i]).0 == key
}

/// The value is written as an object with these members, in the order of their
/// names.
pub open spec fn is_written_in_order(
    v: serde_json::Value,
    members: Map<Seq<char>, serde_json::Value>,
) -> bool {
    forall|list: Seq<(Seq<char>, serde_json::Value)>| #[trigger]
        is_listing(list, members) ==> json_text(v) == object_text(list)
}

/// The names and the values of a list of members.
pub open spec fn named(members: Seq<(&str, &serde_json::Value)>) -> Seq<
    (Seq<char>, serde_json::Value),
> {
    Seq::new(members.len(), |i: int| (members[i].0@, *members[i].1))
}

/// Makes an empty object, as `serde_json::Map::new` documents.
#[verifier::external_body]
pub(crate) fn no_members() -> (m: serde_json::Map<String, serde_json::Value>)
    ensures
        members_of(m).dom() == Set::<Seq<char>>::empty(),
{
    serde_json::Map::new()
}

/// Sets one member of an object, as `serde_json::Map::insert` documents: the
/// member is there with the new value, and the others are untouched.
#[verifier::external_body]
pub(crate) fn set_member(
    m: &mut serde_json::Map<String, serde_json::Value>,
    key: String,
    v: serde_json::Value,
)
    ensures
        members_of(*final(m)) == members_of(*old(m)).insert(key@, v),
{
    m.insert(key, v);
}

/// Makes a JSON number, by `serde_json::Value::from` on an `i64`. The same
/// integer gives the same value, and it is written in decimal.
#[verifier::external_body]
pub(crate) fn number(n: i64) -> (v: serde_json::Value)
    ensures
        v == number_value(n as int),
        is_written_as(v, crate::text::signed_decimal(n as int)),
{
    serde_json::Value::from(n)
}

/// Makes a JSON truth value, by `serde_json::Value::from` on a `bool`. It is
/// written as `true` or `false`.
#[verifier::external_body]
pub(crate) fn truth(b: bool) -> (v: serde_json::Value)
    ensures
        v == bool_value(b),
        is_written_as(v, truth_text(b)),
{
    serde_json::Value::from(b)
}

/// Makes a JSON string of a text and null of none, by `serde_json::Value::from`
/// on an `Option<String>`. The same text gives the same value. It is written in
/// quotes, with escapes for quotes, backslashes and control characters.
#[verifier::external_body]
pub(crate) fn text_or_null(s: Option<String>) -> (v: serde_json::Value)
    ensures
        v == text_value(match s {
            Some(s) => Some(s@),
            None => None,
        }),
        is_written_as(v, string_or_null_text(match s {
            Some(s) => Some(s@),
            None => None,
        })),
{
    serde_json::Value::from(s)
}

/// Makes a JSON object, by `serde_json::Value::Object`. With its default features
/// the crate keeps members sorted by name, so the same members give the same
/// value, and they are written in that order.
#[verifier::external_body]
pub(crate) fn object(m: serde_json::Map<String, serde_json::Value>) -> (v: serde_json::Value)
    ensures
        v == object_value(members_of(m)),
        is_written_in_order(v, members_of(m)),
{
    serde_json::Value::Object(m)
}

/// Writes a value as JSON text, by `serde_json::to_vec`. The same value gives the
/// same text. Writing a value does not fail: its keys are strings and the text goes
/// to memory. An error would be handed on as the text it displays.
#[verifier::external_body]
pub(crate) fn to_vec(v: &serde_json::Value) -> (r: Result<Vec<u8>, String>)
    ensures
        r is Ok,
        r->Ok_0@ == json_text(*v),
{
    serde_json::to_vec(v).map_err(|e| e.to_string())
}

/// Writes an object with these members, in this order, as JSON text, by
/// `serde::Serializer::collect_map` on a `serde_json::Serializer`: each name as a
/// string, a colon, and the value as `serde_json::to_vec` writes it, with commas
/// between and braces around. This does not fail either; an error would be handed on
/// as the text it displays.
#[verifier::external_body]
pub(crate) fn write_object(members: Vec<(&str, &serde_json::Value)>) -> (r: Result<
    Vec<u8>,
    String,
>)
    ensures
        r is Ok,
        r->Ok_0@ == object_text(named(members@)),
{
    let mut out: Vec<u8> = Vec::new();
    let mut writer = serde_json::Serializer::new(&mut out);
    match serde::Serializer::collect_map(&mut writer, members) {
        Ok(_) => Ok(out),
        Err(e) => Err(e.to_string()),
    }
}

/// Makes a JSON object of a port map, by `serde_json::to_value`: a member for
/// every port, named by the port in decimal and holding the port it maps to. The
/// members are written in the order of their names, the numbers in decimal. Integer
/// keys and values never fail to convert; an error would be handed on as the text it
/// displays.
#[verifier::external_body]
pub(crate) fn ports_to_value(ports: &HashMap<u16, u16>) -> (r: Result<serde_json::Value, String>)
    ensures
        r is Ok,
        r->Ok_0 == object_value(port_members(ports@)),
        is_written_as_ports(r->Ok_0, ports@),
{
    serde_json::to_value(ports).map_err(|e| e.to_string())
}

/// `order` holds the ports of a map, each once, in the order of their names.
pub open spec fn is_port_order(order: Seq<u16>, ports: Map<u16, u16>) -> bool {
    &&& forall|i: int, j: int|
        0 <= i < j < order.len() ==> crate::order::text_less(
            crate::text::decimal(#[trigger] order[i] as nat),
            crate::text::decimal(#[trigger] order[j] as nat),
        )
    &&& forall|port: u16| #[trigger] ports.contains_key(port) <==> order.contains(port)
}

/// The ports in `order` with the ports they map to, as the members of a JSON object.
pub open spec fn port_pairs_text(order: Seq<u16>, ports: Map<u16, u16>) -> Seq<char>
    decreases order.len(),
{
    if order.len() == 0 {
        Seq::empty()
    } else {
        port_pairs_text(order.drop_last(), ports) + (if order.len() == 1 {
            Seq::empty()
        } else {
            seq![',']
        }) + quoted(crate::text::decimal(order.last() as nat)) + seq![':'] + crate::text::decimal(
            ports[order.last()] as nat,
        )
    }
}

/// A port map as a JSON object, its ports in `order`.
pub open spec fn ports_text(order: Seq<u16>, ports: Map<u16, u16>) -> Seq<char> {
    seq!['{'] + port_pairs_text(order, ports) + seq!['}']
}

/// The value is written as the JSON object of a port map.
pub open spec fn is_written_as_ports(v: serde_json::Value, ports: Map<u16, u16>) -> bool {
    forall|order: Seq<u16>| #[trigger]
        is_port_order(order, ports) ==> is_written_as(v, ports_text(order, ports))
}

/// The port that a member name spells.
pub open spec fn port_of(key: Seq<char>) -> u16 {
    choose|port: u16| crate::text::decimal(port as nat) == key
}

/// The members of the JSON object of a port map.
pub open spec fn port_members(ports: Map<u16, u16>) -> Map<Seq<char>, serde_json::Value> {
    Map::new(
        |key: Seq<char>|
            exists|port: u16| #[trigger]
                ports.contains_key(port) && crate::text::decimal(port as nat) == key,
        |key: Seq<char>| number_value(ports[port_of(key)] as int),
    )
}

/// The object of a port map says what the map says: a port has a member exactly
/// when the map has the port, and the member holds the port it maps to.
pub proof fn port_members_report_every_port(ports: Map<u16, u16>, port: u16)
    ensures
        port_members(ports).contains_key(crate::text::decimal(port as nat)) <==> ports.contains_key(
            port,
        ),
        ports.contains_key(port) ==> port_members(ports)[crate::text::decimal(port as nat)]
            == number_value(ports[port] as int),
{
    let key = crate::text::decimal(port as nat);
    assert(crate::text::decimal(port as nat) == key);
    crate::text::decimal_is_injective(port_of(key) as nat, port as nat);
    if port_members(ports).contains_key(key) {
        let p = choose|p: u16| #[trigger]
            ports.contains_key(p) && crate::text::decimal(p as nat) == key;
        crate::text::decimal_is_injective(p as nat, port as nat);
    }
}

/// A text without quotes, backslashes and control characters is written as it is.
pub proof fn plain_text_is_not_escaped(s: Seq<char>)
    requires
        is_plain(s),
    ensures
        escaped(s) == s,
        string_text(s) == quoted(s),
    decreases s.len(),
{
    if s.len() > 0 {
        let head = s.drop_last();
        assert forall|i: int| 0 <= i < head.len() implies ' ' <= #[trigger] head[i] && head[i]
            != '"' && head[i] != '\\' by {
            assert(head[i] == s[i]);
        }
        plain_text_is_not_escaped(head);
        assert(' ' <= s[s.len() - 1]);
        assert(head + seq![s.last()] =~= s);
    } else {
        assert(s =~= Seq::<char>::empty());
    }
}

/// One more member adds its name and its value to the text.
pub proof fn members_text_grows(
    members: Seq<(Seq<char>, serde_json::Value)>,
    key: Seq<char>,
    v: serde_json::Value,
)
    ensures
        members_text(members.push((key, v))) == members_text(members) + encode_utf8(
            member_head(key, members.len() == 0),
        ) + json_text(v),
{
    assert(members.push((key, v)).drop_last() =~= members);
}

/// The place of a port among ordered ports: those before it come first, the others
/// after it.
pub open spec fn is_place(order: Seq<u16>, port: u16, k: int) -> bool {
    &&& 0 <= k <= order.len()
    &&& forall|i: int|
        0 <= i < k ==> crate::order::text_less(
            crate::text::decimal(#[trigger] order[i] as nat),
            crate::text::decimal(port as nat),
        )
    &&& forall|i: int|
        k <= i < order.len() ==> crate::order::text_less(
            crate::text::decimal(port as nat),
            crate::text::decimal(#[trigger] order[i] as nat),
        )
}

/// A port that is not among ordered ports has a place there.
proof fn a_port_has_a_place(order: Seq<u16>, port: u16) -> (k: int)
    requires
        !order.contains(port),
        forall|i: int, j: int|
            0 <= i < j < order.len() ==> crate::order::text_less(
                crate::text::decimal(#[trigger] order[i] as nat),
                crate::text::decimal(#[trigger] order[j] as nat),
            ),
    ensures
        is_place(order, port, k),
    decreases order.len(),
{
    if order.len() == 0 {
        0
    } else {
        let head = order.drop_last();
        let last = order.last();
        let at = order.len() - 1;
        assert(order[at] == last);
        assert(!head.contains(port)) by {
            if head.contains(port) {
                let i = choose|i: int| 0 <= i < head.len() && head[i] == port;
                assert(order[i] == port);
            }
        }
        assert forall|i: int, j: int| 0 <= i < j < head.len() implies crate::order::text_less(
            crate::text::decimal(#[trigger] head[i] as nat),
            crate::text::decimal(#[trigger] head[j] as nat),
        ) by {
            assert(head[i] == order[i] && head[j] == order[j]);
        }
        let dp = crate::text::decimal(port as nat);
        let dl = crate::text::decimal(last as nat);
        crate::order::text_less_is_a_strict_total_order(dp, dl);
        if dp == dl {
            crate::text::decimal_is_injective(port as nat, last as nat);
        }
        if crate::order::text_less(dl, dp) {
            assert forall|i: int| 0 <= i < order.len() implies crate::order::text_less(
                crate::text::decimal(#[trigger] order[i] as nat),
                dp,
            ) by {
                if i < at {
                    assert(crate::order::text_less(
                        crate::text::decimal(order[i] as nat),
                        crate::text::decimal(order[at] as nat),
                    ));
                    crate::order::text_less_is_transitive(
                        crate::text::decimal(order[i] as nat),
                        dl,
                        dp,
                    );
                }
            }
            order.len() as int
        } else {
            let k = a_port_has_a_place(head, port);
            assert forall|i: int| 0 <= i < k implies crate::order::text_less(
                crate::text::decimal(#[trigger] order[i] as nat),
                dp,
            ) by {
                assert(head[i] == order[i]);
            }
            assert forall|i: int| k <= i < order.len() implies crate::order::text_less(
                dp,
                crate::text::decimal(#[trigger] order[i] as nat),
            ) by {
                if i < at {
                    assert(head[i] == order[i]);
                }
            }
            k
        }
    }
}

/// Every port map is written in some order: its ports can be listed, each once, in
/// the order of their names. So the text of the object of a port map is determined
/// by the map.
pub proof fn every_port_map_has_an_order(ports: Map<u16, u16>) -> (order: Seq<u16>)
    requires
        ports.dom().finite(),
    ensures
        is_port_order(order, ports),
    decreases ports.dom().len(),
{
    if ports.dom().len() == 0 {
        let none = Seq::<u16>::empty();
        assert(ports.dom() =~= Set::empty());
        assert forall|port: u16| #[trigger] ports.contains_key(port) <==> none.contains(port) by {
            assert(!ports.dom().contains(port));
        }
        none
    } else {
        let port = ports.dom().choose();
        let rest = ports.remove(port);
        let order = every_port_map_has_an_order(rest);
        assert(!rest.contains_key(port));
        let k = a_port_has_a_place(order, port);
        let whole = order.insert(k, port);
        assert forall|i: int, j: int| 0 <= i < j < whole.len() implies crate::order::text_less(
            crate::text::decimal(#[trigger] whole[i] as nat),
            crate::text::decimal(#[trigger] whole[j] as nat),
        ) by {
            if i < k {
                assert(whole[i] == order[i]);
            } else if i > k {
                assert(whole[i] == order[i - 1]);
            }
            if j < k {
                assert(whole[j] == order[j]);
            } else if j > k {
                assert(whole[j] == order[j - 1]);
            }
        }
        assert forall|p: u16| #[trigger] ports.contains_key(p) <==> whole.contains(p) by {
            if ports.contains_key(p) {
                if p == port {
                    assert(whole[k] == p);
                } else {
                    assert(rest.contains_key(p));
                    let i = choose|i: int| 0 <= i < order.len() && order[i] == p;
                    if i < k {
                        assert(whole[i] == p);
                    } else {
                        assert(whole[i + 1] == p);
                    }
                }
            }
            if whole.contains(p) {
                let i = choose|i: int| 0 <= i < whole.len() && whole[i] == p;
                if i < k {
                    assert(order[i] == p);
                    assert(rest.contains_key(p));
                } else if i > k {
                    assert(order[i - 1] == p);
                    assert(rest.contains_key(p));
                }
            }
        }
        whole
    }
}

/// Escapes go character by character: a quote and a backslash get a backslash, and
/// a character that is neither and no control character stays.
pub proof fn escapes_go_character_by_character(a: Seq<char>, c: char, b: Seq<char>)
    ensures
        escaped(a + b) == escaped(a) + escaped(b),
        c == '"' || c == '\\' ==> escaped(seq![c]) == seq!['\\', c],
        c == '\n' ==> escaped(seq![c]) == seq!['\\', 'n'],
        c == '\t' ==> escaped(seq![c]) == seq!['\\', 't'],
        c == '\r' ==> escaped(seq![c]) == seq!['\\', 'r'],
        c as int >= 32 && c != '"' && c != '\\' ==> escaped(seq![c]) == seq![c],
    decreases b.len(),
{
    assert(seq![c].drop_last() =~= Seq::<char>::empty());
    assert(escaped(Seq::<char>::empty()) =~= Seq::<char>::empty());
    assert(escaped(seq![c]) =~= escaped_char(c));
    if b.len() == 0 {
        assert(a + b =~= a);
        assert(escaped(a) + escaped(b) =~= escaped(a));
    } else {
        escapes_go_character_by_character(a, c, b.drop_last());
        assert((a + b).drop_last() =~= a + b.drop_last());
        assert((a + b).last() == b.last());
        assert(escaped(a + b) =~= escaped(a) + escaped(b));
    }
}

} // verus!
