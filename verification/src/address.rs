//! Where a sandbox's control socket lives.
//!
//! Abstract socket names live in the kernel and can be bound once, so the name
//! built here is the mutex that keeps two live sandboxes of one user apart.

use vstd::prelude::*;
use vstd::string::*;
use vstd::utf8::*;

use crate::text::push_decimal;

verus! {

/// The name of a control socket, without the leading NUL of abstract names.
pub open spec fn socket_text(uid: u32, name: Seq<char>) -> Seq<char> {
    "sandlock/"@ + crate::text::decimal(uid as nat) + "/"@ + name
}

/// What the kernel's socket table shows ahead of the name of a control socket
/// of `uid`: the leading NUL is printed as `@`.
pub open spec fn path_prefix(uid: u32) -> Seq<char> {
    "@"@ + socket_text(uid, Seq::empty())
}

/// Bytes after the leading NUL of the abstract name.
pub fn socket_name(uid: u32, name: &str) -> (bytes: Vec<u8>)
    ensures
        bytes@ == encode_utf8(socket_text(uid, name@)),
{
    let mut out: String = String::new();
    out.append("sandlock/");
    push_decimal(&mut out, uid as u64);
    out.append("/");
    out.append(name);
    assert(out@ =~= socket_text(uid, name@));
    out.as_str().as_bytes_vec()
}

/// The text of a socket name can be read in one way only: the uid ends at the
/// second slash, and what follows is the sandbox name.
pub proof fn socket_text_is_injective(uid1: u32, name1: Seq<char>, uid2: u32, name2: Seq<char>)
    requires
        socket_text(uid1, name1) == socket_text(uid2, name2),
    ensures
        uid1 == uid2,
        name1 == name2,
{
    reveal_strlit("sandlock/");
    reveal_strlit("/");
    let d1 = crate::text::decimal(uid1 as nat);
    let d2 = crate::text::decimal(uid2 as nat);
    let n1 = d1.len() as int;
    let n2 = d2.len() as int;
    let t1 = socket_text(uid1, name1);
    let t2 = socket_text(uid2, name2);
    crate::text::decimal_is_digits(uid1 as nat);
    crate::text::decimal_is_digits(uid2 as nat);
    assert(t1[9 + n1] == '/');
    assert(t2[9 + n2] == '/');
    if n1 < n2 {
        assert(t2[9 + n1] == d2[n1]);
        assert(false);
    }
    if n2 < n1 {
        assert(t1[9 + n2] == d1[n2]);
        assert(false);
    }
    assert(d1 =~= t1.subrange(9, 9 + n1));
    assert(d2 =~= t2.subrange(9, 9 + n2));
    crate::text::decimal_is_injective(uid1 as nat, uid2 as nat);
    assert(name1 =~= t1.skip(10 + n1));
    assert(name2 =~= t2.skip(10 + n2));
}

/// One socket name, one sandbox: two sandboxes share a socket name only when
/// they share both the uid and the sandbox name.
pub proof fn socket_name_identifies_the_sandbox(
    uid1: u32,
    name1: Seq<char>,
    uid2: u32,
    name2: Seq<char>,
)
    ensures
        encode_utf8(socket_text(uid1, name1)) == encode_utf8(socket_text(uid2, name2)) <==> uid1
            == uid2 && name1 == name2,
{
    if encode_utf8(socket_text(uid1, name1)) == encode_utf8(socket_text(uid2, name2)) {
        crate::text::encode_utf8_is_injective(socket_text(uid1, name1), socket_text(uid2, name2));
        socket_text_is_injective(uid1, name1, uid2, name2);
    }
}

/// The kernel gives socket addresses 108 bytes. The leading NUL and the socket
/// name of a sandbox whose own name takes at most 64 bytes fit, for every uid.
pub proof fn longest_name_fits_the_address(uid: u32, name: Seq<char>)
    requires
        encode_utf8(name).len() <= 64,
    ensures
        encode_utf8(socket_text(uid, name)).len() < 108,
{
    reveal_strlit("sandlock/");
    reveal_strlit("/");
    let head = "sandlock/"@ + crate::text::decimal(uid as nat) + "/"@;
    crate::text::decimal_is_digits(uid as nat);
    crate::text::decimal_of_u32_is_short(uid);
    assert(is_ascii_chars(head));
    is_ascii_chars_encode_utf8(head);
    crate::text::encode_utf8_concat(head, name);
}

/// A socket name spells whose sandbox it is: it begins with `sandlock/`, between
/// its first and its second slash stand decimal digits that come to the uid, and
/// behind the second slash stands the sandbox name. `n` is how many digits there are.
pub proof fn a_socket_name_spells_the_uid(uid: u32, name: Seq<char>) -> (n: int)
    ensures
        n > 0,
        socket_text(uid, name).len() == 10 + n + name.len(),
        socket_text(uid, name).take(9) == "sandlock/"@,
        socket_text(uid, name)[8] == '/',
        socket_text(uid, name)[9 + n] == '/',
        forall|i: int|
            0 <= i < 9 + n && #[trigger] socket_text(uid, name)[i] == '/' ==> i == 8,
        crate::text::is_numeral(socket_text(uid, name).subrange(9, 9 + n), uid as int),
        socket_text(uid, name).skip(10 + n) == name,
{
    let t = socket_text(uid, name);
    let d = crate::text::decimal(uid as nat);
    let n = d.len() as int;
    reveal_strlit("sandlock/");
    reveal_strlit("/");
    crate::text::decimal_reads_back(uid as nat);
    assert(t.take(9) =~= "sandlock/"@);
    assert(t.subrange(9, 9 + n) =~= d);
    assert(t.skip(10 + n) =~= name);
    assert forall|i: int| 0 <= i < 9 + n && #[trigger] t[i] == '/' implies i == 8 by {
        if i < 9 {
            assert(t[i] == "sandlock/"@[i]);
        } else {
            assert(t[i] == d[i - 9]);
        }
    }
    n
}

/// What the socket table shows ahead of a sandbox name is an `@`, `sandlock/`, the
/// digits of the uid and a slash; with the sandbox name behind it, it is the `@` and
/// the socket name.
pub proof fn a_path_prefix_spells_the_uid(uid: u32, digits: Seq<char>, name: Seq<char>)
    requires
        crate::text::is_numeral(digits, uid as int),
    ensures
        path_prefix(uid) == "@sandlock/"@ + digits + "/"@,
        path_prefix(uid) + name == seq!['@'] + socket_text(uid, name),
{
    reveal_strlit("@");
    reveal_strlit("sandlock/");
    reveal_strlit("@sandlock/");
    reveal_strlit("/");
    crate::text::a_number_has_one_numeral(digits, uid as nat);
    assert(path_prefix(uid) =~= "@sandlock/"@ + digits + "/"@);
    assert(path_prefix(uid) + name =~= seq!['@'] + socket_text(uid, name));
}

} // verus!
