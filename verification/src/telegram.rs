use vstd::prelude::*;
use crate::identity::UserIdent;
use crate::strutil::{spec_starts_with, str_eq, str_starts_with, str_to_chars};

verus! {

/// The bridge servers whose relayed accounts use the `telegram_` localpart
/// prefix.
pub open spec fn is_bridge_server(s: Seq<char>) -> bool {
    ||| s == "nichi.co"@
    ||| s == "t2bot.io"@
    ||| s == "elv.sh"@
    ||| s == "moe.cat"@
    ||| s == "neo.angry.im"@
}

/// The bridge servers whose relayed accounts use the `tg_` localpart prefix.
pub open spec fn is_bridge_server_2(s: Seq<char>) -> bool {
    s == "tether.kimiblock.top"@
}

/// A bridged identity: the server is on one of the two bridge lists and the
/// localpart carries that list's prefix.
pub open spec fn spec_is_telegram(localpart: Seq<char>, server_name: Seq<char>) -> bool {
    ||| (is_bridge_server(server_name) && spec_starts_with(localpart, "telegram_"@))
    ||| (is_bridge_server_2(server_name) && spec_starts_with(localpart, "tg_"@))
}

fn bridge_server(s: &str) -> (r: bool)
    ensures
        r == is_bridge_server(s@),
{
    str_eq(s, "nichi.co") || str_eq(s, "t2bot.io") || str_eq(s, "elv.sh") || str_eq(s, "moe.cat")
        || str_eq(s, "neo.angry.im")
}

fn bridge_server_2(s: &str) -> (r: bool)
    ensures
        r == is_bridge_server_2(s@),
{
    str_eq(s, "tether.kimiblock.top")
}

/// Does this identifier belong to a bridged (relayed) account?
pub fn is_telegram(uid: &UserIdent) -> (r: bool)
    ensures
        r == spec_is_telegram(uid.localpart@, uid.server_name@),
{
    (bridge_server(uid.server_name.as_str()) && str_starts_with(
        uid.localpart.as_str(),
        "telegram_",
    )) || (bridge_server_2(uid.server_name.as_str()) && str_starts_with(
        uid.localpart.as_str(),
        "tg_",
    ))
}

/// `j` is the position of the last colon of `s`.
pub open spec fn is_last_colon(s: Seq<char>, j: int) -> bool {
    &&& 0 <= j < s.len()
    &&& s[j] == ':'
    &&& forall|k: int| j < k < s.len() ==> s[k] != ':'
}

/// Classification of one split of `s` at position `j`: user part (sigil
/// included) before, server part after, prefixes with the sigil folded in.
pub open spec fn telegram_split_hit(s: Seq<char>, j: int) -> bool {
    let user = s.subrange(0, j);
    let server = s.subrange(j + 1, s.len() as int);
    ||| (is_bridge_server(server) && spec_starts_with(user, "@telegram_"@))
    ||| (is_bridge_server_2(server) && spec_starts_with(user, "@tg_"@))
}

/// The raw-string form of the classifier: split at the last colon into a
/// user part and a server part, then classify as `spec_is_telegram` does.
pub open spec fn spec_is_telegram_str(s: Seq<char>) -> bool {
    exists|j: int| #[trigger] is_last_colon(s, j) && telegram_split_hit(s, j)
}

proof fn lemma_last_colon_unique(s: Seq<char>, j1: int, j2: int)
    requires
        is_last_colon(s, j1),
        is_last_colon(s, j2),
    ensures
        j1 == j2,
{
    if j1 < j2 {
        assert(s[j2] != ':');
    } else if j2 < j1 {
        assert(s[j1] != ':');
    }
}

/// The classifier on a raw identifier string, without going through the
/// protocol grammar first.
pub fn is_telegram_str(uid: &str) -> (r: bool)
    ensures
        r == spec_is_telegram_str(uid@),
{
    let v = str_to_chars(uid);
    let n = v.len();
    let mut i: usize = n;
    // scan backwards for the last colon
    while i > 0
        invariant
            n == uid@.len(),
            v@ == uid@,
            i <= n,
            forall|k: int| i <= k < n ==> uid@[k] != ':',
        decreases i,
    {
        if v[i - 1] == ':' {
            let j = i - 1;
            assert(is_last_colon(uid@, j as int));
            let user = chars_slice_string(&v, 0, j);
            let server = chars_slice_string(&v, j + 1, n);
            let hit = (bridge_server(server.as_str()) && str_starts_with(
                user.as_str(),
                "@telegram_",
            )) || (bridge_server_2(server.as_str()) && str_starts_with(user.as_str(), "@tg_"));
            proof {
                if hit {
                    assert(telegram_split_hit(uid@, j as int));
                    assert(spec_is_telegram_str(uid@));
                } else {
                    assert forall|j2: int|
                        #[trigger] is_last_colon(uid@, j2) implies !telegram_split_hit(
                        uid@,
                        j2,
                    ) by {
                        lemma_last_colon_unique(uid@, j as int, j2);
                    }
                }
            }
            return hit;
        }
        i = i - 1;
    }
    false
}

/// The characters `from ..= to - 1` of `v`, as a string.
fn chars_slice_string(v: &Vec<char>, from: usize, to: usize) -> (r: String)
    requires
        from <= to <= v@.len(),
    ensures
        r@ == v@.subrange(from as int, to as int),
{
    let mut out: Vec<char> = Vec::new();
    let mut i: usize = from;
    while i < to
        invariant
            from <= i <= to <= v@.len(),
            out@ == v@.subrange(from as int, i as int),
        decreases to - i,
    {
        out.push(v[i]);
        i = i + 1;
        proof {
            assert(out@ =~= v@.subrange(from as int, i as int));
        }
    }
    crate::strutil::chars_to_string(&out)
}

} // verus!
