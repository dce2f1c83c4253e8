use vstd::prelude::*;
use vstd::string::StringExecFns;
use crate::error::Error;
use crate::strutil::{chars_to_string, str_to_chars};

verus! {

/// The credential bundle: the one persisted identity record.
///
/// All four fields are required.  A new login always writes the whole
/// record; it is never mutated in place.  No refresh token is stored: its
/// absence is an invariant of the format.
pub struct LoginInfo {
    pub homeserver: String,
    pub user_id: String,
    pub device_id: String,
    pub access_token: String,
}

/// The escape expansion of one character inside a quoted value: the quote
/// and the backslash are escaped with a backslash, everything else stands
/// for itself.
pub open spec fn esc_char(c: char) -> Seq<char> {
    if c == '"' {
        seq!['\\', '"']
    } else if c == '\\' {
        seq!['\\', '\\']
    } else {
        seq![c]
    }
}

/// The escaped form of a value, character by character.
pub open spec fn esc(s: Seq<char>) -> Seq<char>
    decreases s.len(),
{
    if s.len() == 0 {
        Seq::empty()
    } else {
        esc_char(s[0]) + esc(s.subrange(1, s.len() as int))
    }
}

/// The four members of a serialized bundle, from the first key on (the
/// text after the opening brace, indentation and key quote).
pub open spec fn spec_members(h: Seq<char>, u: Seq<char>, d: Seq<char>, a: Seq<char>) -> Seq<
    char,
> {
    "homeserver\": \""@ + esc(h) + "\",\n  \"user_id\": \""@ + esc(u)
        + "\",\n  \"device_id\": \""@ + esc(d) + "\",\n  \"access_token\": \""@ + esc(a)
        + "\"\n}\n"@
}

/// The serialized text of a bundle: one object with the four fields in
/// fixed order, two-space indentation, and exactly one trailing newline.
pub open spec fn spec_serialize(
    h: Seq<char>,
    u: Seq<char>,
    d: Seq<char>,
    a: Seq<char>,
) -> Seq<char> {
    "{\n  \""@ + spec_members(h, u, d, a)
}

/// A serialized bundle with one extra member `k: x` appended after the
/// known four, before the closing brace.
pub open spec fn spec_with_trailing_field(
    h: Seq<char>,
    u: Seq<char>,
    d: Seq<char>,
    a: Seq<char>,
    k: Seq<char>,
    x: Seq<char>,
) -> Seq<char> {
    "{\n  \"homeserver\": \""@ + esc(h) + "\",\n  \"user_id\": \""@ + esc(u)
        + "\",\n  \"device_id\": \""@ + esc(d) + "\",\n  \"access_token\": \""@ + esc(a)
        + "\",\n  \""@ + esc(k) + "\": \""@ + esc(x) + "\"\n}\n"@
}

/// A serialized bundle with one extra member `k: x` put before the known
/// four — the shape a foreign writer would produce by adding a field.
pub open spec fn spec_with_extra_field(
    h: Seq<char>,
    u: Seq<char>,
    d: Seq<char>,
    a: Seq<char>,
    k: Seq<char>,
    x: Seq<char>,
) -> Seq<char> {
    "{\n  \""@ + esc(k) + "\": \""@ + esc(x) + "\",\n  \""@ + spec_members(h, u, d, a)
}

/// Scan a quoted value from the start of `t` (the opening quote already
/// consumed) up to and including the unescaped closing quote.  Yields the
/// unescaped value and the number of characters consumed.  Rejects a
/// backslash before anything but a quote or a backslash, and an unclosed
/// value.
pub open spec fn spec_scan(t: Seq<char>) -> Option<(Seq<char>, int)>
    decreases t.len(),
{
    if t.len() == 0 {
        None
    } else if t[0] == '"' {
        Some((Seq::empty(), 1))
    } else if t[0] == '\\' {
        if t.len() >= 2 && (t[1] == '"' || t[1] == '\\') {
            match spec_scan(t.subrange(2, t.len() as int)) {
                Some(p) => Some((seq![t[1]] + p.0, 2 + p.1)),
                None => None,
            }
        } else {
            None
        }
    } else {
        match spec_scan(t.subrange(1, t.len() as int)) {
            Some(p) => Some((seq![t[0]] + p.0, 1 + p.1)),
            None => None,
        }
    }
}

/// `t` with a literal prefix removed, or nothing if `t` does not start
/// with that literal.
pub open spec fn spec_after_lit(t: Seq<char>, lit: Seq<char>) -> Option<Seq<char>> {
    if lit.len() <= t.len() && t.subrange(0, lit.len() as int) == lit {
        Some(t.subrange(lit.len() as int, t.len() as int))
    } else {
        None
    }
}

/// One member, from the position right after its opening key quote: the
/// key (which must be exactly `key`, or the member is rejected — this is
/// what makes the schema strict), then `: "`, then the quoted value.
/// Yields the unescaped value and the rest of the text after the value's
/// closing quote.
pub open spec fn spec_member(t: Seq<char>, key: Seq<char>) -> Option<(Seq<char>, Seq<char>)> {
    match spec_scan(t) {
        Some(k) => if k.0 == key {
            match spec_after_lit(t.subrange(k.1, t.len() as int), ": \""@) {
                Some(t2) => match spec_scan(t2) {
                    Some(p) => Some((p.0, t2.subrange(p.1, t2.len() as int))),
                    None => None,
                },
                None => None,
            }
        } else {
            None
        },
        None => None,
    }
}

/// The strict parse of a serialized bundle: the four known fields, in
/// order, nothing before, between or after them, and the whole text
/// consumed.  Any unknown or repeated field name fails the key check of
/// `spec_member`; any trailing text fails the final comparison.
pub open spec fn spec_parse(t: Seq<char>) -> Option<(Seq<char>, Seq<char>, Seq<char>, Seq<char>)> {
    match spec_after_lit(t, "{\n  \""@) {
        None => None,
        Some(t1) => match spec_member(t1, "homeserver"@) {
            None => None,
            Some(m1) => match spec_after_lit(m1.1, ",\n  \""@) {
                None => None,
                Some(t2) => match spec_member(t2, "user_id"@) {
                    None => None,
                    Some(m2) => match spec_after_lit(m2.1, ",\n  \""@) {
                        None => None,
                        Some(t3) => match spec_member(t3, "device_id"@) {
                            None => None,
                            Some(m3) => match spec_after_lit(m3.1, ",\n  \""@) {
                                None => None,
                                Some(t4) => match spec_member(t4, "access_token"@) {
                                    None => None,
                                    Some(m4) => if m4.1 == "\n}\n"@ {
                                        Some((m1.0, m2.0, m3.0, m4.0))
                                    } else {
                                        None
                                    },
                                },
                            },
                        },
                    },
                },
            },
        },
    }
}

/// Append the characters of `lit` to `out`.
fn push_lit(out: &mut Vec<char>, lit: &str)
    ensures
        final (out)@ == old(out)@ + lit@,
{
    let v = str_to_chars(lit);
    let mut i: usize = 0;
    while i < v.len()
        invariant
            i <= v@.len(),
            v@ == lit@,
            out@ == old(out)@ + lit@.subrange(0, i as int),
        decreases v@.len() - i,
    {
        out.push(v[i]);
        i = i + 1;
        proof {
            assert(out@ =~= old(out)@ + lit@.subrange(0, i as int));
        }
    }
    proof {
        assert(out@ =~= old(out)@ + lit@);
    }
}

proof fn lemma_esc_snoc(s: Seq<char>, c: char)
    ensures
        esc(s.push(c)) == esc(s) + esc_char(c),
    decreases s.len(),
{
    if s.len() == 0 {
        assert(s.push(c)[0] == c);
        assert(s.push(c).subrange(1, s.push(c).len() as int) =~= Seq::<char>::empty());
        assert(esc(Seq::<char>::empty()) == Seq::<char>::empty());
        assert(esc(s.push(c)) =~= esc(s) + esc_char(c));
    } else {
        assert(s.push(c)[0] == s[0]);
        assert(s.push(c).subrange(1, s.push(c).len() as int) =~= s.subrange(
            1,
            s.len() as int,
        ).push(c));
        lemma_esc_snoc(s.subrange(1, s.len() as int), c);
        assert(esc(s.push(c)) == esc_char(s[0]) + esc(s.subrange(1, s.len() as int).push(c)));
        assert(esc(s.push(c)) =~= esc(s) + esc_char(c));
    }
}

/// Append the escaped form of `field` to `out`.
fn push_escaped(out: &mut Vec<char>, field: &str)
    ensures
        final (out)@ == old(out)@ + esc(field@),
{
    let v = str_to_chars(field);
    let mut i: usize = 0;
    proof {
        assert(out@ =~= old(out)@ + esc(field@.subrange(0, 0)));
    }
    while i < v.len()
        invariant
            i <= v@.len(),
            v@ == field@,
            out@ == old(out)@ + esc(field@.subrange(0, i as int)),
        decreases v@.len() - i,
    {
        let c = v[i];
        if c == '"' {
            out.push('\\');
            out.push('"');
        } else if c == '\\' {
            out.push('\\');
            out.push('\\');
        } else {
            out.push(c);
        }
        proof {
            lemma_esc_snoc(field@.subrange(0, i as int), c);
            assert(field@.subrange(0, i as int).push(c) =~= field@.subrange(0, i as int + 1));
            assert(out@ =~= old(out)@ + esc(field@.subrange(0, i as int + 1)));
        }
        i = i + 1;
    }
    proof {
        assert(field@.subrange(0, field@.len() as int) =~= field@);
    }
}

impl LoginInfo {
    /// The serialized text of this bundle, ending in exactly one newline.
    pub fn serialize(&self) -> (r: String)
        ensures
            r@ == spec_serialize(
                self.homeserver@,
                self.user_id@,
                self.device_id@,
                self.access_token@,
            ),
    {
        let mut out: Vec<char> = Vec::new();
        push_lit(&mut out, "{\n  \"");
        push_lit(&mut out, "homeserver\": \"");
        push_escaped(&mut out, self.homeserver.as_str());
        push_lit(&mut out, "\",\n  \"user_id\": \"");
        push_escaped(&mut out, self.user_id.as_str());
        push_lit(&mut out, "\",\n  \"device_id\": \"");
        push_escaped(&mut out, self.device_id.as_str());
        push_lit(&mut out, "\",\n  \"access_token\": \"");
        push_escaped(&mut out, self.access_token.as_str());
        push_lit(&mut out, "\"\n}\n");
        proof {
            assert(out@ =~= spec_serialize(
                self.homeserver@,
                self.user_id@,
                self.device_id@,
                self.access_token@,
            ));
        }
        chars_to_string(&out)
    }
}

/// Scan one quoted value of `v` from `i` (right after the opening quote),
/// exactly as `spec_scan` does on the text from `i` on.
fn scan_string(v: &Vec<char>, i: usize) -> (r: Option<(Vec<char>, usize)>)
    requires
        i <= v@.len(),
    ensures
        (match r {
            Some(p) => spec_scan(v@.subrange(i as int, v@.len() as int)) == Some(
                (p.0@, p.1 - i as int),
            ) && i < p.1 <= v@.len(),
            None => spec_scan(v@.subrange(i as int, v@.len() as int)) is None,
        }),
{
    let mut acc: Vec<char> = Vec::new();
    let mut k: usize = i;
    proof {
        if let Some(p) = spec_scan(v@.subrange(i as int, v@.len() as int)) {
            assert(Seq::<char>::empty() + p.0 =~= p.0);
        }
    }
    loop
        invariant
            i <= k <= v@.len(),
            (spec_scan(v@.subrange(i as int, v@.len() as int)) == (match spec_scan(
                v@.subrange(k as int, v@.len() as int),
            ) {
                Some(p) => Some::<(Seq<char>, int)>((acc@ + p.0, (k - i) + p.1)),
                None => None::<(Seq<char>, int)>,
            })),
        decreases v@.len() - k,
    {
        let ghost tk = v@.subrange(k as int, v@.len() as int);
        if k == v.len() {
            proof {
                assert(tk.len() == 0);
            }
            return None;
        }
        let c = v[k];
        proof {
            assert(tk[0] == c);
        }
        if c == '"' {
            proof {
                assert(spec_scan(tk) == Some((Seq::<char>::empty(), 1int)));
                assert(acc@ + Seq::<char>::empty() =~= acc@);
            }
            return Some((acc, k + 1));
        }
        if c == '\\' {
            if k + 1 == v.len() {
                proof {
                    assert(tk.len() == 1);
                    assert(spec_scan(tk) is None);
                }
                return None;
            }
            let c2 = v[k + 1];
            proof {
                assert(tk[1] == c2);
            }
            if c2 == '"' || c2 == '\\' {
                let ghost acc0 = acc@;
                proof {
                    assert(tk.subrange(2, tk.len() as int) =~= v@.subrange(
                        k as int + 2,
                        v@.len() as int,
                    ));
                    if let Some(p) = spec_scan(v@.subrange(k as int + 2, v@.len() as int)) {
                        assert(spec_scan(tk) == Some::<(Seq<char>, int)>(
                            (seq![c2] + p.0, 2 + p.1),
                        ));
                        assert(acc0 + (seq![c2] + p.0) =~= acc0.push(c2) + p.0);
                    } else {
                        assert(spec_scan(tk) is None);
                    }
                }
                acc.push(c2);
                k = k + 2;
            } else {
                proof {
                    assert(spec_scan(tk) is None);
                }
                return None;
            }
        } else {
            let ghost acc0 = acc@;
            proof {
                assert(tk.subrange(1, tk.len() as int) =~= v@.subrange(
                    k as int + 1,
                    v@.len() as int,
                ));
                if let Some(p) = spec_scan(v@.subrange(k as int + 1, v@.len() as int)) {
                    assert(spec_scan(tk) == Some::<(Seq<char>, int)>((seq![c] + p.0, 1 + p.1)));
                    assert(acc0 + (seq![c] + p.0) =~= acc0.push(c) + p.0);
                } else {
                    assert(spec_scan(tk) is None);
                }
            }
            acc.push(c);
            k = k + 1;
        }
    }
}

/// Match the literal `lit` at position `i` of `v`, exactly as
/// `spec_after_lit` does on the text from `i` on.
fn expect_lit(v: &Vec<char>, i: usize, lit: &str) -> (r: Option<usize>)
    requires
        i <= v@.len(),
    ensures
        (match r {
            Some(j) => spec_after_lit(v@.subrange(i as int, v@.len() as int), lit@) == Some(
                v@.subrange(j as int, v@.len() as int),
            ) && j == i + lit@.len() && i <= j <= v@.len(),
            None => spec_after_lit(v@.subrange(i as int, v@.len() as int), lit@) is None,
        }),
{
    let ghost t = v@.subrange(i as int, v@.len() as int);
    let vn: usize = v.len();
    let lc = str_to_chars(lit);
    let n = lc.len();
    if n > vn - i {
        proof {
            assert(t.len() == v@.len() - i);
            assert(lit@.len() > t.len());
        }
        return None;
    }
    let mut j: usize = 0;
    while j < n
        invariant
            j <= n,
            n == lit@.len(),
            lc@ == lit@,
            vn == v@.len(),
            i + n <= vn,
            t == v@.subrange(i as int, v@.len() as int),
            forall|m: int| 0 <= m < j ==> t[m] == lit@[m],
        decreases n - j,
    {
        if v[i + j] != lc[j] {
            proof {
                assert(t[j as int] != lit@[j as int]);
                assert(t.subrange(0, n as int)[j as int] != lit@[j as int]);
            }
            return None;
        }
        j = j + 1;
    }
    proof {
        assert(t.subrange(0, n as int) =~= lit@);
        assert(t.subrange(n as int, t.len() as int) =~= v@.subrange(
            i as int + n as int,
            v@.len() as int,
        ));
    }
    Some(i + n)
}

/// Parse one member at position `i` of `v` (right after the key's opening
/// quote), exactly as `spec_member` does: the key must be `key`, then
/// `: "`, then the quoted value.  Yields the unescaped value and the
/// position after the value's closing quote.
fn parse_member(v: &Vec<char>, i: usize, key: &str) -> (r: Option<(String, usize)>)
    requires
        i <= v@.len(),
    ensures
        (match r {
            Some(p) => spec_member(v@.subrange(i as int, v@.len() as int), key@) == Some(
                (p.0@, v@.subrange(p.1 as int, v@.len() as int)),
            ) && i <= p.1 <= v@.len(),
            None => spec_member(v@.subrange(i as int, v@.len() as int), key@) is None,
        }),
{
    let ghost t = v@.subrange(i as int, v@.len() as int);
    match scan_string(v, i) {
        None => None,
        Some((kv, j)) => {
            let ks = chars_to_string(&kv);
            let ghost consumed = j - i as int;
            proof {
                assert(t.subrange(consumed, t.len() as int) =~= v@.subrange(
                    j as int,
                    v@.len() as int,
                ));
            }
            if !crate::strutil::str_eq(ks.as_str(), key) {
                return None;
            }
            match expect_lit(v, j, ": \"") {
                None => None,
                Some(j2) => {
                    match scan_string(v, j2) {
                        None => None,
                        Some((val, j3)) => {
                            proof {
                                assert(v@.subrange(j2 as int, v@.len() as int).subrange(
                                    j3 - j2 as int,
                                    v@.subrange(j2 as int, v@.len() as int).len() as int,
                                ) =~= v@.subrange(j3 as int, v@.len() as int));
                            }
                            Some((chars_to_string(&val), j3))
                        },
                    }
                },
            }
        },
    }
}

fn persistence_error() -> (e: Error)
    ensures
        e is PersistenceError,
{
    Error::PersistenceError(String::from_str("credential bundle failed strict deserialization"))
}

impl LoginInfo {
    /// The strict parse of a serialized bundle.
    ///
    /// Succeeds exactly on the texts `spec_parse` accepts: the four known
    /// fields in canonical form and nothing else.  A corrupt or foreign
    /// file — an unknown field, missing field, reordered field, or trailing
    /// text — is a `PersistenceError`, never silently accepted.
    pub fn deserialize(s: &str) -> (r: Result<LoginInfo, Error>)
        ensures
            r is Ok <==> spec_parse(s@) is Some,
            (r matches Ok(b) ==> spec_parse(s@) == Some(
                (b.homeserver@, b.user_id@, b.device_id@, b.access_token@),
            )),
            (r matches Ok(b) ==> s@ == spec_serialize(
                b.homeserver@,
                b.user_id@,
                b.device_id@,
                b.access_token@,
            )),
            (r matches Err(e) ==> e is PersistenceError),
    {
        let v = str_to_chars(s);
        proof {
            assert(v@.subrange(0, v@.len() as int) =~= s@);
        }
        let j0 = match expect_lit(&v, 0, "{\n  \"") {
            Some(j) => j,
            None => {
                return Err(persistence_error());
            },
        };
        let (h, j1) = match parse_member(&v, j0, "homeserver") {
            Some(p) => p,
            None => {
                return Err(persistence_error());
            },
        };
        let j2 = match expect_lit(&v, j1, ",\n  \"") {
            Some(j) => j,
            None => {
                return Err(persistence_error());
            },
        };
        let (u, j3) = match parse_member(&v, j2, "user_id") {
            Some(p) => p,
            None => {
                return Err(persistence_error());
            },
        };
        let j4 = match expect_lit(&v, j3, ",\n  \"") {
            Some(j) => j,
            None => {
                return Err(persistence_error());
            },
        };
        let (d, j5) = match parse_member(&v, j4, "device_id") {
            Some(p) => p,
            None => {
                return Err(persistence_error());
            },
        };
        let j6 = match expect_lit(&v, j5, ",\n  \"") {
            Some(j) => j,
            None => {
                return Err(persistence_error());
            },
        };
        let (a, j7) = match parse_member(&v, j6, "access_token") {
            Some(p) => p,
            None => {
                return Err(persistence_error());
            },
        };
        let ghost rest = v@.subrange(j7 as int, v@.len() as int);
        let j8 = match expect_lit(&v, j7, "\n}\n") {
            Some(j) => j,
            None => {
                proof {
                    assert(("\n}\n"@).subrange(0, "\n}\n"@.len() as int) =~= "\n}\n"@);
                    assert(rest != "\n}\n"@);
                }
                return Err(persistence_error());
            },
        };
        if j8 != v.len() {
            proof {
                assert(rest.len() > "\n}\n"@.len());
                assert(rest != "\n}\n"@);
            }
            return Err(persistence_error());
        }
        proof {
            assert(rest =~= "\n}\n"@);
            lemma_parse_canonical(s@);
        }
        Ok(LoginInfo { homeserver: h, user_id: u, device_id: d, access_token: a })
    }
}

proof fn lemma_esc_plain(s: Seq<char>)
    requires
        forall|i: int| 0 <= i < s.len() ==> s[i] != '"' && s[i] != '\\',
    ensures
        esc(s) == s,
    decreases s.len(),
{
    if s.len() == 0 {
        assert(esc(s) =~= s);
    } else {
        lemma_esc_plain(s.subrange(1, s.len() as int));
        assert(esc(s) =~= s);
    }
}

proof fn lemma_scan_esc(v: Seq<char>, rest: Seq<char>)
    ensures
        spec_scan(esc(v) + seq!['"'] + rest) == Some((v, esc(v).len() as int + 1)),
    decreases v.len(),
{
    let t = esc(v) + seq!['"'] + rest;
    if v.len() == 0 {
        assert(esc(v) =~= Seq::<char>::empty());
        assert(t[0] == '"');
        assert(spec_scan(t) == Some((Seq::<char>::empty(), 1int)));
        assert(v =~= Seq::<char>::empty());
    } else {
        let c = v[0];
        let vp = v.subrange(1, v.len() as int);
        lemma_scan_esc(vp, rest);
        let t2 = esc(vp) + seq!['"'] + rest;
        if c == '"' || c == '\\' {
            assert(esc(v) == esc_char(c) + esc(vp));
            assert(esc_char(c).len() == 2);
            assert(t[0] == '\\');
            assert(t[1] == c);
            assert(t.len() >= 2);
            assert(t.subrange(2, t.len() as int) =~= t2);
            assert(seq![c] + vp =~= v);
            assert(esc(v).len() == 2 + esc(vp).len());
            assert(spec_scan(t) == Some((v, esc(v).len() as int + 1)));
        } else {
            assert(esc(v) == esc_char(c) + esc(vp));
            assert(esc_char(c) == seq![c]);
            assert(t[0] == c);
            assert(t.subrange(1, t.len() as int) =~= t2);
            assert(seq![c] + vp =~= v);
            assert(esc(v).len() == 1 + esc(vp).len());
            assert(spec_scan(t) == Some((v, esc(v).len() as int + 1)));
        }
    }
}

proof fn lemma_after_lit_concat(lit: Seq<char>, rest: Seq<char>)
    ensures
        spec_after_lit(lit + rest, lit) == Some(rest),
{
    assert((lit + rest).subrange(0, lit.len() as int) =~= lit);
    assert((lit + rest).subrange(lit.len() as int, (lit + rest).len() as int) =~= rest);
}

/// One member of canonical shape parses to its value, leaving the rest.
proof fn lemma_member_canonical(key: Seq<char>, val: Seq<char>, rest: Seq<char>)
    requires
        forall|i: int| 0 <= i < key.len() ==> key[i] != '"' && key[i] != '\\',
    ensures
        spec_member(key + seq!['"'] + (": \""@ + (esc(val) + seq!['"'] + rest)), key) == Some(
            (val, rest),
        ),
{
    let t = key + seq!['"'] + (": \""@ + (esc(val) + seq!['"'] + rest));
    lemma_esc_plain(key);
    assert(t =~= esc(key) + seq!['"'] + (": \""@ + (esc(val) + seq!['"'] + rest)));
    lemma_scan_esc(key, ": \""@ + (esc(val) + seq!['"'] + rest));
    let n = esc(key).len() + 1;
    assert(t.subrange(n as int, t.len() as int) =~= ": \""@ + (esc(val) + seq!['"'] + rest));
    lemma_after_lit_concat(": \""@, esc(val) + seq!['"'] + rest);
    let t2 = esc(val) + seq!['"'] + rest;
    lemma_scan_esc(val, rest);
    assert(t2.subrange(esc(val).len() as int + 1, t2.len() as int) =~= rest);
}

proof fn lemma_scan_canonical(t: Seq<char>)
    requires
        spec_scan(t) is Some,
    ensures
        ({
            let p = spec_scan(t).unwrap();
            1 <= p.1 <= t.len() && t.subrange(0, p.1) == esc(p.0) + seq!['"']
        }),
    decreases t.len(),
{
    let p = spec_scan(t).unwrap();
    if t[0] == '"' {
        assert(esc(Seq::<char>::empty()) == Seq::<char>::empty());
        assert(t.subrange(0, 1) =~= esc(p.0) + seq!['"']);
    } else if t[0] == '\\' {
        let t2 = t.subrange(2, t.len() as int);
        lemma_scan_canonical(t2);
        let q = spec_scan(t2).unwrap();
        assert(p.0 == seq![t[1]] + q.0);
        assert(p.0[0] == t[1]);
        assert(p.0.subrange(1, p.0.len() as int) =~= q.0);
        assert(esc(p.0) == esc_char(t[1]) + esc(q.0));
        assert(esc_char(t[1]) =~= seq!['\\', t[1]]);
        assert(t.subrange(0, p.1) =~= seq!['\\', t[1]] + t2.subrange(0, q.1));
        assert(t.subrange(0, p.1) =~= esc(p.0) + seq!['"']);
    } else {
        let t2 = t.subrange(1, t.len() as int);
        lemma_scan_canonical(t2);
        let q = spec_scan(t2).unwrap();
        assert(p.0 == seq![t[0]] + q.0);
        assert(p.0[0] == t[0]);
        assert(p.0.subrange(1, p.0.len() as int) =~= q.0);
        assert(esc(p.0) == esc_char(t[0]) + esc(q.0));
        assert(esc_char(t[0]) =~= seq![t[0]]);
        assert(t.subrange(0, p.1) =~= seq![t[0]] + t2.subrange(0, q.1));
        assert(t.subrange(0, p.1) =~= esc(p.0) + seq!['"']);
    }
}

proof fn lemma_member_canonical_inv(t: Seq<char>, key: Seq<char>)
    requires
        spec_member(t, key) is Some,
    ensures
        ({
            let m = spec_member(t, key).unwrap();
            t == esc(key) + seq!['"'] + (": \""@ + (esc(m.0) + seq!['"'] + m.1))
        }),
{
    let m = spec_member(t, key).unwrap();
    let k = spec_scan(t).unwrap();
    lemma_scan_canonical(t);
    let t1 = t.subrange(k.1, t.len() as int);
    let t2 = spec_after_lit(t1, ": \""@).unwrap();
    let p = spec_scan(t2).unwrap();
    lemma_scan_canonical(t2);
    assert(t1.subrange(0, ": \""@.len() as int) == ": \""@);
    assert(t1 =~= t1.subrange(0, ": \""@.len() as int) + t2);
    assert(t2 =~= t2.subrange(0, p.1) + t2.subrange(p.1, t2.len() as int));
    assert(t =~= t.subrange(0, k.1) + t1);
    assert(t =~= esc(key) + seq!['"'] + (": \""@ + (esc(m.0) + seq!['"'] + m.1)));
}

/// Canonical form: every text the strict parse accepts is, character for
/// character, the serialization of the bundle it parses to.  Together with
/// the round trip this makes serialization and parse mutually inverse: the
/// canonical text is the only accepted form, so no text holding anything
/// else — an extra field anywhere, other whitespace, other ordering — is
/// ever accepted.
#[verifier::rlimit(100)]
pub proof fn lemma_parse_canonical(t: Seq<char>)
    requires
        spec_parse(t) is Some,
    ensures
        ({
            let q = spec_parse(t).unwrap();
            t == spec_serialize(q.0, q.1, q.2, q.3)
        }),
{
    reveal_strlit("{\n  \"");
    reveal_strlit("homeserver\": \"");
    reveal_strlit("\",\n  \"user_id\": \"");
    reveal_strlit("\",\n  \"device_id\": \"");
    reveal_strlit("\",\n  \"access_token\": \"");
    reveal_strlit("\"\n}\n");
    reveal_strlit("homeserver");
    reveal_strlit("user_id");
    reveal_strlit("device_id");
    reveal_strlit("access_token");
    reveal_strlit(": \"");
    reveal_strlit(",\n  \"");
    reveal_strlit("\n}\n");
    let q = spec_parse(t).unwrap();
    let t1 = spec_after_lit(t, "{\n  \""@).unwrap();
    let m1 = spec_member(t1, "homeserver"@).unwrap();
    let t2 = spec_after_lit(m1.1, ",\n  \""@).unwrap();
    let m2 = spec_member(t2, "user_id"@).unwrap();
    let t3 = spec_after_lit(m2.1, ",\n  \""@).unwrap();
    let m3 = spec_member(t3, "device_id"@).unwrap();
    let t4 = spec_after_lit(m3.1, ",\n  \""@).unwrap();
    let m4 = spec_member(t4, "access_token"@).unwrap();
    lemma_member_canonical_inv(t1, "homeserver"@);
    lemma_member_canonical_inv(t2, "user_id"@);
    lemma_member_canonical_inv(t3, "device_id"@);
    lemma_member_canonical_inv(t4, "access_token"@);
    assert(forall|i: int|
        0 <= i < "homeserver"@.len() ==> "homeserver"@[i] != '"' && "homeserver"@[i] != '\\');
    lemma_esc_plain("homeserver"@);
    assert(forall|i: int|
        0 <= i < "user_id"@.len() ==> "user_id"@[i] != '"' && "user_id"@[i] != '\\');
    lemma_esc_plain("user_id"@);
    assert(forall|i: int|
        0 <= i < "device_id"@.len() ==> "device_id"@[i] != '"' && "device_id"@[i] != '\\');
    lemma_esc_plain("device_id"@);
    assert(forall|i: int|
        0 <= i < "access_token"@.len() ==> "access_token"@[i] != '"' && "access_token"@[i]
            != '\\');
    lemma_esc_plain("access_token"@);
    assert(t == "{\n  \""@ + t1);
    assert(m1.1 == ",\n  \""@ + t2);
    assert(m2.1 == ",\n  \""@ + t3);
    assert(m3.1 == ",\n  \""@ + t4);
    assert(m4.1 == "\n}\n"@);
    let mem_a = "access_token"@ + seq!['"'] + (": \""@ + (esc(m4.0) + seq!['"'] + "\n}\n"@));
    let mem_d = "device_id"@ + seq!['"'] + (": \""@ + (esc(m3.0) + seq!['"'] + (",\n  \""@
        + mem_a)));
    let mem_u = "user_id"@ + seq!['"'] + (": \""@ + (esc(m2.0) + seq!['"'] + (",\n  \""@
        + mem_d)));
    let mem_h = "homeserver"@ + seq!['"'] + (": \""@ + (esc(m1.0) + seq!['"'] + (",\n  \""@
        + mem_u)));
    assert(t4 =~= mem_a);
    assert(t3 =~= mem_d);
    assert(t2 =~= mem_u);
    assert(t1 =~= mem_h);
    assert("homeserver\": \""@ =~= "homeserver"@ + seq!['"'] + ": \""@);
    assert("\",\n  \"user_id\": \""@ =~= seq!['"'] + (",\n  \""@ + ("user_id"@ + seq!['"']
        + ": \""@)));
    assert("\",\n  \"device_id\": \""@ =~= seq!['"'] + (",\n  \""@ + ("device_id"@
        + seq!['"'] + ": \""@)));
    assert("\",\n  \"access_token\": \""@ =~= seq!['"'] + (",\n  \""@ + ("access_token"@
        + seq!['"'] + ": \""@)));
    assert("\"\n}\n"@ =~= seq!['"'] + "\n}\n"@);
    assert(spec_members(q.0, q.1, q.2, q.3) =~= mem_h);
    assert(t =~= spec_serialize(q.0, q.1, q.2, q.3));
}

/// Round trip: the strict parse of a serialized bundle recovers exactly
/// the four fields it was written from, whatever they hold.
#[verifier::rlimit(100)]
pub proof fn lemma_bundle_round_trip(h: Seq<char>, u: Seq<char>, d: Seq<char>, a: Seq<char>)
    ensures
        spec_parse(spec_serialize(h, u, d, a)) == Some((h, u, d, a)),
{
    reveal_strlit("{\n  \"");
    reveal_strlit("homeserver\": \"");
    reveal_strlit("\",\n  \"user_id\": \"");
    reveal_strlit("\",\n  \"device_id\": \"");
    reveal_strlit("\",\n  \"access_token\": \"");
    reveal_strlit("\"\n}\n");
    reveal_strlit("homeserver");
    reveal_strlit("user_id");
    reveal_strlit("device_id");
    reveal_strlit("access_token");
    reveal_strlit(": \"");
    reveal_strlit(",\n  \"");
    reveal_strlit("\n}\n");
    let t = spec_serialize(h, u, d, a);
    let mem_a = "access_token"@ + seq!['"'] + (": \""@ + (esc(a) + seq!['"'] + "\n}\n"@));
    let mem_d = "device_id"@ + seq!['"'] + (": \""@ + (esc(d) + seq!['"'] + (",\n  \""@
        + mem_a)));
    let mem_u = "user_id"@ + seq!['"'] + (": \""@ + (esc(u) + seq!['"'] + (",\n  \""@ + mem_d)));
    let mem_h = "homeserver"@ + seq!['"'] + (": \""@ + (esc(h) + seq!['"'] + (",\n  \""@
        + mem_u)));
    assert("homeserver\": \""@ =~= "homeserver"@ + seq!['"'] + ": \""@);
    assert("\",\n  \"user_id\": \""@ =~= seq!['"'] + (",\n  \""@ + ("user_id"@ + seq!['"']
        + ": \""@)));
    assert("\",\n  \"device_id\": \""@ =~= seq!['"'] + (",\n  \""@ + ("device_id"@
        + seq!['"'] + ": \""@)));
    assert("\",\n  \"access_token\": \""@ =~= seq!['"'] + (",\n  \""@ + ("access_token"@
        + seq!['"'] + ": \""@)));
    assert("\"\n}\n"@ =~= seq!['"'] + "\n}\n"@);
    assert(spec_members(h, u, d, a) =~= mem_h);
    assert(t == "{\n  \""@ + mem_h);
    lemma_after_lit_concat("{\n  \""@, mem_h);
    assert(forall|i: int|
        0 <= i < "homeserver"@.len() ==> "homeserver"@[i] != '"' && "homeserver"@[i] != '\\');
    lemma_member_canonical("homeserver"@, h, ",\n  \""@ + mem_u);
    lemma_after_lit_concat(",\n  \""@, mem_u);
    assert(forall|i: int|
        0 <= i < "user_id"@.len() ==> "user_id"@[i] != '"' && "user_id"@[i] != '\\');
    lemma_member_canonical("user_id"@, u, ",\n  \""@ + mem_d);
    lemma_after_lit_concat(",\n  \""@, mem_d);
    assert(forall|i: int|
        0 <= i < "device_id"@.len() ==> "device_id"@[i] != '"' && "device_id"@[i] != '\\');
    lemma_member_canonical("device_id"@, d, ",\n  \""@ + mem_a);
    lemma_after_lit_concat(",\n  \""@, mem_a);
    assert(forall|i: int|
        0 <= i < "access_token"@.len() ==> "access_token"@[i] != '"' && "access_token"@[i]
            != '\\');
    lemma_member_canonical("access_token"@, a, "\n}\n"@);
}

/// Strict schema: a serialized bundle with one extra, unknown field in
/// front is rejected by the parse, whatever the field's value and
/// whatever the rest of the document holds.
#[verifier::rlimit(100)]
pub proof fn lemma_extra_field_rejected(
    h: Seq<char>,
    u: Seq<char>,
    d: Seq<char>,
    a: Seq<char>,
    k: Seq<char>,
    x: Seq<char>,
)
    requires
        k != "homeserver"@,
    ensures
        spec_parse(spec_with_extra_field(h, u, d, a, k, x)) is None,
{
    reveal_strlit("{\n  \"");
    reveal_strlit("\": \"");
    reveal_strlit("\",\n  \"");
    reveal_strlit(",\n  \"");
    reveal_strlit(": \"");
    let t = spec_with_extra_field(h, u, d, a, k, x);
    let r1 = esc(k) + seq!['"'] + (": \""@ + (esc(x) + seq!['"'] + (",\n  \""@ + spec_members(
        h,
        u,
        d,
        a,
    ))));
    assert("\": \""@ =~= seq!['"'] + ": \""@);
    assert("\",\n  \""@ =~= seq!['"'] + ",\n  \""@);
    assert(t =~= "{\n  \""@ + r1);
    lemma_after_lit_concat("{\n  \""@, r1);
    lemma_scan_esc(k, ": \""@ + (esc(x) + seq!['"'] + (",\n  \""@ + spec_members(h, u, d, a))));
    assert(spec_member(r1, "homeserver"@) is None);
}

/// Strict schema, trailing position: a serialized bundle with one extra
/// member appended after the known four is rejected, whatever its name —
/// a known one included — and whatever its value.
#[verifier::rlimit(100)]
pub proof fn lemma_trailing_field_rejected(
    h: Seq<char>,
    u: Seq<char>,
    d: Seq<char>,
    a: Seq<char>,
    k: Seq<char>,
    x: Seq<char>,
)
    ensures
        spec_parse(spec_with_trailing_field(h, u, d, a, k, x)) is None,
{
    reveal_strlit("{\n  \"");
    reveal_strlit("{\n  \"homeserver\": \"");
    reveal_strlit("\",\n  \"user_id\": \"");
    reveal_strlit("\",\n  \"device_id\": \"");
    reveal_strlit("\",\n  \"access_token\": \"");
    reveal_strlit("\",\n  \"");
    reveal_strlit("\": \"");
    reveal_strlit("\"\n}\n");
    reveal_strlit("homeserver");
    reveal_strlit("user_id");
    reveal_strlit("device_id");
    reveal_strlit("access_token");
    reveal_strlit(": \"");
    reveal_strlit(",\n  \"");
    reveal_strlit("\n}\n");
    let t = spec_with_trailing_field(h, u, d, a, k, x);
    let tailk = ",\n  \""@ + (esc(k) + ("\": \""@ + (esc(x) + "\"\n}\n"@)));
    let mem_a = "access_token"@ + seq!['"'] + (": \""@ + (esc(a) + seq!['"'] + tailk));
    let mem_d = "device_id"@ + seq!['"'] + (": \""@ + (esc(d) + seq!['"'] + (",\n  \""@
        + mem_a)));
    let mem_u = "user_id"@ + seq!['"'] + (": \""@ + (esc(u) + seq!['"'] + (",\n  \""@ + mem_d)));
    let mem_h = "homeserver"@ + seq!['"'] + (": \""@ + (esc(h) + seq!['"'] + (",\n  \""@
        + mem_u)));
    assert("{\n  \"homeserver\": \""@ =~= "{\n  \""@ + ("homeserver"@ + seq!['"'] + ": \""@));
    assert("\",\n  \"user_id\": \""@ =~= seq!['"'] + (",\n  \""@ + ("user_id"@ + seq!['"']
        + ": \""@)));
    assert("\",\n  \"device_id\": \""@ =~= seq!['"'] + (",\n  \""@ + ("device_id"@
        + seq!['"'] + ": \""@)));
    assert("\",\n  \"access_token\": \""@ =~= seq!['"'] + (",\n  \""@ + ("access_token"@
        + seq!['"'] + ": \""@)));
    assert("\",\n  \""@ =~= seq!['"'] + ",\n  \""@);
    assert(t =~= "{\n  \""@ + mem_h);
    lemma_after_lit_concat("{\n  \""@, mem_h);
    assert(forall|i: int|
        0 <= i < "homeserver"@.len() ==> "homeserver"@[i] != '"' && "homeserver"@[i] != '\\');
    lemma_member_canonical("homeserver"@, h, ",\n  \""@ + mem_u);
    lemma_after_lit_concat(",\n  \""@, mem_u);
    assert(forall|i: int|
        0 <= i < "user_id"@.len() ==> "user_id"@[i] != '"' && "user_id"@[i] != '\\');
    lemma_member_canonical("user_id"@, u, ",\n  \""@ + mem_d);
    lemma_after_lit_concat(",\n  \""@, mem_d);
    assert(forall|i: int|
        0 <= i < "device_id"@.len() ==> "device_id"@[i] != '"' && "device_id"@[i] != '\\');
    lemma_member_canonical("device_id"@, d, ",\n  \""@ + mem_a);
    lemma_after_lit_concat(",\n  \""@, mem_a);
    assert(forall|i: int|
        0 <= i < "access_token"@.len() ==> "access_token"@[i] != '"' && "access_token"@[i]
            != '\\');
    lemma_member_canonical("access_token"@, a, tailk);
    assert(tailk[0] == ',');
    assert("\n}\n"@[0] == '\n');
    assert(tailk != "\n}\n"@);
}

} // verus!
