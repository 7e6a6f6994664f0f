//! Invite URL generation and parsing
//!
//! Invite format: exom://<host>:<port>/<hall-id>/<token>
//!
//! The host's address is written and read by std's socket addresses beside
//! this module; here the text is put together and taken apart.

use vstd::prelude::*;
use crate::ids::{id_to_string, parse_id, uuid_from_text, uuid_text, nibble};
use crate::net::error::Error;
use crate::text::{chars_of, decimal, is_prefix, push_char, push_decimal, push_str, str_starts_with, string_from_range};

verus! {

/// The invite URL text for the given parts.
pub open spec fn invite_text(host: Seq<char>, port: u16, hall_id: u128, token: Seq<char>) -> Seq<char> {
    "exom://"@ + host + ":"@ + decimal(port as nat) + "/"@ + uuid_text(hall_id) + "/"@ + token
}

/// The position of the first `c` in `s` at or after `from`.
pub open spec fn find_from(s: Seq<char>, c: char, from: int) -> Option<int>
    decreases s.len() - from,
{
    if from < 0 || from >= s.len() {
        None
    } else if s[from] == c {
        Some(from)
    } else {
        find_from(s, c, from + 1)
    }
}

/// `s` split at its first two slashes, as `splitn(3, '/')` does when it
/// yields three parts.
pub open spec fn split3(s: Seq<char>) -> Option<(Seq<char>, Seq<char>, Seq<char>)> {
    match find_from(s, '/', 0) {
        None => None,
        Some(i) => match find_from(s, '/', i + 1) {
            None => None,
            Some(j) => Some((s.subrange(0, i), s.subrange(i + 1, j), s.subrange(j + 1, s.len() as int))),
        },
    }
}

fn find_slash(v: &Vec<char>, from: usize) -> (r: Option<usize>)
    requires
        from <= v.len(),
    ensures
        match r {
            Some(i) => find_from(v@, '/', from as int) == Some(i as int),
            None => find_from(v@, '/', from as int) is None,
        },
{
    let mut i: usize = from;
    while i < v.len()
        invariant
            from <= i <= v.len(),
            find_from(v@, '/', from as int) == find_from(v@, '/', i as int),
        decreases v.len() - i,
    {
        if v[i] == '/' {
            return Some(i);
        }
        i = i + 1;
    }
    None
}


/// The three parts of an invite: `host:port`, the hall identifier's text, and
/// the token.
#[derive(Debug, Clone)]
pub struct InviteParts {
    pub host_port: String,
    pub hall_text: String,
    pub token: String,
}

/// Format as URL string: `exom://<host>:<port>/<hall-id>/<token>`, the host
/// given as its text.
pub fn format_invite(host: &str, port: u16, hall_id: u128, token: &str) -> (s: String)
    ensures
        s@ == invite_text(host@, port, hall_id, token@),
{
    proof {
        reveal_strlit(":");
        reveal_strlit("/");
    }
    let mut s = String::from_str("exom://");
    push_str(&mut s, host);
    push_char(&mut s, ':');
    push_decimal(&mut s, port as u64);
    push_char(&mut s, '/');
    let id = id_to_string(hall_id);
    push_str(&mut s, id.as_str());
    push_char(&mut s, '/');
    push_str(&mut s, token);
    assert(s@ =~= invite_text(host@, port, hall_id, token@));
    s
}

/// Strip the `exom://` prefix and split the rest at its first two slashes.
pub fn split_invite(s: &str) -> (r: Result<InviteParts, Error>)
    ensures
        !is_prefix("exom://"@, s@) ==> (r matches Err(Error::Protocol(t))
            && t@ == "Invalid invite URL: missing exom:// prefix"@),
        is_prefix("exom://"@, s@) ==> match split3(s@.skip(7)) {
            None => r matches Err(Error::Protocol(t))
                && t@ == "Invalid invite URL: expected host:port/hall_id/token"@,
            Some((a, b, c)) => r matches Ok(p) && p.host_port@ == a && p.hall_text@ == b
                && p.token@ == c,
        },
{
    proof {
        reveal_strlit("exom://");
    }
    if !str_starts_with(s, "exom://") {
        return Err(Error::Protocol(String::from_str("Invalid invite URL: missing exom:// prefix")));
    }
    let all = chars_of(s);
    let n = all.len();
    let v = chars_of(string_from_range(&all, 7, n).as_str());
    assert(v@ =~= s@.skip(7));
    let i = match find_slash(&v, 0) {
        Some(i) => i,
        None => {
            return Err(
                Error::Protocol(String::from_str("Invalid invite URL: expected host:port/hall_id/token")),
            );
        },
    };
    proof {
        lemma_find_from_bounds(v@, '/', 0);
    }
    let j = match find_slash(&v, i + 1) {
        Some(j) => j,
        None => {
            return Err(
                Error::Protocol(String::from_str("Invalid invite URL: expected host:port/hall_id/token")),
            );
        },
    };
    proof {
        lemma_find_from_bounds(v@, '/', i + 1);
    }
    Ok(
        InviteParts {
            host_port: string_from_range(&v, 0, i),
            hall_text: string_from_range(&v, i + 1, j),
            token: string_from_range(&v, j + 1, v.len()),
        },
    )
}

/// Finish reading an invite once its address part has been read:
/// `address_ok` says whether `parts.host_port` is a socket address. Then the
/// hall identifier must parse and the token must not be empty; the hall and
/// the token are returned.
pub fn finish_invite(parts: InviteParts, address_ok: bool) -> (r: Result<(u128, String), Error>)
    ensures
        !address_ok ==> (r matches Err(Error::Protocol(t)) && t@ == "Invalid invite URL: bad address '"@
            + parts.host_port@ + "'"@),
        address_ok ==> match uuid_from_text(parts.hall_text@) {
            None => r matches Err(Error::Protocol(t)) && t@ == "Invalid invite URL: bad hall_id '"@
                + parts.hall_text@ + "'"@,
            Some(id) => if parts.token@.len() == 0 {
                r matches Err(Error::Protocol(t)) && t@ == "Invalid invite URL: empty token"@
            } else {
                r matches Ok((h, t)) && h == id && t@ == parts.token@
            },
        },
        forall|x: u128| parts.hall_text@ == uuid_text(x) ==> uuid_from_text(parts.hall_text@) == Some(x),
{
    proof {
        reveal_strlit("'");
    }
    let id = parse_id(parts.hall_text.as_str());
    if !address_ok {
        let mut m = String::from_str("Invalid invite URL: bad address '");
        push_str(&mut m, parts.host_port.as_str());
        push_char(&mut m, '\'');
        return Err(Error::Protocol(m));
    }
    let hall_id = match id {
        Some(x) => x,
        None => {
            let mut m = String::from_str("Invalid invite URL: bad hall_id '");
            push_str(&mut m, parts.hall_text.as_str());
            push_char(&mut m, '\'');
            return Err(Error::Protocol(m));
        },
    };
    if parts.token.unicode_len() == 0 {
        return Err(Error::Protocol(String::from_str("Invalid invite URL: empty token")));
    }
    Ok((hall_id, parts.token))
}

proof fn lemma_find_from_bounds(s: Seq<char>, c: char, from: int)
    ensures
        find_from(s, c, from) matches Some(i) ==> from <= i < s.len() && s[i] == c,
    decreases s.len() - from,
{
    if 0 <= from < s.len() && s[from] != c {
        lemma_find_from_bounds(s, c, from + 1);
    }
}

/// A digit string holds no slash.
proof fn lemma_decimal_digits(n: nat)
    ensures
        forall|k: int| 0 <= k < decimal(n).len() ==> 48 <= (#[trigger] decimal(n)[k]) as int <= 57,
    decreases n,
{
    if n >= 10 {
        lemma_decimal_digits(n / 10);
        assert forall|k: int| 0 <= k < decimal(n).len() implies 48 <= (#[trigger] decimal(n)[k]) as int
            <= 57 by {
            if k < decimal(n / 10).len() {
                assert(decimal(n)[k] == decimal(n / 10)[k]);
            }
        }
    }
}

/// Scanning a text for `c` from inside a run free of `c` finds the first `c` after it.
proof fn lemma_find_from_skips(s: Seq<char>, c: char, from: int, to: int)
    requires
        0 <= from <= to < s.len(),
        forall|k: int| from <= k < to ==> s[k] != c,
        s[to] == c,
    ensures
        find_from(s, c, from) == Some(to),
    decreases to - from,
{
    if from < to {
        lemma_find_from_skips(s, c, from + 1, to);
    }
}

/// An invite written by `format_invite` splits back into its address text
/// (`host:port`), the hall's identifier text and the token, whenever the
/// host's text holds no slash.
pub proof fn lemma_invite_roundtrip(host: Seq<char>, port: u16, hall_id: u128, token: Seq<char>)
    requires
        forall|k: int| 0 <= k < host.len() ==> host[k] != '/',
    ensures
        is_prefix("exom://"@, invite_text(host, port, hall_id, token)),
        split3(invite_text(host, port, hall_id, token).skip(7)) == Some(
            (host + ":"@ + decimal(port as nat), uuid_text(hall_id), token),
        ),
{
    reveal_strlit("exom://");
    reveal_strlit(":");
    reveal_strlit("/");
    let a = host + ":"@ + decimal(port as nat);
    let u = uuid_text(hall_id);
    let s = invite_text(host, port, hall_id, token);
    let rest = s.skip(7);
    assert(s =~= "exom://"@ + (a + "/"@ + u + "/"@ + token));
    assert(rest =~= a + "/"@ + u + "/"@ + token);
    assert(s.subrange(0, 7) =~= "exom://"@);
    lemma_decimal_digits(port as nat);
    assert forall|k: int| 0 <= k < a.len() implies rest[k] != '/' by {
        assert(rest[k] == a[k]);
        if k < host.len() {
            assert(a[k] == host[k]);
        } else if k > host.len() {
            assert(a[k] == decimal(port as nat)[k - host.len() - 1]);
        }
    }
    let i = a.len() as int;
    assert(rest[i] == '/');
    lemma_find_from_skips(rest, '/', 0, i);
    assert forall|k: int| i + 1 <= k < i + 1 + u.len() implies rest[k] != '/' by {
        assert(rest[k] == u[k - i - 1]);
        let m = k - i - 1;
        let d = crate::ids::hyphenated_digit_index(m);
        if !(m == 8 || m == 13 || m == 18 || m == 23) {
            assert(0 <= nibble(hall_id, d) < 16);
        }
    }
    let j = i + 1 + u.len();
    assert(rest[j] == '/');
    lemma_find_from_skips(rest, '/', i + 1, j);
    assert(rest.subrange(0, i) =~= a);
    assert(rest.subrange(i + 1, j) =~= u);
    assert(rest.subrange(j + 1, rest.len() as int) =~= token);
}

} // verus!
