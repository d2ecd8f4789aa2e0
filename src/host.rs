//! Resolving the routing key (a subdomain) from an inbound `Host` value.

use vstd::prelude::*;

verus! {

/// The characters of `s` before its first `c`; all of `s` when it holds no `c`.
pub open spec fn before_char(s: Seq<char>, c: char) -> Seq<char>
    decreases s.len(),
{
    if s.len() == 0 {
        s
    } else if s[0] == c {
        Seq::empty()
    } else {
        seq![s[0]] + before_char(s.drop_first(), c)
    }
}

/// The host with any `:port` suffix removed.
pub open spec fn authority_of(host: Seq<char>) -> Seq<char> {
    before_char(host, ':')
}

/// The first labels that never name a tunnel.
pub open spec fn is_reserved_label(label: Seq<char>) -> bool {
    label.len() == 0 || label == "www"@ || label == "localhost"@
}

/// The subdomain of a host (port already stripped): its first label, unless reserved.
pub open spec fn subdomain_of(host: Seq<char>) -> Option<Seq<char>> {
    let label = before_char(host, '.');
    if is_reserved_label(label) {
        None
    } else {
        Some(label)
    }
}

/// The routing key of an inbound host value: strip the port, then take the subdomain.
pub open spec fn route_key(host: Option<Seq<char>>) -> Option<Seq<char>> {
    match host {
        Some(h) => subdomain_of(authority_of(h)),
        None => None,
    }
}

/// `before_char` is the prefix up to the first index at which `c` stands.
pub proof fn lemma_before_char_at(s: Seq<char>, c: char, i: int)
    requires
        0 <= i <= s.len(),
        forall|j: int| 0 <= j < i ==> s[j] != c,
        i == s.len() || s[i] == c,
    ensures
        before_char(s, c) == s.take(i),
    decreases i,
{
    if i == 0 {
        assert(s.take(0) =~= Seq::<char>::empty());
        if s.len() == 0 {
            assert(s =~= Seq::<char>::empty());
        }
    } else {
        let t = s.drop_first();
        assert forall|j: int| 0 <= j < i - 1 implies t[j] != c by {
            assert(t[j] == s[j + 1]);
        }
        if i < s.len() {
            assert(t[i - 1] == s[i]);
        }
        lemma_before_char_at(t, c, i - 1);
        assert(seq![s[0]] + t.take(i - 1) =~= s.take(i));
    }
}

/// Of `a + [c] + b`, where `a` holds no `c`, the part before `c` is `a`.
pub proof fn lemma_before_char_split(a: Seq<char>, c: char, b: Seq<char>)
    requires
        !a.contains(c),
    ensures
        before_char(a + seq![c] + b, c) == a,
{
    let s = a + seq![c] + b;
    assert forall|j: int| 0 <= j < a.len() implies s[j] != c by {
        assert(s[j] == a[j]);
        if a[j] == c {
            assert(a.contains(c));
        }
    }
    lemma_before_char_at(s, c, a.len() as int);
    assert(s.take(a.len() as int) =~= a);
}

/// A string that holds no `c` is its own part before `c`.
pub proof fn lemma_before_char_absent(s: Seq<char>, c: char)
    requires
        !s.contains(c),
    ensures
        before_char(s, c) == s,
{
    assert forall|j: int| 0 <= j < s.len() implies s[j] != c by {
        if s[j] == c {
            assert(s.contains(c));
        }
    }
    lemma_before_char_at(s, c, s.len() as int);
    assert(s.take(s.len() as int) =~= s);
}

/// A `:port` suffix does not change the routing key of a host, and the key of
/// a host without port is its subdomain.
pub proof fn lemma_port_is_ignored(h: Seq<char>, port: Seq<char>)
    requires
        !h.contains(':'),
    ensures
        route_key(Some(h + seq![':'] + port)) == route_key(Some(h)),
        route_key(Some(h)) == subdomain_of(h),
{
    lemma_before_char_split(h, ':', port);
    lemma_before_char_absent(h, ':');
}

/// A host whose first label is not reserved is routed by that label.
pub proof fn lemma_first_label_routes(label: Seq<char>, rest: Seq<char>)
    requires
        !label.contains('.'),
        !label.contains(':'),
        !rest.contains(':'),
        !is_reserved_label(label),
    ensures
        route_key(Some(label + seq!['.'] + rest)) == Some(label),
{
    let h = label + seq!['.'] + rest;
    assert(!h.contains(':')) by {
        assert forall|i: int| 0 <= i < h.len() implies h[i] != ':' by {
            if i < label.len() {
                assert(h[i] == label[i]);
                if label[i] == ':' {
                    assert(label.contains(':'));
                }
            } else if i > label.len() {
                assert(h[i] == rest[i - label.len() - 1]);
                if rest[i - label.len() - 1] == ':' {
                    assert(rest.contains(':'));
                }
            }
        }
    }
    lemma_before_char_absent(h, ':');
    lemma_before_char_split(label, '.', rest);
}

/// The number of characters of `s` before its first `c` (all of them when none is `c`).
fn index_of_char(s: &str, c: char) -> (r: usize)
    ensures
        r <= s@.len(),
        before_char(s@, c) == s@.take(r as int),
{
    let n = s.unicode_len();
    let mut i: usize = 0;
    while i < n && s.get_char(i) != c
        invariant
            n == s@.len(),
            i <= n,
            forall|j: int| 0 <= j < i ==> s@[j] != c,
        decreases n - i,
    {
        i = i + 1;
    }
    proof {
        lemma_before_char_at(s@, c, i as int);
    }
    i
}

/// Removes a `:port` suffix: the part of the host before its first `:`.
/// `None` stays `None`.
pub fn extract_authority(host: Option<String>) -> (r: Option<String>)
    ensures
        host is None ==> r is None,
        host is Some ==> r is Some && r->0@ == authority_of(host->0@),
{
    match host {
        Some(h) => {
            let end = index_of_char(h.as_str(), ':');
            let part = h.as_str().substring_char(0, end);
            Some(part.to_owned())
        },
        None => None,
    }
}

/// The routing key of a host without port: its first `.`-separated label,
/// unless that label is empty, `www` or `localhost`.
pub fn extract_subdomain(host: &str) -> (r: Option<String>)
    ensures
        r is Some <==> subdomain_of(host@) is Some,
        r is Some ==> r->0@ == subdomain_of(host@)->0,
{
    let end = index_of_char(host, '.');
    let label = host.substring_char(0, end).to_owned();
    let www = String::from_str("www");
    let localhost = String::from_str("localhost");
    if end == 0 || label == www || label == localhost {
        None
    } else {
        Some(label)
    }
}

} // verus!
