//! The hop-by-hop header filter applied in both directions of a relay.

use vstd::prelude::*;

verus! {

/// A header as relayed: its name and its raw value bytes.
#[derive(Debug, PartialEq, Eq)]
pub struct Header {
    pub name: String,
    pub value: Vec<u8>,
}

/// What a header holds, as mathematical values.
pub struct HeaderView {
    pub name: Seq<char>,
    pub value: Seq<u8>,
}

impl View for Header {
    type V = HeaderView;

    open spec fn view(&self) -> HeaderView {
        HeaderView { name: self.name@, value: self.value@ }
    }
}

/// The views of a list of headers, in order.
pub open spec fn header_views(hs: Seq<Header>) -> Seq<HeaderView> {
    hs.map_values(|h: Header| h@)
}

/// A character with ASCII upper case folded to lower case, as a code point.
pub open spec fn folded(c: char) -> u32 {
    if 'A' <= c && c <= 'Z' {
        (c as u32 + 32) as u32
    } else {
        c as u32
    }
}

/// Equal up to ASCII case.
pub open spec fn same_ignoring_case(a: Seq<char>, b: Seq<char>) -> bool {
    a.len() == b.len() && forall|i: int| 0 <= i < a.len() ==> folded(a[i]) == folded(b[i])
}

/// The header names that are meaningful for one network hop only.
pub open spec fn hop_by_hop_names() -> Seq<Seq<char>> {
    seq![
        "connection"@,
        "keep-alive"@,
        "proxy-authenticate"@,
        "proxy-authorization"@,
        "te"@,
        "trailers"@,
        "transfer-encoding"@,
        "upgrade"@,
    ]
}

/// A hop-by-hop header name, compared without regard to ASCII case.
pub open spec fn is_hop_by_hop(name: Seq<char>) -> bool {
    exists|k: int| 0 <= k < hop_by_hop_names().len() && same_ignoring_case(name, hop_by_hop_names()[k])
}

/// The headers that are relayed: all but the hop-by-hop ones, in their order.
pub open spec fn relayed_headers(hs: Seq<HeaderView>) -> Seq<HeaderView>
    decreases hs.len(),
{
    if hs.len() == 0 {
        hs
    } else {
        let rest = relayed_headers(hs.drop_last());
        if is_hop_by_hop(hs.last().name) {
            rest
        } else {
            rest.push(hs.last())
        }
    }
}

/// No relayed header is hop-by-hop.
pub proof fn lemma_relayed_headers_exclude_hop_by_hop(hs: Seq<HeaderView>)
    ensures
        forall|i: int|
            0 <= i < relayed_headers(hs).len() ==> !is_hop_by_hop(#[trigger] relayed_headers(hs)[i].name),
    decreases hs.len(),
{
    if hs.len() > 0 {
        let rest = relayed_headers(hs.drop_last());
        lemma_relayed_headers_exclude_hop_by_hop(hs.drop_last());
        assert forall|i: int|
            0 <= i < relayed_headers(hs).len() implies !is_hop_by_hop(
            #[trigger] relayed_headers(hs)[i].name,
        ) by {
            if i < rest.len() {
                assert(relayed_headers(hs)[i] == rest[i]);
            }
        }
    }
}

/// Headers none of which is hop-by-hop are relayed unchanged: every instance
/// of a repeated name arrives, in its order.
pub proof fn lemma_relayed_headers_keep_end_to_end(hs: Seq<HeaderView>)
    requires
        forall|i: int| 0 <= i < hs.len() ==> !is_hop_by_hop(#[trigger] hs[i].name),
    ensures
        relayed_headers(hs) == hs,
    decreases hs.len(),
{
    if hs.len() > 0 {
        lemma_relayed_headers_keep_end_to_end(hs.drop_last());
        assert(hs.drop_last().push(hs.last()) =~= hs);
    }
}

/// Filtering a list is filtering each part of it in turn: the filter acts on
/// each header alone and keeps the order.
pub proof fn lemma_relayed_headers_concat(a: Seq<HeaderView>, b: Seq<HeaderView>)
    ensures
        relayed_headers(a + b) == relayed_headers(a) + relayed_headers(b),
    decreases b.len(),
{
    if b.len() == 0 {
        assert(a + b =~= a);
        assert(relayed_headers(a) + relayed_headers(b) =~= relayed_headers(a));
    } else {
        lemma_relayed_headers_concat(a, b.drop_last());
        assert((a + b).drop_last() =~= a + b.drop_last());
        assert((a + b).last() == b.last());
        if !is_hop_by_hop(b.last().name) {
            assert(relayed_headers(a) + relayed_headers(b.drop_last()).push(b.last())
                =~= (relayed_headers(a) + relayed_headers(b.drop_last())).push(b.last()));
        }
    }
}

fn fold_char(c: char) -> (r: u32)
    ensures
        r == folded(c),
{
    if 'A' <= c && c <= 'Z' {
        c as u32 + 32
    } else {
        c as u32
    }
}

/// Whether `a` and `b` are equal up to ASCII case.
fn eq_ignoring_case(a: &str, b: &str) -> (r: bool)
    ensures
        r == same_ignoring_case(a@, b@),
{
    let n = a.unicode_len();
    if n != b.unicode_len() {
        return false;
    }
    let mut i: usize = 0;
    while i < n
        invariant
            n == a@.len(),
            n == b@.len(),
            i <= n,
            forall|j: int| 0 <= j < i ==> folded(a@[j]) == folded(b@[j]),
        decreases n - i,
    {
        if fold_char(a.get_char(i)) != fold_char(b.get_char(i)) {
            return false;
        }
        i = i + 1;
    }
    true
}

/// Whether a header is hop-by-hop (`connection`, `keep-alive`,
/// `proxy-authenticate`, `proxy-authorization`, `te`, `trailers`,
/// `transfer-encoding`, `upgrade`), in any ASCII case.
pub fn is_hop_by_hop_header(header_name: &str) -> (r: bool)
    ensures
        r == is_hop_by_hop(header_name@),
{
    let names: [&str; 8] = [
        "connection",
        "keep-alive",
        "proxy-authenticate",
        "proxy-authorization",
        "te",
        "trailers",
        "transfer-encoding",
        "upgrade",
    ];
    assert(names@.map_values(|s: &str| s@) =~= hop_by_hop_names());
    let mut k: usize = 0;
    while k < 8
        invariant
            k <= 8,
            names@.map_values(|s: &str| s@) == hop_by_hop_names(),
            forall|j: int| 0 <= j < k ==> !same_ignoring_case(header_name@, hop_by_hop_names()[j]),
        decreases 8 - k,
    {
        assert(names@[k as int]@ == hop_by_hop_names()[k as int]);
        if eq_ignoring_case(header_name, names[k]) {
            return true;
        }
        k = k + 1;
    }
    false
}

/// Copies the headers that are not hop-by-hop, keeping their order and every
/// instance of a repeated name.
pub fn filter_headers(headers: &Vec<Header>) -> (r: Vec<Header>)
    ensures
        header_views(r@) == relayed_headers(header_views(headers@)),
{
    let mut out: Vec<Header> = Vec::new();
    let mut i: usize = 0;
    while i < headers.len()
        invariant
            i <= headers@.len(),
            header_views(out@) == relayed_headers(header_views(headers@.take(i as int))),
        decreases headers@.len() - i,
    {
        let h = &headers[i];
        let ghost before = header_views(headers@.take(i as int));
        let ghost after = header_views(headers@.take(i + 1));
        assert(after.drop_last() =~= before);
        assert(after.last() == h@);
        if !is_hop_by_hop_header(h.name.as_str()) {
            let copy = Header { name: h.name.clone(), value: h.value.clone() };
            out.push(copy);
            assert(header_views(out@) =~= relayed_headers(before).push(h@));
        }
        i = i + 1;
    }
    assert(headers@.take(headers@.len() as int) =~= headers@);
    out
}

} // verus!
