//! The tunnel registry and the registration of new tunnels.

use vstd::prelude::*;
use crate::host::{lemma_first_label_routes, route_key};

verus! {

/// Why a registration or a relay failed.
#[derive(Debug, PartialEq, Eq, Structural)]
pub enum TunnelError {
    /// The subdomain is already registered.
    Conflict,
    /// The host names no registered tunnel, or is malformed.
    NotFound,
    /// The call to the tunnel's target failed.
    UpstreamUnavailable,
}

/// A registered tunnel: where requests on its subdomain are sent.
#[derive(Debug)]
pub struct Tunnel {
    pub target_url: String,
}

/// The domain under which every tunnel's public address lies.
pub open spec fn base_domain() -> Seq<char> {
    "rustunnel.example.com"@
}

/// The public address of a subdomain: `https://<subdomain>.<base domain>`.
pub open spec fn public_url_of(subdomain: Seq<char>) -> Seq<char> {
    "https://"@ + subdomain + "."@ + base_domain()
}

/// The largest registration body, in bytes, that is read.
pub const REGISTRATION_BODY_LIMIT: u64 = 16384;

/// The registry after an insert of `subdomain -> target`: unchanged when the
/// subdomain is already present.
pub open spec fn inserted(
    m: Map<Seq<char>, Seq<char>>,
    subdomain: Seq<char>,
    target: Seq<char>,
) -> Map<Seq<char>, Seq<char>> {
    if m.contains_key(subdomain) {
        m
    } else {
        m.insert(subdomain, target)
    }
}

/// The tunnels, as a map from subdomain to target address. Each subdomain
/// occurs at most once.
pub struct Registry {
    entries: Vec<(String, Tunnel)>,
    model: Ghost<Map<Seq<char>, Seq<char>>>,
}

impl View for Registry {
    type V = Map<Seq<char>, Seq<char>>;

    closed spec fn view(&self) -> Map<Seq<char>, Seq<char>> {
        self.model@
    }
}

impl Registry {
    /// The entries agree with the map, and no subdomain occurs twice.
    pub closed spec fn wf(&self) -> bool {
        &&& forall|i: int|
            0 <= i < self.entries@.len() ==> {
                &&& self.model@.contains_key(#[trigger] self.entries@[i].0@)
                &&& self.model@[self.entries@[i].0@] == self.entries@[i].1.target_url@
            }
        &&& forall|k: Seq<char>|
            #[trigger] self.model@.contains_key(k) ==> exists|i: int|
                0 <= i < self.entries@.len() && #[trigger] self.entries@[i].0@ == k
        &&& forall|i: int, j: int|
            0 <= i < j < self.entries@.len() ==> #[trigger] self.entries@[i].0@
                != #[trigger] self.entries@[j].0@
    }

    /// An empty registry.
    pub fn new() -> (r: Registry)
        ensures
            r.wf(),
            r@ == Map::<Seq<char>, Seq<char>>::empty(),
    {
        Registry { entries: Vec::new(), model: Ghost(Map::empty()) }
    }

    /// The position of `subdomain` among the entries, if present.
    fn position(&self, subdomain: &String) -> (r: Option<usize>)
        requires
            self.wf(),
        ensures
            r is None <==> !self@.contains_key(subdomain@),
            r is Some ==> r->0 < self.entries@.len() && self.entries@[r->0 as int].0@ == subdomain@,
    {
        let mut i: usize = 0;
        while i < self.entries.len()
            invariant
                self.wf(),
                i <= self.entries@.len(),
                forall|j: int| 0 <= j < i ==> self.entries@[j].0@ != subdomain@,
            decreases self.entries@.len() - i,
        {
            if self.entries[i].0 == *subdomain {
                return Some(i);
            }
            i = i + 1;
        }
        proof {
            if self@.contains_key(subdomain@) {
                let j = choose|j: int|
                    0 <= j < self.entries@.len() && #[trigger] self.entries@[j].0@ == subdomain@;
                assert(self.entries@[j].0@ != subdomain@);
            }
        }
        None
    }

    /// Adds a tunnel under `subdomain`, unless that subdomain is taken: the
    /// check and the insert are one step, and an existing tunnel is never
    /// overwritten.
    pub fn insert(&mut self, subdomain: String, tunnel: Tunnel) -> (r: Result<(), TunnelError>)
        requires
            old(self).wf(),
        ensures
            final(self).wf(),
            r is Ok <==> !old(self)@.contains_key(subdomain@),
            r is Err ==> r == Err::<(), TunnelError>(TunnelError::Conflict),
            final(self)@ == inserted(old(self)@, subdomain@, tunnel.target_url@),
    {
        if self.position(&subdomain).is_some() {
            return Err(TunnelError::Conflict);
        }
        let ghost k = subdomain@;
        let ghost v = tunnel.target_url@;
        let ghost old_entries = self.entries@;
        self.entries.push((subdomain, tunnel));
        self.model = Ghost(self.model@.insert(k, v));
        assert forall|key: Seq<char>| #[trigger] self.model@.contains_key(key) implies exists|i: int|
            0 <= i < self.entries@.len() && #[trigger] self.entries@[i].0@ == key by {
            if key == k {
                assert(self.entries@[old_entries.len() as int].0@ == key);
            } else {
                let i = choose|i: int| 0 <= i < old_entries.len() && #[trigger] old_entries[i].0@ == key;
                assert(self.entries@[i].0@ == key);
            }
        }
        Ok(())
    }

    /// Registers `request` under its subdomain, or under `generated` when it
    /// names none, with `id` as the tunnel's identifier. A taken subdomain is
    /// a `Conflict` and leaves the registry as it was; no other subdomain is tried.
    pub fn create_tunnel(
        &mut self,
        request: CreateTunnelRequest,
        generated: String,
        id: String,
    ) -> (r: Result<CreateTunnelResponse, TunnelError>)
        requires
            old(self).wf(),
        ensures
            final(self).wf(),
            ({
                let sub = chosen_subdomain(request.subdomain, generated@);
                &&& final(self)@ == inserted(old(self)@, sub, request.target_url@)
                &&& (r is Ok <==> !old(self)@.contains_key(sub))
                &&& r is Err ==> r == Err::<CreateTunnelResponse, TunnelError>(TunnelError::Conflict)
                &&& r is Ok ==> {
                    &&& r->Ok_0.id@ == id@
                    &&& r->Ok_0.subdomain@ == sub
                    &&& r->Ok_0.public_url@ == public_url_of(sub)
                    &&& r->Ok_0.target_url@ == request.target_url@
                }
            }),
    {
        let subdomain = match request.subdomain {
            Some(s) => s,
            None => generated,
        };
        let tunnel = Tunnel { target_url: request.target_url.clone() };
        let key = subdomain.clone();
        match self.insert(key, tunnel) {
            Ok(()) => {
                let public_url = public_url(subdomain.as_str());
                Ok(CreateTunnelResponse {
                    id,
                    subdomain,
                    public_url,
                    target_url: request.target_url,
                })
            },
            Err(e) => Err(e),
        }
    }

    /// Registers `request`, generating a random subdomain when it names none
    /// and a random identifier in any case. A taken subdomain is a `Conflict`
    /// and leaves the registry as it was; a generated subdomain can only be
    /// taken when some registered subdomain has the shape of a generated one.
    pub fn register(&mut self, request: CreateTunnelRequest) -> (r: Result<CreateTunnelResponse, TunnelError>)
        requires
            old(self).wf(),
        ensures
            final(self).wf(),
            r is Err ==> r == Err::<CreateTunnelResponse, TunnelError>(TunnelError::Conflict)
                && final(self)@ == old(self)@,
            request.subdomain is Some ==> (r is Ok <==> !old(self)@.contains_key(request.subdomain->0@)),
            request.subdomain is None && (forall|k: Seq<char>|
                #[trigger] old(self)@.contains_key(k) ==> !is_token(k)) ==> r is Ok,
            r is Ok ==> {
                let sub = r->Ok_0.subdomain@;
                &&& !old(self)@.contains_key(sub)
                &&& final(self)@ == old(self)@.insert(sub, request.target_url@)
                &&& request.subdomain is Some ==> sub == request.subdomain->0@
                &&& request.subdomain is None ==> is_token(sub)
                &&& is_token(r->Ok_0.id@)
                &&& r->Ok_0.public_url@ == public_url_of(sub)
                &&& r->Ok_0.target_url@ == request.target_url@
            },
    {
        let generated = match &request.subdomain {
            Some(_) => String::new(),
            None => new_token(),
        };
        let id = new_token();
        self.create_tunnel(request, generated, id)
    }

    /// A copy of the tunnel registered under `subdomain`.
    pub fn lookup(&self, subdomain: &String) -> (r: Option<Tunnel>)
        requires
            self.wf(),
        ensures
            r is Some <==> self@.contains_key(subdomain@),
            r is Some ==> r->0.target_url@ == self@[subdomain@],
    {
        match self.position(subdomain) {
            Some(i) => Some(Tunnel { target_url: self.entries[i].1.target_url.clone() }),
            None => None,
        }
    }
}

/// A request for a new tunnel; without a subdomain, one is generated.
#[derive(Debug)]
pub struct CreateTunnelRequest {
    pub target_url: String,
    pub subdomain: Option<String>,
}

/// What a successful registration returns.
#[derive(Debug)]
pub struct CreateTunnelResponse {
    pub id: String,
    pub subdomain: String,
    pub public_url: String,
    pub target_url: String,
}

/// The registry after inserts of `subdomain`, one for each target in turn.
pub open spec fn after_inserts(
    m: Map<Seq<char>, Seq<char>>,
    subdomain: Seq<char>,
    targets: Seq<Seq<char>>,
) -> Map<Seq<char>, Seq<char>>
    decreases targets.len(),
{
    if targets.len() == 0 {
        m
    } else {
        inserted(after_inserts(m, subdomain, targets.drop_last()), subdomain, targets.last())
    }
}

/// How many of those inserts succeed.
pub open spec fn insert_successes(
    m: Map<Seq<char>, Seq<char>>,
    subdomain: Seq<char>,
    targets: Seq<Seq<char>>,
) -> nat
    decreases targets.len(),
{
    if targets.len() == 0 {
        0
    } else {
        let before = after_inserts(m, subdomain, targets.drop_last());
        insert_successes(m, subdomain, targets.drop_last()) + if before.contains_key(subdomain) {
            0nat
        } else {
            1nat
        }
    }
}

/// Of any number of inserts of one subdomain, in whatever order they are
/// serialized, exactly one succeeds when the subdomain was free (none when it
/// was taken), and the first one's target stays.
pub proof fn lemma_one_insert_wins(
    m: Map<Seq<char>, Seq<char>>,
    subdomain: Seq<char>,
    targets: Seq<Seq<char>>,
)
    requires
        targets.len() > 0,
    ensures
        insert_successes(m, subdomain, targets) == if m.contains_key(subdomain) {
            0nat
        } else {
            1nat
        },
        after_inserts(m, subdomain, targets) == inserted(m, subdomain, targets[0]),
    decreases targets.len(),
{
    let prefix = targets.drop_last();
    if targets.len() == 1 {
        assert(prefix.len() == 0);
        assert(after_inserts(m, subdomain, prefix) == m);
        assert(insert_successes(m, subdomain, prefix) == 0);
        assert(targets.last() == targets[0]);
    } else {
        lemma_one_insert_wins(m, subdomain, prefix);
        assert(prefix[0] == targets[0]);
        assert(after_inserts(m, subdomain, prefix).contains_key(subdomain));
    }
}

/// Two registrations that both succeed, one after the other, have distinct subdomains.
pub proof fn lemma_registrations_distinct(
    m: Map<Seq<char>, Seq<char>>,
    first: Seq<char>,
    first_target: Seq<char>,
    second: Seq<char>,
)
    requires
        !m.contains_key(first),
        !inserted(m, first, first_target).contains_key(second),
    ensures
        first != second,
{
}

/// A generated subdomain routes to its own tunnel: its public host resolves to it.
pub proof fn lemma_generated_subdomain_routes(token: Seq<char>)
    requires
        is_token(token),
    ensures
        route_key(Some(token + seq!['.'] + base_domain())) == Some(token),
{
    reveal_strlit("www");
    reveal_strlit("localhost");
    lemma_base_domain_has_no_port();
    assert(!token.contains('.')) by {
        if token.contains('.') {
            let i = choose|i: int| 0 <= i < token.len() && token[i] == '.';
            assert(is_token_char(token[i]));
        }
    }
    assert(!token.contains(':')) by {
        if token.contains(':') {
            let i = choose|i: int| 0 <= i < token.len() && token[i] == ':';
            assert(is_token_char(token[i]));
        }
    }
    lemma_first_label_routes(token, base_domain());
}

/// The base domain holds no `:`.
pub proof fn lemma_base_domain_has_no_port()
    ensures
        !base_domain().contains(':'),
{
    reveal_strlit("rustunnel.example.com");
}

/// A character that a generated token may hold: a lower-case hex digit or `-`.
pub open spec fn is_token_char(c: char) -> bool {
    c == '-' || ('0' <= c && c <= '9') || ('a' <= c && c <= 'f')
}

/// A generated token: 36 characters, each a lower-case hex digit or `-`.
pub open spec fn is_token(s: Seq<char>) -> bool {
    s.len() == 36 && forall|i: int| 0 <= i < s.len() ==> is_token_char(#[trigger] s[i])
}

/// A fresh random identifier. Relies on `uuid::Uuid::new_v4` for a random
/// version-4 UUID and on its `Display` impl, which writes the hyphenated
/// lower-case form: 32 hex digits in groups of 8-4-4-4-12, joined by `-`.
#[verifier::external_body]
fn new_token() -> (r: String)
    ensures
        is_token(r@),
{
    uuid::Uuid::new_v4().to_string()
}

/// The public address of a subdomain, `https://<subdomain>.rustunnel.example.com`.
pub fn public_url(subdomain: &str) -> (r: String)
    ensures
        r@ == public_url_of(subdomain@),
{
    let mut url = String::from_str("https://");
    url.append(subdomain);
    url.append(".");
    url.append("rustunnel.example.com");
    url
}

/// The address at which a server at `server` takes registrations: `<server>/api/tunnels`.
pub fn registration_url(server: &str) -> (r: String)
    ensures
        r@ == server@ + "/api/tunnels"@,
{
    let mut url = String::from_str(server);
    url.append("/api/tunnels");
    url
}

/// The subdomain a registration asks for: the requested one, else the generated one.
pub open spec fn chosen_subdomain(requested: Option<String>, generated: Seq<char>) -> Seq<char> {
    match requested {
        Some(s) => s@,
        None => generated,
    }
}

} // verus!
