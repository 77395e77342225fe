//! Proxy configurations and the in-memory list the proxy store keeps.

use vstd::prelude::*;

verus! {

/// The tunnel protocol a proxy speaks.
#[derive(Clone, Copy, Debug, PartialEq, Eq, Structural)]
pub enum ProxyType {
    Socks5h,
    Http,
}

/// The label shown for a proxy type.
pub open spec fn proxy_type_label(t: ProxyType) -> Seq<char> {
    match t {
        ProxyType::Socks5h => "SOCKS5H"@,
        ProxyType::Http => "HTTP"@,
    }
}

impl ProxyType {
    /// The label of the proxy type: `SOCKS5H` or `HTTP`.
    pub fn label(&self) -> (text: String)
        ensures
            text@ == proxy_type_label(*self),
    {
        match self {
            ProxyType::Socks5h => String::from_str("SOCKS5H"),
            ProxyType::Http => String::from_str("HTTP"),
        }
    }
}

/// One configured proxy.
#[derive(Clone, Debug)]
pub struct ProxyConfig {
    pub id: String,
    pub name: String,
    pub proxy_type: ProxyType,
    pub host: String,
    pub port: u16,
    pub username: Option<String>,
    pub password: Option<String>,
}

/// Result of a proxy reachability and latency test.
#[derive(Clone, Debug)]
pub struct ProxyTestResult {
    pub reachable: bool,
    pub latency_ms: u64,
    pub error: Option<String>,
}

fn copy_text(s: &Option<String>) -> (r: Option<String>)
    ensures
        r == *s,
{
    match s {
        Some(t) => Some(t.clone()),
        None => None,
    }
}

/// An exact copy of a proxy configuration.
pub fn copy_config(p: &ProxyConfig) -> (r: ProxyConfig)
    ensures
        r == *p,
{
    ProxyConfig {
        id: p.id.clone(),
        name: p.name.clone(),
        proxy_type: p.proxy_type,
        host: p.host.clone(),
        port: p.port,
        username: copy_text(&p.username),
        password: copy_text(&p.password),
    }
}

/// The first configuration in `s` whose id is `id`.
pub open spec fn lookup(s: Seq<ProxyConfig>, id: Seq<char>) -> Option<ProxyConfig>
    decreases s.len(),
{
    if s.len() == 0 {
        None
    } else if s[0].id@ == id {
        Some(s[0])
    } else {
        lookup(s.drop_first(), id)
    }
}

/// `s` with its first configuration of `p`'s id replaced by `p`; `s` itself
/// when no configuration has that id.
pub open spec fn replace_first(s: Seq<ProxyConfig>, p: ProxyConfig) -> Seq<ProxyConfig>
    decreases s.len(),
{
    if s.len() == 0 {
        s
    } else if s[0].id@ == p.id@ {
        s.update(0, p)
    } else {
        seq![s[0]] + replace_first(s.drop_first(), p)
    }
}

/// The configurations of `s` whose id is not `id`, in their order.
pub open spec fn without_id(s: Seq<ProxyConfig>, id: Seq<char>) -> Seq<ProxyConfig> {
    s.filter(|q: ProxyConfig| q.id@ != id)
}

/// When no configuration before `i` has the id and the one at `i` has it,
/// the lookup finds the one at `i`; when none has it, the lookup finds none.
pub proof fn lemma_lookup_first(s: Seq<ProxyConfig>, id: Seq<char>, i: int)
    requires
        0 <= i <= s.len(),
        forall|j: int| 0 <= j < i ==> s[j].id@ != id,
        i < s.len() ==> s[i].id@ == id,
    ensures
        lookup(s, id) == (if i < s.len() { Some(s[i]) } else { None::<ProxyConfig> }),
    decreases i,
{
    if i > 0 {
        lemma_lookup_first(s.drop_first(), id, i - 1);
    }
}

/// The same for `replace_first`: it replaces at the first match, if any.
pub proof fn lemma_replace_first(s: Seq<ProxyConfig>, p: ProxyConfig, i: int)
    requires
        0 <= i <= s.len(),
        forall|j: int| 0 <= j < i ==> s[j].id@ != p.id@,
        i < s.len() ==> s[i].id@ == p.id@,
    ensures
        replace_first(s, p) == (if i < s.len() { s.update(i, p) } else { s }),
    decreases i,
{
    if i > 0 {
        lemma_replace_first(s.drop_first(), p, i - 1);
        if i < s.len() {
            assert(seq![s[0]] + s.drop_first().update(i - 1, p) =~= s.update(i, p));
        } else {
            assert(seq![s[0]] + s.drop_first() =~= s);
        }
    } else if s.len() == 0 {
    }
}

fn same_id(p: &ProxyConfig, key: &String) -> (b: bool)
    ensures
        b == (p.id@ == key@),
{
    p.id == *key
}

/// The proxies a proxy store holds, in their stored order.
pub struct ProxyStore {
    proxies: Vec<ProxyConfig>,
}

impl View for ProxyStore {
    type V = Seq<ProxyConfig>;

    closed spec fn view(&self) -> Seq<ProxyConfig> {
        self.proxies@
    }
}

impl ProxyStore {
    /// A store holding the given list.
    pub fn with_proxies(proxies: Vec<ProxyConfig>) -> (store: Self)
        ensures
            store@ == proxies@,
    {
        ProxyStore { proxies }
    }

    /// The stored list.
    pub fn proxies(&self) -> (list: &Vec<ProxyConfig>)
        ensures
            list@ == self@,
    {
        &self.proxies
    }

    /// Appends a proxy to the list.
    pub fn add(&mut self, proxy: ProxyConfig)
        ensures
            final(self)@ == old(self)@.push(proxy),
    {
        self.proxies.push(proxy);
    }

    /// Replaces the first proxy whose id is the given proxy's id; leaves the
    /// list as it is when there is none.
    pub fn update(&mut self, proxy: &ProxyConfig)
        ensures
            final(self)@ == replace_first(old(self)@, *proxy),
    {
        let n = self.proxies.len();
        let mut i: usize = 0;
        while i < n
            invariant
                n == self.proxies@.len(),
                self.proxies@ == old(self)@,
                0 <= i <= n,
                forall|j: int| 0 <= j < i ==> self.proxies@[j].id@ != proxy.id@,
            decreases n - i,
        {
            if same_id(&self.proxies[i], &proxy.id) {
                proof {
                    lemma_replace_first(self.proxies@, *proxy, i as int);
                }
                self.proxies.set(i, copy_config(proxy));
                return;
            }
            i = i + 1;
        }
        proof {
            lemma_replace_first(self.proxies@, *proxy, n as int);
        }
    }

    /// Removes every proxy whose id is `id`.
    pub fn delete(&mut self, id: &str)
        ensures
            final(self)@ == without_id(old(self)@, id@),
    {
        let key = String::from_str(id);
        let ghost s = self.proxies@;
        let ghost pred = |q: ProxyConfig| q.id@ != id@;
        let mut kept: Vec<ProxyConfig> = Vec::new();
        let n = self.proxies.len();
        let mut i: usize = 0;
        while i < n
            invariant
                n == s.len(),
                self.proxies@ == s,
                key@ == id@,
                0 <= i <= n,
                pred == (|q: ProxyConfig| q.id@ != id@),
                kept@ == s.take(i as int).filter(pred),
            decreases n - i,
        {
            if !same_id(&self.proxies[i], &key) {
                kept.push(copy_config(&self.proxies[i]));
            }
            proof {
                let t = s.take(i + 1);
                assert(t.drop_last() =~= s.take(i as int));
                assert(t.last() == s[i as int]);
                reveal(Seq::filter);
                assert(t.filter(pred) == (if pred(t.last()) {
                    t.drop_last().filter(pred).push(t.last())
                } else {
                    t.drop_last().filter(pred)
                }));
            }
            i = i + 1;
        }
        proof {
            assert(s.take(n as int) =~= s);
        }
        self.proxies = kept;
    }

    /// The first proxy whose id is `id`.
    pub fn get(&self, id: &str) -> (found: Option<ProxyConfig>)
        ensures
            found == lookup(self@, id@),
    {
        let key = String::from_str(id);
        let n = self.proxies.len();
        let mut i: usize = 0;
        while i < n
            invariant
                n == self.proxies@.len(),
                key@ == id@,
                0 <= i <= n,
                forall|j: int| 0 <= j < i ==> self.proxies@[j].id@ != id@,
            decreases n - i,
        {
            if same_id(&self.proxies[i], &key) {
                proof {
                    lemma_lookup_first(self.proxies@, id@, i as int);
                }
                return Some(copy_config(&self.proxies[i]));
            }
            i = i + 1;
        }
        proof {
            lemma_lookup_first(self.proxies@, id@, n as int);
        }
        None
    }
}

} // verus!

verus! {

/// Adding a proxy and then looking up an id finds what was stored under the
/// id before, or else the added proxy if it has the id.
pub proof fn law_get_after_add(s: Seq<ProxyConfig>, p: ProxyConfig, id: Seq<char>)
    ensures
        lookup(s.push(p), id) == (match lookup(s, id) {
            Some(q) => Some(q),
            None => if p.id@ == id {
                Some(p)
            } else {
                None
            },
        }),
    decreases s.len(),
{
    if s.len() == 0 {
        assert(s.push(p).drop_first() =~= Seq::<ProxyConfig>::empty());
    } else {
        assert(s.push(p).drop_first() =~= s.drop_first().push(p));
        law_get_after_add(s.drop_first(), p, id);
    }
}

/// After deleting an id, looking it up finds nothing, and every other id is
/// found as before.
pub proof fn law_get_after_delete(s: Seq<ProxyConfig>, id: Seq<char>, other: Seq<char>)
    ensures
        lookup(without_id(s, id), id) is None,
        other != id ==> lookup(without_id(s, id), other) == lookup(s, other),
    decreases s.len(),
{
    if s.len() == 0 {
        reveal(Seq::filter);
    } else {
        let rest = s.drop_first();
        law_get_after_delete(rest, id, other);
        lemma_without_front(s, id);
        if s[0].id@ != id {
            assert((seq![s[0]] + without_id(rest, id)).drop_first() =~= without_id(rest, id));
        }
    }
}

/// Deleting from a non-empty list keeps its first proxy (unless it has the
/// id) ahead of what deleting keeps of the rest.
pub proof fn lemma_without_front(s: Seq<ProxyConfig>, id: Seq<char>)
    requires
        s.len() > 0,
    ensures
        without_id(s, id) == (if s[0].id@ != id {
            seq![s[0]] + without_id(s.drop_first(), id)
        } else {
            without_id(s.drop_first(), id)
        }),
{
    broadcast use Seq::filter_distributes_over_add;

    let head = seq![s[0]];
    assert(s =~= head + s.drop_first());
    reveal_with_fuel(Seq::filter, 2);
    assert(head.drop_last() =~= Seq::<ProxyConfig>::empty());
    assert(head.last() == s[0]);
    assert(without_id(head, id) =~= (if s[0].id@ != id {
        head
    } else {
        Seq::<ProxyConfig>::empty()
    }));
    assert(without_id(s, id) == without_id(head, id) + without_id(s.drop_first(), id));
    if s[0].id@ == id {
        assert(Seq::<ProxyConfig>::empty() + without_id(s.drop_first(), id) =~= without_id(
            s.drop_first(),
            id,
        ));
    }
}

/// After an update, the updated id is found with the new settings if it was
/// stored before (and not found otherwise), every other id is found as
/// before, and the number of proxies is unchanged.
pub proof fn law_get_after_update(s: Seq<ProxyConfig>, p: ProxyConfig, other: Seq<char>)
    ensures
        lookup(replace_first(s, p), p.id@) == (if lookup(s, p.id@) is Some {
            Some(p)
        } else {
            None
        }),
        other != p.id@ ==> lookup(replace_first(s, p), other) == lookup(s, other),
        replace_first(s, p).len() == s.len(),
    decreases s.len(),
{
    if s.len() > 0 {
        if s[0].id@ == p.id@ {
            assert(s.update(0, p).drop_first() =~= s.drop_first());
        } else {
            law_get_after_update(s.drop_first(), p, other);
            assert((seq![s[0]] + replace_first(s.drop_first(), p)).drop_first() =~= replace_first(
                s.drop_first(),
                p,
            ));
        }
    }
}

} // verus!
