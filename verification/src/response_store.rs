//! The answers that proxy clients sent back, kept under their request ids
//! until the request that awaits each one takes it.
use vstd::prelude::*;
use dashmap::DashMap;
use crate::dto::proxy::{ProxyResponse, ProxyResponseView};

verus! {

/// `dashmap::DashMap`, a concurrent hash map.
#[verifier::external_type_specification]
#[verifier::external_body]
#[verifier::reject_recursive_types(K)]
#[verifier::reject_recursive_types(V)]
#[verifier::reject_recursive_types(S)]
pub struct ExDashMap<K, V, S>(DashMap<K, V, S>);

/// What a map of answers holds: each key's text and the view of its value.
pub uninterp spec fn answers(m: DashMap<String, ProxyResponse>) -> Map<Seq<char>, ProxyResponseView>;

/// An empty map (`DashMap::new`).
#[verifier::external_body]
fn answers_new() -> (fresh: DashMap<String, ProxyResponse>)
    ensures
        answers(fresh).dom() == Set::<Seq<char>>::empty(),
{
    DashMap::new()
}

/// Stores `value` under `key` (`DashMap::insert`), replacing what the key
/// held, which is given back. `String` keys compare by their text.
#[verifier::external_body]
fn answers_insert(m: &mut DashMap<String, ProxyResponse>, key: String, value: ProxyResponse) -> (prev: Option<ProxyResponse>)
    ensures
        answers(*final(m)) == answers(*old(m)).insert(key@, value@),
        prev is Some <==> answers(*old(m)).contains_key(key@),
        prev is Some ==> prev->0@ == answers(*old(m))[key@],
{
    m.insert(key, value)
}

/// Takes out what `key` holds (`DashMap::remove`), if anything.
#[verifier::external_body]
fn answers_remove(m: &mut DashMap<String, ProxyResponse>, key: &str) -> (r: Option<ProxyResponse>)
    ensures
        answers(*final(m)) == answers(*old(m)).remove(key@),
        r is Some <==> answers(*old(m)).contains_key(key@),
        r is Some ==> r->0@ == answers(*old(m))[key@],
{
    match m.remove(key) {
        Some((_, v)) => Some(v),
        None => None,
    }
}

/// The answers of proxy clients that no request has taken yet, by request
/// id.
pub struct ResponseStore {
    responses: DashMap<String, ProxyResponse>,
}

impl View for ResponseStore {
    type V = Map<Seq<char>, ProxyResponseView>;

    closed spec fn view(&self) -> Map<Seq<char>, ProxyResponseView> {
        answers(self.responses)
    }
}

/// Every answer is filed under its own request id.
pub open spec fn keyed_by_id(m: Map<Seq<char>, ProxyResponseView>) -> bool {
    forall|k: Seq<char>| #[trigger] m.contains_key(k) ==> m[k].id == k
}

impl ResponseStore {
    /// The store files each answer under its own id.
    #[verifier::type_invariant]
    closed spec fn answers_under_own_ids(self) -> bool {
        keyed_by_id(answers(self.responses))
    }

    /// A store that holds no answer.
    pub fn new() -> (s: Self)
        ensures
            s@ == Map::<Seq<char>, ProxyResponseView>::empty(),
            keyed_by_id(s@),
    {
        let s = ResponseStore { responses: answers_new() };
        assert(s@ =~= Map::<Seq<char>, ProxyResponseView>::empty());
        s
    }

    /// Files an answer under its request id, where a `take` of that id then
    /// finds it; a later answer to the same id replaces an earlier one, and
    /// the answers to other requests stay as they were.
    pub fn deliver(&mut self, response: ProxyResponse)
        ensures
            final(self)@ == old(self)@.insert(response.id@, response@),
            final(self)@.contains_key(response.id@),
            final(self)@[response.id@] == response@,
            keyed_by_id(final(self)@),
    {
        proof {
            use_type_invariant(&*self);
        }
        let key = response.id.clone();
        let mut held = answers_new();
        std::mem::swap(&mut held, &mut self.responses);
        let _ = answers_insert(&mut held, key, response);
        self.responses = held;
    }

    /// Takes the answer to a request, if it has arrived: an answer carrying
    /// that id. It is then gone from the store, so a second take finds
    /// nothing; the answers to other requests stay as they were.
    pub fn take(&mut self, id: &str) -> (r: Option<ProxyResponse>)
        ensures
            r is Some <==> old(self)@.contains_key(id@),
            r is Some ==> r->0@ == old(self)@[id@],
            r is Some ==> r->0.id@ == id@,
            final(self)@ == old(self)@.remove(id@),
            !final(self)@.contains_key(id@),
            keyed_by_id(final(self)@),
    {
        proof {
            use_type_invariant(&*self);
        }
        let mut held = answers_new();
        std::mem::swap(&mut held, &mut self.responses);
        let r = answers_remove(&mut held, id);
        self.responses = held;
        r
    }

    /// Whether an answer to the request has arrived.
    pub fn contains(&self, id: &str) -> (b: bool)
        ensures
            b == self@.contains_key(id@),
    {
        answers_contains(&self.responses, id)
    }
}

/// Whether `key` holds a value (`DashMap::contains_key`).
#[verifier::external_body]
fn answers_contains(m: &DashMap<String, ProxyResponse>, key: &str) -> (b: bool)
    ensures
        b == answers(*m).contains_key(key@),
{
    m.contains_key(key)
}

} // verus!
