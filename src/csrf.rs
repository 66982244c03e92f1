//! Single-use anti-forgery tokens: issued on reads, each accepted once
//! within its lifetime on a state-changing request. Times are milliseconds
//! on a monotonic clock that the caller reads.

use vstd::prelude::*;
use vstd::string::*;
use crate::json::text_eq;
use crate::primitives::random_below;

verus! {

pub const TOKEN_LENGTH: usize = 32;

/// How long a token stays valid: one hour.
pub const TOKEN_LIFETIME_MS: u64 = 3_600_000;

/// The characters a token is drawn from.
pub const TOKEN_ALPHABET: &'static str = "ABCDEFGHIJKLMNOPQRSTUVWXYZabcdefghijklmnopqrstuvwxyz0123456789";

/// The request header that carries the token.
pub const CSRF_HEADER: &'static str = "x-csrf-token";

/// The cookie that hands the token to the browser.
pub const CSRF_COOKIE: &'static str = "csrf-token";

/// What to do with a request.
#[derive(Debug)]
pub enum CsrfDecision {
    /// Serve it, and set this cookie on the response.
    Issue(String),
    /// Serve it unchanged.
    Pass,
    /// Refuse it with 403: a state-changing request without a token.
    Missing,
    /// Refuse it with 403: the token is unknown, used or stale.
    Invalid,
}

/// The methods that change state and so need a token.
pub open spec fn needs_token(method: Seq<char>) -> bool {
    method == "POST"@ || method == "PUT"@ || method == "DELETE"@ || method == "PATCH"@
}

/// The cookie that carries a token; `Secure` where the server runs on HTTPS.
pub open spec fn cookie_text(token: Seq<char>, secure: bool) -> Seq<char> {
    "csrf-token="@ + token + "; Path=/; SameSite=Strict"@ + if secure {
        "; Secure"@
    } else {
        Seq::<char>::empty()
    }
}

/// Time since `created`; a clock reading before it counts as none.
pub open spec fn elapsed(created: u64, now: u64) -> int {
    if now >= created {
        now - created
    } else {
        0
    }
}

pub open spec fn fresh(created: u64, now: u64) -> bool {
    elapsed(created, now) < TOKEN_LIFETIME_MS
}

/// When the token `k` was issued, by the last entry that names it.
pub open spec fn created_at(entries: Seq<(String, u64)>, k: Seq<char>) -> Option<u64>
    decreases entries.len(),
{
    if entries.len() == 0 {
        None
    } else if entries.last().0@ == k {
        Some(entries.last().1)
    } else {
        created_at(entries.drop_last(), k)
    }
}

pub open spec fn tokens_unique(entries: Seq<(String, u64)>) -> bool {
    forall|i: int, j: int| 0 <= i < j < entries.len() ==> (#[trigger] entries[i]).0@ != (#[trigger] entries[j]).0@
}

/// Whether an entry stays when the token `name` goes and, if asked, stale ones go.
pub open spec fn stays(e: (String, u64), name: Seq<char>, now: u64, drop_stale: bool) -> bool {
    e.0@ != name && (!drop_stale || fresh(e.1, now))
}

/// The entries that stay, in order.
pub open spec fn kept(entries: Seq<(String, u64)>, name: Seq<char>, now: u64, drop_stale: bool) -> Seq<(String, u64)>
    decreases entries.len(),
{
    if entries.len() == 0 {
        entries
    } else {
        let rest = kept(entries.drop_last(), name, now, drop_stale);
        if stays(entries.last(), name, now, drop_stale) {
            rest.push(entries.last())
        } else {
            rest
        }
    }
}

proof fn lemma_created_absent(entries: Seq<(String, u64)>, k: Seq<char>)
    requires
        forall|i: int| 0 <= i < entries.len() ==> (#[trigger] entries[i]).0@ != k,
    ensures
        created_at(entries, k) is None,
    decreases entries.len(),
{
    if entries.len() > 0 {
        let rest = entries.drop_last();
        assert forall|i: int| 0 <= i < rest.len() implies (#[trigger] rest[i]).0@ != k by {
            assert(rest[i] == entries[i]);
        }
        lemma_created_absent(rest, k);
    }
}

proof fn lemma_kept(entries: Seq<(String, u64)>, name: Seq<char>, now: u64, drop_stale: bool)
    requires
        tokens_unique(entries),
    ensures
        tokens_unique(kept(entries, name, now, drop_stale)),
        forall|i: int| 0 <= i < kept(entries, name, now, drop_stale).len() ==> exists|j: int|
            0 <= j < entries.len() && #[trigger] kept(entries, name, now, drop_stale)[i] == entries[j],
        forall|i: int| 0 <= i < kept(entries, name, now, drop_stale).len() ==> (#[trigger] kept(entries, name, now, drop_stale)[i]).0@ != name,
        forall|k: Seq<char>| #[trigger] created_at(kept(entries, name, now, drop_stale), k) == match created_at(entries, k) {
            Some(c) => if k != name && (!drop_stale || fresh(c, now)) {
                Some(c)
            } else {
                None
            },
            None => None,
        },
    decreases entries.len(),
{
    if entries.len() > 0 {
        let dl = entries.drop_last();
        let e = entries.last();
        assert(tokens_unique(dl)) by {
            assert forall|i: int, j: int| 0 <= i < j < dl.len() implies (#[trigger] dl[i]).0@ != (#[trigger] dl[j]).0@ by {
                assert(dl[i] == entries[i] && dl[j] == entries[j]);
            }
        }
        lemma_kept(dl, name, now, drop_stale);
        let rest = kept(dl, name, now, drop_stale);
        let all = kept(entries, name, now, drop_stale);
        assert forall|i: int| 0 <= i < dl.len() implies (#[trigger] dl[i]).0@ != e.0@ by {
            assert(dl[i] == entries[i]);
            assert(e == entries[entries.len() - 1]);
        }
        lemma_created_absent(dl, e.0@);
        assert forall|i: int| 0 <= i < rest.len() implies (#[trigger] rest[i]).0@ != e.0@ by {
            let j = choose|j: int| 0 <= j < dl.len() && rest[i] == dl[j];
        }
        if stays(e, name, now, drop_stale) {
            assert(all == rest.push(e));
            assert forall|i: int| 0 <= i < all.len() implies exists|j: int| 0 <= j < entries.len() && #[trigger] all[i] == entries[j] by {
                if i < rest.len() {
                    assert(all[i] == rest[i]);
                    let j = choose|j: int| 0 <= j < dl.len() && rest[i] == dl[j];
                    assert(entries[j] == dl[j]);
                } else {
                    assert(all[i] == entries[entries.len() - 1]);
                }
            }
            assert forall|a: int, b: int| 0 <= a < b < all.len() implies (#[trigger] all[a]).0@ != (#[trigger] all[b]).0@ by {
                assert(all[a] == rest[a]);
                if b < rest.len() {
                    assert(all[b] == rest[b]);
                }
            }
            assert forall|i: int| 0 <= i < all.len() implies (#[trigger] all[i]).0@ != name by {
                if i < rest.len() {
                    assert(all[i] == rest[i]);
                }
            }
            assert forall|k: Seq<char>| #[trigger] created_at(all, k) == match created_at(entries, k) {
                Some(c) => if k != name && (!drop_stale || fresh(c, now)) {
                    Some(c)
                } else {
                    None
                },
                None => None,
            } by {
                assert(all.drop_last() =~= rest);
                assert(all.last() == e);
                assert(entries.drop_last() == dl);
                if e.0@ != k {
                    assert(created_at(all, k) == created_at(rest, k));
                    assert(created_at(entries, k) == created_at(dl, k));
                }
            }
        } else {
            assert(all == rest);
            assert forall|k: Seq<char>| #[trigger] created_at(all, k) == match created_at(entries, k) {
                Some(c) => if k != name && (!drop_stale || fresh(c, now)) {
                    Some(c)
                } else {
                    None
                },
                None => None,
            } by {
                assert(entries.drop_last() == dl);
                if e.0@ != k {
                    assert(created_at(entries, k) == created_at(dl, k));
                }
            }
            assert forall|i: int| 0 <= i < all.len() implies exists|j: int| 0 <= j < entries.len() && #[trigger] all[i] == entries[j] by {
                let j = choose|j: int| 0 <= j < dl.len() && rest[i] == dl[j];
                assert(entries[j] == dl[j]);
            }
        }
    }
}

/// The store of issued tokens.
pub struct CsrfLayer {
    tokens: Vec<(String, u64)>,
}

impl CsrfLayer {
    /// When the token `k` was issued, where it is held.
    pub closed spec fn issued(&self, k: Seq<char>) -> Option<u64> {
        created_at(self.tokens@, k)
    }

    /// Each token is held at most once.
    pub closed spec fn wf(&self) -> bool {
        tokens_unique(self.tokens@)
    }

    /// An empty store.
    pub fn new() -> (r: CsrfLayer)
        ensures
            r.wf(),
            forall|k: Seq<char>| #[trigger] r.issued(k) is None,
    {
        CsrfLayer { tokens: Vec::new() }
    }

    /// When the token was issued, where it is held.
    pub fn issued_at(&self, token: &str) -> (r: Option<u64>)
        ensures
            r == self.issued(token@),
    {
        let mut i: usize = self.tokens.len();
        assert(self.tokens@.subrange(0, i as int) =~= self.tokens@);
        while i > 0
            invariant
                i <= self.tokens@.len(),
                created_at(self.tokens@, token@) == created_at(self.tokens@.subrange(0, i as int), token@),
            decreases i,
        {
            let ghost pre = self.tokens@.subrange(0, i as int);
            assert(pre.drop_last() =~= self.tokens@.subrange(0, i - 1));
            assert(pre.last() == self.tokens@[i - 1]);
            if text_eq(self.tokens[i - 1].0.as_str(), token) {
                return Some(self.tokens[i - 1].1);
            }
            i = i - 1;
        }
        None
    }

    fn keep(&mut self, name: &str, now_ms: u64, drop_stale: bool)
        requires
            old(self).wf(),
        ensures
            final(self).tokens@ == kept(old(self).tokens@, name@, now_ms, drop_stale),
    {
        let mut out: Vec<(String, u64)> = Vec::new();
        let mut i: usize = 0;
        assert(self.tokens@.subrange(0, 0) =~= Seq::<(String, u64)>::empty());
        while i < self.tokens.len()
            invariant
                i <= self.tokens@.len(),
                out@ == kept(self.tokens@.subrange(0, i as int), name@, now_ms, drop_stale),
            decreases self.tokens@.len() - i,
        {
            let ghost pre = self.tokens@.subrange(0, i + 1);
            assert(pre.drop_last() =~= self.tokens@.subrange(0, i as int));
            assert(pre.last() == self.tokens@[i as int]);
            let created = self.tokens[i].1;
            let is_fresh = if now_ms >= created { now_ms - created < TOKEN_LIFETIME_MS } else { true };
            if !text_eq(self.tokens[i].0.as_str(), name) && (!drop_stale || is_fresh) {
                let name_i = self.tokens[i].0.clone();
                out.push((name_i, created));
                assert(out@.last() == self.tokens@[i as int]);
            }
            i = i + 1;
        }
        assert(self.tokens@.subrange(0, self.tokens@.len() as int) =~= self.tokens@);
        self.tokens = out;
    }

    /// Holds a newly issued token and drops every stale one.
    pub fn store_token(&mut self, token: String, now_ms: u64)
        requires
            old(self).wf(),
        ensures
            final(self).wf(),
            forall|k: Seq<char>| #[trigger] final(self).issued(k) == if k == token@ {
                Some(now_ms)
            } else {
                match old(self).issued(k) {
                    Some(c) => if fresh(c, now_ms) {
                        Some(c)
                    } else {
                        None
                    },
                    None => None,
                }
            },
    {
        let ghost old_tokens = self.tokens@;
        proof {
            lemma_kept(self.tokens@, token@, now_ms, true);
        }
        self.keep(token.as_str(), now_ms, true);
        let ghost before = self.tokens@;
        let ghost t = token@;
        self.tokens.push((token, now_ms));
        proof {
            let after = self.tokens@;
            assert(after.drop_last() == before);
            assert forall|a: int, b: int| 0 <= a < b < after.len() implies (#[trigger] after[a]).0@ != (#[trigger] after[b]).0@ by {
                assert(after[a] == before[a]);
                if b < before.len() {
                    assert(after[b] == before[b]);
                }
            }
            assert forall|k: Seq<char>| #[trigger] created_at(after, k) == if k == t {
                Some(now_ms)
            } else {
                match created_at(old_tokens, k) {
                    Some(c) => if fresh(c, now_ms) {
                        Some(c)
                    } else {
                        None
                    },
                    None => None,
                }
            } by {
                if k != t {
                    assert(created_at(after, k) == created_at(before, k));
                    assert(created_at(before, k) == created_at(kept(old_tokens, t, now_ms, true), k));
                }
            }
        }
    }

    /// Accepts a token once: true where it is held and still fresh. A held
    /// token is dropped either way; the others stay.
    pub fn validate_token(&mut self, token: &str, now_ms: u64) -> (r: bool)
        requires
            old(self).wf(),
        ensures
            final(self).wf(),
            r == match old(self).issued(token@) {
                Some(c) => fresh(c, now_ms),
                None => false,
            },
            forall|k: Seq<char>| #[trigger] final(self).issued(k) == if k == token@ {
                None
            } else {
                old(self).issued(k)
            },
    {
        let found = self.issued_at(token);
        proof {
            lemma_kept(self.tokens@, token@, now_ms, false);
        }
        self.keep(token, now_ms, false);
        match found {
            Some(created) => if now_ms >= created {
                now_ms - created < TOKEN_LIFETIME_MS
            } else {
                true
            },
            None => false,
        }
    }

    /// Draws a new token of `TOKEN_LENGTH` characters of `TOKEN_ALPHABET`,
    /// holds it, and drops every stale one.
    pub fn generate_token(&mut self, now_ms: u64) -> (r: String)
        requires
            old(self).wf(),
        ensures
            final(self).wf(),
            r@.len() == TOKEN_LENGTH,
            forall|i: int| 0 <= i < r@.len() ==> TOKEN_ALPHABET@.contains(#[trigger] r@[i]),
            forall|k: Seq<char>| #[trigger] final(self).issued(k) == if k == r@ {
                Some(now_ms)
            } else {
                match old(self).issued(k) {
                    Some(c) => if fresh(c, now_ms) {
                        Some(c)
                    } else {
                        None
                    },
                    None => None,
                }
            },
    {
        proof {
            reveal_strlit("ABCDEFGHIJKLMNOPQRSTUVWXYZabcdefghijklmnopqrstuvwxyz0123456789");
        }
        let n = TOKEN_ALPHABET.unicode_len();
        let mut token = String::new();
        let mut i: usize = 0;
        while i < TOKEN_LENGTH
            invariant
                n == TOKEN_ALPHABET@.len(),
                n == 62,
                i <= TOKEN_LENGTH,
                token@.len() == i,
                forall|j: int| 0 <= j < i ==> TOKEN_ALPHABET@.contains(#[trigger] token@[j]),
            decreases TOKEN_LENGTH - i,
        {
            let at = random_below(n);
            let piece = TOKEN_ALPHABET.substring_char(at, at + 1);
            let ghost before = token@;
            token.append(piece);
            proof {
                assert(piece@ =~= seq![TOKEN_ALPHABET@[at as int]]);
                assert(token@ =~= before.push(TOKEN_ALPHABET@[at as int]));
                assert forall|j: int| 0 <= j < i + 1 implies TOKEN_ALPHABET@.contains(#[trigger] token@[j]) by {
                    if j == i {
                        assert(TOKEN_ALPHABET@[at as int] == token@[j]);
                    } else {
                        assert(token@[j] == before[j]);
                    }
                }
            }
            i = i + 1;
        }
        let held = token.clone();
        self.store_token(held, now_ms);
        token
    }

    /// The cookie value for a token.
    pub fn cookie(token: &str, secure: bool) -> (r: String)
        ensures
            r@ == cookie_text(token@, secure),
    {
        proof {
            reveal_strlit("; Secure");
        }
        let mut c = String::from_str("csrf-token=");
        c.append(token);
        c.append("; Path=/; SameSite=Strict");
        if secure {
            c.append("; Secure");
        } else {
            assert(c@ =~= c@ + Seq::<char>::empty());
        }
        c
    }

    /// Decides on a request: a GET gets a new token in a cookie; a
    /// state-changing request needs a token in its header that is accepted
    /// once; any other request passes.
    pub fn decide(&mut self, method: &str, header_token: Option<&str>, now_ms: u64, secure: bool) -> (r: CsrfDecision)
        requires
            old(self).wf(),
        ensures
            final(self).wf(),
            method@ == "GET"@ ==> r is Issue && ({
                let token = r->Issue_0@.subrange(11, 11 + TOKEN_LENGTH as int);
                &&& r->Issue_0@ == cookie_text(token, secure)
                &&& forall|i: int| 0 <= i < token.len() ==> TOKEN_ALPHABET@.contains(#[trigger] token[i])
                &&& final(self).issued(token) == Some(now_ms)
            }),
            needs_token(method@) && header_token is None ==> r is Missing && *final(self) == *old(self),
            needs_token(method@) && header_token is Some ==> ({
                let t = header_token->Some_0@;
                &&& (r is Pass) == match old(self).issued(t) {
                    Some(c) => fresh(c, now_ms),
                    None => false,
                }
                &&& (r is Pass || r is Invalid)
                &&& forall|k: Seq<char>| #[trigger] final(self).issued(k) == if k == t {
                    None
                } else {
                    old(self).issued(k)
                }
            }),
            method@ != "GET"@ && !needs_token(method@) ==> r is Pass && *final(self) == *old(self),
    {
        proof {
            reveal_strlit("GET");
            reveal_strlit("POST");
            reveal_strlit("PUT");
            reveal_strlit("DELETE");
            reveal_strlit("PATCH");
            reveal_strlit("csrf-token=");
        }
        if text_eq(method, "GET") {
            let token = self.generate_token(now_ms);
            let c = CsrfLayer::cookie(token.as_str(), secure);
            proof {
                assert(c@.subrange(11, 11 + TOKEN_LENGTH as int) =~= token@);
                assert(!needs_token(method@)) by {
                    assert(method@[0] == 'G');
                    assert("POST"@[0] == 'P' && "PUT"@[0] == 'P' && "PATCH"@[0] == 'P' && "DELETE"@[0] == 'D');
                }
            }
            return CsrfDecision::Issue(c);
        }
        let changes = text_eq(method, "POST") || text_eq(method, "PUT") || text_eq(method, "DELETE")
            || text_eq(method, "PATCH");
        if !changes {
            return CsrfDecision::Pass;
        }
        match header_token {
            Some(t) => if self.validate_token(t, now_ms) {
                CsrfDecision::Pass
            } else {
                CsrfDecision::Invalid
            },
            None => CsrfDecision::Missing,
        }
    }
}

} // verus!
