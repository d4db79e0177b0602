//! Checking a presented password against the configured one, with a cache of
//! plaintexts that a configured hash has already accepted.

use vstd::prelude::*;

use crate::token::verify_password;

verus! {

/// The configured password: a plaintext, or a password hash in PHC string
/// format.
#[derive(Clone)]
pub enum Password {
    Plain(String),
    Hash(String),
}

/// Whether the password-hashing verification accepts `password` for the hash
/// `hash` (a PHC string).
pub uninterp spec fn hash_accepts(password: Seq<char>, hash: Seq<char>) -> bool;

#[verifier::external_type_specification]
#[verifier::external_body]
pub struct ExPasswordHashError(password_hash::Error);

/// Why hashing a password failed.
#[derive(Debug)]
pub struct HashPasswordError(pub password_hash::Error);

/// Relies on argon2's `PasswordVerifier::verify_password` with
/// `Argon2::default()`, after parsing the PHC string with
/// `PasswordHash::new`; a string that does not parse accepts nothing. The
/// outcome depends on the two strings alone.
#[verifier::external_body]
fn argon2_verify(password: &str, hash: &str) -> (r: bool)
    ensures
        r == hash_accepts(password@, hash@),
{
    match password_hash::PasswordHash::new(hash) {
        Ok(parsed) => password_hash::PasswordVerifier::verify_password(
            &argon2::Argon2::default(),
            password.as_bytes(),
            &parsed,
        ).is_ok(),
        Err(_) => false,
    }
}

/// Relies on argon2's `PasswordHasher::hash_password` with
/// `Argon2::default()` and a salt from `SaltString::generate` over rand's
/// thread generator: the PHC string of the hash, which the verification
/// accepts for the same password.
#[verifier::external_body]
fn argon2_hash(password: &str) -> (r: Result<String, password_hash::Error>)
    ensures
        r is Ok ==> hash_accepts(password@, r->Ok_0@),
{
    let salt = password_hash::SaltString::generate(rand::thread_rng());
    password_hash::PasswordHasher::hash_password(
        &argon2::Argon2::default(),
        password.as_bytes(),
        &salt,
    ).map(
        |hash| hash.serialize().as_str().to_string(),
    )
}

/// Hashes a password with a fresh random salt (Argon2, default cost), for
/// use as a configured `Password::Hash`.
pub fn hash_password(input: &str) -> (r: Result<String, HashPasswordError>)
    ensures
        r is Ok ==> hash_accepts(input@, r->Ok_0@),
{
    match argon2_hash(input) {
        Ok(hash) => Ok(hash),
        Err(e) => Err(HashPasswordError(e)),
    }
}

/// The plaintext cached for `hash`: the first entry with that hash.
pub open spec fn cache_lookup(cache: Seq<(Seq<char>, Seq<char>)>, hash: Seq<char>) -> Option<
    Seq<char>,
>
    decreases cache.len(),
{
    if cache.len() == 0 {
        None
    } else if cache[0].0 == hash {
        Some(cache[0].1)
    } else {
        cache_lookup(cache.drop_first(), hash)
    }
}

/// Checking `input` against `configured` with the cache `cache`: the outcome
/// and the cache afterwards. A plaintext is compared as it is. For a hash,
/// a cached plaintext is compared instead of hashing; without one, the
/// hash verification decides, and a plaintext it accepts is cached.
pub open spec fn password_check(
    cache: Seq<(Seq<char>, Seq<char>)>,
    input: Seq<char>,
    configured: Password,
) -> (bool, Seq<(Seq<char>, Seq<char>)>) {
    match configured {
        Password::Plain(p) => (input == p@, cache),
        Password::Hash(h) => match cache_lookup(cache, h@) {
            Some(cached) => (input == cached, cache),
            None => if hash_accepts(input, h@) {
                (true, cache.push((h@, input)))
            } else {
                (false, cache)
            },
        },
    }
}

/// Adding an entry for a hash that had none makes it the one found.
pub proof fn lemma_lookup_push(cache: Seq<(Seq<char>, Seq<char>)>, hash: Seq<char>, plain: Seq<char>)
    requires
        cache_lookup(cache, hash) is None,
    ensures
        cache_lookup(cache.push((hash, plain)), hash) == Some(plain),
    decreases cache.len(),
{
    if cache.len() > 0 {
        assert(cache.push((hash, plain)).drop_first() =~= cache.drop_first().push((hash, plain)));
        lemma_lookup_push(cache.drop_first(), hash, plain);
    }
}

/// With a configured hash, checking a plaintext that the hash accepts gives
/// true, and checking it again right after gives true too, now answered from
/// the cache, which holds that plaintext for the hash; a checker with an
/// empty cache accepts the plaintext as well. (The cache must not already
/// hold another plaintext for the hash.)
pub proof fn lemma_hash_check_repeats(
    cache: Seq<(Seq<char>, Seq<char>)>,
    input: Seq<char>,
    hash: String,
)
    requires
        hash_accepts(input, hash@),
        cache_lookup(cache, hash@) is None || cache_lookup(cache, hash@) == Some(input),
    ensures
        ({
            let first = password_check(cache, input, Password::Hash(hash));
            let second = password_check(first.1, input, Password::Hash(hash));
            &&& first.0
            &&& second.0
            &&& cache_lookup(first.1, hash@) == Some(input)
            &&& password_check(Seq::empty(), input, Password::Hash(hash)).0
        }),
{
    if cache_lookup(cache, hash@) is None {
        lemma_lookup_push(cache, hash@, input);
    }
}

/// Every cached plaintext is one that its hash accepts.
pub open spec fn cache_accepted(cache: Seq<(Seq<char>, Seq<char>)>) -> bool {
    forall|i: int| 0 <= i < cache.len() ==> hash_accepts(#[trigger] cache[i].1, cache[i].0)
}

/// No hash has two entries in the cache.
pub open spec fn cache_keys_unique(cache: Seq<(Seq<char>, Seq<char>)>) -> bool {
    forall|i: int, j: int| 0 <= i < j < cache.len() ==> #[trigger] cache[i].0 != #[trigger] cache[j].0
}

/// A hash that the cache finds nothing for has no entry at all.
pub proof fn lemma_lookup_none(cache: Seq<(Seq<char>, Seq<char>)>, hash: Seq<char>)
    requires
        cache_lookup(cache, hash) is None,
    ensures
        forall|i: int| 0 <= i < cache.len() ==> #[trigger] cache[i].0 != hash,
    decreases cache.len(),
{
    if cache.len() > 0 {
        lemma_lookup_none(cache.drop_first(), hash);
        assert forall|i: int| 0 <= i < cache.len() implies #[trigger] cache[i].0 != hash by {
            if i > 0 {
                assert(cache[i] == cache.drop_first()[i - 1]);
            }
        }
    }
}

/// A plaintext that a sound cache holds for a hash is accepted by a checker
/// whose cache is empty: the cache only ever answers as the hash would.
pub proof fn lemma_cached_plaintext_accepted_cold(
    cache: Seq<(Seq<char>, Seq<char>)>,
    hash: String,
    plain: Seq<char>,
)
    requires
        cache_accepted(cache),
        cache_lookup(cache, hash@) == Some(plain),
    ensures
        password_check(Seq::empty(), plain, Password::Hash(hash)).0,
    decreases cache.len(),
{
    if cache[0].0 != hash@ {
        assert forall|i: int| 0 <= i < cache.drop_first().len() implies hash_accepts(
            #[trigger] cache.drop_first()[i].1,
            cache.drop_first()[i].0,
        ) by {
            assert(cache.drop_first()[i] == cache[i + 1]);
        }
        lemma_cached_plaintext_accepted_cold(cache.drop_first(), hash, plain);
    }
}

/// Checks presented passwords against the configured one.
pub struct PasswordChecker {
    hash_cache: Vec<(String, String)>,
}

impl View for PasswordChecker {
    type V = Seq<(Seq<char>, Seq<char>)>;

    closed spec fn view(&self) -> Seq<(Seq<char>, Seq<char>)> {
        self.hash_cache@.map_values(|e: (String, String)| (e.0@, e.1@))
    }
}

impl PasswordChecker {
    /// Every cached plaintext is one that its hash accepts, and each hash
    /// has one entry.
    #[verifier::type_invariant]
    spec fn inv(&self) -> bool {
        &&& cache_accepted(self@)
        &&& cache_keys_unique(self@)
    }

    /// A checker with an empty cache.
    pub fn new() -> (r: PasswordChecker)
        ensures
            r@ == Seq::<(Seq<char>, Seq<char>)>::empty(),
    {
        let r = PasswordChecker { hash_cache: Vec::new() };
        assert(r@ =~= Seq::<(Seq<char>, Seq<char>)>::empty());
        r
    }

    /// The plaintext cached for `hash`, if any.
    fn lookup(&self, hash: &String) -> (r: Option<&String>)
        ensures
            match r {
                Some(p) => cache_lookup(self@, hash@) == Some(p@) && hash_accepts(p@, hash@),
                None => cache_lookup(self@, hash@) is None,
            },
    {
        proof {
            use_type_invariant(self);
        }
        let mut i: usize = 0;
        assert(self@.subrange(0, self@.len() as int) =~= self@);
        while i < self.hash_cache.len()
            invariant
                i <= self.hash_cache@.len(),
                cache_accepted(self@),
                cache_lookup(self@, hash@) == cache_lookup(self@.subrange(i as int, self@.len() as int), hash@),
            decreases self.hash_cache@.len() - i,
        {
            let ghost rest = self@.subrange(i as int, self@.len() as int);
            assert(rest[0] == self@[i as int]);
            assert(rest.drop_first() =~= self@.subrange(i + 1, self@.len() as int));
            if self.hash_cache[i].0 == *hash {
                assert(self@[i as int] == (self.hash_cache@[i as int].0@, self.hash_cache@[i as int].1@));
                return Some(&self.hash_cache[i].1);
            }
            i = i + 1;
        }
        None
    }

    /// Checks `input` against `configured`; see `password_check`.
    pub fn check_password(&mut self, input: &str, configured: &Password) -> (r: bool)
        ensures
            (r, final(self)@) == password_check(old(self)@, input@, *configured),
            cache_accepted(old(self)@) && cache_keys_unique(old(self)@),
            cache_accepted(final(self)@) && cache_keys_unique(final(self)@),
    {
        proof {
            use_type_invariant(&*self);
        }
        match configured {
            Password::Plain(p) => verify_password(input, p.as_str()),
            Password::Hash(h) => {
                match self.lookup(h) {
                    Some(cached) => {
                        return verify_password(input, cached.as_str());
                    },
                    None => {},
                }
                if argon2_verify(input, h.as_str()) {
                    let ghost old_view = self@;
                    let entry = (h.clone(), String::from_str(input));
                    let mut cache: Vec<(String, String)> = Vec::new();
                    std::mem::swap(&mut cache, &mut self.hash_cache);
                    cache.push(entry);
                    let ghost new_view = cache@.map_values(|e: (String, String)| (e.0@, e.1@));
                    proof {
                        lemma_lookup_none(old_view, h@);
                        assert(new_view =~= old_view.push((h@, input@)));
                        assert(cache_accepted(new_view));
                        assert(cache_keys_unique(new_view));
                    }
                    self.hash_cache = cache;
                    assert(self@ =~= old_view.push((h@, input@)));
                    true
                } else {
                    false
                }
            },
        }
    }
}

} // verus!
