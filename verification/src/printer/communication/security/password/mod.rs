//! Protection of the requests by a password.
//!
//! The password is never kept: only its Argon2 hash is, computed with one of the secret peppers of
//! the printer picked at random. A password attempt passes when the Argon2 hasher of one of the
//! peppers finds it matching the hash.
pub mod brute_force;

pub use self::brute_force::{BruteForceAttempt, BruteForceProtection};

use std::str::FromStr;

use argon2::password_hash::{Error, PasswordHash, PasswordHashString, SaltString};
use argon2::{Algorithm, Argon2, Params, PasswordHasher, PasswordVerifier};
use rand_core::{OsRng, RngCore};
use vstd::prelude::*;

use super::Protection;

verus! {

/// The error of the `password-hash` crate, re-exported by `argon2`.
#[verifier::external_type_specification]
#[verifier::external_body]
pub struct ExPasswordHashError(Error);

/// The error of the `argon2` crate.
#[verifier::external_type_specification]
#[verifier::external_body]
pub struct ExArgon2Error(argon2::Error);

/// A salt of a password hash, in its B64 encoding.
#[verifier::external_type_specification]
#[verifier::external_body]
pub struct ExSaltString(SaltString);

/// The parameters of the Argon2 algorithm.
#[verifier::external_type_specification]
#[verifier::external_body]
pub struct ExArgon2Params(Params);

/// The canonical PHC string that `PasswordHashString` keeps of the password hash written in
/// `text`, or `None` where `text` isn't a valid PHC string.
pub uninterp spec fn phc_canonical_string(text: Seq<char>) -> Option<Seq<char>>;

/// Whether the Argon2 hasher with the secret `pepper` finds `password` matching the PHC string
/// `hash`.
pub uninterp spec fn argon2_verifies(pepper: Seq<char>, password: Seq<char>, hash: Seq<char>) -> bool;

/// The memory cost, in KiB, of the hashing of a new password.
pub const HASH_MEMORY_COST: u32 = 8;

/// The number of iterations of the hashing of a new password.
pub const HASH_ITERATIONS: u32 = 2;

/// The degree of parallelism of the hashing of a new password.
pub const HASH_PARALLELISM: u32 = 1;

/// The length in bytes of the hash of a new password.
pub const HASH_OUTPUT_LEN: usize = 32;

/// The longest secret that the Argon2 hasher takes, in bytes.
pub const MAX_PEPPER_LEN: usize = 0xFFFF_FFFF;

/// Whether the Argon2 hasher takes `pepper` as its secret: its UTF-8 encoding has at most
/// [`MAX_PEPPER_LEN`] bytes.
pub open spec fn spec_pepper_fits(pepper: Seq<char>) -> bool {
    vstd::utf8::encode_utf8(pepper).len() <= MAX_PEPPER_LEN
}

/// Whether `password` passes against `hash`: the peppers are tried in their order, the first one
/// that the hasher doesn't take ends the search, and one of the peppers tried makes the password
/// match the hash.
pub open spec fn spec_password_matches(
    peppers: Seq<Seq<char>>,
    password: Seq<char>,
    hash: Seq<char>,
) -> bool {
    exists|k: int|
        #![trigger argon2_verifies(peppers[k], password, hash)]
        0 <= k < peppers.len() && (forall|j: int| 0 <= j <= k ==> spec_pepper_fits(
            #[trigger] peppers[j],
        )) && argon2_verifies(peppers[k], password, hash)
}

/// Whether `hash` was made from `password` with one of the `peppers`, where the hasher takes
/// that pepper.
pub open spec fn spec_hashed_with_a_pepper(
    peppers: Seq<Seq<char>>,
    password: Seq<char>,
    hash: Seq<char>,
) -> bool {
    exists|k: int|
        #![trigger peppers[k]]
        0 <= k < peppers.len() && (spec_pepper_fits(peppers[k]) ==> argon2_verifies(
            peppers[k],
            password,
            hash,
        ))
}

/// The password hash that the string `text` holds, parsed by `PasswordHashString::from_str` of the
/// `password-hash` crate; the result is the string that the parsed hash keeps (`as_str`), or the
/// error of the parsing. Both are functions of `text` alone.
#[verifier::external_body]
fn parse_password_hash(text: &str) -> (parsed: Result<String, Error>)
    ensures
        parsed matches Ok(hash) ==> phc_canonical_string(text@) == Some(hash@),
        parsed is Err ==> phc_canonical_string(text@) is None,
{
    match PasswordHashString::from_str(text) {
        Ok(hash) => Ok(hash.as_str().to_string()),
        Err(error) => Err(error),
    }
}

/// Checks `password` against the PHC string `hash` with `PasswordVerifier::verify_password` of the
/// hasher made by `Argon2::new_with_secret` with `pepper` as its secret. The verification takes
/// the algorithm, the version and the parameters from `hash`, so those of the hasher play no part.
/// The result is `None` where `new_with_secret` refuses the secret, which its source shows it does
/// exactly when the secret is longer than `argon2::MAX_SECRET_LEN` bytes; a `hash` that
/// `PasswordHash::new` can't parse doesn't match.
#[verifier::external_body]
fn verify_with_pepper(pepper: &str, password: &str, hash: &str) -> (matches: Option<bool>)
    ensures
        matches is None <==> !spec_pepper_fits(pepper@),
        matches matches Some(m) ==> m == argon2_verifies(pepper@, password@, hash@),
{
    let hasher = match Argon2::new_with_secret(
        pepper.as_bytes(),
        Algorithm::default(),
        argon2::Version::default(),
        Params::default(),
    ) {
        Ok(hasher) => hasher,
        Err(_) => return None,
    };
    match PasswordHash::new(hash) {
        Ok(hash) => Some(hasher.verify_password(password.as_bytes(), &hash).is_ok()),
        Err(_) => Some(false),
    }
}

/// The Argon2 parameters made by `Params::new` of `argon2`, whose source refuses them exactly when
/// one of the bounds of its documentation is broken.
#[verifier::external_body]
fn hashing_params(
    memory_cost: u32,
    iterations: u32,
    parallelism: u32,
    output_len: Option<usize>,
) -> (params: Result<Params, argon2::Error>)
    requires
        parallelism <= 0xFF_FFFF,
    ensures
        params is Ok <==> (8 <= memory_cost && parallelism * 8 <= memory_cost && 1 <= iterations
            && 1 <= parallelism <= 0xFF_FFFF && (output_len matches Some(len) ==> 4 <= len
            <= 0xFFFF_FFFF)),
{
    Params::new(memory_cost, iterations, parallelism, output_len)
}

/// A random salt: `Salt::RECOMMENDED_LENGTH` bytes from `OsRng::try_fill_bytes` of `rand_core`,
/// encoded by `SaltString::encode_b64`. Where the operating system gives no random bytes, the
/// result is `Err(Error::Crypto)`. Nothing is stated of the salt: it is random.
#[verifier::external_body]
fn random_salt() -> (salt: Result<SaltString, Error>) {
    let mut bytes = [0u8; argon2::password_hash::Salt::RECOMMENDED_LENGTH];
    match OsRng.try_fill_bytes(&mut bytes) {
        Ok(()) => SaltString::encode_b64(&bytes),
        Err(_) => Err(Error::Crypto),
    }
}

/// The hash, as its PHC string, of `password` by the hasher made by `Argon2::new_with_secret` with
/// `pepper` as its secret and `params`, with `salt`. Whatever the salt, the source shows that the
/// same secret verifies the password against the hash (the verification recomputes the hash with
/// the salt and parameters written in it).
#[verifier::external_body]
fn hash_with_pepper(pepper: &str, password: &str, params: Params, salt: &SaltString) -> (hash: Result<String, Error>)
    requires
        spec_pepper_fits(pepper@),
    ensures
        hash matches Ok(hash) ==> argon2_verifies(pepper@, password@, hash@),
{
    let hasher = Argon2::new_with_secret(
        pepper.as_bytes(),
        Algorithm::default(),
        argon2::Version::default(),
        params,
    ).map_err(Error::from)?;
    Ok(hasher.hash_password(password.as_bytes(), salt)?.serialize().as_str().to_string())
}

/// The hash, as its PHC string, of `password` by `Argon2::default()` (no secret), with `salt`.
/// Nothing is stated of the hash.
#[verifier::external_body]
fn hash_without_pepper(password: &str, salt: &SaltString) -> (hash: Result<String, Error>) {
    Ok(Argon2::default().hash_password(password.as_bytes(), salt)?.serialize().as_str().to_string())
}

/// A random number made of two bytes from `OsRng::try_fill_bytes` of `rand_core`, read with
/// `u16::from_ne_bytes`; where the operating system gives no random bytes, they stay `[0, 3]`.
/// Nothing is stated of it.
#[verifier::external_body]
fn random_u16() -> u16 {
    let mut bytes = [0u8, 3u8];
    let _ = OsRng.try_fill_bytes(&mut bytes);
    u16::from_ne_bytes(bytes)
}

/// Returns whether the Argon2 hasher takes `pepper` as its secret.
fn pepper_fits(pepper: &String) -> (fits: bool)
    ensures
        fits == spec_pepper_fits(pepper@),
{
    pepper.as_str().as_bytes().len() <= MAX_PEPPER_LEN
}

/// Protects the requests with a password, kept as its Argon2 hash.
///
/// The hash is made with one of the secret `peppers` of the printer.
pub struct PasswordProtection {
    hashed_password: String,
    peppers: Vec<String>,
}

/// An attempt of a password.
pub struct PasswordAttempt(pub String);

impl PasswordProtection {
    /// The PHC string of the hash of the password.
    pub closed spec fn spec_hashed_password(&self) -> Seq<char> {
        self.hashed_password@
    }

    /// The secret peppers of the hasher.
    pub closed spec fn spec_peppers(&self) -> Seq<Seq<char>> {
        self.peppers@.map_values(|pepper: String| pepper@)
    }

    /// Creates the protection of `password`, hashed with a random salt and a pepper picked at
    /// random among `peppers` (where the hasher doesn't take that pepper, the password is hashed
    /// without a pepper). The error is that of the making of the salt or of the hashing.
    pub fn new(password: &str, peppers: Vec<String>) -> (protection: Result<Self, Error>)
        requires
            peppers.len() > 0,
        ensures
            protection matches Ok(protection) ==> {
                &&& protection.spec_peppers() == peppers@.map_values(|pepper: String| pepper@)
                &&& spec_hashed_with_a_pepper(
                    protection.spec_peppers(),
                    password@,
                    protection.spec_hashed_password(),
                )
            },
    {
        let salt = match random_salt() {
            Ok(salt) => salt,
            Err(error) => return Err(error),
        };
        let index = random_u16() as usize % peppers.len();
        let hash = if pepper_fits(&peppers[index]) {
            let params = match hashing_params(
                HASH_MEMORY_COST,
                HASH_ITERATIONS,
                HASH_PARALLELISM,
                Some(HASH_OUTPUT_LEN),
            ) {
                Ok(params) => params,
                Err(_) => vstd::pervasive::unreached(),
            };
            hash_with_pepper(peppers[index].as_str(), password, params, &salt)
        } else {
            hash_without_pepper(password, &salt)
        };
        match hash {
            Ok(hashed_password) => {
                let protection = Self { hashed_password, peppers };
                proof {
                    let views = protection.spec_peppers();
                    assert(views[index as int] == peppers@[index as int]@);
                }
                Ok(protection)
            },
            Err(error) => Err(error),
        }
    }

    /// Creates the protection from the PHC string `bytes` of a password hash, as
    /// [`PasswordProtection::to_bytes`] gives it. The error is that of the parsing of the string.
    pub fn from_bytes(bytes: &str, peppers: Vec<String>) -> (protection: Result<Self, Error>)
        ensures
            protection is Ok <==> phc_canonical_string(bytes@) is Some,
            protection matches Ok(protection) ==> {
                &&& Some(protection.spec_hashed_password()) == phc_canonical_string(bytes@)
                &&& protection.spec_peppers() == peppers@.map_values(|pepper: String| pepper@)
            },
    {
        match parse_password_hash(bytes) {
            Ok(hashed_password) => Ok(Self { hashed_password, peppers }),
            Err(error) => Err(error),
        }
    }

    /// The PHC string of the hash of the password, as UTF-8 bytes.
    pub fn to_bytes(&self) -> (bytes: &[u8])
        ensures
            bytes@ == vstd::utf8::encode_utf8(self.spec_hashed_password()),
    {
        self.hashed_password.as_str().as_bytes()
    }

    /// Returns whether `password` matches the hash, by [`spec_password_matches`].
    fn password_matches(&self, password: &str) -> (matches: bool)
        ensures
            matches == spec_password_matches(
                self.spec_peppers(),
                password@,
                self.spec_hashed_password(),
            ),
    {
        let ghost peppers = self.spec_peppers();
        let mut i: usize = 0;
        while i < self.peppers.len()
            invariant
                i <= self.peppers@.len(),
                peppers == self.spec_peppers(),
                forall|j: int| 0 <= j < i ==> spec_pepper_fits(#[trigger] peppers[j]),
                forall|j: int|
                    0 <= j < i ==> !argon2_verifies(
                        #[trigger] peppers[j],
                        password@,
                        self.spec_hashed_password(),
                    ),
            decreases self.peppers@.len() - i,
        {
            assert(peppers[i as int] == self.peppers@[i as int]@);
            match verify_with_pepper(self.peppers[i].as_str(), password, self.hashed_password.as_str()) {
                None => {
                    assert(!spec_password_matches(peppers, password@, self.spec_hashed_password()))
                        by {
                        if spec_password_matches(peppers, password@, self.spec_hashed_password()) {
                            let k = choose|k: int|
                                #![trigger argon2_verifies(peppers[k], password@, self.spec_hashed_password())]
                                0 <= k < peppers.len() && (forall|j: int|
                                    0 <= j <= k ==> spec_pepper_fits(#[trigger] peppers[j]))
                                    && argon2_verifies(peppers[k], password@, self.spec_hashed_password());
                            if k < i {
                                assert(!argon2_verifies(peppers[k], password@, self.spec_hashed_password()));
                            } else {
                                assert(spec_pepper_fits(peppers[i as int]));
                            }
                        }
                    }
                    return false;
                },
                Some(true) => {
                    assert(argon2_verifies(peppers[i as int], password@, self.spec_hashed_password()));
                    return true;
                },
                Some(false) => {},
            }
            i = i + 1;
        }
        assert(!spec_password_matches(peppers, password@, self.spec_hashed_password())) by {
            if spec_password_matches(peppers, password@, self.spec_hashed_password()) {
                let k = choose|k: int|
                    #![trigger argon2_verifies(peppers[k], password@, self.spec_hashed_password())]
                    0 <= k < peppers.len() && (forall|j: int|
                        0 <= j <= k ==> spec_pepper_fits(#[trigger] peppers[j]))
                        && argon2_verifies(peppers[k], password@, self.spec_hashed_password());
                assert(!argon2_verifies(peppers[k], password@, self.spec_hashed_password()));
            }
        }
        false
    }
}

impl Protection for PasswordProtection {
    type Input = PasswordAttempt;

    open spec fn spec_can_check(&self, input: PasswordAttempt) -> bool {
        true
    }

    fn can_pass(&mut self, input: PasswordAttempt) -> (passes: bool)
        ensures
            passes == spec_password_matches(
                old(self).spec_peppers(),
                input.0@,
                old(self).spec_hashed_password(),
            ),
            *final(self) == *old(self),
    {
        self.password_matches(input.0.as_str())
    }
}

/// A password protection created from a password accepts that password, when the hasher takes all
/// its peppers.
pub proof fn lemma_protection_accepts_its_password(
    peppers: Seq<Seq<char>>,
    password: Seq<char>,
    hash: Seq<char>,
)
    requires
        spec_hashed_with_a_pepper(peppers, password, hash),
        forall|j: int| 0 <= j < peppers.len() ==> spec_pepper_fits(#[trigger] peppers[j]),
    ensures
        spec_password_matches(peppers, password, hash),
{
    let k = choose|k: int|
        #![trigger peppers[k]]
        0 <= k < peppers.len() && (spec_pepper_fits(peppers[k]) ==> argon2_verifies(
            peppers[k],
            password,
            hash,
        ));
    assert(argon2_verifies(peppers[k], password, hash));
}

} // verus!
