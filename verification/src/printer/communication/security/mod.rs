//! This module provides security functionality for communications with external systems: the
//! requests are checked by layers of protection.
pub mod ip_address;
pub mod password;

pub use self::ip_address::{BlackListProtection, GetIpAddress, IpAddress, WhiteListProtection};
pub use self::password::{BruteForceProtection, PasswordProtection};

use argon2::password_hash::Error;
use vstd::prelude::*;

use self::password::{
    spec_hashed_with_a_pepper, spec_password_matches, BruteForceAttempt, PasswordAttempt,
};

verus! {

/// A layer of security for communication with external systems.
pub trait Protection {
    /// The data of a request checked by the protection.
    type Input;

    /// Whether the protection, in its state, can check `input`.
    spec fn spec_can_check(&self, input: Self::Input) -> bool;

    /// Checks if the input passes the protection criteria.
    fn can_pass(&mut self, input: Self::Input) -> (passes: bool)
        requires
            old(self).spec_can_check(input),
    ;
}

/// Possible errors of the creation of the security mechanisms: that of the hashing of the password.
#[derive(Debug)]
pub enum CreationError {
    PasswordProtection(Error),
    BruteForceProtection(Error),
}

/// Configuration settings of the [`Security`].
pub struct Configuration {
    pub password: PasswordConfiguration,
}

/// The ways to protect the requests with a password. The `peppers` are the secrets of the hashing
/// of the password: there is at least one.
pub enum PasswordConfiguration {
    NoPassword,
    Password { password: String, peppers: Vec<String> },
    PasswordAndBruteforce {
        password: String,
        peppers: Vec<String>,
        delays_and_wrong_attempts_count_for_it: Vec<(u32, u128)>,
    },
}

impl PasswordConfiguration {
    /// The configuration has at least one pepper wherever it has a password.
    pub open spec fn spec_is_valid(&self) -> bool {
        match self {
            PasswordConfiguration::NoPassword => true,
            PasswordConfiguration::Password { peppers, .. } => peppers.len() > 0,
            PasswordConfiguration::PasswordAndBruteforce { peppers, .. } => peppers.len() > 0,
        }
    }
}

/// The security mechanisms of the requests: a password protection, with or without a protection
/// against brute force attacks.
pub struct Security {
    password_protection: Option<PasswordProtection>,
    brute_force_protection: Option<BruteForceProtection>,
}

/// Whether `protection` is the protection of `password` with `peppers`, made by
/// [`PasswordProtection::new`].
pub open spec fn spec_protects(
    protection: PasswordProtection,
    password: Seq<char>,
    peppers: Seq<String>,
) -> bool {
    &&& protection.spec_peppers() == peppers.map_values(|pepper: String| pepper@)
    &&& spec_hashed_with_a_pepper(protection.spec_peppers(), password, protection.spec_hashed_password())
}

impl Security {
    /// The password protection without a protection against brute force attacks, if any.
    pub closed spec fn spec_password_protection(&self) -> Option<PasswordProtection> {
        self.password_protection
    }

    /// The password protection against brute force attacks, if any.
    pub closed spec fn spec_brute_force_protection(&self) -> Option<BruteForceProtection> {
        self.brute_force_protection
    }

    /// Whether a request whose password comes at `current_time` can be checked.
    pub open spec fn spec_can_check(&self, current_time: Option<u128>) -> bool {
        self.spec_brute_force_protection() matches Some(protection) ==> (current_time matches Some(
            time,
        ) ==> protection.spec_can_check_at(time))
    }

    /// Creates the security mechanisms of `configuration`.
    pub fn new(configuration: Configuration) -> (security: Result<Self, CreationError>)
        requires
            configuration.password.spec_is_valid(),
        ensures
            match configuration.password {
                PasswordConfiguration::NoPassword => security matches Ok(security) && {
                    &&& security.spec_password_protection() is None
                    &&& security.spec_brute_force_protection() is None
                },
                PasswordConfiguration::Password { password, peppers } => match security {
                    Ok(security) => {
                        &&& security.spec_brute_force_protection() is None
                        &&& security.spec_password_protection() matches Some(protection)
                            && spec_protects(protection, password@, peppers@)
                    },
                    Err(error) => error is PasswordProtection,
                },
                PasswordConfiguration::PasswordAndBruteforce {
                    password,
                    peppers,
                    delays_and_wrong_attempts_count_for_it,
                } => match security {
                    Ok(security) => {
                        &&& security.spec_password_protection() is None
                        &&& security.spec_brute_force_protection() matches Some(protection) && {
                            &&& spec_protects(protection.spec_password_protection(), password@, peppers@)
                            &&& protection.spec_last_attempt_time() is None
                            &&& protection.spec_consecutive_wrong_attempts() == 0
                            &&& protection.spec_delays() == delays_and_wrong_attempts_count_for_it@
                        }
                    },
                    Err(error) => error is BruteForceProtection,
                },
            },
    {
        match configuration.password {
            PasswordConfiguration::NoPassword => Ok(Self { password_protection: None, brute_force_protection: None }),
            PasswordConfiguration::Password { password, peppers } => {
                match PasswordProtection::new(password.as_str(), peppers) {
                    Ok(protection) => Ok(
                        Self { password_protection: Some(protection), brute_force_protection: None },
                    ),
                    Err(error) => Err(CreationError::PasswordProtection(error)),
                }
            },
            PasswordConfiguration::PasswordAndBruteforce {
                password,
                peppers,
                delays_and_wrong_attempts_count_for_it,
            } => {
                match PasswordProtection::new(password.as_str(), peppers) {
                    Ok(protection) => Ok(
                        Self {
                            password_protection: None,
                            brute_force_protection: Some(
                                BruteForceProtection::new(protection, delays_and_wrong_attempts_count_for_it),
                            ),
                        },
                    ),
                    Err(error) => Err(CreationError::BruteForceProtection(error)),
                }
            },
        }
    }

    /// Validates a request against the security criteria: `password` is the password that it
    /// carries, `current_time` the time of the printer, in nanoseconds, if it has one. A protection
    /// that lacks its input refuses the request; the protection against brute force attacks is only
    /// reached when the password protection let the request pass.
    pub fn can_pass(&mut self, password: Option<&str>, current_time: Option<u128>) -> (passes: bool)
        requires
            old(self).spec_can_check(current_time),
        ensures
            ({
                let password_passes = match old(self).spec_password_protection() {
                    Some(protection) => password matches Some(password) && spec_password_matches(
                        protection.spec_peppers(),
                        password@,
                        protection.spec_hashed_password(),
                    ),
                    None => true,
                };
                &&& final(self).spec_password_protection() == old(self).spec_password_protection()
                &&& passes == (password_passes && match old(self).spec_brute_force_protection() {
                    Some(protection) => password matches Some(password) && current_time matches Some(
                        time,
                    ) && protection.spec_is_attempt_allowed(time) && protection.spec_password_passes(
                        password@,
                    ),
                    None => true,
                })
                &&& final(self).spec_brute_force_protection() == if password_passes {
                    match (old(self).spec_brute_force_protection(), password, current_time) {
                        (Some(protection), Some(password), Some(time)) => Some(
                            protection.spec_after_attempt(time, protection.spec_password_passes(password@)),
                        ),
                        _ => old(self).spec_brute_force_protection(),
                    }
                } else {
                    old(self).spec_brute_force_protection()
                }
            }),
    {
        if let Some(protection) = &mut self.password_protection {
            match password {
                Some(password) => {
                    if !protection.can_pass(PasswordAttempt(password.to_owned())) {
                        return false;
                    }
                },
                None => return false,
            }
        }
        if let Some(protection) = &mut self.brute_force_protection {
            match (password, current_time) {
                (Some(password), Some(current_time)) => {
                    let attempt = BruteForceAttempt {
                        password: PasswordAttempt(password.to_owned()),
                        current_time,
                    };
                    if !protection.can_pass(attempt) {
                        return false;
                    }
                },
                _ => return false,
            }
        }
        true
    }
}

} // verus!
