//! Protection of a password against brute force attacks.
use vstd::prelude::*;

use super::{spec_password_matches, PasswordAttempt, PasswordProtection};
use crate::printer::communication::security::Protection;

verus! {

/// The delay imposed after `wrong_attempts` consecutive wrong attempts: that of the first pair of
/// `delays` whose count of wrong attempts is reached, or no delay.
pub open spec fn spec_delay_between_attempts(delays: Seq<(u32, u128)>, wrong_attempts: u32) -> u128
    decreases delays.len(),
{
    if delays.len() == 0 {
        0
    } else if wrong_attempts >= delays[0].0 {
        delays[0].1
    } else {
        spec_delay_between_attempts(delays.drop_first(), wrong_attempts)
    }
}

/// Embeds a [`PasswordProtection`] to protect it from brute forces attacks.
///
/// This protection adds a minimum delay before the next attempt when a password attempt is wrong.
/// The times and delays are in nanoseconds.
pub struct BruteForceProtection {
    password_protection: PasswordProtection,
    last_attempt_time: Option<u128>,
    consecutive_wrong_attempts: u32,
    delays_and_wrong_attempts_count_for_it: Vec<(u32, u128)>,
}

/// An attempt of a password at a time, in nanoseconds.
pub struct BruteForceAttempt {
    pub password: PasswordAttempt,
    pub current_time: u128,
}

impl BruteForceProtection {
    /// The protected password.
    pub closed spec fn spec_password_protection(&self) -> PasswordProtection {
        self.password_protection
    }

    /// The time of the last wrong attempt, if any.
    pub closed spec fn spec_last_attempt_time(&self) -> Option<u128> {
        self.last_attempt_time
    }

    /// The count of the wrong attempts since the last right one.
    pub closed spec fn spec_consecutive_wrong_attempts(&self) -> u32 {
        self.consecutive_wrong_attempts
    }

    /// The pairs of a count of consecutive wrong attempts and the delay that it imposes.
    pub closed spec fn spec_delays(&self) -> Seq<(u32, u128)> {
        self.delays_and_wrong_attempts_count_for_it@
    }

    /// The delay imposed before the next attempt.
    pub open spec fn spec_delay(&self) -> u128 {
        spec_delay_between_attempts(self.spec_delays(), self.spec_consecutive_wrong_attempts())
    }

    /// Whether an attempt at `current_time` comes late enough after the last wrong one.
    pub open spec fn spec_is_attempt_allowed(&self, current_time: u128) -> bool {
        match self.spec_last_attempt_time() {
            Some(last) => current_time - last >= self.spec_delay(),
            None => true,
        }
    }

    /// Whether an attempt at `current_time` can be checked: it doesn't come before the last wrong
    /// one, and the count of wrong attempts can grow.
    pub open spec fn spec_can_check_at(&self, current_time: u128) -> bool {
        &&& self.spec_last_attempt_time() matches Some(last) ==> last <= current_time
        &&& self.spec_consecutive_wrong_attempts() < u32::MAX
    }

    /// The state after an attempt at `current_time` whose password matches or not: an attempt that
    /// comes too early changes nothing, a right one resets the count of wrong attempts, a wrong one
    /// counts and becomes the last wrong attempt.
    pub closed spec fn spec_after_attempt(&self, current_time: u128, password_matches: bool) -> Self {
        if !self.spec_is_attempt_allowed(current_time) {
            *self
        } else if password_matches {
            BruteForceProtection {
                password_protection: self.password_protection,
                last_attempt_time: self.last_attempt_time,
                consecutive_wrong_attempts: 0,
                delays_and_wrong_attempts_count_for_it: self.delays_and_wrong_attempts_count_for_it,
            }
        } else {
            BruteForceProtection {
                password_protection: self.password_protection,
                last_attempt_time: Some(current_time),
                consecutive_wrong_attempts: (self.consecutive_wrong_attempts + 1) as u32,
                delays_and_wrong_attempts_count_for_it: self.delays_and_wrong_attempts_count_for_it,
            }
        }
    }

    /// The password of an attempt passes.
    pub open spec fn spec_password_passes(&self, password: Seq<char>) -> bool {
        spec_password_matches(
            self.spec_password_protection().spec_peppers(),
            password,
            self.spec_password_protection().spec_hashed_password(),
        )
    }

    /// Creates the protection of `password_protection` with the delays imposed after counts of
    /// consecutive wrong attempts.
    pub fn new(
        password_protection: PasswordProtection,
        delays_and_wrong_attempts_count_for_it: Vec<(u32, u128)>,
    ) -> (protection: Self)
        ensures
            protection.spec_password_protection() == password_protection,
            protection.spec_last_attempt_time() is None,
            protection.spec_consecutive_wrong_attempts() == 0,
            protection.spec_delays() == delays_and_wrong_attempts_count_for_it@,
    {
        Self {
            password_protection,
            last_attempt_time: None,
            consecutive_wrong_attempts: 0,
            delays_and_wrong_attempts_count_for_it,
        }
    }

    /// The delay imposed before the next attempt.
    fn delay_between_attempts(&self) -> (delay: u128)
        ensures
            delay == self.spec_delay(),
    {
        let delays = &self.delays_and_wrong_attempts_count_for_it;
        let mut i: usize = 0;
        assert(delays@.skip(0) =~= delays@);
        while i < delays.len()
            invariant
                i <= delays@.len(),
                spec_delay_between_attempts(delays@.skip(i as int), self.consecutive_wrong_attempts)
                    == self.spec_delay(),
            decreases delays@.len() - i,
        {
            let (attempts, delay) = delays[i];
            assert(delays@.skip(i as int)[0] == delays@[i as int]);
            if self.consecutive_wrong_attempts >= attempts {
                return delay;
            }
            assert(delays@.skip(i as int).drop_first() =~= delays@.skip(i + 1));
            i = i + 1;
        }
        assert(delays@.skip(i as int).len() == 0);
        0
    }
}

impl Protection for BruteForceProtection {
    type Input = BruteForceAttempt;

    open spec fn spec_can_check(&self, input: BruteForceAttempt) -> bool {
        self.spec_can_check_at(input.current_time)
    }

    /// An attempt passes when it comes late enough after the last wrong one and its password
    /// matches. A wrong password counts as a wrong attempt; a right one resets the count.
    fn can_pass(&mut self, input: BruteForceAttempt) -> (passes: bool)
        ensures
            passes == (old(self).spec_is_attempt_allowed(input.current_time)
                && old(self).spec_password_passes(input.password.0@)),
            *final(self) == old(self).spec_after_attempt(
                input.current_time,
                old(self).spec_password_passes(input.password.0@),
            ),
            final(self).spec_password_protection() == old(self).spec_password_protection(),
            final(self).spec_delays() == old(self).spec_delays(),
            !old(self).spec_is_attempt_allowed(input.current_time) ==> *final(self) == *old(self),
            passes ==> final(self).spec_consecutive_wrong_attempts() == 0
                && final(self).spec_last_attempt_time() == old(self).spec_last_attempt_time(),
            old(self).spec_is_attempt_allowed(input.current_time) && !passes ==> {
                &&& final(self).spec_last_attempt_time() == Some(input.current_time)
                &&& final(self).spec_consecutive_wrong_attempts()
                    == old(self).spec_consecutive_wrong_attempts() + 1
            },
    {
        if let Some(last_attempt_time) = self.last_attempt_time {
            if input.current_time - last_attempt_time < self.delay_between_attempts() {
                return false;
            }
        }
        match self.password_protection.can_pass(input.password) {
            true => {
                self.consecutive_wrong_attempts = 0;
                true
            },
            false => {
                self.last_attempt_time = Some(input.current_time);
                self.consecutive_wrong_attempts = self.consecutive_wrong_attempts + 1;
                false
            },
        }
    }
}

/// Without any delay configured, no attempt is ever refused for coming too early.
pub proof fn lemma_no_delays_no_lockout(protection: BruteForceProtection, current_time: u128)
    requires
        protection.spec_delays().len() == 0,
        protection.spec_last_attempt_time() matches Some(last) ==> last <= current_time,
    ensures
        protection.spec_is_attempt_allowed(current_time),
{
}

} // verus!
