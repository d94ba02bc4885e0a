//! The access credential and the rule for when it must be renewed.
use vstd::prelude::*;
use crate::redirect::{grant_from_request, parse_account_details, GrantText};
use crate::text::{chars_of, decimal_in, decimal_of};

verus! {

/// Seconds of validity a credential must still have to be used: one day,
/// so that a session never expires while the client is open.
pub const RENEWAL_MARGIN: u64 = 86400;

/// Why a redirected request could not be turned into a credential.
#[derive(Debug, Clone, Copy, PartialEq, Eq, Structural)]
pub enum AuthorizationError {
    /// No request target, no query, or a grant parameter without a value.
    MalformedRequest,
    /// The access token, the account id or the expiry was not given.
    MissingParameter,
    /// The account id is not a decimal number that fits in 32 bits.
    InvalidAccountId,
    /// The expiry is not a decimal number of seconds, or it ends past the
    /// largest representable time.
    InvalidExpiry,
}

/// The credential (token, account id, expiry time) that a grant read at unix
/// time `now` yields.
pub open spec fn credential_of_grant(g: GrantText, now: nat) -> Result<
    (Seq<char>, nat, nat),
    AuthorizationError,
> {
    if g.0.len() == 0 || g.1.len() == 0 || g.2.len() == 0 {
        Err(AuthorizationError::MissingParameter)
    } else {
        match decimal_of(g.1, u32::MAX as nat) {
            None => Err(AuthorizationError::InvalidAccountId),
            Some(account) => match decimal_of(g.2, u64::MAX as nat) {
                Some(secs) => if now + secs <= u64::MAX {
                    Ok((g.0, account, now + secs))
                } else {
                    Err(AuthorizationError::InvalidExpiry)
                },
                None => Err(AuthorizationError::InvalidExpiry),
            },
        }
    }
}

/// The credential that the redirected request line yields at unix time `now`.
pub open spec fn credential_of_request(request: Seq<char>, now: nat) -> Result<
    (Seq<char>, nat, nat),
    AuthorizationError,
> {
    match grant_from_request(request) {
        Some(g) => credential_of_grant(g, now),
        None => Err(AuthorizationError::MalformedRequest),
    }
}

/// An access credential for the remote service.
pub struct Harvest {
    pub token: String,
    pub account_id: u32,
    /// Unix time, in seconds, at which the token stops being accepted.
    pub expires_at: u64,
}

impl Harvest {
    /// The token, account id and expiry of the credential.
    pub open spec fn parts(&self) -> (Seq<char>, nat, nat) {
        (self.token@, self.account_id as nat, self.expires_at as nat)
    }

    /// Builds the credential from the grant text captured at unix time `now`:
    /// the expiry is `now` plus the granted number of seconds.
    pub fn from_grant(token: String, account_id: &str, expires_in: &str, now: u64) -> (r: Result<
        Harvest,
        AuthorizationError,
    >)
        ensures
            match credential_of_grant((token@, account_id@, expires_in@), now as nat) {
                Ok(c) => r matches Ok(h) && h.parts() == c,
                Err(e) => r == Err::<Harvest, AuthorizationError>(e),
            },
    {
        let account = chars_of(account_id);
        let expiry = chars_of(expires_in);
        if token.unicode_len() == 0 || account.len() == 0 || expiry.len() == 0 {
            return Err(AuthorizationError::MissingParameter);
        }
        assert(account@.subrange(0, account@.len() as int) == account_id@);
        assert(expiry@.subrange(0, expiry@.len() as int) == expires_in@);
        let id = match decimal_in(&account, 0, account.len(), u32::MAX as u64) {
            Some(id) => id as u32,
            None => return Err(AuthorizationError::InvalidAccountId),
        };
        match decimal_in(&expiry, 0, expiry.len(), u64::MAX) {
            Some(secs) => {
                if secs <= u64::MAX - now {
                    Ok(Harvest { token, account_id: id, expires_at: now + secs })
                } else {
                    Err(AuthorizationError::InvalidExpiry)
                }
            },
            None => Err(AuthorizationError::InvalidExpiry),
        }
    }

    /// Builds the credential from the first line of the browser's redirected
    /// request, captured at unix time `now`.
    pub fn from_redirect(request: &str, now: u64) -> (r: Result<Harvest, AuthorizationError>)
        ensures
            match credential_of_request(request@, now as nat) {
                Ok(c) => r matches Ok(h) && h.parts() == c,
                Err(e) => r == Err::<Harvest, AuthorizationError>(e),
            },
    {
        match parse_account_details(request) {
            Some((token, account_id, expires_in)) => Harvest::from_grant(
                token,
                account_id.as_str(),
                expires_in.as_str(),
                now,
            ),
            None => Err(AuthorizationError::MalformedRequest),
        }
    }

    /// Whether the credential may still be used at unix time `now`: it must
    /// outlive `now` by more than the renewal margin.
    pub open spec fn usable_at(&self, now: nat) -> bool {
        now + RENEWAL_MARGIN < self.expires_at
    }

    /// Whether the credential may still be used at unix time `now`.
    pub fn is_usable(&self, now: u64) -> (r: bool)
        ensures
            r == self.usable_at(now as nat),
    {
        now < self.expires_at && self.expires_at - now > RENEWAL_MARGIN
    }

    /// Picks the credential to start with: the stored one when it is still
    /// usable at `now`, otherwise `None`, meaning a new authorization is due.
    pub fn new(stored: Option<Harvest>, now: u64) -> (r: Option<Harvest>)
        ensures
            r == (match stored {
                Some(h) => if h.usable_at(now as nat) { Some(h) } else { None },
                None => None,
            }),
    {
        match stored {
            Some(h) => {
                if h.is_usable(now) {
                    Some(h)
                } else {
                    None
                }
            },
            None => None,
        }
    }
}

} // verus!
