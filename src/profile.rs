//! The profile record, its errors, and the update a toss applies to it.
use crate::address::Identity;
use anchor_lang::prelude::Rent;
use vstd::prelude::*;
use vstd::string::*;
use vstd::utf8::encode_utf8;

verus! {

/// The longest display name a profile takes, in bytes of its UTF-8 encoding.
pub const MAX_NAME_LEN: usize = 32;

/// Bytes reserved for one profile account: an 8-byte discriminator, then the
/// name (a 4-byte length and up to 32 bytes), the owner's key and the two
/// counters.
pub const PROFILE_SPACE: usize = 8 + 4 + 32 + 32 + 8 + 8;

/// Why an operation on the store failed. Every failure leaves the store as it
/// was.
#[derive(Clone, Copy, Debug, PartialEq, Eq, Structural)]
pub enum ErrorCode {
    /// The caller is not the owner of the profile it targets.
    UnauthorizedAccess,
    /// The display name is longer than `MAX_NAME_LEN` bytes.
    ValidationError,
    /// The caller already has a profile.
    AlreadyExists,
    /// No profile is stored at the targeted address.
    NotFound,
    /// The payer cannot cover the profile account's rent-exempt balance.
    InsufficientResources,
    /// No bump byte yields a valid address for the caller's seeds.
    NoViableAddress,
    /// The games-played counter is already at its largest value.
    CounterOverflow,
}

/// A player's profile: a display name, the owner's key and two counters.
#[derive(Clone, Debug, PartialEq, Eq)]
pub struct PlayerProfile {
    pub name: String,
    pub player: Identity,
    pub total_played: u64,
    pub total_won: u64,
}

/// The mathematical value of a profile.
pub struct ProfileView {
    pub name: Seq<char>,
    pub player: Seq<u8>,
    pub total_played: u64,
    pub total_won: u64,
}

impl View for PlayerProfile {
    type V = ProfileView;

    open spec fn view(&self) -> ProfileView {
        ProfileView {
            name: self.name@,
            player: self.player@,
            total_played: self.total_played,
            total_won: self.total_won,
        }
    }
}

/// The length of a name in bytes of its UTF-8 encoding, as it is stored.
pub open spec fn name_len(name: Seq<char>) -> nat {
    encode_utf8(name).len()
}

/// A profile as stored: a name within bounds and no more wins than games.
pub open spec fn profile_ok(p: ProfileView) -> bool {
    &&& name_len(p.name) <= MAX_NAME_LEN
    &&& p.total_won <= p.total_played
}

/// The profile that creation stores: the given name and owner, no games.
pub open spec fn fresh_profile(name: Seq<char>, player: Seq<u8>) -> ProfileView {
    ProfileView { name, player, total_played: 0, total_won: 0 }
}

/// Whether a toss can be counted without overflow.
pub open spec fn can_toss(p: ProfileView) -> bool {
    p.total_played < u64::MAX
}

/// The profile after one more game, won or lost.
pub open spec fn tossed(p: ProfileView, won: bool) -> ProfileView {
    ProfileView {
        total_played: (p.total_played + 1) as u64,
        total_won: if won { (p.total_won + 1) as u64 } else { p.total_won },
        ..p
    }
}

/// The value-level form of an operation's result.
pub open spec fn result_view(r: Result<PlayerProfile, ErrorCode>) -> Result<ProfileView, ErrorCode> {
    match r {
        Ok(p) => Ok(p@),
        Err(e) => Err(e),
    }
}

/// Accepts a display name of at most `MAX_NAME_LEN` bytes once encoded.
pub fn check_name(name: &str) -> (r: Result<(), ErrorCode>)
    ensures
        name_len(name@) <= MAX_NAME_LEN ==> r is Ok,
        name_len(name@) > MAX_NAME_LEN ==> r == Err::<(), ErrorCode>(ErrorCode::ValidationError),
{
    if name.as_bytes().len() > MAX_NAME_LEN {
        Err(ErrorCode::ValidationError)
    } else {
        Ok(())
    }
}

impl PlayerProfile {
    /// A new profile for `player` with no games played.
    pub fn new(name: String, player: Identity) -> (r: PlayerProfile)
        ensures
            r@ == fresh_profile(name@, player@),
    {
        PlayerProfile { name, player, total_played: 0, total_won: 0 }
    }

    /// A copy of the profile.
    pub fn snapshot(&self) -> (r: PlayerProfile)
        ensures
            r@ == self@,
    {
        PlayerProfile {
            name: self.name.clone(),
            player: self.player,
            total_played: self.total_played,
            total_won: self.total_won,
        }
    }

    /// Counts one game, and one win if `won`. At the counter's largest value
    /// nothing changes and `CounterOverflow` is returned.
    pub fn record_toss(&mut self, won: bool) -> (r: Result<(), ErrorCode>)
        requires
            old(self).total_won <= old(self).total_played,
        ensures
            can_toss(old(self)@) ==> r is Ok && final(self)@ == tossed(old(self)@, won),
            !can_toss(old(self)@) ==> r == Err::<(), ErrorCode>(ErrorCode::CounterOverflow)
                && final(self)@ == old(self)@,
            final(self).total_won <= final(self).total_played,
    {
        if self.total_played == u64::MAX {
            return Err(ErrorCode::CounterOverflow);
        }
        self.total_played = self.total_played + 1;
        if won {
            self.total_won = self.total_won + 1;
        }
        Ok(())
    }
}

/// The rent-exempt balance of an account of `data_len` bytes under the
/// default rent: 128 bytes of overhead are added, and two years of rent at
/// 3480 lamports per byte-year are due.
pub open spec fn minimum_balance_of(data_len: nat) -> nat {
    (128 + data_len) * 3480 * 2
}

/// Relies on `Rent::default()` and `Rent::minimum_balance` (solana-program,
/// through anchor-lang): `(128 + data_len) * 3480` lamports, as a float times
/// the exemption threshold 2.0, cast back to `u64`. Up to the largest account
/// size the product is below 2^53, so the float steps are exact, and the
/// integer product does not overflow.
#[verifier::external_body]
pub(crate) fn rent_exempt_minimum(data_len: usize) -> (r: u64)
    requires
        data_len <= 10 * 1024 * 1024,
    ensures
        r == minimum_balance_of(data_len as nat),
{
    Rent::default().minimum_balance(data_len)
}

} // verus!
