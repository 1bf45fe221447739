//! Player identities and the derivation of a profile's storage address.
use anchor_lang::prelude::Pubkey;
use vstd::prelude::*;

verus! {

/// A 32-byte public key naming a player, a program or a storage address.
#[derive(Clone, Copy, Debug, PartialEq, Eq)]
pub struct Identity {
    pub bytes: [u8; 32],
}

impl View for Identity {
    type V = Seq<u8>;

    open spec fn view(&self) -> Seq<u8> {
        self.bytes@
    }
}

impl Identity {
    pub fn new(bytes: [u8; 32]) -> (r: Identity)
        ensures
            r@ == bytes@,
    {
        Identity { bytes }
    }

    /// The key's bytes, in order.
    pub fn to_vec(&self) -> (r: Vec<u8>)
        ensures
            r@ == self@,
    {
        broadcast use vstd::array::array_len_matches_n;

        let mut r: Vec<u8> = Vec::new();
        let mut i: usize = 0;
        while i < 32
            invariant
                i <= 32,
                self@.len() == 32,
                r@ == self@.subrange(0, i as int),
            decreases 32 - i,
        {
            r.push(self.bytes[i]);
            i = i + 1;
            assert(r@ =~= self@.subrange(0, i as int));
        }
        assert(self@.subrange(0, 32) =~= self@);
        r
    }

    /// Byte-wise comparison of two keys.
    pub fn same_as(&self, other: &Identity) -> (r: bool)
        ensures
            r == (self@ == other@),
    {
        broadcast use vstd::array::array_len_matches_n;

        let mut i: usize = 0;
        while i < 32
            invariant
                i <= 32,
                self@.len() == 32,
                other@.len() == 32,
                forall|k: int| 0 <= k < i ==> self@[k] == other@[k],
            decreases 32 - i,
        {
            if self.bytes[i] != other.bytes[i] {
                return false;
            }
            i = i + 1;
        }
        assert(self@ =~= other@);
        true
    }
}

/// The tag that every profile address is derived from: the bytes of "profile".
pub open spec fn profile_tag() -> Seq<u8> {
    seq![112u8, 114u8, 111u8, 102u8, 105u8, 108u8, 101u8]
}

/// The seeds of a player's profile address: the tag, then the player's key.
pub open spec fn profile_seeds(player: Seq<u8>) -> Seq<Seq<u8>> {
    seq![profile_tag(), player]
}

/// What the program-address search returns for the given seeds and program:
/// the first off-curve address found, with its bump byte, if there is one.
pub uninterp spec fn program_address_of(seeds: Seq<Seq<u8>>, program_id: Seq<u8>) -> Option<(Seq<u8>, u8)>;

/// The storage address of a player's profile under a program, if one exists.
pub open spec fn profile_address_of(program_id: Seq<u8>, player: Seq<u8>) -> Option<Seq<u8>> {
    match program_address_of(profile_seeds(player), program_id) {
        Some((a, _)) => Some(a),
        None => None,
    }
}

/// Relies on `Pubkey::try_find_program_address` (solana-program, through
/// anchor-lang): the result is a function of the seeds and the program key
/// alone. It returns `None` where no bump gives an off-curve address, and does
/// not panic.
#[verifier::external_body]
fn find_program_address(seeds: &Vec<Vec<u8>>, program_id: &Identity) -> (r: Option<(Identity, u8)>)
    ensures
        match r {
            Some((a, b)) => program_address_of(seeds.deep_view(), program_id@) == Some((a@, b)),
            None => program_address_of(seeds.deep_view(), program_id@) is None,
        },
{
    let pid = Pubkey::new_from_array(program_id.bytes);
    let refs: Vec<&[u8]> = seeds.iter().map(|s| s.as_slice()).collect();
    match Pubkey::try_find_program_address(&refs, &pid) {
        Some((key, bump)) => Some((Identity { bytes: key.to_bytes() }, bump)),
        None => None,
    }
}

/// The seeds of a player's profile address, as bytes.
fn profile_seed_bytes(player: &Identity) -> (r: Vec<Vec<u8>>)
    ensures
        r.deep_view() == profile_seeds(player@),
{
    // "profile"
    let tag: Vec<u8> = vec![112u8, 114u8, 111u8, 102u8, 105u8, 108u8, 101u8];
    let key: Vec<u8> = player.to_vec();
    assert(tag.deep_view() =~= profile_tag());
    assert(key.deep_view() =~= player@);
    let r: Vec<Vec<u8>> = vec![tag, key];
    assert(r.deep_view()[0] == r@[0].deep_view());
    assert(r.deep_view()[1] == r@[1].deep_view());
    assert(r.deep_view() =~= profile_seeds(player@));
    r
}

/// Derives the storage address of `player`'s profile under `program_id`.
/// The result depends on the two keys alone.
pub fn profile_address(program_id: &Identity, player: &Identity) -> (r: Option<Identity>)
    ensures
        match r {
            Some(a) => profile_address_of(program_id@, player@) == Some(a@),
            None => profile_address_of(program_id@, player@) is None,
        },
{
    let seeds = profile_seed_bytes(player);
    match find_program_address(&seeds, program_id) {
        Some((a, _)) => Some(a),
        None => None,
    }
}

/// Two players' profile seeds are equal only when the players are: the
/// derivation keeps players apart before any hashing.
pub proof fn lemma_profile_seeds_injective(a: Seq<u8>, b: Seq<u8>)
    requires
        profile_seeds(a) == profile_seeds(b),
    ensures
        a == b,
{
    assert(profile_seeds(a)[1] == a);
    assert(profile_seeds(b)[1] == b);
}

} // verus!
