//! The profile store: one profile per player, at the player's derived address.
use crate::address::{profile_address, profile_address_of, Identity};
use crate::profile::{
    can_toss, check_name, fresh_profile, name_len, minimum_balance_of, profile_ok, rent_exempt_minimum, result_view,
    tossed, ErrorCode, PlayerProfile, ProfileView, MAX_NAME_LEN, PROFILE_SPACE,
};
use vstd::prelude::*;

verus! {

/// The accounts of a profile creation: the player, who signs and pays, and
/// the lamports the player holds.
pub struct CreatePlayerProfile {
    pub player: Identity,
    pub player_lamports: u64,
}

/// The accounts of a toss: the address of the profile to update, and the
/// player who signs.
pub struct UpdatePlayerProfile {
    pub player_profile: Identity,
    pub player: Identity,
}

/// The mathematical value of a store: the program key its addresses are
/// derived under, the lamports a new profile account costs, and the profiles
/// by address.
pub struct StoreView {
    pub program_id: Seq<u8>,
    pub rent_exempt_lamports: u64,
    pub records: Map<Seq<u8>, ProfileView>,
}

/// Every stored profile is well formed and sits at its owner's derived address.
pub open spec fn store_ok(s: StoreView) -> bool {
    forall|a: Seq<u8>| #[trigger] s.records.contains_key(a) ==> {
        &&& profile_ok(s.records[a])
        &&& profile_address_of(s.program_id, s.records[a].player) == Some(a)
    }
}

/// The store, with `records` replaced.
pub open spec fn with_records(s: StoreView, records: Map<Seq<u8>, ProfileView>) -> StoreView {
    StoreView { program_id: s.program_id, rent_exempt_lamports: s.rent_exempt_lamports, records }
}

/// Creation of `player`'s profile named `name` by a payer holding `lamports`:
/// the store, the payer's lamports and the result afterwards.
pub open spec fn create_outcome(s: StoreView, player: Seq<u8>, lamports: u64, name: Seq<char>) -> (
    StoreView,
    u64,
    Result<ProfileView, ErrorCode>,
) {
    match profile_address_of(s.program_id, player) {
        None => (s, lamports, Err(ErrorCode::NoViableAddress)),
        Some(a) => if s.records.contains_key(a) {
            (s, lamports, Err(ErrorCode::AlreadyExists))
        } else if name_len(name) > MAX_NAME_LEN {
            (s, lamports, Err(ErrorCode::ValidationError))
        } else if lamports < s.rent_exempt_lamports {
            (s, lamports, Err(ErrorCode::InsufficientResources))
        } else {
            let p = fresh_profile(name, player);
            (
                with_records(s, s.records.insert(a, p)),
                (lamports - s.rent_exempt_lamports) as u64,
                Ok(p),
            )
        },
    }
}

/// A toss by `player` on the profile at `target`: the store and the result
/// afterwards.
pub open spec fn toss_outcome(s: StoreView, target: Seq<u8>, player: Seq<u8>, won: bool) -> (
    StoreView,
    Result<ProfileView, ErrorCode>,
) {
    if !s.records.contains_key(target) {
        (s, Err(ErrorCode::NotFound))
    } else if s.records[target].player != player {
        (s, Err(ErrorCode::UnauthorizedAccess))
    } else if !can_toss(s.records[target]) {
        (s, Err(ErrorCode::CounterOverflow))
    } else {
        let p = tossed(s.records[target], won);
        (with_records(s, s.records.insert(target, p)), Ok(p))
    }
}

struct ProfileSlot {
    address: Identity,
    profile: PlayerProfile,
}

/// The profiles of one program, each at the address derived from its owner.
pub struct ProfileStore {
    program_id: Identity,
    rent_exempt_lamports: u64,
    slots: Vec<ProfileSlot>,
    records: Ghost<Map<Seq<u8>, ProfileView>>,
}

impl View for ProfileStore {
    type V = StoreView;

    closed spec fn view(&self) -> StoreView {
        StoreView {
            program_id: self.program_id@,
            rent_exempt_lamports: self.rent_exempt_lamports,
            records: self.records@,
        }
    }
}

impl ProfileStore {
    /// The slots hold exactly the profiles of the view, one per address.
    pub closed spec fn wf(&self) -> bool {
        &&& store_ok(self@)
        &&& forall|i: int, j: int|
            0 <= i < j < self.slots@.len() ==> #[trigger] self.slots@[i].address@
                != #[trigger] self.slots@[j].address@
        &&& forall|i: int|
            0 <= i < self.slots@.len() ==> {
                &&& self.records@.contains_key(#[trigger] self.slots@[i].address@)
                &&& self.records@[self.slots@[i].address@] == self.slots@[i].profile@
            }
        &&& forall|a: Seq<u8>| #[trigger]
            self.records@.contains_key(a) ==> exists|i: int|
                0 <= i < self.slots@.len() && #[trigger] self.slots@[i].address@ == a
    }

    /// A well-formed store holds only well-formed profiles, each at its
    /// owner's derived address.
    pub proof fn lemma_wf_store_ok(&self)
        requires
            self.wf(),
        ensures
            store_ok(self@),
    {
    }

    /// An empty store for the program `program_id`, charging the default
    /// rent-exempt balance of a profile account for each creation.
    pub fn new(program_id: Identity) -> (r: ProfileStore)
        ensures
            r.wf(),
            store_ok(r@),
            r@.program_id == program_id@,
            r@.rent_exempt_lamports == minimum_balance_of(PROFILE_SPACE as nat),
            r@.records == Map::<Seq<u8>, ProfileView>::empty(),
    {
        ProfileStore {
            program_id,
            rent_exempt_lamports: rent_exempt_minimum(PROFILE_SPACE),
            slots: Vec::new(),
            records: Ghost(Map::empty()),
        }
    }

    /// The program key addresses are derived under.
    pub fn program_id(&self) -> (r: Identity)
        ensures
            r@ == self@.program_id,
    {
        self.program_id
    }

    /// The lamports a payer hands over for each new profile.
    pub fn rent_exempt_lamports(&self) -> (r: u64)
        ensures
            r == self@.rent_exempt_lamports,
    {
        self.rent_exempt_lamports
    }

    /// Derives the address of `player`'s profile in this store.
    pub fn address_of(&self, player: &Identity) -> (r: Option<Identity>)
        ensures
            match r {
                Some(a) => profile_address_of(self@.program_id, player@) == Some(a@),
                None => profile_address_of(self@.program_id, player@) is None,
            },
    {
        profile_address(&self.program_id, player)
    }

    fn find_slot(&self, address: &Identity) -> (r: Option<usize>)
        requires
            self.wf(),
        ensures
            match r {
                Some(i) => i < self.slots@.len() && self.slots@[i as int].address@ == address@,
                None => !self@.records.contains_key(address@),
            },
    {
        let mut i: usize = 0;
        while i < self.slots.len()
            invariant
                i <= self.slots@.len(),
                forall|k: int| 0 <= k < i ==> self.slots@[k].address@ != address@,
            decreases self.slots@.len() - i,
        {
            if self.slots[i].address.same_as(address) {
                return Some(i);
            }
            i = i + 1;
        }
        None
    }

    /// The profile stored at `address`, if any.
    pub fn profile_at(&self, address: &Identity) -> (r: Option<PlayerProfile>)
        requires
            self.wf(),
        ensures
            match r {
                Some(p) => self@.records.contains_key(address@) && p@ == self@.records[address@],
                None => !self@.records.contains_key(address@),
            },
    {
        match self.find_slot(address) {
            Some(i) => Some(self.slots[i].profile.snapshot()),
            None => None,
        }
    }

    /// The number of stored profiles.
    pub fn len(&self) -> (r: usize)
        requires
            self.wf(),
        ensures
            r == self@.records.len(),
    {
        proof {
            self.lemma_records_len();
        }
        self.slots.len()
    }

    proof fn lemma_records_len(&self)
        requires
            self.wf(),
        ensures
            self@.records.len() == self.slots@.len(),
    {
        let keys = Set::new(|a: Seq<u8>| exists|i: int| 0 <= i < self.slots@.len() && self.slots@[i].address@ == a);
        assert(self.records@.dom() =~= keys);
        let addrs = self.slots@.map(|_i: int, s: ProfileSlot| s.address@);
        assert(addrs.to_set() =~= keys) by {
            assert forall|a: Seq<u8>| keys.contains(a) implies addrs.to_set().contains(a) by {
                let i = choose|i: int| 0 <= i < self.slots@.len() && self.slots@[i].address@ == a;
                assert(addrs[i] == a);
            }
        }
        assert(addrs.no_duplicates());
        addrs.unique_seq_to_set();
    }
}

/// When only slot `i`'s profile changes, the slots keep their addresses, so
/// they still cover every recorded address.
proof fn lemma_one_profile_changed(
    old_slots: Seq<ProfileSlot>,
    new_slots: Seq<ProfileSlot>,
    i: int,
    records: Map<Seq<u8>, ProfileView>,
)
    requires
        0 <= i < old_slots.len(),
        new_slots == old_slots.update(i, new_slots[i]),
        new_slots[i].address == old_slots[i].address,
        forall|a: Seq<u8>| #[trigger]
            records.contains_key(a) ==> exists|k: int|
                0 <= k < old_slots.len() && #[trigger] old_slots[k].address@ == a,
    ensures
        forall|k: int| 0 <= k < new_slots.len() ==> (#[trigger] new_slots[k]).address == old_slots[k].address,
        forall|k: int| 0 <= k < new_slots.len() && k != i ==> #[trigger] new_slots[k] == old_slots[k],
        forall|a: Seq<u8>| #[trigger]
            records.contains_key(a) ==> exists|k: int|
                0 <= k < new_slots.len() && #[trigger] new_slots[k].address@ == a,
{
    assert forall|a: Seq<u8>| #[trigger] records.contains_key(a) implies exists|k: int|
        0 <= k < new_slots.len() && #[trigger] new_slots[k].address@ == a by {
        let k = choose|k: int| 0 <= k < old_slots.len() && #[trigger] old_slots[k].address@ == a;
        assert(new_slots[k].address@ == old_slots[k].address@);
    }
}

/// Creates `ctx.player`'s profile named `name` at the player's derived
/// address, paid from the player's lamports.
pub fn create_player_profile(store: &mut ProfileStore, ctx: &mut CreatePlayerProfile, name: String) -> (r: Result<PlayerProfile, ErrorCode>)
    requires
        old(store).wf(),
    ensures
        final(store).wf(),
        store_ok(final(store)@),
        final(ctx).player == old(ctx).player,
        (final(store)@, final(ctx).player_lamports, result_view(r)) == create_outcome(
            old(store)@,
            old(ctx).player@,
            old(ctx).player_lamports,
            name@,
        ),
{
    let address = match store.address_of(&ctx.player) {
        Some(a) => a,
        None => return Err(ErrorCode::NoViableAddress),
    };
    if let Some(_) = store.find_slot(&address) {
        return Err(ErrorCode::AlreadyExists);
    }
    match check_name(name.as_str()) {
        Ok(()) => {},
        Err(e) => return Err(e),
    }
    if ctx.player_lamports < store.rent_exempt_lamports {
        return Err(ErrorCode::InsufficientResources);
    }
    ctx.player_lamports = ctx.player_lamports - store.rent_exempt_lamports;
    let profile = PlayerProfile::new(name, ctx.player);
    let result = profile.snapshot();
    let ghost old_slots = store.slots@;
    store.slots.push(ProfileSlot { address, profile });
    store.records = Ghost(store.records@.insert(address@, result@));
    proof {
        let n = old_slots.len() as int;
        assert(store.slots@[n].address@ == address@);
        assert forall|a: Seq<u8>| #[trigger] store.records@.contains_key(a) implies exists|i: int|
            0 <= i < store.slots@.len() && #[trigger] store.slots@[i].address@ == a by {
            if a != address@ {
                let i = choose|i: int| 0 <= i < old_slots.len() && #[trigger] old_slots[i].address@ == a;
                assert(store.slots@[i] == old_slots[i]);
            }
        }
        assert forall|i: int| 0 <= i < n implies old_slots[i].address@ != address@ by {
            assert(store.slots@[i] == old_slots[i]);
        }
    }
    Ok(result)
}

/// Counts a game, and a win if `won`, on the profile at `ctx.player_profile`,
/// which `ctx.player` must own.
pub fn execute_toss(store: &mut ProfileStore, ctx: &UpdatePlayerProfile, won: bool) -> (r: Result<PlayerProfile, ErrorCode>)
    requires
        old(store).wf(),
    ensures
        final(store).wf(),
        store_ok(final(store)@),
        (final(store)@, result_view(r)) == toss_outcome(
            old(store)@,
            ctx.player_profile@,
            ctx.player@,
            won,
        ),
        r is Ok ==> profile_address_of(old(store)@.program_id, ctx.player@) == Some(
            ctx.player_profile@,
        ),
{
    let i = match store.find_slot(&ctx.player_profile) {
        Some(i) => i,
        None => return Err(ErrorCode::NotFound),
    };
    if !store.slots[i].profile.player.same_as(&ctx.player) {
        return Err(ErrorCode::UnauthorizedAccess);
    }
    let ghost old_slots = store.slots@;
    let outcome = store.slots[i].profile.record_toss(won);
    proof {
        lemma_one_profile_changed(old_slots, store.slots@, i as int, store.records@);
    }
    match outcome {
        Ok(()) => {},
        Err(e) => return Err(e),
    }
    let result = store.slots[i].profile.snapshot();
    store.records = Ghost(store.records@.insert(ctx.player_profile@, result@));
    assert(store.slots@[i as int].address@ == ctx.player_profile@);
    Ok(result)
}

} // verus!
