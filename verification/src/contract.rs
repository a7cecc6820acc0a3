//! The ChronoPay ledger: admin, registry of authorized professionals, time
//! slots and time tokens, with one method per contract entry point.
//!
//! Each entry point records in an [`Effects`] the addresses whose
//! authorization it requires (in the order it requires them) and the events it
//! emits. A refused request (an `Err`) leaves the ledger unchanged.

use vstd::prelude::*;
use crate::events::{self, Event};
use crate::schedule::{booking_result, no_overlaps, SlotSchedule, TimeSlot};
use crate::table::Table;
use crate::types::{ChronoPayError, ProfessionalMetadata, TimeTokenStatus, TokenEntry};

verus! {

/// The identifier of the token that `mint_time_token` mints.
pub open spec fn time_token_id() -> Seq<char> {
    "TIME_TOKEN"@
}

/// The abstract state of the ledger.
#[verifier::ext_equal]
pub struct LedgerModel {
    /// The admin address, once set.
    pub admin: Option<String>,
    /// The id of the last slot created.
    pub slot_seq: u32,
    /// Every slot booked, oldest first.
    pub slots: Seq<TimeSlot>,
    /// The enumeration list of authorized professionals.
    pub professionals: Seq<String>,
    /// Authorized professionals and their metadata.
    pub registry: Map<Seq<char>, ProfessionalMetadata>,
    /// Minted tokens, by token id.
    pub tokens: Map<Seq<char>, TokenEntry>,
}

/// What one entry point does: the state after it, its answer, the addresses
/// whose authorization it requires and the events it emits.
pub struct Step<T> {
    pub state: LedgerModel,
    pub result: Result<T, ChronoPayError>,
    pub auths: Seq<String>,
    pub events: Seq<Event>,
}

/// A step that refuses with `e` after requiring `auths` and emitting `events`.
pub open spec fn refused<T>(
    m: LedgerModel,
    e: ChronoPayError,
    auths: Seq<String>,
    events: Seq<Event>,
) -> Step<T> {
    Step { state: m, result: Err(e), auths, events }
}

/// `initialize`: sets the admin (who must authorize), resets the slot counter
/// and empties the enumeration list; refused if the admin is the contract itself.
pub open spec fn spec_initialize(m: LedgerModel, contract_address: Seq<char>, admin: String) -> Step<
    (),
> {
    if admin@ == contract_address {
        refused(m, ChronoPayError::InvalidInput, seq![], seq![])
    } else {
        Step {
            state: LedgerModel {
                admin: Some(admin),
                slot_seq: 0,
                professionals: Seq::empty(),
                ..m
            },
            result: Ok(()),
            auths: seq![admin],
            events: seq![],
        }
    }
}

/// `authorize_professional`: the admin authorizes a new professional with a
/// non-empty name and category, stamped with the current time.
pub open spec fn spec_authorize(
    m: LedgerModel,
    now: u64,
    professional: String,
    name: String,
    category: String,
) -> Step<()> {
    match m.admin {
        None => refused(m, ChronoPayError::AdminError, seq![], seq![]),
        Some(a) => if m.registry.contains_key(professional@) {
            refused(m, ChronoPayError::AlreadyAuthorized, seq![a], seq![])
        } else if name@.len() == 0 || category@.len() == 0 {
            refused(m, ChronoPayError::InvalidInput, seq![a], seq![])
        } else {
            Step {
                state: LedgerModel {
                    registry: m.registry.insert(
                        professional@,
                        ProfessionalMetadata { name, verified_at: now, category },
                    ),
                    professionals: m.professionals.push(professional),
                    ..m
                },
                result: Ok(()),
                auths: seq![a],
                events: seq![Event::ProfessionalAuthorized { professional, name, category }],
            }
        },
    }
}

/// The enumeration list without `professional`.
pub open spec fn without(list: Seq<String>, professional: Seq<char>) -> Seq<String> {
    list.filter(|p: String| p@ != professional)
}

/// `unauthorize_professional`: the admin removes an authorized professional
/// from the registry and from the enumeration list.
pub open spec fn spec_unauthorize(m: LedgerModel, professional: String) -> Step<()> {
    match m.admin {
        None => refused(m, ChronoPayError::AdminError, seq![], seq![]),
        Some(a) => if !m.registry.contains_key(professional@) {
            refused(m, ChronoPayError::ProfessionalNotFound, seq![a], seq![])
        } else {
            Step {
                state: LedgerModel {
                    registry: m.registry.remove(professional@),
                    professionals: without(m.professionals, professional@),
                    ..m
                },
                result: Ok(()),
                auths: seq![a],
                events: seq![Event::ProfessionalUnauthorized { professional }],
            }
        },
    }
}

/// `create_time_slot`: an authorized professional books a non-empty window
/// that does not start in the past and does not overlap one of their slots.
pub open spec fn spec_create_time_slot(
    m: LedgerModel,
    now: u64,
    professional: String,
    start_time: u64,
    end_time: u64,
) -> Step<u32> {
    if !m.registry.contains_key(professional@) {
        refused(
            m,
            ChronoPayError::ProfessionalNotAuthorized,
            seq![professional],
            seq![Event::AuthorizationChecked { professional, authorized: false }],
        )
    } else {
        let checked = Event::AuthorizationChecked { professional, authorized: true };
        let booked = if start_time >= end_time || start_time < now {
            Err(ChronoPayError::InvalidInput)
        } else {
            booking_result(m.slot_seq, m.slots, professional@, start_time, end_time)
        };
        match booked {
            Ok(id) => Step {
                state: LedgerModel {
                    slot_seq: id,
                    slots: m.slots.push(
                        TimeSlot { slot_id: id, professional, start_time, end_time },
                    ),
                    ..m
                },
                result: Ok(id),
                auths: seq![professional],
                events: seq![
                    checked,
                    Event::TimeSlotCreated { slot_id: id, professional, start_time, end_time },
                ],
            },
            Err(e) => refused(m, e, seq![professional], seq![checked]),
        }
    }
}

/// `mint_time_token`: an authorized professional (re)mints the time token,
/// which becomes theirs and available.
pub open spec fn spec_mint_time_token(m: LedgerModel, professional: String) -> Step<Seq<char>> {
    if !m.registry.contains_key(professional@) {
        refused(m, ChronoPayError::ProfessionalNotAuthorized, seq![professional], seq![])
    } else {
        Step {
            state: LedgerModel {
                tokens: m.tokens.insert(
                    time_token_id(),
                    TokenEntry { owner: Some(professional), status: TimeTokenStatus::Available },
                ),
                ..m
            },
            result: Ok(time_token_id()),
            auths: seq![professional],
            events: seq![],
        }
    }
}

/// `buy_time_token`: the token becomes sold and owned by the buyer; refused
/// when the token is recorded with a status other than available. A token
/// never minted can be bought.
pub open spec fn spec_buy_time_token(m: LedgerModel, token_id: Seq<char>, buyer: String) -> Step<
    bool,
> {
    if m.tokens.contains_key(token_id) && m.tokens[token_id].status != TimeTokenStatus::Available {
        refused(m, ChronoPayError::InvalidInput, seq![], seq![])
    } else {
        Step {
            state: LedgerModel {
                tokens: m.tokens.insert(
                    token_id,
                    TokenEntry { owner: Some(buyer), status: TimeTokenStatus::Sold },
                ),
                ..m
            },
            result: Ok(true),
            auths: seq![],
            events: seq![],
        }
    }
}

/// The recorded owner of a token, if any.
pub open spec fn token_owner(m: LedgerModel, token_id: Seq<char>) -> Option<String> {
    if m.tokens.contains_key(token_id) {
        m.tokens[token_id].owner
    } else {
        None
    }
}

/// `redeem_time_token`: the token becomes redeemed, keeping its owner;
/// refused when the token is recorded with a status other than sold. A token
/// never minted can be redeemed.
pub open spec fn spec_redeem_time_token(m: LedgerModel, token_id: Seq<char>) -> Step<bool> {
    if m.tokens.contains_key(token_id) && m.tokens[token_id].status != TimeTokenStatus::Sold {
        refused(m, ChronoPayError::InvalidInput, seq![], seq![])
    } else {
        Step {
            state: LedgerModel {
                tokens: m.tokens.insert(
                    token_id,
                    TokenEntry { owner: token_owner(m, token_id), status: TimeTokenStatus::Redeemed },
                ),
                ..m
            },
            result: Ok(true),
            auths: seq![],
            events: seq![],
        }
    }
}

/// What an entry point hands back to the host: the addresses whose
/// authorization it requires and the events it emits, each in order.
pub struct Effects {
    pub auth_required: Vec<String>,
    pub events: Vec<Event>,
}

impl Effects {
    /// No authorization required and no event emitted yet.
    pub fn new() -> (fx: Self)
        ensures
            fx.auth_required@ == Seq::<String>::empty(),
            fx.events@ == Seq::<Event>::empty(),
    {
        Effects { auth_required: Vec::new(), events: Vec::new() }
    }

    /// `self` is `before` with `auths` and `events` appended.
    pub open spec fn extends(self, before: Effects, auths: Seq<String>, events: Seq<Event>) -> bool {
        &&& self.auth_required@ == before.auth_required@ + auths
        &&& self.events@ == before.events@ + events
    }
}

/// Every listed professional is authorized, and none is listed twice.
pub open spec fn enumeration_sound(m: LedgerModel) -> bool {
    list_sound(m.professionals, m.registry)
}

/// Every professional in `list` is in `registry`, and none is in `list` twice.
pub open spec fn list_sound(list: Seq<String>, registry: Map<Seq<char>, ProfessionalMetadata>) -> bool {
    &&& forall|i: int| 0 <= i < list.len() ==> registry.contains_key((#[trigger] list[i])@)
    &&& forall|i: int, j: int|
        0 <= i < j < list.len() ==> (#[trigger] list[i])@ != (#[trigger] list[j])@
}

/// Every authorized professional is listed.
pub open spec fn enumeration_complete(m: LedgerModel) -> bool {
    forall|k: Seq<char>|
        #[trigger] m.registry.contains_key(k) ==> exists|i: int|
            0 <= i < m.professionals.len() && (#[trigger] m.professionals[i])@ == k
}

/// What filtering a professional out of a list keeps and drops.
pub proof fn lemma_without(s: Seq<String>, k: Seq<char>)
    ensures
        forall|i: int|
            0 <= i < without(s, k).len() ==> (#[trigger] without(s, k)[i])@ != k && exists|j: int|
                0 <= j < s.len() && s[j] == without(s, k)[i],
        forall|j: int|
            0 <= j < s.len() && (#[trigger] s[j])@ != k ==> exists|i: int|
                0 <= i < without(s, k).len() && without(s, k)[i] == s[j],
        (forall|i: int, j: int| 0 <= i < j < s.len() ==> (#[trigger] s[i])@ != (#[trigger] s[j])@)
            ==> (forall|i: int, j: int|
            0 <= i < j < without(s, k).len() ==> (#[trigger] without(s, k)[i])@ != (
            #[trigger] without(s, k)[j])@),
    decreases s.len(),
{
    reveal_with_fuel(Seq::<_>::filter, 1);
    if s.len() > 0 {
        let dl = s.drop_last();
        let w = without(s, k);
        let wd = without(dl, k);
        lemma_without(dl, k);
        assert forall|i: int| 0 <= i < w.len() implies (#[trigger] w[i])@ != k && exists|j: int|
            0 <= j < s.len() && s[j] == w[i] by {
            if i < wd.len() {
                assert(w[i] == wd[i]);
                let j = choose|j: int| 0 <= j < dl.len() && dl[j] == wd[i];
                assert(s[j] == dl[j]);
            } else {
                assert(w[i] == s[s.len() - 1]);
            }
        }
        assert forall|j: int| 0 <= j < s.len() && (#[trigger] s[j])@ != k implies exists|i: int|
            0 <= i < w.len() && w[i] == s[j] by {
            if j < s.len() - 1 {
                assert(dl[j] == s[j]);
                let i = choose|i: int| 0 <= i < wd.len() && wd[i] == dl[j];
                assert(w[i] == wd[i]);
            } else {
                assert(w[w.len() - 1] == s[j]);
            }
        }
        if forall|i: int, j: int| 0 <= i < j < s.len() ==> (#[trigger] s[i])@ != (#[trigger] s[j])@ {
            assert forall|i: int, j: int| 0 <= i < j < dl.len() implies (#[trigger] dl[i])@ != (
            #[trigger] dl[j])@ by {
                assert(dl[i] == s[i] && dl[j] == s[j]);
            }
            assert forall|i: int, j: int| 0 <= i < j < w.len() implies (#[trigger] w[i])@ != (
            #[trigger] w[j])@ by {
                if j < wd.len() {
                    assert(w[i] == wd[i] && w[j] == wd[j]);
                } else {
                    assert(w[i] == wd[i]);
                    let a = choose|a: int| 0 <= a < dl.len() && dl[a] == wd[i];
                    assert(s[a] == dl[a]);
                    assert(w[j] == s[s.len() - 1]);
                }
            }
        }
    }
}

/// Filtering out a key no listed professional carries keeps the list.
pub proof fn lemma_without_absent(s: Seq<String>, k: Seq<char>)
    requires
        forall|i: int| 0 <= i < s.len() ==> (#[trigger] s[i])@ != k,
    ensures
        without(s, k) == s,
    decreases s.len(),
{
    reveal_with_fuel(Seq::<_>::filter, 1);
    if s.len() > 0 {
        let dl = s.drop_last();
        assert forall|i: int| 0 <= i < dl.len() implies (#[trigger] dl[i])@ != k by {
            assert(dl[i] == s[i]);
        }
        lemma_without_absent(dl, k);
        assert(s[s.len() - 1]@ != k);
        assert(dl.push(s.last()) =~= s);
    }
}

/// The ledger of the ChronoPay contract. Every listed professional is
/// authorized and none is listed twice.
pub struct ChronoPayContract {
    admin: Option<String>,
    schedule: SlotSchedule,
    professionals: Vec<String>,
    registry: Table<ProfessionalMetadata>,
    tokens: Table<TokenEntry>,
}

impl View for ChronoPayContract {
    type V = LedgerModel;

    closed spec fn view(&self) -> LedgerModel {
        LedgerModel {
            admin: self.admin,
            slot_seq: self.schedule@.slot_seq,
            slots: self.schedule@.slots,
            professionals: self.professionals@,
            registry: self.registry@,
            tokens: self.tokens@,
        }
    }
}

impl ChronoPayContract {
    /// Every listed professional is authorized and none is listed twice.
    #[verifier::type_invariant]
    pub open spec fn well_formed(&self) -> bool {
        enumeration_sound(self@)
    }

    /// A freshly deployed ledger: no admin, no professional, no slot, no token.
    pub fn new() -> (c: Self)
        ensures
            c@ == (LedgerModel {
                admin: None,
                slot_seq: 0,
                slots: Seq::empty(),
                professionals: Seq::empty(),
                registry: Map::empty(),
                tokens: Map::empty(),
            }),
    {
        ChronoPayContract {
            admin: None,
            schedule: SlotSchedule::new(),
            professionals: Vec::new(),
            registry: Table::new(),
            tokens: Table::new(),
        }
    }

    /// A ledger made of the given parts; `None` when a listed professional is
    /// not in the registry or is listed twice.
    pub fn from_parts(
        admin: Option<String>,
        schedule: SlotSchedule,
        professionals: Vec<String>,
        registry: Table<ProfessionalMetadata>,
        tokens: Table<TokenEntry>,
    ) -> (r: Option<Self>)
        ensures
            ({
                let m = LedgerModel {
                    admin,
                    slot_seq: schedule@.slot_seq,
                    slots: schedule@.slots,
                    professionals: professionals@,
                    registry: registry@,
                    tokens: tokens@,
                };
                &&& r is Some <==> list_sound(professionals@, registry@)
                &&& r matches Some(c) ==> c@ == m
            }),
    {
        let n = professionals.len();
        let mut j: usize = 0;
        while j < n
            invariant
                n == professionals@.len(),
                j <= n,
                forall|a: int| 0 <= a < j ==> registry@.contains_key((#[trigger] professionals@[a])@),
                forall|a: int, b: int|
                    0 <= a < b < j ==> (#[trigger] professionals@[a])@ != (
                    #[trigger] professionals@[b])@,
            decreases n - j,
        {
            if !registry.contains_key(&professionals[j]) {
                assert(!registry@.contains_key(professionals@[j as int]@));
                return None;
            }
            let mut i: usize = 0;
            while i < j
                invariant
                    n == professionals@.len(),
                    i <= j < n,
                    forall|a: int|
                        0 <= a < i ==> (#[trigger] professionals@[a])@ != professionals@[j as int]@,
                decreases j - i,
            {
                if professionals[i] == professionals[j] {
                    assert(professionals@[i as int]@ == professionals@[j as int]@);
                    return None;
                }
                i = i + 1;
            }
            j = j + 1;
        }
        Some(ChronoPayContract { admin, schedule, professionals, registry, tokens })
    }

    /// The slot book.
    pub fn schedule(&self) -> (r: &SlotSchedule)
        ensures
            r@.slot_seq == self@.slot_seq,
            r@.slots == self@.slots,
    {
        &self.schedule
    }

    /// The registry of authorized professionals and their metadata.
    pub fn registry(&self) -> (r: &Table<ProfessionalMetadata>)
        ensures
            r@ == self@.registry,
    {
        &self.registry
    }

    /// The recorded tokens.
    pub fn tokens(&self) -> (r: &Table<TokenEntry>)
        ensures
            r@ == self@.tokens,
    {
        &self.tokens
    }

    /// Takes the ledger apart, leaving a fresh one in its place.
    fn take_parts(&mut self) -> (parts: (
        Option<String>,
        SlotSchedule,
        Vec<String>,
        Table<ProfessionalMetadata>,
        Table<TokenEntry>,
    ))
        ensures
            parts.0 == old(self)@.admin,
            parts.1@.slot_seq == old(self)@.slot_seq,
            parts.1@.slots == old(self)@.slots,
            parts.2@ == old(self)@.professionals,
            parts.3@ == old(self)@.registry,
            parts.4@ == old(self)@.tokens,
            enumeration_sound(old(self)@),
    {
        proof {
            use_type_invariant(&*self);
        }
        let mut cur = ChronoPayContract::new();
        core::mem::swap(self, &mut cur);
        let ChronoPayContract { admin, schedule, professionals, registry, tokens } = cur;
        (admin, schedule, professionals, registry, tokens)
    }

    /// Requires the admin's authorization; refused with `AdminError` when no
    /// admin has been set.
    fn require_admin(&self, fx: &mut Effects) -> (r: Result<(), ChronoPayError>)
        ensures
            match self@.admin {
                None => r == Err::<(), ChronoPayError>(ChronoPayError::AdminError)
                    && final(fx).extends(*old(fx), seq![], seq![]),
                Some(a) => r == Ok::<(), ChronoPayError>(()) && final(fx).extends(
                    *old(fx),
                    seq![a],
                    seq![],
                ),
            },
    {
        match &self.admin {
            None => {
                assert(fx.auth_required@ =~= old(fx).auth_required@ + seq![]);
                assert(fx.events@ =~= old(fx).events@ + seq![]);
                Err(ChronoPayError::AdminError)
            },
            Some(a) => {
                fx.auth_required.push(a.clone());
                assert(fx.auth_required@ =~= old(fx).auth_required@ + seq![*a]);
                assert(fx.events@ =~= old(fx).events@ + seq![]);
                Ok(())
            },
        }
    }

    /// Initialize the contract with an admin address, which must authorize.
    ///
    /// `contract_address` is the address of the contract itself. Refused with
    /// `InvalidInput` if the admin is the contract itself.
    pub fn initialize(&mut self, fx: &mut Effects, contract_address: &String, admin: String) -> (r:
        Result<(), ChronoPayError>)
        ensures
            final(self)@ == spec_initialize(old(self)@, contract_address@, admin).state,
            r == spec_initialize(old(self)@, contract_address@, admin).result,
            final(fx).extends(
                *old(fx),
                spec_initialize(old(self)@, contract_address@, admin).auths,
                spec_initialize(old(self)@, contract_address@, admin).events,
            ),
    {
        if admin == *contract_address {
            assert(fx.auth_required@ =~= old(fx).auth_required@ + seq![]);
            assert(fx.events@ =~= old(fx).events@ + seq![]);
            return Err(ChronoPayError::InvalidInput);
        }
        let ghost admin_value = admin;
        fx.auth_required.push(admin.clone());
        let (_old_admin, mut schedule, _old_list, registry, tokens) = self.take_parts();
        schedule.restart_numbering();
        *self = ChronoPayContract {
            admin: Some(admin),
            schedule,
            professionals: Vec::new(),
            registry,
            tokens,
        };
        assert(fx.auth_required@ =~= old(fx).auth_required@ + seq![admin_value]);
        assert(fx.events@ =~= old(fx).events@ + seq![]);
        assert(self@ =~= spec_initialize(old(self)@, contract_address@, admin_value).state);
        Ok(())
    }

    /// Authorize a professional to create time slots. Only the admin may.
    ///
    /// `now` is the ledger timestamp, recorded as the verification time.
    /// Refused with `AdminError` when no admin is set, `AlreadyAuthorized`
    /// when the professional is already authorized, and `InvalidInput` when
    /// the name or the category is empty.
    pub fn authorize_professional(
        &mut self,
        fx: &mut Effects,
        now: u64,
        professional: &String,
        name: &String,
        category: &String,
    ) -> (r: Result<(), ChronoPayError>)
        ensures
            final(self)@ == spec_authorize(old(self)@, now, *professional, *name, *category).state,
            r == spec_authorize(old(self)@, now, *professional, *name, *category).result,
            final(fx).extends(
                *old(fx),
                spec_authorize(old(self)@, now, *professional, *name, *category).auths,
                spec_authorize(old(self)@, now, *professional, *name, *category).events,
            ),
    {
        match self.require_admin(fx) {
            Ok(()) => {},
            Err(e) => {
                return Err(e);
            },
        }
        proof {
            use_type_invariant(&*self);
        }
        if self.registry.contains_key(professional) {
            return Err(ChronoPayError::AlreadyAuthorized);
        }
        if name.as_str().is_empty() || category.as_str().is_empty() {
            return Err(ChronoPayError::InvalidInput);
        }
        let metadata = ProfessionalMetadata {
            name: name.clone(),
            verified_at: now,
            category: category.clone(),
        };
        let (admin, schedule, mut professionals, mut registry, tokens) = self.take_parts();
        registry.insert(professional.clone(), metadata);
        proof {
            assert forall|i: int| 0 <= i < professionals@.len() implies (
            #[trigger] professionals@[i])@ != professional@ by {
                assert(old(self)@.registry.contains_key(professionals@[i]@));
            }
        }
        professionals.push(professional.clone());
        proof {
            let l = professionals@;
            assert forall|i: int| 0 <= i < l.len() implies registry@.contains_key(
                (#[trigger] l[i])@,
            ) by {
                if i < l.len() - 1 {
                    assert(old(self)@.registry.contains_key(old(self)@.professionals[i]@));
                }
            }
            assert forall|i: int, j: int| 0 <= i < j < l.len() implies (#[trigger] l[i])@ != (
            #[trigger] l[j])@ by {
                assert(l[i] == old(self)@.professionals[i]);
                if j < l.len() - 1 {
                    assert(l[j] == old(self)@.professionals[j]);
                }
            }
        }
        *self = ChronoPayContract { admin, schedule, professionals, registry, tokens };
        events::professional_authorized(&mut fx.events, professional, name, category);
        assert(fx.events@ =~= old(fx).events@ + seq![
            Event::ProfessionalAuthorized {
                professional: *professional,
                name: *name,
                category: *category,
            },
        ]);
        assert(self@ =~= spec_authorize(old(self)@, now, *professional, *name, *category).state);
        Ok(())
    }

    /// Unauthorize a professional, preventing them from creating new time
    /// slots. Only the admin may.
    ///
    /// Refused with `AdminError` when no admin is set and
    /// `ProfessionalNotFound` when the professional is not authorized.
    pub fn unauthorize_professional(&mut self, fx: &mut Effects, professional: &String) -> (r:
        Result<(), ChronoPayError>)
        ensures
            final(self)@ == spec_unauthorize(old(self)@, *professional).state,
            r == spec_unauthorize(old(self)@, *professional).result,
            final(fx).extends(
                *old(fx),
                spec_unauthorize(old(self)@, *professional).auths,
                spec_unauthorize(old(self)@, *professional).events,
            ),
    {
        match self.require_admin(fx) {
            Ok(()) => {},
            Err(e) => {
                return Err(e);
            },
        }
        proof {
            use_type_invariant(&*self);
        }
        if !self.registry.contains_key(professional) {
            return Err(ChronoPayError::ProfessionalNotFound);
        }
        let mut kept: Vec<String> = Vec::new();
        let n = self.professionals.len();
        for i in 0..n
            invariant
                n == self.professionals@.len(),
                kept@ == without(self.professionals@.take(i as int), professional@),
        {
            proof {
                reveal_with_fuel(Seq::<_>::filter, 1);
                assert(self.professionals@.take(i + 1).drop_last() =~= self.professionals@.take(
                    i as int,
                ));
            }
            if !(self.professionals[i] == *professional) {
                kept.push(self.professionals[i].clone());
            }
        }
        assert(self.professionals@.take(n as int) =~= self.professionals@);
        proof {
            lemma_without(self.professionals@, professional@);
            assert forall|i: int| 0 <= i < kept@.len() implies self.registry@.contains_key(
                (#[trigger] kept@[i])@,
            ) && (#[trigger] kept@[i])@ != professional@ by {
                let j = choose|j: int|
                    0 <= j < self.professionals@.len() && self.professionals@[j] == kept@[i];
                assert(self.registry@.contains_key(self.professionals@[j]@));
            }
        }
        let (admin, schedule, _old_list, mut registry, tokens) = self.take_parts();
        registry.remove(professional);
        proof {
            assert forall|i: int| 0 <= i < kept@.len() implies registry@.contains_key(
                (#[trigger] kept@[i])@,
            ) by {
                assert(old(self)@.registry.contains_key(kept@[i]@));
            }
        }
        *self = ChronoPayContract { admin, schedule, professionals: kept, registry, tokens };
        events::professional_unauthorized(&mut fx.events, professional);
        assert(fx.events@ =~= old(fx).events@ + seq![
            Event::ProfessionalUnauthorized { professional: *professional },
        ]);
        assert(self@ =~= spec_unauthorize(old(self)@, *professional).state);
        Ok(())
    }

    /// Whether a professional is authorized.
    pub fn is_professional_authorized(&self, professional: &String) -> (r: bool)
        ensures
            r == self@.registry.contains_key(professional@),
    {
        self.registry.contains_key(professional)
    }

    /// The metadata of a professional, if authorized.
    pub fn get_professional_metadata(&self, professional: &String) -> (r: Option<
        ProfessionalMetadata,
    >)
        ensures
            r == (if self@.registry.contains_key(professional@) {
                Some(self@.registry[professional@])
            } else {
                None
            }),
    {
        match self.registry.get(professional) {
            Some(m) => Some(m.clone()),
            None => None,
        }
    }

    /// The enumeration list of authorized professionals.
    pub fn get_authorized_professionals(&self) -> (r: Vec<String>)
        ensures
            r@ == self@.professionals,
    {
        let mut r: Vec<String> = Vec::new();
        let n = self.professionals.len();
        for i in 0..n
            invariant
                n == self.professionals@.len(),
                r@ == self.professionals@.take(i as int),
        {
            r.push(self.professionals[i].clone());
            assert(r@ =~= self.professionals@.take(i + 1));
        }
        assert(self.professionals@.take(n as int) =~= self.professionals@);
        r
    }

    /// The admin address, if set.
    pub fn get_admin(&self) -> (r: Option<String>)
        ensures
            r == self@.admin,
    {
        match &self.admin {
            Some(a) => Some(a.clone()),
            None => None,
        }
    }

    /// Create a time slot with an auto-incrementing slot id. Only an
    /// authorized professional may, and they must authorize.
    ///
    /// `now` is the ledger timestamp. Emits whether the professional was found
    /// authorized. Refused with `ProfessionalNotAuthorized` when they are not,
    /// and with `InvalidInput` when the window is empty, starts before `now`,
    /// overlaps one of the professional's slots, or no slot id is left.
    pub fn create_time_slot(
        &mut self,
        fx: &mut Effects,
        now: u64,
        professional: &String,
        start_time: u64,
        end_time: u64,
    ) -> (r: Result<u32, ChronoPayError>)
        ensures
            final(self)@ == spec_create_time_slot(
                old(self)@,
                now,
                *professional,
                start_time,
                end_time,
            ).state,
            r == spec_create_time_slot(old(self)@, now, *professional, start_time, end_time).result,
            final(fx).extends(
                *old(fx),
                spec_create_time_slot(old(self)@, now, *professional, start_time, end_time).auths,
                spec_create_time_slot(old(self)@, now, *professional, start_time, end_time).events,
            ),
    {
        fx.auth_required.push(professional.clone());
        assert(fx.auth_required@ =~= old(fx).auth_required@ + seq![*professional]);
        if !self.registry.contains_key(professional) {
            events::authorization_checked(&mut fx.events, professional, false);
            assert(fx.events@ =~= old(fx).events@ + seq![
                Event::AuthorizationChecked { professional: *professional, authorized: false },
            ]);
            return Err(ChronoPayError::ProfessionalNotAuthorized);
        }
        events::authorization_checked(&mut fx.events, professional, true);
        let ghost checked = Event::AuthorizationChecked {
            professional: *professional,
            authorized: true,
        };
        assert(fx.events@ =~= old(fx).events@ + seq![checked]);
        if start_time >= end_time || start_time < now {
            return Err(ChronoPayError::InvalidInput);
        }
        let (admin, mut schedule, professionals, registry, tokens) = self.take_parts();
        let booked = schedule.create_time_slot(professional, start_time, end_time);
        *self = ChronoPayContract { admin, schedule, professionals, registry, tokens };
        let id = match booked {
            Ok(id) => id,
            Err(e) => {
                assert(self@ =~= old(self)@);
                return Err(e);
            },
        };
        events::time_slot_created(&mut fx.events, id, professional, start_time, end_time);
        assert(fx.events@ =~= old(fx).events@ + seq![
            checked,
            Event::TimeSlotCreated {
                slot_id: id,
                professional: *professional,
                start_time,
                end_time,
            },
        ]);
        assert(self@ =~= spec_create_time_slot(
            old(self)@,
            now,
            *professional,
            start_time,
            end_time,
        ).state);
        Ok(id)
    }

    /// Mint the time token for a slot. Only an authorized professional may,
    /// and they must authorize.
    ///
    /// The token `TIME_TOKEN` becomes owned by the professional and available,
    /// whatever `slot_id` is. Refused with `ProfessionalNotAuthorized` when the
    /// professional is not authorized.
    pub fn mint_time_token(&mut self, fx: &mut Effects, professional: &String, slot_id: u32) -> (r:
        Result<String, ChronoPayError>)
        ensures
            final(self)@ == spec_mint_time_token(old(self)@, *professional).state,
            match r {
                Ok(t) => spec_mint_time_token(old(self)@, *professional).result == Ok::<
                    Seq<char>,
                    ChronoPayError,
                >(t@),
                Err(e) => spec_mint_time_token(old(self)@, *professional).result == Err::<
                    Seq<char>,
                    ChronoPayError,
                >(e),
            },
            final(fx).extends(
                *old(fx),
                spec_mint_time_token(old(self)@, *professional).auths,
                spec_mint_time_token(old(self)@, *professional).events,
            ),
    {
        fx.auth_required.push(professional.clone());
        assert(fx.auth_required@ =~= old(fx).auth_required@ + seq![*professional]);
        assert(fx.events@ =~= old(fx).events@ + seq![]);
        if !self.registry.contains_key(professional) {
            return Err(ChronoPayError::ProfessionalNotAuthorized);
        }
        let token_id = "TIME_TOKEN".to_owned();
        let (admin, schedule, professionals, registry, mut tokens) = self.take_parts();
        tokens.insert(
            token_id.clone(),
            TokenEntry { owner: Some(professional.clone()), status: TimeTokenStatus::Available },
        );
        *self = ChronoPayContract { admin, schedule, professionals, registry, tokens };
        assert(self@ =~= spec_mint_time_token(old(self)@, *professional).state);
        Ok(token_id)
    }

    /// Buy / transfer a time token: the token becomes sold and owned by the
    /// buyer.
    ///
    /// Refused with `InvalidInput` when the token is recorded with a status
    /// other than available (already sold or redeemed); a token never minted
    /// can be bought. The seller is not checked.
    pub fn buy_time_token(&mut self, token_id: &String, buyer: &String, seller: &String) -> (r:
        Result<bool, ChronoPayError>)
        ensures
            final(self)@ == spec_buy_time_token(old(self)@, token_id@, *buyer).state,
            r == spec_buy_time_token(old(self)@, token_id@, *buyer).result,
    {
        match self.tokens.get(token_id) {
            Some(entry) => {
                if entry.status != TimeTokenStatus::Available {
                    return Err(ChronoPayError::InvalidInput);
                }
            },
            None => {},
        }
        let (admin, schedule, professionals, registry, mut tokens) = self.take_parts();
        tokens.insert(
            token_id.clone(),
            TokenEntry { owner: Some(buyer.clone()), status: TimeTokenStatus::Sold },
        );
        *self = ChronoPayContract { admin, schedule, professionals, registry, tokens };
        assert(self@ =~= spec_buy_time_token(old(self)@, token_id@, *buyer).state);
        Ok(true)
    }

    /// Redeem a time token: the token becomes redeemed, keeping its owner.
    ///
    /// Refused with `InvalidInput` when the token is recorded with a status
    /// other than sold; a token never minted can be redeemed.
    pub fn redeem_time_token(&mut self, token_id: &String) -> (r: Result<bool, ChronoPayError>)
        ensures
            final(self)@ == spec_redeem_time_token(old(self)@, token_id@).state,
            r == spec_redeem_time_token(old(self)@, token_id@).result,
    {
        let owner = match self.tokens.get(token_id) {
            Some(entry) => {
                if entry.status != TimeTokenStatus::Sold {
                    return Err(ChronoPayError::InvalidInput);
                }
                match &entry.owner {
                    Some(o) => Some(o.clone()),
                    None => None,
                }
            },
            None => None,
        };
        let (admin, schedule, professionals, registry, mut tokens) = self.take_parts();
        tokens.insert(token_id.clone(), TokenEntry { owner, status: TimeTokenStatus::Redeemed });
        *self = ChronoPayContract { admin, schedule, professionals, registry, tokens };
        assert(self@ =~= spec_redeem_time_token(old(self)@, token_id@).state);
        Ok(true)
    }

    /// Greeting entry point: the words `ChronoPay` and `to`.
    pub fn hello(to: String) -> (r: Vec<String>)
        ensures
            r@.len() == 2,
            r@[0]@ == "ChronoPay"@,
            r@[1] == to,
    {
        let mut words: Vec<String> = Vec::new();
        words.push("ChronoPay".to_owned());
        words.push(to);
        words
    }
}

} // verus!
