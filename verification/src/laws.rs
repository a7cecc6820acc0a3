//! Properties of the ledger that span entry points or hold of every state.

use vstd::prelude::*;
use crate::contract::{
    spec_authorize, spec_buy_time_token, spec_create_time_slot, spec_initialize,
    spec_mint_time_token, spec_redeem_time_token, spec_unauthorize, time_token_id, token_owner, without, enumeration_sound, enumeration_complete,
    lemma_without, lemma_without_absent,
    LedgerModel,
};
use crate::errors;
use crate::events::Event;
use crate::schedule::{booking_result, conflicts_with, no_overlaps, windows_overlap, TimeSlot};
use crate::types::{ChronoPayError, ProfessionalMetadata, TimeTokenStatus, TokenEntry};

verus! {

/// A freshly deployed ledger lists exactly its (no) authorized professionals
/// and has no overlapping slots.
pub proof fn law_fresh_ledger_is_consistent(m: LedgerModel)
    requires
        m == (LedgerModel {
            admin: None,
            slot_seq: 0,
            slots: Seq::empty(),
            professionals: Seq::empty(),
            registry: Map::empty(),
            tokens: Map::empty(),
        }),
    ensures
        enumeration_sound(m),
        enumeration_complete(m),
        no_overlaps(m.slots),
{
}

/// A refused request leaves the ledger unchanged.
pub proof fn law_refusal_changes_nothing(
    m: LedgerModel,
    now: u64,
    contract_address: Seq<char>,
    admin: String,
    professional: String,
    name: String,
    category: String,
    start_time: u64,
    end_time: u64,
    token_id: Seq<char>,
    buyer: String,
)
    ensures
        spec_initialize(m, contract_address, admin).result is Err ==> spec_initialize(
            m,
            contract_address,
            admin,
        ).state == m,
        spec_authorize(m, now, professional, name, category).result is Err ==> spec_authorize(
            m,
            now,
            professional,
            name,
            category,
        ).state == m,
        spec_unauthorize(m, professional).result is Err ==> spec_unauthorize(m, professional).state
            == m,
        spec_create_time_slot(m, now, professional, start_time, end_time).result is Err
            ==> spec_create_time_slot(m, now, professional, start_time, end_time).state == m,
        spec_mint_time_token(m, professional).result is Err ==> spec_mint_time_token(
            m,
            professional,
        ).state == m,
        spec_buy_time_token(m, token_id, buyer).result is Err ==> spec_buy_time_token(m, token_id, buyer).state
            == m,
        spec_redeem_time_token(m, token_id).result is Err ==> spec_redeem_time_token(
            m,
            token_id,
        ).state == m,
{
}

/// The enumeration list never names an unauthorized professional nor names
/// one twice, whatever entry point runs.
pub proof fn law_enumeration_stays_sound(
    m: LedgerModel,
    now: u64,
    contract_address: Seq<char>,
    admin: String,
    professional: String,
    name: String,
    category: String,
    start_time: u64,
    end_time: u64,
    token_id: Seq<char>,
    buyer: String,
)
    requires
        enumeration_sound(m),
    ensures
        enumeration_sound(spec_initialize(m, contract_address, admin).state),
        enumeration_sound(spec_authorize(m, now, professional, name, category).state),
        enumeration_sound(spec_unauthorize(m, professional).state),
        enumeration_sound(spec_create_time_slot(m, now, professional, start_time, end_time).state),
        enumeration_sound(spec_mint_time_token(m, professional).state),
        enumeration_sound(spec_buy_time_token(m, token_id, buyer).state),
        enumeration_sound(spec_redeem_time_token(m, token_id).state),
{
    let a = spec_authorize(m, now, professional, name, category);
    if a.result is Ok {
        let s = a.state;
        assert forall|i: int| 0 <= i < s.professionals.len() implies s.registry.contains_key(
            (#[trigger] s.professionals[i])@,
        ) by {
            if i < m.professionals.len() {
                assert(s.professionals[i] == m.professionals[i]);
            }
        }
        assert forall|i: int, j: int| 0 <= i < j < s.professionals.len() implies (
        #[trigger] s.professionals[i])@ != (#[trigger] s.professionals[j])@ by {
            assert(s.professionals[i] == m.professionals[i]);
            if j < m.professionals.len() {
                assert(s.professionals[j] == m.professionals[j]);
            }
        }
    }
    let u = spec_unauthorize(m, professional);
    if u.result is Ok {
        let s = u.state;
        lemma_without(m.professionals, professional@);
        assert forall|i: int| 0 <= i < s.professionals.len() implies s.registry.contains_key(
            (#[trigger] s.professionals[i])@,
        ) by {
            let j = choose|j: int|
                0 <= j < m.professionals.len() && m.professionals[j] == s.professionals[i];
            assert(m.registry.contains_key(m.professionals[j]@));
        }
    }
}

/// The enumeration list names every authorized professional as long as
/// `initialize` does not run while some professional is authorized.
pub proof fn law_enumeration_stays_complete(
    m: LedgerModel,
    now: u64,
    contract_address: Seq<char>,
    admin: String,
    professional: String,
    name: String,
    category: String,
    start_time: u64,
    end_time: u64,
    token_id: Seq<char>,
    buyer: String,
)
    requires
        enumeration_complete(m),
    ensures
        m.registry.is_empty() ==> enumeration_complete(
            spec_initialize(m, contract_address, admin).state,
        ),
        enumeration_complete(spec_authorize(m, now, professional, name, category).state),
        enumeration_complete(spec_unauthorize(m, professional).state),
        enumeration_complete(
            spec_create_time_slot(m, now, professional, start_time, end_time).state,
        ),
        enumeration_complete(spec_mint_time_token(m, professional).state),
        enumeration_complete(spec_buy_time_token(m, token_id, buyer).state),
        enumeration_complete(spec_redeem_time_token(m, token_id).state),
{
    let a = spec_authorize(m, now, professional, name, category);
    if a.result is Ok {
        let s = a.state;
        assert forall|k: Seq<char>| #[trigger] s.registry.contains_key(k) implies exists|i: int|
            0 <= i < s.professionals.len() && (#[trigger] s.professionals[i])@ == k by {
            if k == professional@ {
                assert(s.professionals[s.professionals.len() - 1] == professional);
            } else {
                let i = choose|i: int|
                    0 <= i < m.professionals.len() && (#[trigger] m.professionals[i])@ == k;
                assert(s.professionals[i] == m.professionals[i]);
            }
        }
    }
    let c = spec_create_time_slot(m, now, professional, start_time, end_time).state;
    assert(c.registry == m.registry && c.professionals == m.professionals);
    let t = spec_mint_time_token(m, professional).state;
    assert(t.registry == m.registry && t.professionals == m.professionals);
    let b = spec_buy_time_token(m, token_id, buyer).state;
    assert(b.registry == m.registry && b.professionals == m.professionals);
    let r = spec_redeem_time_token(m, token_id).state;
    assert(r.registry == m.registry && r.professionals == m.professionals);
    let u = spec_unauthorize(m, professional);
    if u.result is Ok {
        let s = u.state;
        lemma_without(m.professionals, professional@);
        assert forall|k: Seq<char>| #[trigger] s.registry.contains_key(k) implies exists|i: int|
            0 <= i < s.professionals.len() && (#[trigger] s.professionals[i])@ == k by {
            let j = choose|j: int|
                0 <= j < m.professionals.len() && (#[trigger] m.professionals[j])@ == k;
            assert(m.professionals[j]@ != professional@);
            let i = choose|i: int|
                0 <= i < s.professionals.len() && s.professionals[i] == m.professionals[j];
        }
    }
}

/// No two slots of the same professional ever overlap.
pub proof fn law_slots_never_overlap(
    m: LedgerModel,
    now: u64,
    contract_address: Seq<char>,
    admin: String,
    professional: String,
    name: String,
    category: String,
    start_time: u64,
    end_time: u64,
    token_id: Seq<char>,
    buyer: String,
)
    requires
        no_overlaps(m.slots),
    ensures
        no_overlaps(spec_initialize(m, contract_address, admin).state.slots),
        no_overlaps(spec_authorize(m, now, professional, name, category).state.slots),
        no_overlaps(spec_unauthorize(m, professional).state.slots),
        no_overlaps(spec_create_time_slot(m, now, professional, start_time, end_time).state.slots),
        no_overlaps(spec_mint_time_token(m, professional).state.slots),
        no_overlaps(spec_buy_time_token(m, token_id, buyer).state.slots),
        no_overlaps(spec_redeem_time_token(m, token_id).state.slots),
{
    let c = spec_create_time_slot(m, now, professional, start_time, end_time);
    if c.result is Ok {
        let s = c.state.slots;
        assert(!conflicts_with(m.slots, professional@, start_time, end_time));
        assert forall|i: int, j: int|
            0 <= i < j < s.len() && (#[trigger] s[i]).professional@ == (
            #[trigger] s[j]).professional@ implies !windows_overlap(
            s[i].start_time,
            s[i].end_time,
            s[j].start_time,
            s[j].end_time,
        ) by {
            assert(s[i] == m.slots[i]);
            if j < m.slots.len() {
                assert(s[j] == m.slots[j]);
            } else {
                assert(s[j].professional == professional);
                assert(!((m.slots[i]).professional@ == professional@ && windows_overlap(
                    m.slots[i].start_time,
                    m.slots[i].end_time,
                    start_time,
                    end_time,
                )));
            }
        }
    }
}

/// Successful slot creations hand out consecutive ids.
pub proof fn law_slot_ids_consecutive(
    m: LedgerModel,
    now: u64,
    p1: String,
    start1: u64,
    end1: u64,
    p2: String,
    start2: u64,
    end2: u64,
)
    requires
        spec_create_time_slot(m, now, p1, start1, end1).result is Ok,
        spec_create_time_slot(
            spec_create_time_slot(m, now, p1, start1, end1).state,
            now,
            p2,
            start2,
            end2,
        ).result is Ok,
    ensures
        spec_create_time_slot(m, now, p1, start1, end1).result == Ok::<u32, ChronoPayError>(
            (m.slot_seq + 1) as u32,
        ),
        spec_create_time_slot(
            spec_create_time_slot(m, now, p1, start1, end1).state,
            now,
            p2,
            start2,
            end2,
        ).result == Ok::<u32, ChronoPayError>((m.slot_seq + 2) as u32),
{
}

/// Only an authorized professional can create a time slot or mint a token,
/// and only with their own authorization.
pub proof fn law_only_authorized_professionals_act(
    m: LedgerModel,
    now: u64,
    professional: String,
    start_time: u64,
    end_time: u64,
)
    ensures
        spec_create_time_slot(m, now, professional, start_time, end_time).result is Ok
            ==> m.registry.contains_key(professional@),
        spec_create_time_slot(m, now, professional, start_time, end_time).auths == seq![
            professional,
        ],
        spec_mint_time_token(m, professional).result is Ok ==> m.registry.contains_key(
            professional@,
        ),
        spec_mint_time_token(m, professional).auths == seq![professional],
{
}

/// Only the admin changes the registry: authorizing and unauthorizing
/// require the admin's authorization, and no other entry point touches it.
pub proof fn law_only_admin_changes_registry(
    m: LedgerModel,
    now: u64,
    contract_address: Seq<char>,
    admin: String,
    professional: String,
    name: String,
    category: String,
    start_time: u64,
    end_time: u64,
    token_id: Seq<char>,
    buyer: String,
)
    ensures
        spec_authorize(m, now, professional, name, category).result is Ok ==> m.admin is Some
            && spec_authorize(m, now, professional, name, category).auths == seq![
            m.admin->Some_0,
        ],
        spec_unauthorize(m, professional).result is Ok ==> m.admin is Some && spec_unauthorize(
            m,
            professional,
        ).auths == seq![m.admin->Some_0],
        spec_initialize(m, contract_address, admin).state.registry == m.registry,
        spec_create_time_slot(m, now, professional, start_time, end_time).state.registry
            == m.registry,
        spec_mint_time_token(m, professional).state.registry == m.registry,
        spec_buy_time_token(m, token_id, buyer).state.registry == m.registry,
        spec_redeem_time_token(m, token_id).state.registry == m.registry,
{
}

/// After authorizing a professional, they are authorized, their metadata is
/// what was given (stamped with the ledger time) and they are listed.
pub proof fn law_authorize_then_query(
    m: LedgerModel,
    now: u64,
    professional: String,
    name: String,
    category: String,
)
    requires
        spec_authorize(m, now, professional, name, category).result is Ok,
    ensures
        spec_authorize(m, now, professional, name, category).state.registry.contains_key(
            professional@,
        ),
        spec_authorize(m, now, professional, name, category).state.registry[professional@]
            == (ProfessionalMetadata { name, verified_at: now, category }),
        spec_authorize(m, now, professional, name, category).state.professionals.contains(
            professional,
        ),
        spec_authorize(m, now, professional, name, category).events == seq![
            Event::ProfessionalAuthorized { professional, name, category },
        ],
{
    let s = spec_authorize(m, now, professional, name, category).state;
    assert(s.professionals[s.professionals.len() - 1] == professional);
}

/// Authorizing a professional again is refused until they are unauthorized.
pub proof fn law_authorize_twice_refused(
    m: LedgerModel,
    now: u64,
    later: u64,
    professional: String,
    name: String,
    category: String,
    name2: String,
    category2: String,
)
    requires
        spec_authorize(m, now, professional, name, category).result is Ok,
    ensures
        spec_authorize(
            spec_authorize(m, now, professional, name, category).state,
            later,
            professional,
            name2,
            category2,
        ).result == Err::<(), ChronoPayError>(ChronoPayError::AlreadyAuthorized),
{
}

/// Unauthorizing undoes authorizing: the ledger is back where it was. The
/// list soundness it assumes holds of every ledger (`ChronoPayContract`'s
/// type invariant).
pub proof fn law_unauthorize_undoes_authorize(
    m: LedgerModel,
    now: u64,
    professional: String,
    name: String,
    category: String,
)
    requires
        enumeration_sound(m),
        spec_authorize(m, now, professional, name, category).result is Ok,
    ensures
        spec_unauthorize(spec_authorize(m, now, professional, name, category).state, professional).result
            == Ok::<(), ChronoPayError>(()),
        spec_unauthorize(spec_authorize(m, now, professional, name, category).state, professional).state
            == m,
        !spec_unauthorize(
            spec_authorize(m, now, professional, name, category).state,
            professional,
        ).state.registry.contains_key(professional@),
{
    let s1 = spec_authorize(m, now, professional, name, category).state;
    let s2 = spec_unauthorize(s1, professional).state;
    assert forall|i: int| 0 <= i < m.professionals.len() implies (
    #[trigger] m.professionals[i])@ != professional@ by {
        assert(m.registry.contains_key(m.professionals[i]@));
    }
    lemma_without_absent(m.professionals, professional@);
    reveal_with_fuel(Seq::<_>::filter, 1);
    assert(m.professionals.push(professional).drop_last() =~= m.professionals);
    assert(without(m.professionals.push(professional), professional@) == without(
        m.professionals,
        professional@,
    ));
    assert(s2.registry =~= m.registry);
    assert(s2 =~= m);
}

/// A minted token can be bought once and then redeemed once, passing to the
/// buyer: after that it can be neither bought nor redeemed.
pub proof fn law_token_lifecycle(m: LedgerModel, professional: String, buyer: String)
    requires
        spec_mint_time_token(m, professional).result is Ok,
    ensures
        ({
            let minted = spec_mint_time_token(m, professional).state;
            let bought = spec_buy_time_token(minted, time_token_id(), buyer);
            let redeemed = spec_redeem_time_token(bought.state, time_token_id());
            &&& minted.tokens[time_token_id()] == (TokenEntry {
                owner: Some(professional),
                status: TimeTokenStatus::Available,
            })
            &&& spec_redeem_time_token(minted, time_token_id()).result is Err
            &&& bought.result == Ok::<bool, ChronoPayError>(true)
            &&& bought.state.tokens[time_token_id()] == (TokenEntry {
                owner: Some(buyer),
                status: TimeTokenStatus::Sold,
            })
            &&& spec_buy_time_token(bought.state, time_token_id(), buyer).result is Err
            &&& redeemed.result == Ok::<bool, ChronoPayError>(true)
            &&& redeemed.state.tokens[time_token_id()] == (TokenEntry {
                owner: Some(buyer),
                status: TimeTokenStatus::Redeemed,
            })
            &&& spec_buy_time_token(redeemed.state, time_token_id(), buyer).result is Err
            &&& spec_redeem_time_token(redeemed.state, time_token_id()).result is Err
        }),
{
}

/// Buying and redeeming only move a recorded token forward, Available to
/// Sold to Redeemed; a buy transfers the token to the buyer, a redeem keeps
/// its owner, and every other token is left alone.
pub proof fn law_tokens_only_move_forward(
    m: LedgerModel,
    token_id: Seq<char>,
    buyer: String,
    other: Seq<char>,
)
    requires
        other != token_id,
    ensures
        spec_buy_time_token(m, token_id, buyer).result is Ok ==> (m.tokens.contains_key(token_id)
            ==> m.tokens[token_id].status == TimeTokenStatus::Available) && spec_buy_time_token(
            m,
            token_id,
            buyer,
        ).state.tokens[token_id] == (TokenEntry {
            owner: Some(buyer),
            status: TimeTokenStatus::Sold,
        }),
        spec_redeem_time_token(m, token_id).result is Ok ==> (m.tokens.contains_key(token_id)
            ==> m.tokens[token_id].status == TimeTokenStatus::Sold) && spec_redeem_time_token(
            m,
            token_id,
        ).state.tokens[token_id] == (TokenEntry {
            owner: token_owner(m, token_id),
            status: TimeTokenStatus::Redeemed,
        }),
        spec_buy_time_token(m, token_id, buyer).state.tokens.contains_key(other)
            == m.tokens.contains_key(other),
        spec_buy_time_token(m, token_id, buyer).state.tokens[other] == m.tokens[other],
        spec_redeem_time_token(m, token_id).state.tokens.contains_key(other)
            == m.tokens.contains_key(other),
        spec_redeem_time_token(m, token_id).state.tokens[other] == m.tokens[other],
{
}

/// A token that was never recorded can be bought, and redeemed, by anyone.
pub proof fn law_unrecorded_token_accepted(m: LedgerModel, token_id: Seq<char>, buyer: String)
    requires
        !m.tokens.contains_key(token_id),
    ensures
        spec_buy_time_token(m, token_id, buyer).result == Ok::<bool, ChronoPayError>(true),
        spec_redeem_time_token(m, token_id).result == Ok::<bool, ChronoPayError>(true),
        spec_redeem_time_token(m, token_id).state.tokens[token_id] == (TokenEntry {
            owner: None,
            status: TimeTokenStatus::Redeemed,
        }),
{
}

/// The error codes of the ChronoPay errors are 1 to 9 and tell the errors apart.
pub proof fn law_error_codes_distinct(a: errors::ChronoPayError, b: errors::ChronoPayError)
    ensures
        1 <= a.spec_code() <= 9,
        a.spec_code() == b.spec_code() ==> a == b,
{
}

/// The contract error codes are 1 to 6 and tell the errors apart.
pub proof fn law_contract_error_codes_distinct(a: ChronoPayError, b: ChronoPayError)
    ensures
        1 <= a.spec_code() <= 6,
        a.spec_code() == b.spec_code() ==> a == b,
{
}

/// Two windows of one professional conflict exactly when they share an
/// instant: neither ends at or before the other's start.
pub proof fn law_conflict_is_shared_instant(
    slots: Seq<TimeSlot>,
    professional: Seq<char>,
    start_time: u64,
    end_time: u64,
)
    ensures
        conflicts_with(slots, professional, start_time, end_time) <==> exists|i: int|
            0 <= i < slots.len() && (#[trigger] slots[i]).professional@ == professional && !(
            slots[i].end_time <= start_time || end_time <= slots[i].start_time),
{
}

/// The slot book accepts a booking exactly when the window is non-empty,
/// an id is left, and the window shares no instant with a slot of the same
/// professional; it then hands out the id after the counter.
pub proof fn law_booking_accepts_exactly_free_windows(
    slot_seq: u32,
    slots: Seq<TimeSlot>,
    professional: Seq<char>,
    start_time: u64,
    end_time: u64,
)
    ensures
        booking_result(slot_seq, slots, professional, start_time, end_time) is Ok <==> {
            &&& start_time < end_time
            &&& slot_seq < u32::MAX
            &&& forall|i: int|
                0 <= i < slots.len() && (#[trigger] slots[i]).professional@ == professional
                    ==> slots[i].end_time <= start_time || end_time <= slots[i].start_time
        },
        booking_result(slot_seq, slots, professional, start_time, end_time) is Ok
            ==> booking_result(slot_seq, slots, professional, start_time, end_time) == Ok::<
            u32,
            ChronoPayError,
        >((slot_seq + 1) as u32),
        booking_result(slot_seq, slots, professional, start_time, end_time) is Err
            ==> booking_result(slot_seq, slots, professional, start_time, end_time) == Err::<
            u32,
            ChronoPayError,
        >(ChronoPayError::InvalidInput),
{
}

/// Creating a time slot succeeds exactly when the professional is authorized,
/// the window is non-empty and does not start before the ledger time, an id
/// is left, and the window shares no instant with one of the professional's
/// slots. The slot is then booked under the id after the counter.
pub proof fn law_create_time_slot_accepts_exactly(
    m: LedgerModel,
    now: u64,
    professional: String,
    start_time: u64,
    end_time: u64,
)
    ensures
        spec_create_time_slot(m, now, professional, start_time, end_time).result is Ok <==> {
            &&& m.registry.contains_key(professional@)
            &&& now <= start_time < end_time
            &&& m.slot_seq < u32::MAX
            &&& forall|i: int|
                0 <= i < m.slots.len() && (#[trigger] m.slots[i]).professional@ == professional@
                    ==> m.slots[i].end_time <= start_time || end_time <= m.slots[i].start_time
        },
        spec_create_time_slot(m, now, professional, start_time, end_time).result is Ok ==> {
            let s = spec_create_time_slot(m, now, professional, start_time, end_time);
            &&& s.result == Ok::<u32, ChronoPayError>((m.slot_seq + 1) as u32)
            &&& s.state.slot_seq == m.slot_seq + 1
            &&& s.state.slots == m.slots.push(
                TimeSlot {
                    slot_id: (m.slot_seq + 1) as u32,
                    professional,
                    start_time,
                    end_time,
                },
            )
            &&& s.state.registry == m.registry
            &&& s.state.professionals == m.professionals
            &&& s.state.tokens == m.tokens
        },
        !m.registry.contains_key(professional@) ==> spec_create_time_slot(
            m,
            now,
            professional,
            start_time,
            end_time,
        ).result == Err::<u32, ChronoPayError>(ChronoPayError::ProfessionalNotAuthorized),
        m.registry.contains_key(professional@) && spec_create_time_slot(
            m,
            now,
            professional,
            start_time,
            end_time,
        ).result is Err ==> spec_create_time_slot(m, now, professional, start_time, end_time).result
            == Err::<u32, ChronoPayError>(ChronoPayError::InvalidInput),
{
    law_booking_accepts_exactly_free_windows(m.slot_seq, m.slots, professional@, start_time, end_time);
}

/// With an admin set, authorizing succeeds exactly when the professional is
/// not yet authorized and the name and category are non-empty, whatever
/// else the ledger holds; the professional is then recorded with the given
/// metadata stamped with the ledger time, and listed last.
pub proof fn law_authorize_accepts_exactly(
    m: LedgerModel,
    now: u64,
    professional: String,
    name: String,
    category: String,
)
    ensures
        spec_authorize(m, now, professional, name, category).result is Ok <==> {
            &&& m.admin is Some
            &&& !m.registry.contains_key(professional@)
            &&& name@.len() > 0
            &&& category@.len() > 0
        },
        m.admin is None ==> spec_authorize(m, now, professional, name, category).result == Err::<
            (),
            ChronoPayError,
        >(ChronoPayError::AdminError),
        m.admin is Some && m.registry.contains_key(professional@) ==> spec_authorize(
            m,
            now,
            professional,
            name,
            category,
        ).result == Err::<(), ChronoPayError>(ChronoPayError::AlreadyAuthorized),
        m.admin is Some && !m.registry.contains_key(professional@) && (name@.len() == 0
            || category@.len() == 0) ==> spec_authorize(m, now, professional, name, category).result
            == Err::<(), ChronoPayError>(ChronoPayError::InvalidInput),
        spec_authorize(m, now, professional, name, category).result is Ok ==> {
            let s = spec_authorize(m, now, professional, name, category).state;
            &&& s.registry == m.registry.insert(
                professional@,
                ProfessionalMetadata { name, verified_at: now, category },
            )
            &&& s.professionals == m.professionals.push(professional)
            &&& s.admin == m.admin
            &&& s.slots == m.slots
            &&& s.tokens == m.tokens
        },
{
}

/// Minting succeeds exactly when the professional is authorized, whatever
/// tokens are recorded, and answers `TIME_TOKEN`, which becomes owned by the
/// professional and available.
pub proof fn law_mint_accepts_exactly(m: LedgerModel, professional: String)
    ensures
        spec_mint_time_token(m, professional).result == (if m.registry.contains_key(professional@) {
            Ok::<Seq<char>, ChronoPayError>("TIME_TOKEN"@)
        } else {
            Err::<Seq<char>, ChronoPayError>(ChronoPayError::ProfessionalNotAuthorized)
        }),
        m.registry.contains_key(professional@) ==> spec_mint_time_token(m, professional).state.tokens
            == m.tokens.insert(
            "TIME_TOKEN"@,
            TokenEntry { owner: Some(professional), status: TimeTokenStatus::Available },
        ),
        spec_mint_time_token(m, professional).auths == seq![professional],
{
}

/// Initializing succeeds exactly when the admin is not the contract itself;
/// the admin is then set and must authorize, the slot counter restarts and
/// the list is emptied, and nothing else changes.
pub proof fn law_initialize_accepts_exactly(
    m: LedgerModel,
    contract_address: Seq<char>,
    admin: String,
)
    ensures
        spec_initialize(m, contract_address, admin).result is Ok <==> admin@ != contract_address,
        admin@ == contract_address ==> spec_initialize(m, contract_address, admin).result == Err::<
            (),
            ChronoPayError,
        >(ChronoPayError::InvalidInput),
        admin@ != contract_address ==> {
            let s = spec_initialize(m, contract_address, admin);
            &&& s.state.admin == Some(admin)
            &&& s.state.slot_seq == 0
            &&& s.state.professionals.len() == 0
            &&& s.state.slots == m.slots
            &&& s.state.registry == m.registry
            &&& s.state.tokens == m.tokens
            &&& s.auths == seq![admin]
        },
{
}

/// The ChronoPay errors in the order the `errors` module declares them.
pub open spec fn errors_in_declaration_order() -> Seq<errors::ChronoPayError> {
    seq![
        errors::ChronoPayError::Unauthorized,
        errors::ChronoPayError::InvalidAddress,
        errors::ChronoPayError::TokenAlreadySold,
        errors::ChronoPayError::TokenAlreadyRedeemed,
        errors::ChronoPayError::TokenNotFound,
        errors::ChronoPayError::TokenNotOwned,
        errors::ChronoPayError::TransferFailed,
        errors::ChronoPayError::InsufficientBalance,
        errors::ChronoPayError::InvalidTimeSlot,
    ]
}

/// Each ChronoPay error's code is its position in the declaration, counted
/// from 1, and every error is declared.
pub proof fn law_error_code_is_declaration_position(e: errors::ChronoPayError)
    ensures
        forall|i: int|
            0 <= i < 9 ==> (#[trigger] errors_in_declaration_order()[i]).spec_code() == i + 1,
        errors_in_declaration_order()[e.spec_code() - 1] == e,
{
}

/// The contract errors in the order they are declared.
pub open spec fn contract_errors_in_declaration_order() -> Seq<ChronoPayError> {
    seq![
        ChronoPayError::Unauthorized,
        ChronoPayError::ProfessionalNotAuthorized,
        ChronoPayError::AlreadyAuthorized,
        ChronoPayError::ProfessionalNotFound,
        ChronoPayError::InvalidInput,
        ChronoPayError::AdminError,
    ]
}

/// Each contract error's code is its position in the declaration, counted
/// from 1, and every error is declared.
pub proof fn law_contract_error_code_is_declaration_position(e: ChronoPayError)
    ensures
        forall|i: int|
            0 <= i < 6 ==> (#[trigger] contract_errors_in_declaration_order()[i]).spec_code() == i
                + 1,
        contract_errors_in_declaration_order()[e.spec_code() - 1] == e,
{
}

/// With an admin set, unauthorizing succeeds exactly when the professional
/// is authorized; they then leave the registry and the list, and every
/// other listed professional stays listed.
pub proof fn law_unauthorize_accepts_exactly(m: LedgerModel, professional: String)
    ensures
        spec_unauthorize(m, professional).result is Ok <==> m.admin is Some
            && m.registry.contains_key(professional@),
        m.admin is None ==> spec_unauthorize(m, professional).result == Err::<(), ChronoPayError>(
            ChronoPayError::AdminError,
        ),
        m.admin is Some && !m.registry.contains_key(professional@) ==> spec_unauthorize(
            m,
            professional,
        ).result == Err::<(), ChronoPayError>(ChronoPayError::ProfessionalNotFound),
        spec_unauthorize(m, professional).result is Ok ==> {
            let s = spec_unauthorize(m, professional).state;
            &&& s.registry == m.registry.remove(professional@)
            &&& forall|i: int|
                0 <= i < s.professionals.len() ==> (#[trigger] s.professionals[i])@ != professional@
                    && m.professionals.contains(s.professionals[i])
            &&& forall|j: int|
                0 <= j < m.professionals.len() && (#[trigger] m.professionals[j])@ != professional@
                    ==> s.professionals.contains(m.professionals[j])
        },
{
    lemma_without(m.professionals, professional@);
    let s = spec_unauthorize(m, professional).state;
    if spec_unauthorize(m, professional).result is Ok {
        assert forall|i: int| 0 <= i < s.professionals.len() implies (
        #[trigger] s.professionals[i])@ != professional@ && m.professionals.contains(
            s.professionals[i],
        ) by {
            let j = choose|j: int|
                0 <= j < m.professionals.len() && m.professionals[j] == s.professionals[i];
        }
        assert forall|j: int|
            0 <= j < m.professionals.len() && (#[trigger] m.professionals[j])@ != professional@
                implies s.professionals.contains(m.professionals[j]) by {
            let i = choose|i: int|
                0 <= i < s.professionals.len() && s.professionals[i] == m.professionals[j];
        }
    }
}

/// Buying succeeds exactly when the token is not recorded with a status
/// other than available; the token then becomes sold and the buyer's.
pub proof fn law_buy_accepts_exactly(m: LedgerModel, token_id: Seq<char>, buyer: String)
    ensures
        spec_buy_time_token(m, token_id, buyer).result == (if m.tokens.contains_key(token_id)
            && m.tokens[token_id].status != TimeTokenStatus::Available {
            Err::<bool, ChronoPayError>(ChronoPayError::InvalidInput)
        } else {
            Ok::<bool, ChronoPayError>(true)
        }),
        spec_buy_time_token(m, token_id, buyer).result is Ok ==> spec_buy_time_token(
            m,
            token_id,
            buyer,
        ).state.tokens == m.tokens.insert(
            token_id,
            TokenEntry { owner: Some(buyer), status: TimeTokenStatus::Sold },
        ),
{
}

/// Redeeming succeeds exactly when the token is not recorded with a status
/// other than sold; the token then becomes redeemed, keeping its owner.
pub proof fn law_redeem_accepts_exactly(m: LedgerModel, token_id: Seq<char>)
    ensures
        spec_redeem_time_token(m, token_id).result == (if m.tokens.contains_key(token_id)
            && m.tokens[token_id].status != TimeTokenStatus::Sold {
            Err::<bool, ChronoPayError>(ChronoPayError::InvalidInput)
        } else {
            Ok::<bool, ChronoPayError>(true)
        }),
        spec_redeem_time_token(m, token_id).result is Ok ==> spec_redeem_time_token(
            m,
            token_id,
        ).state.tokens == m.tokens.insert(
            token_id,
            TokenEntry {
                owner: if m.tokens.contains_key(token_id) {
                    m.tokens[token_id].owner
                } else {
                    None
                },
                status: TimeTokenStatus::Redeemed,
            },
        ),
{
}

} // verus!
