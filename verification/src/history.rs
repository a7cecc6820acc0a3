//! The registry read off the history of calls: who is authorized, and with
//! which metadata, after any sequence of entry-point calls.

use vstd::prelude::*;
use crate::contract::{
    enumeration_sound, lemma_without, without, spec_authorize, spec_buy_time_token, spec_create_time_slot, spec_initialize,
    spec_mint_time_token, spec_redeem_time_token, spec_unauthorize, LedgerModel,
};
use crate::laws::law_enumeration_stays_sound;
use crate::types::ProfessionalMetadata;

verus! {

/// One call of a state-changing entry point, with its arguments.
pub enum Call {
    Initialize { contract_address: Seq<char>, admin: String },
    Authorize { now: u64, professional: String, name: String, category: String },
    Unauthorize { professional: String },
    CreateTimeSlot { now: u64, professional: String, start_time: u64, end_time: u64 },
    MintTimeToken { professional: String },
    BuyTimeToken { token_id: Seq<char>, buyer: String },
    RedeemTimeToken { token_id: Seq<char> },
}

/// The ledger after one call.
pub open spec fn call_state(m: LedgerModel, c: Call) -> LedgerModel {
    match c {
        Call::Initialize { contract_address, admin } => spec_initialize(
            m,
            contract_address,
            admin,
        ).state,
        Call::Authorize { now, professional, name, category } => spec_authorize(
            m,
            now,
            professional,
            name,
            category,
        ).state,
        Call::Unauthorize { professional } => spec_unauthorize(m, professional).state,
        Call::CreateTimeSlot { now, professional, start_time, end_time } => spec_create_time_slot(
            m,
            now,
            professional,
            start_time,
            end_time,
        ).state,
        Call::MintTimeToken { professional } => spec_mint_time_token(m, professional).state,
        Call::BuyTimeToken { token_id, buyer } => spec_buy_time_token(m, token_id, buyer).state,
        Call::RedeemTimeToken { token_id } => spec_redeem_time_token(m, token_id).state,
    }
}

/// Whether one call is accepted (answers `Ok`).
pub open spec fn call_accepted(m: LedgerModel, c: Call) -> bool {
    match c {
        Call::Initialize { contract_address, admin } => spec_initialize(
            m,
            contract_address,
            admin,
        ).result is Ok,
        Call::Authorize { now, professional, name, category } => spec_authorize(
            m,
            now,
            professional,
            name,
            category,
        ).result is Ok,
        Call::Unauthorize { professional } => spec_unauthorize(m, professional).result is Ok,
        Call::CreateTimeSlot { now, professional, start_time, end_time } => spec_create_time_slot(
            m,
            now,
            professional,
            start_time,
            end_time,
        ).result is Ok,
        Call::MintTimeToken { professional } => spec_mint_time_token(m, professional).result is Ok,
        Call::BuyTimeToken { token_id, buyer } => spec_buy_time_token(
            m,
            token_id,
            buyer,
        ).result is Ok,
        Call::RedeemTimeToken { token_id } => spec_redeem_time_token(m, token_id).result is Ok,
    }
}

/// The ledger after a sequence of calls, made in order from `m`.
pub open spec fn run(m: LedgerModel, calls: Seq<Call>) -> LedgerModel
    decreases calls.len(),
{
    if calls.len() == 0 {
        m
    } else {
        call_state(run(m, calls.drop_last()), calls.last())
    }
}

/// Call `i` of `calls`, made from `m`, is an accepted authorization of `k`.
pub open spec fn authorized_at(m: LedgerModel, calls: Seq<Call>, i: int, k: Seq<char>) -> bool {
    &&& 0 <= i < calls.len()
    &&& calls[i] matches Call::Authorize { professional, .. } && professional@ == k
    &&& call_accepted(run(m, calls.take(i)), calls[i])
}

/// Call `i` of `calls`, made from `m`, is an accepted unauthorization of `k`.
pub open spec fn unauthorized_at(m: LedgerModel, calls: Seq<Call>, i: int, k: Seq<char>) -> bool {
    &&& 0 <= i < calls.len()
    &&& calls[i] matches Call::Unauthorize { professional } && professional@ == k
    &&& call_accepted(run(m, calls.take(i)), calls[i])
}

/// The metadata an authorization call records.
pub open spec fn authorization_metadata(c: Call) -> ProfessionalMetadata
    recommends
        c is Authorize,
{
    match c {
        Call::Authorize { now, name, category, .. } => ProfessionalMetadata {
            name,
            verified_at: now,
            category,
        },
        _ => arbitrary(),
    }
}

/// How one call changes the registry at `k`.
proof fn lemma_registry_step(s: LedgerModel, c: Call, k: Seq<char>)
    ensures
        (c matches Call::Authorize { professional, .. } && professional@ == k && call_accepted(s, c))
            ==> !s.registry.contains_key(k) && call_state(s, c).registry == s.registry.insert(
            k,
            authorization_metadata(c),
        ),
        (c matches Call::Unauthorize { professional } && professional@ == k && call_accepted(s, c))
            ==> call_state(s, c).registry == s.registry.remove(k),
        !(c matches Call::Authorize { professional, .. } && professional@ == k && call_accepted(s, c))
            && !(c matches Call::Unauthorize { professional } && professional@ == k
            && call_accepted(s, c)) ==> call_state(s, c).registry.contains_key(k)
            == s.registry.contains_key(k) && call_state(s, c).registry[k] == s.registry[k],
{
}

/// Every call but the last sees the same history in `calls` as in its prefix.
proof fn lemma_prefix(m: LedgerModel, calls: Seq<Call>)
    requires
        calls.len() > 0,
    ensures
        run(m, calls.take(calls.len() - 1)) == run(m, calls.drop_last()),
        forall|i: int|
            0 <= i < calls.len() - 1 ==> run(m, #[trigger] calls.take(i)) == run(
                m,
                calls.drop_last().take(i),
            ) && calls[i] == calls.drop_last()[i],
{
    assert(calls.take(calls.len() - 1) =~= calls.drop_last());
    assert forall|i: int| 0 <= i < calls.len() - 1 implies run(m, #[trigger] calls.take(i)) == run(
        m,
        calls.drop_last().take(i),
    ) && calls[i] == calls.drop_last()[i] by {
        assert(calls.take(i) =~= calls.drop_last().take(i));
    }
}

/// Starting from an empty registry, a professional is authorized exactly
/// when some accepted authorization of theirs has no accepted
/// unauthorization after it, and their metadata is the one that
/// authorization recorded.
pub proof fn law_registry_history(m: LedgerModel, calls: Seq<Call>, k: Seq<char>)
    requires
        m.registry == Map::<Seq<char>, ProfessionalMetadata>::empty(),
    ensures
        run(m, calls).registry.contains_key(k) <==> exists|i: int|
            #[trigger] authorized_at(m, calls, i, k) && forall|j: int|
                i < j < calls.len() ==> !#[trigger] unauthorized_at(m, calls, j, k),
        forall|i: int|
            #[trigger] authorized_at(m, calls, i, k) && (forall|j: int|
                i < j < calls.len() ==> !#[trigger] unauthorized_at(m, calls, j, k))
                ==> run(m, calls).registry[k] == authorization_metadata(calls[i]),
    decreases calls.len(),
{
    if calls.len() > 0 {
        let n = calls.len() as int;
        let p = calls.drop_last();
        let c = calls.last();
        law_registry_history(m, p, k);
        lemma_prefix(m, calls);
        let s = run(m, p);
        lemma_registry_step(s, c, k);
        assert(calls[n - 1] == c);
        assert forall|i: int| 0 <= i < n - 1 implies (authorized_at(m, calls, i, k)
            == authorized_at(m, p, i, k)) && (unauthorized_at(m, calls, i, k) == unauthorized_at(
            m,
            p,
            i,
            k,
        )) by {
            assert(run(m, calls.take(i)) == run(m, p.take(i)));
        }
        if authorized_at(m, calls, n - 1, k) {
            assert forall|i: int|
                #[trigger] authorized_at(m, calls, i, k) && (forall|j: int|
                    i < j < calls.len() ==> !#[trigger] unauthorized_at(m, calls, j, k))
                    implies run(m, calls).registry[k] == authorization_metadata(calls[i]) by {
                if i < n - 1 {
                    assert(authorized_at(m, p, i, k));
                    assert forall|j: int| i < j < p.len() implies !#[trigger] unauthorized_at(
                        m,
                        p,
                        j,
                        k,
                    ) by {
                        assert(!unauthorized_at(m, calls, j, k));
                    }
                    assert(s.registry.contains_key(k));
                }
            }
        } else if unauthorized_at(m, calls, n - 1, k) {
            assert forall|i: int| #[trigger] authorized_at(m, calls, i, k) implies exists|j: int|
                i < j < calls.len() && #[trigger] unauthorized_at(m, calls, j, k) by {
                assert(i < n - 1);
                assert(unauthorized_at(m, calls, n - 1, k));
            }
        } else {
            assert(call_state(s, c).registry.contains_key(k) == s.registry.contains_key(k));
            if s.registry.contains_key(k) {
                let i = choose|i: int|
                    #[trigger] authorized_at(m, p, i, k) && forall|j: int|
                        i < j < p.len() ==> !#[trigger] unauthorized_at(m, p, j, k);
                assert(authorized_at(m, calls, i, k));
                assert forall|j: int| i < j < calls.len() implies !#[trigger] unauthorized_at(
                    m,
                    calls,
                    j,
                    k,
                ) by {
                    if j < n - 1 {
                        assert(!unauthorized_at(m, p, j, k));
                    }
                }
            }
            assert forall|i: int|
                #[trigger] authorized_at(m, calls, i, k) && (forall|j: int|
                    i < j < calls.len() ==> !#[trigger] unauthorized_at(m, calls, j, k))
                    implies run(m, calls).registry.contains_key(k) && run(m, calls).registry[k]
                    == authorization_metadata(calls[i]) by {
                assert(i < n - 1);
                assert(authorized_at(m, p, i, k));
                assert forall|j: int| i < j < p.len() implies !#[trigger] unauthorized_at(
                    m,
                    p,
                    j,
                    k,
                ) by {
                    assert(!unauthorized_at(m, calls, j, k));
                }
            }
        }
    }
}


/// Call `i` is the last accepted authorization of `k`: no accepted
/// unauthorization of `k` follows it.
pub open spec fn last_authorized_at(m: LedgerModel, calls: Seq<Call>, i: int, k: Seq<char>) -> bool {
    &&& authorized_at(m, calls, i, k)
    &&& forall|j: int| i < j < calls.len() ==> !#[trigger] unauthorized_at(m, calls, j, k)
}

/// Filtering a professional out of a list keeps the order of the others.
proof fn lemma_without_order(s: Seq<String>, k: Seq<char>)
    ensures
        forall|a: int|
            #![trigger without(s, k)[a]]
            0 <= a < without(s, k).len() ==> exists|x: int|
                #![trigger s[x]]
                0 <= x < s.len() && s[x] == without(s, k)[a],
        forall|a: int, b: int|
            #![trigger without(s, k)[a], without(s, k)[b]]
            0 <= a < b < without(s, k).len() ==> exists|x: int, y: int|
                #![trigger s[x], s[y]]
                0 <= x < y < s.len() && s[x] == without(s, k)[a] && s[y] == without(s, k)[b],
    decreases s.len(),
{
    reveal_with_fuel(Seq::<_>::filter, 1);
    if s.len() > 0 {
        let dl = s.drop_last();
        let w = without(s, k);
        let wd = without(dl, k);
        lemma_without_order(dl, k);
        assert(w == wd || w == wd.push(s.last()));
        assert forall|a: int|
            #![trigger w[a]]
            0 <= a < w.len() implies exists|x: int|
                #![trigger s[x]]
                0 <= x < s.len() && s[x] == w[a] by {
            if a < wd.len() {
                assert(w[a] == wd[a]);
                let x = choose|x: int| #![trigger dl[x]] 0 <= x < dl.len() && dl[x] == wd[a];
                assert(s[x] == dl[x]);
            } else {
                assert(s[s.len() - 1] == w[a]);
            }
        }
        assert forall|a: int, b: int|
            #![trigger w[a], w[b]]
            0 <= a < b < w.len() implies exists|x: int, y: int|
                #![trigger s[x], s[y]]
                0 <= x < y < s.len() && s[x] == w[a] && s[y] == w[b] by {
            if b < wd.len() {
                assert(w[a] == wd[a] && w[b] == wd[b]);
                let (x, y) = choose|x: int, y: int|
                    #![trigger dl[x], dl[y]]
                    0 <= x < y < dl.len() && dl[x] == wd[a] && dl[y] == wd[b];
                assert(s[x] == dl[x] && s[y] == dl[y]);
            } else {
                assert(w[a] == wd[a]);
                let x = choose|x: int| #![trigger dl[x]] 0 <= x < dl.len() && dl[x] == wd[a];
                assert(s[x] == dl[x]);
                assert(w[b] == s[s.len() - 1]);
            }
        }
    }
}

/// How one call changes the enumeration list.
proof fn lemma_list_step(s: LedgerModel, c: Call)
    ensures
        (c matches Call::Authorize { professional, .. } && call_accepted(s, c)) ==> {
            &&& call_state(s, c).professionals == s.professionals.push(c->Authorize_professional)
            &&& !s.registry.contains_key(c->Authorize_professional@)
        },
        (c matches Call::Unauthorize { professional } && call_accepted(s, c))
            ==> call_state(s, c).professionals == without(
            s.professionals,
            c->Unauthorize_professional@,
        ),
        (c is Initialize && call_accepted(s, c)) ==> call_state(s, c).professionals
            == Seq::<String>::empty(),
        !(c is Initialize && call_accepted(s, c)) && !(c is Authorize && call_accepted(s, c)) && !(
        c is Unauthorize && call_accepted(s, c)) ==> call_state(s, c).professionals
            == s.professionals,
{
}

/// Every state reached from a sound enumeration list has a sound one.
proof fn lemma_run_sound(m: LedgerModel, calls: Seq<Call>)
    requires
        enumeration_sound(m),
    ensures
        enumeration_sound(run(m, calls)),
    decreases calls.len(),
{
    if calls.len() > 0 {
        let p = calls.drop_last();
        lemma_run_sound(m, p);
        let s = run(m, p);
        let dummy_address = Seq::<char>::empty();
        match calls.last() {
            Call::Initialize { contract_address, admin } => {
                law_enumeration_stays_sound(s, 0, contract_address, admin, admin, admin, admin, 0, 0, dummy_address, admin);
            },
            Call::Authorize { now, professional, name, category } => {
                law_enumeration_stays_sound(s, now, dummy_address, professional, professional, name, category, 0, 0, dummy_address, professional);
            },
            Call::Unauthorize { professional } => {
                law_enumeration_stays_sound(s, 0, dummy_address, professional, professional, professional, professional, 0, 0, dummy_address, professional);
            },
            Call::CreateTimeSlot { now, professional, start_time, end_time } => {
                law_enumeration_stays_sound(s, now, dummy_address, professional, professional, professional, professional, start_time, end_time, dummy_address, professional);
            },
            Call::MintTimeToken { professional } => {
                law_enumeration_stays_sound(s, 0, dummy_address, professional, professional, professional, professional, 0, 0, dummy_address, professional);
            },
            Call::BuyTimeToken { token_id, buyer } => {
                law_enumeration_stays_sound(s, 0, dummy_address, buyer, buyer, buyer, buyer, 0, 0, token_id, buyer);
            },
            Call::RedeemTimeToken { token_id } => {
                law_enumeration_stays_sound(s, 0, dummy_address, arbitrary(), arbitrary(), arbitrary(), arbitrary(), 0, 0, token_id, arbitrary());
            },
        }
    }
}

/// A professional has at most one last accepted authorization.
proof fn lemma_last_authorization_unique(m: LedgerModel, calls: Seq<Call>, k: Seq<char>, i: int, j: int)
    requires
        m.registry == Map::<Seq<char>, ProfessionalMetadata>::empty(),
        last_authorized_at(m, calls, i, k),
        last_authorized_at(m, calls, j, k),
    ensures
        i == j,
{
    if i != j {
        let (a, b) = if i < j { (i, j) } else { (j, i) };
        let q = calls.take(b);
        law_registry_history(m, q, k);
        assert(q.take(a) =~= calls.take(a));
        assert(authorized_at(m, q, a, k));
        assert forall|x: int| a < x < q.len() implies !#[trigger] unauthorized_at(m, q, x, k) by {
            assert(q.take(x) =~= calls.take(x));
            assert(!unauthorized_at(m, calls, x, k));
        }
        assert(run(m, q).registry.contains_key(k));
        assert(authorized_at(m, calls, b, k));
    }
}

/// A last accepted authorization of `x` that is not the final call is one
/// in the history without the final call.
proof fn lemma_last_auth_shrinks(m: LedgerModel, calls: Seq<Call>, x: Seq<char>, i: int)
    requires
        calls.len() > 0,
        last_authorized_at(m, calls, i, x),
        !authorized_at(m, calls, calls.len() - 1, x),
    ensures
        i < calls.len() - 1,
        last_authorized_at(m, calls.drop_last(), i, x),
{
    let p = calls.drop_last();
    lemma_prefix(m, calls);
    assert(run(m, calls.take(i)) == run(m, p.take(i)));
    assert(calls[i] == p[i]);
    assert(authorized_at(m, p, i, x));
    assert forall|t: int| i < t < p.len() implies !#[trigger] unauthorized_at(m, p, t, x) by {
        assert(run(m, calls.take(t)) == run(m, p.take(t)));
        assert(calls[t] == p[t]);
        assert(!unauthorized_at(m, calls, t, x));
    }
}

/// Starting from an empty ledger, the enumeration list is ordered by each
/// professional's last accepted authorization.
pub proof fn law_list_in_authorization_order(
    m: LedgerModel,
    calls: Seq<Call>,
    a: int,
    b: int,
    i: int,
    j: int,
)
    requires
        m.registry == Map::<Seq<char>, ProfessionalMetadata>::empty(),
        m.professionals == Seq::<String>::empty(),
        0 <= a < b < run(m, calls).professionals.len(),
        last_authorized_at(m, calls, i, run(m, calls).professionals[a]@),
        last_authorized_at(m, calls, j, run(m, calls).professionals[b]@),
    ensures
        i < j,
    decreases calls.len(),
{
    if calls.len() == 0 {
        assert(run(m, calls).professionals.len() == 0);
    } else {
        let n = calls.len() as int;
        let p = calls.drop_last();
        let c = calls.last();
        let s = run(m, p);
        let l = run(m, calls).professionals;
        let x = l[a]@;
        let y = l[b]@;
        lemma_list_step(s, c);
        lemma_run_sound(m, p);
        assert(calls.take(n - 1) =~= p);
        assert(calls[n - 1] == c);
        assert(run(m, calls.take(n - 1)) == s);
        if c is Authorize && call_accepted(s, c) {
            let k = c->Authorize_professional@;
            if b == l.len() - 1 {
                assert(l[b] == c->Authorize_professional);
                assert(authorized_at(m, calls, n - 1, k));
                assert(last_authorized_at(m, calls, n - 1, k));
                lemma_last_authorization_unique(m, calls, k, j, n - 1);
                assert(l[a] == s.professionals[a]);
                assert(s.registry.contains_key(x));
                assert(!authorized_at(m, calls, n - 1, x));
                lemma_last_auth_shrinks(m, calls, x, i);
            } else {
                assert(l[a] == s.professionals[a] && l[b] == s.professionals[b]);
                assert(s.registry.contains_key(x) && s.registry.contains_key(y));
                assert(!authorized_at(m, calls, n - 1, x) && !authorized_at(m, calls, n - 1, y));
                lemma_last_auth_shrinks(m, calls, x, i);
                lemma_last_auth_shrinks(m, calls, y, j);
                law_list_in_authorization_order(m, p, a, b, i, j);
            }
        } else if c is Unauthorize && call_accepted(s, c) {
            let k = c->Unauthorize_professional@;
            lemma_without_order(s.professionals, k);
            let (a2, b2) = choose|a2: int, b2: int|
                #![trigger s.professionals[a2], s.professionals[b2]]
                0 <= a2 < b2 < s.professionals.len() && s.professionals[a2] == l[a]
                    && s.professionals[b2] == l[b];
            assert(!authorized_at(m, calls, n - 1, x) && !authorized_at(m, calls, n - 1, y));
            lemma_last_auth_shrinks(m, calls, x, i);
            lemma_last_auth_shrinks(m, calls, y, j);
            law_list_in_authorization_order(m, p, a2, b2, i, j);
        } else if c is Initialize && call_accepted(s, c) {
            assert(l.len() == 0);
        } else {
            assert(l == s.professionals);
            assert(!authorized_at(m, calls, n - 1, x) && !authorized_at(m, calls, n - 1, y));
            lemma_last_auth_shrinks(m, calls, x, i);
            lemma_last_auth_shrinks(m, calls, y, j);
            law_list_in_authorization_order(m, p, a, b, i, j);
        }
    }
}

} // verus!
