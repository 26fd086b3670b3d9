//! Actions of creatures.
use vstd::prelude::*;

use crate::actions::{
    action, actions_of, anon_guard, anyone, finance_guard, inject_all, registered, signer_only,
    user_guard, user_only, Action, Actor, Guard,
};

verus! {

broadcast use vstd::string::group_string_axioms;

/// The actions of creatures on themselves and their secrets.
pub open spec fn first_actions_listed() -> Seq<(Seq<char>, Guard)> {
    seq![
        ("/creatures/create"@, anyone()),
        ("/creatures/get"@, user_only()),
        ("/creatures/list"@, user_only()),
        ("/creatures/transfer"@, signer_only()),
        ("/creatures/signal"@, user_only()),
        ("/creatures/authenticate"@, user_only()),
        ("/creatures/mint"@, user_only()),
        ("/creatures/checkSign"@, user_only()),
        ("/creatures/secretPut"@, user_only()),
        ("/creatures/secretGet"@, user_only()),
        ("/creatures/secretGrant"@, user_only()),
        ("/creatures/secretRevoke"@, user_only()),
        ("/creatures/startHold"@, signer_only()),
        ("/creatures/secretList"@, user_only()),
        ("/creatures/secretListGranted"@, user_only()),
        ("/storage/upload"@, user_only()),
    ]
}

/// The actions of creatures on themselves and their secrets.
pub fn first_actions() -> (r: Vec<Action>)
    ensures
        actions_of(r@) == first_actions_listed(),
{
    let mut out: Vec<Action> = Vec::new();
    out.push(action("/creatures/create", anon_guard()));
    out.push(action("/creatures/get", user_guard()));
    out.push(action("/creatures/list", user_guard()));
    out.push(action("/creatures/transfer", finance_guard()));
    out.push(action("/creatures/signal", user_guard()));
    out.push(action("/creatures/authenticate", user_guard()));
    out.push(action("/creatures/mint", user_guard()));
    out.push(action("/creatures/checkSign", user_guard()));
    out.push(action("/creatures/secretPut", user_guard()));
    out.push(action("/creatures/secretGet", user_guard()));
    out.push(action("/creatures/secretGrant", user_guard()));
    out.push(action("/creatures/secretRevoke", user_guard()));
    out.push(action("/creatures/startHold", finance_guard()));
    out.push(action("/creatures/secretList", user_guard()));
    out.push(action("/creatures/secretListGranted", user_guard()));
    out.push(action("/storage/upload", user_guard()));
    assert(actions_of(out@) =~= first_actions_listed());
    out
}

/// The actions that move money: none of them takes the signature of an applet.
pub open spec fn finance_actions_listed() -> Seq<(Seq<char>, Guard)> {
    seq![
        ("/creatures/publishFinanceCatalog"@, signer_only()),
        ("/creatures/registerFinanceNode"@, signer_only()),
        ("/creatures/retireFinanceNode"@, signer_only()),
        ("/creatures/registerFinanceResource"@, signer_only()),
        ("/creatures/reviewFinanceResource"@, signer_only()),
        ("/creatures/retireFinanceResource"@, signer_only()),
        ("/creatures/publishFinanceQuote"@, signer_only()),
        ("/creatures/createHold"@, signer_only()),
        ("/creatures/settleHold"@, signer_only()),
        ("/creatures/releaseHold"@, signer_only()),
        ("/creatures/openPool"@, signer_only()),
        ("/creatures/refreshPool"@, signer_only()),
        ("/creatures/closePool"@, signer_only()),
        ("/creatures/reservePool"@, signer_only()),
        ("/creatures/settlePool"@, signer_only()),
        ("/creatures/releasePool"@, signer_only()),
        ("/creatures/debitPool"@, signer_only()),
        ("/creatures/getHold"@, signer_only()),
        ("/creatures/getFinancialAccount"@, signer_only()),
        ("/creatures/requestPayout"@, signer_only()),
        ("/creatures/resolvePayout"@, signer_only()),
        ("/creatures/listPayouts"@, signer_only()),
        ("/creatures/reconcileFinancialSystem"@, signer_only()),
        ("/creatures/paymentAdjustment"@, signer_only()),
    ]
}

/// The actions that move money: none of them takes the signature of an applet.
pub fn finance_actions() -> (r: Vec<Action>)
    ensures
        actions_of(r@) == finance_actions_listed(),
{
    let mut out: Vec<Action> = Vec::new();
    out.push(action("/creatures/publishFinanceCatalog", finance_guard()));
    out.push(action("/creatures/registerFinanceNode", finance_guard()));
    out.push(action("/creatures/retireFinanceNode", finance_guard()));
    out.push(action("/creatures/registerFinanceResource", finance_guard()));
    out.push(action("/creatures/reviewFinanceResource", finance_guard()));
    out.push(action("/creatures/retireFinanceResource", finance_guard()));
    out.push(action("/creatures/publishFinanceQuote", finance_guard()));
    out.push(action("/creatures/createHold", finance_guard()));
    out.push(action("/creatures/settleHold", finance_guard()));
    out.push(action("/creatures/releaseHold", finance_guard()));
    out.push(action("/creatures/openPool", finance_guard()));
    out.push(action("/creatures/refreshPool", finance_guard()));
    out.push(action("/creatures/closePool", finance_guard()));
    out.push(action("/creatures/reservePool", finance_guard()));
    out.push(action("/creatures/settlePool", finance_guard()));
    out.push(action("/creatures/releasePool", finance_guard()));
    out.push(action("/creatures/debitPool", finance_guard()));
    out.push(action("/creatures/getHold", finance_guard()));
    out.push(action("/creatures/getFinancialAccount", finance_guard()));
    out.push(action("/creatures/requestPayout", finance_guard()));
    out.push(action("/creatures/resolvePayout", finance_guard()));
    out.push(action("/creatures/listPayouts", finance_guard()));
    out.push(action("/creatures/reconcileFinancialSystem", finance_guard()));
    out.push(action("/creatures/paymentAdjustment", finance_guard()));
    assert(actions_of(out@) =~= finance_actions_listed());
    out
}

/// The actions on locks, identities, and their descriptions.
pub open spec fn late_actions_listed() -> Seq<(Seq<char>, Guard)> {
    seq![
        ("/creatures/lockToken"@, user_only()),
        ("/creatures/consumeLock"@, user_only()),
        ("/creatures/login"@, anyone()),
        ("/creatures/delete"@, user_only()),
        ("/creatures/update"@, user_only()),
        ("/creatures/meta"@, user_only()),
        ("/creatures/getByUsername"@, user_only()),
        ("/creatures/find"@, user_only()),
        ("/creatures/types"@, user_only()),
    ]
}

/// The actions on locks, identities, and their descriptions.
pub fn late_actions() -> (r: Vec<Action>)
    ensures
        actions_of(r@) == late_actions_listed(),
{
    let mut out: Vec<Action> = Vec::new();
    out.push(action("/creatures/lockToken", user_guard()));
    out.push(action("/creatures/consumeLock", user_guard()));
    out.push(action("/creatures/login", anon_guard()));
    out.push(action("/creatures/delete", user_guard()));
    out.push(action("/creatures/update", user_guard()));
    out.push(action("/creatures/meta", user_guard()));
    out.push(action("/creatures/getByUsername", user_guard()));
    out.push(action("/creatures/find", user_guard()));
    out.push(action("/creatures/types", user_guard()));
    assert(actions_of(out@) =~= late_actions_listed());
    out
}

/// Register the actions of creatures.
pub fn install(actor: &mut Actor)
    ensures
        final(actor)@ == registered(registered(registered(old(actor)@, first_actions_listed()), finance_actions_listed()), late_actions_listed()),
{
    inject_all(actor, &first_actions());
    inject_all(actor, &finance_actions());
    inject_all(actor, &late_actions());
}

/// No action that moves money takes the signature of an applet.
pub proof fn law_money_needs_its_own_signature(i: int)
    requires
        0 <= i < finance_actions_listed().len(),
    ensures
        finance_actions_listed()[i].1.is_user,
        !finance_actions_listed()[i].1.allow_applet_sign,
{
}

} // verus!
