//! Signals from one creature: to everyone in a store, or to one other creature.
use vstd::prelude::*;

use crate::text::same;

verus! {

broadcast use vstd::string::group_string_axioms;

/// A request to signal.
pub struct SignalInput {
    pub typ: String,
    pub creature_id: String,
    pub program_id: String,
    pub entity_id: String,
    pub store_id: String,
    pub correlation_id: String,
    pub data: String,
    pub temp: bool,
}

/// Where a signal goes.
pub enum SignalPlan {
    /// To everyone in a store but the sender.
    Broadcast { store_id: String },
    /// To one program or creature; it learns the store that the signal belongs to.
    Direct { target_id: String, store_id: String, entity_id: String, correlation_id: String },
}

/// Where a signal goes, as texts.
pub enum Plan {
    Broadcast { store_id: Seq<char> },
    Direct {
        target_id: Seq<char>,
        store_id: Seq<char>,
        entity_id: Seq<char>,
        correlation_id: Seq<char>,
    },
}

impl View for SignalPlan {
    type V = Plan;

    open spec fn view(&self) -> Plan {
        match self {
            SignalPlan::Broadcast { store_id } => Plan::Broadcast { store_id: store_id@ },
            SignalPlan::Direct { target_id, store_id, entity_id, correlation_id } => Plan::Direct {
                target_id: target_id@,
                store_id: store_id@,
                entity_id: entity_id@,
                correlation_id: correlation_id@,
            },
        }
    }
}

/// Where a signal goes. `store` is the store that the caller's session is in, and
/// `may_signal` whether the caller may signal there: to be a member is not enough.
pub open spec fn signal_goes(input: SignalInput, store: Seq<char>, may_signal: bool) -> Result<
    Plan,
    Seq<char>,
> {
    if input.typ@ == "all"@ {
        if store.len() == 0 {
            Err("storeId is required for broadcast"@)
        } else if !may_signal {
            Err("not allowed to signal in this store"@)
        } else {
            Ok(Plan::Broadcast { store_id: store })
        }
    } else if input.typ@ != "pvp"@ {
        Err("unknown signal type"@)
    } else if input.creature_id@.len() == 0 {
        Err("creatureId is required for pvp"@)
    } else {
        Ok(
            Plan::Direct {
                target_id: if input.program_id@.len() > 0 {
                    input.program_id@
                } else {
                    input.creature_id@
                },
                store_id: input.store_id@,
                entity_id: input.entity_id@,
                correlation_id: input.correlation_id@,
            },
        )
    }
}

/// Decide where a signal goes.
pub fn signal(input: &SignalInput, store: &str, may_signal: bool) -> (r: Result<
    SignalPlan,
    String,
>)
    ensures
        match r {
            Ok(plan) => signal_goes(*input, store@, may_signal) == Ok::<Plan, Seq<char>>(plan@),
            Err(e) => signal_goes(*input, store@, may_signal) == Err::<Plan, Seq<char>>(e@),
        },
{
    if same(input.typ.as_str(), "all") {
        if store.is_empty() {
            return Err("storeId is required for broadcast".to_owned());
        }
        if !may_signal {
            return Err("not allowed to signal in this store".to_owned());
        }
        return Ok(SignalPlan::Broadcast { store_id: store.to_owned() });
    }
    if !same(input.typ.as_str(), "pvp") {
        return Err("unknown signal type".to_owned());
    }
    if input.creature_id.as_str().is_empty() {
        return Err("creatureId is required for pvp".to_owned());
    }
    let target_id: String = if !input.program_id.as_str().is_empty() {
        input.program_id.clone()
    } else {
        input.creature_id.clone()
    };
    Ok(
        SignalPlan::Direct {
            target_id,
            store_id: input.store_id.clone(),
            entity_id: input.entity_id.clone(),
            correlation_id: input.correlation_id.clone(),
        },
    )
}

/// Nobody broadcasts in a store without the permission to signal there.
pub proof fn law_broadcasts_need_permission(input: SignalInput, store: Seq<char>)
    ensures
        signal_goes(input, store, false) matches Ok(plan) ==> plan is Direct,
{
}

} // verus!
