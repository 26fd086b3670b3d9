//! Project budgets: what runs of a project have reserved and spent.
use vstd::prelude::*;

use crate::json::{Json, Tree};
use crate::table::{law_lookup_after_store, lookup, stored, Rows, Table};
use crate::text::join2;

verus! {

broadcast use {vstd::string::group_string_axioms, law_lookup_after_store};

/// The amount in a budget field: zero where it is absent, and a refusal where it holds
/// anything but a whole number from zero up.
pub open spec fn budget_field(state: Tree, field: Seq<char>) -> Result<i64, Seq<char>> {
    match state.field(field) {
        None => Ok(0),
        Some(Tree::Whole(n)) => if n >= 0 {
            Ok(n)
        } else {
            Err("invalid project budget field: "@ + field)
        },
        Some(_) => Err("invalid project budget field: "@ + field),
    }
}

/// Read an amount of a budget.
pub fn finance_nonnegative_field(map: &Json, field: &str) -> (r: Result<i64, String>)
    ensures
        match r {
            Ok(n) => budget_field(map@, field@) == Ok::<i64, Seq<char>>(n),
            Err(e) => budget_field(map@, field@) == Err::<i64, Seq<char>>(e@),
        },
{
    match map.field(field) {
        None => Ok(0),
        Some(Json::Whole(n)) => if *n >= 0 {
            Ok(*n)
        } else {
            Err(join2("invalid project budget field: ", field))
        },
        Some(_) => Err(join2("invalid project budget field: ", field)),
    }
}

/// The budget record of a project; an empty object where there is none.
pub open spec fn budget_of(budgets: Rows<Tree>, project: Seq<char>) -> Tree {
    match lookup(budgets, project) {
        Some(state) => state,
        None => Tree::Object(Seq::empty()),
    }
}

/// The larger of two amounts.
pub open spec fn larger(a: i64, b: i64) -> i64 {
    if a >= b {
        a
    } else {
        b
    }
}

/// Reserving `amount` for a project. `metadata` is the project's own configuration, where
/// the project exists. A budget of zero is no limit.
pub open spec fn reserved_budget(
    budgets: Rows<Tree>,
    project: Seq<char>,
    metadata: Option<Tree>,
    amount: i64,
    now: i64,
) -> Result<Rows<Tree>, Seq<char>> {
    if project.len() == 0 {
        Ok(budgets)
    } else {
        match metadata {
            None => Err("project not found"@),
            Some(meta) => {
                let state = budget_of(budgets, project);
                match (
                    budget_field(meta, "budgetMinor"@),
                    budget_field(meta, "spentMinor"@),
                    budget_field(state, "spentMinor"@),
                    budget_field(state, "reservedMinor"@),
                ) {
                    (Ok(budget), Ok(meta_spent), Ok(ledger_spent), Ok(reserved)) => {
                        let spent = larger(ledger_spent, meta_spent);
                        if spent + reserved > i64::MAX || spent + reserved + amount > i64::MAX {
                            Err("project budget overflow"@)
                        } else if budget > 0 && spent + reserved + amount > budget {
                            Err("project budget exceeded"@)
                        } else {
                            Ok(
                                stored(
                                    budgets,
                                    project,
                                    state.with("projectId"@, Tree::Text(project)).with(
                                        "budgetMinor"@,
                                        Tree::Whole(budget),
                                    ).with("spentMinor"@, Tree::Whole(spent)).with(
                                        "reservedMinor"@,
                                        Tree::Whole((reserved + amount) as i64),
                                    ).with("updatedAt"@, Tree::Whole(now)),
                                ),
                            )
                        }
                    },
                    (Err(e), _, _, _) => Err(e),
                    (_, Err(e), _, _) => Err(e),
                    (_, _, Err(e), _) => Err(e),
                    (_, _, _, Err(e)) => Err(e),
                }
            },
        }
    }
}

/// Ending a reservation of a project: `reserved_amount` is no longer reserved, and
/// `spent_amount` of it is spent.
pub open spec fn finalized_budget(
    budgets: Rows<Tree>,
    project: Seq<char>,
    reserved_amount: i64,
    spent_amount: i64,
    now: i64,
) -> Result<Rows<Tree>, Seq<char>> {
    if project.len() == 0 {
        Ok(budgets)
    } else {
        match lookup(budgets, project) {
            None => Err("project budget reservation not found"@),
            Some(state) => match (
                budget_field(state, "reservedMinor"@),
                budget_field(state, "spentMinor"@),
            ) {
                (Ok(reserved), Ok(spent)) => if spent + spent_amount > i64::MAX {
                    Err("project spend overflow"@)
                } else {
                    Ok(
                        stored(
                            budgets,
                            project,
                            state.with(
                                "reservedMinor"@,
                                Tree::Whole((reserved - reserved_amount) as i64),
                            ).with("spentMinor"@, Tree::Whole((spent + spent_amount) as i64)).with(
                                "updatedAt"@,
                                Tree::Whole(now),
                            ),
                        ),
                    )
                },
                (Err(e), _) => Err(e),
                (_, Err(e)) => Err(e),
            },
        }
    }
}

/// The project's budget record after reserving `amount`, to be stored under the project.
/// `None` where the run belongs to no project.
pub fn reserve_project_budget(
    budgets: &Table<Json>,
    project_id: &str,
    metadata: &Option<Json>,
    amount: i64,
    now: i64,
) -> (r: Result<Option<Json>, String>)
    requires
        amount >= 0,
    ensures
        ({
            let meta = match *metadata {
                Some(m) => Some(m@),
                None => None,
            };
            match r {
                Ok(Some(state)) => reserved_budget(budgets@, project_id@, meta, amount, now) == Ok::<
                    Rows<Tree>,
                    Seq<char>,
                >(stored(budgets@, project_id@, state@)),
                Ok(None) => reserved_budget(budgets@, project_id@, meta, amount, now) == Ok::<
                    Rows<Tree>,
                    Seq<char>,
                >(budgets@),
                Err(e) => reserved_budget(budgets@, project_id@, meta, amount, now) == Err::<
                    Rows<Tree>,
                    Seq<char>,
                >(e@),
            }
        }),
{
    if project_id.is_empty() {
        return Ok(None);
    }
    let meta = match metadata {
        None => {
            return Err("project not found".to_owned());
        },
        Some(meta) => meta,
    };
    let state = match budgets.get(project_id) {
        Some(state) => state.copy(),
        None => {
            let none: Vec<(String, Json)> = Vec::new();
            let empty = Json::Object(none);
            assert(empty@->Object_0 =~= Seq::empty());
            empty
        },
    };
    let budget = match finance_nonnegative_field(meta, "budgetMinor") {
        Ok(n) => n,
        Err(e) => {
            return Err(e);
        },
    };
    let meta_spent = match finance_nonnegative_field(meta, "spentMinor") {
        Ok(n) => n,
        Err(e) => {
            return Err(e);
        },
    };
    let ledger_spent = match finance_nonnegative_field(&state, "spentMinor") {
        Ok(n) => n,
        Err(e) => {
            return Err(e);
        },
    };
    let spent: i64 = if ledger_spent >= meta_spent {
        ledger_spent
    } else {
        meta_spent
    };
    let reserved = match finance_nonnegative_field(&state, "reservedMinor") {
        Ok(n) => n,
        Err(e) => {
            return Err(e);
        },
    };
    let base: i64 = match spent.checked_add(reserved) {
        Some(v) => v,
        None => {
            return Err("project budget overflow".to_owned());
        },
    };
    let committed: i64 = match base.checked_add(amount) {
        Some(v) => v,
        None => {
            return Err("project budget overflow".to_owned());
        },
    };
    if budget > 0 && committed > budget {
        return Err("project budget exceeded".to_owned());
    }
    let next = state.with("projectId", Json::Text(project_id.to_owned())).with(
        "budgetMinor",
        Json::Whole(budget),
    ).with("spentMinor", Json::Whole(spent)).with("reservedMinor", Json::Whole(reserved + amount)).with(
        "updatedAt",
        Json::Whole(now),
    );
    Ok(Some(next))
}

/// The project's budget record after its reservation ended, to be stored under the
/// project. `None` where the run belongs to no project.
pub fn finalize_project_budget(
    budgets: &Table<Json>,
    project_id: &str,
    reserved_amount: i64,
    spent_amount: i64,
    now: i64,
) -> (r: Result<Option<Json>, String>)
    requires
        reserved_amount >= 0,
        spent_amount >= 0,
    ensures
        match r {
            Ok(Some(state)) => finalized_budget(
                budgets@,
                project_id@,
                reserved_amount,
                spent_amount,
                now,
            ) == Ok::<Rows<Tree>, Seq<char>>(stored(budgets@, project_id@, state@)),
            Ok(None) => finalized_budget(
                budgets@,
                project_id@,
                reserved_amount,
                spent_amount,
                now,
            ) == Ok::<Rows<Tree>, Seq<char>>(budgets@),
            Err(e) => finalized_budget(budgets@, project_id@, reserved_amount, spent_amount, now)
                == Err::<Rows<Tree>, Seq<char>>(e@),
        },
{
    if project_id.is_empty() {
        return Ok(None);
    }
    let state = match budgets.get(project_id) {
        Some(state) => state.copy(),
        None => {
            return Err("project budget reservation not found".to_owned());
        },
    };
    let reserved = match finance_nonnegative_field(&state, "reservedMinor") {
        Ok(n) => n,
        Err(e) => {
            return Err(e);
        },
    };
    let spent = match finance_nonnegative_field(&state, "spentMinor") {
        Ok(n) => n,
        Err(e) => {
            return Err(e);
        },
    };
    let total: i64 = match spent.checked_add(spent_amount) {
        Some(v) => v,
        None => {
            return Err("project spend overflow".to_owned());
        },
    };
    let next = state.with("reservedMinor", Json::Whole(reserved - reserved_amount)).with(
        "spentMinor",
        Json::Whole(total),
    ).with("updatedAt", Json::Whole(now));
    Ok(Some(next))
}

/// A reservation never takes a limited budget past its limit.
pub proof fn law_a_reservation_keeps_the_budget(
    budgets: Rows<Tree>,
    project: Seq<char>,
    metadata: Tree,
    amount: i64,
    now: i64,
    after: Rows<Tree>,
    budget: i64,
)
    requires
        project.len() > 0,
        amount >= 0,
        budget_field(metadata, "budgetMinor"@) == Ok::<i64, Seq<char>>(budget),
        budget > 0,
        reserved_budget(budgets, project, Some(metadata), amount, now) == Ok::<
            Rows<Tree>,
            Seq<char>,
        >(after),
    ensures
        ({
            let state = budget_of(after, project);
            match (budget_field(state, "spentMinor"@), budget_field(state, "reservedMinor"@)) {
                (Ok(spent), Ok(reserved)) => spent + reserved <= budget,
                _ => false,
            }
        }),
{
    lemma_budget_words();
}

/// Ending a reservation with nothing spent leaves the spent and reserved amounts as they
/// were before it.
pub proof fn law_a_released_reservation_is_undone(
    budgets: Rows<Tree>,
    project: Seq<char>,
    metadata: Tree,
    amount: i64,
    now: i64,
    reserved: Rows<Tree>,
    later: i64,
)
    requires
        project.len() > 0,
        amount >= 0,
        reserved_budget(budgets, project, Some(metadata), amount, now) == Ok::<
            Rows<Tree>,
            Seq<char>,
        >(reserved),
    ensures
        finalized_budget(reserved, project, amount, 0, later) is Ok,
        ({
            let after = finalized_budget(reserved, project, amount, 0, later)->Ok_0;
            budget_field(budget_of(after, project), "reservedMinor"@) == budget_field(
                budget_of(budgets, project),
                "reservedMinor"@,
            )
        }),
{
    lemma_budget_words();
}

proof fn lemma_budget_words()
    ensures
        "spentMinor"@ != "reservedMinor"@,
        "spentMinor"@ != "updatedAt"@,
        "reservedMinor"@ != "updatedAt"@,
        "spentMinor"@ != "budgetMinor"@,
        "spentMinor"@ != "projectId"@,
        "reservedMinor"@ != "projectId"@,
        "reservedMinor"@ != "budgetMinor"@,
{
    reveal_strlit("spentMinor");
    reveal_strlit("reservedMinor");
    reveal_strlit("updatedAt");
    reveal_strlit("budgetMinor");
    reveal_strlit("projectId");
    assert("spentMinor"@[0] == 's');
    assert("reservedMinor"@[0] == 'r');
    assert("updatedAt"@[0] == 'u');
    assert("budgetMinor"@[0] == 'b');
    assert("projectId"@[0] == 'p');
}

} // verus!
