//! What an entry of the journal says of an action, as a document.
use vstd::prelude::*;

use crate::finance::ids::{beneficiaries_of, Beneficiary, HoldBeneficiaryInput};
use crate::finance::ledger::{lines_of, Line, SettlementLine};
use crate::json::{items_of, lemma_array, no_fields, object, Json, Tree};

verus! {

broadcast use vstd::string::group_string_axioms;

/// The labelled amounts of a list.
pub open spec fn amounts_of(list: Seq<(String, i64)>) -> Seq<(Seq<char>, int)> {
    list.map_values(|a: (String, i64)| (a.0@, a.1 as int))
}

pub(crate) fn no_amounts() -> (r: Vec<(String, i64)>)
    ensures
        amounts_of(r@) == Seq::<(Seq<char>, int)>::empty(),
{
    let out: Vec<(String, i64)> = Vec::new();
    assert(amounts_of(out@) =~= Seq::empty());
    out
}

pub(crate) fn add_amount(out: &mut Vec<(String, i64)>, label: &str, amount: i64)
    ensures
        amounts_of(final(out)@) == amounts_of(old(out)@).push((label@, amount as int)),
{
    let ghost before = out@;
    out.push((label.to_owned(), amount));
    assert(amounts_of(out@) =~= amounts_of(before).push((label@, amount as int)));
}

/// One posting of an entry: by how much an account changes.
pub open spec fn posting(account: Seq<char>, amount: int) -> Tree {
    no_fields().with("account"@, Tree::Text(account)).with("amount"@, Tree::Whole(amount as i64))
}

/// A posting of what reaches an account out of a greater amount.
pub open spec fn gross_posting(account: Seq<char>, amount: int, gross: int) -> Tree {
    posting(account, amount).with("grossAmount"@, Tree::Whole(gross as i64))
}

/// Write one posting of an entry.
pub fn write_posting(account: &str, amount: i64) -> (r: Json)
    ensures
        r@ == posting(account@, amount as int),
{
    object().with("account", Json::Text(account.to_owned())).with("amount", Json::Whole(amount))
}

/// Add a posting to those of an entry.
pub fn add_posting(out: &mut Vec<Json>, item: Json)
    ensures
        items_of(final(out)@) == items_of(old(out)@).push(item@),
{
    let ghost before = out@;
    out.push(item);
    assert(items_of(out@) =~= items_of(before).push(item@));
}

/// The postings of an entry.
pub open spec fn postings(amounts: Seq<(Seq<char>, int)>) -> Tree {
    Tree::Array(amounts.map_values(|a: (Seq<char>, int)| posting(a.0, a.1)))
}

/// Write the postings of an entry.
pub fn write_postings(amounts: &Vec<(String, i64)>) -> (r: Json)
    ensures
        r@ == postings(amounts_of(amounts@)),
{
    let ghost list = amounts_of(amounts@);
    let mut items: Vec<Json> = Vec::new();
    let mut i: usize = 0;
    while i < amounts.len()
        invariant
            i <= amounts@.len(),
            items@.len() == i,
            list == amounts_of(amounts@),
            forall|j: int|
                0 <= j < i ==> tree_is(#[trigger] items@[j], posting(list[j].0, list[j].1)),
        decreases amounts.len() - i,
    {
        let item = write_posting(amounts[i].0.as_str(), amounts[i].1);
        assert(item@ == posting(list[i as int].0, list[i as int].1));
        items.push(item);
        i = i + 1;
    }
    proof {
        lemma_array(items);
        assert(items_of(items@) =~= list.map_values(|a: (Seq<char>, int)| posting(a.0, a.1)));
    }
    Json::Array(items)
}

spec fn tree_is(item: Json, tree: Tree) -> bool {
    item@ == tree
}

/// A document with figures added to it, each under its label.
pub open spec fn figures(base: Tree, amounts: Seq<(Seq<char>, int)>) -> Tree
    decreases amounts.len(),
{
    if amounts.len() == 0 {
        base
    } else {
        figures(base, amounts.drop_last()).with(
            amounts.last().0,
            Tree::Whole(amounts.last().1 as i64),
        )
    }
}

/// Add figures to a document.
pub fn write_figures(base: Json, amounts: &Vec<(String, i64)>) -> (r: Json)
    ensures
        r@ == figures(base@, amounts_of(amounts@)),
{
    let ghost list = amounts_of(amounts@);
    let ghost start = base@;
    let mut out = base;
    let mut i: usize = 0;
    assert(list.subrange(0, 0) =~= Seq::empty());
    while i < amounts.len()
        invariant
            i <= amounts@.len(),
            list == amounts_of(amounts@),
            out@ == figures(start, list.subrange(0, i as int)),
        decreases amounts.len() - i,
    {
        assert(list.subrange(0, i + 1).drop_last() =~= list.subrange(0, i as int));
        out = out.with(amounts[i].0.as_str(), Json::Whole(amounts[i].1));
        i = i + 1;
    }
    assert(list.subrange(0, list.len() as int) =~= list);
    out
}

/// A document that has one list of postings.
pub open spec fn posted(amounts: Seq<(Seq<char>, int)>) -> Tree {
    no_fields().with("entries"@, postings(amounts))
}

/// Write a document that has one list of postings.
pub fn write_posted(amounts: &Vec<(String, i64)>) -> (r: Json)
    ensures
        r@ == posted(amounts_of(amounts@)),
{
    object().with("entries", write_postings(amounts))
}

/// A settlement line as a document.
pub open spec fn line_tree(line: Line) -> Tree {
    no_fields().with("userId"@, Tree::Text(line.user_id)).with("role"@, Tree::Text(line.role)).with(
        "amount"@,
        Tree::Whole(line.amount as i64),
    ).with("sourceRef"@, Tree::Text(line.source_ref))
}

/// Settlement lines as a document.
pub open spec fn lines_tree(lines: Seq<Line>) -> Tree {
    Tree::Array(lines.map_values(|l: Line| line_tree(l)))
}

/// Write settlement lines as a document.
pub fn write_lines(lines: &Vec<SettlementLine>) -> (r: Json)
    ensures
        r@ == lines_tree(lines_of(lines@)),
{
    let ghost list = lines_of(lines@);
    let mut items: Vec<Json> = Vec::new();
    let mut i: usize = 0;
    while i < lines.len()
        invariant
            i <= lines@.len(),
            items@.len() == i,
            list == lines_of(lines@),
            forall|j: int| 0 <= j < i ==> tree_is(#[trigger] items@[j], line_tree(list[j])),
        decreases lines.len() - i,
    {
        let item = object().with("userId", Json::Text(lines[i].user_id.clone())).with(
            "role",
            Json::Text(lines[i].role.clone()),
        ).with("amount", Json::Whole(lines[i].amount)).with(
            "sourceRef",
            Json::Text(lines[i].source_ref.clone()),
        );
        assert(item@ == line_tree(list[i as int]));
        items.push(item);
        i = i + 1;
    }
    proof {
        lemma_array(items);
        assert(items_of(items@) =~= list.map_values(|l: Line| line_tree(l)));
    }
    Json::Array(items)
}

/// A beneficiary as a document.
pub open spec fn beneficiary_tree(b: Beneficiary) -> Tree {
    no_fields().with("userId"@, Tree::Text(b.user_id)).with("role"@, Tree::Text(b.role)).with(
        "maxAmount"@,
        Tree::Whole(b.max_amount as i64),
    )
}

/// A list of beneficiaries as a document.
pub open spec fn beneficiaries_tree(plan: Seq<Beneficiary>) -> Tree {
    Tree::Array(plan.map_values(|b: Beneficiary| beneficiary_tree(b)))
}

/// Write a list of beneficiaries as a document.
pub fn write_beneficiaries(plan: &Vec<HoldBeneficiaryInput>) -> (r: Json)
    ensures
        r@ == beneficiaries_tree(beneficiaries_of(plan@)),
{
    let ghost list = beneficiaries_of(plan@);
    let mut items: Vec<Json> = Vec::new();
    let mut i: usize = 0;
    while i < plan.len()
        invariant
            i <= plan@.len(),
            items@.len() == i,
            list == beneficiaries_of(plan@),
            forall|j: int| 0 <= j < i ==> tree_is(#[trigger] items@[j], beneficiary_tree(list[j])),
        decreases plan.len() - i,
    {
        let item = object().with("userId", Json::Text(plan[i].user_id.clone())).with(
            "role",
            Json::Text(plan[i].role.clone()),
        ).with("maxAmount", Json::Whole(plan[i].max_amount));
        assert(item@ == beneficiary_tree(list[i as int]));
        items.push(item);
        i = i + 1;
    }
    proof {
        lemma_array(items);
        assert(items_of(items@) =~= list.map_values(|b: Beneficiary| beneficiary_tree(b)));
    }
    Json::Array(items)
}

} // verus!
