//! What holds and runs have to do with the quotes that the market published.
use vstd::prelude::*;

use crate::finance::holds::{
    hold_created, signed_request, CreateHoldInput, HoldAnswer, HoldFacts,
};
use crate::finance::journal::beneficiaries_tree;
use crate::finance::ledger::Books;
use crate::finance::market::Stalls;
use crate::finance::pool_runs::{slice_reserved, ReservationAnswer, ReservePoolInput};
use crate::finance::quotes::quote_published;
use crate::json::{same_value, Tree};
use crate::outside::ascii_lower;
use crate::table::{law_lookup_after_drop, law_lookup_after_store, lookup, row_from, Rows};

verus! {

broadcast use {vstd::string::group_string_axioms, law_lookup_after_store};

proof fn lemma_row_is_found<T>(rows: Rows<T>, key: Seq<char>, i: int)
    requires
        0 <= i,
    ensures
        row_from(rows, key, i) matches Some(j) ==> i <= j < rows.len() && rows[j].0 == key,
    decreases rows.len() - i,
{
    if i < rows.len() && rows[i].0 != key {
        lemma_row_is_found(rows, key, i + 1);
    }
}

/// Documents that are the same have the same texts and integers in their fields.
pub proof fn law_equal_documents_share_their_fields(a: Tree, b: Tree, key: Seq<char>)
    requires
        a.equals(b),
    ensures
        same_value(a.field(key), b.field(key)),
        a.text(key) == b.text(key),
        a.whole(key) == b.whole(key),
{
    reveal_with_fuel(Tree::equals, 2);
    let x = a.fields();
    let y = b.fields();
    lemma_row_is_found(x, key, 0);
    lemma_row_is_found(y, key, 0);
    match row_from(x, key, 0) {
        Some(i) => {
            assert(x[i].0 == key);
            assert(x[i].1.equals(lookup(y, key)->0));
        },
        None => {
            match row_from(y, key, 0) {
                Some(j) => {
                    assert(lookup(x, y[j].0) is Some);
                },
                None => {},
            }
        },
    }
}

/// The amount of a published quote is that of its hold request.
pub proof fn law_a_published_quote_asks_for_its_amount(
    stalls: Stalls,
    before: Books,
    issuer: Seq<char>,
    quote: Tree,
    encoded_size: int,
    published_at: i64,
    after: Books,
    again: bool,
    published: Tree,
)
    requires
        quote_published(stalls, before, issuer, quote, encoded_size, published_at) == Ok::<
            (Books, bool, Tree),
            Seq<char>,
        >((after, again, published)),
    ensures
        published.whole("maxAmount"@) is Some,
        published.field("holdRequest"@) matches Some(request) && request.whole("maxAmount"@)
            == published.whole("maxAmount"@),
{
    reveal_strlit("maxAmount");
    reveal_strlit("holdRequest");
    reveal_strlit("quoteIssuerNodeOwnerId");
    reveal_strlit("publishedAt");
    assert("maxAmount"@.len() == 9);
    assert("holdRequest"@.len() == 11);
    assert("quoteIssuerNodeOwnerId"@.len() == 22);
    assert("publishedAt"@.len() == 11);
    assert("holdRequest"@[0] == 'h' && "publishedAt"@[0] == 'p');
    if again {
        let one = published.without("quoteIssuerNodeOwnerId"@);
        let submitted = one.without("publishedAt"@);
        law_lookup_after_drop(published.fields(), "quoteIssuerNodeOwnerId"@, "maxAmount"@);
        law_lookup_after_drop(published.fields(), "quoteIssuerNodeOwnerId"@, "holdRequest"@);
        law_lookup_after_drop(one.fields(), "publishedAt"@, "maxAmount"@);
        law_lookup_after_drop(one.fields(), "publishedAt"@, "holdRequest"@);
        law_equal_documents_share_their_fields(submitted, quote, "maxAmount"@);
        law_equal_documents_share_their_fields(submitted, quote, "holdRequest"@);
        law_equal_documents_share_their_fields(
            submitted.field("holdRequest"@)->0,
            quote.field("holdRequest"@)->0,
            "maxAmount"@,
        );
    }
}

/// A hold that is opened while a published quote stands is opened on it: for the payer that
/// the quote names, and on every term of the quote's hold request.
pub proof fn law_a_hold_stands_on_its_published_quote(
    stalls: Stalls,
    before: Books,
    issuer: Seq<char>,
    quote: Tree,
    encoded_size: int,
    published_at: i64,
    after: Books,
    again: bool,
    published: Tree,
    books: Books,
    payer: Seq<char>,
    input: CreateHoldInput,
    facts: HoldFacts,
    now: i64,
    hold_id: Seq<char>,
    journal_id: Seq<char>,
    opened: Books,
    answer: HoldAnswer,
)
    requires
        quote_published(stalls, before, issuer, quote, encoded_size, published_at) == Ok::<
            (Books, bool, Tree),
            Seq<char>,
        >((after, again, published)),
        lookup(books.quotes, input.quote_id@) == lookup(after.quotes, input.quote_id@),
        input.quote_id@ == quote.text_or_empty("quoteId"@),
        hold_created(books, payer, input, facts, now, hold_id, journal_id) == Ok::<
            (Books, HoldAnswer),
            Seq<char>,
        >((opened, answer)),
        answer.applied,
    ensures
        lookup(books.quotes, input.quote_id@) == Some(published),
        published.text("payerUserId"@) == Some(payer),
        answer.hold.payer_user_id == payer,
        same_value(published.field("holdRequest"@), Some(signed_request(input))),
        published.field("holdRequest"@) matches Some(request) && {
            &&& request.text("quoteId"@) == Some(answer.hold.quote_id)
            &&& request.whole("maxAmount"@) == Some(input.max_amount)
            &&& published.whole("maxAmount"@) == Some(input.max_amount)
            &&& answer.hold.max_amount == input.max_amount
            &&& request.text("settlementAuthority"@) == Some(answer.hold.settlement_authority)
            &&& request.text("meterProgramId"@) == Some(answer.hold.meter_program_id)
            &&& request.text("pricingVersion"@) == Some(answer.hold.pricing_version)
            &&& request.whole("expiresAt"@) matches Some(expires_at) && expires_at
                == answer.hold.expires_at
            &&& request.text("contextHash"@) == Some(answer.hold.context_hash)
            &&& request.text("beneficiaryPlanHash"@) matches Some(hash)
                && answer.hold.beneficiary_plan_hash == hash.map_values(|c: char| ascii_lower(c))
            &&& answer.hold.beneficiaries matches Some(plan) && same_value(
                request.field("beneficiaries"@),
                Some(beneficiaries_tree(plan)),
            )
            &&& request.text("idempotencyKey"@) == Some(input.idempotency_key@)
        },
{
    law_a_published_quote_asks_for_its_amount(
        stalls,
        before,
        issuer,
        quote,
        encoded_size,
        published_at,
        after,
        again,
        published,
    );
    let request = published.field("holdRequest"@)->0;
    let signed = signed_request(input);
    reveal_strlit("quoteId");
    reveal_strlit("pricingVersion");
    reveal_strlit("maxAmount");
    reveal_strlit("meterProgramId");
    reveal_strlit("settlementAuthority");
    reveal_strlit("expiresAt");
    reveal_strlit("contextHash");
    reveal_strlit("beneficiaryPlanHash");
    reveal_strlit("beneficiaries");
    reveal_strlit("idempotencyKey");
    assert("quoteId"@.len() == 7 && "quoteId"@[0] == 'q');
    assert("pricingVersion"@.len() == 14 && "pricingVersion"@[0] == 'p');
    assert("maxAmount"@.len() == 9 && "maxAmount"@[0] == 'm');
    assert("meterProgramId"@.len() == 14 && "meterProgramId"@[0] == 'm');
    assert("settlementAuthority"@.len() == 19 && "settlementAuthority"@[0] == 's');
    assert("expiresAt"@.len() == 9 && "expiresAt"@[0] == 'e');
    assert("contextHash"@.len() == 11 && "contextHash"@[0] == 'c');
    assert("beneficiaryPlanHash"@.len() == 19 && "beneficiaryPlanHash"@[0] == 'b');
    assert("beneficiaries"@.len() == 13 && "beneficiaries"@[0] == 'b');
    assert("idempotencyKey"@.len() == 14 && "idempotencyKey"@[0] == 'i');
    law_equal_documents_share_their_fields(request, signed, "quoteId"@);
    law_equal_documents_share_their_fields(request, signed, "pricingVersion"@);
    law_equal_documents_share_their_fields(request, signed, "maxAmount"@);
    law_equal_documents_share_their_fields(request, signed, "meterProgramId"@);
    law_equal_documents_share_their_fields(request, signed, "settlementAuthority"@);
    law_equal_documents_share_their_fields(request, signed, "expiresAt"@);
    law_equal_documents_share_their_fields(request, signed, "contextHash"@);
    law_equal_documents_share_their_fields(request, signed, "beneficiaryPlanHash"@);
    law_equal_documents_share_their_fields(request, signed, "beneficiaries"@);
    law_equal_documents_share_their_fields(request, signed, "idempotencyKey"@);
}

/// A quote that was never published opens no hold.
pub proof fn law_no_hold_without_a_quote(
    books: Books,
    payer: Seq<char>,
    input: CreateHoldInput,
    facts: HoldFacts,
    now: i64,
    hold_id: Seq<char>,
    journal_id: Seq<char>,
)
    requires
        lookup(books.quotes, input.quote_id@) is None,
    ensures
        hold_created(books, payer, input, facts, now, hold_id, journal_id) is Err,
{
}

/// A run's slice is set aside for no more than the quote that the market published: its
/// amount is the quote's, and its payer is the one that the quote names.
pub proof fn law_a_slice_stands_on_its_published_quote(
    books: Books,
    authority: Seq<char>,
    input: ReservePoolInput,
    now: i64,
    journal_id: Seq<char>,
    after: Books,
    reservation: ReservationAnswer,
)
    requires
        slice_reserved(books, authority, input, now, journal_id) == Ok::<
            (Books, ReservationAnswer),
            Seq<char>,
        >((after, reservation)),
        reservation is Changed,
    ensures
        lookup(books.quotes, input.quote_id@) matches Some(quote) && {
            &&& quote.text("payerUserId"@) == Some(input.payer_user_id@)
            &&& quote.number("maxAmount"@) == Some(input.max_amount)
        },
{
}

} // verus!
