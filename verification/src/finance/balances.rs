//! The one balance of a creature, which its directory keeps and its wallet shows.
use vstd::prelude::*;

use crate::creature::directory::{balance_of, Account, CreatureFault, Creatures, CreaturesState};
use crate::finance::ledger::{wallet_in, wallet_of, Books, Ledger, Wallet};
use crate::table::{law_lookup_after_store, lookup, stored, Rows};

verus! {

broadcast use {vstd::string::group_string_axioms, law_lookup_after_store};

/// Every wallet shows the balance of its creature; what is no creature has none.
pub open spec fn balances_agree(creatures: CreaturesState, wallets: Rows<Wallet>) -> bool {
    forall|user: Seq<char>|
        (#[trigger] wallet_of(wallets, user)).balance == balance_of(creatures, user)
}

/// The ledger with the balance of a user's creature in the user's wallet.
pub open spec fn balance_loaded(books: Books, creatures: CreaturesState, user: Seq<char>) -> Books {
    Books {
        wallets: stored(
            books.wallets,
            user,
            Wallet { balance: balance_of(creatures, user), ..wallet_of(books.wallets, user) },
        ),
        ..books
    }
}

/// The creatures with the balance of a user's wallet, or why there is none to write.
pub open spec fn balance_stored(creatures: CreaturesState, books: Books, user: Seq<char>) -> Result<
    CreaturesState,
    CreatureFault,
> {
    match wallet_of(books.wallets, user).balance {
        None => Err(CreatureFault::NotFound),
        Some(balance) => if lookup(creatures.records, user) is None {
            Err(CreatureFault::NotFound)
        } else {
            Ok(
                CreaturesState {
                    balances: stored(creatures.balances, user, balance),
                    ..creatures
                },
            )
        },
    }
}

/// Read the balance of a creature into its wallet.
pub fn load_balance(ledger: &mut Ledger, creatures: &Creatures, user: &str)
    ensures
        final(ledger)@ == balance_loaded(old(ledger)@, creatures@, user@),
{
    let w = wallet_in(&ledger.wallets, user);
    let balance: Option<i64> = match creatures.account(user) {
        Some(account) => Some(account.balance),
        None => None,
    };
    ledger.wallets.put(user, Wallet { balance, ..w });
}

/// Write the balance of a wallet back to its creature. It never brings a creature about.
pub fn store_balance(ledger: &Ledger, creatures: &mut Creatures, user: &str) -> (r: Result<
    (),
    CreatureFault,
>)
    ensures
        match r {
            Ok(_) => balance_stored(old(creatures)@, ledger@, user@) == Ok::<
                CreaturesState,
                CreatureFault,
            >(final(creatures)@),
            Err(e) => final(creatures)@ == old(creatures)@ && balance_stored(
                old(creatures)@,
                ledger@,
                user@,
            ) == Err::<CreaturesState, CreatureFault>(e),
        },
{
    match wallet_in(&ledger.wallets, user).balance {
        None => Err(CreatureFault::NotFound),
        Some(balance) => creatures.store_account(&Account { id: user.to_owned(), balance }),
    }
}

// ---------------------------------------------------------------- laws

/// A wallet that was loaded shows the balance of its creature, and nothing else of it
/// changed.
pub proof fn law_a_loaded_wallet_shows_the_balance(
    books: Books,
    creatures: CreaturesState,
    user: Seq<char>,
)
    ensures
        ({
            let w = wallet_of(balance_loaded(books, creatures, user).wallets, user);
            &&& w.balance == balance_of(creatures, user)
            &&& w == (Wallet { balance: w.balance, ..wallet_of(books.wallets, user) })
        }),
{
}

/// An action that changes the balance of one wallet leaves wallets and creatures agreed,
/// once that balance was written back.
pub proof fn law_writing_back_keeps_the_balances_agreed(
    creatures: CreaturesState,
    before: Books,
    after: Books,
    user: Seq<char>,
)
    requires
        balances_agree(creatures, before.wallets),
        forall|other: Seq<char>|
            other != user ==> (#[trigger] wallet_of(after.wallets, other)).balance == wallet_of(
                before.wallets,
                other,
            ).balance,
    ensures
        balance_stored(creatures, after, user) matches Ok(written) ==> balances_agree(
            written,
            after.wallets,
        ),
{
    if let Ok(written) = balance_stored(creatures, after, user) {
        assert forall|other: Seq<char>|
            (#[trigger] wallet_of(after.wallets, other)).balance == balance_of(written, other) by {
            assert(wallet_of(before.wallets, other).balance == balance_of(creatures, other));
        }
    }
}

} // verus!
