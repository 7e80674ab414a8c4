use vstd::arithmetic::div_mod::lemma_add_mod_noop;
use vstd::prelude::*;

use crate::error::BalanceError;
use crate::record::{le_bytes, le_u32, lemma_value_round_trip, BankAccount, RECORD_LEN};

verus! {

/// Length in bytes of an account address or a program identity.
pub const ID_LEN: usize = 32;

/// One account handed to the handler by its host: an address, the identity
/// of the program that owns it, and its data, which the handler may rewrite.
pub struct AccountRef {
    pub key: [u8; 32],
    pub owner: [u8; 32],
    pub data: Vec<u8>,
}

/// One more than `b`, wrapping to zero after `u32::MAX`.
pub open spec fn next_balance(b: u32) -> u32 {
    ((b + 1) % 0x1_0000_0000) as u32
}

/// The account data after one successful call of the handler on `data`.
pub open spec fn incremented(data: Seq<u8>) -> Seq<u8> {
    le_bytes(next_balance(le_u32(data)))
}

/// The account data after `n` successful calls of the handler on `data`.
pub open spec fn incremented_times(data: Seq<u8>, n: nat) -> Seq<u8>
    decreases n,
{
    if n == 0 {
        data
    } else {
        incremented(incremented_times(data, (n - 1) as nat))
    }
}

/// One successful call on an account storing `b`, below the largest `u32`,
/// leaves it storing exactly `b + 1`, still in four bytes.
pub proof fn lemma_single_call(b: u32)
    requires
        b < u32::MAX,
    ensures
        incremented(le_bytes(b)).len() == RECORD_LEN,
        le_u32(incremented(le_bytes(b))) == b + 1,
{
    lemma_value_round_trip(b);
    lemma_value_round_trip(next_balance(b));
}

/// `n` successful calls in a row on an account storing `b` leave it storing
/// `(b + n) mod 2^32`, still in four bytes.
pub proof fn lemma_repeated_calls(b: u32, n: nat)
    ensures
        incremented_times(le_bytes(b), n) == le_bytes(((b + n) % 0x1_0000_0000) as u32),
        incremented_times(le_bytes(b), n).len() == RECORD_LEN,
        le_u32(incremented_times(le_bytes(b), n)) == (b + n) % 0x1_0000_0000,
    decreases n,
{
    let m: int = 0x1_0000_0000;
    if n == 0 {
        assert((b + 0) % m == b);
    } else {
        lemma_repeated_calls(b, (n - 1) as nat);
        let c = ((b + (n - 1)) % m) as u32;
        lemma_value_round_trip(c);
        lemma_add_mod_noop(b + (n - 1), 1, m);
        assert((1int) % m == 1);
        assert(next_balance(c) == ((b + n) % m) as u32);
    }
    lemma_value_round_trip(((b + n) % m) as u32);
}

/// Whether the handler accepts an account with this owner and data when it
/// is called as `program_id`.
pub open spec fn accepts(program_id: Seq<u8>, account: AccountRef) -> bool {
    account.owner@ == program_id && account.data@.len() == RECORD_LEN
}

/// Whether two identities are the same, byte for byte.
pub fn same_id(a: &[u8; 32], b: &[u8; 32]) -> (r: bool)
    ensures
        r == (a@ == b@),
{
    let mut i: usize = 0;
    while i < ID_LEN
        invariant
            i <= ID_LEN,
            a@.len() == ID_LEN,
            b@.len() == ID_LEN,
            a@.subrange(0, i as int) == b@.subrange(0, i as int),
        decreases ID_LEN - i,
    {
        if a[i] != b[i] {
            assert(a@[i as int] != b@[i as int]);
            return false;
        }
        assert(a@.subrange(0, i + 1) =~= a@.subrange(0, i as int).push(a@[i as int]));
        assert(b@.subrange(0, i + 1) =~= b@.subrange(0, i as int).push(b@[i as int]));
        i = i + 1;
    }
    assert(a@ =~= a@.subrange(0, ID_LEN as int));
    assert(b@ =~= b@.subrange(0, ID_LEN as int));
    true
}

/// Adds one to the balance stored in the first account, provided that the
/// account is owned by `program_id` and its data is a 4-byte record. The
/// instruction data is accepted and not read. On any error no account is
/// changed.
pub fn increase_balance(
    program_id: &[u8; 32],
    accounts: &mut [AccountRef],
    _instruction_data: &[u8],
) -> (r: Result<(), BalanceError>)
    ensures
        old(accounts)@.len() == 0 ==> r == Err::<(), BalanceError>(BalanceError::MissingAccount),
        old(accounts)@.len() > 0 && old(accounts)@[0].owner@ != program_id@ ==> r == Err::<
            (),
            BalanceError,
        >(BalanceError::Unauthorized),
        old(accounts)@.len() > 0 && old(accounts)@[0].owner@ == program_id@
            && old(accounts)@[0].data@.len() != RECORD_LEN ==> r == Err::<(), BalanceError>(
            BalanceError::MalformedRecord,
        ),
        r is Ok <==> old(accounts)@.len() > 0 && accepts(program_id@, old(accounts)@[0]),
        r is Err ==> final(accounts)@ == old(accounts)@,
        final(accounts)@.len() == old(accounts)@.len(),
        r is Ok ==> {
            let (before, after) = (old(accounts)@[0], final(accounts)@[0]);
            &&& after.key == before.key
            &&& after.owner == before.owner
            &&& after.data@ == incremented(before.data@)
            &&& after.data@.len() == RECORD_LEN
            &&& le_u32(after.data@) == next_balance(le_u32(before.data@))
            &&& forall|i: int|
                1 <= i < old(accounts)@.len() ==> #[trigger] final(accounts)@[i] == old(
                    accounts,
                )@[i]
        },
{
    if accounts.len() == 0 {
        return Err(BalanceError::MissingAccount);
    }
    if !same_id(&accounts[0].owner, program_id) {
        return Err(BalanceError::Unauthorized);
    }
    let mut bank_account = match BankAccount::try_from_slice(accounts[0].data.as_slice()) {
        Ok(a) => a,
        Err(e) => return Err(e),
    };
    bank_account.balance = bank_account.balance.wrapping_add(1);
    assert(bank_account.balance == next_balance(le_u32(old(accounts)@[0].data@)));
    let account = &mut accounts[0];
    let written = bank_account.serialize(&mut account.data);
    proof {
        lemma_value_round_trip(bank_account.balance);
    }
    assert(account.data@ =~= le_bytes(bank_account.balance));
    written
}

} // verus!
