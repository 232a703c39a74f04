//! The account listing: one text row per account, in client order, under a header.

use vstd::prelude::*;

use crate::process::{accounts_wf, Accounts};
use crate::types::{Account, ClientId};

verus! {

broadcast use vstd::std_specs::hash::group_hash_axioms;

pub open spec fn digit_byte(d: nat) -> u8 {
    (48 + d) as u8
}

/// The decimal digits of `n`, without leading zeros.
pub open spec fn decimal_text(n: nat) -> Seq<u8>
    decreases n,
{
    if n < 10 {
        seq![digit_byte(n)]
    } else {
        decimal_text(n / 10).push(digit_byte(n % 10))
    }
}

/// An amount as a decimal with exactly four fractional digits: `-1.5000` for -15000 units.
pub open spec fn amount_text(a: int) -> Seq<u8> {
    let m = if a < 0 {
        -a
    } else {
        a
    };
    let sign = if a < 0 {
        seq![45u8]
    } else {
        Seq::<u8>::empty()
    };
    let f = (m % 10000) as nat;
    sign + decimal_text((m / 10000) as nat) + seq![
        46u8,
        digit_byte(f / 1000),
        digit_byte(f / 100 % 10),
        digit_byte(f / 10 % 10),
        digit_byte(f % 10),
    ]
}

/// `true` or `false`.
pub open spec fn bool_text(b: bool) -> Seq<u8> {
    if b {
        seq![116u8, 114u8, 117u8, 101u8]  // true
    } else {
        seq![102u8, 97u8, 108u8, 115u8, 101u8]  // false
    }
}

/// One account's row: `client,available,held,total,locked` and a line break.
pub open spec fn row_text(client: ClientId, a: Account) -> Seq<u8> {
    decimal_text(client as nat) + seq![44u8] + amount_text(a.spec_available()) + seq![44u8]
        + amount_text(a.held as int) + seq![44u8] + amount_text(a.total as int) + seq![44u8]
        + bool_text(a.locked) + seq![10u8]
}

/// The rows of the accounts of clients below `n`, in client order.
pub open spec fn rows_below(accounts: Map<ClientId, Account>, n: nat) -> Seq<u8>
    decreases n,
{
    if n == 0 {
        Seq::empty()
    } else {
        let c = (n - 1) as ClientId;
        let before = rows_below(accounts, (n - 1) as nat);
        if accounts.contains_key(c) {
            before + row_text(c, accounts[c])
        } else {
            before
        }
    }
}

/// The header line `client,available,held,total,locked`.
pub open spec fn header_text() -> Seq<u8> {
    seq![
        99u8, 108u8, 105u8, 101u8, 110u8, 116u8, 44u8,
        97u8, 118u8, 97u8, 105u8, 108u8, 97u8, 98u8, 108u8, 101u8, 44u8,
        104u8, 101u8, 108u8, 100u8, 44u8,
        116u8, 111u8, 116u8, 97u8, 108u8, 44u8,
        108u8, 111u8, 99u8, 107u8, 101u8, 100u8, 10u8,  // locked, line break
    ]
}

/// The whole listing: the header, then every account in client order.
pub open spec fn listing_text(accounts: Map<ClientId, Account>) -> Seq<u8> {
    header_text() + rows_below(accounts, 65536)
}

fn push_bytes(out: &mut Vec<u8>, bytes: &[u8])
    ensures
        final(out)@ == old(out)@ + bytes@,
{
    let mut i: usize = 0;
    while i < bytes.len()
        invariant
            i <= bytes@.len(),
            out@ == old(out)@ + bytes@.take(i as int),
        decreases bytes@.len() - i,
    {
        out.push(bytes[i]);
        i = i + 1;
        assert(bytes@.take(i as int) =~= bytes@.take(i - 1).push(bytes@[i - 1]));
    }
    assert(bytes@.take(i as int) =~= bytes@);
}

fn push_decimal(out: &mut Vec<u8>, n: u64)
    ensures
        final(out)@ == old(out)@ + decimal_text(n as nat),
    decreases n,
{
    if n < 10 {
        out.push((48 + n) as u8);
    } else {
        push_decimal(out, n / 10);
        out.push((48 + n % 10) as u8);
    }
}

fn push_amount(out: &mut Vec<u8>, a: i64)
    ensures
        final(out)@ == old(out)@ + amount_text(a as int),
{
    let m: u64 = if a < 0 {
        out.push(45u8);
        (0 - (a as i128)) as u64
    } else {
        a as u64
    };
    push_decimal(out, m / 10000);
    let f = m % 10000;
    out.push(46u8);
    out.push((48 + f / 1000) as u8);
    out.push((48 + f / 100 % 10) as u8);
    out.push((48 + f / 10 % 10) as u8);
    out.push((48 + f % 10) as u8);
    assert(out@ =~= old(out)@ + amount_text(a as int));
}

/// Appends one account's row.
pub fn push_row(out: &mut Vec<u8>, client: ClientId, account: &Account)
    requires
        account.wf(),
    ensures
        final(out)@ == old(out)@ + row_text(client, *account),
{
    let ghost start = out@;
    push_decimal(out, client as u64);
    out.push(44u8);
    push_amount(out, account.available());
    out.push(44u8);
    let ghost first = out@;
    assert(first =~= start + (decimal_text(client as nat) + seq![44u8] + amount_text(
        account.spec_available(),
    ) + seq![44u8]));
    push_amount(out, account.held);
    out.push(44u8);
    push_amount(out, account.total);
    out.push(44u8);
    let ghost second = out@;
    assert(second =~= first + (amount_text(account.held as int) + seq![44u8] + amount_text(
        account.total as int,
    ) + seq![44u8]));
    if account.locked {
        push_bytes(out, &[116u8, 114u8, 117u8, 101u8]);  // true
    } else {
        push_bytes(out, &[102u8, 97u8, 108u8, 115u8, 101u8]);  // false
    }
    out.push(10u8);
    assert(out@ =~= second + (bool_text(account.locked) + seq![10u8]));
    assert(out@ =~= old(out)@ + row_text(client, *account));
}

/// Renders the listing of all accounts, in increasing client order.
pub fn render_accounts(accounts: &Accounts) -> (r: Vec<u8>)
    requires
        accounts_wf(accounts@),
    ensures
        r@ == listing_text(accounts@),
{
    let mut out: Vec<u8> = Vec::new();
    push_bytes(
        &mut out,
        &[
            99u8, 108u8, 105u8, 101u8, 110u8, 116u8, 44u8,
            97u8, 118u8, 97u8, 105u8, 108u8, 97u8, 98u8, 108u8, 101u8, 44u8,
            104u8, 101u8, 108u8, 100u8, 44u8,
            116u8, 111u8, 116u8, 97u8, 108u8, 44u8,
            108u8, 111u8, 99u8, 107u8, 101u8, 100u8, 10u8,  // locked, line break
        ],
    );
    assert(out@ =~= header_text());
    let mut c: u32 = 0;
    while c < 65536
        invariant
            c <= 65536,
            accounts_wf(accounts@),
            out@ == header_text() + rows_below(accounts@, c as nat),
        decreases 65536 - c,
    {
        let client = c as u16;
        match accounts.get(&client) {
            Some(account) => {
                push_row(&mut out, client, account);
            },
            None => {},
        }
        c = c + 1;
        assert(out@ =~= header_text() + rows_below(accounts@, c as nat));
    }
    out
}

} // verus!
