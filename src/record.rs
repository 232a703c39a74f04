//! Reading a record's text fields: the kind token and the decimal amount.

use vstd::prelude::*;

use crate::types::{Amount, ClientId, Transaction, TransactionId, TransactionType};

verus! {

/// Why a record's fields do not make a transaction.
#[derive(Debug, Clone, Copy, PartialEq, Eq, Structural)]
pub enum RecordError {
    /// The kind token names none of the five kinds.
    UnknownKind,
    /// The amount is present but is not a decimal number of at most four fractional digits
    /// that fits an amount.
    InvalidAmount,
}

/// The largest whole part that is still tracked exactly while reading an amount; anything
/// above it cannot fit an amount anyway.
const WHOLE_CAP: u128 = 10000000000000000;

pub open spec fn is_digit(b: u8) -> bool {
    48 <= b <= 57
}

pub open spec fn all_digits(s: Seq<u8>) -> bool {
    forall|i: int| 0 <= i < s.len() ==> is_digit(#[trigger] s[i])
}

/// The number that a run of decimal digits denotes.
pub open spec fn digits_value(s: Seq<u8>) -> nat
    decreases s.len(),
{
    if s.len() == 0 {
        0
    } else {
        digits_value(s.drop_last()) * 10 + (s.last() - 48) as nat
    }
}

/// The length of the run of digits that `s` starts with.
pub open spec fn digit_run(s: Seq<u8>) -> nat
    decreases s.len(),
{
    if s.len() > 0 && is_digit(s[0]) {
        1 + digit_run(s.drop_first())
    } else {
        0
    }
}

pub open spec fn pow10(n: nat) -> nat
    decreases n,
{
    if n == 0 {
        1
    } else {
        10 * pow10((n - 1) as nat)
    }
}

/// The amount units of an unsigned decimal `whole[.frac]` with at least one digit and at
/// most four fractional digits.
pub open spec fn unsigned_units(body: Seq<u8>) -> Option<nat> {
    let k = digit_run(body) as int;
    let whole = body.take(k);
    let rest = body.skip(k);
    if rest.len() == 0 {
        if k == 0 {
            None
        } else {
            Some(digits_value(whole) * 10000)
        }
    } else if rest[0] == 46 && all_digits(rest.skip(1)) && rest.len() - 1 <= 4 && k + rest.len()
        - 1 > 0 {
        let frac = rest.skip(1);
        Some(digits_value(whole) * 10000 + digits_value(frac) * pow10((4 - frac.len()) as nat))
    } else {
        None
    }
}

/// The amount that `s` denotes: an optional sign, then an unsigned decimal, where the
/// result fits an amount.
pub open spec fn amount_of(s: Seq<u8>) -> Option<int> {
    let neg = s.len() > 0 && s[0] == 45;
    let body = if s.len() > 0 && (s[0] == 45 || s[0] == 43) {
        s.skip(1)
    } else {
        s
    };
    match unsigned_units(body) {
        Some(v) => {
            let r = if neg {
                -(v as int)
            } else {
                v as int
            };
            if i64::MIN <= r <= i64::MAX {
                Some(r)
            } else {
                None
            }
        },
        None => None,
    }
}

proof fn lemma_digit_run(s: Seq<u8>, i: int)
    requires
        0 <= i <= s.len(),
        all_digits(s.take(i)),
        i == s.len() || !is_digit(s[i]),
    ensures
        digit_run(s) == i,
    decreases i,
{
    if i > 0 {
        assert(is_digit(s.take(i)[0]));
        assert forall|j: int| 0 <= j < i - 1 implies is_digit(#[trigger] s.drop_first().take(i - 1)[j]) by {
            assert(s.take(i)[j + 1] == s[j + 1]);
        }
        if i < s.len() {
            assert(s.drop_first()[i - 1] == s[i]);
        }
        lemma_digit_run(s.drop_first(), i - 1);
    }
}

fn is_digit_exec(b: u8) -> (r: bool)
    ensures
        r == is_digit(b),
{
    48 <= b && b <= 57
}

/// Extends a capped digit value by one digit.
fn push_digit_capped(acc: u128, b: u8, Ghost(digits): Ghost<Seq<u8>>) -> (r: u128)
    requires
        is_digit(b),
        digits.len() > 0,
        digits.last() == b,
        acc == if digits_value(digits.drop_last()) <= WHOLE_CAP {
            digits_value(digits.drop_last())
        } else {
            WHOLE_CAP as nat
        },
    ensures
        r == if digits_value(digits) <= WHOLE_CAP {
            digits_value(digits)
        } else {
            WHOLE_CAP as nat
        },
{
    let d = (b - 48) as u128;
    let next = acc * 10 + d;
    if next <= WHOLE_CAP {
        next
    } else {
        WHOLE_CAP
    }
}

/// The factor that scales a fraction of `len` digits to amount units.
fn frac_scale(len: usize) -> (r: u128)
    requires
        len <= 4,
    ensures
        r == pow10((4 - len) as nat),
{
    reveal_with_fuel(pow10, 5);
    if len == 0 {
        10000
    } else if len == 1 {
        1000
    } else if len == 2 {
        100
    } else if len == 3 {
        10
    } else {
        1
    }
}

/// Reads the run of digits of `text` from `start` on: where it ends, and its value capped
/// at `WHOLE_CAP`.
fn scan_whole(text: &[u8], start: usize) -> (r: (usize, u128))
    requires
        start <= text@.len(),
    ensures
        start <= r.0 <= text@.len(),
        digit_run(text@.subrange(start as int, text@.len() as int)) == r.0 - start,
        r.1 == if digits_value(text@.subrange(start as int, r.0 as int)) <= WHOLE_CAP {
            digits_value(text@.subrange(start as int, r.0 as int))
        } else {
            WHOLE_CAP as nat
        },
{
    let n = text.len();
    let mut i: usize = start;
    let mut whole: u128 = 0;
    while i < n && is_digit_exec(text[i])
        invariant
            start <= i <= n,
            n == text@.len(),
            all_digits(text@.subrange(start as int, i as int)),
            whole == if digits_value(text@.subrange(start as int, i as int)) <= WHOLE_CAP {
                digits_value(text@.subrange(start as int, i as int))
            } else {
                WHOLE_CAP as nat
            },
        decreases n - i,
    {
        let ghost digits = text@.subrange(start as int, i + 1);
        assert(digits.drop_last() =~= text@.subrange(start as int, i as int));
        whole = push_digit_capped(whole, text[i], Ghost(digits));
        i = i + 1;
        assert forall|j: int| 0 <= j < i - start implies is_digit(
            #[trigger] text@.subrange(start as int, i as int)[j],
        ) by {
            if j < i - 1 - start {
                assert(text@.subrange(start as int, i - 1)[j] == text@.subrange(
                    start as int,
                    i as int,
                )[j]);
            }
        }
    }
    proof {
        let body = text@.subrange(start as int, n as int);
        assert(body.take(i - start) =~= text@.subrange(start as int, i as int));
        lemma_digit_run(body, i - start);
    }
    (i, whole)
}

/// Reads the digits of `text` from `from` to its end as a fraction of at most four digits.
fn scan_frac(text: &[u8], from: usize) -> (r: Option<u128>)
    requires
        from <= text@.len(),
    ensures
        r is Some <==> all_digits(text@.subrange(from as int, text@.len() as int)) && text@.len()
            - from <= 4,
        r matches Some(f) ==> f == digits_value(text@.subrange(from as int, text@.len() as int))
            && f < 10000,
{
    reveal_with_fuel(pow10, 5);
    let n = text.len();
    let mut j: usize = from;
    let mut frac: u128 = 0;
    while j < n
        invariant
            from <= j <= n,
            n == text@.len(),
            j - from <= 4,
            all_digits(text@.subrange(from as int, j as int)),
            frac == digits_value(text@.subrange(from as int, j as int)),
            frac < pow10((j - from) as nat),
            pow10((j - from) as nat) <= 10000,
        decreases n - j,
    {
        if !is_digit_exec(text[j]) {
            assert(text@.subrange(from as int, n as int)[j - from] == text@[j as int]);
            return None;
        }
        if j - from == 4 {
            return None;
        }
        reveal_with_fuel(pow10, 5);
        let ghost digits = text@.subrange(from as int, j + 1);
        assert(digits.drop_last() =~= text@.subrange(from as int, j as int));
        frac = frac * 10 + (text[j] - 48) as u128;
        j = j + 1;
        assert forall|m: int| 0 <= m < j - from implies is_digit(
            #[trigger] text@.subrange(from as int, j as int)[m],
        ) by {
            if m < j - 1 - from {
                assert(text@.subrange(from as int, j - 1)[m] == text@.subrange(
                    from as int,
                    j as int,
                )[m]);
            }
        }
    }
    Some(frac)
}

/// Reads an amount from its decimal text: an optional `-` or `+`, digits, and an optional
/// `.` followed by at most four digits, with at least one digit in all.
pub fn parse_amount(text: &[u8]) -> (r: Option<Amount>)
    ensures
        r == match amount_of(text@) {
            Some(v) => Some(v as i64),
            None => None::<i64>,
        },
{
    reveal_with_fuel(pow10, 5);
    let n = text.len();
    let neg = n > 0 && text[0] == 45;
    let start: usize = if n > 0 && (text[0] == 45 || text[0] == 43) {
        1
    } else {
        0
    };
    let ghost body = text@.subrange(start as int, n as int);
    assert(body =~= if text@.len() > 0 && (text@[0] == 45 || text@[0] == 43) {
        text@.skip(1)
    } else {
        text@
    });
    let (i, whole) = scan_whole(text, start);
    let ghost k = (i - start) as int;
    assert(body.take(k) =~= text@.subrange(start as int, i as int));
    assert(body.skip(k) =~= text@.subrange(i as int, n as int));
    let units: u128;
    let ghost exact: nat;
    if i == n {
        if i == start {
            return None;
        }
        units = whole * 10000;
        proof {
            exact = digits_value(body.take(k)) * 10000;
            assert(digit_run(body) == k);
            assert(body.skip(k).len() == 0);
            assert(unsigned_units(body) == Some(exact));
        }
    } else if text[i] == 46 {
        assert(body.skip(k).skip(1) =~= text@.subrange(i + 1, n as int));
        let frac = match scan_frac(text, i + 1) {
            Some(f) => f,
            None => {
                return None;
            },
        };
        if n - (i + 1) + (i - start) == 0 {
            return None;
        }
        let scale = frac_scale(n - (i + 1));
        assert(frac * scale <= 10000 * 10000) by (nonlinear_arith)
            requires
                frac < 10000,
                scale <= 10000,
        ;
        units = whole * 10000 + frac * scale;
        proof {
            exact = digits_value(body.take(k)) * 10000 + (frac * scale) as nat;
            assert(digit_run(body) == k);
            assert(body.skip(k)[0] == 46);
            assert(all_digits(body.skip(k).skip(1)));
            assert(body.skip(k).len() - 1 <= 4);
            assert(frac == digits_value(body.skip(k).skip(1)));
            assert(unsigned_units(body) == Some(exact));
        }
    } else {
        return None;
    }
    assert(unsigned_units(body) == Some(exact));
    assert(whole < WHOLE_CAP ==> units == exact);
    assert(whole >= WHOLE_CAP ==> units >= 100000000000000000000 && exact >= 100000000000000000000);
    let signed: i128 = if neg {
        0 - units as i128
    } else {
        units as i128
    };
    if (i64::MIN as i128) <= signed && signed <= (i64::MAX as i128) {
        Some(signed as i64)
    } else {
        None
    }
}

/// ASCII case folding of one byte.
pub open spec fn ascii_lower(b: u8) -> u8 {
    if 65 <= b <= 90 {
        (b + 32) as u8
    } else {
        b
    }
}

/// The lower-case token of each kind.
pub open spec fn kind_name(k: TransactionType) -> Seq<u8> {
    match k {
        TransactionType::Deposit => seq![100u8, 101u8, 112u8, 111u8, 115u8, 105u8, 116u8],  // deposit
        TransactionType::Withdrawal => seq![119u8, 105u8, 116u8, 104u8, 100u8, 114u8, 97u8, 119u8, 97u8, 108u8],  // withdrawal
        TransactionType::Dispute => seq![100u8, 105u8, 115u8, 112u8, 117u8, 116u8, 101u8],  // dispute
        TransactionType::Resolve => seq![114u8, 101u8, 115u8, 111u8, 108u8, 118u8, 101u8],  // resolve
        TransactionType::Chargeback => seq![99u8, 104u8, 97u8, 114u8, 103u8, 101u8, 98u8, 97u8, 99u8, 107u8],  // chargeback
    }
}

/// Whether `token` spells `name`, ignoring ASCII case.
pub open spec fn spells(token: Seq<u8>, name: Seq<u8>) -> bool {
    &&& token.len() == name.len()
    &&& forall|i: int| 0 <= i < token.len() ==> ascii_lower(#[trigger] token[i]) == name[i]
}

/// The kind that a token names, ignoring ASCII case.
pub open spec fn kind_of(token: Seq<u8>) -> Option<TransactionType> {
    if spells(token, kind_name(TransactionType::Deposit)) {
        Some(TransactionType::Deposit)
    } else if spells(token, kind_name(TransactionType::Withdrawal)) {
        Some(TransactionType::Withdrawal)
    } else if spells(token, kind_name(TransactionType::Dispute)) {
        Some(TransactionType::Dispute)
    } else if spells(token, kind_name(TransactionType::Resolve)) {
        Some(TransactionType::Resolve)
    } else if spells(token, kind_name(TransactionType::Chargeback)) {
        Some(TransactionType::Chargeback)
    } else {
        None
    }
}

fn kind_name_exec(k: TransactionType) -> (r: Vec<u8>)
    ensures
        r@ == kind_name(k),
{
    match k {
        TransactionType::Deposit => vec![100u8, 101u8, 112u8, 111u8, 115u8, 105u8, 116u8],  // deposit
        TransactionType::Withdrawal => vec![119u8, 105u8, 116u8, 104u8, 100u8, 114u8, 97u8, 119u8, 97u8, 108u8],  // withdrawal
        TransactionType::Dispute => vec![100u8, 105u8, 115u8, 112u8, 117u8, 116u8, 101u8],  // dispute
        TransactionType::Resolve => vec![114u8, 101u8, 115u8, 111u8, 108u8, 118u8, 101u8],  // resolve
        TransactionType::Chargeback => vec![99u8, 104u8, 97u8, 114u8, 103u8, 101u8, 98u8, 97u8, 99u8, 107u8],  // chargeback
    }
}

fn spells_exec(token: &[u8], name: &Vec<u8>) -> (r: bool)
    ensures
        r == spells(token@, name@),
{
    if token.len() != name.len() {
        return false;
    }
    let mut i: usize = 0;
    while i < token.len()
        invariant
            i <= token@.len(),
            token@.len() == name@.len(),
            forall|j: int| 0 <= j < i ==> ascii_lower(#[trigger] token@[j]) == name@[j],
        decreases token@.len() - i,
    {
        let b = token[i];
        let lower = if 65 <= b && b <= 90 {
            b + 32
        } else {
            b
        };
        if lower != name[i] {
            return false;
        }
        i = i + 1;
    }
    true
}

/// Reads a kind token, ignoring ASCII case.
pub fn parse_kind(token: &[u8]) -> (r: Option<TransactionType>)
    ensures
        r == kind_of(token@),
{
    if spells_exec(token, &kind_name_exec(TransactionType::Deposit)) {
        Some(TransactionType::Deposit)
    } else if spells_exec(token, &kind_name_exec(TransactionType::Withdrawal)) {
        Some(TransactionType::Withdrawal)
    } else if spells_exec(token, &kind_name_exec(TransactionType::Dispute)) {
        Some(TransactionType::Dispute)
    } else if spells_exec(token, &kind_name_exec(TransactionType::Resolve)) {
        Some(TransactionType::Resolve)
    } else if spells_exec(token, &kind_name_exec(TransactionType::Chargeback)) {
        Some(TransactionType::Chargeback)
    } else {
        None
    }
}

/// The transaction that a record's fields make, or why they make none.
pub open spec fn transaction_of(
    kind: Seq<u8>,
    client: ClientId,
    tx: TransactionId,
    amount: Option<Seq<u8>>,
) -> Result<Transaction, RecordError> {
    match kind_of(kind) {
        None => Err(RecordError::UnknownKind),
        Some(k) => match amount {
            None => Ok(Transaction { kind: k, client, tx, amount: None }),
            Some(a) => match amount_of(a) {
                None => Err(RecordError::InvalidAmount),
                Some(v) => Ok(Transaction { kind: k, client, tx, amount: Some(v as i64) }),
            },
        },
    }
}

/// Builds a transaction from a record's fields: the kind token, the ids, and the amount's
/// text where the record has one.
pub fn parse_transaction(
    kind: &[u8],
    client: ClientId,
    tx: TransactionId,
    amount: Option<&[u8]>,
) -> (r: Result<Transaction, RecordError>)
    ensures
        r == transaction_of(
            kind@,
            client,
            tx,
            match amount {
                Some(a) => Some(a@),
                None => None,
            },
        ),
{
    let k = match parse_kind(kind) {
        Some(k) => k,
        None => {
            return Err(RecordError::UnknownKind);
        },
    };
    match amount {
        None => Ok(Transaction { kind: k, client, tx, amount: None }),
        Some(a) => match parse_amount(a) {
            None => Err(RecordError::InvalidAmount),
            Some(v) => Ok(Transaction { kind: k, client, tx, amount: Some(v) }),
        },
    }
}

} // verus!
