//! The input record format: the kind name, the decimal amount, and the
//! conversion of one raw record into a typed transaction.
use vstd::prelude::*;

use crate::account::Account;
use crate::{ClientId, Money, Transaction, TxId, TxType};

verus! {

/// One input record as read from the source, before its amount is checked.
pub struct RawTransaction {
    pub tx_type: TxType,
    pub client_id: ClientId,
    pub tx_id: TxId,
    /// The amount's text, where the record has one.
    pub amount: Option<String>,
}

/// Why a raw record is not a valid transaction.
#[derive(Clone, Copy, Debug, PartialEq, Eq, Structural)]
pub enum RecordError {
    /// A deposit or withdrawal without an amount.
    MissingAmount(TxId),
    /// An amount that is not a non-negative decimal with at most four
    /// fractional digits, or that is too large for `Money`.
    InvalidAmount(TxId),
}

/// The byte of `'0'`.
pub const ZERO: u8 = 48;

/// The byte of `'9'`.
pub const NINE: u8 = 57;

/// The byte of `'.'`.
pub const DOT: u8 = 46;

pub open spec fn is_digit(b: u8) -> bool {
    ZERO <= b <= NINE
}

pub open spec fn all_digits(s: Seq<u8>) -> bool {
    forall|i: int| 0 <= i < s.len() ==> is_digit(#[trigger] s[i])
}

/// The number that the decimal digits `s` spell.
pub open spec fn digits_value(s: Seq<u8>) -> int
    decreases s.len(),
{
    if s.len() == 0 {
        0
    } else {
        digits_value(s.drop_last()) * 10 + (s.last() - ZERO)
    }
}

/// The index of the first `.` in `s`, or its length where it has none.
pub open spec fn first_dot(s: Seq<u8>) -> int
    decreases s.len(),
{
    if s.len() == 0 {
        0
    } else {
        let p = first_dot(s.drop_last());
        if p < s.len() - 1 {
            p
        } else if s.last() == DOT {
            s.len() - 1
        } else {
            s.len() as int
        }
    }
}

pub open spec fn pow10(n: nat) -> int
    decreases n,
{
    if n == 0 {
        1
    } else {
        10 * pow10((n - 1) as nat)
    }
}

/// The amount that `s` writes, in `Money` units: digits, optionally
/// followed by `.` and at most four fractional digits, with at least one
/// digit in all. `None` where `s` is not of that form.
pub open spec fn amount_of(s: Seq<u8>) -> Option<int> {
    let d = first_dot(s);
    let whole = s.take(d);
    let frac = if d < s.len() {
        s.skip(d + 1)
    } else {
        Seq::empty()
    };
    if all_digits(whole) && all_digits(frac) && frac.len() <= 4 && whole.len() + frac.len() > 0 {
        Some(digits_value(whole) * 10000 + digits_value(frac) * pow10((4 - frac.len()) as nat))
    } else {
        None
    }
}

/// The amount of `s` where it has one that fits in `Money`.
pub open spec fn money_of(s: Seq<u8>) -> Option<Money> {
    match amount_of(s) {
        Some(v) => if v <= i64::MAX {
            Some(v as i64)
        } else {
            None
        },
        None => None,
    }
}

proof fn lemma_first_dot(s: Seq<u8>, i: int)
    requires
        0 <= i <= s.len(),
        forall|k: int| 0 <= k < i ==> s[k] != DOT,
        i < s.len() ==> s[i] == DOT,
    ensures
        first_dot(s) == i,
    decreases s.len(),
{
    if s.len() > 0 {
        let t = s.drop_last();
        if i < s.len() - 1 {
            lemma_first_dot(t, i);
        } else {
            lemma_first_dot(t, s.len() - 1);
        }
    }
}

proof fn lemma_digits_nonneg(s: Seq<u8>)
    requires
        all_digits(s),
    ensures
        digits_value(s) >= 0,
    decreases s.len(),
{
    if s.len() > 0 {
        lemma_digits_nonneg(s.drop_last());
    }
}

proof fn lemma_digits_prefix_le(s: Seq<u8>, k: int)
    requires
        all_digits(s),
        0 <= k <= s.len(),
    ensures
        digits_value(s.take(k)) <= digits_value(s),
    decreases s.len(),
{
    if k < s.len() {
        let t = s.drop_last();
        lemma_digits_prefix_le(t, k);
        lemma_digits_nonneg(t);
        assert(t.take(k) =~= s.take(k));
    } else {
        assert(s.take(k) =~= s);
    }
}

proof fn lemma_pow10_pos(n: nat)
    ensures
        pow10(n) >= 1,
    decreases n,
{
    if n > 0 {
        lemma_pow10_pos((n - 1) as nat);
    }
}

proof fn lemma_pow10_small()
    ensures
        pow10(0) == 1,
        pow10(1) == 10,
        pow10(2) == 100,
        pow10(3) == 1000,
        pow10(4) == 10000,
{
    reveal_with_fuel(pow10, 5);
}

/// One more fractional digit keeps the value under the next power of ten
/// and the scale a power of ten.
proof fn lemma_frac_step(m: nat, fv: int, scale: int, digit: int)
    requires
        m <= 3,
        0 <= fv < pow10(m),
        0 <= digit <= 9,
        scale == pow10((4 - m) as nat),
    ensures
        fv * 10 + digit < pow10(m + 1),
        scale / 10 == pow10((3 - m) as nat),
        fv * 10 + digit < 10000,
{
    lemma_pow10_small();
    if m == 0 {
    } else if m == 1 {
    } else if m == 2 {
    } else {
    }
}

proof fn lemma_frac_total(m: nat, fv: int, scale: int)
    requires
        m <= 4,
        0 <= fv < pow10(m),
        scale == pow10((4 - m) as nat),
    ensures
        0 <= fv * scale <= 9999,
{
    lemma_pow10_small();
    if m == 0 {
    } else if m == 1 {
    } else if m == 2 {
    } else if m == 3 {
    } else {
    }
}

/// Reads a decimal amount into `Money` units, as `money_of` says.
pub fn parse_amount(text: &[u8]) -> (r: Option<Money>)
    ensures
        r == money_of(text@),
{
    let n = text.len();
    let mut d: usize = 0;
    while d < n && text[d] != DOT
        invariant
            d <= n == text@.len(),
            forall|k: int| 0 <= k < d ==> text@[k] != DOT,
        decreases n - d,
    {
        d += 1;
    }
    proof {
        lemma_first_dot(text@, d as int);
        lemma_pow10_small();
    }
    let ghost whole = text@.take(d as int);
    let ghost frac = if d < n {
        text@.skip(d + 1)
    } else {
        Seq::<u8>::empty()
    };
    let mut acc: u64 = 0;
    let mut k: usize = 0;
    while k < d
        invariant
            d <= n == text@.len(),
            k <= d,
            d == first_dot(text@),
            whole == text@.take(d as int),
            frac == (if d < n { text@.skip(d + 1) } else { Seq::<u8>::empty() }),
            all_digits(whole.take(k as int)),
            acc == digits_value(whole.take(k as int)),
            acc <= 922_337_203_685_477,
        decreases d - k,
    {
        let b = text[k];
        assert(whole[k as int] == b);
        if b < ZERO || b > NINE {
            assert(!all_digits(whole));
            return None;
        }
        assert(whole.take(k + 1).drop_last() =~= whole.take(k as int));
        acc = acc * 10 + (b - ZERO) as u64;
        if acc > 922_337_203_685_477 {
            proof {
                if amount_of(text@) is Some {
                    assert(all_digits(whole));
                    assert(all_digits(frac));
                    lemma_digits_prefix_le(whole, k + 1);
                    lemma_digits_nonneg(frac);
                    lemma_pow10_pos((4 - frac.len()) as nat);
                    let w = digits_value(whole);
                    let f = digits_value(frac) * pow10((4 - frac.len()) as nat);
                    assert(w * 10000 > i64::MAX) by (nonlinear_arith)
                        requires
                            w >= acc,
                            acc > 922_337_203_685_477,
                    ;
                    assert(f >= 0) by (nonlinear_arith)
                        requires
                            digits_value(frac) >= 0,
                            pow10((4 - frac.len()) as nat) >= 1,
                            f == digits_value(frac) * pow10((4 - frac.len()) as nat),
                    ;
                }
            }
            return None;
        }
        k += 1;
    }
    assert(whole.take(d as int) =~= whole);
    let mut frac_value: u64 = 0;
    let mut scale: u64 = 10000;
    if d < n {
        if n - (d + 1) > 4 {
            return None;
        }
        let mut j: usize = d + 1;
        while j < n
            invariant
                d < n == text@.len(),
                d == first_dot(text@),
                d + 1 <= j <= n,
                n - (d + 1) <= 4,
                frac == text@.skip(d + 1),
                all_digits(frac.take(j - (d + 1))),
                frac_value == digits_value(frac.take(j - (d + 1))),
                0 <= frac_value < pow10((j - (d + 1)) as nat),
                scale == pow10((4 - (j - (d + 1))) as nat),
            decreases n - j,
        {
            let b = text[j];
            let ghost m = j - (d + 1);
            assert(frac[m] == b);
            if b < ZERO || b > NINE {
                assert(!all_digits(frac));
                return None;
            }
            assert(frac.take(m + 1).drop_last() =~= frac.take(m));
            proof {
                lemma_frac_step(m as nat, frac_value as int, scale as int, (b - ZERO) as int);
            }
            frac_value = frac_value * 10 + (b - ZERO) as u64;
            scale = scale / 10;
            j += 1;
        }
        assert(frac.take(n - (d + 1)) =~= frac);
    } else {
        assert(frac.len() == 0);
    }
    proof {
        lemma_frac_total(frac.len(), frac_value as int, scale as int);
    }
    if d == 0 && n <= d + 1 {
        return None;
    }
    let total: u64 = acc * 10000 + frac_value * scale;
    if total > i64::MAX as u64 {
        None
    } else {
        Some(total as i64)
    }
}

/// `b` with an ASCII upper-case letter made lower-case.
pub open spec fn lower_byte(b: u8) -> u8 {
    if 65 <= b <= 90 {
        (b + 32) as u8
    } else {
        b
    }
}

/// `s` is the lower-case word `word` up to ASCII case.
pub open spec fn names_word(s: Seq<u8>, word: Seq<u8>) -> bool {
    s.len() == word.len() && forall|i: int| 0 <= i < s.len() ==> lower_byte(s[i]) == word[i]
}

/// The kind that `name` spells, in any ASCII case.
pub open spec fn kind_of(name: Seq<u8>) -> Option<TxType> {
    if names_word(name, seq![100u8, 101, 112, 111, 115, 105, 116]) {
        Some(TxType::Deposit)
    } else if names_word(name, seq![119u8, 105, 116, 104, 100, 114, 97, 119, 97, 108]) {
        Some(TxType::Withdrawal)
    } else if names_word(name, seq![100u8, 105, 115, 112, 117, 116, 101]) {
        Some(TxType::Dispute)
    } else if names_word(name, seq![114u8, 101, 115, 111, 108, 118, 101]) {
        Some(TxType::Resolve)
    } else if names_word(name, seq![99u8, 104, 97, 114, 103, 101, 98, 97, 99, 107]) {
        Some(TxType::Chargeback)
    } else {
        None
    }
}

fn matches_word(name: &[u8], word: &[u8]) -> (r: bool)
    ensures
        r == names_word(name@, word@),
{
    if name.len() != word.len() {
        return false;
    }
    let mut i: usize = 0;
    while i < name.len()
        invariant
            name@.len() == word@.len(),
            i <= name@.len(),
            forall|k: int| 0 <= k < i ==> lower_byte(name@[k]) == word@[k],
        decreases name.len() - i,
    {
        let b = name[i];
        let lower = if 65 <= b && b <= 90 {
            b + 32
        } else {
            b
        };
        if lower != word[i] {
            return false;
        }
        i += 1;
    }
    true
}

impl TxType {
    /// The kind named `name` (`deposit`, `withdrawal`, `dispute`, `resolve`
    /// or `chargeback`), in any ASCII case.
    pub fn from_name(name: &[u8]) -> (r: Option<TxType>)
        ensures
            r == kind_of(name@),
    {
        let deposit: [u8; 7] = [100, 101, 112, 111, 115, 105, 116];
        let withdrawal: [u8; 10] = [119, 105, 116, 104, 100, 114, 97, 119, 97, 108];
        let dispute: [u8; 7] = [100, 105, 115, 112, 117, 116, 101];
        let resolve: [u8; 7] = [114, 101, 115, 111, 108, 118, 101];
        let chargeback: [u8; 10] = [99, 104, 97, 114, 103, 101, 98, 97, 99, 107];
        assert(deposit@ =~= seq![100u8, 101, 112, 111, 115, 105, 116]);
        assert(withdrawal@ =~= seq![119u8, 105, 116, 104, 100, 114, 97, 119, 97, 108]);
        assert(dispute@ =~= seq![100u8, 105, 115, 112, 117, 116, 101]);
        assert(resolve@ =~= seq![114u8, 101, 115, 111, 108, 118, 101]);
        assert(chargeback@ =~= seq![99u8, 104, 97, 114, 103, 101, 98, 97, 99, 107]);
        if matches_word(name, deposit.as_slice()) {
            Some(TxType::Deposit)
        } else if matches_word(name, withdrawal.as_slice()) {
            Some(TxType::Withdrawal)
        } else if matches_word(name, dispute.as_slice()) {
            Some(TxType::Dispute)
        } else if matches_word(name, resolve.as_slice()) {
            Some(TxType::Resolve)
        } else if matches_word(name, chargeback.as_slice()) {
            Some(TxType::Chargeback)
        } else {
            None
        }
    }
}

/// The transaction that `raw` stands for: a deposit or withdrawal needs an
/// amount that `money_of` accepts; the other kinds ignore any amount and
/// carry zero. A fresh transaction is never disputed.
pub open spec fn transaction_of(raw: RawTransaction) -> Result<Transaction, RecordError> {
    let base = Transaction {
        tx_type: raw.tx_type,
        client_id: raw.client_id,
        tx_id: raw.tx_id,
        amount: 0,
        in_dispute: false,
    };
    if base.is_recorded_kind() {
        match raw.amount {
            None => Err(RecordError::MissingAmount(raw.tx_id)),
            Some(text) => match money_of(vstd::utf8::encode_utf8(text@)) {
                Some(v) => Ok(Transaction { amount: v, ..base }),
                None => Err(RecordError::InvalidAmount(raw.tx_id)),
            },
        }
    } else {
        Ok(base)
    }
}

impl Transaction {
    /// Checks a raw record and converts it, as `transaction_of` says.
    pub fn from_raw(raw: &RawTransaction) -> (r: Result<Transaction, RecordError>)
        ensures
            r == transaction_of(*raw),
    {
        let base = Transaction {
            tx_type: raw.tx_type,
            client_id: raw.client_id,
            tx_id: raw.tx_id,
            amount: 0,
            in_dispute: false,
        };
        if !base.is_recordable() {
            return Ok(base);
        }
        match &raw.amount {
            None => Err(RecordError::MissingAmount(raw.tx_id)),
            Some(text) => match parse_amount(text.as_str().as_bytes()) {
                Some(v) => Ok(Transaction { amount: v, ..base }),
                None => Err(RecordError::InvalidAmount(raw.tx_id)),
            },
        }
    }
}

/// The byte of `','`.
pub const COMMA: u8 = 44;

/// The byte of `'-'`.
pub const MINUS: u8 = 45;

/// The decimal digits of `n`, without leading zeros.
pub open spec fn decimal(n: nat) -> Seq<u8>
    decreases n,
{
    if n < 10 {
        seq![(ZERO + n) as u8]
    } else {
        decimal(n / 10).push((ZERO + n % 10) as u8)
    }
}

/// The four digits of `f`, which is below 10000, zero-padded.
pub open spec fn four_digits(f: nat) -> Seq<u8> {
    seq![
        (ZERO + f / 1000) as u8,
        (ZERO + f / 100 % 10) as u8,
        (ZERO + f / 10 % 10) as u8,
        (ZERO + f % 10) as u8,
    ]
}

/// `m` units of `Money` written with exactly four fractional digits, with a
/// leading `-` where it is negative.
pub open spec fn money_text(m: int) -> Seq<u8> {
    let a = if m < 0 {
        -m
    } else {
        m
    };
    let sign = if m < 0 {
        seq![MINUS]
    } else {
        Seq::empty()
    };
    sign + decimal((a / 10000) as nat) + seq![DOT] + four_digits((a % 10000) as nat)
}

/// `true` or `false`.
pub open spec fn bool_text(b: bool) -> Seq<u8> {
    if b {
        seq![116u8, 114, 117, 101]
    } else {
        seq![102u8, 97, 108, 115, 101]
    }
}

/// The output line of an account, without line end:
/// `client,available,held,total,locked`.
pub open spec fn row_of(a: Account) -> Seq<u8> {
    decimal(a.client_id as nat) + seq![COMMA] + money_text(a.available_amount as int) + seq![COMMA]
        + money_text(a.held_amount as int) + seq![COMMA] + money_text(a.total_amount as int) + seq![
        COMMA]
        + bool_text(a.is_locked)
}

fn push_decimal(out: &mut Vec<u8>, n: u64)
    ensures
        final(out)@ == old(out)@ + decimal(n as nat),
    decreases n,
{
    if n >= 10 {
        push_decimal(out, n / 10);
    }
    out.push(ZERO + (n % 10) as u8);
    proof {
        if n < 10 {
            assert(decimal(n as nat) =~= seq![(ZERO + n) as u8]);
        }
    }
    assert(final(out)@ =~= old(out)@ + decimal(n as nat));
}

fn push_money(out: &mut Vec<u8>, m: Money)
    ensures
        final(out)@ == old(out)@ + money_text(m as int),
{
    let ghost start = out@;
    let a: u64 = if m < 0 {
        out.push(MINUS);
        (-(m as i128)) as u64
    } else {
        m as u64
    };
    push_decimal(out, a / 10000);
    out.push(DOT);
    let f = a % 10000;
    out.push(ZERO + (f / 1000) as u8);
    out.push(ZERO + (f / 100 % 10) as u8);
    out.push(ZERO + (f / 10 % 10) as u8);
    out.push(ZERO + (f % 10) as u8);
    assert(out@ =~= start + money_text(m as int));
}

fn push_bool(out: &mut Vec<u8>, b: bool)
    ensures
        final(out)@ == old(out)@ + bool_text(b),
{
    let ghost start = out@;
    if b {
        out.push(116);
        out.push(114);
        out.push(117);
        out.push(101);
    } else {
        out.push(102);
        out.push(97);
        out.push(108);
        out.push(115);
        out.push(101);
    }
    assert(out@ =~= start + bool_text(b));
}

impl Account {
    /// The account's output line, as `row_of` says.
    pub fn to_row(&self) -> (r: Vec<u8>)
        ensures
            r@ == row_of(*self),
    {
        let mut out: Vec<u8> = Vec::new();
        push_decimal(&mut out, self.client_id as u64);
        out.push(COMMA);
        push_money(&mut out, self.available_amount);
        out.push(COMMA);
        push_money(&mut out, self.held_amount);
        out.push(COMMA);
        push_money(&mut out, self.total_amount);
        out.push(COMMA);
        push_bool(&mut out, self.is_locked);
        assert(out@ =~= row_of(*self));
        out
    }
}

} // verus!
