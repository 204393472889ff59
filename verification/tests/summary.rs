use accounts_state::account::{Account, ClientAcc};
use accounts_state::amount::Amount;
use accounts_state::csv::AccountSummary;
use accounts_state::decimal::Decimal;
use std::str::FromStr;

struct Rng(u64);

impl Rng {
    fn next(&mut self) -> u64 {
        self.0 ^= self.0 << 13;
        self.0 ^= self.0 >> 7;
        self.0 ^= self.0 << 17;
        self.0
    }
}

/// Half-to-even rounding of `mantissa / 10^scale` to four digits.
fn rounded(mantissa: i128, scale: u32) -> (i128, u32) {
    if scale <= 4 {
        return (mantissa, scale);
    }
    let p = 10i128.pow(scale - 4);
    let m = mantissa.abs();
    let (q, rem) = (m / p, m % p);
    let up = 2 * rem > p || (2 * rem == p && q % 2 == 1);
    let r = if up { q + 1 } else { q };
    (if mantissa < 0 { -r } else { r }, 4)
}

fn parts(d: Decimal) -> (i128, u32) {
    (d.mantissa(), d.scale())
}

/// An account with `value` available, for a `value` that is not negative.
fn account_with(value: Decimal) -> ClientAcc {
    let mut a = ClientAcc::new(3);
    a.record_deposit(1, Amount::try_from(value).unwrap()).unwrap();
    a
}

#[test]
fn summary_of_the_sample_account() {
    let s = AccountSummary::from(ClientAcc::new_test_account());
    assert_eq!(s.client, 1);
    assert_eq!(parts(s.available), (750, 0));
    assert_eq!(parts(s.held), (0, 0));
    assert_eq!(parts(s.total), (750, 0));
    assert!(!s.locked);
}

#[test]
fn summary_rounds_half_to_even_at_four_digits() {
    let cases: [(i64, u32, i128, u32); 10] = [
        (123456, 5, 12346, 4),
        (123455, 5, 12346, 4),
        (123445, 5, 12344, 4),
        (123444, 5, 12344, 4),
        (5, 5, 0, 4),
        (15, 5, 2, 4),
        (6, 5, 1, 4),
        (12345, 4, 12345, 4),
        (7, 0, 7, 0),
        (99995, 5, 10000, 4),
    ];
    for (mantissa, scale, m, s) in cases {
        let summary = AccountSummary::from(account_with(Decimal::new(mantissa, scale)));
        assert_eq!(parts(summary.available), (m, s));
        assert_eq!(parts(summary.total), (m, s));
        assert_eq!(parts(summary.held), (0, 0));
    }
}

#[test]
fn summary_of_a_disputed_and_locked_account() {
    let mut a = ClientAcc::new(9);
    a.record_deposit(1, Amount::new(1000005, 5)).unwrap();
    a.record_deposit(2, Amount::new(250015, 5)).unwrap();
    a.record_withdraw(3, Amount::new(1250020, 5)).unwrap();
    a.try_dispute(2).unwrap();
    let s = AccountSummary::from(a.clone());
    assert_eq!(s.client, 9);
    // -2.50015 rounds to -2.5002, 2.50015 to 2.5002, and the total is 0.00000
    assert_eq!(parts(s.available), (-25002, 4));
    assert_eq!(parts(s.held), (25002, 4));
    assert_eq!(parts(s.total), (0, 4));
    assert!(!s.locked);
    a.try_chargeback(2).unwrap();
    let s = AccountSummary::from(a);
    assert_eq!(parts(s.available), (-25002, 4));
    assert_eq!(parts(s.held), (0, 0));
    assert_eq!(parts(s.total), (-25002, 4));
    assert!(s.locked);
}

#[test]
fn summary_counts_a_disputed_withdrawal_as_held() {
    let mut a = ClientAcc::new(2);
    a.record_deposit(1, Amount::new(1000000, 5)).unwrap();
    a.record_withdraw(2, Amount::new(250015, 5)).unwrap();
    a.try_dispute(2).unwrap();
    let s = AccountSummary::from(a.clone());
    // 7.49985 available, 2.50015 held, 10.00000 in all
    assert_eq!(parts(s.available), (74998, 4));
    assert_eq!(parts(s.held), (25002, 4));
    assert_eq!(parts(s.total), (100000, 4));
    a.try_dispute(1).unwrap();
    let s = AccountSummary::from(a);
    assert_eq!(parts(s.available), (-25002, 4));
    assert_eq!(parts(s.held), (125002, 4));
    assert_eq!(parts(s.total), (100000, 4));
}

#[test]
fn rounding_agrees_with_exact_arithmetic() {
    let mut rng = Rng(0x853C49E6748FEA9B);
    for _ in 0..100_000 {
        let bits = rng.next() % 97;
        let raw = ((rng.next() as u128) << 64) | rng.next() as u128;
        let mantissa = if bits == 0 { 0 } else { (raw >> (128 - bits)) as i128 };
        let scale = (rng.next() % 29) as u32;
        let value = Decimal::from_mantissa(mantissa, scale).unwrap();
        let mut a = account_with(value);
        let s = AccountSummary::from(a.clone());
        assert_eq!(parts(s.available), rounded(mantissa, scale));
        // within half a unit of the fourth digit
        if scale > 4 {
            let p = 10i128.pow(scale - 4);
            assert!(2 * (s.available.mantissa() * p - mantissa).abs() <= p);
        }
        // zero available: the total is the held funds as they are written
        let total = if mantissa == 0 { (0, 0) } else { rounded(mantissa, scale) };
        assert_eq!(parts(s.total), total);
        // the same number below zero: spend it, then dispute the deposit
        a.record_withdraw(2, Amount::try_from(value).unwrap()).unwrap();
        a.try_dispute(1).unwrap();
        let s = AccountSummary::from(a);
        assert_eq!(parts(s.available), rounded(-mantissa, scale));
        // nothing held for deposits: held is the other hold as it is written
        let held = if mantissa == 0 { (0, 0) } else { rounded(mantissa, scale) };
        assert_eq!(parts(s.held), held);
    }
}

#[test]
fn a_summary_written_and_read_again_is_the_same() {
    let mut a = ClientAcc::new(4);
    a.record_deposit(1, Amount::new(123456789, 6)).unwrap();
    a.record_deposit(2, Amount::new(5, 5)).unwrap();
    a.try_dispute(2).unwrap();
    let s = AccountSummary::from(a);
    for d in [s.available, s.held, s.total] {
        let written = rust_decimal::Decimal::from_i128_with_scale(d.mantissa(), d.scale());
        let read = rust_decimal::Decimal::from_str(&written.to_string()).unwrap();
        assert_eq!(Decimal::from_mantissa(read.mantissa(), read.scale()).unwrap(), d);
        assert_eq!((read.mantissa(), read.scale()), parts(d));
        // a summary is settled: rounding it again changes nothing
        assert_eq!(parts(d), rounded(d.mantissa(), d.scale()));
    }
    assert_eq!(format!("{}", s.locked).parse::<bool>().unwrap(), s.locked);
    assert_eq!(format!("{}", s.client).parse::<u16>().unwrap(), s.client);
}
