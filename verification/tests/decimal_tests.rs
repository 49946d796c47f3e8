use bonds::decimal::{Decimal, MulUp, Pow, DENOMINATOR};
use bonds::token_amount::TokenAmount;

#[test]
fn test_ops() {
    assert_eq!(
        Decimal::from_integer(0).add(Decimal::from_integer(2)).unwrap(),
        Decimal::from_integer(2)
    );
    assert_eq!(
        Decimal::from_integer(2).sub(Decimal::from_integer(1)).unwrap(),
        Decimal::from_integer(1)
    );
    assert_eq!(
        Decimal::from_integer(2).mul(Decimal::from_integer(2)).unwrap(),
        Decimal::from_integer(4)
    );
    assert_eq!(
        Decimal::from_integer(111).div(Decimal::from_integer(37)).unwrap(),
        Decimal::from_integer(3)
    );
}

#[test]
fn test_ord() {
    assert!(Decimal::from_integer(1) < Decimal::from_integer(2));
    assert!(Decimal::from_integer(2) > Decimal::from_integer(1));
    assert!(Decimal::from_integer(1) <= Decimal::from_integer(2));
    assert!(Decimal::from_integer(1) >= Decimal::from_integer(1));
    assert!(Decimal::from_integer(1) == Decimal::from_integer(1));
    assert!(Decimal::from_integer(1) != Decimal::from_integer(2));
}

#[test]
fn test_mul_up() {
    // mul of little
    {
        let a = Decimal::new(1);
        let b = Decimal::new(1);
        assert_eq!(a.mul_up(b).unwrap(), Decimal::new(1));
    }
    // mul calculable without precision loss
    {
        let a = Decimal::from_integer(1);
        let b = Decimal::from_integer(3).div(Decimal::new(10)).unwrap();
        assert_eq!(a.mul_up(b).unwrap(), b);
    }
    {
        let a = Decimal::from_integer(1);
        let b = TokenAmount::new(1);
        assert_eq!(a.mul_up(b).unwrap(), TokenAmount::new(1));
    }
    {
        let a = Decimal::from_integer(3).div(Decimal::from_integer(10)).unwrap();
        let b = TokenAmount::new(3);
        assert_eq!(a.mul_up(b).unwrap(), TokenAmount::new(1));
    }
}

#[test]
fn test_div_up() {
    // div of zero
    {
        let a = Decimal::new(0);
        let b = Decimal::new(1);
        assert_eq!(a.div_up(b).unwrap(), Decimal::new(0));
    }
    // div check rounding up
    {
        let a = Decimal::new(1);
        let b = Decimal::from_integer(2);
        assert_eq!(a.div_up(b).unwrap(), Decimal::new(1));
    }
    // div big number
    {
        let a = Decimal::new(200_000_000_001);
        let b = Decimal::from_integer(2);
        assert_eq!(a.div_up(b).unwrap(), Decimal::new(100_000_000_001));
    }
    {
        let a = Decimal::new(42);
        let b = Decimal::from_integer(10);
        assert_eq!(a.div_up(b).unwrap(), Decimal::new(5));
    }
}

#[test]
fn test_sqrt() {
    assert!(Decimal::from_integer(9)
        .sqrt()
        .unwrap()
        .gt(&Decimal::new(DENOMINATOR * 7 / 5)));
    assert!(Decimal::from_integer(2)
        .sqrt()
        .unwrap()
        .lt(&Decimal::new(DENOMINATOR * 3 / 2)));
}

#[test]
fn test_pow() {
    // Zero base
    {
        let base = Decimal::new(0);
        let exp = 100;
        let result = base.pow(exp).unwrap();
        assert_eq!(result, Decimal::new(0));
    }
    // Zero exponent
    {
        let base = Decimal::from_integer(10);
        let exp = 0;
        let result = base.pow(exp).unwrap();
        let expected = Decimal::from_integer(1);
        assert_eq!(result, expected);
    }
    // 2^17
    {
        let base = Decimal::from_integer(2);
        let exp = 17;
        let result = base.pow(exp).unwrap();
        // should be 131072
        let expected = Decimal::from_integer(131072);
        assert_eq!(result, expected);
    }
    // 1.00000002^525600
    {
        let base = Decimal::from_decimal(1_000_000_02, 8);
        let exp = 525600;
        let result = base.pow(exp).unwrap();
        // expected 1.010567433635
        // real     1.0105674450753...
        let expected = Decimal::new(1010567433635);
        assert_eq!(result, expected);
    }
    // 1.000000015^2
    {
        let base = Decimal::from_decimal(1_000_000_015, 9);
        let exp = 2;
        let result = base.pow(exp).unwrap();
        // expected 1.000000030000
        // real     1.0000000300000002...
        let expected = Decimal::new(1000000030000);
        assert_eq!(result, expected);
    }
    // 1^525600
    {
        let base = Decimal::from_integer(1);
        let exp = 525600;
        let result = base.pow(exp).unwrap();
        // expected not change value
        let expected = Decimal::from_integer(1);
        assert_eq!(result, expected);
    }
    // 1^(-1)
    {
        let base = Decimal::from_integer(1);
        let exp = -1;
        let result = base.pow(exp).unwrap();
        let expected = Decimal::from_integer(1);
        assert_eq!(result, expected);
    }
    // 2^(-3)
    {
        let base = Decimal::from_integer(2);
        let exp = -12;
        let result = base.pow(exp).unwrap();
        let expected = Decimal::new(244140625);
        assert_eq!(result, expected);
    }
    // 3^(-5)
    {
        let base = Decimal::from_integer(3);
        let exp = -5;
        let result = base.pow(exp).unwrap();
        // expected 4.115226337
        // real     4.11522633744855967...
        let expected = Decimal::new(4115226337);
        assert_eq!(result, expected);
    }
    // 0.03^(-2)
    {
        let base = Decimal::from_decimal(0_03, 2);
        let exp = -2;
        let result = base.pow(exp).unwrap();
        let expected = Decimal::new(1111111111111111);
        assert_eq!(result, expected);
    }
    // 0.99^(-365)
    {
        let base = Decimal::from_decimal(0_99, 2);
        let exp = -365;
        let result = base.pow(exp).unwrap();
        // expected 3.9188078734077
        // real     3.9188078730559...
        let expected = Decimal::new(39188078734077);
        assert_eq!(result, expected);
    }
    // 1.001^(-100000)
    {
        let base = Decimal::from_decimal(1_000_1, 4);
        let exp = -100_000;
        let result = base.pow(exp).unwrap();
        // expected 0.000045422634
        // real     0.0000454226338...
        let expected = Decimal::new(45422634);
        assert_eq!(result, expected);
    }
}

#[test]
fn test_to_token() {
    // equal
    {
        let d = Decimal::from_integer(1);

        assert_eq!(d.to_token_floor().unwrap(), TokenAmount::new(1));
        assert_eq!(d.to_token_ceil().unwrap(), TokenAmount::new(1));
    }
    // little over
    {
        let d = Decimal::from_integer(1).add(Decimal::new(1)).unwrap();

        assert_eq!(d.to_token_floor().unwrap(), TokenAmount::new(1));
        assert_eq!(d.to_token_ceil().unwrap(), TokenAmount::new(2));
    }
    // little below
    {
        let d = Decimal::from_integer(2).sub(Decimal::new(1)).unwrap();

        assert_eq!(d.to_token_floor().unwrap(), TokenAmount::new(1));
        assert_eq!(d.to_token_ceil().unwrap(), TokenAmount::new(2));
    }
}

#[test]
fn decimal_test_big_mul() {
    // precision
    {
        let a = Decimal::from_integer(1);
        let b = Decimal::from_integer(1);
        let c = a.big_mul(b).unwrap();
        assert_eq!(c, Decimal::from_integer(1));
    }
    // simple
    {
        let a = Decimal::from_integer(2);
        let b = Decimal::from_integer(3);
        let c = a.big_mul(b).unwrap();
        assert_eq!(c, Decimal::from_integer(6));
    }
    // big
    {
        let a = Decimal::new(2u128.pow(127));
        let b = Decimal::from_integer(1);
        let c = a.big_mul(b).unwrap();
        assert_eq!(c, a);
    }
    // random
    {
        let a = Decimal::new(87932487422289);
        let b = Decimal::from_integer(982383286787);
        let c = a.big_mul(b).unwrap();
        // 87932487422289 * 982383286787
        assert_eq!(c, Decimal::new(86383406009264805062995443));
    }
}

#[test]
fn test_big_mul_up() {
    // mul of little
    {
        let a = Decimal::new(1);
        let b = Decimal::new(1);
        assert_eq!(a.big_mul_up(b).unwrap(), Decimal::new(1));
    }
    // mul calculable without precision loss
    {
        let a = Decimal::from_integer(1);
        let b = Decimal::from_integer(3).div(Decimal::new(10)).unwrap();
        assert_eq!(a.big_mul_up(b).unwrap(), b);
    }
    {
        let a = Decimal::from_integer(3).div(Decimal::from_integer(10)).unwrap();
        let b = Decimal::new(3);
        assert_eq!(a.big_mul_up(b).unwrap(), Decimal::new(1));
    }
    {
        let a = Decimal::new(2u128.pow(127) - 1);
        let b = Decimal::new(999999999999);
        let result = Decimal::new(170141183460299090548226834484152418424);
        assert_eq!(a.big_mul_up(b).unwrap(), result);
    }
}

#[test]
fn decimal_test_big_div() {
    // decimals
    {
        let a = Decimal::new(1);
        let b = Decimal::from_integer(1);
        assert_eq!(a.big_div(b).unwrap(), Decimal::new(1));
    }
    // mul calculable without precision loss
    {
        let a = Decimal::from_integer(111);
        let b = Decimal::from_integer(37);
        assert_eq!(a.big_div(b).unwrap(), Decimal::from_integer(3));
    }
    {
        let a = Decimal::from_integer(1);
        let b = Decimal::from_integer(3);
        assert_eq!(a.big_div(b).unwrap(), Decimal::new(333333333333));
    }
    {
        let a = Decimal::new(2u128.pow(127));
        let b = Decimal::new(973_248708703324);
        let result = Decimal::new(174817784949492774410002348183691207);
        assert_eq!(a.big_div(b).unwrap(), result);
    }
}

#[test]
fn test_big_div_up() {
    // decimals
    {
        let a = Decimal::new(1);
        let b = Decimal::from_integer(1);
        assert_eq!(a.big_div_up(b).unwrap(), Decimal::new(1));
    }
    // mul calculable without precision loss
    {
        let a = Decimal::from_integer(111);
        let b = Decimal::from_integer(37);
        assert_eq!(a.big_div_up(b).unwrap(), Decimal::from_integer(3));
    }
    {
        let a = Decimal::from_integer(1);
        let b = Decimal::from_integer(3);
        assert_eq!(a.big_div_up(b).unwrap(), Decimal::new(333333333334));
    }
    {
        let a = Decimal::new(2u128.pow(127));
        let b = Decimal::new(973_248708703324);
        let result = Decimal::new(174817784949492774410002348183691208);
        assert_eq!(a.big_div_up(b).unwrap(), result);
    }
}
