use interval::{Error, IntervalDT, IntervalYM, ScaledValue, Sign, Time};

const INTERVAL_MAX_DAY: i32 = 100_000_000;
const INTERVAL_MAX_YEAR: i32 = 178_000_000;

fn scaled(result: f64) -> ScaledValue {
    if result.is_infinite() {
        ScaledValue::Infinite
    } else if result.is_nan() {
        ScaledValue::NotANumber
    } else {
        ScaledValue::Truncated(result as i64)
    }
}

fn ym_mul_f64(interval: IntervalYM, number: f64) -> Result<IntervalYM, Error> {
    IntervalYM::from_scaled(scaled(interval.months() as f64 * number))
}

fn ym_div_f64(interval: IntervalYM, number: f64) -> Result<IntervalYM, Error> {
    if number == 0.0 {
        return IntervalYM::from_scaled(ScaledValue::DivisorZero);
    }
    IntervalYM::from_scaled(scaled(interval.months() as f64 / number))
}

fn dt_mul_f64(interval: IntervalDT, number: f64) -> Result<IntervalDT, Error> {
    IntervalDT::from_scaled(scaled(interval.usecs() as f64 * number))
}

fn dt_div_f64(interval: IntervalDT, number: f64) -> Result<IntervalDT, Error> {
    if number == 0.0 {
        return IntervalDT::from_scaled(ScaledValue::DivisorZero);
    }
    IntervalDT::from_scaled(scaled(interval.usecs() as f64 / number))
}

#[test]
fn test_interval_ym() {
    assert_eq!(IntervalYM::zero(), IntervalYM::try_from_ym(0, 0).unwrap());
    assert_eq!(
        IntervalYM::min_value(),
        -IntervalYM::try_from_ym(178000000, 0).unwrap()
    );
    assert_eq!(
        IntervalYM::max_value(),
        IntervalYM::try_from_ym(178000000, 0).unwrap()
    );

    let interval = IntervalYM::try_from_ym(0, 0).unwrap();
    assert_eq!(interval.months(), 0);
    assert_eq!(interval.extract(), (Sign::Positive, 0, 0));

    let interval = IntervalYM::try_from_ym(178000000, 0).unwrap();
    assert_eq!(interval.extract(), (Sign::Positive, 178000000, 0));
    let fmt = format!("{}", interval.format("yyyy-mm").unwrap());
    assert_eq!(fmt, "+178000000-00");
    let interval2 = IntervalYM::parse("178000000-00", "yyyy-mm").unwrap();
    assert_eq!(interval2, interval);

    let interval = -IntervalYM::try_from_ym(1, 0).unwrap();
    let fmt = format!("{}", interval.format("yy-mm").unwrap());
    assert_eq!(fmt, "-01-00");

    let interval = IntervalYM::try_from_ym(123, 2).unwrap();
    let fmt = format!("{}", interval.format("yy-mm").unwrap());
    assert_eq!(fmt, "+123-02");

    let interval = -IntervalYM::try_from_ym(178000000, 0).unwrap();
    assert_eq!(interval.extract(), (Sign::Negative, 178000000, 0));
    let interval = IntervalYM::try_from_ym(178000000, 0).unwrap().negate();
    assert_eq!(interval.extract(), (Sign::Negative, 178000000, 0));
    let fmt = format!("{}", interval.format("yyyy-mm").unwrap());
    assert_eq!(fmt, "-178000000-00");

    let fmt = format!("{}", interval.format("yy-mm").unwrap());
    assert_eq!(fmt, "-178000000-00");

    let interval2 = IntervalYM::parse("-178000000-00", "yyyy-mm").unwrap();
    assert_eq!(interval2, interval);

    let interval2 = IntervalYM::parse("+178000000-00", "yyyy-mm").unwrap();
    assert_eq!(interval2, -interval);

    let interval = IntervalYM::try_from_ym(177999999, 11).unwrap();
    assert_eq!(interval.extract(), (Sign::Positive, 177999999, 11));

    let interval = -IntervalYM::try_from_ym(177999999, 11).unwrap();
    assert_eq!(interval.extract(), (Sign::Negative, 177999999, 11));

    let interval = IntervalYM::try_from_months(0).unwrap();
    assert_eq!(interval.extract(), (Sign::Positive, 0, 0));

    let interval = IntervalYM::try_from_months(-11).unwrap();
    assert_eq!(interval.extract(), (Sign::Negative, 0, 11));
    let fmt = format!("{}", interval.format("yyyy-mm").unwrap());
    assert_eq!(fmt, "-0000-11");

    let interval2 = IntervalYM::parse("-0000-11", "yyyy-mm").unwrap();
    assert_eq!(interval, interval2);
    let interval2 = IntervalYM::parse("-0000 - 11", "yyyy - mm").unwrap();
    assert_eq!(interval, interval2);
    let interval2 = IntervalYM::parse("       -0000 - 11       ", "yyyy - mm").unwrap();
    assert_eq!(interval, interval2);
    let interval2 = IntervalYM::parse("       -0000 - 11       ", "    yyyy - mm    ").unwrap();
    assert_eq!(interval, interval2);
    let interval2 = IntervalYM::parse("-0000-11", "yyyy - mm").unwrap();
    assert_eq!(interval, interval2);

    let interval = IntervalYM::try_from_months(11).unwrap();
    let interval2 = IntervalYM::parse("0000-11", "yyyy-mm").unwrap();
    assert_eq!(interval, interval2);

    let interval = IntervalYM::try_from_ym(12345, 1).unwrap();
    let interval2 = IntervalYM::parse("12345-1", "yyyy-mm").unwrap();
    assert_eq!(interval, interval2);

    let interval = IntervalYM::try_from_ym(12345, 1).unwrap();
    let interval2 = IntervalYM::parse("12345-1", "yy-mm").unwrap();
    assert_eq!(interval, interval2);

    let interval = IntervalYM::try_from_ym(1, 1).unwrap();
    let interval2 = IntervalYM::parse("1-1", "yy-mm").unwrap();
    assert_eq!(interval, interval2);

    // A pattern without a month field leaves the month at zero.
    let res = IntervalYM::parse("2022", "YYYY").unwrap();
    assert_eq!(res.month().unwrap(), 0);

    // Invalid
    assert!(IntervalYM::parse("178000000-1", "yyyy-mm").is_err());
    assert!(IntervalYM::parse("178000001-0", "yyyy-mm").is_err());
    assert!(IntervalYM::parse("-178000001-0", "yyyy-mm").is_err());
    assert!(IntervalYM::parse("0-13", "yyyy-mm").is_err());
    assert!(IntervalYM::parse("-178000000-1", "yyyy-mm").is_err());
    assert!(IntervalYM::parse("-178000001-0", "yyyy-mm").is_err());
    assert!(IntervalYM::parse("11", "dd").is_err());
    assert!(IntervalYM::parse("11", "hh24").is_err());
    assert!(IntervalYM::parse("11", "mi").is_err());
    assert!(IntervalYM::parse("11", "ss").is_err());

    assert_eq!(
        IntervalYM::parse("xxxx", "yy-mm").err().unwrap(),
        Error::ParseError("the interval is invalid".to_string())
    )
}

#[test]
fn test_interval_dt() {
    assert_eq!(IntervalDT::zero(), IntervalDT::try_from_dhms(0, 0, 0, 0, 0).unwrap());
    assert_eq!(
        IntervalDT::min_value(),
        -IntervalDT::try_from_dhms(100_000_000, 0, 0, 0, 0).unwrap()
    );
    assert_eq!(
        IntervalDT::max_value(),
        IntervalDT::try_from_dhms(100_000_000, 0, 0, 0, 0).unwrap()
    );

    let time = Time::try_from_hms(0, 0, 0, 0).unwrap();
    let interval = IntervalDT::from(time);
    assert_eq!(IntervalDT::zero(), interval);

    let time = Time::try_from_hms(1, 2, 3, 4).unwrap();
    let interval = IntervalDT::from(time);
    assert_eq!(IntervalDT::try_from_dhms(0, 1, 2, 3, 4).unwrap(), interval);

    let time = Time::try_from_hms(23, 59, 59, 999999).unwrap();
    let interval = IntervalDT::from(time);
    assert_eq!(
        IntervalDT::try_from_dhms(0, 23, 59, 59, 999999).unwrap(),
        interval
    );

    let interval = IntervalDT::try_from_dhms(0, 0, 0, 0, 0).unwrap();
    assert_eq!(interval.usecs(), 0);
    assert_eq!(interval.extract(), (Sign::Positive, 0, 0, 0, 0, 0));
    let fmt = format!("{}", interval.format("DD HH24:MI:SS").unwrap());
    assert_eq!(fmt, "+00 00:00:00");

    let interval = IntervalDT::try_from_dhms(100000000, 0, 0, 0, 0).unwrap();
    assert_eq!(interval.extract(), (Sign::Positive, 100000000, 0, 0, 0, 0));
    let fmt = format!("{}", interval.format("DD HH24:MI:SS").unwrap());
    assert_eq!(fmt, "+100000000 00:00:00");
    let interval2 = IntervalDT::parse("100000000 00:00:00", "DD HH24:MI:SS").unwrap();
    assert_eq!(interval2, interval);

    let interval2 = IntervalDT::parse("+100000000 00:00:00", "DD HH24:MI:SS").unwrap();
    assert_eq!(interval2, interval);

    let interval = -IntervalDT::try_from_dhms(100000000, 0, 0, 0, 0).unwrap();
    assert_eq!(interval.extract(), (Sign::Negative, 100000000, 0, 0, 0, 0));

    let interval = IntervalDT::try_from_dhms(100000000, 0, 0, 0, 0)
        .unwrap()
        .negate();
    assert_eq!(interval.extract(), (Sign::Negative, 100000000, 0, 0, 0, 0));

    let interval = IntervalDT::try_from_dhms(99999999, 23, 59, 59, 999999).unwrap();
    assert_eq!(interval.extract(), (Sign::Positive, 99999999, 23, 59, 59, 999999));

    let interval = -IntervalDT::try_from_dhms(99999999, 23, 59, 59, 999999).unwrap();
    assert_eq!(interval.extract(), (Sign::Negative, 99999999, 23, 59, 59, 999999));
    let fmt = format!("{}", interval.format("DD HH24:MI:SS.FF6").unwrap());
    assert_eq!(fmt, "-99999999 23:59:59.999999");

    let interval = IntervalDT::try_from_usecs(-11).unwrap();
    let interval2 = IntervalDT::parse("-0 00:00:00.000011", "DD HH24:MI:SS.FF6").unwrap();
    assert_eq!(interval, interval2);

    let interval = IntervalDT::try_from_usecs(11).unwrap();
    let interval2 = IntervalDT::parse("0 00:00:00.000011", "DD HH24:MI:SS.FF6").unwrap();
    assert_eq!(interval, interval2);

    let interval = IntervalDT::try_from_usecs(-11).unwrap();
    let interval2 = IntervalDT::parse("-0 00:00:00.000011", "DD HH24:MI:SS.FF").unwrap();
    assert_eq!(interval, interval2);

    let interval = IntervalDT::try_from_usecs(-12).unwrap();
    let interval2 = IntervalDT::parse("-0 00:00:00.000011567", "DD HH24:MI:SS.FF").unwrap();
    assert_eq!(interval, interval2);

    let interval = IntervalDT::try_from_dhms(12, 4, 5, 6, 0).unwrap().negate();
    let interval2 = IntervalDT::parse("-12 4:5:6", "DD HH24:MI:SS").unwrap();
    assert_eq!(interval, interval2);

    // Invalid
    assert!(IntervalDT::parse("100000000 02:00:00.0", "DD HH24:MI:SS.FF").is_err());
    assert!(IntervalDT::parse("0 24:00:00:00.0", "DD HH24:MI:SS.FF").is_err());
    assert!(IntervalDT::parse("100000001 00:00:00.0", "DD HH24:MI:SS.FF").is_err());
    assert!(IntervalDT::parse("-100000001 00:00:00.0", "DD HH24:MI:SS.FF").is_err());
    assert!(IntervalDT::parse("-100000000 02:00:00.0", "DD HH24:MI:SS.FF").is_err());

    assert!(IntervalDT::parse("-100000 02:00", "DD HH24:MI:SS.FF").is_err());
    assert!(IntervalDT::parse("-100000 02", "DD HH24:MI:SS.FF").is_err());
    assert!(IntervalDT::parse("-100000 ", "DD HH24:MI:SS.FF").is_err());

    assert!(IntervalDT::parse("1919", "yyyy").is_err());
    assert!(IntervalDT::parse("19", "mm").is_err());
}

#[test]
fn test_interval_negate() {
    assert_eq!(
        -IntervalDT::try_from_dhms(1, 2, 3, 4, 5).unwrap(),
        IntervalDT::try_from_usecs(-93784000005).unwrap()
    );
    assert_eq!(
        IntervalDT::try_from_dhms(1, 2, 3, 4, 5).unwrap().negate(),
        IntervalDT::try_from_usecs(-93784000005).unwrap()
    );
    assert_eq!(
        -IntervalDT::try_from_dhms(0, 0, 0, 0, 0).unwrap(),
        IntervalDT::try_from_dhms(0, 0, 0, 0, 0).unwrap()
    );
    assert_eq!(
        IntervalDT::try_from_dhms(0, 0, 0, 0, 0).unwrap().negate(),
        IntervalDT::try_from_dhms(0, 0, 0, 0, 0).unwrap()
    );
    assert_eq!(
        -IntervalDT::try_from_dhms(1, 2, 3, 4, 5).unwrap().negate(),
        IntervalDT::try_from_usecs(93784000005).unwrap()
    );
    assert_eq!(
        IntervalDT::try_from_dhms(1, 2, 3, 4, 5)
            .unwrap()
            .negate()
            .negate(),
        IntervalDT::try_from_dhms(1, 2, 3, 4, 5).unwrap()
    );
    assert_eq!(
        -IntervalDT::try_from_dhms(INTERVAL_MAX_DAY as u32, 0, 0, 0, 0).unwrap(),
        IntervalDT::try_from_usecs(-8640000000000000000).unwrap()
    );
    assert_eq!(
        IntervalDT::try_from_dhms(INTERVAL_MAX_DAY as u32, 0, 0, 0, 0)
            .unwrap()
            .negate(),
        IntervalDT::try_from_usecs(-8640000000000000000).unwrap()
    );
    assert_eq!(
        -IntervalDT::try_from_dhms(INTERVAL_MAX_DAY as u32, 0, 0, 0, 0).unwrap(),
        IntervalDT::try_from_dhms(INTERVAL_MAX_DAY as u32, 0, 0, 0, 0)
            .unwrap()
            .negate()
    );

    assert_eq!(
        -IntervalYM::try_from_ym(1, 2).unwrap(),
        IntervalYM::try_from_months(-14).unwrap()
    );
    assert_eq!(
        IntervalYM::try_from_ym(1, 2).unwrap().negate(),
        IntervalYM::try_from_months(-14).unwrap()
    );
    assert_eq!(
        -IntervalYM::try_from_ym(0, 0).unwrap(),
        IntervalYM::try_from_ym(0, 0).unwrap()
    );
    assert_eq!(
        IntervalYM::try_from_ym(0, 0).unwrap().negate(),
        IntervalYM::try_from_ym(0, 0).unwrap()
    );
    assert_eq!(
        -IntervalYM::try_from_ym(1, 2).unwrap().negate(),
        IntervalYM::try_from_ym(1, 2).unwrap()
    );
    assert_eq!(
        IntervalYM::try_from_ym(1, 2).unwrap().negate().negate(),
        IntervalYM::try_from_ym(1, 2).unwrap()
    );
    assert_eq!(
        -IntervalYM::try_from_ym(INTERVAL_MAX_YEAR as u32, 0).unwrap(),
        IntervalYM::try_from_months(-2136000000).unwrap()
    );
    assert_eq!(
        IntervalYM::try_from_ym(INTERVAL_MAX_YEAR as u32, 0)
            .unwrap()
            .negate(),
        IntervalYM::try_from_months(-2136000000).unwrap()
    );
    assert_eq!(
        -IntervalYM::try_from_ym(INTERVAL_MAX_YEAR as u32, 0)
            .unwrap()
            .negate(),
        IntervalYM::try_from_months(2136000000).unwrap()
    );
    assert_eq!(
        IntervalYM::try_from_ym(INTERVAL_MAX_YEAR as u32, 0)
            .unwrap()
            .negate()
            .negate(),
        IntervalYM::try_from_months(2136000000).unwrap()
    );
}

#[test]
fn test_interval_ym_add_sub_interval_ym() {
    assert!(IntervalYM::try_from_ym(178000000, 0)
        .unwrap()
        .add_interval_ym(IntervalYM::try_from_ym(0, 1).unwrap())
        .is_err());

    assert!(IntervalYM::try_from_ym(178000000, 0)
        .unwrap()
        .sub_interval_ym(-IntervalYM::try_from_ym(0, 1).unwrap())
        .is_err());

    assert!(IntervalYM::try_from_ym(178000000, 0)
        .unwrap()
        .negate()
        .sub_interval_ym(IntervalYM::try_from_ym(0, 1).unwrap())
        .is_err());

    assert!((-IntervalYM::try_from_ym(178000000, 0).unwrap())
        .add_interval_ym(-IntervalYM::try_from_ym(0, 1).unwrap())
        .is_err());

    assert_eq!(
        IntervalYM::try_from_ym(123456, 5)
            .unwrap()
            .add_interval_ym(IntervalYM::try_from_ym(123, 7).unwrap())
            .unwrap(),
        IntervalYM::try_from_ym(123580, 0).unwrap()
    );

    assert_eq!(
        IntervalYM::try_from_ym(123456, 5)
            .unwrap()
            .sub_interval_ym(IntervalYM::try_from_ym(123, 7).unwrap())
            .unwrap(),
        IntervalYM::try_from_ym(123332, 10).unwrap()
    );
}

#[test]
fn test_interval_dt_add_sub_interval_dt() {
    assert!(IntervalDT::try_from_dhms(100000000, 0, 0, 0, 0)
        .unwrap()
        .add_interval_dt(IntervalDT::try_from_dhms(0, 0, 0, 0, 1).unwrap())
        .is_err());

    assert!(IntervalDT::try_from_dhms(100000000, 0, 0, 0, 0)
        .unwrap()
        .sub_interval_dt(-IntervalDT::try_from_dhms(0, 0, 0, 0, 1).unwrap())
        .is_err());

    assert!(IntervalDT::try_from_dhms(100000000, 0, 0, 0, 0)
        .unwrap()
        .negate()
        .sub_interval_dt(IntervalDT::try_from_dhms(0, 0, 0, 0, 1).unwrap())
        .is_err());

    assert!(IntervalDT::try_from_dhms(100000000, 0, 0, 0, 0)
        .unwrap()
        .negate()
        .add_interval_dt(-IntervalDT::try_from_dhms(0, 0, 0, 0, 1).unwrap())
        .is_err());

    assert_eq!(
        IntervalDT::try_from_dhms(23456789, 1, 2, 3, 4)
            .unwrap()
            .add_interval_dt(IntervalDT::try_from_dhms(123, 1, 2, 3, 4).unwrap())
            .unwrap(),
        IntervalDT::try_from_dhms(23456912, 2, 4, 6, 8).unwrap()
    );

    assert_eq!(
        IntervalDT::try_from_dhms(23456789, 1, 2, 3, 4)
            .unwrap()
            .sub_interval_dt(IntervalDT::try_from_dhms(123, 1, 2, 3, 4).unwrap())
            .unwrap(),
        IntervalDT::try_from_dhms(23456666, 0, 0, 0, 0).unwrap()
    );
}

#[test]
fn test_interval_mul_div() {
    // Normal
    assert_eq!(
        dt_mul_f64(IntervalDT::try_from_dhms(1, 2, 3, 4, 5).unwrap(), 5.0).unwrap(),
        IntervalDT::try_from_dhms(5, 10, 15, 20, 25).unwrap()
    );

    assert_eq!(
        dt_mul_f64(IntervalDT::try_from_dhms(1, 2, 3, 4, 5).unwrap(), -5.2).unwrap(),
        -IntervalDT::try_from_dhms(5, 15, 27, 56, 800026).unwrap()
    );

    assert_eq!(
        dt_div_f64(IntervalDT::try_from_dhms(1, 2, 3, 4, 5).unwrap(), -5.2).unwrap(),
        -IntervalDT::try_from_dhms(0, 5, 0, 35, 384616).unwrap()
    );

    assert_eq!(
        dt_div_f64(IntervalDT::try_from_dhms(1, 2, 3, 4, 5).unwrap(), -5.0).unwrap(),
        -IntervalDT::try_from_dhms(0, 5, 12, 36, 800001).unwrap()
    );

    assert_eq!(
        dt_div_f64(IntervalDT::try_from_dhms(99999, 2, 3, 4, 5).unwrap(), f64::INFINITY).unwrap(),
        -IntervalDT::try_from_dhms(0, 0, 0, 0, 0).unwrap()
    );

    // Round
    assert_eq!(
        dt_div_f64(IntervalDT::try_from_dhms(1, 2, 3, 4, 5).unwrap(), -5.1).unwrap(),
        -IntervalDT::try_from_dhms(0, 5, 6, 29, 19608).unwrap()
    );

    assert_eq!(
        dt_mul_f64(IntervalDT::try_from_dhms(1, 2, 3, 4, 5).unwrap(), -5.57).unwrap(),
        -IntervalDT::try_from_dhms(6, 1, 6, 16, 880027).unwrap()
    );

    // Out of range
    assert!(dt_mul_f64(IntervalDT::try_from_dhms(99999, 2, 3, 4, 5).unwrap(), -1234567890.6).is_err());

    assert!(dt_div_f64(IntervalDT::try_from_dhms(99999, 2, 3, 4, 5).unwrap(), -0.000000000001).is_err());

    assert!(dt_mul_f64(IntervalDT::try_from_dhms(99999, 2, 3, 4, 5).unwrap(), f64::NEG_INFINITY).is_err());

    assert!(dt_div_f64(IntervalDT::try_from_dhms(99999, 2, 3, 4, 5).unwrap(), f64::NAN).is_err());

    assert!(dt_mul_f64(IntervalDT::try_from_dhms(99999, 2, 3, 4, 5).unwrap(), f64::NAN).is_err());

    // Divide by zero
    assert!(dt_div_f64(IntervalDT::try_from_dhms(99999, 2, 3, 4, 5).unwrap(), 0.0).is_err());

    // Year to month
    assert_eq!(
        ym_mul_f64(IntervalYM::try_from_ym(1, 2).unwrap(), 5.0).unwrap(),
        IntervalYM::try_from_ym(5, 10).unwrap()
    );

    assert_eq!(
        ym_mul_f64(IntervalYM::try_from_ym(1, 2).unwrap(), -5.3).unwrap(),
        -IntervalYM::try_from_ym(6, 2).unwrap()
    );

    assert_eq!(
        ym_mul_f64(IntervalYM::try_from_ym(1, 2).unwrap(), -5.2).unwrap(),
        -IntervalYM::try_from_ym(6, 0).unwrap()
    );

    assert_eq!(
        ym_div_f64(IntervalYM::try_from_ym(1, 2).unwrap(), -5.2).unwrap(),
        -IntervalYM::try_from_ym(0, 2).unwrap()
    );

    assert_eq!(
        ym_div_f64(IntervalYM::try_from_ym(1, 2).unwrap(), -4.7).unwrap(),
        -IntervalYM::try_from_ym(0, 2).unwrap()
    );

    assert_eq!(
        ym_div_f64(IntervalYM::try_from_ym(1, 2).unwrap(), f64::INFINITY).unwrap(),
        -IntervalYM::try_from_ym(0, 0).unwrap()
    );

    // Out of range
    assert!(ym_mul_f64(IntervalYM::try_from_ym(500000, 2).unwrap(), 123456789.123).is_err());

    assert!(ym_mul_f64(IntervalYM::try_from_ym(500000, 2).unwrap(), f64::INFINITY).is_err());

    assert!(ym_mul_f64(IntervalYM::try_from_ym(500000, 2).unwrap(), f64::NEG_INFINITY).is_err());

    assert!(ym_mul_f64(IntervalYM::try_from_ym(500000, 2).unwrap(), f64::NAN).is_err());

    assert!(ym_div_f64(IntervalYM::try_from_ym(500000, 2).unwrap(), f64::NAN).is_err());

    // Divide by zero
    assert!(ym_div_f64(IntervalYM::try_from_ym(500000, 2).unwrap(), 0.0).is_err());
}

#[test]
fn test_interval_dt_sub_time() {
    // Out of range
    assert!(
        IntervalDT::try_from_dhms(INTERVAL_MAX_DAY as u32, 0, 0, 0, 0)
            .unwrap()
            .negate()
            .sub_time(Time::try_from_hms(1, 2, 3, 4).unwrap())
            .is_err()
    );

    // Normal
    assert_eq!(
        IntervalDT::try_from_dhms(0, 0, 0, 0, 0)
            .unwrap()
            .sub_time(Time::try_from_hms(1, 2, 3, 4).unwrap())
            .unwrap(),
        -IntervalDT::try_from_dhms(0, 1, 2, 3, 4).unwrap()
    );
}

fn check_extract_ym(negate: bool, year: u32, month: u32) {
    let interval = if negate {
        IntervalYM::try_from_ym(year, month).unwrap().negate()
    } else {
        IntervalYM::try_from_ym(year, month).unwrap()
    };

    let modifier = if negate { -1 } else { 1 };

    assert_eq!(year as i32 * modifier, interval.year().unwrap());
    assert_eq!(month as i32 * modifier, interval.month().unwrap());

    assert!(interval.hour().is_none());
    assert!(interval.day().is_none());
    assert!(interval.minute().is_none());
    assert!(interval.second_usecs().is_none());
}

#[test]
fn test_interval_ym_extract() {
    check_extract_ym(false, 0, 0);
    check_extract_ym(false, 0, 1);
    check_extract_ym(false, 1, 1);
    check_extract_ym(false, 1234, 11);
    check_extract_ym(false, 178000000, 0);
    check_extract_ym(true, 0, 1);
    check_extract_ym(true, 1, 1);
    check_extract_ym(true, 1234, 11);
    check_extract_ym(true, 178000000, 0);
}

#[allow(clippy::float_cmp)]
fn check_extract_dt(negate: bool, day: u32, hour: u32, min: u32, sec: u32, usec: u32) {
    let interval = if negate {
        IntervalDT::try_from_dhms(day, hour, min, sec, usec)
            .unwrap()
            .negate()
    } else {
        IntervalDT::try_from_dhms(day, hour, min, sec, usec).unwrap()
    };

    let modifier = if negate { -1 } else { 1 };

    assert_eq!(day as i32 * modifier, interval.day().unwrap());
    assert_eq!(hour as i32 * modifier, interval.hour().unwrap());
    assert_eq!(min as i32 * modifier, interval.minute().unwrap());
    assert_eq!(
        modifier as f64 * (sec as f64 + (usec as f64) / 1_000_000f64),
        interval.second_usecs().unwrap() as f64 / 1_000_000f64
    );
    assert!(interval.year().is_none());
    assert!(interval.month().is_none());
}

#[test]
fn test_interval_dt_extract() {
    check_extract_dt(false, 0, 0, 0, 0, 0);
    check_extract_dt(false, 0, 0, 0, 0, 1);
    check_extract_dt(false, 1, 0, 0, 0, 1);
    check_extract_dt(false, 9999, 23, 59, 59, 999999);
    check_extract_dt(false, 100000000, 0, 0, 0, 0);
    check_extract_dt(true, 0, 0, 0, 0, 1);
    check_extract_dt(true, 1, 0, 0, 0, 1);
    check_extract_dt(true, 9999, 23, 59, 59, 999999);
    check_extract_dt(true, 9999, 23, 59, 59, 375473);
    check_extract_dt(true, 100000000, 0, 0, 0, 0);
}
