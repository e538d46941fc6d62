use tofas::calendar::CalendarError;
use tofas::calendar::GregorianDate;
use tofas::calendar::MJD_MAX;
use tofas::calendar::MJD_MIN;
use tofas::calendar::clock_of_day_seconds;
use tofas::calendar::day_seconds_of_clock;

const MJD_ZERO: f64 = 2400000.5;
const DJ_MIN: f64 = -31738.5;
const DJ_MAX: f64 = 1e9;

/// A small deterministic generator for the randomized loops.
struct Lcg(u64);

impl Lcg {
    fn next_f64(&mut self) -> f64 {
        self.0 = self
            .0
            .wrapping_mul(6364136223846793005)
            .wrapping_add(1442695040888963407);
        ((self.0 >> 11) as f64) / ((1u64 << 53) as f64)
    }
}

/// The floating-point half of the Julian-date split: order the two parts,
/// shift from noon- to midnight-based reckoning, separate the fraction of
/// the day, and hand the integer day number to the library.
fn from_julian_f(dj1: f64, dj2: f64) -> Result<(GregorianDate, f64), CalendarError> {
    let dj = dj1 + dj2;
    if dj < DJ_MIN || dj > DJ_MAX {
        return Err(CalendarError::BadJulian);
    }
    let (d1, d2) = if dj1 >= dj2 { (dj1, dj2) } else { (dj2, dj1) };
    let d2 = d2 - 0.5;
    let f1 = d1 % 1.0;
    let f2 = d2 % 1.0;
    let mut f = (f1 + f2) % 1.0;
    if f < 0.0 {
        f += 1.0;
    }
    let d = (d1 - f1).round() + (d2 - f2).round() + (f1 + f2 - f).round();
    let jd = d as i64 + 1;
    let gd = GregorianDate::from_julian(jd - 2400001)?;
    Ok((gd, f))
}

/// The floating-point half of the inverse: the library's integer day
/// number beside the fixed Julian-date offset of the modified epoch.
fn to_julian_f(gd: &GregorianDate) -> (f64, f64) {
    (MJD_ZERO, gd.to_julian() as f64)
}

#[test]
fn test_calendar() {
    let tol = f64::EPSILON.sqrt();

    for (dj1, year, month, day, f1) in [(2436116.31, 1957, 10, 4, 0.81)] {
        let gd1 = GregorianDate::new(year, month, day).unwrap();
        let (gd2, f2) = from_julian_f(dj1, 0.0).unwrap();
        let (dj2a, dj2b) = to_julian_f(&gd1);
        let dj2 = dj2a + dj2b + f1;
        let e = (dj1 - dj2).abs();
        if e >= tol {
            println!("gd1 = {gd1:?}, f1 = {f1}");
            println!("gd2 = {gd2:?}, f2 = {f2}");
            println!("dj2 = {dj2} = {dj2a} + {dj2b}, e = {e}");
            panic!("Known conversion failed (1)");
        }
    }

    for (jd0, year, month, day, hour, minute, second) in [
        (2460623.50, 2024, 11, 9, 0u8, 0u8, 0u8),
        (2433282.623611111, 1950, 1, 1, 2, 58, 0),
    ] {
        let gd1 = GregorianDate::new(year, month, day).unwrap();
        let fd1 = day_seconds_of_clock(hour, minute, second) as f64 / 86400.0;
        let (jd1, jd2) = to_julian_f(&gd1);
        let jd = jd1 + jd2 + fd1;
        let e = (jd - jd0).abs();
        println!("{jd} {jd0} {e}");
        if e >= tol {
            println!("gd1 = {gd1:?}");
            println!("fd1 = {fd1}");
            println!("jd = {jd}, e = {e}");
            panic!("Known conversion failed (2)");
        }

        let (gd2, fd2) = from_julian_f(jd1, jd2 + fd1).unwrap();
        if gd1 != gd2 {
            println!("gd1 = {gd1:?}");
            println!("gd2 = {gd2:?}");
            panic!("Known conversion failed (3)");
        }
        let (h2, m2, s2) = clock_of_day_seconds((86400.0 * fd2).trunc() as u32);
        let s2f = s2 as f64 + (86400.0 * fd2).fract();
        if h2 != hour || m2 != minute || (s2f - second as f64).abs() >= 100.0 * tol {
            println!("hms2 = {h2}:{m2}:{s2f}");
            println!("tol = {tol:e}");
            panic!("Known conversion failed (4)");
        }
    }

    let mut rng = Lcg(20241109);
    for iter in 0..1000000u64 {
        let dj1a = (DJ_MIN + (MJD_ZERO + 36500.0) * rng.next_f64()).floor() + 0.5;
        let f1 = rng.next_f64();
        let dj1 = dj1a + f1;
        let (gd, f2) = from_julian_f(dj1a, f1).unwrap();
        let (dj2a, dj2b) = to_julian_f(&gd);
        let dj2 = dj2a + dj2b + f2;
        let e = (dj1 - dj2).abs();
        if e >= tol {
            println!("Iteration {iter}");
            println!("dj1 = {dj1}");
            println!("gd = {gd:?}");
            println!("f1 = {f1:?}, f2 = {f2:?}");
            println!("dj2 = {dj2} = {dj2a} + {dj2b}, e = {e}");
            panic!("Conversion failed");
        }
    }
}

#[test]
fn test_hms() {
    let mut rng = Lcg(42);
    for _ in 0..1000 {
        let f1 = rng.next_f64();
        let s = 86400.0 * f1;
        let (hour, minute, second) = clock_of_day_seconds(s.trunc() as u32);
        let secf = second as f64 + s.fract();
        assert!(hour < 24);
        assert!(minute < 60);
        assert!(0.0 <= secf && secf < 60.0);
        let f2 = (secf + 60.0 * (minute as f64 + 60.0 * hour as f64)) / 86400.0;
        let e = (f1 - f2).abs();
        if e > f64::EPSILON {
            panic!("FOD mismatch {f1} -> {f2}, error {e}");
        }
        println!("HMS {} -> {:02}:{:02}:{:09.6}", f1, hour, minute, secf);
    }
}

#[test]
fn test_new_validation() {
    assert!(GregorianDate::new(2024, 11, 9).is_ok());
    assert!(GregorianDate::new(2000, 2, 29).is_ok());
    assert!(GregorianDate::new(2004, 2, 29).is_ok());
    assert_eq!(GregorianDate::new(-4800, 1, 1), Err(CalendarError::BadYear));
    assert_eq!(GregorianDate::new(2024, 0, 1), Err(CalendarError::BadMonth));
    assert_eq!(GregorianDate::new(2024, 13, 1), Err(CalendarError::BadMonth));
    assert_eq!(GregorianDate::new(2023, 2, 29), Err(CalendarError::BadDay));
    assert_eq!(GregorianDate::new(1900, 2, 29), Err(CalendarError::BadDay));
    assert_eq!(GregorianDate::new(2024, 4, 31), Err(CalendarError::BadDay));
    assert_eq!(GregorianDate::new(2024, 1, 0), Err(CalendarError::BadDay));
}

#[test]
fn test_to_julian_known() {
    let gd = GregorianDate::new(1957, 10, 4).unwrap();
    assert_eq!(gd.to_julian(), 36115);
    let gd = GregorianDate::new(2024, 11, 9).unwrap();
    assert_eq!(gd.to_julian(), 60623);
    let gd = GregorianDate::new(1950, 1, 1).unwrap();
    assert_eq!(gd.to_julian(), 33282);
    let gd = GregorianDate::new(2000, 1, 1).unwrap();
    assert_eq!(gd.to_julian(), 51544);
}

#[test]
fn test_from_julian_known() {
    let gd = GregorianDate::from_julian(36115).unwrap();
    assert_eq!((gd.year, gd.month, gd.day), (1957, 10, 4));
    let gd = GregorianDate::from_julian(60623).unwrap();
    assert_eq!((gd.year, gd.month, gd.day), (2024, 11, 9));
    let gd = GregorianDate::from_julian(51603).unwrap();
    assert_eq!((gd.year, gd.month, gd.day), (2000, 2, 29));
}

#[test]
fn test_from_julian_range() {
    assert_eq!(
        GregorianDate::from_julian(MJD_MIN - 1),
        Err(CalendarError::BadJulian)
    );
    assert_eq!(
        GregorianDate::from_julian(MJD_MAX + 1),
        Err(CalendarError::BadJulian)
    );
    // The lowest accepted day number is the earliest valid date.
    let gd = GregorianDate::from_julian(MJD_MIN).unwrap();
    assert_eq!((gd.year, gd.month, gd.day), (-4799, 1, 1));
    assert!(GregorianDate::from_julian(MJD_MAX).is_ok());
}

#[test]
fn test_from_julian_always_valid() {
    // Every accepted day number yields a date that construction accepts.
    let mut djm = MJD_MIN;
    while djm <= MJD_MIN + 800 {
        let gd = GregorianDate::from_julian(djm).unwrap();
        assert!(GregorianDate::new(gd.year, gd.month, gd.day).is_ok());
        assert_eq!(gd.to_julian(), djm);
        djm += 1;
    }
    let mut djm = MJD_MIN;
    while djm <= MJD_MAX {
        let gd = GregorianDate::from_julian(djm).unwrap();
        assert!(GregorianDate::new(gd.year, gd.month, gd.day).is_ok());
        assert_eq!(gd.to_julian(), djm);
        djm += 9999991;
    }
}

#[test]
fn test_year_min_round_trip() {
    let gd = GregorianDate::new(-4799, 1, 1).unwrap();
    let djm = gd.to_julian();
    assert_eq!(djm, -2431739);
    let gd2 = GregorianDate::from_julian(djm).unwrap();
    assert_eq!(gd, gd2);
}

#[test]
fn test_clock_split_edges() {
    assert_eq!(clock_of_day_seconds(0), (0, 0, 0));
    assert_eq!(clock_of_day_seconds(10680), (2, 58, 0));
    assert_eq!(clock_of_day_seconds(86399), (23, 59, 59));
    assert_eq!(clock_of_day_seconds(86400), (24, 0, 0));
    assert_eq!(day_seconds_of_clock(2, 58, 0), 10680);
    assert_eq!(day_seconds_of_clock(23, 59, 59), 86399);
}
