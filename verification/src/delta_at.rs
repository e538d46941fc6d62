//! The leap-second table: TAI-UTC as published for each epoch.

use vstd::prelude::*;
use crate::calendar::GregorianDate;

verus! {

/// Reasons a leap-second lookup can fail.
#[derive(Clone, Copy, Debug, PartialEq, Eq, Structural)]
pub enum DeltaAtError {
    BadFract,
}

/// One entry of the leap-second table.  From the entry's epoch on,
/// TAI-UTC is `dat_micros` microseconds; entries before 1972 add a linear
/// drift of `nanos_per_day` nanoseconds per elapsed day since the modified
/// Julian day `reference_mjd`.  The integer scalings keep every published
/// value exact.
#[derive(Clone, Copy, Debug, PartialEq, Eq)]
pub struct LeapSecondEntry {
    pub year: i32,
    pub month: i32,
    pub dat_micros: i64,
    pub drift: Option<(i64, i64)>,
}

/// An entry's epoch, counted in months.
pub open spec fn entry_epoch(e: LeapSecondEntry) -> int {
    12 * e.year + e.month
}

/// The published leap-second history: cumulative TAI-UTC offsets from the
/// start of the UTC era.
pub open spec fn leap_second_table() -> Seq<LeapSecondEntry> {
    seq![
        LeapSecondEntry { year: 1960, month: 1, dat_micros: 1417818, drift: Some((37300, 1296000)) },
        LeapSecondEntry { year: 1961, month: 1, dat_micros: 1422818, drift: Some((37300, 1296000)) },
        LeapSecondEntry { year: 1961, month: 8, dat_micros: 1372818, drift: Some((37300, 1296000)) },
        LeapSecondEntry { year: 1962, month: 1, dat_micros: 1845858, drift: Some((37665, 1123200)) },
        LeapSecondEntry { year: 1963, month: 11, dat_micros: 1945858, drift: Some((37665, 1123200)) },
        LeapSecondEntry { year: 1964, month: 1, dat_micros: 3240130, drift: Some((38761, 1296000)) },
        LeapSecondEntry { year: 1964, month: 4, dat_micros: 3340130, drift: Some((38761, 1296000)) },
        LeapSecondEntry { year: 1964, month: 9, dat_micros: 3440130, drift: Some((38761, 1296000)) },
        LeapSecondEntry { year: 1965, month: 1, dat_micros: 3540130, drift: Some((38761, 1296000)) },
        LeapSecondEntry { year: 1965, month: 3, dat_micros: 3640130, drift: Some((38761, 1296000)) },
        LeapSecondEntry { year: 1965, month: 7, dat_micros: 3740130, drift: Some((38761, 1296000)) },
        LeapSecondEntry { year: 1965, month: 9, dat_micros: 3840130, drift: Some((38761, 1296000)) },
        LeapSecondEntry { year: 1966, month: 1, dat_micros: 4313170, drift: Some((39126, 2592000)) },
        LeapSecondEntry { year: 1968, month: 2, dat_micros: 4213170, drift: Some((39126, 2592000)) },
        LeapSecondEntry { year: 1972, month: 1, dat_micros: 10000000, drift: None },
        LeapSecondEntry { year: 1972, month: 7, dat_micros: 11000000, drift: None },
        LeapSecondEntry { year: 1973, month: 1, dat_micros: 12000000, drift: None },
        LeapSecondEntry { year: 1974, month: 1, dat_micros: 13000000, drift: None },
        LeapSecondEntry { year: 1975, month: 1, dat_micros: 14000000, drift: None },
        LeapSecondEntry { year: 1976, month: 1, dat_micros: 15000000, drift: None },
        LeapSecondEntry { year: 1977, month: 1, dat_micros: 16000000, drift: None },
        LeapSecondEntry { year: 1978, month: 1, dat_micros: 17000000, drift: None },
        LeapSecondEntry { year: 1979, month: 1, dat_micros: 18000000, drift: None },
        LeapSecondEntry { year: 1980, month: 1, dat_micros: 19000000, drift: None },
        LeapSecondEntry { year: 1981, month: 7, dat_micros: 20000000, drift: None },
        LeapSecondEntry { year: 1982, month: 7, dat_micros: 21000000, drift: None },
        LeapSecondEntry { year: 1983, month: 7, dat_micros: 22000000, drift: None },
        LeapSecondEntry { year: 1985, month: 7, dat_micros: 23000000, drift: None },
        LeapSecondEntry { year: 1988, month: 1, dat_micros: 24000000, drift: None },
        LeapSecondEntry { year: 1990, month: 1, dat_micros: 25000000, drift: None },
        LeapSecondEntry { year: 1991, month: 1, dat_micros: 26000000, drift: None },
        LeapSecondEntry { year: 1992, month: 7, dat_micros: 27000000, drift: None },
        LeapSecondEntry { year: 1993, month: 7, dat_micros: 28000000, drift: None },
        LeapSecondEntry { year: 1994, month: 7, dat_micros: 29000000, drift: None },
        LeapSecondEntry { year: 1996, month: 1, dat_micros: 30000000, drift: None },
        LeapSecondEntry { year: 1997, month: 7, dat_micros: 31000000, drift: None },
        LeapSecondEntry { year: 1999, month: 1, dat_micros: 32000000, drift: None },
        LeapSecondEntry { year: 2006, month: 1, dat_micros: 33000000, drift: None },
        LeapSecondEntry { year: 2009, month: 1, dat_micros: 34000000, drift: None },
        LeapSecondEntry { year: 2012, month: 7, dat_micros: 35000000, drift: None },
        LeapSecondEntry { year: 2015, month: 7, dat_micros: 36000000, drift: None },
        LeapSecondEntry { year: 2017, month: 1, dat_micros: 37000000, drift: None },
    ]
}

/// Index `j` names the table entry that governs a query epoch `q`: the
/// last entry whose own epoch is strictly before `q`, or the first entry
/// where none is.
pub open spec fn governs(q: int, j: int) -> bool {
    let tab = leap_second_table();
    &&& 0 <= j < tab.len()
    &&& (entry_epoch(tab[j]) < q || j == 0)
    &&& forall|l: int| j < l < tab.len() ==> entry_epoch(#[trigger] tab[l]) >= q
}

/// At most one index governs a query epoch, so the governing entry is
/// uniquely determined.
pub proof fn lemma_governs_unique(q: int, j1: int, j2: int)
    requires
        governs(q, j1),
        governs(q, j2),
    ensures
        j1 == j2,
{
    if j1 < j2 {
        assert(entry_epoch(leap_second_table()[j2]) >= q);
    }
    if j2 < j1 {
        assert(entry_epoch(leap_second_table()[j1]) >= q);
    }
}

impl GregorianDate {
    /// The leap-second table entry in force at this date, or `None` for a
    /// year before the UTC era.  The caller turns the entry into seconds,
    /// applying the pre-1972 drift where the entry carries one.
    pub fn delta_at(&self) -> (r: Option<LeapSecondEntry>)
        ensures
            match r {
                None => self.year < 1960,
                Some(e) => {
                    &&& self.year >= 1960
                    &&& exists|j: int|
                        #[trigger] governs(12 * self.year + self.month, j) && e
                            == leap_second_table()[j]
                },
            },
    {
        if self.year < 1960 {
            return None;
        }
        let entries = leap_second_entries();
        let q: i64 = 12 * (self.year as i64) + (self.month as i64);
        let mut best: usize = 0;
        let mut j: usize = 1;
        while j < entries.len()
            invariant
                entries@ =~= leap_second_table(),
                q == 12 * self.year + self.month,
                1 <= j <= entries@.len(),
                0 <= best < j,
                best == 0 || entry_epoch(entries@[best as int]) < q,
                forall|l: int|
                    best < l < j ==> entry_epoch(#[trigger] entries@[l]) >= q,
            decreases entries@.len() - j,
        {
            let e = entries[j];
            if 12 * (e.year as i64) + (e.month as i64) < q {
                best = j;
            }
            j += 1;
        }
        let chosen = entries[best];
        proof {
            assert(governs(12 * self.year + self.month, best as int));
        }
        Some(chosen)
    }
}

/// The leap-second table as executable data.
fn leap_second_entries() -> (v: Vec<LeapSecondEntry>)
    ensures
        v@ =~= leap_second_table(),
{
    let mut v: Vec<LeapSecondEntry> = Vec::new();
    v.push(LeapSecondEntry { year: 1960, month: 1, dat_micros: 1417818, drift: Some((37300, 1296000)) });
    v.push(LeapSecondEntry { year: 1961, month: 1, dat_micros: 1422818, drift: Some((37300, 1296000)) });
    v.push(LeapSecondEntry { year: 1961, month: 8, dat_micros: 1372818, drift: Some((37300, 1296000)) });
    v.push(LeapSecondEntry { year: 1962, month: 1, dat_micros: 1845858, drift: Some((37665, 1123200)) });
    v.push(LeapSecondEntry { year: 1963, month: 11, dat_micros: 1945858, drift: Some((37665, 1123200)) });
    v.push(LeapSecondEntry { year: 1964, month: 1, dat_micros: 3240130, drift: Some((38761, 1296000)) });
    v.push(LeapSecondEntry { year: 1964, month: 4, dat_micros: 3340130, drift: Some((38761, 1296000)) });
    v.push(LeapSecondEntry { year: 1964, month: 9, dat_micros: 3440130, drift: Some((38761, 1296000)) });
    v.push(LeapSecondEntry { year: 1965, month: 1, dat_micros: 3540130, drift: Some((38761, 1296000)) });
    v.push(LeapSecondEntry { year: 1965, month: 3, dat_micros: 3640130, drift: Some((38761, 1296000)) });
    v.push(LeapSecondEntry { year: 1965, month: 7, dat_micros: 3740130, drift: Some((38761, 1296000)) });
    v.push(LeapSecondEntry { year: 1965, month: 9, dat_micros: 3840130, drift: Some((38761, 1296000)) });
    v.push(LeapSecondEntry { year: 1966, month: 1, dat_micros: 4313170, drift: Some((39126, 2592000)) });
    v.push(LeapSecondEntry { year: 1968, month: 2, dat_micros: 4213170, drift: Some((39126, 2592000)) });
    v.push(LeapSecondEntry { year: 1972, month: 1, dat_micros: 10000000, drift: None });
    v.push(LeapSecondEntry { year: 1972, month: 7, dat_micros: 11000000, drift: None });
    v.push(LeapSecondEntry { year: 1973, month: 1, dat_micros: 12000000, drift: None });
    v.push(LeapSecondEntry { year: 1974, month: 1, dat_micros: 13000000, drift: None });
    v.push(LeapSecondEntry { year: 1975, month: 1, dat_micros: 14000000, drift: None });
    v.push(LeapSecondEntry { year: 1976, month: 1, dat_micros: 15000000, drift: None });
    v.push(LeapSecondEntry { year: 1977, month: 1, dat_micros: 16000000, drift: None });
    v.push(LeapSecondEntry { year: 1978, month: 1, dat_micros: 17000000, drift: None });
    v.push(LeapSecondEntry { year: 1979, month: 1, dat_micros: 18000000, drift: None });
    v.push(LeapSecondEntry { year: 1980, month: 1, dat_micros: 19000000, drift: None });
    v.push(LeapSecondEntry { year: 1981, month: 7, dat_micros: 20000000, drift: None });
    v.push(LeapSecondEntry { year: 1982, month: 7, dat_micros: 21000000, drift: None });
    v.push(LeapSecondEntry { year: 1983, month: 7, dat_micros: 22000000, drift: None });
    v.push(LeapSecondEntry { year: 1985, month: 7, dat_micros: 23000000, drift: None });
    v.push(LeapSecondEntry { year: 1988, month: 1, dat_micros: 24000000, drift: None });
    v.push(LeapSecondEntry { year: 1990, month: 1, dat_micros: 25000000, drift: None });
    v.push(LeapSecondEntry { year: 1991, month: 1, dat_micros: 26000000, drift: None });
    v.push(LeapSecondEntry { year: 1992, month: 7, dat_micros: 27000000, drift: None });
    v.push(LeapSecondEntry { year: 1993, month: 7, dat_micros: 28000000, drift: None });
    v.push(LeapSecondEntry { year: 1994, month: 7, dat_micros: 29000000, drift: None });
    v.push(LeapSecondEntry { year: 1996, month: 1, dat_micros: 30000000, drift: None });
    v.push(LeapSecondEntry { year: 1997, month: 7, dat_micros: 31000000, drift: None });
    v.push(LeapSecondEntry { year: 1999, month: 1, dat_micros: 32000000, drift: None });
    v.push(LeapSecondEntry { year: 2006, month: 1, dat_micros: 33000000, drift: None });
    v.push(LeapSecondEntry { year: 2009, month: 1, dat_micros: 34000000, drift: None });
    v.push(LeapSecondEntry { year: 2012, month: 7, dat_micros: 35000000, drift: None });
    v.push(LeapSecondEntry { year: 2015, month: 7, dat_micros: 36000000, drift: None });
    v.push(LeapSecondEntry { year: 2017, month: 1, dat_micros: 37000000, drift: None });
    v
}

} // verus!
