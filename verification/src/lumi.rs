//! What the luminosity tool decides before it computes: converters, the
//! instant of a reconstruction pass, and its run selections.

use vstd::prelude::*;
use crate::numbers::{parse_int_in, read_int};
use crate::run_periods::{rest_version_day, rest_version_timestamp, end_of_day, RestVersion, RunPeriod, RunPeriodError};
use crate::text::{chars_of, same_text, split, split_chars, join, join_chars, string_of, views};
use crate::timestamp::Timestamp;
use crate::RunNumber;

verus! {

/// The text that names no converter.
#[derive(Debug, Clone)]
pub struct ConverterParseError(pub String);

/// The converter of the pair spectrometer.
#[derive(Debug, Copy, Clone, PartialEq, Eq, Structural)]
pub enum Converter {
    Retracted,
    Unknown,
    Be750um,
    Be75um,
    Be50um,
}

impl Converter {
    /// The converter that the database records as `s`.
    pub open spec fn named(s: Seq<char>) -> Option<Converter> {
        if s == "Retracted"@ {
            Some(Converter::Retracted)
        } else if s == "Unknown"@ {
            Some(Converter::Unknown)
        } else if s == "Be 750um"@ {
            Some(Converter::Be750um)
        } else if s == "Be 75um"@ {
            Some(Converter::Be75um)
        } else if s == "Be 50um"@ {
            Some(Converter::Be50um)
        } else {
            None
        }
    }

    /// The thickness of the converter in micrometres, where it has one.
    pub open spec fn micrometres(self) -> Option<u32> {
        match self {
            Converter::Retracted => None,
            Converter::Unknown => None,
            Converter::Be750um => Some(750u32),
            Converter::Be75um => Some(75u32),
            Converter::Be50um => Some(50u32),
        }
    }

    /// The converter that was in the beam for `run`: the recorded one,
    /// except that the runs between 10633 and 10694, both excluded, had the
    /// 75 micrometre converter where none is recorded.
    pub open spec fn in_beam(self, run: RunNumber) -> Converter {
        if self.micrometres() is None && 10633 < run < 10694 {
            Converter::Be75um
        } else {
            self
        }
    }

    pub fn from_str(s: &str) -> (r: Result<Converter, ConverterParseError>)
        ensures
            match Converter::named(s@) {
                Some(c) => r == Ok::<Converter, ConverterParseError>(c),
                None => r matches Err(ConverterParseError(text)) && text@ == s@,
            },
    {
        if same_text(s, "Retracted") {
            Ok(Converter::Retracted)
        } else if same_text(s, "Unknown") {
            Ok(Converter::Unknown)
        } else if same_text(s, "Be 750um") {
            Ok(Converter::Be750um)
        } else if same_text(s, "Be 75um") {
            Ok(Converter::Be75um)
        } else if same_text(s, "Be 50um") {
            Ok(Converter::Be50um)
        } else {
            Err(ConverterParseError(s.to_owned()))
        }
    }

    /// The thickness of the converter in micrometres, where it has one.
    pub fn thickness(&self) -> (r: Option<u32>)
        ensures
            r == self.micrometres(),
    {
        match self {
            Converter::Retracted => None,
            Converter::Unknown => None,
            Converter::Be750um => Some(750),
            Converter::Be75um => Some(75),
            Converter::Be50um => Some(50),
        }
    }

    /// The converter that was in the beam for `run`.
    pub fn for_run(self, run: RunNumber) -> (r: Converter)
        ensures
            r == self.in_beam(run),
    {
        if self.thickness().is_none() && run > 10633 && run < 10694 {
            Converter::Be75um
        } else {
            self
        }
    }
}

/// The instant as of which calibrations are read for the reconstruction
/// pass `rest_version` of `run_period`: the one on record, else now.
pub fn get_timestamp(run_period: RunPeriod, rest_version: RestVersion) -> (t: Timestamp)
    ensures
        t@.on_calendar(),
        rest_version_day(run_period, rest_version) matches Some(day) ==> t@ == end_of_day(day),
{
    match rest_version_timestamp(run_period, rest_version) {
        Some(t) => {
            t.on_calendar_witness();
            t
        },
        None => Timestamp::now(),
    }
}

/// Why a text is no run selection.
#[derive(Debug, Clone)]
pub enum RunPairError {
    /// The part in front of `=` names no run period.
    Period(RunPeriodError),
    /// The part behind `=`, which is no unsigned integer.
    Rest(String),
}

/// The part of `s` in front of its first `=`.
pub open spec fn pair_period_text(s: Seq<char>) -> Seq<char> {
    split(s, '=')[0]
}

/// The part of `s` behind its first `=`, if it has one.
pub open spec fn pair_rest_text(s: Seq<char>) -> Option<Seq<char>> {
    if split(s, '=').len() > 1 {
        Some(join(split(s, '=').skip(1), "="@))
    } else {
        None
    }
}

/// Reads a run selection `period[=rest]`: a run period and the version of
/// a reconstruction pass, 0 where none is given.
pub fn parse_run_pair(s: &str) -> (r: Result<(RunPeriod, usize), RunPairError>)
    ensures
        match RunPeriod::named(pair_period_text(s@)) {
            None => r matches Err(RunPairError::Period(RunPeriodError::RunPeriodParseError(text)))
                && text@ == pair_period_text(s@),
            Some(period) => match pair_rest_text(s@) {
                None => r == Ok::<(RunPeriod, usize), RunPairError>((period, 0usize)),
                Some(rest) => match parse_int_in(rest, 0, usize::MAX as int) {
                    Some(v) => r == Ok::<(RunPeriod, usize), RunPairError>((period, v as usize)),
                    None => r matches Err(RunPairError::Rest(text)) && text@ == rest,
                },
            },
        },
{
    let chars = chars_of(s);
    let pieces = split_chars(&chars, '=');
    let ghost all = split(s@, '=');
    assert(all[0] == pieces@[0]@);
    let period = match RunPeriod::from_str(string_of(&pieces[0]).as_str()) {
        Ok(p) => p,
        Err(e) => {
            return Err(RunPairError::Period(e));
        },
    };
    if pieces.len() == 1 {
        return Ok((period, 0));
    }
    let mut tail: Vec<Vec<char>> = Vec::new();
    let mut i: usize = 1;
    assert(views(tail@) == all.skip(1).take(0));
    while i < pieces.len()
        invariant
            1 <= i <= pieces.len(),
            views(pieces@) == all,
            all.len() == pieces@.len(),
            views(tail@) == all.skip(1).take(i - 1),
        decreases pieces.len() - i,
    {
        let ghost before = views(tail@);
        let mut copy: Vec<char> = Vec::new();
        crate::text::append_chars(&mut copy, &pieces[i]);
        assert(copy@ == pieces@[i as int]@) by {
            assert(Seq::<char>::empty() + pieces@[i as int]@ == pieces@[i as int]@);
        }
        tail.push(copy);
        assert(views(tail@) == before.push(pieces@[i as int]@));
        assert(all.skip(1).take(i + 1 - 1) == all.skip(1).take(i - 1).push(all[i as int]));
        i += 1;
    }
    assert(all.skip(1).take(pieces.len() - 1) == all.skip(1));
    let sign = chars_of("=");
    let rest = join_chars(&tail, &sign);
    match read_int(&rest, 0, usize::MAX as i128) {
        Some(v) => Ok((period, v as usize)),
        None => Err(RunPairError::Rest(string_of(&rest))),
    }
}

} // verus!
