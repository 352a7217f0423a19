//! The flight table: a header row of short column keys, each known under a
//! modern and a legacy spelling, followed by data rows whose fields are
//! decoded by the key of their column.

use vstd::prelude::*;
use crate::error::{Error, ErrorV};
use crate::num::{is_float_str, is_float_token, parse_uint, parses_as_uint, uint_val};
use crate::scalars::{date_of, duration_of, parse_date, parse_duration, parse_time, time_of, Date,
    DateV, Duration, Time, TimeV};
use crate::text::{keep_nonempty, keep_nonempty_vec, lines_of, spec_lines, split_all_char,
    split_from, str_eq};

verus! {

// ---------------------------------------------------------------------------
// The alias table
// ---------------------------------------------------------------------------

/// The semantic field a column key stands for. Every recognized field has
/// exactly two spellings, one modern and one legacy; anything else is
/// `Unknown` and contributes nothing to a row.
#[derive(Debug, Clone, Copy, PartialEq, Eq, Structural)]
pub enum ColKey {
    Number,
    DateKey,
    AircraftType,
    AircraftId,
    PilotName,
    CopilotName,
    Passengers,
    StartType,
    StartTime,
    LandingTime,
    FlightTime,
    BlockOn,
    BlockOff,
    BlockTime,
    Landings,
    StartLocation,
    LandingLocation,
    Remarks,
    Distance,
    Categories,
    Unknown,
}

/// The single lookup table mapping every recognized column-key spelling to
/// its semantic field.
pub open spec fn col_key_of(k: Seq<char>) -> ColKey {
    if k == "Num"@ {
        ColKey::Number
    } else if k == "Dat"@ {
        ColKey::DateKey
    } else if k == "ATy"@ || k == "Mus"@ {
        ColKey::AircraftType
    } else if k == "AId"@ || k == "Ken"@ {
        ColKey::AircraftId
    } else if k == "Pi1"@ || k == "Pil"@ {
        ColKey::PilotName
    } else if k == "Pi2"@ || k == "Beg"@ {
        ColKey::CopilotName
    } else if k == "Pas"@ {
        ColKey::Passengers
    } else if k == "ToS"@ || k == "Art"@ {
        ColKey::StartType
    } else if k == "StT"@ || k == "StZ"@ {
        ColKey::StartTime
    } else if k == "LaT"@ || k == "LaZ"@ {
        ColKey::LandingTime
    } else if k == "FlT"@ || k == "FlZ"@ {
        ColKey::FlightTime
    } else if k == "StB"@ {
        ColKey::BlockOn
    } else if k == "LaB"@ {
        ColKey::BlockOff
    } else if k == "BlT"@ || k == "BlZ"@ {
        ColKey::BlockTime
    } else if k == "NoL"@ || k == "AFl"@ {
        ColKey::Landings
    } else if k == "StL"@ || k == "StO"@ {
        ColKey::StartLocation
    } else if k == "LaL"@ || k == "LaO"@ {
        ColKey::LandingLocation
    } else if k == "Rem"@ || k == "Bem"@ {
        ColKey::Remarks
    } else if k == "Dst"@ || k == "Str"@ {
        ColKey::Distance
    } else if k == "Cat"@ || k == "Kat"@ {
        ColKey::Categories
    } else {
        ColKey::Unknown
    }
}

/// Resolve a column key through the alias table.
pub fn col_key_for(k: &str) -> (r: ColKey)
    ensures
        r == col_key_of(k@),
{
    if str_eq(k, "Num") {
        ColKey::Number
    } else if str_eq(k, "Dat") {
        ColKey::DateKey
    } else if str_eq(k, "ATy") || str_eq(k, "Mus") {
        ColKey::AircraftType
    } else if str_eq(k, "AId") || str_eq(k, "Ken") {
        ColKey::AircraftId
    } else if str_eq(k, "Pi1") || str_eq(k, "Pil") {
        ColKey::PilotName
    } else if str_eq(k, "Pi2") || str_eq(k, "Beg") {
        ColKey::CopilotName
    } else if str_eq(k, "Pas") {
        ColKey::Passengers
    } else if str_eq(k, "ToS") || str_eq(k, "Art") {
        ColKey::StartType
    } else if str_eq(k, "StT") || str_eq(k, "StZ") {
        ColKey::StartTime
    } else if str_eq(k, "LaT") || str_eq(k, "LaZ") {
        ColKey::LandingTime
    } else if str_eq(k, "FlT") || str_eq(k, "FlZ") {
        ColKey::FlightTime
    } else if str_eq(k, "StB") {
        ColKey::BlockOn
    } else if str_eq(k, "LaB") {
        ColKey::BlockOff
    } else if str_eq(k, "BlT") || str_eq(k, "BlZ") {
        ColKey::BlockTime
    } else if str_eq(k, "NoL") || str_eq(k, "AFl") {
        ColKey::Landings
    } else if str_eq(k, "StL") || str_eq(k, "StO") {
        ColKey::StartLocation
    } else if str_eq(k, "LaL") || str_eq(k, "LaO") {
        ColKey::LandingLocation
    } else if str_eq(k, "Rem") || str_eq(k, "Bem") {
        ColKey::Remarks
    } else if str_eq(k, "Dst") || str_eq(k, "Str") {
        ColKey::Distance
    } else if str_eq(k, "Cat") || str_eq(k, "Kat") {
        ColKey::Categories
    } else {
        ColKey::Unknown
    }
}

// ---------------------------------------------------------------------------
// Flights
// ---------------------------------------------------------------------------

/// The mathematical form of one decoded flight.
pub struct FlightV {
    pub number: Option<int>,
    pub date: DateV,
    pub aircraft_type: Seq<char>,
    pub aircraft_id: Seq<char>,
    pub pilot_name: Seq<char>,
    pub copilot_name: Seq<char>,
    pub num_passengers: int,
    pub start_type: Seq<char>,
    pub start_time: TimeV,
    pub landing_time: TimeV,
    pub flight_time: int,
    pub block_on_time: Option<TimeV>,
    pub block_off_time: Option<TimeV>,
    pub block_time: Option<int>,
    pub num_landings: int,
    pub start_location: Seq<char>,
    pub landing_location: Seq<char>,
    pub remarks: Seq<char>,
    pub distance: Option<Seq<char>>,
    pub categories: Seq<Seq<char>>,
}

/// One flight of the table. Times are plain values, durations whole minutes;
/// the distance is kept as the raw column text, present only where the
/// column held a non-empty value, which must pass the floating-point
/// acceptance grammar.
#[derive(Debug, Clone)]
pub struct Flight {
    pub number: Option<u32>,
    pub date: Date,
    pub aircraft_type: String,
    pub aircraft_id: String,
    pub pilot_name: String,
    pub copilot_name: String,
    pub num_passengers: u8,
    pub start_type: String,
    pub start_time: Time,
    pub landing_time: Time,
    pub flight_time: Duration,
    pub block_on_time: Option<Time>,
    pub block_off_time: Option<Time>,
    pub block_time: Option<Duration>,
    pub num_landings: u16,
    pub start_location: String,
    pub landing_location: String,
    pub remarks: String,
    pub distance: Option<String>,
    pub categories: Vec<String>,
}

impl View for Flight {
    type V = FlightV;

    open spec fn view(&self) -> FlightV {
        FlightV {
            number: match self.number {
                Some(v) => Some(v as int),
                None => None,
            },
            date: self.date@,
            aircraft_type: self.aircraft_type@,
            aircraft_id: self.aircraft_id@,
            pilot_name: self.pilot_name@,
            copilot_name: self.copilot_name@,
            num_passengers: self.num_passengers as int,
            start_type: self.start_type@,
            start_time: self.start_time@,
            landing_time: self.landing_time@,
            flight_time: self.flight_time@,
            block_on_time: match self.block_on_time {
                Some(t) => Some(t@),
                None => None,
            },
            block_off_time: match self.block_off_time {
                Some(t) => Some(t@),
                None => None,
            },
            block_time: match self.block_time {
                Some(d) => Some(d@),
                None => None,
            },
            num_landings: self.num_landings as int,
            start_location: self.start_location@,
            landing_location: self.landing_location@,
            remarks: self.remarks@,
            distance: match self.distance {
                Some(s) => Some(s@),
                None => None,
            },
            categories: self.categories.deep_view(),
        }
    }
}

impl DeepView for Flight {
    type V = FlightV;

    open spec fn deep_view(&self) -> FlightV {
        self.view()
    }
}

// ---------------------------------------------------------------------------
// Decoding one row
// ---------------------------------------------------------------------------

/// The state of a row scan: required fields still open, the rest holding
/// their documented defaults.
pub struct RowStateV {
    pub number: Option<int>,
    pub date: Option<DateV>,
    pub aircraft_type: Seq<char>,
    pub aircraft_id: Seq<char>,
    pub pilot_name: Seq<char>,
    pub copilot_name: Seq<char>,
    pub num_passengers: int,
    pub start_type: Seq<char>,
    pub start_time: Option<TimeV>,
    pub landing_time: Option<TimeV>,
    pub flight_time: int,
    pub block_on_time: Option<TimeV>,
    pub block_off_time: Option<TimeV>,
    pub block_time: Option<int>,
    pub num_landings: int,
    pub start_location: Seq<char>,
    pub landing_location: Seq<char>,
    pub remarks: Seq<char>,
    pub distance: Option<Seq<char>>,
    pub categories: Seq<Seq<char>>,
}

/// The state a row scan starts from: every field at its default. The landing
/// count defaults to one, not zero.
pub open spec fn init_row_state() -> RowStateV {
    RowStateV {
        number: None,
        date: None,
        aircraft_type: Seq::empty(),
        aircraft_id: Seq::empty(),
        pilot_name: Seq::empty(),
        copilot_name: Seq::empty(),
        num_passengers: 0,
        start_type: Seq::empty(),
        start_time: None,
        landing_time: None,
        flight_time: 0,
        block_on_time: None,
        block_off_time: None,
        block_time: None,
        num_landings: 1,
        start_location: Seq::empty(),
        landing_location: Seq::empty(),
        remarks: Seq::empty(),
        distance: None,
        categories: Seq::empty(),
    }
}

/// One column applied to the row state. A later column overwrites an earlier
/// one of the same field; an unknown key changes nothing; an empty distance
/// value counts as an absent column, and a non-empty one must pass the
/// floating-point acceptance grammar, though it is kept as raw text.
pub open spec fn apply_col(st: RowStateV, k: Seq<char>, v: Seq<char>) -> Result<RowStateV, ErrorV> {
    match col_key_of(k) {
        ColKey::Number => if parses_as_uint(v, u32::MAX as int) {
            Ok(RowStateV { number: Some(uint_val(v)), ..st })
        } else {
            Err(ErrorV::InvalidFile)
        },
        ColKey::DateKey => match date_of(v) {
            Some(d) => Ok(RowStateV { date: Some(d), ..st }),
            None => Err(ErrorV::InvalidDate(v)),
        },
        ColKey::AircraftType => Ok(RowStateV { aircraft_type: v, ..st }),
        ColKey::AircraftId => Ok(RowStateV { aircraft_id: v, ..st }),
        ColKey::PilotName => Ok(RowStateV { pilot_name: v, ..st }),
        ColKey::CopilotName => Ok(RowStateV { copilot_name: v, ..st }),
        ColKey::Passengers => if parses_as_uint(v, u8::MAX as int) {
            Ok(RowStateV { num_passengers: uint_val(v), ..st })
        } else {
            Err(ErrorV::InvalidFile)
        },
        ColKey::StartType => Ok(RowStateV { start_type: v, ..st }),
        ColKey::StartTime => match time_of(v) {
            Some(t) => Ok(RowStateV { start_time: Some(t), ..st }),
            None => Err(ErrorV::InvalidTime(v)),
        },
        ColKey::LandingTime => match time_of(v) {
            Some(t) => Ok(RowStateV { landing_time: Some(t), ..st }),
            None => Err(ErrorV::InvalidTime(v)),
        },
        ColKey::FlightTime => match duration_of(v) {
            Some(d) => Ok(RowStateV { flight_time: d, ..st }),
            None => Err(ErrorV::InvalidDuration(v)),
        },
        ColKey::BlockOn => match time_of(v) {
            Some(t) => Ok(RowStateV { block_on_time: Some(t), ..st }),
            None => Err(ErrorV::InvalidTime(v)),
        },
        ColKey::BlockOff => match time_of(v) {
            Some(t) => Ok(RowStateV { block_off_time: Some(t), ..st }),
            None => Err(ErrorV::InvalidTime(v)),
        },
        ColKey::BlockTime => match duration_of(v) {
            Some(d) => Ok(RowStateV { block_time: Some(d), ..st }),
            None => Err(ErrorV::InvalidDuration(v)),
        },
        ColKey::Landings => if parses_as_uint(v, u16::MAX as int) {
            Ok(RowStateV { num_landings: uint_val(v), ..st })
        } else {
            Err(ErrorV::InvalidFile)
        },
        ColKey::StartLocation => Ok(RowStateV { start_location: v, ..st }),
        ColKey::LandingLocation => Ok(RowStateV { landing_location: v, ..st }),
        ColKey::Remarks => Ok(RowStateV { remarks: v, ..st }),
        ColKey::Distance => if v.len() > 0 {
            if is_float_str(v) {
                Ok(RowStateV { distance: Some(v), ..st })
            } else {
                Err(ErrorV::InvalidFile)
            }
        } else {
            Ok(st)
        },
        ColKey::Categories => Ok(
            RowStateV { categories: keep_nonempty(split_from(v, seq!['/'], 0)), ..st },
        ),
        ColKey::Unknown => Ok(st),
    }
}

/// The columns from position `i` on, applied in order; the first failure
/// aborts.
pub open spec fn fold_cols(
    keys: Seq<Seq<char>>,
    vals: Seq<Seq<char>>,
    i: int,
    st: RowStateV,
) -> Result<RowStateV, ErrorV>
    decreases keys.len() - i,
{
    if i < 0 || i >= keys.len() || i >= vals.len() {
        Ok(st)
    } else {
        match apply_col(st, keys[i], vals[i]) {
            Err(e) => Err(e),
            Ok(st2) => fold_cols(keys, vals, i + 1, st2),
        }
    }
}

/// A finished row: date, start time and landing time must have appeared.
pub open spec fn finish_row(st: RowStateV) -> Result<FlightV, ErrorV> {
    if st.date is None || st.start_time is None || st.landing_time is None {
        Err(ErrorV::InvalidFile)
    } else {
        Ok(
            FlightV {
                number: st.number,
                date: st.date->0,
                aircraft_type: st.aircraft_type,
                aircraft_id: st.aircraft_id,
                pilot_name: st.pilot_name,
                copilot_name: st.copilot_name,
                num_passengers: st.num_passengers,
                start_type: st.start_type,
                start_time: st.start_time->0,
                landing_time: st.landing_time->0,
                flight_time: st.flight_time,
                block_on_time: st.block_on_time,
                block_off_time: st.block_off_time,
                block_time: st.block_time,
                num_landings: st.num_landings,
                start_location: st.start_location,
                landing_location: st.landing_location,
                remarks: st.remarks,
                distance: st.distance,
                categories: st.categories,
            },
        )
    }
}

/// What one data row means under a header: exactly as many fields as keys,
/// each field decoded by its column's key.
pub open spec fn flight_of(row: Seq<char>, keys: Seq<Seq<char>>) -> Result<FlightV, ErrorV> {
    let fields = split_from(row, seq![';'], 0);
    if fields.len() != keys.len() {
        Err(ErrorV::InvalidFile)
    } else {
        match fold_cols(keys, fields, 0, init_row_state()) {
            Err(e) => Err(e),
            Ok(st) => finish_row(st),
        }
    }
}

/// The data rows from line `i` on: empty lines are no data rows, and the
/// first failing row aborts.
pub open spec fn rows_of(ls: Seq<Seq<char>>, keys: Seq<Seq<char>>, i: int) -> Result<
    Seq<FlightV>,
    ErrorV,
>
    decreases ls.len() - i,
{
    if i < 0 || i >= ls.len() {
        Ok(Seq::empty())
    } else if ls[i].len() == 0 {
        rows_of(ls, keys, i + 1)
    } else {
        match flight_of(ls[i], keys) {
            Err(e) => Err(e),
            Ok(f) => match rows_of(ls, keys, i + 1) {
                Err(e) => Err(e),
                Ok(rest) => Ok(seq![f] + rest),
            },
        }
    }
}

/// What a whole table means: the first line is the header row of column
/// keys, every further non-empty line a data row. A table of only a header
/// is an empty flight list, not an error.
pub open spec fn flights_of(s: Seq<char>) -> Result<Seq<FlightV>, ErrorV> {
    let ls = spec_lines(s);
    if ls.len() == 0 {
        Err(ErrorV::InvalidFile)
    } else {
        rows_of(ls, split_from(ls[0], seq![';'], 0), 1)
    }
}

// ---------------------------------------------------------------------------
// Executable row state
// ---------------------------------------------------------------------------

struct RowState {
    number: Option<u32>,
    date: Option<Date>,
    aircraft_type: String,
    aircraft_id: String,
    pilot_name: String,
    copilot_name: String,
    num_passengers: u8,
    start_type: String,
    start_time: Option<Time>,
    landing_time: Option<Time>,
    flight_time: Duration,
    block_on_time: Option<Time>,
    block_off_time: Option<Time>,
    block_time: Option<Duration>,
    num_landings: u16,
    start_location: String,
    landing_location: String,
    remarks: String,
    distance: Option<String>,
    categories: Vec<String>,
}

impl View for RowState {
    type V = RowStateV;

    closed spec fn view(&self) -> RowStateV {
        RowStateV {
            number: match self.number {
                Some(v) => Some(v as int),
                None => None,
            },
            date: match self.date {
                Some(d) => Some(d@),
                None => None,
            },
            aircraft_type: self.aircraft_type@,
            aircraft_id: self.aircraft_id@,
            pilot_name: self.pilot_name@,
            copilot_name: self.copilot_name@,
            num_passengers: self.num_passengers as int,
            start_type: self.start_type@,
            start_time: match self.start_time {
                Some(t) => Some(t@),
                None => None,
            },
            landing_time: match self.landing_time {
                Some(t) => Some(t@),
                None => None,
            },
            flight_time: self.flight_time@,
            block_on_time: match self.block_on_time {
                Some(t) => Some(t@),
                None => None,
            },
            block_off_time: match self.block_off_time {
                Some(t) => Some(t@),
                None => None,
            },
            block_time: match self.block_time {
                Some(d) => Some(d@),
                None => None,
            },
            num_landings: self.num_landings as int,
            start_location: self.start_location@,
            landing_location: self.landing_location@,
            remarks: self.remarks@,
            distance: match self.distance {
                Some(s) => Some(s@),
                None => None,
            },
            categories: self.categories.deep_view(),
        }
    }
}

impl RowState {
    fn start() -> (r: RowState)
        ensures
            r@ == init_row_state(),
    {
        let r = RowState {
            number: None,
            date: None,
            aircraft_type: String::new(),
            aircraft_id: String::new(),
            pilot_name: String::new(),
            copilot_name: String::new(),
            num_passengers: 0,
            start_type: String::new(),
            start_time: None,
            landing_time: None,
            flight_time: Duration::zero(),
            block_on_time: None,
            block_off_time: None,
            block_time: None,
            num_landings: 1,
            start_location: String::new(),
            landing_location: String::new(),
            remarks: String::new(),
            distance: None,
            categories: Vec::new(),
        };
        proof {
            assert(r.categories.deep_view() =~= Seq::<Seq<char>>::empty());
        }
        r
    }
}

// ---------------------------------------------------------------------------
// Executable decoding
// ---------------------------------------------------------------------------

/// Decode one data row under the given header keys.
#[verifier::loop_isolation(false)]
pub fn parse_flight(line: &str, header: &Vec<String>) -> (r: Result<Flight, Error>)
    ensures
        match r {
            Ok(f) => flight_of(line@, header.deep_view()) == Ok::<FlightV, ErrorV>(f@),
            Err(e) => flight_of(line@, header.deep_view()) == Err::<FlightV, ErrorV>(e@),
        },
{
    let ghost keys = header.deep_view();
    let n: usize = line.unicode_len();
    let fields = split_all_char(line, n, ';');
    let ghost vals = fields.deep_view();
    if fields.len() != header.len() {
        return Err(Error::InvalidFile);
    }
    let mut st = RowState::start();
    let mut i: usize = 0;
    while i < header.len()
        invariant
            0 <= i <= header.len(),
            header.len() == fields.len(),
            fold_cols(keys, vals, 0, init_row_state()) == fold_cols(keys, vals, i as int, st@),
        decreases header.len() - i,
    {
        let ghost st0 = st@;
        proof {
            assert(keys[i as int] == header@[i as int]@);
            assert(vals[i as int] == fields@[i as int]@);
        }
        let value: &String = &fields[i];
        match col_key_for(header[i].as_str()) {
            ColKey::Number => {
                match parse_uint(value.as_str(), 4294967295) {
                    None => {
                        return Err(Error::InvalidFile);
                    },
                    Some(v) => {
                        st.number = Some(v as u32);
                    },
                }
            },
            ColKey::DateKey => {
                match parse_date(value.as_str()) {
                    Err(e) => {
                        return Err(e);
                    },
                    Ok(d) => {
                        st.date = Some(d);
                    },
                }
            },
            ColKey::AircraftType => {
                st.aircraft_type = value.clone();
            },
            ColKey::AircraftId => {
                st.aircraft_id = value.clone();
            },
            ColKey::PilotName => {
                st.pilot_name = value.clone();
            },
            ColKey::CopilotName => {
                st.copilot_name = value.clone();
            },
            ColKey::Passengers => {
                match parse_uint(value.as_str(), 255) {
                    None => {
                        return Err(Error::InvalidFile);
                    },
                    Some(v) => {
                        st.num_passengers = v as u8;
                    },
                }
            },
            ColKey::StartType => {
                st.start_type = value.clone();
            },
            ColKey::StartTime => {
                match parse_time(value.as_str()) {
                    Err(e) => {
                        return Err(e);
                    },
                    Ok(t) => {
                        st.start_time = Some(t);
                    },
                }
            },
            ColKey::LandingTime => {
                match parse_time(value.as_str()) {
                    Err(e) => {
                        return Err(e);
                    },
                    Ok(t) => {
                        st.landing_time = Some(t);
                    },
                }
            },
            ColKey::FlightTime => {
                match parse_duration(value.as_str()) {
                    Err(e) => {
                        return Err(e);
                    },
                    Ok(d) => {
                        st.flight_time = d;
                    },
                }
            },
            ColKey::BlockOn => {
                match parse_time(value.as_str()) {
                    Err(e) => {
                        return Err(e);
                    },
                    Ok(t) => {
                        st.block_on_time = Some(t);
                    },
                }
            },
            ColKey::BlockOff => {
                match parse_time(value.as_str()) {
                    Err(e) => {
                        return Err(e);
                    },
                    Ok(t) => {
                        st.block_off_time = Some(t);
                    },
                }
            },
            ColKey::BlockTime => {
                match parse_duration(value.as_str()) {
                    Err(e) => {
                        return Err(e);
                    },
                    Ok(d) => {
                        st.block_time = Some(d);
                    },
                }
            },
            ColKey::Landings => {
                match parse_uint(value.as_str(), 65535) {
                    None => {
                        return Err(Error::InvalidFile);
                    },
                    Some(v) => {
                        st.num_landings = v as u16;
                    },
                }
            },
            ColKey::StartLocation => {
                st.start_location = value.clone();
            },
            ColKey::LandingLocation => {
                st.landing_location = value.clone();
            },
            ColKey::Remarks => {
                st.remarks = value.clone();
            },
            ColKey::Distance => {
                if value.as_str().unicode_len() > 0 {
                    if !is_float_token(value.as_str()) {
                        return Err(Error::InvalidFile);
                    }
                    st.distance = Some(value.clone());
                }
            },
            ColKey::Categories => {
                let vn: usize = value.as_str().unicode_len();
                let toks = split_all_char(value.as_str(), vn, '/');
                st.categories = keep_nonempty_vec(&toks);
            },
            ColKey::Unknown => {},
        }
        proof {
            assert(apply_col(st0, keys[i as int], vals[i as int]) == Ok::<RowStateV, ErrorV>(st@));
        }
        i = i + 1;
    }
    let RowState {
        number,
        date,
        aircraft_type,
        aircraft_id,
        pilot_name,
        copilot_name,
        num_passengers,
        start_type,
        start_time,
        landing_time,
        flight_time,
        block_on_time,
        block_off_time,
        block_time,
        num_landings,
        start_location,
        landing_location,
        remarks,
        distance,
        categories,
    } = st;
    let date = match date {
        None => {
            return Err(Error::InvalidFile);
        },
        Some(d) => d,
    };
    let start_time = match start_time {
        None => {
            return Err(Error::InvalidFile);
        },
        Some(t) => t,
    };
    let landing_time = match landing_time {
        None => {
            return Err(Error::InvalidFile);
        },
        Some(t) => t,
    };
    Ok(
        Flight {
            number,
            date,
            aircraft_type,
            aircraft_id,
            pilot_name,
            copilot_name,
            num_passengers,
            start_type,
            start_time,
            landing_time,
            flight_time,
            block_on_time,
            block_off_time,
            block_time,
            num_landings,
            start_location,
            landing_location,
            remarks,
            distance,
            categories,
        },
    )
}

/// Decode a whole table: header row first, then one flight per non-empty
/// data row, in order.
#[verifier::loop_isolation(false)]
pub fn parse_flights(content: &str) -> (r: Result<Vec<Flight>, Error>)
    ensures
        match r {
            Ok(fs) => flights_of(content@) == Ok::<Seq<FlightV>, ErrorV>(fs.deep_view()),
            Err(e) => flights_of(content@) == Err::<Seq<FlightV>, ErrorV>(e@),
        },
{
    let n: usize = content.unicode_len();
    let ls = lines_of(content, n);
    let ghost lsv = ls.deep_view();
    if ls.len() == 0 {
        return Err(Error::InvalidFile);
    }
    let hn: usize = ls[0].as_str().unicode_len();
    let header = split_all_char(ls[0].as_str(), hn, ';');
    let ghost keys = header.deep_view();
    proof {
        assert(lsv[0] == ls@[0]@);
    }
    let mut out: Vec<Flight> = Vec::new();
    let mut i: usize = 1;
    while i < ls.len()
        invariant
            1 <= i <= ls.len(),
            match rows_of(lsv, keys, i as int) {
                Ok(rest) => rows_of(lsv, keys, 1) == Ok::<Seq<FlightV>, ErrorV>(
                    out.deep_view() + rest,
                ),
                Err(e) => rows_of(lsv, keys, 1) == Err::<Seq<FlightV>, ErrorV>(e),
            },
        decreases ls.len() - i,
    {
        let ghost prev = out.deep_view();
        proof {
            assert(lsv[i as int] == ls@[i as int]@);
        }
        let line: &String = &ls[i];
        if line.as_str().unicode_len() > 0 {
            match parse_flight(line.as_str(), &header) {
                Err(e) => {
                    return Err(e);
                },
                Ok(f) => {
                    out.push(f);
                    proof {
                        assert(out.deep_view() =~= prev.push(f@));
                        if rows_of(lsv, keys, i + 1) is Ok {
                            let rest = rows_of(lsv, keys, i + 1)->Ok_0;
                            assert(rows_of(lsv, keys, i as int) == Ok::<Seq<FlightV>, ErrorV>(
                                seq![f@] + rest,
                            ));
                            assert(prev + (seq![f@] + rest) =~= out.deep_view() + rest);
                        }
                    }
                },
            }
        }
        i = i + 1;
    }
    proof {
        assert(rows_of(lsv, keys, i as int) == Ok::<Seq<FlightV>, ErrorV>(Seq::empty()));
        assert(out.deep_view() + Seq::<FlightV>::empty() =~= out.deep_view());
    }
    Ok(out)
}

} // verus!
