//! One flight log: a title line, the license settings, thirteen named list
//! lines, and the flight table behind the table-columns marker.

use vstd::prelude::*;
use crate::error::{Error, ErrorV};
use crate::settings::{license_settings_of, LicenseSettings, LicenseSettingsV};
use crate::table::{flights_of, parse_flights, Flight, FlightV};
use crate::text::{find_char, find_pat, has_prefix, keep_nonempty, keep_nonempty_vec, lines_of,
    spec_lines, split_all_char, split_from, split_once_at, str_has_prefix, sub_string};

verus! {

// ---------------------------------------------------------------------------
// Marker-prefixed list lines
// ---------------------------------------------------------------------------

/// The index of the last line carrying the prefix `p`, if any: a repeated
/// marker line is read with last-occurrence-wins semantics.
pub open spec fn rfind_prefix(lines: Seq<Seq<char>>, p: Seq<char>) -> Option<int>
    decreases lines.len(),
{
    if lines.len() == 0 {
        None
    } else if has_prefix(lines.last(), p) {
        Some(lines.len() - 1)
    } else {
        rfind_prefix(lines.drop_last(), p)
    }
}

pub proof fn lemma_rfind_prefix(lines: Seq<Seq<char>>, p: Seq<char>)
    ensures
        match rfind_prefix(lines, p) {
            Some(i) => 0 <= i < lines.len() && has_prefix(lines[i], p) && (forall|j: int|
                i < j < lines.len() ==> !has_prefix(lines[j], p)),
            None => forall|j: int| 0 <= j < lines.len() ==> !has_prefix(lines[j], p),
        },
    decreases lines.len(),
{
    if lines.len() > 0 && !has_prefix(lines.last(), p) {
        lemma_rfind_prefix(lines.drop_last(), p);
        assert(forall|j: int| 0 <= j < lines.len() - 1 ==> lines.drop_last()[j] == lines[j]);
    }
}

/// What a marker list means: take the last line carrying the prefix, strip
/// the prefix, split the rest on semicolons, and drop the empty tokens.
pub open spec fn find_list_at(lines: Seq<Seq<char>>, p: Seq<char>) -> Option<Seq<Seq<char>>> {
    match rfind_prefix(lines, p) {
        None => None,
        Some(i) => Some(keep_nonempty(split_from(lines[i].skip(p.len() as int), seq![';'], 0))),
    }
}

/// The list for a marker that may be absent: absent means empty, not an
/// error.
pub open spec fn list_or_empty(lines: Seq<Seq<char>>, p: Seq<char>) -> Seq<Seq<char>> {
    match find_list_at(lines, p) {
        None => Seq::empty(),
        Some(l) => l,
    }
}

/// Find the last line starting with `prefix` and decode its semicolon list,
/// empty tokens dropped.
#[verifier::loop_isolation(false)]
pub fn find_list(lines: &Vec<String>, prefix: &str) -> (r: Option<Vec<String>>)
    ensures
        match r {
            Some(v) => find_list_at(lines.deep_view(), prefix@) == Some(v.deep_view()),
            None => find_list_at(lines.deep_view(), prefix@) is None,
        },
{
    let ghost full = lines.deep_view();
    proof {
        assert(full.take(lines.len() as int) =~= full);
    }
    let mut i: usize = lines.len();
    while i > 0
        invariant
            0 <= i <= lines.len(),
            rfind_prefix(full, prefix@) == rfind_prefix(full.take(i as int), prefix@),
        decreases i,
    {
        proof {
            assert(full.take(i as int).last() == full[i - 1]);
            assert(full[i - 1] == lines@[i - 1]@);
            assert(full.take(i as int).drop_last() =~= full.take(i - 1));
        }
        let line: &String = &lines[i - 1];
        if str_has_prefix(line.as_str(), prefix) {
            let nn: usize = line.as_str().unicode_len();
            let pl: usize = prefix.unicode_len();
            let content = sub_string(line.as_str(), pl, nn);
            proof {
                assert(content@ =~= full[i - 1].skip(prefix@.len() as int));
            }
            let toks = split_all_char(content.as_str(), nn - pl, ';');
            let kept = keep_nonempty_vec(&toks);
            return Some(kept);
        }
        i = i - 1;
    }
    proof {
        assert(full.take(0) =~= Seq::<Seq<char>>::empty());
    }
    None
}

// ---------------------------------------------------------------------------
// The flight log
// ---------------------------------------------------------------------------

/// The mathematical form of one flight log.
pub struct FlightLogV {
    pub title: Seq<char>,
    pub license_settings: LicenseSettingsV,
    pub aircraft_ids: Seq<Seq<char>>,
    pub aircraft_types: Seq<Seq<char>>,
    pub copilots: Seq<Seq<char>>,
    pub locations: Seq<Seq<char>>,
    pub column_widths: Seq<Seq<char>>,
    pub time_categories: Seq<Seq<char>>,
    pub categories: Seq<Seq<char>>,
    pub contest_categories: Seq<Seq<char>>,
    pub license_categories: Seq<Seq<char>>,
    pub license_time_categories: Seq<Seq<char>>,
    pub license_dates: Seq<Seq<char>>,
    pub acc_licenses: Seq<Seq<char>>,
    pub opt_conditions: Seq<Seq<char>>,
    pub flights: Seq<FlightV>,
}

/// One named logbook: title, license settings, thirteen named string lists
/// (each empty where its marker line is absent), and the decoded flights.
#[derive(Debug, Clone)]
pub struct FlightLog {
    pub title: String,
    pub license_settings: LicenseSettings,
    pub aircraft_ids: Vec<String>,
    pub aircraft_types: Vec<String>,
    pub copilots: Vec<String>,
    pub locations: Vec<String>,
    pub column_widths: Vec<String>,
    pub time_categories: Vec<String>,
    pub categories: Vec<String>,
    pub contest_categories: Vec<String>,
    pub license_categories: Vec<String>,
    pub license_time_categories: Vec<String>,
    pub license_dates: Vec<String>,
    pub acc_licenses: Vec<String>,
    pub opt_conditions: Vec<String>,
    pub flights: Vec<Flight>,
}

impl View for FlightLog {
    type V = FlightLogV;

    open spec fn view(&self) -> FlightLogV {
        FlightLogV {
            title: self.title@,
            license_settings: self.license_settings@,
            aircraft_ids: self.aircraft_ids.deep_view(),
            aircraft_types: self.aircraft_types.deep_view(),
            copilots: self.copilots.deep_view(),
            locations: self.locations.deep_view(),
            column_widths: self.column_widths.deep_view(),
            time_categories: self.time_categories.deep_view(),
            categories: self.categories.deep_view(),
            contest_categories: self.contest_categories.deep_view(),
            license_categories: self.license_categories.deep_view(),
            license_time_categories: self.license_time_categories.deep_view(),
            license_dates: self.license_dates.deep_view(),
            acc_licenses: self.acc_licenses.deep_view(),
            opt_conditions: self.opt_conditions.deep_view(),
            flights: self.flights.deep_view(),
        }
    }
}

impl DeepView for FlightLog {
    type V = FlightLogV;

    open spec fn deep_view(&self) -> FlightLogV {
        self.view()
    }
}

/// What one flight-log segment means. The segment splits at the first
/// table-columns marker; the text before it holds the title line, the
/// license-settings line, and the marker lists; the text after it is the
/// flight table.
pub open spec fn flight_log_of(s: Seq<char>) -> Result<FlightLogV, ErrorV> {
    match split_once_at(s, "[TableCols]"@) {
        None => Err(ErrorV::InvalidFile),
        Some((header, csv)) => {
            let hl = spec_lines(header);
            if hl.len() == 0 {
                Err(ErrorV::InvalidFile)
            } else {
                let title = match split_once_at(hl[0], seq![';']) {
                    Some((t, rest)) => t,
                    None => hl[0],
                };
                if hl.len() < 2 || !has_prefix(hl[1], "[LicSettings]"@) {
                    Err(ErrorV::MissingLicSettings)
                } else {
                    match license_settings_of(hl[1].skip("[LicSettings]"@.len() as int)) {
                        Err(e) => Err(e),
                        Ok(lic) => {
                            let rest = hl.skip(2);
                            match flights_of(csv) {
                                Err(e) => Err(e),
                                Ok(fl) => Ok(
                                    FlightLogV {
                                        title,
                                        license_settings: lic,
                                        aircraft_ids: list_or_empty(rest, "[AId]"@),
                                        aircraft_types: list_or_empty(rest, "[AType]"@),
                                        copilots: list_or_empty(rest, "[CoPilot]"@),
                                        locations: list_or_empty(rest, "[Loc]"@),
                                        column_widths: list_or_empty(rest, "[ColWidth]"@),
                                        time_categories: list_or_empty(rest, "[CatTime]"@),
                                        categories: list_or_empty(rest, "[Category]"@),
                                        contest_categories: list_or_empty(rest, "[Contest]"@),
                                        license_categories: list_or_empty(rest, "[LicenseCat]"@),
                                        license_time_categories: list_or_empty(
                                            rest,
                                            "[LicenseTimeCat]"@,
                                        ),
                                        license_dates: list_or_empty(rest, "[LicenseDates]"@),
                                        acc_licenses: list_or_empty(rest, "[AccLicenses]"@),
                                        opt_conditions: list_or_empty(rest, "[OptConditions]"@),
                                        flights: fl,
                                    },
                                ),
                            }
                        },
                    }
                }
            }
        },
    }
}

/// The lines of `v` from position `k` on, as a fresh vector.
#[verifier::loop_isolation(false)]
fn tail_from(v: &Vec<String>, k: usize) -> (r: Vec<String>)
    requires
        k <= v.len(),
    ensures
        r.deep_view() == v.deep_view().skip(k as int),
{
    let mut out: Vec<String> = Vec::new();
    let mut i: usize = k;
    while i < v.len()
        invariant
            k <= i <= v.len(),
            out.deep_view() =~= v.deep_view().subrange(k as int, i as int),
        decreases v.len() - i,
    {
        let ghost prev = out.deep_view();
        let piece = v[i].clone();
        out.push(piece);
        proof {
            assert(v.deep_view()[i as int] == v@[i as int]@);
            assert(out.deep_view() =~= prev.push(v.deep_view()[i as int]));
            assert(out.deep_view() =~= v.deep_view().subrange(k as int, i + 1));
        }
        i = i + 1;
    }
    proof {
        assert(v.deep_view().subrange(k as int, v.len() as int) =~= v.deep_view().skip(k as int));
    }
    out
}

fn list_or_new(lines: &Vec<String>, prefix: &str) -> (r: Vec<String>)
    ensures
        r.deep_view() == list_or_empty(lines.deep_view(), prefix@),
{
    match find_list(lines, prefix) {
        Some(v) => v,
        None => {
            let out: Vec<String> = Vec::new();
            proof {
                assert(out.deep_view() =~= Seq::<Seq<char>>::empty());
            }
            out
        },
    }
}

impl FlightLog {
    /// Decode one flight-log segment.
    pub fn from_str(content: &str) -> (r: Result<FlightLog, Error>)
        ensures
            match r {
                Ok(log) => flight_log_of(content@) == Ok::<FlightLogV, ErrorV>(log@),
                Err(e) => flight_log_of(content@) == Err::<FlightLogV, ErrorV>(e@),
            },
    {
        let n: usize = content.unicode_len();
        let mut marker: Vec<char> = Vec::new();
        marker.push('[');
        marker.push('T');
        marker.push('a');
        marker.push('b');
        marker.push('l');
        marker.push('e');
        marker.push('C');
        marker.push('o');
        marker.push('l');
        marker.push('s');
        marker.push(']');
        proof {
            reveal_strlit("[TableCols]");
            assert(marker@ =~= "[TableCols]"@);
        }
        let split_pos: usize = match find_pat(content, n, 0, &marker) {
            None => {
                return Err(Error::InvalidFile);
            },
            Some(i) => i,
        };
        let header = sub_string(content, 0, split_pos);
        let csv = sub_string(content, split_pos + marker.len(), n);
        proof {
            assert(header@ =~= content@.take(split_pos as int));
            assert(csv@ =~= content@.skip(split_pos + "[TableCols]"@.len()));
        }
        let hl = lines_of(header.as_str(), split_pos);
        let ghost hlv = hl.deep_view();
        if hl.len() == 0 {
            return Err(Error::InvalidFile);
        }
        proof {
            assert(hlv[0] == hl@[0]@);
        }
        let t0: &String = &hl[0];
        let tn: usize = t0.as_str().unicode_len();
        let title: String = match find_char(t0.as_str(), tn, 0, ';') {
            Some(j) => {
                let t = sub_string(t0.as_str(), 0, j);
                proof {
                    assert(t@ =~= hlv[0].take(j as int));
                }
                t
            },
            None => t0.clone(),
        };
        if hl.len() < 2 {
            return Err(Error::MissingLicSettings);
        }
        proof {
            assert(hlv[1] == hl@[1]@);
        }
        let l1: &String = &hl[1];
        if !str_has_prefix(l1.as_str(), "[LicSettings]") {
            return Err(Error::MissingLicSettings);
        }
        let ln: usize = l1.as_str().unicode_len();
        let pl: usize = "[LicSettings]".unicode_len();
        let lrest = sub_string(l1.as_str(), pl, ln);
        proof {
            assert(lrest@ =~= hlv[1].skip("[LicSettings]"@.len() as int));
        }
        let license_settings = match LicenseSettings::from_str(lrest.as_str()) {
            Ok(l) => l,
            Err(e) => {
                return Err(e);
            },
        };
        let rest = tail_from(&hl, 2);
        let flights = match parse_flights(csv.as_str()) {
            Ok(f) => f,
            Err(e) => {
                return Err(e);
            },
        };
        Ok(
            FlightLog {
                title,
                license_settings,
                aircraft_ids: list_or_new(&rest, "[AId]"),
                aircraft_types: list_or_new(&rest, "[AType]"),
                copilots: list_or_new(&rest, "[CoPilot]"),
                locations: list_or_new(&rest, "[Loc]"),
                column_widths: list_or_new(&rest, "[ColWidth]"),
                time_categories: list_or_new(&rest, "[CatTime]"),
                categories: list_or_new(&rest, "[Category]"),
                contest_categories: list_or_new(&rest, "[Contest]"),
                license_categories: list_or_new(&rest, "[LicenseCat]"),
                license_time_categories: list_or_new(&rest, "[LicenseTimeCat]"),
                license_dates: list_or_new(&rest, "[LicenseDates]"),
                acc_licenses: list_or_new(&rest, "[AccLicenses]"),
                opt_conditions: list_or_new(&rest, "[OptConditions]"),
                flights,
            },
        )
    }
}

} // verus!
