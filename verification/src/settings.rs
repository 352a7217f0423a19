//! The two flat positional records of the format: the document-wide general
//! settings and the per-log license settings.

use vstd::prelude::*;
use crate::error::{Error, ErrorV};
use crate::num::{parse_uint, parses_as_uint, uint_val};
use crate::scalars::{date_of, duration_of, parse_date, parse_duration, Date, DateV, Duration};
use crate::text::{split_all_char, split_from};

verus! {

// ---------------------------------------------------------------------------
// General settings
// ---------------------------------------------------------------------------

/// The mathematical form of the general settings.
pub struct GeneralSettingsV {
    pub name: Seq<char>,
    pub road: Seq<char>,
    pub location: Seq<char>,
    pub pilot_name: Seq<char>,
}

/// Document-wide pilot and club metadata: four positional fields, missing
/// trailing fields defaulting to the empty string.
#[derive(Debug, Clone)]
pub struct GeneralSettings {
    pub name: String,
    pub road: String,
    pub location: String,
    pub pilot_name: String,
}

impl View for GeneralSettings {
    type V = GeneralSettingsV;

    open spec fn view(&self) -> GeneralSettingsV {
        GeneralSettingsV {
            name: self.name@,
            road: self.road@,
            location: self.location@,
            pilot_name: self.pilot_name@,
        }
    }
}

/// What a general-settings record means: the fields between the semicolons,
/// in order; the first field always exists, the rest default to empty.
pub open spec fn general_settings_of(s: Seq<char>) -> GeneralSettingsV {
    let parts = split_from(s, seq![';'], 0);
    GeneralSettingsV {
        name: parts[0],
        road: if parts.len() >= 2 {
            parts[1]
        } else {
            Seq::empty()
        },
        location: if parts.len() >= 3 {
            parts[2]
        } else {
            Seq::empty()
        },
        pilot_name: if parts.len() >= 4 {
            parts[3]
        } else {
            Seq::empty()
        },
    }
}

impl GeneralSettings {
    /// Decode a general-settings record. Never fails.
    pub fn from_str(content: &str) -> (r: GeneralSettings)
        ensures
            r@ == general_settings_of(content@),
    {
        let n: usize = content.unicode_len();
        let parts = split_all_char(content, n, ';');
        proof {
            assert(parts.deep_view().len() == parts@.len());
            assert(parts.deep_view()[0] == parts@[0]@);
            if parts@.len() >= 2 {
                assert(parts.deep_view()[1] == parts@[1]@);
            }
            if parts@.len() >= 3 {
                assert(parts.deep_view()[2] == parts@[2]@);
            }
            if parts@.len() >= 4 {
                assert(parts.deep_view()[3] == parts@[3]@);
            }
        }
        let name = parts[0].clone();
        let road = if parts.len() >= 2 {
            parts[1].clone()
        } else {
            String::new()
        };
        let location = if parts.len() >= 3 {
            parts[2].clone()
        } else {
            String::new()
        };
        let pilot_name = if parts.len() >= 4 {
            parts[3].clone()
        } else {
            String::new()
        };
        GeneralSettings { name, road, location, pilot_name }
    }
}

// ---------------------------------------------------------------------------
// License settings
// ---------------------------------------------------------------------------

/// The mathematical form of the license settings.
pub struct LicenseSettingsV {
    pub bf_starts: int,
    pub bf_time: int,
    pub license_since: Option<DateV>,
    pub id_prefix: Seq<char>,
    pub distance_unit: Seq<char>,
}

/// Licensing configuration of one flight log: a required start count, an
/// optional duration and date, and two optional strings, read from fixed
/// positions with reserved columns skipped between them.
#[derive(Debug, Clone)]
pub struct LicenseSettings {
    pub bf_starts: u32,
    pub bf_time: Duration,
    pub license_since: Option<Date>,
    pub id_prefix: String,
    pub distance_unit: String,
}

impl View for LicenseSettings {
    type V = LicenseSettingsV;

    open spec fn view(&self) -> LicenseSettingsV {
        LicenseSettingsV {
            bf_starts: self.bf_starts as int,
            bf_time: self.bf_time@,
            license_since: match self.license_since {
                Some(d) => Some(d@),
                None => None,
            },
            id_prefix: self.id_prefix@,
            distance_unit: self.distance_unit@,
        }
    }
}

/// What a license-settings record means. Field 0 is the required start
/// count; field 1 an optional duration, defaulting to zero; field 3 an
/// optional date; field 4 an optional prefix; field 8 an optional unit;
/// fields 2, 5, 6 and 7 are reserved and skipped.
pub open spec fn license_settings_of(s: Seq<char>) -> Result<LicenseSettingsV, ErrorV> {
    let parts = split_from(s, seq![';'], 0);
    if !parses_as_uint(parts[0], u32::MAX as int) {
        Err(ErrorV::InvalidLicSettings(s))
    } else if parts.len() >= 2 && duration_of(parts[1]) is None {
        Err(ErrorV::InvalidDuration(parts[1]))
    } else if parts.len() >= 4 && date_of(parts[3]) is None {
        Err(ErrorV::InvalidDate(parts[3]))
    } else {
        Ok(
            LicenseSettingsV {
                bf_starts: uint_val(parts[0]),
                bf_time: if parts.len() >= 2 {
                    duration_of(parts[1])->0
                } else {
                    0
                },
                license_since: if parts.len() >= 4 {
                    Some(date_of(parts[3])->0)
                } else {
                    None
                },
                id_prefix: if parts.len() >= 5 {
                    parts[4]
                } else {
                    Seq::empty()
                },
                distance_unit: if parts.len() >= 9 {
                    parts[8]
                } else {
                    Seq::empty()
                },
            },
        )
    }
}

impl LicenseSettings {
    /// Decode a license-settings record.
    pub fn from_str(content: &str) -> (r: Result<LicenseSettings, Error>)
        ensures
            match r {
                Ok(ls) => license_settings_of(content@) == Ok::<LicenseSettingsV, ErrorV>(ls@),
                Err(e) => license_settings_of(content@) == Err::<LicenseSettingsV, ErrorV>(e@),
            },
    {
        let n: usize = content.unicode_len();
        let parts = split_all_char(content, n, ';');
        proof {
            assert(parts.deep_view()[0] == parts@[0]@);
            if parts@.len() >= 2 {
                assert(parts.deep_view()[1] == parts@[1]@);
            }
            if parts@.len() >= 4 {
                assert(parts.deep_view()[3] == parts@[3]@);
            }
            if parts@.len() >= 5 {
                assert(parts.deep_view()[4] == parts@[4]@);
            }
            if parts@.len() >= 9 {
                assert(parts.deep_view()[8] == parts@[8]@);
            }
        }
        let bf_starts: u32 = match parse_uint(parts[0].as_str(), 4294967295) {
            None => {
                return Err(Error::InvalidLicSettings(content.to_owned()));
            },
            Some(v) => v as u32,
        };
        let bf_time: Duration = if parts.len() >= 2 {
            match parse_duration(parts[1].as_str()) {
                Ok(d) => d,
                Err(e) => {
                    return Err(e);
                },
            }
        } else {
            Duration::zero()
        };
        let license_since: Option<Date> = if parts.len() >= 4 {
            match parse_date(parts[3].as_str()) {
                Ok(d) => Some(d),
                Err(e) => {
                    return Err(e);
                },
            }
        } else {
            None
        };
        let id_prefix: String = if parts.len() >= 5 {
            parts[4].clone()
        } else {
            String::new()
        };
        let distance_unit: String = if parts.len() >= 9 {
            parts[8].clone()
        } else {
            String::new()
        };
        Ok(LicenseSettings { bf_starts, bf_time, license_since, id_prefix, distance_unit })
    }
}

} // verus!
