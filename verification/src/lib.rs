//! Decoder for a legacy flight-logbook export: a line-oriented, semicolon-
//! delimited text format, version 4. The decoder checks the version line,
//! splits the document into a header region and flight-log segments, reads
//! the marker-prefixed list lines, and decodes the flight table with its
//! dual-spelling column keys. Every decoding step is specified on character
//! sequences and proved; only the fixed-codepage byte decoding is taken on
//! trust from an outside crate.

use vstd::prelude::*;

pub mod error;
pub mod laws;
pub mod log;
pub mod num;
pub mod scalars;
pub mod settings;
pub mod table;
pub mod text;

use crate::error::{Error, ErrorV};
use crate::log::{flight_log_of, rfind_prefix, FlightLog, FlightLogV};
use crate::settings::{general_settings_of, GeneralSettings, GeneralSettingsV};
use crate::text::{find_char, find_pat, lines_of, spec_lines, spec_trim, split_all_pat,
    split_from, split_once_at, str_has_prefix, sub_string, trimmed_bounds};

verus! {

// ---------------------------------------------------------------------------
// The document
// ---------------------------------------------------------------------------

/// The mathematical form of a whole decoded document.
pub struct FileV {
    pub general_settings: Option<GeneralSettingsV>,
    pub flight_logs: Seq<FlightLogV>,
}

/// A fully decoded logbook export: the optional general settings and the
/// flight logs, in document order.
#[derive(Debug, Clone)]
pub struct File {
    pub general_settings: Option<GeneralSettings>,
    pub flight_logs: Vec<FlightLog>,
}

impl View for File {
    type V = FileV;

    open spec fn view(&self) -> FileV {
        FileV {
            general_settings: match self.general_settings {
                Some(gs) => Some(gs@),
                None => None,
            },
            flight_logs: self.flight_logs.deep_view(),
        }
    }
}

/// The flight-log segments from position `i` on, each decoded; the first
/// failure aborts the whole parse.
pub open spec fn logs_from(segs: Seq<Seq<char>>, i: int) -> Result<Seq<FlightLogV>, ErrorV>
    decreases segs.len() - i,
{
    if i < 0 || i >= segs.len() {
        Ok(Seq::empty())
    } else {
        match flight_log_of(segs[i]) {
            Err(e) => Err(e),
            Ok(l) => match logs_from(segs, i + 1) {
                Err(e) => Err(e),
                Ok(rest) => Ok(seq![l] + rest),
            },
        }
    }
}

/// What a whole document means. The first line must be the version token
/// `4` up to surrounding white space; the rest splits at the first line
/// break followed by a colon into the header region and the flight-log
/// region, and the latter splits at every such delimiter into one segment
/// per flight log. The last header line carrying the general-settings
/// marker, if any, yields the general settings.
pub open spec fn file_of(s: Seq<char>) -> Result<FileV, ErrorV> {
    match split_once_at(s, seq!['\n']) {
        None => Err(ErrorV::InvalidFile),
        Some((version, rest)) => {
            if spec_trim(version) != seq!['4'] {
                Err(ErrorV::UnsupportedFileVersion(version))
            } else {
                match split_once_at(rest, seq!['\n', ':']) {
                    None => Err(ErrorV::InvalidFile),
                    Some((header, logs_text)) => {
                        let hl = spec_lines(header);
                        let gs = match rfind_prefix(hl, "[GenSettings]"@) {
                            None => None,
                            Some(i) => Some(
                                general_settings_of(hl[i].skip("[GenSettings]"@.len() as int)),
                            ),
                        };
                        match logs_from(split_from(logs_text, seq!['\n', ':'], 0), 0) {
                            Err(e) => Err(e),
                            Ok(logs) => Ok(FileV { general_settings: gs, flight_logs: logs }),
                        }
                    },
                }
            }
        },
    }
}

// ---------------------------------------------------------------------------
// The trusted byte-to-text step
// ---------------------------------------------------------------------------

/// The text that the fixed legacy codepage decoding yields for these bytes;
/// a function of the bytes alone.
pub uninterp spec fn windows_1252_of(bytes: Seq<u8>) -> Seq<char>;

/// Relies on encoding_rs's `Encoding::decode` on `WINDOWS_1252`: it decodes
/// the complete input to text, substituting undecodable bytes; input that
/// starts with a UTF-8 or UTF-16 byte-order mark is instead decoded in that
/// encoding. Either way the result depends on the input bytes alone. It may
/// panic only when the size calculation for its backing buffer overflows,
/// which the length bound rules out.
#[verifier::external_body]
fn decode_windows_1252(bytes: &[u8]) -> (r: String)
    requires
        bytes@.len() <= usize::MAX / 4,
    ensures
        r@ == windows_1252_of(bytes@),
{
    let (cow, _encoding, _had_errors) = encoding_rs::WINDOWS_1252.decode(bytes);
    cow.into_owned()
}

// ---------------------------------------------------------------------------
// Executable decoding
// ---------------------------------------------------------------------------

/// The general settings of the last header line carrying their marker.
#[verifier::loop_isolation(false)]
fn find_gen_settings(lines: &Vec<String>) -> (r: Option<GeneralSettings>)
    ensures
        match rfind_prefix(lines.deep_view(), "[GenSettings]"@) {
            None => r is None,
            Some(i) => r is Some && (r->0)@ == general_settings_of(
                lines.deep_view()[i].skip("[GenSettings]"@.len() as int),
            ),
        },
{
    let ghost full = lines.deep_view();
    proof {
        assert(full.take(lines.len() as int) =~= full);
    }
    let mut i: usize = lines.len();
    while i > 0
        invariant
            0 <= i <= lines.len(),
            rfind_prefix(full, "[GenSettings]"@) == rfind_prefix(
                full.take(i as int),
                "[GenSettings]"@,
            ),
        decreases i,
    {
        proof {
            assert(full.take(i as int).last() == full[i - 1]);
            assert(full[i - 1] == lines@[i - 1]@);
            assert(full.take(i as int).drop_last() =~= full.take(i - 1));
        }
        let line: &String = &lines[i - 1];
        if str_has_prefix(line.as_str(), "[GenSettings]") {
            let nn: usize = line.as_str().unicode_len();
            let pl: usize = "[GenSettings]".unicode_len();
            let content = sub_string(line.as_str(), pl, nn);
            proof {
                assert(content@ =~= full[i - 1].skip("[GenSettings]"@.len() as int));
            }
            return Some(GeneralSettings::from_str(content.as_str()));
        }
        i = i - 1;
    }
    proof {
        assert(full.take(0) =~= Seq::<Seq<char>>::empty());
    }
    None
}

impl File {
    /// Decode a whole document from text.
    #[verifier::loop_isolation(false)]
    pub fn from_str(content: &str) -> (r: Result<File, Error>)
        ensures
            match r {
                Ok(f) => file_of(content@) == Ok::<FileV, ErrorV>(f@),
                Err(e) => file_of(content@) == Err::<FileV, ErrorV>(e@),
            },
    {
        let n: usize = content.unicode_len();
        let nl: usize = match find_char(content, n, 0, '\n') {
            None => {
                return Err(Error::InvalidFile);
            },
            Some(i) => i,
        };
        let version = sub_string(content, 0, nl);
        let rest = sub_string(content, nl + 1, n);
        proof {
            assert(version@ =~= content@.take(nl as int));
            assert(rest@ =~= content@.skip(nl + 1));
        }
        let (a, b) = trimmed_bounds(version.as_str(), nl);
        let version_ok: bool = b - a == 1 && version.as_str().get_char(a) == '4';
        proof {
            if version_ok {
                assert(version@.subrange(a as int, b as int) =~= seq!['4']);
            } else {
                if spec_trim(version@) == seq!['4'] {
                    assert(version@.subrange(a as int, b as int).len() == 1);
                    assert(version@.subrange(a as int, b as int)[0] == '4');
                    assert(version@[a as int] == '4');
                }
            }
        }
        if !version_ok {
            return Err(Error::UnsupportedFileVersion(version));
        }
        let rn: usize = n - nl - 1;
        let mut sep: Vec<char> = Vec::new();
        sep.push('\n');
        sep.push(':');
        proof {
            assert(sep@ =~= seq!['\n', ':']);
        }
        let cut: usize = match find_pat(rest.as_str(), rn, 0, &sep) {
            None => {
                return Err(Error::InvalidFile);
            },
            Some(i) => i,
        };
        let header = sub_string(rest.as_str(), 0, cut);
        let logs_text = sub_string(rest.as_str(), cut + 2, rn);
        proof {
            assert(header@ =~= rest@.take(cut as int));
            assert(logs_text@ =~= rest@.skip(cut + 2));
        }
        let hl = lines_of(header.as_str(), cut);
        let general_settings = find_gen_settings(&hl);
        let segs = split_all_pat(logs_text.as_str(), rn - cut - 2, &sep);
        let ghost segv = segs.deep_view();
        let mut flight_logs: Vec<FlightLog> = Vec::new();
        let mut i: usize = 0;
        while i < segs.len()
            invariant
                0 <= i <= segs.len(),
                match logs_from(segv, i as int) {
                    Ok(tail) => logs_from(segv, 0) == Ok::<Seq<FlightLogV>, ErrorV>(
                        flight_logs.deep_view() + tail,
                    ),
                    Err(e) => logs_from(segv, 0) == Err::<Seq<FlightLogV>, ErrorV>(e),
                },
            decreases segs.len() - i,
        {
            let ghost prev = flight_logs.deep_view();
            proof {
                assert(segv[i as int] == segs@[i as int]@);
            }
            match FlightLog::from_str(segs[i].as_str()) {
                Err(e) => {
                    return Err(e);
                },
                Ok(log) => {
                    flight_logs.push(log);
                    proof {
                        assert(flight_logs.deep_view() =~= prev.push(log@));
                        if logs_from(segv, i + 1) is Ok {
                            let tail = logs_from(segv, i + 1)->Ok_0;
                            assert(logs_from(segv, i as int) == Ok::<Seq<FlightLogV>, ErrorV>(
                                seq![log@] + tail,
                            ));
                            assert(prev + (seq![log@] + tail) =~= flight_logs.deep_view() + tail);
                        }
                    }
                },
            }
            i = i + 1;
        }
        proof {
            assert(logs_from(segv, i as int) == Ok::<Seq<FlightLogV>, ErrorV>(Seq::empty()));
            assert(flight_logs.deep_view() + Seq::<FlightLogV>::empty() =~= flight_logs.deep_view());
        }
        Ok(File { general_settings, flight_logs })
    }

    /// Decode a whole document from its raw bytes: the bytes are first read
    /// as text through the fixed legacy codepage, undecodable bytes
    /// substituted, and the text then decoded as `from_str` does.
    pub fn from_slice(bytes: &[u8]) -> (r: Result<File, Error>)
        requires
            bytes@.len() <= usize::MAX / 4,
        ensures
            match r {
                Ok(f) => file_of(windows_1252_of(bytes@)) == Ok::<FileV, ErrorV>(f@),
                Err(e) => file_of(windows_1252_of(bytes@)) == Err::<FileV, ErrorV>(e@),
            },
    {
        let text = decode_windows_1252(bytes);
        File::from_str(text.as_str())
    }
}

} // verus!
