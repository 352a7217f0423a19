//! General laws of the decoder, proved once over all inputs.

use vstd::prelude::*;
use crate::error::ErrorV;
use crate::log::rfind_prefix;
use crate::log::lemma_rfind_prefix;
use crate::table::{apply_col, col_key_of, flights_of, ColKey, FlightV, RowStateV};
use crate::text::{has_prefix, keep_nonempty, spec_lines};

verus! {

/// Empty tokens are dropped: every token kept from a split list is
/// non-empty. With the splitter's order, this is the rule for marker lists
/// and category lists alike.
pub proof fn lemma_kept_tokens_nonempty(ts: Seq<Seq<char>>, i: int)
    requires
        0 <= i < keep_nonempty(ts).len(),
    ensures
        keep_nonempty(ts)[i].len() > 0,
    decreases ts.len(),
{
    if ts.len() > 0 {
        if ts.first().len() > 0 {
            if i > 0 {
                lemma_kept_tokens_nonempty(ts.drop_first(), i - 1);
            }
        } else {
            lemma_kept_tokens_nonempty(ts.drop_first(), i);
        }
    }
}

/// A column with an unrecognized key contributes nothing to a row: the scan
/// state is unchanged and no error can arise from it.
pub proof fn lemma_unknown_key_ignored(st: RowStateV, k: Seq<char>, v: Seq<char>)
    requires
        col_key_of(k) == ColKey::Unknown,
    ensures
        apply_col(st, k, v) == Ok::<RowStateV, ErrorV>(st),
{
}

/// The two spellings of the aircraft-type column key decode any value to
/// identical row states: the alias resolves to the same semantic field.
pub proof fn lemma_aircraft_type_aliases(st: RowStateV, v: Seq<char>)
    ensures
        apply_col(st, "ATy"@, v) == apply_col(st, "Mus"@, v),
{
    reveal_strlit("ATy");
    reveal_strlit("Mus");
    reveal_strlit("Num");
    reveal_strlit("Dat");
    if "ATy"@ == "Num"@ {
        assert("ATy"@[0] == "Num"@[0]);
    }
    if "ATy"@ == "Dat"@ {
        assert("ATy"@[0] == "Dat"@[0]);
    }
    if "Mus"@ == "Num"@ {
        assert("Mus"@[0] == "Num"@[0]);
    }
    if "Mus"@ == "Dat"@ {
        assert("Mus"@[0] == "Dat"@[0]);
    }
    assert(col_key_of("ATy"@) == ColKey::AircraftType);
    assert(col_key_of("Mus"@) == ColKey::AircraftType);
}

/// A table holding only its header row decodes to an empty flight list, not
/// to an error.
pub proof fn lemma_header_only_table_is_empty(s: Seq<char>)
    requires
        spec_lines(s).len() == 1,
    ensures
        flights_of(s) == Ok::<Seq<FlightV>, ErrorV>(Seq::<FlightV>::empty()),
{
}

/// Last occurrence wins: wherever some line carries the marker, the line
/// chosen for it is a marked line at least as late — so with two marked
/// lines, the later one is used. This is the rule both for the
/// general-settings line and for every named list marker.
pub proof fn lemma_last_marker_wins(lines: Seq<Seq<char>>, p: Seq<char>, j: int)
    requires
        0 <= j < lines.len(),
        has_prefix(lines[j], p),
    ensures
        match rfind_prefix(lines, p) {
            Some(i) => j <= i < lines.len() && has_prefix(lines[i], p),
            None => false,
        },
{
    lemma_rfind_prefix(lines, p);
    match rfind_prefix(lines, p) {
        Some(i) => {
            if i < j {
                assert(!has_prefix(lines[j], p));
            }
        },
        None => {
            assert(!has_prefix(lines[j], p));
        },
    }
}

} // verus!
