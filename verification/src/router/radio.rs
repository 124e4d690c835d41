//! Radio presets.

use vstd::prelude::*;

use crate::config::RadioConfig;
use crate::text::chars::owned;
use crate::text::chars::to_chars;
use crate::text::chars::to_lower;
use crate::text::chars::to_text;
use crate::text::chars;
use crate::text::find::bytes_of;
use crate::text::find::starts_with;
use crate::text::find;
use crate::text::trim;

verus! {

broadcast use {vstd::seq::group_seq_axioms, vstd::slice::group_slice_axioms};

/// The station's name starts with the query or the other way round.
pub open spec fn names_station(q: Seq<char>, name: Seq<char>) -> bool {
    q.is_prefix_of(chars::lowered(name)) || chars::lowered(name).is_prefix_of(q)
}

/// The first station, from `i` on, that the query names.
pub open spec fn station_from(
    stations: Seq<(Seq<char>, String)>,
    q: Seq<char>,
    i: int,
) -> Option<(Seq<char>, Seq<char>)>
    decreases stations.len() - i,
{
    if i < 0 || i >= stations.len() {
        None
    } else if names_station(q, stations[i].0) {
        Some((stations[i].0, stations[i].1@))
    } else {
        station_from(stations, q, i + 1)
    }
}

/// The name and URL of the station that a query means: the one of that name,
/// else the first that the query names. A query of fewer than three bytes means
/// none.
pub open spec fn station_of(radio: RadioConfig, query: Seq<char>) -> Option<(Seq<char>, Seq<char>)> {
    let q = trim::trimmed(query);
    if find::byte_len(q) < 3 {
        None
    } else if radio.stations@.dom().contains(q) {
        Some((q, radio.stations@[q]@))
    } else {
        station_from(radio.stations.pairs(), q, 0)
    }
}

/// The name and URL of the station that a query means.
pub fn match_radio(radio: &RadioConfig, q: &str) -> (r: Option<(String, String)>)
    ensures
        match r {
            Some((name, url)) => station_of(*radio, q@) == Some((name@, url@)),
            None => station_of(*radio, q@) is None,
        },
{
    let all = to_chars(q);
    let want = trim::trim(all.as_slice());
    if bytes_of(want) < 3 {
        return None;
    }
    let name = to_text(want);
    match radio.stations.get(name.as_str()) {
        Some(url) => {
            return Some((name, url.clone()));
        },
        None => {},
    }
    let n: usize = radio.stations.len();
    let mut i: usize = 0;
    while i < n
        invariant
            i <= n,
            n == radio.stations.pairs().len(),
            station_of(*radio, q@) == station_from(radio.stations.pairs(), want@, i as int),
        decreases n - i,
    {
        let (name, url) = radio.stations.entry(i);
        let low = to_lower(to_chars(name).as_slice());
        if starts_with(low.as_slice(), want) || starts_with(want, low.as_slice()) {
            return Some((owned(name), url.clone()));
        }
        i = i + 1;
    }
    None
}

/// A preset is found by its full name.
pub proof fn law_station_by_name(radio: RadioConfig, name: Seq<char>)
    requires
        radio.stations@.dom().contains(name),
        trim::trimmed(name) == name,
        find::byte_len(name) >= 3,
    ensures
        station_of(radio, name) == Some((name, radio.stations@[name]@)),
{
}

} // verus!
