//! Choosing the audio input of the visualizer from the devices that ffmpeg's AVFoundation input
//! lists.
//!
//! The visualizer's meter and drawing work on floating-point samples and stay with the caller;
//! this module reads the device listing and picks the device that the configured name means.
use vstd::prelude::*;

use crate::text::{
    contains_exec, contains_seq, copy_range, last_occurrence, last_occurrence_exec, lines,
    lines_chars, lowercase_chars, occurs_at, string_from_chars, to_ascii_lowercase, to_chars, trim,
    trim_chars, views,
};

verus! {

broadcast use vstd::string::group_string_axioms;

/// The number of bar columns on each side of the visualizer for a configured number: between 6
/// and 30.
pub fn columns_per_side(configured: usize) -> (r: usize)
    ensures
        r == if configured < 6 {
            6
        } else if configured > 30 {
            30
        } else {
            configured
        },
{
    if configured < 6 {
        6
    } else if configured > 30 {
        30
    } else {
        configured
    }
}

/// The state after scanning the listing's lines: whether the scan is inside the list of audio
/// devices, and the device names found so far. A line that mentions `AVFoundation audio devices`
/// opens the audio list, one that mentions `AVFoundation video devices` closes it; inside it,
/// a line holding `] ` names the device written after its last `] `, trimmed, when that is not
/// empty.
pub open spec fn audio_scan(ls: Seq<Seq<char>>) -> (bool, Seq<Seq<char>>)
    decreases ls.len(),
{
    if ls.len() == 0 {
        (false, Seq::empty())
    } else {
        let (in_audio, devices) = audio_scan(ls.drop_last());
        let line = ls.last();
        if contains_seq(line, "AVFoundation audio devices"@) {
            (true, devices)
        } else if contains_seq(line, "AVFoundation video devices"@) {
            (false, devices)
        } else if !in_audio {
            (in_audio, devices)
        } else {
            match last_occurrence(line, "] "@) {
                None => (in_audio, devices),
                Some(i) => {
                    let name = trim(line.skip(i + 2));
                    if name.len() > 0 {
                        (in_audio, devices.push(name))
                    } else {
                        (in_audio, devices)
                    }
                },
            }
        }
    }
}

/// The audio devices that an AVFoundation device listing names, in order.
pub open spec fn audio_devices(listing: Seq<char>) -> Seq<Seq<char>> {
    audio_scan(lines(listing)).1
}

/// The views of a sequence of strings.
pub open spec fn string_views(v: Seq<String>) -> Seq<Seq<char>> {
    v.map_values(|s: String| s@)
}

/// Reads the audio device names from the listing that `ffmpeg -f avfoundation -list_devices
/// true` writes to its standard error.
pub fn parse_avfoundation_audio_devices(stderr: &str) -> (r: Vec<String>)
    ensures
        string_views(r@) == audio_devices(stderr@),
{
    proof {
        reveal_strlit("] ");
    }
    let chars = to_chars(stderr);
    let ls = lines_chars(chars.as_slice());
    let audio_marker = to_chars("AVFoundation audio devices");
    let video_marker = to_chars("AVFoundation video devices");
    let sep = to_chars("] ");
    let ghost all = lines(stderr@);
    let mut devices: Vec<String> = Vec::new();
    let mut in_audio = false;
    let mut k: usize = 0;
    assert(all.take(0) =~= Seq::<Seq<char>>::empty());
    while k < ls.len()
        invariant
            k <= ls.len(),
            views(ls@) == all,
            audio_marker@ == "AVFoundation audio devices"@,
            video_marker@ == "AVFoundation video devices"@,
            sep@ == "] "@,
            sep@.len() == 2,
            (in_audio, string_views(devices@)) == audio_scan(all.take(k as int)),
        decreases ls.len() - k,
    {
        let line = &ls[k];
        proof {
            assert(all[k as int] == line@);
            assert(all.take(k + 1).drop_last() =~= all.take(k as int));
            assert(all.take(k + 1).last() == line@);
        }
        if contains_exec(line.as_slice(), audio_marker.as_slice()) {
            in_audio = true;
        } else if contains_exec(line.as_slice(), video_marker.as_slice()) {
            in_audio = false;
        } else if in_audio {
            match last_occurrence_exec(line.as_slice(), sep.as_slice()) {
                Some(i) => {
                    assert(occurs_at(line@, i as int, sep@));
                    assert(i + 2 <= line.len());
                    let rest = copy_range(line.as_slice(), i + 2, line.len());
                    assert(rest@ =~= line@.skip(i + 2));
                    let name = trim_chars(rest.as_slice());
                    if name.len() > 0 {
                        let ghost before = string_views(devices@);
                        devices.push(string_from_chars(name.as_slice()));
                        assert(string_views(devices@) =~= before.push(name@));
                    }
                },
                None => {},
            }
        }
        k = k + 1;
    }
    assert(all.take(ls.len() as int) =~= all);
    devices
}

/// Whether a device name fits the lower-cased `pattern`: its lower-cased name equals it
/// (`exact`) or contains it.
pub open spec fn device_fits(name: Seq<char>, pattern: Seq<char>, exact: bool) -> bool {
    if exact {
        to_ascii_lowercase(name) == pattern
    } else {
        contains_seq(to_ascii_lowercase(name), pattern)
    }
}

/// The first device, from index `i` on, that fits the pattern.
pub open spec fn first_fit_from(devices: Seq<Seq<char>>, pattern: Seq<char>, exact: bool, i: int) -> Option<int>
    decreases devices.len() - i,
{
    if i < 0 || i >= devices.len() {
        None
    } else if device_fits(devices[i], pattern, exact) {
        Some(i)
    } else {
        first_fit_from(devices, pattern, exact, i + 1)
    }
}

/// The name of the first device that fits the pattern.
pub open spec fn first_fit(devices: Seq<Seq<char>>, pattern: Seq<char>, exact: bool) -> Option<Seq<char>> {
    match first_fit_from(devices, pattern, exact, 0) {
        Some(i) => Some(devices[i]),
        None => None,
    }
}

/// The device that a configured name means, among the listed devices: none when the trimmed
/// name is empty or no device is listed; else the first device whose name equals it when ASCII
/// case is ignored, else the first whose lower-cased name contains the lower-cased name, else,
/// when the lower-cased name mentions `multi-output`, the first whose lower-cased name contains
/// `blackhole`.
pub open spec fn resolved_device(hint: Seq<char>, devices: Seq<Seq<char>>) -> Option<Seq<char>> {
    let h = trim(hint);
    if h.len() == 0 || devices.len() == 0 {
        None
    } else {
        let hl = to_ascii_lowercase(h);
        match first_fit(devices, hl, true) {
            Some(name) => Some(name),
            None => match first_fit(devices, hl, false) {
                Some(name) => Some(name),
                None => if contains_seq(hl, "multi-output"@) {
                    first_fit(devices, "blackhole"@, false)
                } else {
                    None
                },
            },
        }
    }
}

/// The index of the first device that fits the lower-cased `pattern`.
fn find_device(devices: &Vec<String>, pattern: &[char], exact: bool) -> (r: Option<usize>)
    ensures
        match r {
            Some(i) => first_fit_from(string_views(devices@), pattern@, exact, 0) == Some(i as int)
                && i < devices@.len(),
            None => first_fit_from(string_views(devices@), pattern@, exact, 0) is None,
        },
{
    let ghost ds = string_views(devices@);
    let mut i: usize = 0;
    while i < devices.len()
        invariant
            i <= devices.len(),
            ds == string_views(devices@),
            first_fit_from(ds, pattern@, exact, 0) == first_fit_from(ds, pattern@, exact, i as int),
        decreases devices.len() - i,
    {
        let chars = to_chars(devices[i].as_str());
        let lower = lowercase_chars(chars.as_slice());
        assert(ds[i as int] == chars@);
        let fits = if exact {
            crate::text::chars_eq(lower.as_slice(), pattern)
        } else {
            contains_exec(lower.as_slice(), pattern)
        };
        if fits {
            return Some(i);
        }
        i = i + 1;
    }
    None
}

/// Picks the device that a configured name means, among the listed devices (see
/// [`resolved_device`]).
pub fn resolve_audio_device_name(device_hint: &str, devices: &Vec<String>) -> (r: Option<String>)
    ensures
        match r {
            Some(name) => resolved_device(device_hint@, string_views(devices@)) == Some(name@),
            None => resolved_device(device_hint@, string_views(devices@)) is None,
        },
{
    let hint_chars = to_chars(device_hint);
    let hint = trim_chars(hint_chars.as_slice());
    if hint.len() == 0 || devices.len() == 0 {
        return None;
    }
    let hint_lower = lowercase_chars(hint.as_slice());
    let ghost ds = string_views(devices@);
    if let Some(i) = find_device(devices, hint_lower.as_slice(), true) {
        return Some(devices[i].clone());
    }
    if let Some(i) = find_device(devices, hint_lower.as_slice(), false) {
        return Some(devices[i].clone());
    }
    let multi = to_chars("multi-output");
    if contains_exec(hint_lower.as_slice(), multi.as_slice()) {
        let blackhole = to_chars("blackhole");
        if let Some(i) = find_device(devices, blackhole.as_slice(), false) {
            return Some(devices[i].clone());
        }
    }
    None
}

proof fn lemma_first_fit_from_in_range(
    devices: Seq<Seq<char>>,
    pattern: Seq<char>,
    exact: bool,
    i: int,
)
    ensures
        first_fit_from(devices, pattern, exact, i) matches Some(k) ==> 0 <= k < devices.len()
            && device_fits(devices[k], pattern, exact),
    decreases devices.len() - i,
{
    if 0 <= i < devices.len() && !device_fits(devices[i], pattern, exact) {
        lemma_first_fit_from_in_range(devices, pattern, exact, i + 1);
    }
}

/// The device picked for a configured name is always one of the listed devices.
pub proof fn law_resolved_device_is_listed(hint: Seq<char>, devices: Seq<Seq<char>>)
    ensures
        resolved_device(hint, devices) matches Some(name) ==> devices.contains(name),
{
    let hl = to_ascii_lowercase(trim(hint));
    lemma_first_fit_from_in_range(devices, hl, true, 0);
    lemma_first_fit_from_in_range(devices, hl, false, 0);
    lemma_first_fit_from_in_range(devices, "blackhole"@, false, 0);
}

/// Every device name read from a listing is non-empty.
pub proof fn law_listed_names_not_empty(ls: Seq<Seq<char>>)
    ensures
        forall|k: int| 0 <= k < audio_scan(ls).1.len() ==> (#[trigger] audio_scan(ls).1[k]).len() > 0,
    decreases ls.len(),
{
    if ls.len() > 0 {
        law_listed_names_not_empty(ls.drop_last());
        let prev = audio_scan(ls.drop_last()).1;
        let now = audio_scan(ls).1;
        assert(now == prev || (now.len() == prev.len() + 1 && now.drop_last() == prev
            && now.last().len() > 0));
        assert forall|k: int| 0 <= k < now.len() implies (#[trigger] now[k]).len() > 0 by {
            if k < prev.len() {
                assert(now[k] == prev[k]);
            }
        }
    }
}

proof fn lemma_first_fit_from_is_first(
    devices: Seq<Seq<char>>,
    pattern: Seq<char>,
    exact: bool,
    i: int,
    k: int,
)
    requires
        0 <= i <= k < devices.len(),
        device_fits(devices[k], pattern, exact),
        forall|j: int| i <= j < k ==> !device_fits(#[trigger] devices[j], pattern, exact),
    ensures
        first_fit_from(devices, pattern, exact, i) == Some(k),
    decreases k - i,
{
    if i < k {
        lemma_first_fit_from_is_first(devices, pattern, exact, i + 1, k);
    }
}

proof fn lemma_first_fit_from_none(devices: Seq<Seq<char>>, pattern: Seq<char>, exact: bool, i: int)
    requires
        0 <= i,
        forall|j: int| i <= j < devices.len() ==> !device_fits(#[trigger] devices[j], pattern, exact),
    ensures
        first_fit_from(devices, pattern, exact, i) is None,
    decreases devices.len() - i,
{
    if i < devices.len() {
        lemma_first_fit_from_none(devices, pattern, exact, i + 1);
    }
}

/// Whether device `j`'s name equals the lower-cased name `hl` when ASCII case is ignored.
pub open spec fn names_device(devices: Seq<Seq<char>>, j: int, hl: Seq<char>) -> bool {
    to_ascii_lowercase(devices[j]) == hl
}

/// Whether device `j`'s lower-cased name contains `part`.
pub open spec fn mentions(devices: Seq<Seq<char>>, j: int, part: Seq<char>) -> bool {
    contains_seq(to_ascii_lowercase(devices[j]), part)
}

/// The device picked for a configured name is the first listed device that fits, by the first
/// rule that some device fits: with `hl` the trimmed name in lower case, a device whose name is
/// `hl` in any case; else a device whose lower-cased name contains `hl`; else, when `hl`
/// mentions `multi-output`, a device whose lower-cased name contains `blackhole`. No device is
/// picked when the trimmed name is empty or no device fits any rule.
pub proof fn law_resolved_device_is_first_fit(hint: Seq<char>, devices: Seq<Seq<char>>, k: int)
    ensures
        ({
            let hl = to_ascii_lowercase(trim(hint));
            let none_named = forall|j: int|
                0 <= j < devices.len() ==> !names_device(devices, j, hl);
            let none_mention = forall|j: int|
                0 <= j < devices.len() ==> !mentions(devices, j, hl);
            let multi = contains_seq(hl, "multi-output"@);
            &&& trim(hint).len() > 0 && 0 <= k < devices.len() && names_device(devices, k, hl)
                && (forall|j: int| 0 <= j < k ==> !names_device(devices, j, hl))
                ==> resolved_device(hint, devices) == Some(devices[k])
            &&& trim(hint).len() > 0 && 0 <= k < devices.len() && none_named && mentions(
                devices,
                k,
                hl,
            ) && (forall|j: int| 0 <= j < k ==> !mentions(devices, j, hl))
                ==> resolved_device(hint, devices) == Some(devices[k])
            &&& trim(hint).len() > 0 && 0 <= k < devices.len() && none_named && none_mention
                && multi && mentions(devices, k, "blackhole"@) && (forall|j: int|
                0 <= j < k ==> !mentions(devices, j, "blackhole"@))
                ==> resolved_device(hint, devices) == Some(devices[k])
            &&& trim(hint).len() == 0 || (none_named && none_mention && (!multi || forall|j: int|
                0 <= j < devices.len() ==> !mentions(devices, j, "blackhole"@)))
                ==> resolved_device(hint, devices) is None
        }),
{
    let hl = to_ascii_lowercase(trim(hint));
    let none_named = forall|j: int| 0 <= j < devices.len() ==> !names_device(devices, j, hl);
    let none_mention = forall|j: int| 0 <= j < devices.len() ==> !mentions(devices, j, hl);
    if trim(hint).len() > 0 {
        if 0 <= k < devices.len() && names_device(devices, k, hl) && (forall|j: int|
            0 <= j < k ==> !names_device(devices, j, hl)) {
            assert forall|j: int| 0 <= j < k implies !device_fits(#[trigger] devices[j], hl, true) by {
                assert(!names_device(devices, j, hl));
            }
            lemma_first_fit_from_is_first(devices, hl, true, 0, k);
        }
        if none_named {
            assert forall|j: int| 0 <= j < devices.len() implies !device_fits(
                #[trigger] devices[j],
                hl,
                true,
            ) by {
                assert(!names_device(devices, j, hl));
            }
            lemma_first_fit_from_none(devices, hl, true, 0);
            if 0 <= k < devices.len() && mentions(devices, k, hl) && (forall|j: int|
                0 <= j < k ==> !mentions(devices, j, hl)) {
                assert forall|j: int| 0 <= j < k implies !device_fits(
                    #[trigger] devices[j],
                    hl,
                    false,
                ) by {
                    assert(!mentions(devices, j, hl));
                }
                lemma_first_fit_from_is_first(devices, hl, false, 0, k);
            }
            if none_mention {
                assert forall|j: int| 0 <= j < devices.len() implies !device_fits(
                    #[trigger] devices[j],
                    hl,
                    false,
                ) by {
                    assert(!mentions(devices, j, hl));
                }
                lemma_first_fit_from_none(devices, hl, false, 0);
                if 0 <= k < devices.len() && mentions(devices, k, "blackhole"@) && (forall|j: int|
                    0 <= j < k ==> !mentions(devices, j, "blackhole"@)) {
                    assert forall|j: int| 0 <= j < k implies !device_fits(
                        #[trigger] devices[j],
                        "blackhole"@,
                        false,
                    ) by {
                        assert(!mentions(devices, j, "blackhole"@));
                    }
                    lemma_first_fit_from_is_first(devices, "blackhole"@, false, 0, k);
                }
                if forall|j: int| 0 <= j < devices.len() ==> !mentions(devices, j, "blackhole"@) {
                    assert forall|j: int| 0 <= j < devices.len() implies !device_fits(
                        #[trigger] devices[j],
                        "blackhole"@,
                        false,
                    ) by {
                        assert(!mentions(devices, j, "blackhole"@));
                    }
                    lemma_first_fit_from_none(devices, "blackhole"@, false, 0);
                }
            }
        }
    }
}

} // verus!
