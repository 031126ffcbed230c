//! Device selection: which capture devices a mute decision applies to.
//!
//! A configured filter selects by substring of the human-readable
//! description (byte-wise, case-sensitive). Without a filter every device is
//! selected except the known loopback device, recognized by an
//! ASCII-case-insensitive substring of its description.

use vstd::prelude::*;

verus! {

/// A capture device as the actuator sees it: its index at the audio server,
/// its human-readable description, and whether it has an active port.
pub struct DeviceInfo {
    pub index: u32,
    pub description: Vec<u8>,
    pub active_port: bool,
}

/// The optional substring selecting target devices; absent means all
/// devices except the known loopback device.
pub struct DeviceFilter {
    pub needle: Option<Vec<u8>>,
}

impl DeviceFilter {
    pub open spec fn spec_needle(self) -> Option<Seq<u8>> {
        match self.needle {
            Some(v) => Some(v@),
            None => None,
        }
    }
}

/// Why a configured filter was rejected at startup in the strict variant.
#[derive(Clone, Copy, Debug, PartialEq, Eq)]
pub enum FilterError {
    /// The filter matches no device description.
    NoMatch,
    /// The filter matches more than one device description.
    Ambiguous,
}

/// `needle` occurs in `hay` starting at position `i`.
pub open spec fn is_sub_at(hay: Seq<u8>, needle: Seq<u8>, i: int) -> bool {
    0 <= i && i + needle.len() <= hay.len() && hay.subrange(i, i + needle.len()) == needle
}

/// `needle` occurs somewhere in `hay`.
pub open spec fn contains_sub(hay: Seq<u8>, needle: Seq<u8>) -> bool {
    exists|i: int| is_sub_at(hay, needle, i)
}

/// The ASCII-lower-case image of one byte.
pub open spec fn lower_byte(b: u8) -> u8 {
    if 65 <= b <= 90 {
        (b + 32) as u8
    } else {
        b
    }
}

/// The ASCII-lower-case image of a byte sequence.
pub open spec fn lower_bytes(s: Seq<u8>) -> Seq<u8> {
    s.map_values(|b: u8| lower_byte(b))
}

/// The description substring that marks the loopback device: the bytes of
/// the lower-case words "easy effects".
pub open spec fn loopback_needle() -> Seq<u8> {
    seq![101u8, 97u8, 115u8, 121u8, 32u8, 101u8, 102u8, 102u8, 101u8, 99u8, 116u8, 115u8]
}

/// Whether a description passes the filter: with a needle, a byte-wise
/// substring match; without one, anything but the loopback device.
pub open spec fn matches_filter(f: Option<Seq<u8>>, desc: Seq<u8>) -> bool {
    match f {
        Some(n) => contains_sub(desc, n),
        None => !contains_sub(lower_bytes(desc), loopback_needle()),
    }
}

/// `needle` matches `hay` at position `i`.
fn eq_at(hay: &Vec<u8>, needle: &Vec<u8>, i: usize) -> (r: bool)
    requires
        i + needle@.len() <= hay@.len(),
    ensures
        r == is_sub_at(hay@, needle@, i as int),
{
    let hay_len = hay.len();
    let mut j: usize = 0;
    while j < needle.len()
        invariant
            j <= needle@.len(),
            i + needle@.len() <= hay@.len(),
            hay_len == hay@.len(),
            forall|k: int| 0 <= k < j ==> hay@[i + k] == needle@[k],
        decreases needle@.len() - j,
    {
        if hay[i + j] != needle[j] {
            proof {
                assert(hay@.subrange(i as int, i as int + needle@.len() as int)[j as int]
                    == hay@[i + j]);
            }
            return false;
        }
        j = j + 1;
    }
    proof {
        assert(hay@.subrange(i as int, i as int + needle@.len() as int) =~= needle@);
    }
    true
}

/// Whether `needle` occurs anywhere in `hay`.
pub fn contains_needle(hay: &Vec<u8>, needle: &Vec<u8>) -> (r: bool)
    ensures
        r == contains_sub(hay@, needle@),
{
    if needle.len() > hay.len() {
        proof {
            assert(forall|k: int| !is_sub_at(hay@, needle@, k));
        }
        return false;
    }
    let end = hay.len() - needle.len();
    let mut i: usize = 0;
    loop
        invariant
            i <= end,
            end == hay@.len() - needle@.len(),
            needle@.len() <= hay@.len(),
            forall|k: int| 0 <= k < i ==> !is_sub_at(hay@, needle@, k),
        ensures
            forall|k: int| 0 <= k <= end ==> !is_sub_at(hay@, needle@, k),
        decreases end - i,
    {
        if eq_at(hay, needle, i) {
            return true;
        }
        if i == end {
            break;
        }
        i = i + 1;
    }
    proof {
        assert(forall|k: int| is_sub_at(hay@, needle@, k) ==> 0 <= k <= end);
    }
    false
}

/// The ASCII-lower-case image of a byte vector.
fn to_lower(s: &Vec<u8>) -> (r: Vec<u8>)
    ensures
        r@ == lower_bytes(s@),
{
    let mut r: Vec<u8> = Vec::new();
    let mut i: usize = 0;
    while i < s.len()
        invariant
            i <= s@.len(),
            r@.len() == i,
            forall|k: int| 0 <= k < i ==> r@[k] == lower_byte(s@[k]),
        decreases s@.len() - i,
    {
        let b = s[i];
        if 65 <= b && b <= 90 {
            r.push(b + 32);
        } else {
            r.push(b);
        }
        i = i + 1;
    }
    proof {
        assert(r@ =~= lower_bytes(s@));
    }
    r
}

/// The loopback marker as a vector, for the matching code.
fn loopback_needle_vec() -> (r: Vec<u8>)
    ensures
        r@ == loopback_needle(),
{
    let mut r: Vec<u8> = Vec::new();
    r.push(101);
    r.push(97);
    r.push(115);
    r.push(121);
    r.push(32);
    r.push(101);
    r.push(102);
    r.push(102);
    r.push(101);
    r.push(99);
    r.push(116);
    r.push(115);
    proof {
        assert(r@ =~= loopback_needle());
    }
    r
}

/// Whether the device with this description is a target of the filter.
pub fn device_matches(filter: &DeviceFilter, desc: &Vec<u8>) -> (r: bool)
    ensures
        r == matches_filter(filter.spec_needle(), desc@),
{
    match &filter.needle {
        Some(n) => contains_needle(desc, n),
        None => {
            let lowered = to_lower(desc);
            let marker = loopback_needle_vec();
            !contains_needle(&lowered, &marker)
        },
    }
}

/// How many of the given descriptions the filter matches.
pub open spec fn count_matches(f: Option<Seq<u8>>, descs: Seq<Seq<u8>>) -> nat
    decreases descs.len(),
{
    if descs.len() == 0 {
        0
    } else {
        (if matches_filter(f, descs[0]) {
            1nat
        } else {
            0nat
        }) + count_matches(f, descs.drop_first())
    }
}

/// Startup validation in the strict variant: a configured filter must match
/// exactly one of the present descriptions; zero is an error, and so is more
/// than one. An absent filter is always accepted.
pub fn validate_filter_strict(filter: &DeviceFilter, descriptions: &Vec<Vec<u8>>) -> (r: Result<
    (),
    FilterError,
>)
    ensures
        ({
            let n = count_matches(
                filter.spec_needle(),
                descriptions@.map_values(|d: Vec<u8>| d@),
            );
            &&& filter.needle is None ==> r is Ok
            &&& filter.needle is Some ==> {
                &&& r is Ok <==> n == 1
                &&& (r == Err::<(), FilterError>(FilterError::NoMatch) <==> n == 0)
                &&& (r == Err::<(), FilterError>(FilterError::Ambiguous) <==> n >= 2)
            }
        }),
{
    if filter.needle.is_none() {
        return Ok(());
    }
    let ghost descs = descriptions@.map_values(|d: Vec<u8>| d@);
    let mut count: usize = 0;
    let mut i: usize = 0;
    proof {
        assert(descs.skip(0) =~= descs);
    }
    while i < descriptions.len()
        invariant
            i <= descriptions@.len(),
            count <= i,
            descs == descriptions@.map_values(|d: Vec<u8>| d@),
            count_matches(filter.spec_needle(), descs) == count + count_matches(
                filter.spec_needle(),
                descs.skip(i as int),
            ),
        decreases descriptions@.len() - i,
    {
        proof {
            assert(descs.skip(i as int)[0] == descs[i as int]);
            assert(descs.skip(i as int).drop_first() =~= descs.skip(i as int + 1));
        }
        if device_matches(filter, &descriptions[i]) {
            count = count + 1;
        }
        i = i + 1;
    }
    proof {
        assert(descs.skip(descs.len() as int) =~= Seq::<Seq<u8>>::empty());
    }
    if count == 1 {
        Ok(())
    } else if count == 0 {
        Err(FilterError::NoMatch)
    } else {
        Err(FilterError::Ambiguous)
    }
}

} // verus!
