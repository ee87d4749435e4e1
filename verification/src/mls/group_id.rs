//! Svalin's MLS group identifiers and their byte encoding:
//! `global`, `device/<hex>` and `meta/<hex>`, where `<hex>` is the upper-case
//! hex SPKI hash of the device.

use vstd::prelude::*;

use crate::certificate_type::ascii_bytes;
use crate::hex::{decode_hex, hex_upper, lemma_decode_hex_upper};
use crate::spki_hash::SpkiHash;

verus! {

/// The groups svalin uses.
#[derive(Debug, Clone, Copy, Hash)]
pub enum SvalinGroupId {
    GlobalGroup,
    DeviceGroup(SpkiHash),
    DeviceMetaGroup(SpkiHash),
}

/// A group identifier as the library reads it.
pub enum GroupIdView {
    Global,
    Device(Seq<u8>),
    Meta(Seq<u8>),
}

impl View for SvalinGroupId {
    type V = GroupIdView;

    open spec fn view(&self) -> GroupIdView {
        match self {
            SvalinGroupId::GlobalGroup => GroupIdView::Global,
            SvalinGroupId::DeviceGroup(h) => GroupIdView::Device(h@),
            SvalinGroupId::DeviceMetaGroup(h) => GroupIdView::Meta(h@),
        }
    }
}

impl PartialEq for SvalinGroupId {
    fn eq(&self, other: &Self) -> (r: bool) {
        match (self, other) {
            (SvalinGroupId::GlobalGroup, SvalinGroupId::GlobalGroup) => true,
            (SvalinGroupId::DeviceGroup(a), SvalinGroupId::DeviceGroup(b)) => *a == *b,
            (SvalinGroupId::DeviceMetaGroup(a), SvalinGroupId::DeviceMetaGroup(b)) => *a == *b,
            _ => false,
        }
    }
}

impl vstd::std_specs::cmp::PartialEqSpecImpl for SvalinGroupId {
    open spec fn obeys_eq_spec() -> bool {
        true
    }

    open spec fn eq_spec(&self, other: &Self) -> bool {
        self@ == other@
    }
}

impl Eq for SvalinGroupId {}

/// Why bytes are not a svalin group identifier.
#[derive(Debug, Clone, Copy, PartialEq, Eq, Structural)]
pub enum ParseGroupIdError {
    WrongSliceLength,
    UnknownGroupType,
    MissingData,
    MissingGroupType,
}

/// ASCII of `device`, `meta` and `global`.
pub open spec fn device_tag() -> Seq<u8> {
    seq![100u8, 101, 118, 105, 99, 101]
}

pub open spec fn meta_tag() -> Seq<u8> {
    seq![109u8, 101, 116, 97]
}

pub open spec fn global_tag() -> Seq<u8> {
    seq![103u8, 108, 111, 98, 97, 108]
}

/// The byte `/`.
pub open spec fn slash() -> u8 {
    47
}

/// The encoding of a group identifier.
pub open spec fn spec_group_id_bytes(g: GroupIdView) -> Seq<u8> {
    match g {
        GroupIdView::Global => global_tag(),
        GroupIdView::Device(h) => device_tag().push(slash()) + ascii_bytes(hex_upper(h)),
        GroupIdView::Meta(h) => meta_tag().push(slash()) + ascii_bytes(hex_upper(h)),
    }
}

/// The index of the first `/` at or after `from`, or the length if there is none.
pub open spec fn slash_from(b: Seq<u8>, from: int) -> int
    decreases b.len() - from,
{
    if from >= b.len() {
        b.len() as int
    } else if b[from] == slash() {
        from
    } else {
        slash_from(b, from + 1)
    }
}

/// The part of `b` before the first `/` (the whole of `b` without one).
pub open spec fn first_part(b: Seq<u8>) -> Seq<u8> {
    b.subrange(0, slash_from(b, 0))
}

/// The part of `b` between the first and the second `/` (or the end), if
/// there is a first `/`.
pub open spec fn second_part(b: Seq<u8>) -> Option<Seq<u8>> {
    let p = slash_from(b, 0);
    if p >= b.len() {
        None
    } else {
        Some(b.subrange(p + 1, slash_from(b, p + 1)))
    }
}

/// Reading the SPKI hash of a device group from its hex part.
pub open spec fn spec_hash_part(part: Option<Seq<u8>>) -> Result<Seq<u8>, ParseGroupIdError> {
    match part {
        None => Err(ParseGroupIdError::MissingData),
        Some(p) => match decode_hex(p) {
            Some(h) => if h.len() == 32 {
                Ok(h)
            } else {
                Err(ParseGroupIdError::WrongSliceLength)
            },
            None => Err(ParseGroupIdError::WrongSliceLength),
        },
    }
}

/// What reading bytes as a group identifier gives.
pub open spec fn spec_parse_group_id(b: Seq<u8>) -> Result<GroupIdView, ParseGroupIdError> {
    let first = first_part(b);
    if first == device_tag() {
        match spec_hash_part(second_part(b)) {
            Ok(h) => Ok(GroupIdView::Device(h)),
            Err(e) => Err(e),
        }
    } else if first == meta_tag() {
        match spec_hash_part(second_part(b)) {
            Ok(h) => Ok(GroupIdView::Meta(h)),
            Err(e) => Err(e),
        }
    } else if first == global_tag() {
        Ok(GroupIdView::Global)
    } else {
        Err(ParseGroupIdError::UnknownGroupType)
    }
}

fn find_slash(b: &[u8], from: usize) -> (r: usize)
    requires
        from <= b@.len(),
    ensures
        r == slash_from(b@, from as int),
        from <= r <= b@.len(),
    decreases b@.len() - from,
{
    if from >= b.len() {
        b.len()
    } else if b[from] == 47 {
        from
    } else {
        find_slash(b, from + 1)
    }
}

fn slice_to_vec(b: &[u8], start: usize, end: usize) -> (r: Vec<u8>)
    requires
        start <= end <= b@.len(),
    ensures
        r@ == b@.subrange(start as int, end as int),
{
    let mut v: Vec<u8> = Vec::new();
    let mut i = start;
    while i < end
        invariant
            start <= i <= end <= b@.len(),
            v@ == b@.subrange(start as int, i as int),
        decreases end - i,
    {
        v.push(b[i]);
        i = i + 1;
        assert(v@ =~= b@.subrange(start as int, i as int));
    }
    v
}

fn bytes_equal(a: &[u8], b: &[u8]) -> (r: bool)
    ensures
        r == (a@ == b@),
{
    crate::certificate::bytes_eq(a, b)
}

fn hash_part(b: &[u8]) -> (r: Result<SpkiHash, ParseGroupIdError>)
    ensures
        match spec_hash_part(second_part(b@)) {
            Ok(h) => r is Ok && r->Ok_0@ == h,
            Err(e) => r == Err::<SpkiHash, ParseGroupIdError>(e),
        },
{
    let p = find_slash(b, 0);
    if p >= b.len() {
        return Err(ParseGroupIdError::MissingData);
    }
    let q = find_slash(b, p + 1);
    let part = slice_to_vec(b, p + 1, q);
    match SpkiHash::from_hex(part.as_slice()) {
        Some(h) => Ok(h),
        None => Err(ParseGroupIdError::WrongSliceLength),
    }
}

impl SvalinGroupId {
    /// The byte encoding of the group identifier (the MLS group id).
    pub fn to_group_id(&self) -> (r: Vec<u8>)
        ensures
            r@ == spec_group_id_bytes(self@),
    {
        match self {
            SvalinGroupId::DeviceGroup(spki_hash) => {
                let mut bytes: Vec<u8> = vec![100u8, 101, 118, 105, 99, 101, 47];
                let hex = spki_hash.to_hex_bytes();
                let mut other = hex;
                let ghost head = bytes@;
                let ghost tail = other@;
                bytes.append(&mut other);
                assert(head =~= device_tag().push(slash()));
                bytes
            },
            SvalinGroupId::DeviceMetaGroup(spki_hash) => {
                let mut bytes: Vec<u8> = vec![109u8, 101, 116, 97, 47];
                let hex = spki_hash.to_hex_bytes();
                let mut other = hex;
                let ghost head = bytes@;
                bytes.append(&mut other);
                assert(head =~= meta_tag().push(slash()));
                bytes
            },
            SvalinGroupId::GlobalGroup => {
                let bytes: Vec<u8> = vec![103u8, 108, 111, 98, 97, 108];
                assert(bytes@ =~= global_tag());
                bytes
            },
        }
    }

    /// Reads a group identifier from its byte encoding. Anything after the
    /// hex part of a device group identifier is ignored.
    pub fn from_group_id(group_id: &[u8]) -> (r: Result<SvalinGroupId, ParseGroupIdError>)
        ensures
            match spec_parse_group_id(group_id@) {
                Ok(g) => r is Ok && r->Ok_0@ == g,
                Err(e) => r == Err::<SvalinGroupId, ParseGroupIdError>(e),
            },
    {
        let p = find_slash(group_id, 0);
        let first = slice_to_vec(group_id, 0, p);
        let device: Vec<u8> = vec![100u8, 101, 118, 105, 99, 101];
        let meta: Vec<u8> = vec![109u8, 101, 116, 97];
        let global: Vec<u8> = vec![103u8, 108, 111, 98, 97, 108];
        assert(device@ =~= device_tag());
        assert(meta@ =~= meta_tag());
        assert(global@ =~= global_tag());
        if bytes_equal(first.as_slice(), device.as_slice()) {
            match hash_part(group_id) {
                Ok(h) => Ok(SvalinGroupId::DeviceGroup(h)),
                Err(e) => Err(e),
            }
        } else if bytes_equal(first.as_slice(), meta.as_slice()) {
            match hash_part(group_id) {
                Ok(h) => Ok(SvalinGroupId::DeviceMetaGroup(h)),
                Err(e) => Err(e),
            }
        } else if bytes_equal(first.as_slice(), global.as_slice()) {
            Ok(SvalinGroupId::GlobalGroup)
        } else {
            Err(ParseGroupIdError::UnknownGroupType)
        }
    }
}

proof fn lemma_no_slash_in_hex(h: Seq<u8>, from: int)
    requires
        0 <= from <= ascii_bytes(hex_upper(h)).len(),
    ensures
        slash_from(ascii_bytes(hex_upper(h)), from) == ascii_bytes(hex_upper(h)).len(),
    decreases ascii_bytes(hex_upper(h)).len() - from,
{
    let b = ascii_bytes(hex_upper(h));
    if from < b.len() {
        let n = crate::hex::nibble(h, from);
        assert(0 <= n < 16);
        assert(b[from] != slash());
        lemma_no_slash_in_hex(h, from + 1);
    }
}

proof fn lemma_slash_shift(prefix: Seq<u8>, rest: Seq<u8>, from: int)
    requires
        0 <= from <= rest.len(),
    ensures
        slash_from(prefix + rest, prefix.len() + from) == prefix.len() + slash_from(rest, from),
    decreases rest.len() - from,
{
    let b = prefix + rest;
    if from < rest.len() {
        assert(b[prefix.len() + from] == rest[from]);
        lemma_slash_shift(prefix, rest, from + 1);
    }
}

/// Reading back the encoding of a group identifier gives the identifier.
pub proof fn lemma_group_id_round_trip(g: GroupIdView)
    requires
        g matches GroupIdView::Device(h) ==> h.len() == 32,
        g matches GroupIdView::Meta(h) ==> h.len() == 32,
    ensures
        spec_parse_group_id(spec_group_id_bytes(g)) == Ok::<GroupIdView, ParseGroupIdError>(g),
{
    match g {
        GroupIdView::Global => {
            let b = global_tag();
            assert(slash_from(b, 0) == 6) by {
                reveal_with_fuel(slash_from, 7);
            }
            assert(first_part(b) =~= global_tag());
            assert(first_part(b) != device_tag());
            assert(first_part(b) != meta_tag());
        },
        GroupIdView::Device(h) => {
            let tag = device_tag().push(slash());
            let hex = ascii_bytes(hex_upper(h));
            let b = tag + hex;
            assert(slash_from(b, 0) == 6) by {
                reveal_with_fuel(slash_from, 7);
                assert(b[6] == slash());
            }
            assert(first_part(b) =~= device_tag());
            lemma_no_slash_in_hex(h, 0);
            lemma_slash_shift(tag, hex, 0);
            assert(second_part(b)->0 =~= hex);
            lemma_decode_hex_upper(h);
        },
        GroupIdView::Meta(h) => {
            let tag = meta_tag().push(slash());
            let hex = ascii_bytes(hex_upper(h));
            let b = tag + hex;
            assert(slash_from(b, 0) == 4) by {
                reveal_with_fuel(slash_from, 5);
                assert(b[4] == slash());
            }
            assert(first_part(b) =~= meta_tag());
            assert(first_part(b) != device_tag());
            lemma_no_slash_in_hex(h, 0);
            lemma_slash_shift(tag, hex, 0);
            assert(second_part(b)->0 =~= hex);
            lemma_decode_hex_upper(h);
        },
    }
}

} // verus!
