//! Map archive inspection: pulling the display name out of a map file's
//! header block and stripping the colour markup from it.
//!
//! The name sits after an eight-byte header and runs to the first NUL.
//! Markup is the usual pipe syntax: `|r` resets, `|c` starts a ten-byte
//! colour code; both are removed.

use vstd::prelude::*;
use vstd::utf8::encode_utf8;
use crate::bytes::{
    match_at, spec_find, spec_replace_all, replace_all, find_sub, lemma_find_characterization,
};

verus! {

/// What `String::from_utf8_lossy` returns: a function of the bytes alone.
pub uninterp spec fn lossy_of(b: Seq<u8>) -> Seq<char>;

/// Relies on String::from_utf8_lossy, to turn raw name bytes into text;
/// the result depends on the bytes alone, and ASCII bytes decode to
/// themselves.
#[verifier::external_body]
fn from_utf8_lossy_vec(b: &[u8]) -> (r: String)
    ensures
        r@ == lossy_of(b@),
        (forall|i: int| 0 <= i < b@.len() ==> b@[i] < 128) ==> (r@.len() == b@.len() && forall|
            i: int,
        | 0 <= i < b@.len() ==> r@[i] == b@[i] as char),
{
    String::from_utf8_lossy(b).to_string()
}

/// One map file: its file name and the display name read from its header.
#[derive(Debug, Clone, PartialEq, Eq)]
pub struct MapInfo {
    pub name: String,
    pub map_name: String,
}

/// The raw name bytes: what lies between the eight-byte header and the
/// first NUL, or everything after the header if no NUL follows.
pub open spec fn spec_name_region(bytes: Seq<u8>) -> Seq<u8> {
    let body = bytes.subrange(8, bytes.len() as int);
    match spec_find(body, seq![0u8]) {
        None => body,
        Some(i) => body.subrange(0, i),
    }
}

/// `s` with its colour codes removed: while a `|c` marker with at least
/// ten bytes from its start remains, those ten bytes are dropped; a
/// trailing short marker stays.
pub open spec fn spec_strip_colors(s: Seq<u8>) -> Seq<u8>
    decreases s.len(),
    via spec_strip_colors_decreases
{
    match spec_find(s, encode_utf8("|c"@)) {
        None => s,
        Some(i) => {
            if i + 10 <= s.len() {
                spec_strip_colors(s.subrange(0, i) + s.subrange(i + 10, s.len() as int))
            } else {
                s
            }
        },
    }
}

#[via_fn]
proof fn spec_strip_colors_decreases(s: Seq<u8>) {
    lemma_find_characterization(s, encode_utf8("|c"@));
}

/// The display name bytes of a map file: the name region with reset
/// markers and colour codes removed.
pub open spec fn spec_map_name(bytes: Seq<u8>) -> Seq<u8> {
    spec_strip_colors(
        spec_replace_all(spec_name_region(bytes), encode_utf8("|r"@), Seq::<u8>::empty()),
    )
}

/// Removes the colour codes from a name, as `spec_strip_colors` says.
fn strip_colors(s: &[u8]) -> (r: Vec<u8>)
    ensures
        r@ == spec_strip_colors(s@),
    decreases s@.len(),
{
    proof {
        lemma_find_characterization(s@, encode_utf8("|c"@));
    }
    match find_sub(s, "|c".as_bytes()) {
        None => {
            let mut v: Vec<u8> = Vec::new();
            v.extend_from_slice(s);
            assert(v@ =~= s@);
            v
        },
        Some(i) => {
            assert(match_at(s@, encode_utf8("|c"@), i as int));
            let sl = s.len();
            if sl - i >= 10 {
                let mut v: Vec<u8> = Vec::new();
                v.extend_from_slice(&s[0..i]);
                v.extend_from_slice(&s[i + 10..sl]);
                assert(v@ =~= s@.subrange(0, i as int) + s@.subrange(i + 10, sl as int));
                strip_colors(v.as_slice())
            } else {
                let mut v: Vec<u8> = Vec::new();
                v.extend_from_slice(s);
                assert(v@ =~= s@);
                v
            }
        },
    }
}

/// Reads the display name out of a map file's first bytes: skips the
/// eight-byte header, stops at the first NUL, strips the markup, and
/// decodes the rest as text.  The file's own name is carried through.
pub fn analysis_w3x_name(name: String, bytes: &[u8]) -> (r: MapInfo)
    requires
        bytes@.len() >= 8,
    ensures
        r.name@ == name@,
        r.map_name@ == lossy_of(spec_map_name(bytes@)),
{
    let bl = bytes.len();
    let body = &bytes[8..bl];
    let mut zero: Vec<u8> = Vec::new();
    zero.push(0u8);
    proof {
        assert(zero@ =~= seq![0u8]);
        lemma_find_characterization(body@, zero@);
    }
    let mut region: Vec<u8> = Vec::new();
    match find_sub(body, zero.as_slice()) {
        None => {
            region.extend_from_slice(body);
            assert(region@ =~= spec_name_region(bytes@));
        },
        Some(i) => {
            region.extend_from_slice(&body[0..i]);
            assert(region@ =~= spec_name_region(bytes@));
        },
    }
    let empty: Vec<u8> = Vec::new();
    let no_reset = replace_all(region.as_slice(), "|r".as_bytes(), empty.as_slice());
    assert(no_reset@ == spec_replace_all(spec_name_region(bytes@), encode_utf8("|r"@), Seq::<u8>::empty()));
    let stripped = strip_colors(no_reset.as_slice());
    assert(stripped@ == spec_map_name(bytes@));
    let map_name = from_utf8_lossy_vec(stripped.as_slice());
    MapInfo { name, map_name }
}

/// Whether an uploaded file starts with the map archive magic.
pub fn map_upload_magic_ok(data: &[u8]) -> (r: bool)
    requires
        data@.len() >= 4,
    ensures
        r == (data@.subrange(0, 4) == encode_utf8("HM3W"@)),
{
    crate::bytes::bytes_eq(&data[0..4], "HM3W".as_bytes())
}

} // verus!
