//! Packing and unpacking of the ids the undocumented audio-policy
//! interface speaks: a device id is wrapped in a fixed token prefix and a
//! per-direction interface suffix on the way in, and stripped of both on
//! the way out.

use vstd::prelude::*;

use crate::text::{spec_ends_with, spec_starts_with, str_ends_with, str_starts_with};
use crate::types::DeviceType;

verus! {

pub open spec fn spec_mmdevapi_token() -> Seq<char> {
    "\\\\?\\SWD#MMDEVAPI#"@
}

pub open spec fn spec_render_suffix() -> Seq<char> {
    "#{e6327cad-dcec-4949-ae8a-991e976a79d2}"@
}

pub open spec fn spec_capture_suffix() -> Seq<char> {
    "#{2eef81be-33fa-4800-9670-1cd474972c3f}"@
}

pub open spec fn spec_suffix_of(device_type: DeviceType) -> Seq<char> {
    match device_type {
        DeviceType::Output => spec_render_suffix(),
        DeviceType::Input => spec_capture_suffix(),
    }
}

/// The packed form: token, device id, per-direction suffix.
pub open spec fn spec_generate_device_id(id: Seq<char>, device_type: DeviceType) -> Seq<char> {
    spec_mmdevapi_token() + id + spec_suffix_of(device_type)
}

/// The unpacked form: the token prefix goes if present, then whichever
/// interface suffix the remainder ends with.
pub open spec fn spec_unpack_device_id(s: Seq<char>) -> Seq<char> {
    let rest = if spec_starts_with(s, spec_mmdevapi_token()) {
        s.skip(spec_mmdevapi_token().len() as int)
    } else {
        s
    };
    if spec_ends_with(rest, spec_render_suffix()) {
        rest.take(rest.len() - spec_render_suffix().len())
    } else if spec_ends_with(rest, spec_capture_suffix()) {
        rest.take(rest.len() - spec_capture_suffix().len())
    } else {
        rest
    }
}

/// Wraps a device id for the policy interface: output devices take the
/// render interface suffix, input devices the capture one.
pub fn generate_device_id(device_id: &str, device_type: DeviceType) -> (packed: String)
    ensures
        packed@ == spec_generate_device_id(device_id@, device_type),
{
    let suffix: &str = match device_type {
        DeviceType::Output => "#{e6327cad-dcec-4949-ae8a-991e976a79d2}",
        DeviceType::Input => "#{2eef81be-33fa-4800-9670-1cd474972c3f}",
    };
    String::from_str("\\\\?\\SWD#MMDEVAPI#").concat(device_id).concat(suffix)
}

/// Strips the policy-interface wrapping from an id the interface returned.
pub fn unpack_device_id(device_id: &str) -> (unpacked: String)
    ensures
        unpacked@ == spec_unpack_device_id(device_id@),
{
    let token: &str = "\\\\?\\SWD#MMDEVAPI#";
    let render: &str = "#{e6327cad-dcec-4949-ae8a-991e976a79d2}";
    let capture: &str = "#{2eef81be-33fa-4800-9670-1cd474972c3f}";
    let mut rest: &str = device_id;
    if str_starts_with(rest, token) {
        rest = rest.substring_char(token.unicode_len(), rest.unicode_len());
        proof {
            assert(rest@ =~= device_id@.skip(spec_mmdevapi_token().len() as int));
        }
    }
    if str_ends_with(rest, render) {
        let cut = rest.unicode_len() - render.unicode_len();
        rest = rest.substring_char(0, cut);
    } else if str_ends_with(rest, capture) {
        let cut = rest.unicode_len() - capture.unicode_len();
        rest = rest.substring_char(0, cut);
    }
    proof {
        assert(rest@ =~= spec_unpack_device_id(device_id@));
    }
    String::from_str(rest)
}

/// Unpacking inverts packing: whatever the id and direction, the packed
/// form unpacks back to the id.
pub proof fn lemma_device_id_round_trip(id: Seq<char>, device_type: DeviceType)
    ensures
        spec_unpack_device_id(spec_generate_device_id(id, device_type)) == id,
{
    let token = spec_mmdevapi_token();
    let suffix = spec_suffix_of(device_type);
    let packed = token + id + suffix;
    assert(spec_starts_with(packed, token)) by {
        assert(packed.subrange(0, token.len() as int) =~= token);
    }
    let rest = packed.skip(token.len() as int);
    assert(rest =~= id + suffix);
    proof_suffixes_differ();
    if device_type == DeviceType::Output {
        assert(spec_ends_with(rest, spec_render_suffix())) by {
            assert(rest.subrange(rest.len() - suffix.len(), rest.len() as int) =~= suffix);
        }
        assert(rest.take(rest.len() - suffix.len()) =~= id);
    } else {
        assert(spec_ends_with(rest, spec_capture_suffix())) by {
            assert(rest.subrange(rest.len() - suffix.len(), rest.len() as int) =~= suffix);
        }
        assert(!spec_ends_with(rest, spec_render_suffix())) by {
            if spec_ends_with(rest, spec_render_suffix()) {
                assert(rest.subrange(rest.len() - 39, rest.len() as int) =~= suffix);
                assert(spec_render_suffix()[2] == suffix[2]);
            }
        }
        assert(rest.take(rest.len() - suffix.len()) =~= id);
    }
}

/// The two interface suffixes are distinct strings of the same length.
proof fn proof_suffixes_differ()
    ensures
        spec_render_suffix().len() == 39,
        spec_capture_suffix().len() == 39,
        spec_render_suffix()[2] != spec_capture_suffix()[2],
{
    reveal_strlit("#{e6327cad-dcec-4949-ae8a-991e976a79d2}");
    reveal_strlit("#{2eef81be-33fa-4800-9670-1cd474972c3f}");
}

} // verus!
