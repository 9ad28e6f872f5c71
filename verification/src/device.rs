//! Device capability classification and the render profile derived from it.

use crate::compressed::CompressedFormatSupport;
use crate::text::{chars_of, has_substring, str_contains};
use vstd::prelude::*;

verus! {

/// A character that can be part of a version number: a decimal digit or a
/// dot.
pub open spec fn is_vchar(c: char) -> bool {
    ('0' <= c && c <= '9') || c == '.'
}

/// Every character of `s[i..j]` can be part of a version number.
pub open spec fn all_vchars(s: Seq<char>, i: int, j: int) -> bool {
    forall|k: int| i <= k < j ==> is_vchar(#[trigger] s[k])
}

/// `s[i..j]` is a maximal run of version characters (possibly empty).
pub open spec fn is_run(s: Seq<char>, i: int, j: int) -> bool {
    &&& 0 <= i <= j <= s.len()
    &&& all_vchars(s, i, j)
    &&& (i == 0 || !is_vchar(s[i - 1]))
    &&& (j == s.len() || !is_vchar(s[j]))
}

/// `s[i..j]` contains a dot.
pub open spec fn has_dot(s: Seq<char>, i: int, j: int) -> bool {
    exists|k: int| i <= k < j && #[trigger] s[k] == '.'
}

/// `s[i..j]` is the first maximal run of version characters that holds a
/// dot.
pub open spec fn first_dotted_run(s: Seq<char>, i: int, j: int) -> bool {
    &&& is_run(s, i, j)
    &&& has_dot(s, i, j)
    &&& forall|i2: int, j2: int| #[trigger] is_run(s, i2, j2) && i2 < i ==> !has_dot(s, i2, j2)
}

/// Index of the first dot in `s[a..j]`, or `j` when there is none.
pub open spec fn dot_index(s: Seq<char>, a: int, j: int) -> int
    decreases j - a,
{
    if a >= j {
        j
    } else if s[a] == '.' {
        a
    } else {
        dot_index(s, a + 1, j)
    }
}

/// Decimal value of a string of digits.
pub open spec fn digits_value(f: Seq<char>) -> nat
    decreases f.len(),
{
    if f.len() == 0 {
        0
    } else {
        digits_value(f.drop_last()) * 10 + ((f.last() as int) - ('0' as int)) as nat
    }
}

/// `str::parse::<u32>` on a string of digits: `None` when it is empty or
/// too large.
pub open spec fn parse_digits(f: Seq<char>) -> Option<u32> {
    if f.len() == 0 || digits_value(f) > u32::MAX {
        None
    } else {
        Some(digits_value(f) as u32)
    }
}

/// The `(major, minor)` version read from the run `s[i..j]`: the digits
/// before its first dot and those between the first and second dots, with
/// 2 and 0 standing in for a field that does not parse.
pub open spec fn run_version(s: Seq<char>, i: int, j: int) -> (u32, u32) {
    let d1 = dot_index(s, i, j);
    let d2 = dot_index(s, d1 + 1, j);
    let major = match parse_digits(s.subrange(i, d1)) {
        Some(v) => v,
        None => 2,
    };
    let minor = if d1 < j {
        match parse_digits(s.subrange(d1 + 1, d2)) {
            Some(v) => v,
            None => 0,
        }
    } else {
        0
    };
    (major, minor)
}

/// The GLES version named by a driver version string: read from its first
/// run of digits and dots that holds a dot, `(2, 0)` when there is none.
pub open spec fn gles_version_spec(s: Seq<char>) -> (u32, u32) {
    if exists|i: int, j: int| first_dotted_run(s, i, j) {
        let (i, j) = choose|i: int, j: int| first_dotted_run(s, i, j);
        run_version(s, i, j)
    } else {
        (2, 0)
    }
}

fn is_version_char(c: char) -> (b: bool)
    ensures
        b == is_vchar(c),
{
    ('0' <= c && c <= '9') || c == '.'
}

/// There is only one first dotted run.
proof fn lemma_first_dotted_run_unique(s: Seq<char>, i: int, j: int, i2: int, j2: int)
    requires
        first_dotted_run(s, i, j),
        first_dotted_run(s, i2, j2),
    ensures
        i == i2 && j == j2,
{
    assert(is_run(s, i, j) && is_run(s, i2, j2));
    if i < i2 {
        assert(!has_dot(s, i, j));
    } else if i2 < i {
        assert(!has_dot(s, i2, j2));
    } else if j < j2 {
        assert(is_vchar(s[j]));
    } else if j2 < j {
        assert(is_vchar(s[j2]));
    }
}

/// Value of the digits `v[a..b]`, `None` when empty or above `u32::MAX`.
fn parse_field(v: &Vec<char>, a: usize, b: usize) -> (r: Option<u32>)
    requires
        a <= b <= v@.len(),
        forall|k: int| a <= k < b ==> '0' <= #[trigger] v@[k] && v@[k] <= '9',
    ensures
        r == parse_digits(v@.subrange(a as int, b as int)),
{
    if a == b {
        return None;
    }
    let mut val: u64 = 0;
    let mut over = false;
    let mut k = a;
    while k < b
        invariant
            a <= k <= b <= v@.len(),
            forall|m: int| a <= m < b ==> '0' <= #[trigger] v@[m] && v@[m] <= '9',
            over ==> digits_value(v@.subrange(a as int, k as int)) > u32::MAX,
            !over ==> val == digits_value(v@.subrange(a as int, k as int)) && val <= u32::MAX,
        decreases b - k,
    {
        let c = v[k];
        let d = (c as u32 - '0' as u32) as u64;
        let ghost prev = v@.subrange(a as int, k as int);
        assert(v@.subrange(a as int, k as int + 1).drop_last() =~= prev);
        if !over {
            val = val * 10 + d;
            if val > 0xFFFF_FFFF {
                over = true;
            }
        } else {
            assert(digits_value(v@.subrange(a as int, k as int + 1)) >= digits_value(prev));
        }
        k = k + 1;
    }
    if over {
        None
    } else {
        Some(val as u32)
    }
}

/// Parse `"OpenGL ES X.Y ..."` (or a desktop `"X.Y.Z ..."`) into
/// `(X, Y)`; `(2, 0)` when no version number is found.
pub fn parse_gles_version(version: &str) -> (r: (u32, u32))
    ensures
        r == gles_version_spec(version@),
{
    let v = chars_of(version);
    let n = v.len();
    let mut i: usize = 0;
    while i < n
        invariant
            v@ == version@,
            n == v@.len(),
            0 <= i <= n,
            i == 0 || i == n || !is_vchar(v@[i - 1]),
            forall|i2: int, j2: int| #[trigger] is_run(v@, i2, j2) && i2 < i ==> !has_dot(v@, i2, j2),
        decreases n - i,
    {
        if !is_version_char(v[i]) {
            proof {
                assert forall|i2: int, j2: int| #[trigger] is_run(v@, i2, j2) && i2 < i + 1 implies !has_dot(
                    v@,
                    i2,
                    j2,
                ) by {
                    if i2 == i {
                        assert(j2 == i2);
                    }
                }
            }
            i = i + 1;
            continue;
        }
        let start = i;
        let mut dot = false;
        while i < n && is_version_char(v[i])
            invariant
                v@ == version@,
                n == v@.len(),
                start <= i <= n,
                start == 0 || !is_vchar(v@[start - 1]),
                all_vchars(v@, start as int, i as int),
                dot == has_dot(v@, start as int, i as int),
            decreases n - i,
        {
            if v[i] == '.' {
                dot = true;
            }
            i = i + 1;
        }
        assert(is_run(v@, start as int, i as int));
        if dot {
            proof {
                assert(first_dotted_run(v@, start as int, i as int));
                let (ci, cj) = choose|ci: int, cj: int| first_dotted_run(v@, ci, cj);
                lemma_first_dotted_run_unique(v@, start as int, i as int, ci, cj);
            }
            return parse_run(&v, start, i);
        }
        proof {
            assert forall|i2: int, j2: int| #[trigger] is_run(v@, i2, j2) && i2 < i + 1 implies !has_dot(
                v@,
                i2,
                j2,
            ) by {
                if start <= i2 <= i && i2 < i + 1 {
                    if i2 == start {
                        if j2 < i {
                            assert(is_vchar(v@[j2]));
                        } else if j2 > i {
                            assert(is_vchar(v@[i as int]));
                        }
                    } else {
                        assert(is_vchar(v@[i2 - 1]));
                    }
                }
            }
        }
        if i < n {
            i = i + 1;
        }
    }
    proof {
        if exists|ci: int, cj: int| first_dotted_run(v@, ci, cj) {
            let (ci, cj) = choose|ci: int, cj: int| first_dotted_run(v@, ci, cj);
            assert(is_run(v@, ci, cj));
        }
    }
    (2, 0)
}

/// Read the version fields of the dotted run `v[i..j]`.
fn parse_run(v: &Vec<char>, i: usize, j: usize) -> (r: (u32, u32))
    requires
        is_run(v@, i as int, j as int),
    ensures
        r == run_version(v@, i as int, j as int),
{
    let d1 = find_dot(v, i, j);
    let major = match parse_field(v, i, d1) {
        Some(x) => x,
        None => 2,
    };
    if d1 == j {
        return (major, 0);
    }
    let d2 = find_dot(v, d1 + 1, j);
    let minor = match parse_field(v, d1 + 1, d2) {
        Some(x) => x,
        None => 0,
    };
    (major, minor)
}

/// Index of the first dot in `v[a..j]`, or `j`.
fn find_dot(v: &Vec<char>, a: usize, j: usize) -> (d: usize)
    requires
        a <= j <= v@.len(),
        all_vchars(v@, a as int, j as int),
    ensures
        d == dot_index(v@, a as int, j as int),
        a <= d <= j,
        forall|k: int| a <= k < d ==> '0' <= #[trigger] v@[k] && v@[k] <= '9',
    decreases j - a,
{
    if a >= j {
        return j;
    }
    if v[a] == '.' {
        return a;
    }
    let d = find_dot(v, a + 1, j);
    assert(is_vchar(v@[a as int]));
    d
}

/// Runtime-detected device capabilities.
#[derive(Debug, Clone, Copy)]
pub struct DeviceCapabilities {
    pub gles_version: (u32, u32),
    /// `GL_NV_pixel_buffer_object` or ES 3.0+.
    pub has_pbo: bool,
    /// `glFenceSync` available (ES 3.0+).
    pub has_fence_sync: bool,
    /// Compute shaders available (ES 3.1+).
    pub has_compute: bool,
    /// `AHardwareBuffer` import available (Android API 26+).
    pub ahb_available: bool,
    /// `EGL_EXT_buffer_age` available.
    pub has_buffer_age: bool,
    /// `EGL_KHR_partial_update` available.
    pub has_partial_update: bool,
    /// Compressed texture formats the driver accepts.
    pub compressed_format_support: CompressedFormatSupport,
}

/// Coarse device classification that gates optimisation paths.
#[derive(Debug, Clone, Copy, PartialEq, Eq, Structural)]
pub enum DeviceTier {
    /// ES 3.0+, PBO, fence sync.
    TierA,
    /// ES 2.0 or broken drivers: the conservative paths.
    TierB,
}

/// `(a, b) >= (c, d)` in lexicographic order.
pub open spec fn version_at_least(v: (u32, u32), major: u32, minor: u32) -> bool {
    v.0 > major || (v.0 == major && v.1 >= minor)
}

/// The tier of a capability set.
pub open spec fn tier_spec(caps: DeviceCapabilities) -> DeviceTier {
    if version_at_least(caps.gles_version, 3, 0) && caps.has_fence_sync && caps.has_pbo {
        DeviceTier::TierA
    } else {
        DeviceTier::TierB
    }
}

fn version_ge(v: (u32, u32), major: u32, minor: u32) -> (b: bool)
    ensures
        b == version_at_least(v, major, minor),
{
    v.0 > major || (v.0 == major && v.1 >= minor)
}

impl DeviceCapabilities {
    /// Capabilities from the driver strings: `GL_VERSION`, `GL_EXTENSIONS`,
    /// `EGL_EXTENSIONS`, the Android API level and whether the target is
    /// Android.
    pub fn from_driver_strings(
        version: &str,
        gl_extensions: &str,
        egl_extensions: &str,
        api_level: u32,
        on_android: bool,
    ) -> (c: Self)
        ensures
            c.gles_version == gles_version_spec(version@),
            c.has_pbo == (version_at_least(c.gles_version, 3, 0) || has_substring(
                gl_extensions@,
                "GL_NV_pixel_buffer_object"@,
            )),
            c.has_fence_sync == version_at_least(c.gles_version, 3, 0),
            c.has_compute == version_at_least(c.gles_version, 3, 1),
            c.ahb_available == (on_android && api_level >= 26 && has_substring(
                gl_extensions@,
                "GL_OES_EGL_image"@,
            ) && has_substring(egl_extensions@, "EGL_ANDROID_image_native_buffer"@)),
            c.has_buffer_age == has_substring(egl_extensions@, "EGL_EXT_buffer_age"@),
            c.has_partial_update == has_substring(egl_extensions@, "EGL_KHR_partial_update"@),
            c.compressed_format_support.etc2 == (has_substring(version@, "OpenGL ES 3."@)
                || has_substring(version@, "OpenGL ES 4."@)),
            c.compressed_format_support.astc == (has_substring(
                gl_extensions@,
                "GL_KHR_texture_compression_astc_ldr"@,
            ) || has_substring(gl_extensions@, "GL_KHR_texture_compression_astc_hdr"@)),
    {
        let gles_version = parse_gles_version(version);
        let has_pbo = version_ge(gles_version, 3, 0) || str_contains(
            gl_extensions,
            "GL_NV_pixel_buffer_object",
        );
        let has_fence_sync = version_ge(gles_version, 3, 0);
        let has_compute = version_ge(gles_version, 3, 1);
        let ahb_available = on_android && api_level >= 26 && str_contains(
            gl_extensions,
            "GL_OES_EGL_image",
        ) && str_contains(egl_extensions, "EGL_ANDROID_image_native_buffer");
        let has_buffer_age = str_contains(egl_extensions, "EGL_EXT_buffer_age");
        let has_partial_update = str_contains(egl_extensions, "EGL_KHR_partial_update");
        let compressed_format_support = CompressedFormatSupport::from_gl_strings(
            version,
            gl_extensions,
        );
        DeviceCapabilities {
            gles_version,
            has_pbo,
            has_fence_sync,
            has_compute,
            ahb_available,
            has_buffer_age,
            has_partial_update,
            compressed_format_support,
        }
    }

    /// TierA when ES 3.0+, fence sync and PBOs are all present.
    pub fn tier(&self) -> (t: DeviceTier)
        ensures
            t == tier_spec(*self),
    {
        if version_ge(self.gles_version, 3, 0) && self.has_fence_sync && self.has_pbo {
            DeviceTier::TierA
        } else {
            DeviceTier::TierB
        }
    }

    /// The render profile for this device at `api_level`, with the tier
    /// detected from the capabilities.
    pub fn render_profile(&self, api_level: u32) -> (p: DeviceRenderProfile)
        ensures
            p == profile_spec(*self, api_level, tier_spec(*self)),
    {
        DeviceRenderProfile::from_detected_device(self, api_level)
    }
}

/// Per-device rendering budget.
#[derive(Debug, Clone, Copy, PartialEq, Eq, Structural)]
pub struct DeviceRenderProfile {
    pub max_upload_jobs_per_frame: usize,
    pub max_upload_bytes_per_frame: usize,
    pub enable_partial_damage: bool,
    pub enable_layer_cache: bool,
}

/// The profile for a device: conservative at API 23 or below and on TierB,
/// aggressive otherwise.
pub open spec fn profile_spec(caps: DeviceCapabilities, api_level: u32, tier: DeviceTier) -> DeviceRenderProfile {
    if api_level <= 23 || tier == DeviceTier::TierB {
        DeviceRenderProfile {
            max_upload_jobs_per_frame: 1usize,
            max_upload_bytes_per_frame: 524288usize,
            enable_partial_damage: false,
            enable_layer_cache: false,
        }
    } else {
        DeviceRenderProfile {
            max_upload_jobs_per_frame: 4usize,
            max_upload_bytes_per_frame: 4194304usize,
            enable_partial_damage: caps.has_fence_sync,
            enable_layer_cache: true,
        }
    }
}

impl DeviceRenderProfile {
    /// The profile for `caps` at `api_level`, with the detected tier.
    pub fn from_detected_device(caps: &DeviceCapabilities, api_level: u32) -> (p: Self)
        ensures
            p == profile_spec(*caps, api_level, tier_spec(*caps)),
    {
        let tier = caps.tier();
        Self::from_tier(caps, api_level, tier)
    }

    /// The profile for `caps` at `api_level`; `tier` must be the tier the
    /// capabilities classify as (a mismatch is a caller bug).
    pub fn from_caps(caps: &DeviceCapabilities, api_level: u32, tier: DeviceTier) -> (p: Self)
        requires
            tier == tier_spec(*caps),
        ensures
            p == profile_spec(*caps, api_level, tier),
    {
        let detected_tier = caps.tier();
        Self::from_tier(caps, api_level, detected_tier)
    }

    fn from_tier(caps: &DeviceCapabilities, api_level: u32, tier: DeviceTier) -> (p: Self)
        ensures
            p == profile_spec(*caps, api_level, tier),
    {
        if api_level <= 23 || tier == DeviceTier::TierB {
            return DeviceRenderProfile {
                max_upload_jobs_per_frame: 1,
                max_upload_bytes_per_frame: 512 * 1024,
                enable_partial_damage: false,
                enable_layer_cache: false,
            };
        }
        DeviceRenderProfile {
            max_upload_jobs_per_frame: 4,
            max_upload_bytes_per_frame: 4 * 1024 * 1024,
            enable_partial_damage: caps.has_fence_sync,
            enable_layer_cache: true,
        }
    }
}

/// The aggressive profile never allows fewer uploads than the conservative
/// one, and partial damage is only ever enabled on TierA.
pub proof fn law_profile_monotone(caps: DeviceCapabilities, api_level: u32)
    ensures
        profile_spec(caps, api_level, DeviceTier::TierA).max_upload_jobs_per_frame
            >= profile_spec(caps, api_level, DeviceTier::TierB).max_upload_jobs_per_frame,
        profile_spec(caps, api_level, DeviceTier::TierA).max_upload_bytes_per_frame
            >= profile_spec(caps, api_level, DeviceTier::TierB).max_upload_bytes_per_frame,
        !profile_spec(caps, api_level, DeviceTier::TierB).enable_partial_damage,
{
}

} // verus!
