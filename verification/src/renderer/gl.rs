use vstd::prelude::*;
use crate::eel::chars::{is_whitespace, spec_is_whitespace, str_chars};

verus! {

/// Fragment shader header shared by the warp and comp passes.
pub const FRAG_HEADER: &'static str = r#"#version 300 es
precision highp float;
precision highp int;
precision mediump sampler2D;

in vec2 uv;
in vec2 uv_orig;
in vec4 vColor;
out vec4 fragColor;

uniform sampler2D sampler_main;
uniform sampler2D sampler_fw_main;
uniform sampler2D sampler_fc_main;
uniform sampler2D sampler_pw_main;
uniform sampler2D sampler_pc_main;
uniform sampler2D sampler_blur1;
uniform sampler2D sampler_blur2;
uniform sampler2D sampler_blur3;
uniform sampler2D sampler_noise_lq;
uniform sampler2D sampler_noise_lq_lite;
uniform sampler2D sampler_noise_mq;
uniform sampler2D sampler_noise_hq;
uniform sampler3D sampler_noisevol_lq;
uniform sampler3D sampler_noisevol_hq;

uniform float time;
uniform float frame;
uniform float fps;
uniform float decay;

uniform vec2  resolution;
uniform vec4  aspect;
uniform vec4  texsize;
uniform vec4  texsize_noise_lq;
uniform vec4  texsize_noise_mq;
uniform vec4  texsize_noise_hq;
uniform vec4  texsize_noise_lq_lite;

uniform float bass;     uniform float bass_att;
uniform float mid;      uniform float mid_att;
uniform float treb;     uniform float treb_att;
uniform float vol;      uniform float vol_att;

uniform vec4 _qa; uniform vec4 _qb; uniform vec4 _qc; uniform vec4 _qd;
uniform vec4 _qe; uniform vec4 _qf; uniform vec4 _qg; uniform vec4 _qh;
#define q1  _qa.x
#define q2  _qa.y
#define q3  _qa.z
#define q4  _qa.w
#define q5  _qb.x
#define q6  _qb.y
#define q7  _qb.z
#define q8  _qb.w
#define q9  _qc.x
#define q10 _qc.y
#define q11 _qc.z
#define q12 _qc.w
#define q13 _qd.x
#define q14 _qd.y
#define q15 _qd.z
#define q16 _qd.w
#define q17 _qe.x
#define q18 _qe.y
#define q19 _qe.z
#define q20 _qe.w
#define q21 _qf.x
#define q22 _qf.y
#define q23 _qf.z
#define q24 _qf.w
#define q25 _qg.x
#define q26 _qg.y
#define q27 _qg.z
#define q28 _qg.w
#define q29 _qh.x
#define q30 _qh.y
#define q31 _qh.z
#define q32 _qh.w

uniform vec4 slow_roam_cos; uniform vec4 roam_cos;
uniform vec4 slow_roam_sin; uniform vec4 roam_sin;

uniform float blur1_min; uniform float blur1_max;
uniform float blur2_min; uniform float blur2_max;
uniform float blur3_min; uniform float blur3_max;
uniform float scale1; uniform float bias1;
uniform float scale2; uniform float bias2;
uniform float scale3; uniform float bias3;

uniform vec4 rand_frame;
uniform vec4 rand_preset;

const float PI = 3.141592653589793;
"#;

/// Opening of the fragment `main` that wraps a preset shader body.
pub const FRAG_MAIN_OPEN: &'static str = "\nvoid main(void) {\n  vec3 ret = vec3(0.0);\n  float rad = length(uv_orig - vec2(0.5));\n  float ang = atan(uv_orig.x - 0.5, uv_orig.y - 0.5);\n  ";

/// Closing of the fragment `main` that wraps a preset shader body.
pub const FRAG_MAIN_CLOSE: &'static str = "\n  fragColor = vec4(ret, 1.0) * vColor;\n}\n";

/// The fragment shader that inlines `body` (a preset's `shader_body`) into `main`.
pub open spec fn spec_preset_frag(body: Seq<char>) -> Seq<char> {
    FRAG_HEADER@ + FRAG_MAIN_OPEN@ + body + FRAG_MAIN_CLOSE@
}

/// Builds a complete fragment shader by inlining `body` (content of
/// `shader_body {}`) into `void main`.
pub fn build_preset_frag(body: &str) -> (src: String)
    ensures
        src@ == spec_preset_frag(body@),
{
    let mut src = String::from_str(FRAG_HEADER);
    src.append(FRAG_MAIN_OPEN);
    src.append(body);
    src.append(FRAG_MAIN_CLOSE);
    src
}

/// Every char of `s` is whitespace (what `str::trim(s).is_empty()` tests).
pub open spec fn all_whitespace(s: Seq<char>) -> bool {
    forall|i: int| 0 <= i < s.len() ==> spec_is_whitespace(#[trigger] s[i])
}

/// Whether a shader body is empty once trimmed.
pub fn is_blank(body: &str) -> (r: bool)
    ensures
        r == all_whitespace(body@),
{
    let chars = str_chars(body);
    let mut i: usize = 0;
    while i < chars.len()
        invariant
            chars@ == body@,
            i <= chars.len(),
            forall|j: int| 0 <= j < i ==> spec_is_whitespace(#[trigger] chars@[j]),
        decreases chars.len() - i,
    {
        if !is_whitespace(chars[i]) {
            return false;
        }
        i += 1;
    }
    true
}

} // verus!
