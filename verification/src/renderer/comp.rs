use vstd::prelude::*;
use crate::renderer::gl::{
    all_whitespace, build_preset_frag, is_blank, spec_preset_frag, FRAG_HEADER, FRAG_MAIN_CLOSE,
    FRAG_MAIN_OPEN,
};

verus! {

/// Comp shader body used when a preset gives none: gamma-adjusted copy.
pub const FALLBACK_COMP_BODY: &'static str = "\n    ret = texture(sampler_main, uv).rgb;\n    ret = pow(max(ret, vec3(0.0)), vec3(1.0 / max(gammaadj, 0.01)));\n";

/// Declaration placed before the comp shader so its body can read `gammaadj`.
pub const GAMMA_UNIFORM: &'static str = "uniform float gammaadj;\n";

/// The comp pass fragment shader for a preset's comp body (the fallback body
/// when it is blank), preceded by the `gammaadj` uniform.
pub open spec fn spec_comp_fragment_source(body: Seq<char>) -> Seq<char> {
    GAMMA_UNIFORM@ + spec_preset_frag(if all_whitespace(body) { FALLBACK_COMP_BODY@ } else { body })
}

pub fn comp_fragment_source(body: &str) -> (src: String)
    ensures
        src@ == spec_comp_fragment_source(body@),
{
    let frag_body = if is_blank(body) { FALLBACK_COMP_BODY } else { body };
    let frag = build_preset_frag(frag_body);
    let mut src = String::from_str(GAMMA_UNIFORM);
    src.append(frag.as_str());
    src
}

/// A comp body with any visible char is inlined as it stands: the source is
/// the `gammaadj` uniform, the fragment header, the opening of `main`, that
/// very body and the closing of `main`, so the body appears right after the
/// opening of `main`. A blank body is replaced by `FALLBACK_COMP_BODY`.
pub proof fn law_comp_source_inlines_body(body: Seq<char>)
    ensures
        !all_whitespace(body) ==> spec_comp_fragment_source(body)
            == GAMMA_UNIFORM@ + FRAG_HEADER@ + FRAG_MAIN_OPEN@ + body + FRAG_MAIN_CLOSE@,
        !all_whitespace(body) ==> ({
            let k = GAMMA_UNIFORM@.len() + FRAG_HEADER@.len() + FRAG_MAIN_OPEN@.len();
            spec_comp_fragment_source(body).subrange(k as int, (k + body.len()) as int) == body
        }),
        all_whitespace(body) ==> spec_comp_fragment_source(body)
            == GAMMA_UNIFORM@ + FRAG_HEADER@ + FRAG_MAIN_OPEN@ + FALLBACK_COMP_BODY@ + FRAG_MAIN_CLOSE@,
{
    let g = GAMMA_UNIFORM@;
    let h = FRAG_HEADER@;
    let o = FRAG_MAIN_OPEN@;
    let c = FRAG_MAIN_CLOSE@;
    assert(g + (h + o + body + c) =~= g + h + o + body + c);
    assert(g + (h + o + FALLBACK_COMP_BODY@ + c) =~= g + h + o + FALLBACK_COMP_BODY@ + c);
    let k = g.len() + h.len() + o.len();
    assert((g + h + o + body + c).subrange(k as int, (k + body.len()) as int) =~= body);
}

} // verus!
