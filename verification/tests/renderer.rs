use khviz::renderer::comp::{comp_fragment_source, FALLBACK_COMP_BODY, GAMMA_UNIFORM};
use khviz::renderer::gl::{build_preset_frag, is_blank, FRAG_HEADER};
use khviz::renderer::motion::motion_grid;
use khviz::renderer::warp::{mesh_indices, warp_fragment_source, FALLBACK_BODY};

const MAIN: &str = "\nvoid main(void) {\n  vec3 ret = vec3(0.0);\n  float rad = length(uv_orig - vec2(0.5));\n  float ang = atan(uv_orig.x - 0.5, uv_orig.y - 0.5);\n  ";
const END: &str = "\n  fragColor = vec4(ret, 1.0) * vColor;\n}\n";

#[test]
fn preset_fragment_wraps_body_in_main() {
    let frag = build_preset_frag("ret = vec3(1.0);");
    assert_eq!(frag, format!("{}{}ret = vec3(1.0);{}", FRAG_HEADER, MAIN, END));
    assert!(frag.starts_with("#version 300 es\n"));
    assert!(frag.ends_with("  ret = vec3(1.0);\n  fragColor = vec4(ret, 1.0) * vColor;\n}\n"));
}

#[test]
fn blank_bodies() {
    assert!(is_blank(""));
    assert!(is_blank(" \n\t\u{a0}"));
    assert!(!is_blank(" x "));
}

#[test]
fn warp_source_falls_back_on_blank_body() {
    assert_eq!(warp_fragment_source("  \n"), build_preset_frag(FALLBACK_BODY));
    assert_eq!(warp_fragment_source("ret = 0;"), build_preset_frag("ret = 0;"));
}

#[test]
fn comp_source_declares_gamma_first() {
    assert_eq!(
        comp_fragment_source(""),
        format!("{}{}", GAMMA_UNIFORM, build_preset_frag(FALLBACK_COMP_BODY))
    );
    assert!(comp_fragment_source("ret = 1;").starts_with("uniform float gammaadj;\n#version 300 es"));
}

#[test]
fn mesh_indices_of_a_small_grid() {
    assert_eq!(mesh_indices(2, 2), vec![0, 2, 1, 1, 2, 3]);
    assert_eq!(
        mesh_indices(3, 2),
        vec![0, 3, 1, 1, 3, 4, 1, 4, 2, 2, 4, 5]
    );
    assert_eq!(mesh_indices(1, 5), Vec::<u32>::new());
    assert_eq!(mesh_indices(4, 1), Vec::<u32>::new());
}

#[test]
fn mesh_indices_of_the_warp_mesh() {
    let idx = mesh_indices(48, 36);
    assert_eq!(idx.len(), 47 * 35 * 6);
    assert!(idx.iter().all(|&i| i < 48 * 36));
    assert_eq!(&idx[6 * (47 + 1)..6 * (47 + 2)], &[49, 97, 50, 50, 97, 98]);
}

#[test]
fn motion_grid_samples_mesh_vertices() {
    assert_eq!(motion_grid(1, 1, 48, 36), vec![0]);
    let g = motion_grid(12, 9, 48, 36);
    assert_eq!(g.len(), 108);
    assert_eq!(g[0], 0);
    assert_eq!(g[1], 47 / 12);
    assert_eq!(g[12], (35 / 9) * 48);
    assert_eq!(g[107], (8 * 35 / 9) * 48 + 11 * 47 / 12);
    assert!(g.iter().all(|&v| v < 48 * 36));
}
