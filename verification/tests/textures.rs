use khviz::textures::rand_rgba;

#[test]
fn noise_pixels_are_opaque() {
    let buf = rand_rgba(256);
    assert_eq!(buf.len(), 1024);
    for px in buf.chunks(4) {
        assert_eq!(px[3], 255);
    }
    assert!(rand_rgba(0).is_empty());
}

#[test]
fn noise_is_not_constant() {
    let buf = rand_rgba(4096);
    let first = buf[0];
    assert!(buf.chunks(4).any(|px| px[0] != first));
}
