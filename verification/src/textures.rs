use vstd::prelude::*;

verus! {

/// `fastrand::u8(..)`: a random byte; which one is left unsaid.
#[verifier::external_body]
fn random_byte() -> (b: u8) {
    fastrand::u8(..)
}

/// The RGBA pixels whose red, green and blue bytes are the given draws, three
/// per pixel in order, each pixel opaque: pixel `i` is
/// `draws[3i], draws[3i+1], draws[3i+2], 255`.
pub fn rgba_from_draws(draws: &Vec<u8>) -> (buf: Vec<u8>)
    requires
        draws.len() % 3 == 0,
        draws.len() / 3 * 4 <= usize::MAX,
    ensures
        buf@.len() == draws.len() / 3 * 4,
        forall|i: int| 0 <= i < draws.len() / 3 ==> #[trigger] buf@[4 * i] == draws@[3 * i],
        forall|i: int| 0 <= i < draws.len() / 3 ==> #[trigger] buf@[4 * i + 1] == draws@[3 * i + 1],
        forall|i: int| 0 <= i < draws.len() / 3 ==> #[trigger] buf@[4 * i + 2] == draws@[3 * i + 2],
        forall|i: int| 0 <= i < draws.len() / 3 ==> #[trigger] buf@[4 * i + 3] == 255,
{
    let n = draws.len() / 3;
    assert(draws.len() == 3 * n);
    let mut buf: Vec<u8> = Vec::new();
    let mut i: usize = 0;
    while i < n
        invariant
            i <= n,
            n == draws.len() / 3,
            draws.len() == 3 * n,
            n * 4 <= usize::MAX,
            buf@.len() == i * 4,
            forall|j: int| 0 <= j < i ==> #[trigger] buf@[4 * j] == draws@[3 * j],
            forall|j: int| 0 <= j < i ==> #[trigger] buf@[4 * j + 1] == draws@[3 * j + 1],
            forall|j: int| 0 <= j < i ==> #[trigger] buf@[4 * j + 2] == draws@[3 * j + 2],
            forall|j: int| 0 <= j < i ==> #[trigger] buf@[4 * j + 3] == 255,
        decreases n - i,
    {
        let ghost before = buf@;
        buf.push(draws[3 * i]);
        buf.push(draws[3 * i + 1]);
        buf.push(draws[3 * i + 2]);
        buf.push(255);
        assert forall|j: int| 0 <= j < i + 1 implies {
            &&& #[trigger] buf@[4 * j] == draws@[3 * j]
            &&& buf@[4 * j + 1] == draws@[3 * j + 1]
            &&& buf@[4 * j + 2] == draws@[3 * j + 2]
            &&& buf@[4 * j + 3] == 255
        } by {
            if j < i {
                assert(buf@[4 * j] == before[4 * j]);
                assert(buf@[4 * j + 1] == before[4 * j + 1]);
                assert(buf@[4 * j + 2] == before[4 * j + 2]);
                assert(buf@[4 * j + 3] == before[4 * j + 3]);
            }
        }
        i += 1;
    }
    buf
}

/// `size` random RGBA pixels: random red, green and blue, opaque alpha. The
/// bytes are `3 * size` random draws laid out by `rgba_from_draws`.
pub fn rand_rgba(size: usize) -> (buf: Vec<u8>)
    requires
        size * 4 <= usize::MAX,
    ensures
        buf@.len() == size * 4,
        forall|i: int| 0 <= i < size ==> #[trigger] buf@[4 * i + 3] == 255,
{
    let mut draws: Vec<u8> = Vec::new();
    let mut k: usize = 0;
    while k < 3 * size
        invariant
            k <= 3 * size,
            size * 4 <= usize::MAX,
            draws@.len() == k,
        decreases 3 * size - k,
    {
        draws.push(random_byte());
        k += 1;
    }
    assert(draws.len() / 3 == size);
    rgba_from_draws(&draws)
}

} // verus!
