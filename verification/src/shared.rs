//! Random connection numbers.

use vstd::prelude::*;

verus! {

/// `rand::random::<u16>()`: a number from the thread-local generator. The
/// contract states nothing of it, since it is chance.
#[verifier::external_body]
fn random_u16() -> (r: u16) {
    rand::random::<u16>()
}

/// Whether a drawn number may serve as a connection number: neither 0 nor
/// `u16::MAX`.
pub fn accept_id(d: u16) -> (r: bool)
    ensures
        r == (1 <= d && d < u16::MAX),
{
    d != 0 && d != u16::MAX
}

/// The connection number a refused draw `d` (0 or `u16::MAX`) stands for
/// when no draw was accepted: `d % (u16::MAX - 1) + 1`.
pub open spec fn fallback_id(d: u16) -> int {
    (d as int) % (u16::MAX - 1) + 1
}

/// Whether `t` is the connection number that the draw `d` yields: `d`
/// itself when accepted, else `fallback_id(d)`.
pub open spec fn id_from_draw(d: u16, t: u16) -> bool {
    if 1 <= d && d < u16::MAX {
        t == d
    } else {
        t == fallback_id(d)
    }
}

/// A connection number taken from the draws of `draw`: the first number
/// `accept_id` accepts. Should `u64::MAX` draws in a row be refused, the
/// number comes from the last of them. Either way the number is in
/// `1..u16::MAX` and is the one a value `draw` gave yields.
pub fn pick_id<F: Fn() -> u16>(draw: F) -> (t: u16)
    requires
        call_requires(draw, ()),
    ensures
        1 <= t && t < u16::MAX,
        exists|d: u16| #[trigger] call_ensures(draw, (), d) && id_from_draw(d, t),
{
    let mut t: u16 = draw();
    let mut left: u64 = u64::MAX;
    while !accept_id(t) && left > 0
        invariant
            call_requires(draw, ()),
            call_ensures(draw, (), t),
        decreases left,
    {
        t = draw();
        left = left - 1;
    }
    if accept_id(t) {
        t
    } else {
        let r: u16 = t % (u16::MAX - 1) + 1;
        assert(id_from_draw(t, r));
        r
    }
}

/// Whether `d` is a value the random generator may give.
pub closed spec fn drawn(d: u16) -> bool {
    call_ensures(random_u16, (), d)
}

/// A random connection number in `1..u16::MAX`, taken from the draws of
/// the random generator as `pick_id` takes it.
pub fn get_random_id() -> (t: u16)
    ensures
        1 <= t && t < u16::MAX,
        exists|d: u16| #[trigger] drawn(d) && id_from_draw(d, t),
{
    let t = pick_id(random_u16);
    proof {
        let d = choose|d: u16| call_ensures(random_u16, (), d) && id_from_draw(d, t);
        assert(drawn(d) && id_from_draw(d, t));
    }
    t
}

} // verus!
