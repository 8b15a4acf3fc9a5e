use crate::display::{covers, lemma_draw_twice, on_screen, pixel_index, Pixel};
use crate::machine::{n_of, step_result, x_of, y_of, MachineState};
use vstd::prelude::*;

verus! {

/// `8xy4` adds with carry: for any register values `a` in `Vx` and `b` in
/// `Vy`, `Vx` becomes `(a + b) mod 256` and the flag `VF` is 1 exactly when
/// `a + b > 255`. (`Vx` must not be `VF` itself, which the flag overwrites.)
pub proof fn theorem_add_sets_carry(s: MachineState, instr: u16, random: u8, delay: u8)
    requires
        s.wf(),
        instr / 4096 == 0x8,
        n_of(instr) == 0x4,
        x_of(instr) != 15,
    ensures
        ({
            let (a, b) = (s.v[x_of(instr)], s.v[y_of(instr)]);
            let t = step_result(s, instr, random, delay)->Ok_0;
            &&& step_result(s, instr, random, delay) is Ok
            &&& t.v[x_of(instr)] == (a + b) % 256
            &&& (t.v[15] == 1 <==> a + b > 255)
            &&& (t.v[15] == 0 <==> a + b <= 255)
        }),
{
}

/// `8xy5` subtracts with borrow: for any register values `a` in `Vx` and
/// `b` in `Vy`, `Vx` becomes `(a - b) mod 256` and the flag `VF` is 0 exactly
/// when `a < b`, 1 otherwise. (`Vx` must not be `VF` itself, which the flag
/// overwrites.)
pub proof fn theorem_subtract_sets_borrow(s: MachineState, instr: u16, random: u8, delay: u8)
    requires
        s.wf(),
        instr / 4096 == 0x8,
        n_of(instr) == 0x5,
        x_of(instr) != 15,
    ensures
        ({
            let (a, b) = (s.v[x_of(instr)], s.v[y_of(instr)]);
            let t = step_result(s, instr, random, delay)->Ok_0;
            &&& step_result(s, instr, random, delay) is Ok
            &&& t.v[x_of(instr)] == (a - b) % 256
            &&& (t.v[15] == 0 <==> a < b)
            &&& (t.v[15] == 1 <==> a >= b)
        }),
{
}

/// `00E0` turns every pixel off, whatever the screen showed before.
pub proof fn theorem_clear_screen(s: MachineState, random: u8, delay: u8)
    requires
        s.wf(),
    ensures
        step_result(s, 0x00E0, random, delay) is Ok,
        forall|k: int|
            0 <= k < 2048 ==> #[trigger] step_result(s, 0x00E0, random, delay)->Ok_0.pixels[k]
                == Pixel::Off,
        step_result(s, 0x00E0, random, delay)->Ok_0.pixels.len() == 2048,
{
}

/// Executing the same `Dxyn` twice, with neither `Vx` nor `Vy` being the flag
/// register, gives the screen back as it was; the second drawing sets the
/// flag exactly when the sprite covers an on-screen pixel that was off before
/// the first, that is, one the first drawing turned on.
pub proof fn theorem_draw_twice_restores(s: MachineState, instr: u16, random: u8, delay: u8)
    requires
        s.wf(),
        instr / 4096 == 0xD,
        x_of(instr) != 15,
        y_of(instr) != 15,
    ensures
        ({
            let once = step_result(s, instr, random, delay)->Ok_0;
            let twice = step_result(once, instr, random, delay)->Ok_0;
            let (x0, y0) = (s.v[x_of(instr)] as int, s.v[y_of(instr)] as int);
            &&& step_result(s, instr, random, delay) is Ok
            &&& step_result(once, instr, random, delay) is Ok
            &&& twice.pixels == s.pixels
            &&& (twice.v[15] == 1 <==> exists|x: int, y: int|
                on_screen(x, y) && covers(s.ram, s.i, x0, y0, n_of(instr), x, y)
                    && #[trigger] s.pixels[pixel_index(x, y)] == Pixel::Off)
        }),
{
    let (x0, y0) = (s.v[x_of(instr)] as int, s.v[y_of(instr)] as int);
    lemma_draw_twice(s.pixels, s.ram, s.i, x0, y0, n_of(instr));
}

} // verus!
