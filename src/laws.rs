use vstd::prelude::*;
use vstd::arithmetic::div_mod::lemma_fundamental_div_mod_converse;
use crate::display::{
    screen_wf, sprite_screen, sprite_erases, sprite_flips, sprite_lights, row_flips, draw_row,
    row_bit, flip, pixel_index, column_offset, PIXELS,
};
use crate::machine::{op_x, op_y, op_n, op_nn,
    Machine, machine_wf, fetch, step_result, initial, loaded, wrap16, op_nnn, FLAG_REGISTER,
    FONT_SIZE, MEMORY_SIZE, PROGRAM_START,
};

verus! {

/// The fields of an opcode assembled from a family, two register nibbles and a low nibble.
proof fn lemma_decode(op: u16, family: int, x: int, y: int, n: int)
    requires
        0 <= family < 16,
        0 <= x < 16,
        0 <= y < 16,
        0 <= n < 16,
        op == family * 4096 + x * 256 + y * 16 + n,
    ensures
        op as int / 4096 == family,
        op_x(op) == x,
        op_y(op) == y,
        op_n(op) == n,
        op_nn(op) == y * 16 + n,
{
    let v = op as int;
    lemma_fundamental_div_mod_converse(v, 4096, family, x * 256 + y * 16 + n);
    lemma_fundamental_div_mod_converse(v, 256, family * 16 + x, y * 16 + n);
    lemma_fundamental_div_mod_converse(family * 16 + x, 16, family, x);
    lemma_fundamental_div_mod_converse(v, 16, family * 256 + x * 16 + y, n);
    lemma_fundamental_div_mod_converse(family * 256 + x * 16 + y, 16, family * 16 + x, y);
}

/// Loading an immediate byte into a register and then reading that
/// register gives the byte back.
pub proof fn load_immediate_then_read(s: Machine, x: int, v: u8, random: u8)
    requires
        machine_wf(s),
        0 <= x < 16,
        fetch(s) == 0x6000 + x * 256 + v,
    ensures
        step_result(s, random) matches Ok(t) && t.registers[x] == v,
{
    lemma_decode(fetch(s), 6, x, v as int / 16, v as int % 16);
}

/// Adding with carry leaves the sum modulo 256 in the destination register
/// and sets the flag register to whether the sum reached 256. The destination
/// is not the flag register itself, which the flag overwrites.
pub proof fn add_with_carry(s: Machine, x: int, y: int, random: u8)
    requires
        machine_wf(s),
        0 <= x < 15,
        0 <= y < 16,
        fetch(s) == 0x8004 + x * 256 + y * 16,
    ensures
        ({
            let a = s.registers[x];
            let b = s.registers[y];
            step_result(s, random) matches Ok(t) && t.registers[x] == (a + b) % 256
                && t.registers[FLAG_REGISTER as int] == if a + b >= 256 { 1u8 } else { 0u8 }
        }),
{
    lemma_decode(fetch(s), 8, x, y, 4);
}

/// Subtracting with borrow leaves the difference modulo 256 in the
/// destination register and sets the flag register to whether no borrow was
/// needed. The destination is not the flag register itself.
pub proof fn subtract_with_borrow(s: Machine, x: int, y: int, random: u8)
    requires
        machine_wf(s),
        0 <= x < 15,
        0 <= y < 16,
        fetch(s) == 0x8005 + x * 256 + y * 16,
    ensures
        ({
            let a = s.registers[x];
            let b = s.registers[y];
            step_result(s, random) matches Ok(t) && t.registers[x] == (a - b) % 256
                && t.registers[FLAG_REGISTER as int] == if a >= b { 1u8 } else { 0u8 }
        }),
{
    lemma_decode(fetch(s), 8, x, y, 5);
}

/// A call pushes the address of the next instruction; a return that later
/// finds that stack resumes there, with the stack as it was before the call.
pub proof fn call_then_return(s: Machine, u: Machine, r1: u8, r2: u8)
    requires
        machine_wf(s),
        machine_wf(u),
        fetch(s) / 4096 == 0x2,
        u.stack == s.stack.push(wrap16(s.pc + 2)),
        fetch(u) == 0x00EE,
    ensures
        step_result(s, r1) matches Ok(t) && t.pc == op_nnn(fetch(s)) && t.stack == u.stack,
        step_result(u, r2) matches Ok(v) && v.pc == wrap16(s.pc + 2) && v.stack == s.stack,
{
    assert(u.stack.drop_last() =~= s.stack);
}

/// Skip-if-equal moves the program counter on by four bytes when the
/// register holds the immediate byte, and by two when it does not.
pub proof fn skip_if_equal(s: Machine, x: int, v: u8, random: u8)
    requires
        machine_wf(s),
        0 <= x < 16,
        fetch(s) == 0x3000 + x * 256 + v,
    ensures
        step_result(s, random) matches Ok(t) && t.pc == wrap16(
            s.pc + if s.registers[x] == v { 4int } else { 2int },
        ),
{
    lemma_decode(fetch(s), 3, x, v as int / 16, v as int % 16);
}

/// Loading an empty program into a fresh machine leaves every byte above the
/// font zero and the program counter at the program start.
pub proof fn empty_program_on_fresh_machine()
    ensures
        loaded(initial(), Seq::empty()) == initial(),
        forall|a: int|
            FONT_SIZE <= a < MEMORY_SIZE ==> #[trigger] loaded(initial(), Seq::empty()).memory[a] == 0,
        loaded(initial(), Seq::empty()).pc == PROGRAM_START,
{
    assert(loaded(initial(), Seq::empty()).memory =~= initial().memory);
}

/// Rows of a sprite less than 32 rows apart lie on different screen rows.
proof fn lemma_rows_apart(y: int, j: int, k: int, b1: u8, b2: u8, x: int, p: int)
    requires
        0 <= j < k < 32,
        row_flips(b1, x, y + j, p),
    ensures
        !row_flips(b2, x, y + k, p),
{
    vstd::arithmetic::div_mod::lemma_fundamental_div_mod(y + j, 32);
    vstd::arithmetic::div_mod::lemma_fundamental_div_mod(y + k, 32);
}

/// A sprite of at most 32 rows flips each pixel under it once: the screen
/// after it is the old one with those pixels inverted, and it reports a
/// collision exactly when one of those pixels was set.
proof fn lemma_sprite_pixels(s: Seq<u8>, rows: Seq<u8>, x: int, y: int)
    requires
        s.len() == PIXELS,
        rows.len() <= 32,
    ensures
        sprite_screen(s, rows, x, y).len() == s.len(),
        forall|p: int|
            0 <= p < s.len() ==> #[trigger] sprite_screen(s, rows, x, y)[p] == if sprite_flips(
                rows,
                x,
                y,
                p,
            ) {
                flip(s[p])
            } else {
                s[p]
            },
        sprite_erases(s, rows, x, y) == exists|p: int|
            0 <= p < s.len() && #[trigger] sprite_flips(rows, x, y, p) && s[p] == 1,
    decreases rows.len(),
{
    if rows.len() > 0 {
        let front = rows.drop_last();
        let n = rows.len() - 1;
        let last = rows.last();
        lemma_sprite_pixels(s, front, x, y);
        let prev = sprite_screen(s, front, x, y);
        assert forall|p: int| 0 <= p < s.len() implies (sprite_flips(rows, x, y, p) == (
        sprite_flips(front, x, y, p) || row_flips(last, x, y + n, p))) && (row_flips(
            last,
            x,
            y + n,
            p,
        ) ==> !sprite_flips(front, x, y, p)) by {
            if sprite_flips(rows, x, y, p) {
                let k = choose|k: int| 0 <= k < rows.len() && #[trigger] row_flips(rows[k], x, y + k, p);
                if k < n {
                    assert(front[k] == rows[k]);
                }
            }
            if sprite_flips(front, x, y, p) {
                let k = choose|k: int| 0 <= k < front.len() && #[trigger] row_flips(front[k], x, y + k, p);
                assert(rows[k] == front[k]);
                if row_flips(last, x, y + n, p) {
                    lemma_rows_apart(y, k, n, front[k], last, x, p);
                }
            }
            if row_flips(last, x, y + n, p) {
                assert(rows[n] == last);
            }
        }
        if sprite_erases(s, rows, x, y) {
            if !sprite_erases(s, front, x, y) {
                let p = choose|p: int|
                    0 <= p < prev.len() && row_flips(last, x, y + n, p) && prev[p] == 1;
                assert(sprite_flips(rows, x, y, p) && s[p] == 1);
            } else {
                let p = choose|p: int|
                    0 <= p < s.len() && #[trigger] sprite_flips(front, x, y, p) && s[p] == 1;
                assert(sprite_flips(rows, x, y, p) && s[p] == 1);
            }
        }
        if exists|p: int| 0 <= p < s.len() && #[trigger] sprite_flips(rows, x, y, p) && s[p] == 1 {
            let p = choose|p: int| 0 <= p < s.len() && #[trigger] sprite_flips(rows, x, y, p) && s[p] == 1;
            if !sprite_flips(front, x, y, p) {
                assert(prev[p] == 1);
            }
        }
    }
}

/// Drawing the same sprite of at most 32 rows twice at the same place
/// restores the screen, and the second draw reports a collision exactly
/// when the first turned on some pixel that was off.
pub proof fn sprite_drawn_twice(screen: Seq<u8>, rows: Seq<u8>, x: int, y: int)
    requires
        screen_wf(screen),
        rows.len() <= 32,
    ensures
        sprite_screen(sprite_screen(screen, rows, x, y), rows, x, y) == screen,
        sprite_erases(sprite_screen(screen, rows, x, y), rows, x, y) == sprite_lights(
            screen,
            rows,
            x,
            y,
        ),
{
    lemma_sprite_pixels(screen, rows, x, y);
    let t = sprite_screen(screen, rows, x, y);
    lemma_sprite_pixels(t, rows, x, y);
    assert(sprite_screen(t, rows, x, y) =~= screen);
    if sprite_erases(t, rows, x, y) {
        let p = choose|p: int| 0 <= p < t.len() && #[trigger] sprite_flips(rows, x, y, p) && t[p] == 1;
        assert(screen[p] <= 1);
    }
    if sprite_lights(screen, rows, x, y) {
        let p = choose|p: int| 0 <= p < screen.len() && #[trigger] sprite_flips(rows, x, y, p) && screen[p] == 0;
        assert(t[p] == 1);
    }
}

/// A sprite row drawn at column 60 covers columns 60 to 63 with its first
/// four bits and wraps its last four bits to columns 0 to 3 of the same row.
pub proof fn row_wraps_at_right_edge(screen: Seq<u8>, byte: u8, y: int)
    requires
        screen_wf(screen),
    ensures
        forall|k: int|
            0 <= k < 4 ==> {
                let p = pixel_index(60 + k, y % 32);
                #[trigger] draw_row(screen, byte, 60, y)[pixel_index(60 + k, y % 32)] == if row_bit(byte, k) {
                    flip(screen[p])
                } else {
                    screen[p]
                }
            },
        forall|k: int|
            4 <= k < 8 ==> {
                let p = pixel_index(k - 4, y % 32);
                #[trigger] draw_row(screen, byte, 60, y)[pixel_index(k - 4, y % 32)] == if row_bit(byte, k) {
                    flip(screen[p])
                } else {
                    screen[p]
                }
            },
{
    assert forall|k: int| 0 <= k < 4 implies {
        let p = pixel_index(60 + k, y % 32);
        #[trigger] draw_row(screen, byte, 60, y)[pixel_index(60 + k, y % 32)] == if row_bit(byte, k) {
            flip(screen[p])
        } else {
            screen[p]
        }
    } by {
        let p = pixel_index(60 + k, y % 32);
        lemma_fundamental_div_mod_converse(p, 64, y % 32, 60 + k);
        assert(column_offset(60, p) == k);
    }
    assert forall|k: int| 4 <= k < 8 implies {
        let p = pixel_index(k - 4, y % 32);
        #[trigger] draw_row(screen, byte, 60, y)[pixel_index(k - 4, y % 32)] == if row_bit(byte, k) {
            flip(screen[p])
        } else {
            screen[p]
        }
    } by {
        let p = pixel_index(k - 4, y % 32);
        lemma_fundamental_div_mod_converse(p, 64, y % 32, k - 4);
        assert(column_offset(60, p) == k);
    }
}

} // verus!
