//! From note numbers to oscillator frequencies.
//!
//! Note 69 sounds at 440 Hz, and each semitone multiplies the frequency by
//! the twelfth root of two, so that note `n` lies at
//! `(440 / 32) * 2^((n - 9) / 12)` Hz. The oscillators run at whole
//! frequencies: the fraction is cut off.

use vstd::prelude::*;
use vstd::arithmetic::div_mod::lemma_fundamental_div_mod;
use vstd::arithmetic::power::{lemma_pow_distributes, lemma_pow_multiplies, pow};
use vstd::arithmetic::power2::{lemma2_to64, lemma_pow2, lemma_pow2_adds, lemma_pow2_pos, pow2};
use vstd::bits::lemma_u32_shr_is_div;

verus! {

/// Whether `hz` is the frequency of `note` with its fraction cut off:
/// `hz <= (440 / 32) * 2^((note - 9) / 12) < hz + 1`.
///
/// The bounds are stated in whole numbers. `440 / 32` is `55 / 4`; with both
/// sides multiplied by four, raised to the twelfth power and multiplied by
/// `2^9`, the first bound reads `(4 * hz)^12 * 2^9 <= 55^12 * 2^note`, and the
/// second likewise.
pub open spec fn is_floor_hz(note: int, hz: int) -> bool {
    &&& 0 <= note
    &&& 0 <= hz
    &&& pow(4 * hz, 12) * pow2(9) <= pow(55, 12) * pow2(note as nat)
    &&& pow(55, 12) * pow2(note as nat) < pow(4 * (hz + 1), 12) * pow2(9)
}

/// The frequency of a note in whole Hz.
pub open spec fn note_hz(note: u8) -> int {
    choose|hz: int| is_floor_hz(note as int, hz)
}

/// The twelve frequencies of one octave, a semitone apart, each multiplied
/// by `2^22` and cut off: entry `step` is the whole part of
/// `55 * 2^(step / 12) * 2^22`. Every other octave follows by halving.
spec fn top_octave(step: int) -> int {
    if step == 0 {
        230_686_720
    } else if step == 1 {
        244_404_066
    } else if step == 2 {
        258_937_088
    } else if step == 3 {
        274_334_288
    } else if step == 4 {
        290_647_054
    } else if step == 5 {
        307_929_827
    } else if step == 6 {
        326_240_288
    } else if step == 7 {
        345_639_545
    } else if step == 8 {
        366_192_342
    } else if step == 9 {
        387_967_271
    } else if step == 10 {
        411_037_006
    } else if step == 11 {
        435_478_538
    } else {
        0
    }
}

/// Entry `step` of the table of the top octave.
fn top_octave_entry(step: u32) -> (top: u32)
    requires
        step < 12,
    ensures
        top == top_octave(step as int),
{
    if step == 0 {
        230_686_720
    } else if step == 1 {
        244_404_066
    } else if step == 2 {
        258_937_088
    } else if step == 3 {
        274_334_288
    } else if step == 4 {
        290_647_054
    } else if step == 5 {
        307_929_827
    } else if step == 6 {
        326_240_288
    } else if step == 7 {
        345_639_545
    } else if step == 8 {
        366_192_342
    } else if step == 9 {
        387_967_271
    } else if step == 10 {
        411_037_006
    } else {
        435_478_538
    }
}

/// The frequency of a note in whole Hz: `(440 / 32) * 2^((note - 9) / 12)`
/// with its fraction cut off.
pub fn frequency(note: u8) -> (hz: u32)
    ensures
        is_floor_hz(note as int, hz as int),
        hz == note_hz(note),
{
    let shifted: u32 = note as u32 + 3;
    let octave: u32 = shifted / 12;
    let step: u32 = shifted % 12;
    let top: u32 = top_octave_entry(step);
    let shift: u32 = 25 - octave;
    let hz: u32 = top >> shift;
    proof {
        lemma_u32_shr_is_div(top, shift);
        lemma_halved_octaves(note as int, octave as int, step as int, hz as int);
        lemma_floor_hz_unique(note as int, hz as int, note_hz(note));
    }
    hz
}

/// No note has two frequencies.
pub proof fn lemma_floor_hz_unique(note: int, a: int, b: int)
    requires
        is_floor_hz(note, a),
        is_floor_hz(note, b),
    ensures
        a == b,
{
    lemma_floor_hz_le(note, a, b);
    lemma_floor_hz_le(note, b, a);
}

proof fn lemma_floor_hz_le(note: int, a: int, b: int)
    requires
        is_floor_hz(note, a),
        is_floor_hz(note, b),
    ensures
        b <= a,
{
    if a < b {
        lemma_pow_base_le(4 * (a + 1), 4 * b, 12);
        lemma_pow2_pos(9);
        let x = pow(4 * (a + 1), 12);
        let y = pow(4 * b, 12);
        let q = pow2(9) as int;
        assert(x * q <= y * q) by (nonlinear_arith)
            requires
                x <= y,
                0 < q,
        ;
    }
}

/// The entry of the table for the step of a note, halved once for every
/// octave that the note lies below the top one, is the frequency of the note.
proof fn lemma_halved_octaves(note: int, octave: int, step: int, hz: int)
    requires
        0 <= note <= 255,
        0 <= step < 12,
        note + 3 == 12 * octave + step,
        hz == top_octave(step) / (pow2((25 - octave) as nat) as int),
    ensures
        is_floor_hz(note, hz),
{
    let top = top_octave(step);
    let halvings = (25 - octave) as nat;
    let spare = (264 + step - note) as nat;
    let p = pow2(halvings) as int;
    lemma_top_octave(step);
    lemma_pow2_pos(halvings);
    lemma_fundamental_div_mod(top, p);
    assert(0 <= hz && hz * p <= top && top + 1 <= (hz + 1) * p) by (nonlinear_arith)
        requires
            0 < p,
            0 < top,
            hz == top / p,
            top == p * (top / p) + top % p,
            0 <= top % p < p,
    ;
    // The twelfth power of the divisor is `2^33 * 2^spare`.
    lemma_pow2(halvings);
    lemma_pow_multiplies(2, halvings, 12);
    lemma_pow2((halvings * 12) as nat);
    assert(halvings * 12 == 33 + spare);
    lemma_pow2_adds(33, spare);
    lemma_pow2_adds(note as nat, spare);
    lemma_pow2_pos(spare);
    // `(4 * hz)^12 * 2^9` is `hz^12 * 2^33`, and likewise for `hz + 1`.
    lemma2_to64();
    lemma_pow2_adds(24, 9);
    assert(pow(4, 12) == 0x100_0000) by {
        reveal_with_fuel(pow, 13);
    }
    lemma_pow_distributes(4, hz, 12);
    lemma_pow_distributes(4, hz + 1, 12);
    lemma_pow_distributes(hz, p, 12);
    lemma_pow_distributes(hz + 1, p, 12);
    lemma_pow_base_le(hz * p, top, 12);
    lemma_pow_base_le(top + 1, (hz + 1) * p, 12);
    lemma_pow_base_le(0, hz, 12);
    let low = pow(hz, 12);
    let high = pow(hz + 1, 12);
    let base = pow(55, 12);
    let scale = pow2(33) as int;
    let rest = pow2(spare) as int;
    let tone = pow2(note as nat) as int;
    assert(pow(p, 12) == scale * rest);
    assert(low * (scale * rest) <= base * (tone * rest));
    assert(base * (tone * rest) < high * (scale * rest));
    assert(low * scale <= base * tone && base * tone < high * scale) by (nonlinear_arith)
        requires
            0 < rest,
            low * (scale * rest) <= base * (tone * rest),
            base * (tone * rest) < high * (scale * rest),
    ;
    assert(pow(4 * hz, 12) * pow2(9) == low * scale) by (nonlinear_arith)
        requires
            pow(4 * hz, 12) == 0x100_0000 * low,
            scale == 0x100_0000 * pow2(9),
    ;
    assert(pow(4 * (hz + 1), 12) * pow2(9) == high * scale) by (nonlinear_arith)
        requires
            pow(4 * (hz + 1), 12) == 0x100_0000 * high,
            scale == 0x100_0000 * pow2(9),
    ;
}

/// A power with a greater base is no smaller.
proof fn lemma_pow_base_le(a: int, b: int, e: nat)
    requires
        0 <= a <= b,
    ensures
        0 <= pow(a, e) <= pow(b, e),
    decreases e,
{
    reveal(pow);
    if e > 0 {
        lemma_pow_base_le(a, b, (e - 1) as nat);
        let x = pow(a, (e - 1) as nat);
        let y = pow(b, (e - 1) as nat);
        assert(0 <= a * x <= b * y) by (nonlinear_arith)
            requires
                0 <= a <= b,
                0 <= x <= y,
        ;
    }
}

/// Each entry of the table is the whole part that its doc comment names.
proof fn lemma_top_octave(step: int)
    requires
        0 <= step < 12,
    ensures
        0 < top_octave(step) < 0x1_0000_0000,
        pow(top_octave(step), 12) <= pow(55, 12) * pow2((264 + step) as nat),
        pow(55, 12) * pow2((264 + step) as nat) < pow(top_octave(step) + 1, 12),
{
    assert(pow(55, 12) == 766217865410400390625int) by {
        reveal_with_fuel(pow, 13);
    }
    lemma_pow2_264();
    lemma2_to64();
    if step == 0 {
        assert(pow(230_686_720, 12) == 22712823666387715133862593468870713545377484114121179833875356998205455792165448230895616000000000000int) by {
            reveal_with_fuel(pow, 13);
        }
        assert(pow(230_686_721, 12) == 22712824847877011504471402732287340113084639721151254500760208087041546537756245199829477975172055041int) by {
            reveal_with_fuel(pow, 13);
        }
        assert(pow2(264 + 0) == 29642774844752946028434172162224104410437116074403984394101141506025761187823616int) by {
            lemma_pow2_adds(264, 0);
        }
    }
    if step == 1 {
        assert(pow(244_404_066, 12) == 45425646889389103670954761978551077049390185743227089356401231024559146718616234711215319373385568256int) by {
            reveal_with_fuel(pow, 13);
        }
        assert(pow(244_404_067, 12) == 45425649119743875835916952955319951573950310253960832940833031510190133420126530074200083285643528561int) by {
            reveal_with_fuel(pow, 13);
        }
        assert(pow2(264 + 1) == 59285549689505892056868344324448208820874232148807968788202283012051522375647232int) by {
            lemma_pow2_adds(264, 1);
        }
    }
    if step == 2 {
        assert(pow(258_937_088, 12) == 90851293617296889807635123066143607478041142243164377869041270550034628190640197929229806904757190656int) by {
            reveal_with_fuel(pow, 13);
        }
        assert(pow(258_937_089, 12) == 90851297827646032856941256826050020228353852992684773343081687507038145019168822571409365516896619521int) by {
            reveal_with_fuel(pow, 13);
        }
        assert(pow2(264 + 2) == 118571099379011784113736688648896417641748464297615937576404566024103044751294464int) by {
            lemma_pow2_adds(264, 2);
        }
    }
    if step == 3 {
        assert(pow(274_334_288, 12) == 181702583285469607666741654266988434491820685955490977376396207834887840400045056750541673901332627456int) by {
            reveal_with_fuel(pow, 13);
        }
        assert(pow(274_334_289, 12) == 181702591233550246934402074172019137282491737392607865583152607200923023507046214614259618116489629121int) by {
            reveal_with_fuel(pow, 13);
        }
        assert(pow2(264 + 3) == 237142198758023568227473377297792835283496928595231875152809132048206089502588928int) by {
            lemma_pow2_adds(264, 3);
        }
    }
    if step == 4 {
        assert(pow(290_647_054, 12) == 363405171772307047779822059450266999393160956861408209145704677650773957114133232162651227479183855616int) by {
            reveal_with_fuel(pow, 13);
        }
        assert(pow(290_647_055, 12) == 363405186776285528805697531871079747628542879331971931172807871104158525694954280363259984746337890625int) by {
            reveal_with_fuel(pow, 13);
        }
        assert(pow2(264 + 4) == 474284397516047136454946754595585670566993857190463750305618264096412179005177856int) by {
            lemma_pow2_adds(264, 4);
        }
    }
    if step == 5 {
        assert(pow(307_929_827, 12) == 726810337957666310782478145836384517577006838245619348087313537015299083175831373373127390359837783921int) by {
            reveal_with_fuel(pow, 13);
        }
        assert(pow(307_929_828, 12) == 726810366281405833659428968480363510784276860213018355897810816977040778439928076742280671387887599616int) by {
            reveal_with_fuel(pow, 13);
        }
        assert(pow2(264 + 5) == 948568795032094272909893509191171341133987714380927500611236528192824358010355712int) by {
            lemma_pow2_adds(264, 5);
        }
    }
    if step == 6 {
        assert(pow(326_240_288, 12) == 1453620710191460902273074958278230554244129984706901278290071658701933193396939854297345023233235091456int) by {
            reveal_with_fuel(pow, 13);
        }
        assert(pow(326_240_289, 12) == 1453620763659562353839004356445646892557260583567369564168333569312397642906325985703164161225016437121int) by {
            reveal_with_fuel(pow, 13);
        }
        assert(pow2(264 + 6) == 1897137590064188545819787018382342682267975428761855001222473056385648716020711424int) by {
            lemma_pow2_adds(264, 6);
        }
    }
    if step == 7 {
        assert(pow(345_639_545, 12) == 2907241417440921914950737007765318352124028104156684163353767750019146796511633872769533322676025390625int) by {
            reveal_with_fuel(pow, 13);
        }
        assert(pow(345_639_546, 12) == 2907241518375256741800196745228545234758065515660580596634251760926219623441656100970813247706293538816int) by {
            reveal_with_fuel(pow, 13);
        }
        assert(pow2(264 + 7) == 3794275180128377091639574036764685364535950857523710002444946112771297432041422848int) by {
            lemma_pow2_adds(264, 7);
        }
    }
    if step == 8 {
        assert(pow(366_192_342, 12) == 5814482858005827356346785354991096438076245483028581612018333567971192179008545959704720840595502862336int) by {
            reveal_with_fuel(pow, 13);
        }
        assert(pow(366_192_343, 12) == 5814483048544479702147370058472870365026545801636821184481753402091911690009539581081064532391057109601int) by {
            reveal_with_fuel(pow, 13);
        }
        assert(pow2(264 + 8) == 7588550360256754183279148073529370729071901715047420004889892225542594864082845696int) by {
            lemma_pow2_adds(264, 8);
        }
    }
    if step == 9 {
        assert(pow(387_967_271, 12) == 11628965433297009083909615416900005887498050891820820689319894358144982329554608737731275043753789908641int) by {
            reveal_with_fuel(pow, 13);
        }
        assert(pow(387_967_272, 12) == 11628965792986079809295589916936832541531452086633226578246282437627245311292250248156179367217611145216int) by {
            reveal_with_fuel(pow, 13);
        }
        assert(pow2(264 + 9) == 15177100720513508366558296147058741458143803430094840009779784451085189728165691392int) by {
            lemma_pow2_adds(264, 9);
        }
    }
    if step == 10 {
        assert(pow(411_037_006, 12) == 23257931244261156030681564244576818443626246678644439420504469982882853330116877058813578613414565646336int) by {
            reveal_with_fuel(pow, 13);
        }
        assert(pow(411_037_007, 12) == 23257931923263714417475389348727991766382292595855185424154187235707174354815216835382282716387537179201int) by {
            reveal_with_fuel(pow, 13);
        }
        assert(pow2(264 + 10) == 30354201441027016733116592294117482916287606860189680019559568902170379456331382784int) by {
            lemma_pow2_adds(264, 10);
        }
    }
    if step == 11 {
        assert(pow(435_478_538, 12) == 46515862138671333135588662068903964151390283738427691691751297569569742936260375709010577107575562899456int) by {
            reveal_with_fuel(pow, 13);
        }
        assert(pow(435_478_539, 12) == 46515863420457469548767565558447203707094260408238240538849504280123034802802090203677738363114009663121int) by {
            reveal_with_fuel(pow, 13);
        }
        assert(pow2(264 + 11) == 60708402882054033466233184588234965832575213720379360039119137804340758912662765568int) by {
            lemma_pow2_adds(264, 11);
        }
    }
}

/// The value of `2^264`.
proof fn lemma_pow2_264()
    ensures
        pow2(264) == 29642774844752946028434172162224104410437116074403984394101141506025761187823616int,
{
    lemma2_to64();
    lemma_pow2_adds(64, 64);
    lemma_pow2_adds(128, 128);
    lemma_pow2_adds(256, 8);
    let a = pow2(64) as int;
    let b = pow2(128) as int;
    let c = pow2(256) as int;
    assert(a * a == 340282366920938463463374607431768211456int) by (nonlinear_arith)
        requires
            a == 18446744073709551616int,
    ;
    assert(b * b == 115792089237316195423570985008687907853269984665640564039457584007913129639936int) by (nonlinear_arith)
        requires
            b == 340282366920938463463374607431768211456int,
    ;
    assert(c * 256 == 29642774844752946028434172162224104410437116074403984394101141506025761187823616int) by (nonlinear_arith)
        requires
            c == 115792089237316195423570985008687907853269984665640564039457584007913129639936int,
    ;
}

} // verus!
