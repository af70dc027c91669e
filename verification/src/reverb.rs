//! The reverb network: comb buffers of different lengths that all receive
//! the same signal.
//!
//! For each sample the caller reads the oldest value of every buffer, forms
//! one diffused value from them and from the input, and feeds that value to
//! all the buffers. Because the lengths share no divisor, the buffers return
//! it at moments that never fall into step.

use vstd::prelude::*;
use vstd::arithmetic::div_mod::lemma_fundamental_div_mod;
use crate::buffer::{shifted, stepped, ReverbBuffer};
use crate::delay::{fed, lemma_fed_slides};

verus! {

/// Number of comb buffers in the network of the synthesizer.
pub const COMBS: usize = 13;

/// The lengths of the comb buffers of the synthesizer, in samples.
pub open spec fn comb_lengths() -> Seq<usize> {
    seq![1597, 2083, 2729, 3259, 4177, 5279, 6737, 7883, 9173, 10151, 11497, 13367, 14029]
}

/// Whether `d` divides `n`.
pub open spec fn divides(d: int, n: int) -> bool {
    n % d == 0
}

/// Whether two numbers have no common divisor above one.
pub open spec fn coprime(a: int, b: int) -> bool {
    forall|d: int| d > 1 ==> !(#[trigger] divides(d, a) && divides(d, b))
}

/// Two numbers of which some multiples differ by one have no common divisor
/// above one.
proof fn lemma_bezout(a: int, b: int, x: int, y: int)
    requires
        x * a + y * b == 1,
    ensures
        coprime(a, b),
{
    assert forall|d: int| d > 1 implies !(#[trigger] divides(d, a) && divides(d, b)) by {
        if divides(d, a) && divides(d, b) {
            lemma_fundamental_div_mod(a, d);
            lemma_fundamental_div_mod(b, d);
            let p = a / d;
            let q = b / d;
            let k = x * p + y * q;
            assert(d * k == 1) by (nonlinear_arith)
                requires
                    a == d * p,
                    b == d * q,
                    k == x * p + y * q,
                    x * a + y * b == 1,
            ;
            assert(false) by (nonlinear_arith)
                requires
                    d > 1,
                    d * k == 1,
            ;
        }
    }
}

/// The lengths of the comb buffers are coprime in pairs, so that no two
/// buffers ever return their contents in step.
pub proof fn lemma_comb_lengths_coprime(i: int, j: int)
    requires
        0 <= i < j < COMBS,
    ensures
        coprime(comb_lengths()[i] as int, comb_lengths()[j] as int),
{
    if i == 0 {
        if j == 1 {
            lemma_bezout(1597, 2083, 30, -23);
        }
        if j == 2 {
            lemma_bezout(1597, 2729, 716, -419);
        }
        if j == 3 {
            lemma_bezout(1597, 3259, -351, 172);
        }
        if j == 4 {
            lemma_bezout(1597, 4177, 1381, -528);
        }
        if j == 5 {
            lemma_bezout(1597, 5279, -119, 36);
        }
        if j == 6 {
            lemma_bezout(1597, 6737, -3050, 723);
        }
        if j == 7 {
            lemma_bezout(1597, 7883, 2705, -548);
        }
        if j == 8 {
            lemma_bezout(1597, 9173, 471, -82);
        }
        if j == 9 {
            lemma_bezout(1597, 10151, 2676, -421);
        }
        if j == 10 {
            lemma_bezout(1597, 11497, 3290, -457);
        }
        if j == 11 {
            lemma_bezout(1597, 13367, -6152, 735);
        }
        if j == 12 {
            lemma_bezout(1597, 14029, -6729, 766);
        }
    }
    if i == 1 {
        if j == 2 {
            lemma_bezout(2083, 2729, -207, 158);
        }
        if j == 3 {
            lemma_bezout(2083, 3259, -945, 604);
        }
        if j == 4 {
            lemma_bezout(2083, 4177, 1139, -568);
        }
        if j == 5 {
            lemma_bezout(2083, 5279, -2215, 874);
        }
        if j == 6 {
            lemma_bezout(2083, 6737, -2057, 636);
        }
        if j == 7 {
            lemma_bezout(2083, 7883, -1703, 450);
        }
        if j == 8 {
            lemma_bezout(2083, 9173, -1647, 374);
        }
        if j == 9 {
            lemma_bezout(2083, 10151, -3499, 718);
        }
        if j == 10 {
            lemma_bezout(2083, 11497, 1987, -360);
        }
        if j == 11 {
            lemma_bezout(2083, 13367, 4107, -640);
        }
        if j == 12 {
            lemma_bezout(2083, 14029, 1347, -200);
        }
    }
    if i == 2 {
        if j == 3 {
            lemma_bezout(2729, 3259, -990, 829);
        }
        if j == 4 {
            lemma_bezout(2729, 4177, -2051, 1340);
        }
        if j == 5 {
            lemma_bezout(2729, 5279, 1799, -930);
        }
        if j == 6 {
            lemma_bezout(2729, 6737, -2876, 1165);
        }
        if j == 7 {
            lemma_bezout(2729, 7883, 2256, -781);
        }
        if j == 8 {
            lemma_bezout(2729, 9173, 1442, -429);
        }
        if j == 9 {
            lemma_bezout(2729, 10151, -1380, 371);
        }
        if j == 10 {
            lemma_bezout(2729, 11497, -5422, 1287);
        }
        if j == 11 {
            lemma_bezout(2729, 13367, -5241, 1070);
        }
        if j == 12 {
            lemma_bezout(2729, 14029, -3763, 732);
        }
    }
    if i == 3 {
        if j == 4 {
            lemma_bezout(3259, 4177, -2043, 1594);
        }
        if j == 5 {
            lemma_bezout(3259, 5279, 1095, -676);
        }
        if j == 6 {
            lemma_bezout(3259, 6737, -1815, 878);
        }
        if j == 7 {
            lemma_bezout(3259, 7883, 1669, -690);
        }
        if j == 8 {
            lemma_bezout(3259, 9173, -2111, 750);
        }
        if j == 9 {
            lemma_bezout(3259, 10151, -190, 61);
        }
        if j == 10 {
            lemma_bezout(3259, 11497, 127, -36);
        }
        if j == 11 {
            lemma_bezout(3259, 13367, -525, 128);
        }
        if j == 12 {
            lemma_bezout(3259, 14029, -4860, 1129);
        }
    }
    if i == 4 {
        if j == 5 {
            lemma_bezout(4177, 5279, 1394, -1103);
        }
        if j == 6 {
            lemma_bezout(4177, 6737, -2229, 1382);
        }
        if j == 7 {
            lemma_bezout(4177, 7883, 636, -337);
        }
        if j == 8 {
            lemma_bezout(4177, 9173, 112, -51);
        }
        if j == 9 {
            lemma_bezout(4177, 10151, 1480, -609);
        }
        if j == 10 {
            lemma_bezout(4177, 11497, -2524, 917);
        }
        if j == 11 {
            lemma_bezout(4177, 13367, -4461, 1394);
        }
        if j == 12 {
            lemma_bezout(4177, 14029, 2257, -672);
        }
    }
    if i == 5 {
        if j == 6 {
            lemma_bezout(5279, 6737, 134, -105);
        }
        if j == 7 {
            lemma_bezout(5279, 7883, 3775, -2528);
        }
        if j == 8 {
            lemma_bezout(5279, 9173, -2179, 1254);
        }
        if j == 9 {
            lemma_bezout(5279, 10151, 848, -441);
        }
        if j == 10 {
            lemma_bezout(5279, 11497, -1004, 461);
        }
        if j == 11 {
            lemma_bezout(5279, 13367, 276, -109);
        }
        if j == 12 {
            lemma_bezout(5279, 14029, -3096, 1165);
        }
    }
    if i == 6 {
        if j == 7 {
            lemma_bezout(6737, 7883, 2552, -2181);
        }
        if j == 8 {
            lemma_bezout(6737, 9173, 2233, -1640);
        }
        if j == 9 {
            lemma_bezout(6737, 10151, 3458, -2295);
        }
        if j == 10 {
            lemma_bezout(6737, 11497, 756, -443);
        }
        if j == 11 {
            lemma_bezout(6737, 13367, 3373, -1700);
        }
        if j == 12 {
            lemma_bezout(6737, 14029, 4373, -2100);
        }
    }
    if i == 7 {
        if j == 8 {
            lemma_bezout(7883, 9173, -3079, 2646);
        }
        if j == 9 {
            lemma_bezout(7883, 10151, -1938, 1505);
        }
        if j == 10 {
            lemma_bezout(7883, 11497, -2001, 1372);
        }
        if j == 11 {
            lemma_bezout(7883, 13367, 3332, -1965);
        }
        if j == 12 {
            lemma_bezout(7883, 14029, -3481, 1956);
        }
    }
    if i == 8 {
        if j == 9 {
            lemma_bezout(9173, 10151, 301, -272);
        }
        if j == 10 {
            lemma_bezout(9173, 11497, -1776, 1417);
        }
        if j == 11 {
            lemma_bezout(9173, 13367, 5466, -3751);
        }
        if j == 12 {
            lemma_bezout(9173, 14029, 2811, -1838);
        }
    }
    if i == 9 {
        if j == 10 {
            lemma_bezout(10151, 11497, 5646, -4985);
        }
        if j == 11 {
            lemma_bezout(10151, 13367, -2498, 1897);
        }
        if j == 12 {
            lemma_bezout(10151, 14029, -1769, 1280);
        }
    }
    if i == 10 {
        if j == 11 {
            lemma_bezout(11497, 13367, -193, 166);
        }
        if j == 12 {
            lemma_bezout(11497, 14029, -5380, 4409);
        }
    }
    if i == 11 {
        if j == 12 {
            lemma_bezout(13367, 14029, 5192, -4947);
        }
    }
}

/// The windows of a network after `value` has been fed to it: every buffer
/// has lost its oldest value and has `value` as its newest.
pub open spec fn diffused<T>(windows: Seq<Seq<T>>, value: T) -> Seq<Seq<T>> {
    Seq::new(windows.len(), |i: int| shifted(windows[i], value))
}

/// The windows of a network whose buffers have the given lengths and hold
/// `fill` in every cell.
pub open spec fn filled<T>(lengths: Seq<usize>, fill: T) -> Seq<Seq<T>> {
    Seq::new(lengths.len(), |i: int| Seq::new(lengths[i] as nat, |j: int| fill))
}

/// The windows of a network after each of `values` has been fed to it in
/// turn.
pub open spec fn run<T>(windows: Seq<Seq<T>>, values: Seq<T>) -> Seq<Seq<T>>
    decreases values.len(),
{
    if values.len() == 0 {
        windows
    } else {
        diffused(run(windows, values.drop_last()), values.last())
    }
}

/// Every buffer of a network is a delay line of its own on the common feed.
pub proof fn lemma_run_by_buffer<T>(windows: Seq<Seq<T>>, values: Seq<T>, i: int)
    requires
        0 <= i < windows.len(),
    ensures
        run(windows, values).len() == windows.len(),
        run(windows, values)[i] == fed(windows[i], values),
    decreases values.len(),
{
    if values.len() > 0 {
        lemma_run_by_buffer(windows, values.drop_last(), i);
    }
}

/// What a tap of a network returns that started with `fill` in every cell:
/// `fill` until as many values have been fed as the buffer is long, and from
/// then on the value that was fed that many samples ago.
pub proof fn lemma_tap_of_run<T>(lengths: Seq<usize>, fill: T, values: Seq<T>, i: int)
    requires
        0 <= i < lengths.len(),
        lengths[i] > 0,
    ensures
        run(filled(lengths, fill), values)[i].len() == lengths[i],
        run(filled(lengths, fill), values)[i].first() == if values.len() < lengths[i] {
            fill
        } else {
            values[values.len() - lengths[i]]
        },
{
    let windows = filled(lengths, fill);
    lemma_run_by_buffer(windows, values, i);
    lemma_fed_slides(windows[i], values);
}

/// A run has no hidden state: two networks that hold the same values and are
/// fed the same values hold the same values afterwards, and so return the
/// same at every tap. Two networks made alike by `new` hold the same values.
pub proof fn lemma_runs_agree<T: Copy>(
    first: ReverbNetwork<T>,
    second: ReverbNetwork<T>,
    values: Seq<T>,
    i: int,
)
    requires
        first@ == second@,
        0 <= i < first@.len(),
    ensures
        run(first@, values) == run(second@, values),
        run(first@, values)[i].first() == run(second@, values)[i].first(),
{
}

/// A bank of comb buffers.
pub struct ReverbNetwork<T> {
    combs: Vec<ReverbBuffer<T>>,
}

impl<T: Copy> View for ReverbNetwork<T> {
    type V = Seq<Seq<T>>;

    /// The values in each buffer, oldest first.
    closed spec fn view(&self) -> Seq<Seq<T>> {
        Seq::new(self.combs@.len(), |i: int| self.combs@[i]@)
    }
}

impl<T: Copy> ReverbNetwork<T> {
    /// Every buffer holds at least one value.
    pub closed spec fn wf(&self) -> bool {
        forall|i: int| 0 <= i < self.combs@.len() ==> (#[trigger] self.combs@[i]).wf()
    }

    /// The cell of buffer `i` that is read and written next, counted from
    /// zero.
    pub closed spec fn cursor(&self, i: int) -> int {
        self.combs@[i].cursor()
    }

    /// No buffer of a well-formed network is empty.
    pub proof fn lemma_wf(&self)
        requires
            self.wf(),
        ensures
            forall|i: int| 0 <= i < self@.len() ==> (#[trigger] self@[i]).len() > 0,
            forall|i: int| 0 <= i < self@.len() ==> 0 <= #[trigger] self.cursor(i) < self@[i].len(),
    {
        assert forall|i: int| 0 <= i < self@.len() implies (#[trigger] self@[i]).len() > 0 by {
            self.combs@[i].lemma_wf();
        }
        assert forall|i: int| 0 <= i < self@.len() implies 0 <= #[trigger] self.cursor(i)
            < self@[i].len() by {
            self.combs@[i].lemma_wf();
        }
    }

    /// A network with one buffer for each of `lengths`, every cell holding
    /// `fill`.
    pub fn new(lengths: &Vec<usize>, fill: T) -> (network: ReverbNetwork<T>)
        requires
            forall|i: int| 0 <= i < lengths@.len() ==> lengths@[i] > 0,
        ensures
            network.wf(),
            network@ == filled(lengths@, fill),
            forall|i: int| 0 <= i < lengths@.len() ==> #[trigger] network.cursor(i) == 0,
    {
        let mut combs: Vec<ReverbBuffer<T>> = Vec::new();
        let mut n: usize = 0;
        while n < lengths.len()
            invariant
                n <= lengths@.len(),
                combs@.len() == n,
                forall|i: int| 0 <= i < lengths@.len() ==> lengths@[i] > 0,
                forall|i: int| 0 <= i < n ==> (#[trigger] combs@[i]).wf(),
                forall|i: int| 0 <= i < n ==> (#[trigger] combs@[i]).cursor() == 0,
                forall|i: int|
                    0 <= i < n ==> (#[trigger] combs@[i])@ == Seq::new(
                        lengths@[i] as nat,
                        |j: int| fill,
                    ),
            decreases lengths@.len() - n,
        {
            combs.push(ReverbBuffer::new(lengths[n], fill));
            n = n + 1;
        }
        let network = ReverbNetwork { combs };
        assert(network@ =~= filled(lengths@, fill));
        network
    }

    /// The network of the synthesizer: thirteen buffers of the lengths of
    /// [`comb_lengths`].
    pub fn reference(fill: T) -> (network: ReverbNetwork<T>)
        ensures
            network.wf(),
            network@.len() == COMBS,
            network@ == filled(comb_lengths(), fill),
    {
        let lengths = reference_lengths();
        ReverbNetwork::new(&lengths, fill)
    }

    /// The number of buffers.
    pub fn count(&self) -> (n: usize)
        ensures
            n == self@.len(),
    {
        self.combs.len()
    }

    /// The oldest value of buffer `i`: the one that was fed to the network
    /// as many samples ago as that buffer is long.
    pub fn tap(&self, i: usize) -> (value: T)
        requires
            self.wf(),
            i < self@.len(),
        ensures
            value == self@[i as int].first(),
    {
        self.combs[i].read()
    }

    /// Writes `value` into every buffer at its cursor and moves every cursor
    /// on.
    pub fn feed(&mut self, value: T)
        requires
            old(self).wf(),
        ensures
            final(self).wf(),
            final(self)@ == diffused(old(self)@, value),
            forall|i: int|
                0 <= i < old(self)@.len() ==> #[trigger] final(self).cursor(i) == stepped(
                    old(self).cursor(i),
                    old(self)@[i].len(),
                ),
    {
        let mut n: usize = 0;
        while n < self.combs.len()
            invariant
                n <= self.combs@.len(),
                self.combs@.len() == old(self).combs@.len(),
                self.wf(),
                forall|i: int|
                    0 <= i < n ==> (#[trigger] self.combs@[i])@ == shifted(
                        old(self).combs@[i]@,
                        value,
                    ),
                forall|i: int|
                    n <= i < self.combs@.len() ==> (#[trigger] self.combs@[i]) == old(
                        self,
                    ).combs@[i],
                forall|i: int|
                    0 <= i < n ==> (#[trigger] self.combs@[i]).cursor() == stepped(
                        old(self).combs@[i].cursor(),
                        old(self).combs@[i]@.len(),
                    ),
            decreases self.combs@.len() - n,
        {
            proof {
                self.combs@[n as int].lemma_wf();
            }
            self.combs[n].push(value);
            n = n + 1;
        }
        assert(self@ =~= diffused(old(self)@, value));
    }
}

/// The lengths of the comb buffers of the synthesizer, in samples.
pub fn reference_lengths() -> (lengths: Vec<usize>)
    ensures
        lengths@ == comb_lengths(),
{
    let lengths: Vec<usize> = vec![
        1597,
        2083,
        2729,
        3259,
        4177,
        5279,
        6737,
        7883,
        9173,
        10151,
        11497,
        13367,
        14029,
    ];
    assert(lengths@ =~= comb_lengths());
    lengths
}

} // verus!
