//! Channel histograms of a raw interleaved frame. The buffer is walked
//! sample by sample; sample `i` belongs to channel `i % channel_count`, and
//! each channel has one bucket per possible 8-bit value. The controller
//! swaps channels 0 and 2 afterwards to compensate for the device's BGR
//! channel order.
use vstd::prelude::*;
use vstd::pervasive::VecAdditionalExecFns;

verus! {

/// Per-channel bucket counts: one row of 256 buckets per colour channel.
#[derive(Clone, Debug, PartialEq)]
pub struct ChannelHistogram {
    pub channels: Vec<Vec<u32>>,
}

/// How many samples of channel `c` (indices congruent to `c` modulo `nch`)
/// in `s` hold the value `v`.
pub open spec fn hist_count(s: Seq<u8>, nch: int, c: int, v: int) -> nat
    decreases s.len(),
{
    if s.len() == 0 {
        0
    } else {
        hist_count(s.drop_last(), nch, c, v)
            + (if (s.len() - 1) % nch == c && s.last() == v { 1nat } else { 0nat })
    }
}

/// Extending the walked prefix by one sample bumps exactly the bucket of
/// that sample's channel and value.
proof fn lemma_hist_count_step(s: Seq<u8>, i: int, nch: int, c: int, v: int)
    requires
        0 <= i < s.len(),
        1 <= nch,
    ensures
        hist_count(s.take(i + 1), nch, c, v) == hist_count(s.take(i), nch, c, v)
            + (if i % nch == c && s[i] == v { 1nat } else { 0nat }),
{
    assert(s.take(i + 1).drop_last() =~= s.take(i));
    assert(s.take(i + 1).last() == s[i]);
}

/// No bucket can exceed the number of samples walked.
proof fn lemma_hist_count_le_len(s: Seq<u8>, nch: int, c: int, v: int)
    ensures
        hist_count(s, nch, c, v) <= s.len(),
    decreases s.len(),
{
    if s.len() > 0 {
        lemma_hist_count_le_len(s.drop_last(), nch, c, v);
    }
}

impl ChannelHistogram {
    /// The histogram as a mathematical table of rows.
    pub open spec fn rows(&self) -> Seq<Seq<u32>> {
        Seq::new(self.channels@.len(), |c: int| self.channels@[c]@)
    }

    /// Every histogram the library builds has at least one channel and one
    /// full row of 256 buckets per channel.
    pub open spec fn wf(&self) -> bool {
        &&& self.rows().len() >= 1
        &&& forall|c: int| 0 <= c < self.rows().len() ==> (#[trigger] self.rows()[c]).len() == 256
    }

    /// `self` tabulates `image` exactly, channel by channel and value by value.
    pub open spec fn tabulates(&self, image: Seq<u8>, channel_count: int) -> bool {
        &&& self.rows().len() == channel_count
        &&& forall|c: int, v: int| 0 <= c < channel_count && 0 <= v < 256
            ==> (#[trigger] self.rows()[c][v]) as nat == hist_count(image, channel_count, c, v)
    }

    /// Exchanges two channel rows, as the BGR-to-RGB compensation needs.
    pub fn swap_channels(&mut self, a: usize, b: usize)
        requires
            a < old(self).rows().len(),
            b < old(self).rows().len(),
        ensures
            final(self).rows() == old(self).rows()
                .update(a as int, old(self).rows()[b as int])
                .update(b as int, old(self).rows()[a as int]),
    {
        if a == b {
            proof {
                assert(self.rows() =~= old(self).rows()
                    .update(a as int, old(self).rows()[b as int])
                    .update(b as int, old(self).rows()[a as int]));
            }
            return;
        }
        let mut tmp: Vec<u32> = Vec::new();
        self.channels.set_and_swap(a, &mut tmp);
        self.channels.set_and_swap(b, &mut tmp);
        self.channels.set_and_swap(a, &mut tmp);
        proof {
            assert(self.rows() =~= old(self).rows()
                .update(a as int, old(self).rows()[b as int])
                .update(b as int, old(self).rows()[a as int]));
        }
    }
}

/// Populates the per-channel histograms of an interleaved `image`:
/// sample `i` increments bucket `image[i]` of channel `i % channel_count`.
pub fn histogram(image: &[u8], channel_count: usize) -> (r: ChannelHistogram)
    requires
        1 <= channel_count,
        image@.len() <= u32::MAX,
    ensures
        r.wf(),
        r.tabulates(image@, channel_count as int),
{
    let mut channels: Vec<Vec<u32>> = Vec::new();
    let mut c: usize = 0;
    while c < channel_count
        invariant
            c <= channel_count,
            channels@.len() == c,
            forall|k: int| 0 <= k < c ==> (#[trigger] channels@[k])@ == Seq::new(256, |j: int| 0u32),
        decreases channel_count - c,
    {
        let row: Vec<u32> = vec![0u32; 256];
        proof {
            assert(row@ =~= Seq::new(256, |j: int| 0u32));
        }
        channels.push(row);
        c += 1;
    }

    let mut hist = ChannelHistogram { channels };
    let mut i: usize = 0;
    proof {
        assert(image@.take(0) =~= Seq::<u8>::empty());
    }
    while i < image.len()
        invariant
            1 <= channel_count,
            image@.len() <= u32::MAX,
            i <= image@.len(),
            hist.rows().len() == channel_count,
            forall|k: int| 0 <= k < channel_count ==> (#[trigger] hist.rows()[k]).len() == 256,
            forall|cc: int, v: int| 0 <= cc < channel_count && 0 <= v < 256
                ==> (#[trigger] hist.rows()[cc][v]) as nat
                    == hist_count(image@.take(i as int), channel_count as int, cc, v),
        decreases image@.len() - i,
    {
        let v = image[i] as usize;
        let ch = i % channel_count;
        let ghost rows0 = hist.rows();
        let mut row: Vec<u32> = Vec::new();
        hist.channels.set_and_swap(ch, &mut row);
        proof {
            assert(row@ == rows0[ch as int]);
            lemma_hist_count_le_len(image@.take(i as int), channel_count as int, ch as int, v as int);
            assert(row@[v as int] as nat
                == hist_count(image@.take(i as int), channel_count as int, ch as int, v as int));
            assert(image@.take(i as int).len() == i);
            assert(row@[v as int] < u32::MAX);
        }
        let cur = row[v];
        row.set(v, cur + 1);
        hist.channels.set_and_swap(ch, &mut row);
        proof {
            assert(hist.rows() =~= rows0.update(
                ch as int,
                rows0[ch as int].update(v as int, (cur + 1) as u32),
            ));
            assert forall|cc: int, vv: int| 0 <= cc < channel_count && 0 <= vv < 256
                implies (#[trigger] hist.rows()[cc][vv]) as nat
                    == hist_count(image@.take(i as int + 1), channel_count as int, cc, vv) by {
                lemma_hist_count_step(image@, i as int, channel_count as int, cc, vv);
            }
        }
        i += 1;
    }
    proof {
        assert(image@.take(image@.len() as int) =~= image@);
    }
    hist
}

/// `s` is a whole number of pixels of one single colour: sample `i` holds
/// component `i % comps.len()` of the colour `comps`.
pub open spec fn is_single_colour(s: Seq<u8>, comps: Seq<u8>) -> bool {
    forall|i: int| 0 <= i < s.len() ==> s[i] == comps[i % (comps.len() as int)]
}

/// Walking the pixel that starts at `base` adds exactly one count to each
/// channel, in that channel's component bucket.
proof fn lemma_single_colour_pixel(s: Seq<u8>, comps: Seq<u8>, base: int, j: int, c: int, v: int)
    requires
        comps.len() >= 1,
        0 <= base,
        base % (comps.len() as int) == 0,
        0 <= j <= comps.len(),
        base + j <= s.len(),
        is_single_colour(s, comps),
        0 <= c < comps.len(),
        0 <= v < 256,
    ensures
        hist_count(s.take(base + j), comps.len() as int, c, v)
            == hist_count(s.take(base), comps.len() as int, c, v)
                + (if c < j && v == comps[c] { 1int } else { 0int }),
    decreases j,
{
    let nch = comps.len() as int;
    if j > 0 {
        lemma_single_colour_pixel(s, comps, base, j - 1, c, v);
        lemma_hist_count_step(s, base + j - 1, nch, c, v);
        vstd::arithmetic::div_mod::lemma_add_mod_noop(base, j - 1, nch);
        vstd::arithmetic::div_mod::lemma_small_mod((j - 1) as nat, nch as nat);
        assert((base + j - 1) % nch == j - 1);
    }
}

/// The histogram of a single-colour buffer of `n` whole pixels: for every
/// channel, the bucket of that channel's component holds all `n` pixels and
/// every other bucket holds zero.
pub proof fn lemma_single_colour_histogram(s: Seq<u8>, comps: Seq<u8>, c: int, v: int)
    requires
        comps.len() >= 1,
        s.len() % comps.len() == 0,
        is_single_colour(s, comps),
        0 <= c < comps.len(),
        0 <= v < 256,
    ensures
        hist_count(s, comps.len() as int, c, v)
            == if v == comps[c] { s.len() as int / comps.len() as int } else { 0int },
    decreases s.len(),
{
    let nch = comps.len() as int;
    let m = s.len() as int;
    if m == 0 {
        assert(s.take(0) =~= s);
    } else {
        if m < nch {
            vstd::arithmetic::div_mod::lemma_small_mod(m as nat, nch as nat);
            assert(false);
        }
        let prefix = s.take(m - nch);
        vstd::arithmetic::div_mod::lemma_mod_sub_multiples_vanish(m, nch);
        assert((m - nch) % nch == 0);
        assert(is_single_colour(prefix, comps));
        lemma_single_colour_histogram(prefix, comps, c, v);
        lemma_single_colour_pixel(s, comps, m - nch, nch, c, v);
        assert(s.take(m) =~= s);
        assert(s.take(m - nch) =~= prefix);
        vstd::arithmetic::div_mod::lemma_fundamental_div_mod(m, nch);
        assert(m == nch * (m / nch));
        assert(nch * (m / nch - 1) == nch * (m / nch) - nch) by (nonlinear_arith);
        vstd::arithmetic::div_mod::lemma_fundamental_div_mod_converse(m - nch, nch, m / nch - 1, 0);
        assert((m - nch) / nch == m / nch - 1);
    }
}

/// The largest bucket count in one row.
pub open spec fn row_max(row: Seq<u32>) -> u32
    decreases row.len(),
{
    if row.len() == 0 {
        0
    } else if row.last() >= row_max(row.drop_last()) {
        row.last()
    } else {
        row_max(row.drop_last())
    }
}

/// The largest bucket count across all rows.
pub open spec fn rows_max(rows: Seq<Seq<u32>>) -> u32
    decreases rows.len(),
{
    if rows.len() == 0 {
        0
    } else if row_max(rows.last()) >= rows_max(rows.drop_last()) {
        row_max(rows.last())
    } else {
        rows_max(rows.drop_last())
    }
}

/// Every bucket is at most the tallest bucket of its row.
proof fn lemma_row_max_bound(row: Seq<u32>, v: int)
    requires
        0 <= v < row.len(),
    ensures
        row[v] <= row_max(row),
    decreases row.len(),
{
    if v < row.len() - 1 {
        lemma_row_max_bound(row.drop_last(), v);
        assert(row.drop_last()[v] == row[v]);
    }
}

/// Every bucket is at most the tallest bucket across all rows.
pub proof fn lemma_rows_max_bound(rows: Seq<Seq<u32>>, c: int, v: int)
    requires
        0 <= c < rows.len(),
        0 <= v < rows[c].len(),
    ensures
        rows[c][v] <= rows_max(rows),
    decreases rows.len(),
{
    if c == rows.len() - 1 {
        lemma_row_max_bound(rows.last(), v);
    } else {
        lemma_rows_max_bound(rows.drop_last(), c, v);
        assert(rows.drop_last()[c] == rows[c]);
    }
}

fn row_max_exec(row: &Vec<u32>) -> (r: u32)
    ensures
        r == row_max(row@),
{
    let mut m: u32 = 0;
    let mut i: usize = 0;
    proof {
        assert(row@.take(0) =~= Seq::<u32>::empty());
    }
    while i < row.len()
        invariant
            i <= row@.len(),
            m == row_max(row@.take(i as int)),
        decreases row@.len() - i,
    {
        proof {
            assert(row@.take(i as int + 1).drop_last() =~= row@.take(i as int));
        }
        if row[i] > m {
            m = row[i];
        }
        i += 1;
    }
    proof {
        assert(row@.take(row@.len() as int) =~= row@);
    }
    m
}

/// The tallest bucket across every channel, used to scale the diagnostic plot.
pub fn hist_max(hist: &ChannelHistogram) -> (r: u32)
    ensures
        r == rows_max(hist.rows()),
{
    let mut m: u32 = 0;
    let mut c: usize = 0;
    proof {
        assert(hist.rows().take(0) =~= Seq::<Seq<u32>>::empty());
    }
    while c < hist.channels.len()
        invariant
            c <= hist.rows().len(),
            hist.rows().len() == hist.channels@.len(),
            m == rows_max(hist.rows().take(c as int)),
        decreases hist.rows().len() - c,
    {
        proof {
            assert(hist.rows().take(c as int + 1).drop_last() =~= hist.rows().take(c as int));
            assert(hist.rows().take(c as int + 1).last() == hist.rows()[c as int]);
        }
        let rm = row_max_exec(&hist.channels[c]);
        if rm > m {
            m = rm;
        }
        c += 1;
    }
    proof {
        assert(hist.rows().take(hist.rows().len() as int) =~= hist.rows());
    }
    m
}

} // verus!
