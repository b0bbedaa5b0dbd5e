//! Rendering of the diagnostic histogram image. Drawing is the plotting
//! library's job; the core only fixes the canvas, hands over the channel
//! curves and states that the result is a pure function of those inputs.
use vstd::prelude::*;

use plotters::chart::ChartBuilder;
use plotters::drawing::IntoDrawingArea;
use plotters::prelude::BitMapBackend;
use plotters::series::LineSeries;
use plotters::style::colors::{BLUE, GREEN, RED, WHITE};

verus! {

/// Width of the diagnostic plot, in pixels.
pub const PLOT_WIDTH: u32 = 1920;

/// Height of the diagnostic plot, in pixels.
pub const PLOT_HEIGHT: u32 = 1080;

/// Byte length of the diagnostic plot's RGB buffer.
pub const PLOT_BYTES: usize = 1920 * 1080 * 3;

/// The RGB bytes of a `w` x `h` plot of the given channel curves drawn with
/// a vertical axis reaching `max_value`. The drawing is deterministic, so
/// the image is a function of these inputs alone; it is not given a closed
/// form here.
pub uninterp spec fn hist_plot_of(w: u32, h: u32, channels: Seq<Seq<u32>>, max_value: u32) -> Seq<u8>;

/// Relies on plotters' `BitMapBackend::with_buffer`, `fill`,
/// `build_cartesian_2d` and `draw_series`: they fill the whole `w` x `h`
/// RGB canvas in place (white, then one line per channel in red, green and
/// blue), never resize the buffer, and draw nothing that depends on
/// anything but the arguments. Every bucket value must lie within the
/// vertical axis: the line rasterizer works in `i32` pixel coordinates,
/// and a value far above `max_value` maps to a coordinate whose
/// arithmetic overflows.
#[verifier::external_body]
fn draw_channel_curves(buf: &mut Vec<u8>, w: u32, h: u32, channels: &Vec<Vec<u32>>, max_value: u32)
    requires
        1 <= w,
        1 <= h,
        3 * (w as int) * (h as int) == old(buf)@.len(),
        old(buf)@.len() <= u32::MAX,
        1 <= max_value,
        forall|c: int, v: int| 0 <= c < channels@.len() && 0 <= v < channels@[c]@.len()
            ==> (#[trigger] channels@[c]@[v]) <= max_value,
    ensures
        final(buf)@.len() == old(buf)@.len(),
        final(buf)@ == hist_plot_of(w, h, channels.deep_view(), max_value),
{
    let area = BitMapBackend::with_buffer(buf.as_mut_slice(), (w, h)).into_drawing_area();
    area.fill(&WHITE).unwrap();
    let mut chart = ChartBuilder::on(&area).build_cartesian_2d(0i32..256i32, 0u32..max_value).unwrap();
    for (row, color) in channels.iter().zip([&RED, &GREEN, &BLUE]) {
        chart
            .draw_series(LineSeries::new(row.iter().enumerate().map(|(i, v)| (i as i32, *v)), color))
            .unwrap();
    }
}

/// Renders the fixed-size diagnostic image of the given channel curves,
/// whose buckets must all fit under the axis height `max_value`.
pub fn render_hist_plot(channels: &Vec<Vec<u32>>, max_value: u32) -> (r: Vec<u8>)
    requires
        1 <= max_value,
        forall|c: int, v: int| 0 <= c < channels@.len() && 0 <= v < channels@[c]@.len()
            ==> (#[trigger] channels@[c]@[v]) <= max_value,
    ensures
        r@.len() == PLOT_BYTES,
        r@ == hist_plot_of(PLOT_WIDTH, PLOT_HEIGHT, channels.deep_view(), max_value),
{
    let mut buf: Vec<u8> = vec![0u8; PLOT_BYTES];
    proof {
        assert(buf@.len() == PLOT_BYTES);
    }
    draw_channel_curves(&mut buf, PLOT_WIDTH, PLOT_HEIGHT, channels, max_value);
    buf
}

} // verus!
