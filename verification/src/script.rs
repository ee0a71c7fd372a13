//! The two texts handed to the plotting tool: the lines of the point-data
//! file and the command script that draws them.

use vstd::prelude::*;
use vstd::string::*;
use crate::cloud::{Point, PointCloud};
use crate::color::{token_text, Rgb};
use crate::config::Dimensions;
use crate::decimal::{decimal_digits, write_unsigned};
use crate::range::PixelRange;

verus! {

/// What the command script is written from. The two ends of the depth range
/// and the two paths come as text.
#[derive(Debug)]
pub struct PlotRequest {
    /// The terminal of the plotting tool, which fixes the image format.
    pub backend: String,
    /// The size of the image.
    pub dimensions: Dimensions,
    /// Where the image goes.
    pub output: String,
    /// The range of the column axis.
    pub x: PixelRange,
    /// The range of the row axis.
    pub y: PixelRange,
    /// The first end of the depth range.
    pub z_start: String,
    /// The second end of the depth range.
    pub z_end: String,
    /// Where the point data was written.
    pub data_path: String,
}

/// The size that the plotting tool is given for one side of the image: it
/// takes 32 bits, and a larger size wraps round.
pub open spec fn terminal_size(pixels: usize) -> nat {
    (pixels as nat) % 0x1_0000_0000
}

/// One line of the point-data file: column, depth, row and colour token,
/// separated by single spaces.
pub open spec fn data_line_text(x: usize, z: Seq<char>, y: usize, color: Rgb) -> Seq<char> {
    Seq::<char>::empty()
        + decimal_digits(x as nat) + " "@
        + z + " "@
        + decimal_digits(y as nat) + " "@
        + token_text(color) + "\n"@
}

/// The point-data file of the first `n` points: one line for each, in the
/// order of the cloud, with the depth text and the colour given for it.
pub open spec fn data_text(points: Seq<Point>, depths: Seq<String>, colors: Seq<Rgb>, n: nat) -> Seq<
    char,
>
    decreases n,
{
    if n == 0 {
        Seq::<char>::empty()
    } else {
        data_text(points, depths, colors, (n - 1) as nat) + data_line_text(
            points[n - 1].x,
            depths[n - 1]@,
            points[n - 1].y,
            colors[n - 1],
        )
    }
}

/// The command script. It sets the terminal, the output and the three ranges
/// (the plot's vertical axis shows the rows and its depth axis the sample
/// values), draws the base grid at the first end of the row range, and then
/// the points with hidden-surface removal.
pub open spec fn script_text(q: PlotRequest) -> Seq<char> {
    Seq::<char>::empty()
        + "set term "@ + q.backend@ + " size "@ + decimal_digits(terminal_size(q.dimensions.0))
        + ","@ + decimal_digits(terminal_size(q.dimensions.1)) + "\n"@
        + "set output '"@ + q.output@ + "'\n"@
        + "set xrange ["@ + decimal_digits(q.x.start as nat) + ":"@ + decimal_digits(q.x.end as nat)
        + "]\n"@
        + "set zrange ["@ + decimal_digits(q.y.start as nat) + ":"@ + decimal_digits(q.y.end as nat)
        + "]\n"@
        + "set yrange ["@ + q.z_start@ + ":"@ + q.z_end@ + "]\n"@
        + "set xlabel 'x / pixels' offset screen 0,-0.02\n"@
        + "set ylabel 'depth / rad' offset screen 0,-0.02\n"@
        + "set zlabel 'y / pixels' rotate\n"@
        + "set view 75, 20\n"@
        + "set xyplane 0\n"@
        + "set multiplot\n"@
        + "set nokey\n"@
        + "unset border\n"@
        + "set isosamples 2\n"@
        + "set grid xtics ytics ztics\n"@
        + "set tics offset screen 0,-0.01\n"@
        + "splot "@ + decimal_digits(q.y.start as nat) + " lc 'black'\n"@
        + "set hidden3d\n"@
        + "unset xtics; unset ytics; unset grid; unset parametric\n"@
        + "splot '"@ + q.data_path@ + "' lc rgb variable pt 7 ps 0.2\n"@
}

/// The size of one side of the image as the plotting tool takes it.
fn to_terminal_size(pixels: usize) -> (r: usize)
    ensures
        r == terminal_size(pixels),
{
    let wide: u64 = pixels as u64;
    (wide % 0x1_0000_0000) as usize
}

/// Writes one line of the point-data file.
pub fn data_line(x: usize, z: &str, y: usize, color: Rgb) -> (r: String)
    ensures
        r@ == data_line_text(x, z@, y, color),
{
    let mut out = String::new();
    write_unsigned(&mut out, x);
    out.append(" ");
    out.append(z);
    out.append(" ");
    write_unsigned(&mut out, y);
    out.append(" ");
    let token = color.token();
    out.append(token.as_str());
    out.append("\n");
    out
}

/// Writes the point-data file of a cloud. The depth of each point comes as
/// text, and with it the colour of the point; there must be one of each for
/// every point.
pub fn data_file(cloud: &PointCloud, depths: &Vec<String>, colors: &Vec<Rgb>) -> (r: Option<String>)
    ensures
        r.is_some() <==> depths.len() == cloud@.len() && colors.len() == cloud@.len(),
        r matches Some(text) ==> text@ == data_text(cloud@, depths@, colors@, cloud@.len()),
{
    let n: usize = cloud.points.len();
    if depths.len() != n || colors.len() != n {
        return None;
    }
    let mut out = String::new();
    let mut i: usize = 0;
    while i < n
        invariant
            i <= n,
            n == cloud@.len(),
            n == depths.len(),
            n == colors.len(),
            out@ == data_text(cloud@, depths@, colors@, i as nat),
        decreases n - i,
    {
        let p = cloud.points[i];
        let line = data_line(p.x, depths[i].as_str(), p.y, colors[i]);
        out.append(line.as_str());
        i += 1;
    }
    Some(out)
}

/// Writes the command script.
pub fn plot_script(q: &PlotRequest) -> (r: String)
    ensures
        r@ == script_text(*q),
{
    let mut out = String::new();
    out.append("set term ");
    out.append(q.backend.as_str());
    out.append(" size ");
    write_unsigned(&mut out, to_terminal_size(q.dimensions.0));
    out.append(",");
    write_unsigned(&mut out, to_terminal_size(q.dimensions.1));
    out.append("\n");
    out.append("set output '");
    out.append(q.output.as_str());
    out.append("'\n");
    out.append("set xrange [");
    write_unsigned(&mut out, q.x.start);
    out.append(":");
    write_unsigned(&mut out, q.x.end);
    out.append("]\n");
    out.append("set zrange [");
    write_unsigned(&mut out, q.y.start);
    out.append(":");
    write_unsigned(&mut out, q.y.end);
    out.append("]\n");
    out.append("set yrange [");
    out.append(q.z_start.as_str());
    out.append(":");
    out.append(q.z_end.as_str());
    out.append("]\n");
    out.append("set xlabel 'x / pixels' offset screen 0,-0.02\n");
    out.append("set ylabel 'depth / rad' offset screen 0,-0.02\n");
    out.append("set zlabel 'y / pixels' rotate\n");
    out.append("set view 75, 20\n");
    out.append("set xyplane 0\n");
    out.append("set multiplot\n");
    out.append("set nokey\n");
    out.append("unset border\n");
    out.append("set isosamples 2\n");
    out.append("set grid xtics ytics ztics\n");
    out.append("set tics offset screen 0,-0.01\n");
    out.append("splot ");
    write_unsigned(&mut out, q.y.start);
    out.append(" lc 'black'\n");
    out.append("set hidden3d\n");
    out.append("unset xtics; unset ytics; unset grid; unset parametric\n");
    out.append("splot '");
    out.append(q.data_path.as_str());
    out.append("' lc rgb variable pt 7 ps 0.2\n");
    out
}

} // verus!
