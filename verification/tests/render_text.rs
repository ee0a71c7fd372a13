use phase_cloud::color::Rgb;
use phase_cloud::config::Dimensions;
use phase_cloud::extrema::Extrema;
use phase_cloud::range::{resolve_ranges, PixelRange, RenderRange, SampleRange};
use phase_cloud::render::{judge_tool, RenderError, ToolEvent};
use phase_cloud::sample::{LARGEST_FINITE, LEAST_FINITE};
use phase_cloud::cloud::{Point, PointCloud};
use phase_cloud::script::{data_file, data_line, plot_script, PlotRequest};

#[test]
fn token_is_six_upper_case_digits() {
    assert_eq!(Rgb { r: 255, g: 0, b: 16 }.token(), "0xFF0010");
    assert_eq!(Rgb { r: 0, g: 0, b: 0 }.token(), "0x000000");
    assert_eq!(Rgb { r: 1, g: 2, b: 3 }.token(), "0x010203");
    assert_eq!(Rgb { r: 171, g: 205, b: 239 }.token(), "0xABCDEF");
}

#[test]
fn token_agrees_with_the_colour_library() {
    for t in [0.0, 0.1, 0.25, 0.5, 0.75, 0.999] {
        let c = colorous::RAINBOW.eval_continuous(t);
        assert_eq!(Rgb { r: c.r, g: c.g, b: c.b }.token(), format!("0x{c:X}"));
    }
}

#[test]
fn packed_colour_has_red_on_top() {
    assert_eq!(Rgb { r: 255, g: 0, b: 16 }.to_packed(), 0xFF0010);
    assert_eq!(Rgb { r: 1, g: 2, b: 3 }.to_packed(), 0x010203);
    assert_eq!(Rgb { r: 255, g: 255, b: 255 }.to_packed(), 0xFFFFFF);
}

#[test]
fn token_digits_denote_the_packed_colour() {
    for c in [Rgb { r: 18, g: 52, b: 86 }, Rgb { r: 0, g: 255, b: 9 }, Rgb { r: 160, g: 11, b: 192 }] {
        let token = c.token();
        assert_eq!(u32::from_str_radix(&token[2..], 16).unwrap(), c.to_packed());
    }
}

#[test]
fn ranges_of_a_plain_view() {
    let seen = Some(Extrema { min: (-1.0f64).to_bits(), max: 3.0f64.to_bits() });
    assert_eq!(
        resolve_ranges(480, 640, false, None, seen),
        RenderRange {
            x: PixelRange { start: 0, end: 640 },
            y: PixelRange { start: 480, end: 0 },
            z: SampleRange { start: (-1.0f64).to_bits(), end: 3.0f64.to_bits() },
        }
    );
}

#[test]
fn ranges_of_a_mirrored_view() {
    let r = resolve_ranges(480, 640, true, None, None);
    assert_eq!(r.x, PixelRange { start: 640, end: 0 });
    assert_eq!(r.y, PixelRange { start: 480, end: 0 });
}

#[test]
fn given_depth_range_wins_over_the_seen_one() {
    let given = Some(SampleRange { start: 0.0f64.to_bits(), end: 1.0f64.to_bits() });
    let seen = Some(Extrema { min: (-1.0f64).to_bits(), max: 3.0f64.to_bits() });
    assert_eq!(resolve_ranges(1, 1, false, given, seen).z, given.unwrap());
}

#[test]
fn depth_range_without_data_is_empty() {
    let z = resolve_ranges(4, 4, false, None, None).z;
    assert_eq!(z, SampleRange { start: LARGEST_FINITE, end: LEAST_FINITE });
    assert_eq!(f64::from_bits(z.start), f64::MAX);
    assert_eq!(f64::from_bits(z.end), f64::MIN);
}

#[test]
fn reversed_ranges_swap_their_ends() {
    assert_eq!(PixelRange { start: 0, end: 9 }.reversed(), PixelRange { start: 9, end: 0 });
    assert_eq!(SampleRange { start: 1, end: 2 }.reversed(), SampleRange { start: 2, end: 1 });
    let r = PixelRange { start: 3, end: 8 };
    assert_eq!(r.reversed().reversed(), r);
}

#[test]
fn data_line_has_column_depth_row_colour() {
    assert_eq!(
        data_line(12, "-0.25", 7, Rgb { r: 110, g: 64, b: 170 }),
        "12 -0.25 7 0x6E40AA\n"
    );
    assert_eq!(data_line(0, "0", 0, Rgb { r: 0, g: 0, b: 0 }), "0 0 0 0x000000\n");
}

#[test]
fn data_line_writes_coordinates_as_the_numbers_print() {
    let (x, y, z) = (31usize, 1024usize, 0.125f64);
    let c = colorous::RAINBOW.eval_continuous(0.3);
    let (xf, yf) = (x as f64, y as f64);
    assert_eq!(
        data_line(x, &z.to_string(), y, Rgb { r: c.r, g: c.g, b: c.b }),
        format!("{xf} {z} {yf} 0x{c:X}\n")
    );
}

#[test]
fn script_is_written_line_by_line() {
    let q = PlotRequest {
        backend: String::from("jpeg"),
        dimensions: Dimensions(640, 480),
        output: String::from("out.jpg"),
        x: PixelRange { start: 0, end: 32 },
        y: PixelRange { start: 24, end: 0 },
        z_start: String::from("-1.5"),
        z_end: String::from("2"),
        data_path: String::from(".tmpAbC"),
    };
    let expected = "set term jpeg size 640,480\n\
set output 'out.jpg'\n\
set xrange [0:32]\n\
set zrange [24:0]\n\
set yrange [-1.5:2]\n\
set xlabel 'x / pixels' offset screen 0,-0.02\n\
set ylabel 'depth / rad' offset screen 0,-0.02\n\
set zlabel 'y / pixels' rotate\n\
set view 75, 20\n\
set xyplane 0\n\
set multiplot\n\
set nokey\n\
unset border\n\
set isosamples 2\n\
set grid xtics ytics ztics\n\
set tics offset screen 0,-0.01\n\
splot 24 lc 'black'\n\
set hidden3d\n\
unset xtics; unset ytics; unset grid; unset parametric\n\
splot '.tmpAbC' lc rgb variable pt 7 ps 0.2\n";
    assert_eq!(plot_script(&q), expected);
}

#[test]
fn script_wraps_a_size_beyond_32_bits() {
    let q = PlotRequest {
        backend: String::from("png"),
        dimensions: Dimensions(0x1_0000_0280, 0xFFFF_FFFF),
        output: String::new(),
        x: PixelRange { start: 0, end: 0 },
        y: PixelRange { start: 0, end: 0 },
        z_start: String::new(),
        z_end: String::new(),
        data_path: String::new(),
    };
    assert!(plot_script(&q).starts_with("set term png size 640,4294967295\n"));
}

fn three_points() -> PointCloud {
    PointCloud {
        points: vec![
            Point { x: 0, y: 0, z: 0, quality: 0 },
            Point { x: 5, y: 2, z: 0, quality: 0 },
            Point { x: 10, y: 300, z: 0, quality: 0 },
        ],
    }
}

#[test]
fn data_file_has_one_line_for_each_point_in_order() {
    let depths = vec![String::from("0.5"), String::from("-1"), String::from("1e-7")];
    let colors =
        vec![Rgb { r: 1, g: 2, b: 3 }, Rgb { r: 255, g: 255, b: 255 }, Rgb { r: 0, g: 128, b: 0 }];
    assert_eq!(
        data_file(&three_points(), &depths, &colors).unwrap(),
        "0 0.5 0 0x010203\n5 -1 2 0xFFFFFF\n10 1e-7 300 0x008000\n"
    );
}

#[test]
fn data_file_of_an_empty_cloud_is_empty() {
    assert_eq!(data_file(&PointCloud { points: vec![] }, &vec![], &vec![]).unwrap(), "");
}

#[test]
fn data_file_needs_a_depth_and_a_colour_for_each_point() {
    let depths = vec![String::from("0"), String::from("0"), String::from("0")];
    let colors = vec![Rgb { r: 0, g: 0, b: 0 }; 3];
    assert!(data_file(&three_points(), &depths[..2].to_vec(), &colors).is_none());
    assert!(data_file(&three_points(), &depths, &colors[..2].to_vec()).is_none());
    assert!(data_file(&three_points(), &depths, &colors).is_some());
}

#[test]
fn tool_that_ends_with_zero_has_rendered() {
    assert!(judge_tool(ToolEvent::Exited(0)).is_ok());
}

#[test]
fn tool_that_ends_with_a_code_has_failed() {
    assert!(matches!(judge_tool(ToolEvent::Exited(1)), Err(RenderError::ToolFailed { code: 1 })));
    assert!(matches!(judge_tool(ToolEvent::Exited(-1)), Err(RenderError::ToolFailed { code: -1 })));
}

#[test]
fn tool_that_cannot_be_started_is_missing() {
    match judge_tool(ToolEvent::NotStarted(String::from("No such file or directory"))) {
        Err(RenderError::ToolMissing { reason }) => assert_eq!(reason, "No such file or directory"),
        other => panic!("{other:?}"),
    }
}

#[test]
fn tool_that_was_stopped_has_not_rendered() {
    assert!(matches!(judge_tool(ToolEvent::Stopped), Err(RenderError::ToolStopped)));
}
