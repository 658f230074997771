use crate::color::{c, c_spec, gray, gray_spec, ComparableColor};
use crate::stack::spec_stack;
use crate::task_display::decimal_text;
use crate::task_spec::{
    from_svg_task, out_task, pixmap_has_no_empty, spec_paint_svg_task, FileOutputTaskSpec, OutputTask, PixmapTask,
};
use crate::texture::{numbered_name, painted_svg, stack_fold, stack_layers, task_views, two_digit_name, two_digit_text};
use crate::stack::stack;
use vstd::prelude::*;

verus! {

// ---------------------------------------------------------------------------------------------
// Clock
// ---------------------------------------------------------------------------------------------

/// The number of hand positions of the clock item.
pub const CLOCK_ANGLES: u32 = 64;

/// The clock item, drawn in one texture per hand position.
pub struct Clock {}

/// The texture of the clock at one hand position: the dial with the frame over it, written to
/// `item/clock_NN`.
pub open spec fn clock_output(angle: nat) -> OutputTask {
    OutputTask::PngOutput(
        spec_stack(
            PixmapTask::FromSvg("clockDial"@ + decimal_text(angle)),
            PixmapTask::FromSvg("clockFrame"@),
        ),
        "item/clock_"@ + two_digit_text(angle) + ""@,
    )
}

impl Clock {
    /// One texture per hand position (see [`clock_output`]).
    pub fn get_output_tasks(&self) -> (r: Vec<FileOutputTaskSpec>)
        ensures
            r@.len() == CLOCK_ANGLES,
            forall|i: int| 0 <= i < CLOCK_ANGLES ==> (#[trigger] r@[i])@ == clock_output(i as nat),
    {
        let frame = from_svg_task("clockFrame");
        let mut out: Vec<FileOutputTaskSpec> = Vec::new();
        let mut angle: u32 = 0;
        while angle < CLOCK_ANGLES
            invariant
                angle <= CLOCK_ANGLES,
                frame@ == PixmapTask::FromSvg("clockFrame"@),
                out@.len() == angle,
                forall|i: int| 0 <= i < angle ==> (#[trigger] out@[i])@ == clock_output(i as nat),
            decreases CLOCK_ANGLES - angle,
        {
            let dial_name = numbered_name("clockDial", angle, "");
            proof {
                reveal_strlit("");
                assert(dial_name@ =~= "clockDial"@ + decimal_text(angle as nat));
            }
            let dial = from_svg_task(dial_name.as_str());
            let name = two_digit_name("item/clock_", angle, "");
            let task = out_task(name.as_str(), stack(dial, frame.clone()));
            out.push(task);
            angle = angle + 1;
        }
        out
    }
}

/// The clock item.
pub fn clock() -> (r: Clock) {
    Clock {}
}

// ---------------------------------------------------------------------------------------------
// Compasses
// ---------------------------------------------------------------------------------------------

/// The number of needle positions of a compass.
pub const COMPASS_ANGLES: u32 = 32;

/// A compass item, drawn in one texture per needle position.
pub struct Compass {
    pub rim_color: ComparableColor,
    pub dial_color: ComparableColor,
    pub needle_color: ComparableColor,
    pub base_name: &'static str,
}

/// The face of a compass: a disc of the rim color, the rim, then a smaller disc of the dial
/// color.
pub open spec fn compass_base(compass: Compass) -> PixmapTask {
    stack_fold(seq![
        spec_paint_svg_task("circle32"@, compass.rim_color),
        PixmapTask::FromSvg("compassRim"@),
        spec_paint_svg_task("circle28"@, compass.dial_color),
    ])
}

/// The texture of a compass at one needle position: the needle painted over the face, written
/// to `item/NAME_NN`.
pub open spec fn compass_output(compass: Compass, angle: nat) -> OutputTask {
    OutputTask::PngOutput(
        spec_stack(
            compass_base(compass),
            spec_paint_svg_task("compass"@ + decimal_text(angle), compass.needle_color),
        ),
        "item/"@ + compass.base_name@ + "_"@ + two_digit_text(angle) + ""@,
    )
}

impl Compass {
    /// One texture per needle position (see [`compass_output`]).
    pub fn get_output_tasks(&self) -> (r: Vec<FileOutputTaskSpec>)
        ensures
            r@.len() == COMPASS_ANGLES,
            forall|i: int| 0 <= i < COMPASS_ANGLES ==> (#[trigger] r@[i])@ == compass_output(*self, i as nat),
    {
        let mut layers: Vec<crate::task_spec::ToPixmapTaskSpec> = Vec::new();
        layers.push(painted_svg("circle32", self.rim_color));
        layers.push(from_svg_task("compassRim"));
        layers.push(painted_svg("circle28", self.dial_color));
        assert(task_views(layers@) =~= seq![
            spec_paint_svg_task("circle32"@, self.rim_color),
            PixmapTask::FromSvg("compassRim"@),
            spec_paint_svg_task("circle28"@, self.dial_color),
        ]);
        assert(pixmap_has_no_empty(layers@[1]@));
        let base = stack_layers(&layers);
        let mut prefix = String::from_str("item/");
        prefix.append(self.base_name);
        prefix.append("_");
        let mut out: Vec<FileOutputTaskSpec> = Vec::new();
        let mut angle: u32 = 0;
        while angle < COMPASS_ANGLES
            invariant
                angle <= COMPASS_ANGLES,
                base@ == compass_base(*self),
                pixmap_has_no_empty(base@),
                prefix@ == "item/"@ + self.base_name@ + "_"@,
                out@.len() == angle,
                forall|i: int| 0 <= i < angle ==> (#[trigger] out@[i])@ == compass_output(*self, i as nat),
            decreases COMPASS_ANGLES - angle,
        {
            let needle_name = numbered_name("compass", angle, "");
            proof {
                reveal_strlit("");
                assert(needle_name@ =~= "compass"@ + decimal_text(angle as nat));
            }
            let needle = painted_svg(needle_name.as_str(), self.needle_color);
            let name = two_digit_name(prefix.as_str(), angle, "");
            let task = out_task(name.as_str(), stack(base.clone(), needle));
            out.push(task);
            angle = angle + 1;
        }
        out
    }
}

/// The compass: white rim, deepslate dial, red needle.
pub fn compass() -> (r: Compass)
    ensures
        r.rim_color == gray_spec(255),
        r.dial_color == c_spec(0x2f2f3f),
        r.needle_color == crate::color::rgb_spec(255, 0, 0),
        r.base_name@ == "compass"@,
{
    Compass {
        rim_color: gray(255),
        dial_color: c(0x2f2f3f),
        needle_color: crate::color::rgb(255, 0, 0),
        base_name: "compass",
    }
}

/// The recovery compass: cyan rim and needle on a black dial.
pub fn recovery_compass() -> (r: Compass)
    ensures
        r.rim_color == crate::color::rgb_spec(0, 255, 255),
        r.dial_color == gray_spec(0),
        r.needle_color == crate::color::rgb_spec(0, 255, 255),
        r.base_name@ == "recovery_compass"@,
{
    Compass {
        rim_color: crate::color::rgb(0, 255, 255),
        dial_color: gray(0),
        needle_color: crate::color::rgb(0, 255, 255),
        base_name: "recovery_compass",
    }
}

// ---------------------------------------------------------------------------------------------
// Music discs
// ---------------------------------------------------------------------------------------------

/// A music disc item: a dark disc with grooves and a label of its own color.
pub struct MusicDisc {
    pub name: &'static str,
    pub color: ComparableColor,
}

/// The texture of a music disc, written to `item/music_disc_NAME`.
pub open spec fn music_disc_output(disc: MusicDisc) -> OutputTask {
    OutputTask::PngOutput(
        stack_fold(seq![
            spec_paint_svg_task("musicDisc"@, gray_spec(0x55)),
            spec_paint_svg_task("musicDiscGroove"@, gray_spec(0x22)),
            spec_paint_svg_task("musicDiscLabel"@, disc.color),
        ]),
        "item/music_disc_"@ + disc.name@,
    )
}

impl MusicDisc {
    /// The disc's one texture (see [`music_disc_output`]).
    pub fn get_output_tasks(&self) -> (r: Vec<FileOutputTaskSpec>)
        ensures
            r@.len() == 1,
            r@[0]@ == music_disc_output(*self),
    {
        let mut layers: Vec<crate::task_spec::ToPixmapTaskSpec> = Vec::new();
        layers.push(painted_svg("musicDisc", gray(0x55)));
        layers.push(painted_svg("musicDiscGroove", gray(0x22)));
        layers.push(painted_svg("musicDiscLabel", self.color));
        assert(task_views(layers@) =~= seq![
            spec_paint_svg_task("musicDisc"@, gray_spec(0x55)),
            spec_paint_svg_task("musicDiscGroove"@, gray_spec(0x22)),
            spec_paint_svg_task("musicDiscLabel"@, self.color),
        ]);
        let texture = stack_layers(&layers);
        let mut name = String::from_str("item/music_disc_");
        name.append(self.name);
        let mut out: Vec<FileOutputTaskSpec> = Vec::new();
        out.push(out_task(name.as_str(), texture));
        out
    }
}

} // verus!
