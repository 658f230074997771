use vstd::prelude::*;

pub mod color;
pub mod color_order;
pub mod color_set;
pub mod color_description;
pub mod png_mode;
pub mod svg_names;
pub mod task_spec;
pub mod task_order;
pub mod task_display;
pub mod task_graph;
pub mod texture;
pub mod items;
pub mod crops;
pub mod command_blocks;
pub mod ores;
pub mod blocks;
pub mod stack_alpha;
pub mod stack;
pub mod make_semitransparent;
pub mod raster;
pub mod compose;
pub mod bit_pack;
pub mod png_encode;
pub mod cloneable;
pub mod png_output;
pub mod u8set;
pub mod wood;

verus! {
} // verus!
