//! What a run is asked to do: the settings, and how their texts are read.

use crate::text::{contains, decimal_u32, occurs_in, parse_u32, same_text};
use vstd::prelude::*;

verus! {

/// When tiles are turned into the terracotta pattern.
#[derive(Clone, Copy, Debug, PartialEq, Eq, Structural)]
pub enum TerracottaBehaviour {
    /// No picture is turned.
    Never,
    /// Every picture is turned.
    Always,
    /// A picture is turned if its file name says that it is glazed terracotta.
    Auto,
}

/// The behaviour that a word names, if it names one.
pub open spec fn behaviour_named(what: Seq<char>) -> Option<TerracottaBehaviour> {
    if what == "never"@ {
        Some(TerracottaBehaviour::Never)
    } else if what == "always"@ {
        Some(TerracottaBehaviour::Always)
    } else if what == "auto"@ {
        Some(TerracottaBehaviour::Auto)
    } else {
        None
    }
}

/// Reads the behaviour from one of the words `never`, `always` and `auto`.
pub fn parse_terracotta_behaviour(what: &str) -> (behaviour: Option<TerracottaBehaviour>)
    ensures
        behaviour == behaviour_named(what@),
{
    if same_text(what, "never") {
        Some(TerracottaBehaviour::Never)
    } else if same_text(what, "always") {
        Some(TerracottaBehaviour::Always)
    } else if same_text(what, "auto") {
        Some(TerracottaBehaviour::Auto)
    } else {
        None
    }
}

impl TerracottaBehaviour {
    /// Whether the picture from a file of the given name is turned.
    pub open spec fn turns(self, file_name: Seq<char>) -> bool {
        match self {
            TerracottaBehaviour::Never => false,
            TerracottaBehaviour::Always => true,
            TerracottaBehaviour::Auto => occurs_in("glazed_terracotta"@, file_name),
        }
    }

    /// Whether the picture from a file of the given name is turned.
    pub fn applies_to(&self, file_name: &str) -> (turned: bool)
        ensures
            turned == self.turns(file_name@),
    {
        match self {
            TerracottaBehaviour::Never => false,
            TerracottaBehaviour::Always => true,
            TerracottaBehaviour::Auto => contains(file_name, "glazed_terracotta"),
        }
    }
}

/// The size that a setting asks for: the desktop's where it says `auto`, else the
/// number it writes, if it writes one.
pub open spec fn image_size_named(val: Seq<char>, desktop: u32) -> Option<u32> {
    if val == "auto"@ {
        Some(desktop)
    } else {
        decimal_u32(val)
    }
}

/// Reads the width (`is_width`) or the height of the picture from its setting:
/// a number of pixels, or `auto` for the desktop's.
pub fn parse_image_size(val: &str, is_width: bool, desktop_width: u32, desktop_height: u32) -> (size:
    Option<u32>)
    ensures
        size == image_size_named(
            val@,
            if is_width {
                desktop_width
            } else {
                desktop_height
            },
        ),
{
    if !same_text(val, "auto") {
        return parse_u32(val);
    }
    if is_width {
        Some(desktop_width)
    } else {
        Some(desktop_height)
    }
}

/// The settings of one run.
#[derive(Debug)]
pub struct ProgramConfig<'a> {
    /// Source file, source folder, or source files with commas between them.
    pub input_folder_name: &'a str,
    /// Output file or folder.
    pub output_folder_name: &'a str,
    /// How many canvas pixels wide a texture pixel is drawn.
    pub scale_factor: u32,
    /// Width of the canvas.
    pub image_width: u32,
    /// Height of the canvas.
    pub image_height: u32,
    /// When tiles are turned.
    pub terracotta_behaviour: TerracottaBehaviour,
    /// Weights of the source files, with commas between them.
    pub probabilities_str: &'a str,
}

} // verus!
