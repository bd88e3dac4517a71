//! The three ways to make wallpapers: one picture from one file, one picture from
//! every file of a folder, one picture mixed from several files by weight. Each
//! way first judges the request, then, once the textures are read, plans the
//! picture; reading, drawing and saving are left to the caller.

use crate::compositor::{
    draw_random_tiles, draw_sprite_and_handle_terracotta, grid_fits, grid_size, RenderPlan,
};
use crate::config::{ProgramConfig, TerracottaBehaviour};
use crate::output_gate::{should_be_saved, Canvas};
use crate::random_helper::{total_weight, RandomHelper, WeightError};
use crate::text::{decimal_u32, ends_with, fields_of, parse_u32, split_fields, texts_of};
use crate::tile_layout::compute_layout;
use vstd::prelude::*;

verus! {

/// Why a request is not carried out, or a picture not drawn.
#[derive(Clone, Copy, Debug, PartialEq, Eq, Structural)]
pub enum ConvertError {
    /// No source file is named.
    NoSourceFile,
    /// No source folder is named.
    NoSourceFolder,
    /// No source files are named.
    NoSourceFiles,
    /// No output file is named.
    NoOutputFile,
    /// No output folder is named.
    NoOutputFolder,
    /// No weights are given.
    NoProbabilities,
    /// The source is not a file.
    InputNotAFile,
    /// The source is not a folder.
    InputNotAFolder,
    /// Something that is no folder stands where the output folder should.
    OutputNotAFolder,
    /// A weight is not a number of 32 bits.
    InvalidProbability,
    /// There are not as many weights as source files.
    ProbabilityCountMismatch,
    /// The weights add up to more than a draw can reach.
    WeightsTooHeavy,
    /// All weights are zero.
    ZeroWeights,
    /// The one source is no square picture of the accepted kind.
    TextureRefused,
    /// A file of the folder is no square picture of the accepted kind.
    TextureSkipped,
    /// One of several sources is no square picture of the accepted kind.
    TextureMissing,
    /// The sources are not all of one size.
    SizeMismatch,
    /// A tile would have no extent: the texture is empty or the scale is zero.
    DegenerateTile,
    /// The grid has more cells than a list can hold.
    GridTooLarge,
}

/// What is done about an error.
#[derive(Clone, Copy, Debug, PartialEq, Eq, Structural)]
pub enum Severity {
    /// The file is passed over without a word, the run goes on.
    Skip,
    /// The message is shown and the request given up.
    Report,
    /// The program cannot go on.
    Fatal,
}

impl ConvertError {
    /// The words that tell the user of the error.
    pub open spec fn text(self) -> Seq<char> {
        match self {
            ConvertError::NoSourceFile => "Specify source file!"@,
            ConvertError::NoSourceFolder => "Specify source folder!"@,
            ConvertError::NoSourceFiles => "Specify source files separated by comma!"@,
            ConvertError::NoOutputFile => "Specify output file!"@,
            ConvertError::NoOutputFolder => "Specify output folder!"@,
            ConvertError::NoProbabilities => "Specify probabilities separated by comma!"@,
            ConvertError::InputNotAFile => "Input path is not a file!"@,
            ConvertError::InputNotAFolder => "Input path is not a folder!"@,
            ConvertError::OutputNotAFolder => "Output path exists and is not a folder!"@,
            ConvertError::InvalidProbability => "Parsing probability"@,
            ConvertError::ProbabilityCountMismatch => "Every path must have its probability"@,
            ConvertError::WeightsTooHeavy => "Probabilities add up to more than can be drawn"@,
            ConvertError::ZeroWeights => "Probabilities cannot all be zero"@,
            ConvertError::TextureRefused => "Refused to open the file"@,
            ConvertError::TextureSkipped => "Refused to open the file"@,
            ConvertError::TextureMissing => "Loading texture"@,
            ConvertError::SizeMismatch => "All source images must be the same size!"@,
            ConvertError::DegenerateTile => "Tiles must have a size"@,
            ConvertError::GridTooLarge => "Too many tiles"@,
        }
    }

    /// What is done about the error: a file of a folder that is no texture is
    /// passed over; a request that cannot be met is reported; what the program
    /// cannot recover from is fatal.
    pub open spec fn spec_severity(self) -> Severity {
        match self {
            ConvertError::TextureSkipped => Severity::Skip,
            ConvertError::InvalidProbability
            | ConvertError::WeightsTooHeavy
            | ConvertError::ZeroWeights
            | ConvertError::TextureMissing
            | ConvertError::DegenerateTile
            | ConvertError::GridTooLarge => Severity::Fatal,
            _ => Severity::Report,
        }
    }

    /// The words that tell the user of the error.
    pub fn message(&self) -> (message: &'static str)
        ensures
            message@ == self.text(),
    {
        match self {
            ConvertError::NoSourceFile => "Specify source file!",
            ConvertError::NoSourceFolder => "Specify source folder!",
            ConvertError::NoSourceFiles => "Specify source files separated by comma!",
            ConvertError::NoOutputFile => "Specify output file!",
            ConvertError::NoOutputFolder => "Specify output folder!",
            ConvertError::NoProbabilities => "Specify probabilities separated by comma!",
            ConvertError::InputNotAFile => "Input path is not a file!",
            ConvertError::InputNotAFolder => "Input path is not a folder!",
            ConvertError::OutputNotAFolder => "Output path exists and is not a folder!",
            ConvertError::InvalidProbability => "Parsing probability",
            ConvertError::ProbabilityCountMismatch => "Every path must have its probability",
            ConvertError::WeightsTooHeavy => "Probabilities add up to more than can be drawn",
            ConvertError::ZeroWeights => "Probabilities cannot all be zero",
            ConvertError::TextureRefused => "Refused to open the file",
            ConvertError::TextureSkipped => "Refused to open the file",
            ConvertError::TextureMissing => "Loading texture",
            ConvertError::SizeMismatch => "All source images must be the same size!",
            ConvertError::DegenerateTile => "Tiles must have a size",
            ConvertError::GridTooLarge => "Too many tiles",
        }
    }

    /// What is done about the error.
    pub fn severity(&self) -> (severity: Severity)
        ensures
            severity == self.spec_severity(),
    {
        match self {
            ConvertError::TextureSkipped => Severity::Skip,
            ConvertError::InvalidProbability
            | ConvertError::WeightsTooHeavy
            | ConvertError::ZeroWeights
            | ConvertError::TextureMissing
            | ConvertError::DegenerateTile
            | ConvertError::GridTooLarge => Severity::Fatal,
            _ => Severity::Report,
        }
    }
}

/// The name ends as the name of a texture file does.
pub open spec fn is_texture_name(source_file_name: Seq<char>) -> bool {
    ".png"@.is_suffix_of(source_file_name)
}

/// The side of the texture that a file gives: the file must be named as a texture
/// file, and what was decoded from it must be square.
pub open spec fn accepted_texture(source_file_name: Seq<char>, decoded: Option<(u32, u32)>) -> Option<
    u32,
> {
    match decoded {
        Some((width, height)) => if is_texture_name(source_file_name) && width == height {
            Some(width)
        } else {
            None
        },
        None => None,
    }
}

/// Whether a file is named as a texture file, so that decoding it is worth a try.
pub fn has_texture_name(source_file_name: &str) -> (named: bool)
    ensures
        named == is_texture_name(source_file_name@),
{
    ends_with(source_file_name, ".png")
}

/// Takes what was decoded from a file as a texture, and returns its side, or
/// refuses it: the file is not named as a texture file, was not decoded
/// (`decoded` is `None`), or is not square.
pub fn load_texture(source_file_name: &str, decoded: Option<(u32, u32)>) -> (side: Option<u32>)
    ensures
        side == accepted_texture(source_file_name@, decoded),
{
    if !has_texture_name(source_file_name) {
        return None;
    }
    match decoded {
        Some((width, height)) => {
            if width != height {
                return None;
            }
            Some(width)
        },
        None => None,
    }
}

/// A request for pictures of single textures that was found in order: what is
/// left to do for each source file.
#[derive(Clone, Copy, Debug, PartialEq, Eq, Structural)]
pub struct ImageJob {
    /// Width of the canvas.
    pub image_width: u32,
    /// Height of the canvas.
    pub image_height: u32,
    /// How many canvas pixels wide a texture pixel is drawn.
    pub scale_factor: u32,
    /// When tiles are turned.
    pub terracotta_behaviour: TerracottaBehaviour,
    /// Whether the sources are the files of a folder, of which those that are no
    /// textures are passed over.
    pub batch: bool,
}

impl ImageJob {
    /// The job that a request in order leaves.
    pub open spec fn of(config: ProgramConfig<'_>, batch: bool) -> ImageJob {
        ImageJob {
            image_width: config.image_width,
            image_height: config.image_height,
            scale_factor: config.scale_factor,
            terracotta_behaviour: config.terracotta_behaviour,
            batch,
        }
    }

    /// Why no picture is drawn from a file, if none is: the file gives no texture,
    /// a tile would have no extent, or the grid is too large.
    pub open spec fn refusal(self, source_file_name: Seq<char>, decoded: Option<(u32, u32)>) -> Option<
        ConvertError,
    > {
        match accepted_texture(source_file_name, decoded) {
            None => if self.batch {
                Some(ConvertError::TextureSkipped)
            } else {
                Some(ConvertError::TextureRefused)
            },
            Some(side) => if side == 0 || self.scale_factor == 0 {
                Some(ConvertError::DegenerateTile)
            } else if !grid_fits(
                self.image_width as int,
                self.image_height as int,
                side as int,
                self.scale_factor as int,
            ) {
                Some(ConvertError::GridTooLarge)
            } else {
                None
            },
        }
    }

    /// Plans the picture of one source file. `source_file_name` is the path that
    /// was decoded, `file_name` its last part, `decoded` the width and height of
    /// what was decoded from it, if it was decoded.
    pub fn render(&self, source_file_name: &str, file_name: &str, decoded: Option<(u32, u32)>) -> (planned:
        Result<RenderPlan, ConvertError>)
        ensures
            match planned {
                Ok(plan) => {
                    &&& self.refusal(source_file_name@, decoded) is None
                    &&& accepted_texture(source_file_name@, decoded) matches Some(side)
                    &&& plan.covers_grid(
                        self.image_width as int,
                        self.image_height as int,
                        side as int,
                        self.scale_factor as int,
                    )
                    &&& plan.gated
                    &&& self.terracotta_behaviour.turns(file_name@) ==> plan.all_turned()
                    &&& !self.terracotta_behaviour.turns(file_name@) ==> plan.all_upright()
                },
                Err(error) => self.refusal(source_file_name@, decoded) == Some(error),
            },
    {
        let side: u32 = match load_texture(source_file_name, decoded) {
            Some(side) => side,
            None => {
                if self.batch {
                    return Err(ConvertError::TextureSkipped);
                } else {
                    return Err(ConvertError::TextureRefused);
                }
            },
        };
        if side == 0 || self.scale_factor == 0 {
            return Err(ConvertError::DegenerateTile);
        }
        let layout = compute_layout(self.image_width, self.image_height, side, self.scale_factor);
        if grid_size(&layout).is_none() {
            return Err(ConvertError::GridTooLarge);
        }
        let is_terracotta: bool = self.terracotta_behaviour.applies_to(file_name);
        Ok(
            draw_sprite_and_handle_terracotta(
                is_terracotta,
                self.scale_factor,
                side,
                self.image_width,
                self.image_height,
            ),
        )
    }
}

/// What stands against a request for one picture from one file.
pub open spec fn single_refusal(config: ProgramConfig<'_>, input_is_file: bool) -> Option<ConvertError> {
    if config.input_folder_name@.len() == 0 {
        Some(ConvertError::NoSourceFile)
    } else if config.output_folder_name@.len() == 0 {
        Some(ConvertError::NoOutputFile)
    } else if !input_is_file {
        Some(ConvertError::InputNotAFile)
    } else {
        None
    }
}

/// Judges a request for one picture from one file: source and output must be
/// named, and the source must be a file (`input_is_file`).
pub fn convert_one(config: &ProgramConfig<'_>, input_is_file: bool) -> (job: Result<ImageJob, ConvertError>)
    ensures
        match job {
            Ok(job) => single_refusal(*config, input_is_file) is None && job == ImageJob::of(
                *config,
                false,
            ),
            Err(error) => single_refusal(*config, input_is_file) == Some(error),
        },
{
    if config.input_folder_name.is_empty() {
        return Err(ConvertError::NoSourceFile);
    }
    if config.output_folder_name.is_empty() {
        return Err(ConvertError::NoOutputFile);
    }
    if !input_is_file {
        return Err(ConvertError::InputNotAFile);
    }
    Ok(
        ImageJob {
            image_width: config.image_width,
            image_height: config.image_height,
            scale_factor: config.scale_factor,
            terracotta_behaviour: config.terracotta_behaviour,
            batch: false,
        },
    )
}

/// What stands against a request for a picture from every file of a folder.
pub open spec fn directory_refusal(
    config: ProgramConfig<'_>,
    input_is_folder: bool,
    output_exists: bool,
    output_is_folder: bool,
) -> Option<ConvertError> {
    if config.input_folder_name@.len() == 0 {
        Some(ConvertError::NoSourceFolder)
    } else if config.output_folder_name@.len() == 0 {
        Some(ConvertError::NoOutputFolder)
    } else if !input_is_folder {
        Some(ConvertError::InputNotAFolder)
    } else if output_exists && !output_is_folder {
        Some(ConvertError::OutputNotAFolder)
    } else {
        None
    }
}

/// Judges a request for a picture from every file of a folder: source and output
/// must be named, the source must be a folder, and the output, if it is there
/// already, must be one too.
pub fn convert_every_from_directory(
    config: &ProgramConfig<'_>,
    input_is_folder: bool,
    output_exists: bool,
    output_is_folder: bool,
) -> (job: Result<ImageJob, ConvertError>)
    ensures
        match job {
            Ok(job) => directory_refusal(*config, input_is_folder, output_exists, output_is_folder)
                is None && job == ImageJob::of(*config, true),
            Err(error) => directory_refusal(*config, input_is_folder, output_exists, output_is_folder)
                == Some(error),
        },
{
    if config.input_folder_name.is_empty() {
        return Err(ConvertError::NoSourceFolder);
    }
    if config.output_folder_name.is_empty() {
        return Err(ConvertError::NoOutputFolder);
    }
    if !input_is_folder {
        return Err(ConvertError::InputNotAFolder);
    }
    if output_exists && !output_is_folder {
        return Err(ConvertError::OutputNotAFolder);
    }
    Ok(
        ImageJob {
            image_width: config.image_width,
            image_height: config.image_height,
            scale_factor: config.scale_factor,
            terracotta_behaviour: config.terracotta_behaviour,
            batch: true,
        },
    )
}

/// The numbers that the fields write, if every field writes one.
pub open spec fn weights_of(fields: Seq<Seq<char>>) -> Option<Seq<u32>> {
    if forall|i: int| 0 <= i < fields.len() ==> decimal_u32(#[trigger] fields[i]) is Some {
        Some(Seq::new(fields.len(), |i: int| decimal_u32(fields[i])->0))
    } else {
        None
    }
}

/// Reads every field as a weight.
fn parse_weights(fields: &Vec<&str>) -> (weights: Option<Vec<u32>>)
    ensures
        match weights {
            Some(weights) => weights_of(texts_of(fields@)) == Some(weights@),
            None => weights_of(texts_of(fields@)) is None,
        },
{
    let mut weights: Vec<u32> = Vec::new();
    let mut i: usize = 0;
    while i < fields.len()
        invariant
            i <= fields@.len(),
            weights@.len() == i,
            forall|k: int| 0 <= k < i ==> decimal_u32(#[trigger] texts_of(fields@)[k]) == Some(weights@[k]),
        decreases fields@.len() - i,
    {
        match parse_u32(fields[i]) {
            Some(weight) => {
                weights.push(weight);
            },
            None => {
                assert(decimal_u32(texts_of(fields@)[i as int]) is None);
                return None;
            },
        }
        i = i + 1;
    }
    assert(weights_of(texts_of(fields@))->0 =~= weights@);
    Some(weights)
}

/// What stands against a request for a picture mixed from several files: source,
/// output or weights are not given, a weight is no number, there are not as
/// many weights as sources, or the weights cannot be drawn from.
pub open spec fn random_refusal(config: ProgramConfig<'_>) -> Option<ConvertError> {
    let paths = fields_of(config.input_folder_name@, ',');
    let weights = weights_of(fields_of(config.probabilities_str@, ','));
    if config.input_folder_name@.len() == 0 {
        Some(ConvertError::NoSourceFiles)
    } else if config.output_folder_name@.len() == 0 {
        Some(ConvertError::NoOutputFile)
    } else if config.probabilities_str@.len() == 0 {
        Some(ConvertError::NoProbabilities)
    } else if weights is None {
        Some(ConvertError::InvalidProbability)
    } else if paths.len() != weights->0.len() {
        Some(ConvertError::ProbabilityCountMismatch)
    } else if total_weight(weights->0) > u32::MAX {
        Some(ConvertError::WeightsTooHeavy)
    } else if total_weight(weights->0) == 0 {
        Some(ConvertError::ZeroWeights)
    } else {
        None
    }
}

/// What is wrong with the textures read for `sources` files, if anything: there is
/// not a texture for every file, or they are not all of the first one's size.
pub open spec fn texture_refusal(textures: Seq<Option<u32>>, sources: int) -> Option<ConvertError> {
    if textures.len() != sources || exists|i: int|
        0 <= i < textures.len() && (#[trigger] textures[i]) is None {
        Some(ConvertError::TextureMissing)
    } else if exists|i: int| 0 <= i < textures.len() && (#[trigger] textures[i]) != textures[0] {
        Some(ConvertError::SizeMismatch)
    } else {
        None
    }
}

/// The side that the textures read for `sources` files share. `textures` holds,
/// for every file in order, the side of its texture, or `None` where the file
/// gave no texture.
pub fn common_side(textures: &Vec<Option<u32>>, sources: usize) -> (side: Result<u32, ConvertError>)
    requires
        sources > 0,
    ensures
        match side {
            Ok(side) => texture_refusal(textures@, sources as int) is None && textures@[0] == Some(
                side,
            ),
            Err(error) => texture_refusal(textures@, sources as int) == Some(error),
        },
{
    if textures.len() != sources {
        return Err(ConvertError::TextureMissing);
    }
    let mut i: usize = 0;
    while i < textures.len()
        invariant
            i <= textures@.len(),
            forall|k: int| 0 <= k < i ==> (#[trigger] textures@[k]) is Some,
        decreases textures@.len() - i,
    {
        if textures[i].is_none() {
            return Err(ConvertError::TextureMissing);
        }
        i = i + 1;
    }
    let side: u32 = match textures[0] {
        Some(side) => side,
        None => 0,
    };
    let mut j: usize = 1;
    while j < textures.len()
        invariant
            1 <= j <= textures@.len() == sources,
            textures@[0] == Some(side),
            forall|k: int| 0 <= k < textures@.len() ==> (#[trigger] textures@[k]) is Some,
            forall|k: int| 0 <= k < j ==> (#[trigger] textures@[k]) == textures@[0],
        decreases textures@.len() - j,
    {
        match textures[j] {
            Some(other) => {
                if other != side {
                    return Err(ConvertError::SizeMismatch);
                }
            },
            None => {},
        }
        j = j + 1;
    }
    Ok(side)
}

/// A request for a picture mixed from several files that was found in order: the
/// source files, the helper that draws among them, and the canvas.
pub struct RandomJob<'a> {
    paths: Vec<&'a str>,
    randomizer: RandomHelper,
    image_width: u32,
    image_height: u32,
    scale_factor: u32,
}

impl<'a> RandomJob<'a> {
    /// There is a weight for every source file, and the weights can be drawn from.
    pub closed spec fn well_formed(&self) -> bool {
        &&& self.randomizer.well_formed()
        &&& self.paths@.len() == self.randomizer.weights().len()
    }

    /// The source files, in the order in which they were named.
    pub closed spec fn path_texts(&self) -> Seq<Seq<char>> {
        texts_of(self.paths@)
    }

    /// The weights of the source files, in the same order.
    pub closed spec fn weights(&self) -> Seq<u32> {
        self.randomizer.weights()
    }

    /// Width, height and scale of the picture.
    pub closed spec fn canvas(&self) -> (u32, u32, u32) {
        (self.image_width, self.image_height, self.scale_factor)
    }

    /// What a well-formed job holds: as many sources as weights, at least one.
    pub proof fn lemma_sources_have_weights(&self)
        requires
            self.well_formed(),
        ensures
            self.path_texts().len() == self.weights().len(),
            self.weights().len() > 0,
            0 < total_weight(self.weights()) <= u32::MAX,
    {
        self.randomizer.lemma_weights_are_drawable();
    }

    /// The source files, in the order in which they were named.
    pub fn paths(&self) -> (paths: &Vec<&'a str>)
        ensures
            texts_of(paths@) == self.path_texts(),
    {
        &self.paths
    }

    /// Why no picture is drawn from the textures read, if none is: a source gave
    /// no texture, the textures differ in size, a tile would have no extent,
    /// or the grid is too large.
    pub open spec fn refusal(&self, textures: Seq<Option<u32>>) -> Option<ConvertError> {
        if texture_refusal(textures, self.path_texts().len() as int) is Some {
            texture_refusal(textures, self.path_texts().len() as int)
        } else if textures[0]->0 == 0 || self.canvas().2 == 0 {
            Some(ConvertError::DegenerateTile)
        } else if !grid_fits(
            self.canvas().0 as int,
            self.canvas().1 as int,
            textures[0]->0 as int,
            self.canvas().2 as int,
        ) {
            Some(ConvertError::GridTooLarge)
        } else {
            None
        }
    }

    /// Plans the mixed picture. `textures` holds, for every source file in order,
    /// the side of the texture read from it (see `load_texture`). Which texture
    /// goes where is drawn by weight.
    pub fn render(&mut self, textures: &Vec<Option<u32>>) -> (planned: Result<RenderPlan, ConvertError>)
        requires
            old(self).well_formed(),
        ensures
            final(self).well_formed(),
            final(self).path_texts() == old(self).path_texts(),
            final(self).weights() == old(self).weights(),
            final(self).canvas() == old(self).canvas(),
            match planned {
                Ok(plan) => {
                    &&& old(self).refusal(textures@) is None
                    &&& plan.covers_grid(
                        old(self).canvas().0 as int,
                        old(self).canvas().1 as int,
                        textures@[0]->0 as int,
                        old(self).canvas().2 as int,
                    )
                    &&& !plan.gated
                    &&& plan.all_drawn_from(old(self).weights())
                },
                Err(error) => old(self).refusal(textures@) == Some(error),
            },
    {
        proof {
            self.randomizer.lemma_weights_are_drawable();
        }
        let side: u32 = match common_side(textures, self.paths.len()) {
            Ok(side) => side,
            Err(error) => {
                return Err(error);
            },
        };
        if side == 0 || self.scale_factor == 0 {
            return Err(ConvertError::DegenerateTile);
        }
        let layout = compute_layout(self.image_width, self.image_height, side, self.scale_factor);
        if grid_size(&layout).is_none() {
            return Err(ConvertError::GridTooLarge);
        }
        Ok(
            draw_random_tiles(
                &mut self.randomizer,
                self.scale_factor,
                side,
                self.image_width,
                self.image_height,
            ),
        )
    }
}

/// Judges a request for a picture mixed from several files. Source files and
/// weights are each given in one text, with commas between them.
pub fn convert_using_random_method<'a>(config: &ProgramConfig<'a>) -> (job: Result<
    RandomJob<'a>,
    ConvertError,
>)
    ensures
        match job {
            Ok(job) => {
                &&& random_refusal(*config) is None
                &&& job.well_formed()
                &&& job.path_texts() == fields_of(config.input_folder_name@, ',')
                &&& Some(job.weights()) == weights_of(fields_of(config.probabilities_str@, ','))
                &&& job.canvas() == (config.image_width, config.image_height, config.scale_factor)
            },
            Err(error) => random_refusal(*config) == Some(error),
        },
{
    if config.input_folder_name.is_empty() {
        return Err(ConvertError::NoSourceFiles);
    }
    if config.output_folder_name.is_empty() {
        return Err(ConvertError::NoOutputFile);
    }
    if config.probabilities_str.is_empty() {
        return Err(ConvertError::NoProbabilities);
    }
    let paths: Vec<&'a str> = split_fields(config.input_folder_name, ',');
    let fields: Vec<&'a str> = split_fields(config.probabilities_str, ',');
    let probabilities: Vec<u32> = match parse_weights(&fields) {
        Some(probabilities) => probabilities,
        None => {
            return Err(ConvertError::InvalidProbability);
        },
    };
    if paths.len() != probabilities.len() {
        return Err(ConvertError::ProbabilityCountMismatch);
    }
    match RandomHelper::new(probabilities) {
        Ok(randomizer) => Ok(
            RandomJob {
                paths,
                randomizer,
                image_width: config.image_width,
                image_height: config.image_height,
                scale_factor: config.scale_factor,
            },
        ),
        Err(WeightError::TotalTooLarge) => Err(ConvertError::WeightsTooHeavy),
        Err(_) => Err(ConvertError::ZeroWeights),
    }
}

/// Whether a drawn picture is kept: one that has to pass the corner test only if
/// it passes, any other always.
pub fn keeps(plan: &RenderPlan, img: &Canvas) -> (kept: bool)
    requires
        img.well_formed(),
    ensures
        kept == (!plan.gated || img.corners_opaque()),
{
    !plan.gated || should_be_saved(img)
}

} // verus!
