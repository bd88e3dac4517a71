use wallpaper_tiler::compositor::Pivot;
use wallpaper_tiler::config::{ProgramConfig, TerracottaBehaviour};
use wallpaper_tiler::image_converter::{
    common_side, convert_every_from_directory, convert_one, convert_using_random_method,
    has_texture_name, keeps, load_texture, ConvertError, ImageJob, RandomJob, Severity,
};
use wallpaper_tiler::output_gate::Canvas;

fn config<'a>(from: &'a str, to: &'a str, probabilities: &'a str) -> ProgramConfig<'a> {
    ProgramConfig {
        input_folder_name: from,
        output_folder_name: to,
        scale_factor: 1,
        image_width: 32,
        image_height: 32,
        terracotta_behaviour: TerracottaBehaviour::Never,
        probabilities_str: probabilities,
    }
}

fn random_job<'a>(config: &ProgramConfig<'a>) -> RandomJob<'a> {
    match convert_using_random_method(config) {
        Ok(job) => job,
        Err(error) => panic!("request refused: {:?}", error),
    }
}

fn random_refusal(config: &ProgramConfig<'_>) -> ConvertError {
    match convert_using_random_method(config) {
        Ok(_) => panic!("request taken"),
        Err(error) => error,
    }
}

fn opaque(width: u32, height: u32) -> Canvas {
    match Canvas::from_rgba(width, height, vec![255; (4 * width * height) as usize]) {
        Some(canvas) => canvas,
        None => panic!("pixels refused"),
    }
}

#[test]
fn single_opaque_tile_is_tiled_and_saved() {
    let request = config("stone.png", "out.png", "");
    let job = convert_one(&request, true).unwrap_or_else(|error| panic!("{:?}", error));
    let plan = job
        .render("stone.png", "stone.png", Some((16, 16)))
        .unwrap_or_else(|error| panic!("{:?}", error));
    assert_eq!(plan.layout.horizontal_count, 3);
    assert_eq!(plan.layout.vertical_count, 3);
    assert_eq!(plan.tiles.len(), 9);
    assert_eq!(plan.layout.offset_x, 8);
    assert_eq!(plan.layout.offset_y, 8);
    for (x, y) in [(0i64, 0i64), (31, 0), (0, 31), (31, 31)] {
        let covered = plan.tiles.iter().any(|tile| {
            let left = tile.x as i64 - plan.layout.offset_x;
            let top = tile.y as i64 - plan.layout.offset_y;
            left <= x && x < left + 16 && top <= y && y < top + 16
        });
        assert!(covered);
    }
    for tile in &plan.tiles {
        assert_eq!(tile.rotation, 0);
        assert_eq!(tile.pivot, Pivot::TopLeft);
    }
    assert!(keeps(&plan, &opaque(32, 32)));
}

#[test]
fn terracotta_always_turns_the_second_tile() {
    let mut request = config("stone.png", "out.png", "");
    request.terracotta_behaviour = TerracottaBehaviour::Always;
    let job = convert_one(&request, true).unwrap_or_else(|error| panic!("{:?}", error));
    let plan = job
        .render("stone.png", "stone.png", Some((16, 16)))
        .unwrap_or_else(|error| panic!("{:?}", error));
    assert_eq!(plan.tiles.len(), 9);
    assert_eq!(plan.tiles[0].rotation, 0);
    assert_eq!(plan.tiles[1].rotation, 90);
    assert_eq!(plan.tiles[1].pivot, Pivot::Center);
}

#[test]
fn textures_of_different_sizes_are_refused() {
    let request = config("a.png,b.png", "out.png", "1,1");
    let mut job = random_job(&request);
    let a = load_texture("a.png", Some((16, 16)));
    let b = load_texture("b.png", Some((8, 8)));
    assert_eq!((a, b), (Some(16), Some(8)));
    let planned = job.render(&vec![a, b]);
    assert_eq!(planned.err(), Some(ConvertError::SizeMismatch));
    assert_eq!(ConvertError::SizeMismatch.message(), "All source images must be the same size!");
    assert_eq!(ConvertError::SizeMismatch.severity(), Severity::Report);
}

#[test]
fn more_weights_than_sources_are_refused() {
    let request = config("a.png,b.png", "out.png", "1,2,3");
    assert_eq!(random_refusal(&request), ConvertError::ProbabilityCountMismatch);
    assert_eq!(
        ConvertError::ProbabilityCountMismatch.message(),
        "Every path must have its probability"
    );
    assert_eq!(ConvertError::ProbabilityCountMismatch.severity(), Severity::Report);
}

#[test]
fn fewer_weights_than_sources_are_refused() {
    assert_eq!(
        random_refusal(&config("a.png,b.png,c.png", "out.png", "1,2")),
        ConvertError::ProbabilityCountMismatch
    );
    assert_eq!(
        random_refusal(&config("a.png,", "out.png", "1")),
        ConvertError::ProbabilityCountMismatch
    );
}

#[test]
fn random_request_needs_its_three_texts() {
    assert_eq!(random_refusal(&config("", "out.png", "1")), ConvertError::NoSourceFiles);
    assert_eq!(random_refusal(&config("", "", "")), ConvertError::NoSourceFiles);
    assert_eq!(random_refusal(&config("a.png", "", "1")), ConvertError::NoOutputFile);
    assert_eq!(random_refusal(&config("a.png", "", "")), ConvertError::NoOutputFile);
    assert_eq!(random_refusal(&config("a.png", "out.png", "")), ConvertError::NoProbabilities);
}

#[test]
fn unreadable_weight_is_fatal() {
    for weights in ["x", "1,x", "1,", ",1", "1, 2", "-1,2", "4294967296,1", "1.5,2"] {
        assert_eq!(
            random_refusal(&config("a.png,b.png", "out.png", weights)),
            ConvertError::InvalidProbability,
            "{:?}",
            weights
        );
    }
    assert_eq!(ConvertError::InvalidProbability.severity(), Severity::Fatal);
    assert_eq!(ConvertError::InvalidProbability.message(), "Parsing probability");
}

#[test]
fn unreadable_weight_is_found_before_the_counts_are_compared() {
    assert_eq!(
        random_refusal(&config("a.png,b.png", "out.png", "1,2,x")),
        ConvertError::InvalidProbability
    );
}

#[test]
fn weights_that_cannot_be_drawn_from_are_refused() {
    assert_eq!(random_refusal(&config("a.png,b.png", "out.png", "0,0")), ConvertError::ZeroWeights);
    assert_eq!(random_refusal(&config("a.png", "out.png", "0")), ConvertError::ZeroWeights);
    assert_eq!(
        random_refusal(&config("a.png,b.png", "out.png", "4294967295,1")),
        ConvertError::WeightsTooHeavy
    );
    assert_eq!(ConvertError::ZeroWeights.severity(), Severity::Fatal);
    assert_eq!(ConvertError::WeightsTooHeavy.severity(), Severity::Fatal);
}

#[test]
fn random_job_keeps_the_sources_in_order() {
    let request = config("a.png,dir/b.png,c d.png", "out.png", "1,0,2");
    let job = random_job(&request);
    assert_eq!(job.paths(), &vec!["a.png", "dir/b.png", "c d.png"]);
}

#[test]
fn random_job_plans_a_mixed_picture() {
    let request = config("a.png,b.png,c.png", "out.png", "1,0,2");
    let mut job = random_job(&request);
    let plan = job
        .render(&vec![Some(16), Some(16), Some(16)])
        .unwrap_or_else(|error| panic!("{:?}", error));
    assert_eq!(plan.layout.horizontal_count, 3);
    assert_eq!(plan.layout.vertical_count, 3);
    assert_eq!(plan.layout.offset_x, 8);
    assert_eq!(plan.tiles.len(), 9);
    assert!(!plan.gated);
    for (k, tile) in plan.tiles.iter().enumerate() {
        assert_eq!(tile.x, (k as u64 % 3) * 16);
        assert_eq!(tile.y, (k as u64 / 3) * 16);
        assert_eq!(tile.rotation, 0);
        assert_eq!(tile.pivot, Pivot::TopLeft);
        assert!(tile.texture == 0 || tile.texture == 2);
    }
    let again = job.render(&vec![Some(8), Some(8), Some(8)]).unwrap_or_else(|error| panic!("{:?}", error));
    assert_eq!(again.tiles.len(), 25);
}

#[test]
fn random_mode_does_not_turn_terracotta() {
    let mut request = config("blue_glazed_terracotta.png", "out.png", "1");
    request.terracotta_behaviour = TerracottaBehaviour::Always;
    let mut job = random_job(&request);
    let plan = job.render(&vec![Some(16)]).unwrap_or_else(|error| panic!("{:?}", error));
    for tile in &plan.tiles {
        assert_eq!(tile.rotation, 0);
        assert_eq!(tile.pivot, Pivot::TopLeft);
        assert_eq!(tile.texture, 0);
    }
}

#[test]
fn source_without_texture_is_fatal() {
    let request = config("a.png,b.txt", "out.png", "1,1");
    let mut job = random_job(&request);
    let b = load_texture("b.txt", None);
    assert_eq!(job.render(&vec![Some(16), b]).err(), Some(ConvertError::TextureMissing));
    assert_eq!(job.render(&vec![None, Some(8)]).err(), Some(ConvertError::TextureMissing));
    assert_eq!(job.render(&vec![Some(16)]).err(), Some(ConvertError::TextureMissing));
    assert_eq!(job.render(&vec![]).err(), Some(ConvertError::TextureMissing));
    assert_eq!(
        job.render(&vec![Some(16), Some(16), Some(16)]).err(),
        Some(ConvertError::TextureMissing)
    );
    assert_eq!(ConvertError::TextureMissing.severity(), Severity::Fatal);
}

#[test]
fn missing_texture_is_found_before_sizes_are_compared() {
    let request = config("a.png,b.png,c.png", "out.png", "1,1,1");
    let mut job = random_job(&request);
    assert_eq!(
        job.render(&vec![Some(16), Some(8), None]).err(),
        Some(ConvertError::TextureMissing)
    );
}

#[test]
fn common_side_is_the_first_ones() {
    assert_eq!(common_side(&vec![Some(16)], 1), Ok(16));
    assert_eq!(common_side(&vec![Some(16), Some(16), Some(16)], 3), Ok(16));
    assert_eq!(common_side(&vec![Some(16), Some(8)], 2), Err(ConvertError::SizeMismatch));
    assert_eq!(common_side(&vec![Some(8), Some(8), Some(16)], 3), Err(ConvertError::SizeMismatch));
    assert_eq!(common_side(&vec![Some(8), None], 2), Err(ConvertError::TextureMissing));
    assert_eq!(common_side(&vec![Some(8)], 2), Err(ConvertError::TextureMissing));
}

#[test]
fn scale_zero_gives_no_tiles() {
    let mut request = config("a.png", "out.png", "1");
    request.scale_factor = 0;
    let mut job = random_job(&request);
    assert_eq!(job.render(&vec![Some(16)]).err(), Some(ConvertError::DegenerateTile));
    let single = convert_one(&request, true).unwrap_or_else(|error| panic!("{:?}", error));
    assert_eq!(
        single.render("a.png", "a.png", Some((16, 16))).err(),
        Some(ConvertError::DegenerateTile)
    );
    assert_eq!(
        single.render("a.png", "a.png", Some((0, 0))).err(),
        Some(ConvertError::DegenerateTile)
    );
    assert_eq!(ConvertError::DegenerateTile.severity(), Severity::Fatal);
}

#[test]
fn single_request_is_judged_in_order() {
    assert_eq!(convert_one(&config("", "", ""), false), Err(ConvertError::NoSourceFile));
    assert_eq!(convert_one(&config("", "out.png", ""), true), Err(ConvertError::NoSourceFile));
    assert_eq!(convert_one(&config("a.png", "", ""), false), Err(ConvertError::NoOutputFile));
    assert_eq!(convert_one(&config("a.png", "out.png", ""), false), Err(ConvertError::InputNotAFile));
    let mut request = config("a.png", "out.png", "");
    request.scale_factor = 8;
    request.image_width = 1920;
    request.image_height = 1080;
    request.terracotta_behaviour = TerracottaBehaviour::Auto;
    assert_eq!(
        convert_one(&request, true),
        Ok(ImageJob {
            image_width: 1920,
            image_height: 1080,
            scale_factor: 8,
            terracotta_behaviour: TerracottaBehaviour::Auto,
            batch: false,
        })
    );
}

#[test]
fn directory_request_is_judged_in_order() {
    let empty = config("", "", "");
    assert_eq!(
        convert_every_from_directory(&empty, false, true, false),
        Err(ConvertError::NoSourceFolder)
    );
    let no_output = config("in", "", "");
    assert_eq!(
        convert_every_from_directory(&no_output, false, true, false),
        Err(ConvertError::NoOutputFolder)
    );
    let request = config("in", "out", "");
    assert_eq!(
        convert_every_from_directory(&request, false, true, false),
        Err(ConvertError::InputNotAFolder)
    );
    assert_eq!(
        convert_every_from_directory(&request, true, true, false),
        Err(ConvertError::OutputNotAFolder)
    );
    let job = ImageJob {
        image_width: 32,
        image_height: 32,
        scale_factor: 1,
        terracotta_behaviour: TerracottaBehaviour::Never,
        batch: true,
    };
    assert_eq!(convert_every_from_directory(&request, true, true, true), Ok(job));
    assert_eq!(convert_every_from_directory(&request, true, false, false), Ok(job));
    assert_eq!(convert_every_from_directory(&request, true, false, true), Ok(job));
}

#[test]
fn texture_files_end_in_png() {
    assert!(has_texture_name("stone.png"));
    assert!(has_texture_name("dir/stone.png"));
    assert!(has_texture_name(".png"));
    assert!(!has_texture_name("stone.PNG"));
    assert!(!has_texture_name("stone.jpg"));
    assert!(!has_texture_name("stone.png.bak"));
    assert!(!has_texture_name("png"));
    assert!(!has_texture_name(""));
}

#[test]
fn only_square_textures_of_the_right_name_are_taken() {
    assert_eq!(load_texture("stone.png", Some((16, 16))), Some(16));
    assert_eq!(load_texture("stone.png", Some((1, 1))), Some(1));
    assert_eq!(load_texture("stone.png", Some((16, 8))), None);
    assert_eq!(load_texture("stone.png", Some((8, 16))), None);
    assert_eq!(load_texture("stone.jpg", Some((16, 16))), None);
    assert_eq!(load_texture("stone.png", None), None);
    assert_eq!(load_texture("stone", None), None);
}

#[test]
fn refused_texture_is_reported_for_a_single_file() {
    let request = config("stone.png", "out.png", "");
    let job = convert_one(&request, true).unwrap_or_else(|error| panic!("{:?}", error));
    assert_eq!(
        job.render("stone.png", "stone.png", Some((16, 8))).err(),
        Some(ConvertError::TextureRefused)
    );
    assert_eq!(job.render("stone.txt", "stone.txt", None).err(), Some(ConvertError::TextureRefused));
    assert_eq!(ConvertError::TextureRefused.message(), "Refused to open the file");
    assert_eq!(ConvertError::TextureRefused.severity(), Severity::Report);
}

#[test]
fn refused_texture_is_passed_over_in_a_folder() {
    let request = config("in", "out", "");
    let job = convert_every_from_directory(&request, true, false, false)
        .unwrap_or_else(|error| panic!("{:?}", error));
    assert_eq!(
        job.render("in/readme.txt", "readme.txt", None).err(),
        Some(ConvertError::TextureSkipped)
    );
    assert_eq!(
        job.render("in/wide.png", "wide.png", Some((32, 16))).err(),
        Some(ConvertError::TextureSkipped)
    );
    assert_eq!(ConvertError::TextureSkipped.severity(), Severity::Skip);
    let plan = job
        .render("in/stone.png", "stone.png", Some((16, 16)))
        .unwrap_or_else(|error| panic!("{:?}", error));
    assert_eq!(plan.tiles.len(), 9);
    assert!(plan.gated);
}

#[test]
fn auto_turns_glazed_terracotta_only() {
    let mut request = config("in", "out", "");
    request.terracotta_behaviour = TerracottaBehaviour::Auto;
    let job = convert_every_from_directory(&request, true, true, true)
        .unwrap_or_else(|error| panic!("{:?}", error));
    let turned = job
        .render("in/blue_glazed_terracotta.png", "blue_glazed_terracotta.png", Some((16, 16)))
        .unwrap_or_else(|error| panic!("{:?}", error));
    let turns: Vec<u16> = turned.tiles.iter().map(|tile| tile.rotation).collect();
    assert_eq!(turns, vec![0, 90, 0, 270, 180, 270, 0, 90, 0]);
    let plain = job
        .render("glazed_terracotta/stone.png", "stone.png", Some((16, 16)))
        .unwrap_or_else(|error| panic!("{:?}", error));
    for tile in &plain.tiles {
        assert_eq!(tile.rotation, 0);
        assert_eq!(tile.pivot, Pivot::TopLeft);
    }
}

#[test]
fn every_error_has_its_words() {
    let words = [
        (ConvertError::NoSourceFile, "Specify source file!"),
        (ConvertError::NoSourceFolder, "Specify source folder!"),
        (ConvertError::NoSourceFiles, "Specify source files separated by comma!"),
        (ConvertError::NoOutputFile, "Specify output file!"),
        (ConvertError::NoOutputFolder, "Specify output folder!"),
        (ConvertError::NoProbabilities, "Specify probabilities separated by comma!"),
        (ConvertError::InputNotAFile, "Input path is not a file!"),
        (ConvertError::InputNotAFolder, "Input path is not a folder!"),
        (ConvertError::OutputNotAFolder, "Output path exists and is not a folder!"),
    ];
    for (error, text) in words {
        assert_eq!(error.message(), text);
        assert_eq!(error.severity(), Severity::Report);
    }
    assert_eq!(ConvertError::GridTooLarge.severity(), Severity::Fatal);
}

#[test]
fn grid_too_large_for_a_list_is_fatal() {
    let mut request = config("a.png", "out.png", "1");
    request.image_width = u32::MAX;
    request.image_height = u32::MAX;
    let single = convert_one(&request, true).unwrap_or_else(|error| panic!("{:?}", error));
    assert_eq!(single.render("a.png", "a.png", Some((1, 1))).err(), Some(ConvertError::GridTooLarge));
    let mut job = random_job(&request);
    assert_eq!(job.render(&vec![Some(1)]).err(), Some(ConvertError::GridTooLarge));
    assert_eq!(ConvertError::GridTooLarge.severity(), Severity::Fatal);
    assert_eq!(ConvertError::GridTooLarge.message(), "Too many tiles");
}

#[test]
fn large_canvas_with_large_tiles_is_planned() {
    let mut request = config("a.png", "out.png", "1");
    request.image_width = u32::MAX;
    request.image_height = u32::MAX;
    request.scale_factor = 1 << 16;
    let single = convert_one(&request, true).unwrap_or_else(|error| panic!("{:?}", error));
    let plan = single
        .render("a.png", "a.png", Some((1 << 15, 1 << 15)))
        .unwrap_or_else(|error| panic!("{:?}", error));
    assert_eq!(plan.span, 1 << 31);
    assert_eq!(plan.layout.horizontal_count, 2);
    assert_eq!(plan.tiles.len(), 4);
    assert_eq!((plan.tiles[3].x, plan.tiles[3].y), (1 << 31, 1 << 31));
    assert_eq!(plan.layout.offset_x, 0);
}
