//! The format classifier, command-line validation, the writer's
//! no-overwrite precondition, and error descriptions.

use colmerge::Error;
use colmerge::FileMergeArgs;
use colmerge::FileType;
use colmerge::check_output_path;
use colmerge::get_file_type;
use colmerge::handle_input;

#[test]
fn known_extensions_map_to_their_formats() {
    assert_eq!(get_file_type("data.parquet").unwrap(), FileType::Parquet);
    assert_eq!(get_file_type("data.csv").unwrap(), FileType::Csv);
    assert_eq!(get_file_type("data.json").unwrap(), FileType::Json);
    assert_eq!(get_file_type("data.orc").unwrap(), FileType::Orc);
    assert_eq!(
        get_file_type("dir.with.dots/weather.2024.parquet").unwrap(),
        FileType::Parquet
    );
}

#[test]
fn missing_or_unknown_extension_is_refused() {
    for path in ["noext", "data.txt", "data.PARQUET", "dir.d/file", ".parquet", "data.", ""] {
        match get_file_type(path) {
            Err(Error::UnsupportedFileType(p)) => assert_eq!(p, path),
            _ => panic!("{path:?} must be refused"),
        }
    }
}

#[test]
fn all_present_inputs_are_handed_back_unchanged() {
    let args = FileMergeArgs {
        files: vec![String::from("a.parquet"), String::from("b.parquet")],
        output: String::from("out.parquet"),
    };
    let (files, output) = handle_input(args, &vec![true, true]).unwrap();
    assert_eq!(files, vec![String::from("a.parquet"), String::from("b.parquet")]);
    assert_eq!(output, "out.parquet");
}

#[test]
fn the_first_missing_input_fails_the_run() {
    let args = FileMergeArgs {
        files: vec![
            String::from("a.parquet"),
            String::from("b.parquet"),
            String::from("c.parquet"),
        ],
        output: String::from("out.parquet"),
    };
    match handle_input(args, &vec![true, false, false]) {
        Err(Error::FileNotFound(p)) => assert_eq!(p, "b.parquet"),
        _ => panic!("a missing input must fail the run"),
    }
}

#[test]
fn an_existing_output_path_is_refused_untouched() {
    match check_output_path(&String::from("out.parquet"), true) {
        Err(Error::OutputAlreadyExists(p)) => assert_eq!(p, "out.parquet"),
        _ => panic!("an existing output must be refused"),
    }
}

#[test]
fn a_fresh_output_path_is_accepted() {
    assert!(check_output_path(&String::from("out.parquet"), false).is_ok());
}

#[test]
fn error_descriptions_name_the_offender() {
    assert_eq!(
        Error::FileNotFound(String::from("a.parquet")).describe(),
        "input file not found: a.parquet"
    );
    assert_eq!(
        Error::UnsupportedFileType(String::from("a.txt")).describe(),
        "unsupported file type: a.txt"
    );
    assert_eq!(
        Error::SchemaExtractionFailure(String::from("a.parquet")).describe(),
        "could not extract a schema from: a.parquet"
    );
    assert_eq!(
        Error::SchemaConflict(String::from("x")).describe(),
        "conflicting types for field: x"
    );
    assert_eq!(
        Error::UnsupportedColumnType(String::from("tags")).describe(),
        "cannot synthesize a composite column: tags"
    );
    assert_eq!(
        Error::OutputAlreadyExists(String::from("out.parquet")).describe(),
        "output file already exists: out.parquet"
    );
    assert_eq!(
        Error::WriteFailure(String::from("out.parquet")).describe(),
        "could not write output: out.parquet"
    );
}
