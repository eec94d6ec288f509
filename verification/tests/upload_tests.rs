use geoconvert::upload::{
    classify_upload, get_uploaded_filename, handle_multiple_files, handle_single_file,
    needs_staging, plan_move, plan_staging, ParamValue, StagingMove, Upload, UploadedFile,
};

fn file(name: &str, path: &str) -> UploadedFile {
    UploadedFile { filename: name.to_string(), path: path.to_string() }
}

fn file_value(name: &str, path: &str) -> ParamValue {
    ParamValue::File(file(name, path))
}

fn roads_bundle() -> Vec<ParamValue> {
    vec![
        file_value("roads.shp", "/up/1"),
        file_value("roads.dbf", "/up/2"),
        file_value("roads.shx", "/up/3"),
        file_value("roads.prj", "/up/4"),
        file_value("roads.cpg", "/up/5"),
    ]
}

fn describe(m: &StagingMove) -> (String, String, Option<String>) {
    (m.source.clone(), m.destination.clone(), m.index_name.clone())
}

#[test]
fn single_file_keeps_its_upload_path() {
    let input = handle_single_file(&file("parcels.geojson", "/var/upload/xyz"));
    assert_eq!(input.original_base_name, "parcels");
    assert_eq!(input.staged_path, "/var/upload/xyz");
    assert!(!input.is_multi_component);
}

#[test]
fn single_file_drops_only_the_last_extension() {
    let input = handle_single_file(&file("survey.2024.kml", "/up/a"));
    assert_eq!(input.original_base_name, "survey.2024");
}

#[test]
fn single_file_without_extension_keeps_its_name() {
    let input = handle_single_file(&file("parcels", "/up/a"));
    assert_eq!(input.original_base_name, "parcels");
}

#[test]
fn plan_move_marks_the_geometry_component() {
    let m = plan_move(&file("roads.shp", "/up/1"), "abc");
    assert_eq!(
        describe(&m),
        ("/up/1".to_string(), "/tmp/abc.shp".to_string(), Some("roads".to_string()))
    );
}

#[test]
fn plan_move_matches_the_extension_exactly() {
    assert_eq!(plan_move(&file("roads.SHP", "/up/1"), "abc").index_name, None);
    assert_eq!(plan_move(&file("roads.shpx", "/up/1"), "abc").index_name, None);
    assert_eq!(plan_move(&file("roads.dbf", "/up/1"), "abc").index_name, None);
    assert_eq!(plan_move(&file("shp", "/up/1"), "abc").index_name, None);
    assert_eq!(plan_move(&file("roads.shp.bak", "/up/1"), "abc").index_name, None);
}

#[test]
fn plan_move_uses_the_components_own_extension() {
    assert_eq!(plan_move(&file("roads.dbf", "/up/2"), "abc").destination, "/tmp/abc.dbf");
    assert_eq!(plan_move(&file("other.name.prj", "/up/2"), "abc").destination, "/tmp/abc.prj");
    assert_eq!(plan_move(&file("noext", "/up/2"), "abc").destination, "/tmp/abc.");
}

#[test]
fn plan_staging_moves_every_file_in_order() {
    let plan = plan_staging(&roads_bundle(), "0f");
    let got: Vec<(String, String)> =
        plan.iter().map(|m| (m.source.clone(), m.destination.clone())).collect();
    let want: Vec<(String, String)> = [
        ("/up/1", "/tmp/0f.shp"),
        ("/up/2", "/tmp/0f.dbf"),
        ("/up/3", "/tmp/0f.shx"),
        ("/up/4", "/tmp/0f.prj"),
        ("/up/5", "/tmp/0f.cpg"),
    ]
    .iter()
    .map(|(s, d)| (s.to_string(), d.to_string()))
    .collect();
    assert_eq!(got, want);
    assert_eq!(plan[0].index_name, Some("roads".to_string()));
    assert!(plan[1..].iter().all(|m| m.index_name.is_none()));
}

#[test]
fn plan_staging_passes_over_values_that_are_no_files() {
    let values = vec![
        ParamValue::Text("note".to_string()),
        file_value("a.shp", "/up/1"),
        ParamValue::Other,
        ParamValue::Array(vec![file_value("nested.shp", "/up/9")]),
        file_value("a.dbf", "/up/2"),
    ];
    let plan = plan_staging(&values, "ab");
    assert_eq!(plan.len(), 2);
    assert_eq!(plan[0].source, "/up/1");
    assert_eq!(plan[1].source, "/up/2");
}

#[test]
fn bundle_input_comes_from_the_geometry_component() {
    let plan = plan_staging(&roads_bundle(), "0f");
    let input = handle_multiple_files(&plan, &vec![true; 5]).unwrap();
    assert_eq!(input.original_base_name, "roads");
    assert_eq!(input.staged_path, "/tmp/0f.shp");
    assert!(input.is_multi_component);
}

#[test]
fn bundle_input_names_the_original_file_not_the_stem() {
    let values = vec![file_value("a.dbf", "/up/1"), file_value("rivers.shp", "/up/2")];
    let plan = plan_staging(&values, "deadbeef");
    let input = handle_multiple_files(&plan, &vec![true, true]).unwrap();
    assert_eq!(input.original_base_name, "rivers");
    assert_eq!(input.staged_path, "/tmp/deadbeef.shp");
}

#[test]
fn bundle_without_geometry_component_gives_no_input() {
    let values = vec![
        file_value("roads.dbf", "/up/2"),
        file_value("roads.shx", "/up/3"),
        file_value("roads.prj", "/up/4"),
    ];
    let plan = plan_staging(&values, "0f");
    assert_eq!(plan.len(), 3);
    assert!(handle_multiple_files(&plan, &vec![true; 3]).is_none());
    assert!(handle_multiple_files(&plan, &vec![false; 3]).is_none());
}

#[test]
fn geometry_component_that_was_not_staged_gives_no_input() {
    let plan = plan_staging(&roads_bundle(), "0f");
    assert!(handle_multiple_files(&plan, &vec![false, true, true, true, true]).is_none());
}

#[test]
fn missing_report_counts_as_not_staged() {
    let values = vec![file_value("a.dbf", "/up/1"), file_value("a.shp", "/up/2")];
    let plan = plan_staging(&values, "0f");
    assert!(handle_multiple_files(&plan, &vec![true]).is_none());
    assert!(handle_multiple_files(&plan, &vec![]).is_none());
}

#[test]
fn failure_of_another_component_does_not_hide_the_input() {
    let plan = plan_staging(&roads_bundle(), "0f");
    let input = handle_multiple_files(&plan, &vec![true, false, false, true, true]).unwrap();
    assert_eq!(input.original_base_name, "roads");
}

#[test]
fn last_staged_geometry_component_wins() {
    let values = vec![file_value("first.shp", "/up/1"), file_value("second.shp", "/up/2")];
    let plan = plan_staging(&values, "0f");
    let both = handle_multiple_files(&plan, &vec![true, true]).unwrap();
    assert_eq!(both.original_base_name, "second");
    let first_only = handle_multiple_files(&plan, &vec![true, false]).unwrap();
    assert_eq!(first_only.original_base_name, "first");
}

#[test]
fn empty_plan_gives_no_input() {
    assert!(handle_multiple_files(&Vec::new(), &Vec::new()).is_none());
}

#[test]
fn missing_field_is_absent() {
    assert!(matches!(classify_upload(None, "0f"), Upload::Absent));
    assert!(matches!(get_uploaded_filename(None), Upload::Absent));
}

#[test]
fn wrong_kind_of_value_is_absent() {
    let text = ParamValue::Text("roads.shp".to_string());
    assert!(matches!(classify_upload(Some(&text), "0f"), Upload::Absent));
    assert!(matches!(classify_upload(Some(&ParamValue::Other), "0f"), Upload::Absent));
    assert!(matches!(get_uploaded_filename(Some(&text)), Upload::Absent));
}

#[test]
fn file_value_is_single() {
    let value = file_value("parcels.geojson", "/up/p");
    match classify_upload(Some(&value), "0f") {
        Upload::Single(input) => {
            assert_eq!(input.original_base_name, "parcels");
            assert_eq!(input.staged_path, "/up/p");
            assert!(!input.is_multi_component);
        }
        other => panic!("{:?}", other),
    }
}

#[test]
fn collection_of_one_file_is_single() {
    let value = ParamValue::Array(vec![file_value("parcels.geojson", "/up/p")]);
    match get_uploaded_filename(Some(&value)) {
        Upload::Single(input) => {
            assert_eq!(input.original_base_name, "parcels");
            assert_eq!(input.staged_path, "/up/p");
            assert!(!input.is_multi_component);
        }
        other => panic!("{:?}", other),
    }
}

#[test]
fn collection_of_one_value_that_is_no_file_is_absent() {
    let value = ParamValue::Array(vec![ParamValue::Text("x".to_string())]);
    assert!(matches!(classify_upload(Some(&value), "0f"), Upload::Absent));
}

#[test]
fn collection_of_several_files_is_a_bundle() {
    let value = ParamValue::Array(roads_bundle());
    match classify_upload(Some(&value), "0f") {
        Upload::Bundle(moves) => {
            assert_eq!(moves.len(), 5);
            assert_eq!(moves[0].destination, "/tmp/0f.shp");
        }
        other => panic!("{:?}", other),
    }
}

#[test]
fn empty_collection_is_a_bundle_without_moves() {
    let value = ParamValue::Array(Vec::new());
    match classify_upload(Some(&value), "0f") {
        Upload::Bundle(moves) => assert!(moves.is_empty()),
        other => panic!("{:?}", other),
    }
}

#[test]
fn needs_staging_only_for_other_collections() {
    assert!(!needs_staging(None));
    assert!(!needs_staging(Some(&file_value("a.shp", "/up/1"))));
    assert!(!needs_staging(Some(&ParamValue::Array(vec![file_value("a.shp", "/up/1")]))));
    assert!(needs_staging(Some(&ParamValue::Array(roads_bundle()))));
    assert!(needs_staging(Some(&ParamValue::Array(Vec::new()))));
}

#[test]
fn bundle_components_share_one_fresh_stem() {
    let value = ParamValue::Array(roads_bundle());
    let moves = match get_uploaded_filename(Some(&value)) {
        Upload::Bundle(moves) => moves,
        other => panic!("{:?}", other),
    };
    let stem = moves[0]
        .destination
        .strip_prefix("/tmp/")
        .and_then(|rest| rest.strip_suffix(".shp"))
        .unwrap()
        .to_string();
    assert_eq!(stem.len(), 32);
    assert!(stem.chars().all(|c| c.is_ascii_digit() || ('a'..='f').contains(&c)));
    for (m, ext) in moves.iter().zip(["shp", "dbf", "shx", "prj", "cpg"]) {
        assert_eq!(m.destination, format!("/tmp/{}.{}", stem, ext));
    }
    let again = match get_uploaded_filename(Some(&value)) {
        Upload::Bundle(moves) => moves,
        other => panic!("{:?}", other),
    };
    assert_ne!(again[0].destination, moves[0].destination);
}
