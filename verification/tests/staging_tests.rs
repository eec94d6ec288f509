use geoconvert::staging::{
    cleanup_paths, generate_unique_base, next_removal, remove_hyphens, replace_extension,
    sibling_path, stage_destination, CleanupStep,
};

fn is_lower_hex(c: char) -> bool {
    c.is_ascii_digit() || ('a'..='f').contains(&c)
}

#[test]
fn unique_base_is_32_hex_digits() {
    for _ in 0..50 {
        let base = generate_unique_base();
        assert_eq!(base.chars().count(), 32);
        assert!(base.chars().all(is_lower_hex), "{}", base);
    }
}

#[test]
fn unique_bases_differ() {
    let mut seen: Vec<String> = Vec::new();
    for _ in 0..200 {
        let base = generate_unique_base();
        assert!(!seen.contains(&base));
        seen.push(base);
    }
}

#[test]
fn remove_hyphens_strips_every_hyphen() {
    assert_eq!(remove_hyphens("a-b--c-"), "abc");
    assert_eq!(remove_hyphens("----"), "");
    assert_eq!(remove_hyphens(""), "");
    assert_eq!(remove_hyphens("no hyphen"), "no hyphen");
    assert_eq!(
        remove_hyphens("123e4567-e89b-42d3-a456-426614174000"),
        "123e4567e89b42d3a456426614174000"
    );
}

#[test]
fn stage_destination_joins_stem_and_extension() {
    assert_eq!(stage_destination("0123abcd", "shp"), "/tmp/0123abcd.shp");
    assert_eq!(stage_destination("0123abcd", "dbf"), "/tmp/0123abcd.dbf");
    assert_eq!(stage_destination("0123abcd", ""), "/tmp/0123abcd.");
}

#[test]
fn staging_paths_of_two_draws_differ() {
    let a = generate_unique_base();
    let b = generate_unique_base();
    assert_ne!(stage_destination(&a, "shp"), stage_destination(&b, "shp"));
}

#[test]
fn replace_extension_swaps_the_last_segment() {
    assert_eq!(replace_extension("/tmp/abc.shp", "dbf"), "/tmp/abc.dbf");
    assert_eq!(replace_extension("/tmp/a.b.shp", "prj"), "/tmp/a.b.prj");
    assert_eq!(replace_extension("/tmp/abc", "shx"), "/tmp/abc.shx");
}

#[test]
fn replace_extension_leaves_the_stem_alone() {
    assert_eq!(replace_extension("/tmp/shpshp.shp", "cpg"), "/tmp/shpshp.cpg");
}

#[test]
fn cleanup_paths_lists_five_siblings_in_order() {
    assert_eq!(
        cleanup_paths("/tmp/abc.shp"),
        vec!["/tmp/abc.shp", "/tmp/abc.dbf", "/tmp/abc.prj", "/tmp/abc.shx", "/tmp/abc.cpg"]
    );
}

#[test]
fn cleanup_paths_are_the_staging_paths() {
    let base = generate_unique_base();
    let listed = cleanup_paths(&stage_destination(&base, "shp"));
    let staged: Vec<String> =
        ["shp", "dbf", "prj", "shx", "cpg"].iter().map(|e| stage_destination(&base, e)).collect();
    assert_eq!(listed, staged);
}

#[test]
fn sibling_path_picks_by_position() {
    assert_eq!(sibling_path("/tmp/abc.shp", 0), "/tmp/abc.shp");
    assert_eq!(sibling_path("/tmp/abc.shp", 1), "/tmp/abc.dbf");
    assert_eq!(sibling_path("/tmp/abc.shp", 4), "/tmp/abc.cpg");
}

fn removal(path: &str, removed: &[bool]) -> String {
    match next_removal(path, &removed.to_vec()) {
        CleanupStep::Remove(p) => format!("remove {}", p),
        CleanupStep::Finished => "finished".to_string(),
        CleanupStep::Failed(e) => format!("failed {}", e.path),
    }
}

#[test]
fn removal_walks_through_all_five_files() {
    let p = "/tmp/abc.shp";
    assert_eq!(removal(p, &[]), "remove /tmp/abc.shp");
    assert_eq!(removal(p, &[true]), "remove /tmp/abc.dbf");
    assert_eq!(removal(p, &[true, true]), "remove /tmp/abc.prj");
    assert_eq!(removal(p, &[true, true, true]), "remove /tmp/abc.shx");
    assert_eq!(removal(p, &[true, true, true, true]), "remove /tmp/abc.cpg");
    assert_eq!(removal(p, &[true, true, true, true, true]), "finished");
}

#[test]
fn removal_stops_at_the_first_failure() {
    let p = "/tmp/abc.shp";
    assert_eq!(removal(p, &[false]), "failed /tmp/abc.shp");
    assert_eq!(removal(p, &[true, false]), "failed /tmp/abc.dbf");
    assert_eq!(removal(p, &[true, true, false]), "failed /tmp/abc.prj");
    assert_eq!(removal(p, &[true, true, true, false]), "failed /tmp/abc.shx");
    assert_eq!(removal(p, &[true, true, true, true, false]), "failed /tmp/abc.cpg");
    assert_eq!(removal(p, &[true, false, true, false]), "failed /tmp/abc.dbf");
}

#[test]
fn removal_ignores_reports_beyond_the_fifth() {
    let p = "/tmp/abc.shp";
    assert_eq!(removal(p, &[true, true, true, true, true, false]), "finished");
}

#[test]
fn driven_removal_deletes_until_a_file_is_missing() {
    let p = "/tmp/abc.shp";
    let missing = "/tmp/abc.prj";
    let mut removed: Vec<bool> = Vec::new();
    let mut deleted: Vec<String> = Vec::new();
    let failed = loop {
        match next_removal(p, &removed) {
            CleanupStep::Remove(path) => {
                let ok = path != missing;
                if ok {
                    deleted.push(path);
                }
                removed.push(ok);
            }
            CleanupStep::Finished => break None,
            CleanupStep::Failed(e) => break Some(e.path),
        }
    };
    assert_eq!(failed, Some(missing.to_string()));
    assert_eq!(deleted, vec!["/tmp/abc.shp", "/tmp/abc.dbf"]);
}
