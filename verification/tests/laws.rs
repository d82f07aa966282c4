use theseus_core::archive::{ensure_extracted_action, is_excluded_from_archive, kept_when_pruning, ARCHIVE_FILE_NAME, plan_archive_blocks, recompress_action, FolderAction, MAX_BLOCK_SIZE};
use theseus_core::control::{next_stop_step, StopStep};
use theseus_core::numbers::{decimal_string, parse_u32_chars};
use theseus_core::versions::{
    forge_offered, forge_version_choice, neoforge_offered, neoforge_version_choice, paper_build_choice,
    paper_offered,
};

#[test]
fn reading_a_written_number_gives_it_back() {
    for n in [0u32, 7, 10, 99, 100, 65535, 1 << 31, u32::MAX] {
        let text: Vec<char> = decimal_string(n as u64).chars().collect();
        assert_eq!(parse_u32_chars(&text, 0, text.len()), Some(n));
    }
}

#[test]
fn every_file_lands_in_exactly_one_block() {
    let sizes = vec![MAX_BLOCK_SIZE - 1, 1, 2, MAX_BLOCK_SIZE, 3, MAX_BLOCK_SIZE - 4, 4, 0];
    let blocks = plan_archive_blocks(&sizes);
    let mut seen: Vec<usize> = blocks.iter().flat_map(|b| b.files.clone()).collect();
    seen.sort();
    assert_eq!(seen, (0..sizes.len()).collect::<Vec<_>>());
    for b in &blocks {
        let total: u64 = b.files.iter().map(|&i| sizes[i]).sum();
        if b.solid {
            assert!(!b.files.is_empty() && total < MAX_BLOCK_SIZE);
        } else {
            assert!(b.files.len() == 1 && total >= MAX_BLOCK_SIZE);
        }
    }
}

#[test]
fn a_play_session_extracts_then_packs_again() {
    assert_eq!(ensure_extracted_action("p", Some(true), true), Ok(FolderAction::Extract));
    assert_eq!(recompress_action("p", Some(true), false, true), Ok(FolderAction::Compress));
    assert_eq!(recompress_action("p", Some(true), true, true), Ok(FolderAction::Nothing));
}

#[test]
fn default_versions_are_the_first_offered() {
    let promos = vec![("1.20.1-latest".to_string(), "47.3.0".to_string())];
    let offered = forge_offered(&promos, "1.20.1");
    assert_eq!(forge_version_choice(None, &promos, "1.20.1").unwrap(), offered[0].id);
    let list: Vec<String> = ["21.1.1", "21.1.5", "20.4.2"].iter().map(|s| s.to_string()).collect();
    let offered = neoforge_offered(&list, "1.21.1");
    assert_eq!(neoforge_version_choice(None, &list, "1.21.1").unwrap(), offered[0].id);
    let builds = vec![7u32, 9, 8];
    let offered = paper_offered(&builds);
    let chosen = paper_build_choice(&builds, None, "1.21").unwrap();
    assert_eq!(builds[chosen].to_string(), offered[0].id);
    let chosen = paper_build_choice(&builds, Some(&offered[1].id), "1.21").unwrap();
    assert_eq!(builds[chosen].to_string(), offered[1].id);
}

#[test]
fn a_stop_request_ends_in_at_most_thirty_checks() {
    let mut steps = Vec::new();
    for polls in 1..=30 {
        steps.push(next_stop_step(polls, false));
    }
    assert!(steps[..29].iter().all(|s| *s == StopStep::Wait));
    assert_eq!(steps[29], StopStep::Kill);
}

#[test]
fn compression_loses_no_file() {
    let paths: [&[&str]; 7] = [
        &["screenshots", "a.png"],
        &["config", "screenshots", "x.png"],
        &[ARCHIVE_FILE_NAME],
        &["saves", "w", ARCHIVE_FILE_NAME],
        &["mods", "a.jar"],
        &["screenshots"],
        &["options.txt"],
    ];
    for p in paths {
        let rel: Vec<String> = p.iter().map(|c| c.to_string()).collect();
        if is_excluded_from_archive(&rel) {
            assert!(kept_when_pruning(p[0] == ARCHIVE_FILE_NAME, p[0]));
        }
    }
    assert!(!is_excluded_from_archive(&vec!["config".to_string(), "screenshots".to_string(), "x.png".to_string()]));
}
