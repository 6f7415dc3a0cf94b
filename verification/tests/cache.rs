use abbs::cache::{
    checksum_hex, first_step, index_dir_name, next_step, staging_dir_name, IndexAction,
    IndexError, IndexEvent, IndexStep,
};

/// The directories of a test: whether each exists, and how full staging is.
struct Disk {
    root: bool,
    finished: bool,
    staging: Option<usize>,
    built: usize,
    trace: Vec<IndexAction>,
}

impl Disk {
    fn perform(&mut self, action: IndexAction, documents: usize) -> IndexEvent {
        self.trace.push(action);
        let found = |b: bool| if b { IndexEvent::Found } else { IndexEvent::Missing };
        match action {
            IndexAction::ProbeRoot => found(self.root),
            IndexAction::CreateRoot => {
                self.root = true;
                IndexEvent::Done
            }
            IndexAction::ProbeFinal => found(self.finished),
            IndexAction::ProbeStaging => found(self.staging.is_some()),
            IndexAction::RemoveStaging => {
                if self.staging == Some(0) {
                    self.staging = None;
                    IndexEvent::Done
                } else {
                    IndexEvent::Failed
                }
            }
            IndexAction::CreateStaging => {
                self.staging = Some(0);
                IndexEvent::Done
            }
            IndexAction::Build => {
                self.staging = Some(documents);
                self.built += 1;
                IndexEvent::Done
            }
            IndexAction::Promote => {
                self.staging = None;
                self.finished = true;
                IndexEvent::Done
            }
            IndexAction::Open => {
                if self.finished {
                    IndexEvent::Done
                } else {
                    IndexEvent::Failed
                }
            }
        }
    }

    fn run(&mut self, documents: usize) -> IndexStep {
        self.trace.clear();
        let mut action = first_step();
        loop {
            let event = self.perform(action, documents);
            match next_step(action, event) {
                IndexStep::Do(next) => action = next,
                end => return end,
            }
        }
    }
}

#[test]
fn names_are_the_checksum_in_upper_case_hex() {
    assert_eq!(index_dir_name(&[0xab, 0xc1, 0x23]), "ABC123.idx");
    assert_eq!(staging_dir_name(&[0xab, 0xc1, 0x23]), "ABC123.idx.tmp");
    assert_eq!(checksum_hex(&[0x00, 0x0f, 0xf0, 0xff, 0x9a]), "000FF0FF9A");
    assert_eq!(checksum_hex(&[]), "");
    assert_eq!(index_dir_name(&[]), ".idx");
}

#[test]
fn hex_agrees_with_the_formatter() {
    let checksum: Vec<u8> = (0u16..256).map(|b| b as u8).collect();
    let expected: String = checksum.iter().map(|b| format!("{:02X}", b)).collect();
    assert_eq!(checksum_hex(&checksum), expected);
}

#[test]
fn md5_checksum_names_a_directory_of_32_digits() {
    let checksum: [u8; 16] = [
        0xd4, 0x1d, 0x8c, 0xd9, 0x8f, 0x00, 0xb2, 0x04, 0xe9, 0x80, 0x09, 0x98, 0xec, 0xf8, 0x42,
        0x7e,
    ];
    assert_eq!(index_dir_name(&checksum), "D41D8CD98F00B204E9800998ECF8427E.idx");
    assert_eq!(staging_dir_name(&checksum), "D41D8CD98F00B204E9800998ECF8427E.idx.tmp");
}

#[test]
fn different_checksums_have_different_directories() {
    assert_ne!(index_dir_name(&[0xab, 0xc1, 0x23]), index_dir_name(&[0xab, 0xc1, 0x24]));
    assert_ne!(index_dir_name(&[0x01, 0x23]), index_dir_name(&[0x12, 0x30]));
    assert_ne!(index_dir_name(&[0x0a]), index_dir_name(&[0xa0]));
    assert_ne!(staging_dir_name(&[0x00]), staging_dir_name(&[0x00, 0x00]));
}

#[test]
fn first_call_builds_in_staging_and_second_call_reuses() {
    let mut disk = Disk { root: true, finished: false, staging: None, built: 0, trace: vec![] };
    assert_eq!(disk.run(3), IndexStep::Finished);
    assert_eq!(
        disk.trace,
        vec![
            IndexAction::ProbeRoot,
            IndexAction::ProbeFinal,
            IndexAction::ProbeStaging,
            IndexAction::CreateStaging,
            IndexAction::Build,
            IndexAction::Promote,
            IndexAction::Open,
        ]
    );
    assert!(disk.finished);
    assert_eq!(disk.staging, None);
    assert_eq!(disk.built, 1);

    assert_eq!(disk.run(3), IndexStep::Finished);
    assert_eq!(
        disk.trace,
        vec![IndexAction::ProbeRoot, IndexAction::ProbeFinal, IndexAction::Open]
    );
    assert_eq!(disk.built, 1);
    assert_eq!(disk.staging, None);
}

#[test]
fn missing_root_is_created_first() {
    let mut disk = Disk { root: false, finished: false, staging: None, built: 0, trace: vec![] };
    assert_eq!(disk.run(1), IndexStep::Finished);
    assert_eq!(disk.trace[0], IndexAction::ProbeRoot);
    assert_eq!(disk.trace[1], IndexAction::CreateRoot);
    assert_eq!(disk.trace[2], IndexAction::ProbeFinal);
    assert!(disk.root && disk.finished);
}

#[test]
fn empty_staging_left_behind_is_removed() {
    let mut disk =
        Disk { root: true, finished: false, staging: Some(0), built: 0, trace: vec![] };
    assert_eq!(disk.run(2), IndexStep::Finished);
    assert_eq!(
        disk.trace,
        vec![
            IndexAction::ProbeRoot,
            IndexAction::ProbeFinal,
            IndexAction::ProbeStaging,
            IndexAction::RemoveStaging,
            IndexAction::CreateStaging,
            IndexAction::Build,
            IndexAction::Promote,
            IndexAction::Open,
        ]
    );
}

#[test]
fn filled_staging_left_behind_stops_the_build() {
    let mut disk =
        Disk { root: true, finished: false, staging: Some(5), built: 0, trace: vec![] };
    assert_eq!(disk.run(2), IndexStep::Abort(IndexError::Io));
    assert_eq!(disk.staging, Some(5));
    assert!(!disk.finished);
    assert_eq!(disk.built, 0);
}

#[test]
fn failures_end_the_run_with_their_error() {
    assert_eq!(
        next_step(IndexAction::Build, IndexEvent::Failed),
        IndexStep::Abort(IndexError::Build)
    );
    for action in [
        IndexAction::ProbeRoot,
        IndexAction::CreateRoot,
        IndexAction::ProbeFinal,
        IndexAction::ProbeStaging,
        IndexAction::RemoveStaging,
        IndexAction::CreateStaging,
        IndexAction::Promote,
        IndexAction::Open,
    ] {
        assert_eq!(next_step(action, IndexEvent::Failed), IndexStep::Abort(IndexError::Io));
    }
}

#[test]
fn a_report_that_does_not_answer_the_action_is_refused() {
    assert_eq!(
        next_step(IndexAction::Build, IndexEvent::Found),
        IndexStep::Abort(IndexError::Unexpected)
    );
    assert_eq!(
        next_step(IndexAction::ProbeFinal, IndexEvent::Done),
        IndexStep::Abort(IndexError::Unexpected)
    );
    assert_eq!(
        next_step(IndexAction::Open, IndexEvent::Missing),
        IndexStep::Abort(IndexError::Unexpected)
    );
}

#[test]
fn every_step_of_the_table() {
    let go = |action: IndexAction| IndexStep::Do(action);
    assert_eq!(first_step(), IndexAction::ProbeRoot);
    assert_eq!(next_step(IndexAction::ProbeRoot, IndexEvent::Found), go(IndexAction::ProbeFinal));
    assert_eq!(next_step(IndexAction::ProbeRoot, IndexEvent::Missing), go(IndexAction::CreateRoot));
    assert_eq!(next_step(IndexAction::CreateRoot, IndexEvent::Done), go(IndexAction::ProbeFinal));
    assert_eq!(next_step(IndexAction::ProbeFinal, IndexEvent::Found), go(IndexAction::Open));
    assert_eq!(
        next_step(IndexAction::ProbeFinal, IndexEvent::Missing),
        go(IndexAction::ProbeStaging)
    );
    assert_eq!(
        next_step(IndexAction::ProbeStaging, IndexEvent::Found),
        go(IndexAction::RemoveStaging)
    );
    assert_eq!(
        next_step(IndexAction::ProbeStaging, IndexEvent::Missing),
        go(IndexAction::CreateStaging)
    );
    assert_eq!(
        next_step(IndexAction::RemoveStaging, IndexEvent::Done),
        go(IndexAction::CreateStaging)
    );
    assert_eq!(next_step(IndexAction::CreateStaging, IndexEvent::Done), go(IndexAction::Build));
    assert_eq!(next_step(IndexAction::Build, IndexEvent::Done), go(IndexAction::Promote));
    assert_eq!(next_step(IndexAction::Promote, IndexEvent::Done), go(IndexAction::Open));
    assert_eq!(next_step(IndexAction::Open, IndexEvent::Done), IndexStep::Finished);
}
