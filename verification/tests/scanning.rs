use dermixen_app::scanning::{
    Change, FolderAt, Report, ScanSummary, collect_reports, folder_to_scan, scan_summary,
    scan_trouble, scanning_note,
};

fn summary(unreadable: usize, stopped: bool) -> ScanSummary {
    ScanSummary {
        added: 3,
        moved: 1,
        unchanged: 20,
        completed: 0,
        duplicates: 2,
        failed: 1,
        unreadable,
        stopped,
    }
}

#[test]
fn a_scan_summary_counts_every_outcome() {
    assert_eq!(
        scan_summary("/music", &summary(0, false)),
        "The scan of /music finished: 3 added, 1 moved, 20 unchanged, 0 completed, 2 \
         duplicates, 1 failed."
    );
    assert_eq!(
        scan_summary("/music", &summary(1, true)),
        "The scan of /music stopped: 3 added, 1 moved, 20 unchanged, 0 completed, 2 \
         duplicates, 1 failed, and 1 folder that could not be read."
    );
    assert_eq!(
        scan_summary("/music", &summary(2, false)),
        "The scan of /music finished: 3 added, 1 moved, 20 unchanged, 0 completed, 2 \
         duplicates, 1 failed, and 2 folders that could not be read."
    );
}

#[test]
fn a_folder_that_cannot_be_scanned_is_named_with_the_reason() {
    assert_eq!(
        folder_to_scan("/music", FolderAt::Nothing),
        Err("There is no folder at /music to scan.".to_owned())
    );
    assert_eq!(
        folder_to_scan("/music", FolderAt::NotAFolder),
        Err("/music is not a folder.".to_owned())
    );
    assert_eq!(
        folder_to_scan("/music", FolderAt::Folder(Err("no permission".to_owned()))),
        Err("The folder /music could not be read: no permission.".to_owned())
    );
    assert_eq!(
        folder_to_scan("/music", FolderAt::Folder(Ok("/Volumes/music".to_owned()))),
        Ok("/Volumes/music".to_owned())
    );
}

#[test]
fn a_new_library_with_no_folder_to_scan_says_it_is_empty() {
    assert_eq!(
        scan_trouble("/lib.sqlite", true, "There is no folder at /music to scan."),
        "The library at /lib.sqlite is empty. There is no folder at /music to scan. Choose a \
         music folder in the settings dialog, then choose Library > Scan music folder."
    );
    assert_eq!(
        scan_trouble("/lib.sqlite", false, "/music is not a folder."),
        "/music is not a folder. Choose a music folder in the settings dialog, then choose \
         Library > Scan music folder."
    );
    assert_eq!(
        scanning_note("/music", "/lib.sqlite"),
        "Scanning /music into /lib.sqlite"
    );
}

#[test]
fn the_reports_of_a_scan_give_the_latest_progress_and_a_refresh() {
    let reports = vec![
        Report::File {
            done: 1,
            total: 3,
            path: "/music/a.mp3".to_owned(),
            change: Change::Unchanged,
        },
        Report::File {
            done: 2,
            total: 3,
            path: "/music/b.mp3".to_owned(),
            change: Change::Added,
        },
    ];
    let taken = collect_reports(reports, "/music", false, false);
    assert_eq!(taken.message.as_deref(), Some("Scanning 2 of 3: b.mp3"));
    assert!(taken.refresh_due);
    assert!(!taken.over);

    let unchanged = vec![Report::File {
        done: 1,
        total: 3,
        path: "/music/a.mp3".to_owned(),
        change: Change::Unchanged,
    }];
    assert!(!collect_reports(unchanged, "/music", false, false).refresh_due);
}

#[test]
fn the_end_of_a_scan_is_summed_up_and_a_silent_end_is_noted() {
    let reports = vec![Report::Finished(Ok(summary(0, false)))];
    let taken = collect_reports(reports, "/music", false, true);
    assert!(taken.over);
    assert!(taken.refresh_due);
    assert_eq!(
        taken.message.as_deref(),
        Some(
            "The scan of /music finished: 3 added, 1 moved, 20 unchanged, 0 completed, 2 \
             duplicates, 1 failed."
        )
    );

    let failed = collect_reports(
        vec![Report::Finished(Err("cannot open the library".to_owned()))],
        "/music",
        false,
        false,
    );
    assert_eq!(failed.message.as_deref(), Some("Cannot open the library"));
    assert!(failed.over);
    assert!(!failed.refresh_due);

    let silent = collect_reports(vec![], "/music", false, true);
    assert_eq!(
        silent.message.as_deref(),
        Some(
            "The scan of /music ended without reporting what it did. The library keeps every \
             file the scan had finished."
        )
    );
    assert!(silent.over);
    assert!(silent.refresh_due);

    let nothing = collect_reports(vec![], "/music", true, false);
    assert_eq!(nothing.message, None);
    assert!(nothing.refresh_due);
    assert!(!nothing.over);
}
