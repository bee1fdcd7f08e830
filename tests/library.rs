use seiri::{
    cleanup_directories, format_date, get_auto_add_folder, get_iterative_filename, get_source,
    get_track_directory, get_track_extension, get_track_filename, ingest_action,
    is_in_hidden_path, is_invalid_for_path, move_new_track, move_non_track, move_track,
    parse_command, reconsider_track, sanitize_file_name, supervisor_step, today, todays_not_added_directory, require_tags, get_parent, get_file_name,
    track_warrants_move, CalendarDate, Command, ConsoleCommand, Error, IngestAction, Item, Notice,
    Reconsideration, SupervisorEvent, SupervisorState, WatchStatus,
};

fn item(title: &str, path: &str) -> Item {
    Item {
        title: title.to_string(),
        album: "Album: One".to_string(),
        artist: "Artist".to_string(),
        album_artists: vec!["Artist".to_string(), "Guest/Two".to_string()],
        disc_number: 1,
        track_number: 3,
        file_path: path.to_string(),
        source: "Bandcamp".to_string(),
    }
}

fn strings(v: &[&str]) -> Vec<String> {
    v.iter().map(|s| s.to_string()).collect()
}

#[test]
fn invalid_characters() {
    for c in ['"', '<', '>', '|', '\0', ':', '*', '?', '\\', '/'] {
        assert!(is_invalid_for_path(c));
    }
    assert!(!is_invalid_for_path('a'));
    assert!(!is_invalid_for_path('_'));
}

#[test]
fn sanitize_replaces_invalid_characters() {
    assert_eq!(sanitize_file_name("a:b/c*d?\"e<f>g|h\\i"), "a_b_c_d__e_f_g_h_i");
    assert_eq!(sanitize_file_name(""), "");
    assert_eq!(sanitize_file_name("plain"), "plain");
}

#[test]
fn sanitize_is_idempotent() {
    for s in ["a:b", "__::", "x/y\\z", "", "ok"] {
        let once = sanitize_file_name(s);
        assert_eq!(sanitize_file_name(&once), once);
    }
}

#[test]
fn iterative_name_skips_existing() {
    let existing = strings(&["/lib/A/B/song.flac", "/lib/A/B/song (1).flac"]);
    assert_eq!(get_iterative_filename("song", "flac", "/lib/A/B", &existing), "/lib/A/B/song (2).flac");
}

#[test]
fn iterative_name_free_at_first() {
    assert_eq!(get_iterative_filename("song", "flac", "/lib/A/B", &vec![]), "/lib/A/B/song.flac");
    let other = strings(&["/lib/A/B/other.flac"]);
    assert_eq!(get_iterative_filename("song", "flac", "/lib/A/B/", &other), "/lib/A/B/song.flac");
}

#[test]
fn iterative_name_past_ten() {
    let mut existing = strings(&["/d/x.mp3"]);
    for k in 1..=10 {
        existing.push(format!("/d/x ({}).mp3", k));
    }
    assert_eq!(get_iterative_filename("x", "mp3", "/d", &existing), "/d/x (11).mp3");
}

#[test]
fn track_filename_format() {
    assert_eq!(get_track_filename(&item("Intro: Part?", "/x.flac")), "1-03 Intro_ Part_");
    let mut t = item("Song", "/x.flac");
    t.disc_number = 2;
    t.track_number = 12;
    assert_eq!(get_track_filename(&t), "2-12 Song");
    t.disc_number = -1;
    t.track_number = -5;
    assert_eq!(get_track_filename(&t), "-1--5 Song");
    t.disc_number = 0;
    t.track_number = 0;
    assert_eq!(get_track_filename(&t), "0-00 Song");
}

#[test]
fn track_directory_layout() {
    let t = item("Song", "/x.flac");
    assert_eq!(get_track_directory(&t, "/music").unwrap(), "/music/Artist, Guest_Two/Album_ One");
    assert_eq!(get_track_directory(&t, "/music/").unwrap(), "/music/Artist, Guest_Two/Album_ One");
    let mut lone = t.clone();
    lone.album_artists = vec!["Solo".to_string()];
    assert_eq!(get_track_directory(&lone, "/music").unwrap(), "/music/Solo/Album_ One");
    lone.album_artists = vec![];
    assert_eq!(get_track_directory(&lone, "/music"), None);
}

#[test]
fn source_from_drop_folder() {
    assert_eq!(get_source("/inbox/Bandcamp/x.flac", "/inbox"), "Bandcamp");
    assert_eq!(get_source("/inbox/Bandcamp/x.flac", "/inbox/"), "Bandcamp");
}

#[test]
fn source_none_directly_in_inbox() {
    assert_eq!(get_source("/inbox/x.flac", "/inbox"), "None");
}

#[test]
fn source_cases() {
    assert_eq!(get_source("/elsewhere/Store/x.flac", "/inbox"), "None");
    assert_eq!(get_source("/inboxes/Store/x.flac", "/inbox"), "None");
    assert_eq!(get_source("/inbox/My_Store/x.flac", "/inbox"), "My_Store");
    assert_eq!(get_source("/inbox/My_Store:Extra/x.flac", "/inbox"), "My_Store");
    assert_eq!(get_source("/inbox/Store/x.flac/", "/inbox"), "Store");
    assert_eq!(get_source("/inbox/Store/Deep/x.flac", "/inbox"), "Store");
    assert_eq!(get_source("/inbox/A:B/x.flac", "/inbox"), "A");
    assert_eq!(get_source("/inbox/  /x.flac", "/inbox"), "None");
}

#[test]
fn hidden_drop_folder() {
    assert!(is_in_hidden_path("/inbox/.notadded/x.flac", "/inbox"));
    assert!(!is_in_hidden_path("/inbox/Store/x.flac", "/inbox"));
    assert!(!is_in_hidden_path("/inbox/x.flac", "/inbox"));
}

#[test]
fn extension_rules() {
    assert_eq!(get_track_extension("/a/b.flac"), "flac");
    assert_eq!(get_track_extension("/a/x.tar.gz"), "gz");
    assert_eq!(get_track_extension("/a/noext"), "");
    assert_eq!(get_track_extension("/a/.hidden"), "hidden");
    assert_eq!(get_track_extension("/a/.x.flac"), "x");
    assert_eq!(get_track_extension("/a/..flac"), "");
}

#[test]
fn auto_add_is_sibling() {
    assert_eq!(get_auto_add_folder("/home/u/Music"), "/home/u/Automatically Add to Library");
    assert_eq!(get_auto_add_folder("/Music"), "/Automatically Add to Library");
    assert_eq!(get_auto_add_folder("/home/u/Music/"), "/home/u/Automatically Add to Library");
    assert_eq!(get_auto_add_folder("/home/u/Music//"), "/home/u/Automatically Add to Library");
}

#[test]
fn quarantine_placement() {
    let date = CalendarDate { year: 2024, month: 1, day: 1 };
    let target = move_non_track("/inbox/junk/readme.txt", "/inbox", date, &vec![]);
    assert_eq!(target, "/inbox/.notadded/2024-01-01/readme.txt");
}

#[test]
fn quarantine_collision_and_unnamed() {
    let date = CalendarDate { year: 2024, month: 11, day: 30 };
    let existing = strings(&["/inbox/.notadded/2024-11-30/readme.txt"]);
    assert_eq!(
        move_non_track("/inbox/readme.txt", "/inbox", date, &existing),
        "/inbox/.notadded/2024-11-30/readme (1).txt"
    );
    assert_eq!(move_non_track("/inbox/dir/", "/inbox", date, &vec![]), "/inbox/.notadded/2024-11-30/dir.");
}

#[test]
fn date_format() {
    assert_eq!(format_date(CalendarDate { year: 2024, month: 1, day: 1 }), "2024-01-01");
    assert_eq!(format_date(CalendarDate { year: 5, month: 12, day: 31 }), "0005-12-31");
    assert_eq!(format_date(CalendarDate { year: 12345, month: 3, day: 9 }), "+12345-03-09");
    assert_eq!(format_date(CalendarDate { year: -1, month: 3, day: 9 }), "-0001-03-09");
}

#[test]
fn today_is_a_date() {
    let (d, dir) = todays_not_added_directory("/inbox").unwrap();
    assert_eq!(today(), Some(d));
    assert!((1..=12).contains(&d.month));
    assert!((1..=31).contains(&d.day));
    assert_eq!(dir, format!("/inbox/.notadded/{}", format_date(d)));
    assert!(d.year >= 2000);
}

#[test]
fn move_plan_fields() {
    let t = item("Song", "/inbox/Bandcamp/a.flac");
    let p = move_track(&t, "/music", "Store").unwrap();
    assert_eq!(p.from, "/inbox/Bandcamp/a.flac");
    assert_eq!(p.directory, "/music/Artist, Guest_Two/Album_ One");
    assert_eq!(p.file_name, "1-03 Song");
    assert_eq!(p.extension, "flac");
    assert_eq!(p.source, "Store");
    assert_eq!(p.target(&vec![]), "/music/Artist, Guest_Two/Album_ One/1-03 Song.flac");
    assert_eq!(p.directory_error(), Error::UnableToCreateDirectory(p.directory.clone()));
}

#[test]
fn move_new_track_takes_source_from_inbox() {
    let t = item("Song", "/inbox/Bandcamp/a.flac");
    let p = move_new_track(&t, "/music", "/inbox").unwrap();
    assert_eq!(p.source, "Bandcamp");
}

#[test]
fn move_without_album_artists_fails() {
    let mut t = item("Song", "/inbox/a.flac");
    t.album_artists = vec![];
    assert_eq!(
        move_track(&t, "/music", "None"),
        Err(Error::MissingRequiredTag("/inbox/a.flac".to_string(), "album artists".to_string()))
    );
}

#[test]
fn warrants_move_on_five_fields() {
    let a = item("Song", "/x.flac");
    let mut b = a.clone();
    b.file_path = "/y.flac".to_string();
    b.disc_number = 9;
    b.source = "Other".to_string();
    assert!(!track_warrants_move(&a, &b));
    let mut c = a.clone();
    c.album_artists.push("Third".to_string());
    assert!(track_warrants_move(&a, &c));
    let mut d = a.clone();
    d.track_number = 4;
    assert!(track_warrants_move(&a, &d));
    let mut e = a.clone();
    e.artist = "Else".to_string();
    assert!(track_warrants_move(&a, &e));
}

#[test]
fn reconcile_missing_file() {
    let t = item("A", "/music/x.flac");
    assert_eq!(reconsider_track(&t, "/music", false, None), Ok(Reconsideration::Gone));
    assert_eq!(reconsider_track(&t, "/music", false, Some(t.clone())), Ok(Reconsideration::Gone));
    assert_eq!(reconsider_track(&t, "/music", true, None), Ok(Reconsideration::Gone));
}

#[test]
fn reconcile_round_trip() {
    let t = item("A", "/inbox/Store/a.flac");
    let plan = move_new_track(&t, "/music", "/inbox").unwrap();
    let target = plan.target(&vec![]);
    let mut moved = t.clone();
    moved.file_path = target.clone();
    moved.source = plan.source.clone();
    let again = moved.clone();
    assert_eq!(
        reconsider_track(&moved, "/music", true, Some(again.clone())),
        Ok(Reconsideration::Unchanged(again))
    );
    assert_eq!(target, "/music/Artist, Guest_Two/Album_ One/1-03 A.flac");
}

#[test]
fn reconcile_edited_title() {
    let saved = item("A", "/music/Artist, Guest_Two/Album_ One/1-03 A.flac");
    let mut fresh = saved.clone();
    fresh.title = "B".to_string();
    fresh.source = "ReadBack".to_string();
    match reconsider_track(&saved, "/music", true, Some(fresh)).unwrap() {
        Reconsideration::Relocate(p) => {
            assert_eq!(p.source, "Bandcamp");
            assert_eq!(p.file_name, "1-03 B");
            assert_eq!(p.target(&vec![]), "/music/Artist, Guest_Two/Album_ One/1-03 B.flac");
        }
        other => panic!("unexpected {:?}", other),
    }
}

#[test]
fn reconcile_edit_without_artists_fails() {
    let saved = item("A", "/music/x.flac");
    let mut fresh = saved.clone();
    fresh.album_artists = vec![];
    assert_eq!(
        reconsider_track(&saved, "/music", true, Some(fresh)),
        Err(Error::MissingRequiredTag("/music/x.flac".to_string(), "album artists".to_string()))
    );
}

#[test]
fn cleanup_two_levels() {
    assert_eq!(cleanup_directories("/lib/Artist/Album/x.flac"), strings(&["/lib/Artist/Album", "/lib/Artist"]));
}

#[test]
fn supervisor_restarts_once_on_lost_heartbeat() {
    let (state, cmds) = supervisor_step(
        SupervisorState::Watching,
        SupervisorEvent::Heartbeat { delivered: false, root_available: true },
    );
    assert_eq!(state, SupervisorState::Watching);
    assert_eq!(
        cmds,
        vec![Command::Report(Notice::KeepAliveFailed), Command::SpawnWatcher, Command::AwaitHeartbeat]
    );
    assert_eq!(cmds.iter().filter(|c| **c == Command::SpawnWatcher).count(), 1);
}

#[test]
fn supervisor_other_steps() {
    assert_eq!(
        supervisor_step(SupervisorState::WaitingForRoot, SupervisorEvent::RootChecked(false)),
        (SupervisorState::WaitingForRoot, vec![Command::AwaitRoot])
    );
    assert_eq!(
        supervisor_step(SupervisorState::WaitingForRoot, SupervisorEvent::RootChecked(true)),
        (SupervisorState::Watching, vec![Command::SpawnWatcher, Command::AwaitHeartbeat])
    );
    assert_eq!(
        supervisor_step(
            SupervisorState::Watching,
            SupervisorEvent::Heartbeat { delivered: true, root_available: true }
        ),
        (SupervisorState::Watching, vec![Command::AwaitHeartbeat])
    );
    assert_eq!(
        supervisor_step(
            SupervisorState::Watching,
            SupervisorEvent::Heartbeat { delivered: false, root_available: false }
        ),
        (
            SupervisorState::WaitingForRoot,
            vec![
                Command::Report(Notice::FolderAccessLost),
                Command::Send(WatchStatus::Exit),
                Command::Report(Notice::WatcherRestart),
                Command::AwaitRoot
            ]
        )
    );
}

#[test]
fn console_commands() {
    assert_eq!(parse_command("  ExIt \n"), ConsoleCommand::Exit);
    assert_eq!(parse_command("refresh /music/a b.flac\n"), ConsoleCommand::Refresh("/music/a b.flac".to_string()));
    assert_eq!(parse_command("refresh"), ConsoleCommand::Refresh(String::new()));
    assert_eq!(parse_command("query artist:x"), ConsoleCommand::Query("artist:x".to_string()));
    assert_eq!(parse_command("hello"), ConsoleCommand::Other);
    assert_eq!(parse_command("exits"), ConsoleCommand::Other);
}

#[test]
fn ingest_decisions() {
    let t = item("A", "/inbox/a.flac");
    assert_eq!(ingest_action(Ok(t.clone())), IngestAction::File(t));
    assert_eq!(
        ingest_action(Err(Error::UnsupportedFile("/inbox/a.txt".to_string()))),
        IngestAction::SetAside("/inbox/a.txt".to_string())
    );
    assert_eq!(
        ingest_action(Err(Error::MissingRequiredTag("/p".to_string(), "Title".to_string()))),
        IngestAction::ReportMissingTag("/p".to_string(), "Title".to_string())
    );
    assert_eq!(ingest_action(Err(Error::HelperNotFound)), IngestAction::ReportHelperMissing);
    assert_eq!(ingest_action(Err(Error::UnableToMove("/p".to_string()))), IngestAction::Ignore);
}

#[test]
fn paths_ignore_trailing_slashes() {
    assert_eq!(get_parent("/a/b/"), "/a");
    assert_eq!(get_parent("/a//b"), "/a");
    assert_eq!(get_parent("/a"), "/");
    assert_eq!(get_parent("a"), "");
    assert_eq!(get_file_name("/a/b//"), "b");
    assert_eq!(get_file_name("/a/b.flac"), "b.flac");
}

#[test]
fn required_tags() {
    let t = item("A", "/inbox/a.flac");
    assert_eq!(require_tags(t.clone()), Ok(t.clone()));
    let mut bare = t;
    bare.album_artists = vec![];
    assert_eq!(
        require_tags(bare),
        Err(Error::MissingRequiredTag("/inbox/a.flac".to_string(), "album artists".to_string()))
    );
}

#[test]
fn console_trims_unicode_space() {
    assert_eq!(parse_command("\u{3000}exit\u{a0}"), ConsoleCommand::Exit);
    assert_eq!(parse_command("\t query  x \r\n"), ConsoleCommand::Query(" x".to_string()));
}
