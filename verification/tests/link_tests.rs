use symlonk::link::{
    create_link, prompt_existing_destination, CreateLinkOptions, CreateLinkPromptAction, LinkError,
    LinkReply, LinkRequest, Occupant, ParentKind, ParseInputError,
};

fn fresh() -> CreateLinkOptions {
    CreateLinkOptions::new(false, false, false)
}

fn link(target: &str) -> LinkReply {
    LinkReply::Occupant(Occupant::Link(target.to_string()))
}

fn symlink(name: &str, target: &str) -> LinkRequest {
    LinkRequest::Symlink { name: name.to_string(), target: target.to_string() }
}

#[test]
fn options_keep_what_they_are_given() {
    let options = CreateLinkOptions::new(true, false, true);
    assert!(options.overwrite_all);
    assert!(!options.backup_all);
    assert!(options.skip_all);
    assert!(options.is_decided());
    assert!(!fresh().is_decided());
}

#[test]
fn keys_stand_for_answers() {
    assert_eq!(CreateLinkPromptAction::try_from('o'), Ok(CreateLinkPromptAction::Overwrite));
    assert_eq!(CreateLinkPromptAction::try_from('O'), Ok(CreateLinkPromptAction::OverwriteAll));
    assert_eq!(CreateLinkPromptAction::try_from('b'), Ok(CreateLinkPromptAction::Backup));
    assert_eq!(CreateLinkPromptAction::try_from('B'), Ok(CreateLinkPromptAction::BackupAll));
    assert_eq!(CreateLinkPromptAction::try_from('s'), Ok(CreateLinkPromptAction::Skip));
    assert_eq!(CreateLinkPromptAction::try_from('S'), Ok(CreateLinkPromptAction::SkipAll));
    assert_eq!(CreateLinkPromptAction::try_from('x'), Err(ParseInputError));
    assert_eq!(CreateLinkPromptAction::try_from('\n'), Err(ParseInputError));
}

#[test]
fn the_task_begins_by_probing_the_name() {
    let (task, request) = create_link("/d/n", "/s/t");
    assert_eq!(request, LinkRequest::Probe("/d/n".to_string()));
    assert_eq!(task.name(), "/d/n");
    assert_eq!(task.target(), "/s/t");
}

#[test]
fn a_free_name_goes_straight_to_the_directory_and_the_link() {
    let mut options = fresh();
    let (mut task, _) = create_link("/d/sub/n", "/s/t");
    assert_eq!(
        task.step(&mut options, LinkReply::Occupant(Occupant::Nothing)),
        LinkRequest::ProbeParent("/d/sub".to_string())
    );
    assert_eq!(
        task.step(&mut options, LinkReply::Parent(ParentKind::Missing)),
        LinkRequest::CreateDirs("/d/sub".to_string())
    );
    assert_eq!(task.step(&mut options, LinkReply::Done), symlink("/d/sub/n", "/s/t"));
    assert_eq!(task.step(&mut options, LinkReply::Done), LinkRequest::Finish(Ok(true)));
    assert_eq!(options, fresh());
}

#[test]
fn a_free_name_is_not_deleted_even_with_overwrite_all() {
    let mut options = CreateLinkOptions::new(true, true, false);
    let (mut task, _) = create_link("/d/n", "/s/t");
    assert_eq!(
        task.step(&mut options, LinkReply::Occupant(Occupant::Nothing)),
        LinkRequest::ProbeParent("/d".to_string())
    );
}

#[test]
fn a_parent_that_is_no_directory_ends_the_task_without_a_link() {
    let mut options = fresh();
    let (mut task, _) = create_link("/d/n", "/s/t");
    task.step(&mut options, LinkReply::Occupant(Occupant::Nothing));
    assert_eq!(
        task.step(&mut options, LinkReply::Parent(ParentKind::NotDirectory)),
        LinkRequest::Finish(Ok(false))
    );
}

#[test]
fn a_name_without_a_parent_goes_straight_to_the_link() {
    let mut options = fresh();
    let (mut task, _) = create_link("/", "/s/t");
    assert_eq!(task.step(&mut options, LinkReply::Occupant(Occupant::Nothing)), symlink("/", "/s/t"));
}

#[test]
fn already_linked_is_skipped_without_a_prompt() {
    let mut options = fresh();
    let (mut task, _) = create_link("/d/n", "/s/t");
    assert_eq!(task.step(&mut options, link("/s/t")), LinkRequest::Finish(Ok(false)));
    assert_eq!(options, fresh());
}

#[test]
fn a_file_at_the_name_is_a_conflict() {
    let mut options = fresh();
    let (mut task, _) = create_link("/d/n", "/s/t");
    assert_eq!(
        task.step(&mut options, LinkReply::Occupant(Occupant::Other)),
        LinkRequest::Ask { name: "/d/n".to_string(), target: "/s/t".to_string() }
    );
}

#[test]
fn a_file_whose_own_path_is_the_target_counts_as_linked() {
    let mut options = fresh();
    let (mut task, _) = create_link("/d/n", "/d/n");
    assert_eq!(
        task.step(&mut options, LinkReply::Occupant(Occupant::Other)),
        LinkRequest::Finish(Ok(false))
    );
}

#[test]
fn overwrite_all_creates_the_link_and_sticks() {
    let mut options = fresh();
    let (mut task, _) = create_link("/d/N", "/s/T2");
    assert_eq!(
        task.step(&mut options, link("/s/T1")),
        LinkRequest::Ask { name: "/d/N".to_string(), target: "/s/T2".to_string() }
    );
    assert_eq!(
        task.step(&mut options, LinkReply::Key(Some('O'))),
        LinkRequest::Remove("/d/N".to_string())
    );
    assert!(options.overwrite_all);
    assert_eq!(task.step(&mut options, LinkReply::Done), LinkRequest::ProbeParent("/d".to_string()));
    assert_eq!(
        task.step(&mut options, LinkReply::Parent(ParentKind::Directory)),
        symlink("/d/N", "/s/T2")
    );
    assert_eq!(task.step(&mut options, LinkReply::Done), LinkRequest::Finish(Ok(true)));
    assert_eq!(options, CreateLinkOptions::new(true, false, false));

    let (mut second, _) = create_link("/d/M", "/s/U2");
    assert_eq!(second.step(&mut options, link("/s/U1")), LinkRequest::Remove("/d/M".to_string()));
}

#[test]
fn overwrite_once_does_not_stick() {
    let mut options = fresh();
    let (mut task, _) = create_link("/d/n", "/s/t");
    task.step(&mut options, link("/other"));
    assert_eq!(
        task.step(&mut options, LinkReply::Key(Some('o'))),
        LinkRequest::Remove("/d/n".to_string())
    );
    assert_eq!(options, fresh());
}

#[test]
fn skip_leaves_the_name_alone() {
    let mut options = fresh();
    let (mut task, _) = create_link("/d/n", "/s/t");
    task.step(&mut options, link("/other"));
    assert_eq!(task.step(&mut options, LinkReply::Key(Some('s'))), LinkRequest::Finish(Ok(false)));
    assert_eq!(options, fresh());
}

#[test]
fn skip_all_sticks_and_skips_without_a_prompt() {
    let mut options = fresh();
    let (mut task, _) = create_link("/d/n", "/s/t");
    task.step(&mut options, link("/other"));
    assert_eq!(task.step(&mut options, LinkReply::Key(Some('S'))), LinkRequest::Finish(Ok(false)));
    assert_eq!(options, CreateLinkOptions::new(false, false, true));
    let (mut second, _) = create_link("/d/m", "/s/u");
    assert_eq!(
        second.step(&mut options, LinkReply::Occupant(Occupant::Other)),
        LinkRequest::Finish(Ok(false))
    );
}

#[test]
fn backup_moves_the_occupant_to_the_plain_backup_name() {
    let mut options = fresh();
    let (mut task, _) = create_link("/d/n", "/s/t");
    task.step(&mut options, link("/other"));
    assert_eq!(
        task.step(&mut options, LinkReply::Key(Some('b'))),
        LinkRequest::ProbeBackup("/d/n.backup".to_string())
    );
    assert_eq!(
        task.step(&mut options, LinkReply::Exists(false)),
        LinkRequest::Rename { from: "/d/n".to_string(), to: "/d/n.backup".to_string() }
    );
    assert_eq!(task.step(&mut options, LinkReply::Done), LinkRequest::ProbeParent("/d".to_string()));
    assert_eq!(options, fresh());
}

#[test]
fn backup_collision_uses_a_dated_name() {
    let mut options = fresh();
    let (mut task, _) = create_link("/d/N", "/s/t");
    task.step(&mut options, LinkReply::Occupant(Occupant::Other));
    assert_eq!(
        task.step(&mut options, LinkReply::Key(Some('B'))),
        LinkRequest::ProbeBackup("/d/N.backup".to_string())
    );
    assert!(options.backup_all);
    assert_eq!(task.step(&mut options, LinkReply::Exists(true)), LinkRequest::ReadClock);
    assert_eq!(
        task.step(&mut options, LinkReply::Millis(1_700_000_000_123)),
        LinkRequest::Rename {
            from: "/d/N".to_string(),
            to: "/d/N.1700000000123.backup".to_string()
        }
    );
}

#[test]
fn the_time_is_written_in_decimal() {
    for (now, text) in [
        (0u128, "/n.0.backup"),
        (7, "/n.7.backup"),
        (10, "/n.10.backup"),
        (1090, "/n.1090.backup"),
        (u128::MAX, "/n.340282366920938463463374607431768211455.backup"),
    ] {
        let mut options = CreateLinkOptions::new(false, true, false);
        let (mut task, _) = create_link("/n", "/t");
        task.step(&mut options, LinkReply::Occupant(Occupant::Other));
        task.step(&mut options, LinkReply::Exists(true));
        assert_eq!(
            task.step(&mut options, LinkReply::Millis(now)),
            LinkRequest::Rename { from: "/n".to_string(), to: text.to_string() }
        );
    }
}

#[test]
fn an_invalid_key_chooses_nothing_and_the_task_goes_on() {
    let mut options = fresh();
    let (mut task, _) = create_link("/d/n", "/s/t");
    task.step(&mut options, link("/other"));
    assert_eq!(
        task.step(&mut options, LinkReply::Key(Some('?'))),
        LinkRequest::ProbeParent("/d".to_string())
    );
    assert_eq!(options, fresh());
    let (mut task, _) = create_link("/d/n", "/s/t");
    task.step(&mut options, link("/other"));
    assert_eq!(
        task.step(&mut options, LinkReply::Key(None)),
        LinkRequest::ProbeParent("/d".to_string())
    );
}

#[test]
fn skip_comes_before_backup_and_backup_before_overwrite() {
    let mut options = CreateLinkOptions::new(true, true, true);
    let (mut task, _) = create_link("/d/n", "/s/t");
    assert_eq!(task.step(&mut options, link("/other")), LinkRequest::Finish(Ok(false)));
    let mut options = CreateLinkOptions::new(true, true, false);
    let (mut task, _) = create_link("/d/n", "/s/t");
    assert_eq!(
        task.step(&mut options, link("/other")),
        LinkRequest::ProbeBackup("/d/n.backup".to_string())
    );
}

#[test]
fn a_sticky_choice_applies_even_when_already_linked() {
    let mut options = CreateLinkOptions::new(true, false, false);
    let (mut task, _) = create_link("/d/n", "/s/t");
    assert_eq!(task.step(&mut options, link("/s/t")), LinkRequest::Remove("/d/n".to_string()));
}

#[test]
fn a_failure_ends_the_task_with_that_failure() {
    let mut options = fresh();
    let (mut task, _) = create_link("/d/n", "/s/t");
    task.step(&mut options, LinkReply::Occupant(Occupant::Nothing));
    task.step(&mut options, LinkReply::Parent(ParentKind::Directory));
    assert_eq!(
        task.step(&mut options, LinkReply::Failed("permission denied".to_string())),
        LinkRequest::Finish(Err(LinkError::Io("permission denied".to_string())))
    );
    assert_eq!(
        task.step(&mut options, LinkReply::Done),
        LinkRequest::Finish(Err(LinkError::OutOfTurn))
    );
}

#[test]
fn a_reply_that_was_not_asked_for_is_out_of_turn() {
    let mut options = fresh();
    let (mut task, _) = create_link("/d/n", "/s/t");
    assert_eq!(
        task.step(&mut options, LinkReply::Millis(5)),
        LinkRequest::Finish(Err(LinkError::OutOfTurn))
    );
    let (mut task, _) = create_link("/d/n", "/s/t");
    task.step(&mut options, link("/other"));
    assert_eq!(
        task.step(&mut options, LinkReply::Done),
        LinkRequest::Finish(Err(LinkError::OutOfTurn))
    );
}

#[test]
fn the_question_names_the_link_and_the_answers() {
    assert_eq!(
        prompt_existing_destination("/d/n", "/s/t"),
        "File already exists: /d/n (trying to link to /s/t), what do you want to do?\n[s]kip, [S]kip all, [o]verwrite, [O]verwrite all, [b]ackup, [B]ackup all?"
    );
}
