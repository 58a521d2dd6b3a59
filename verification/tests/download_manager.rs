use hitomi_downloader::download_manager::{
    clean_temp_download_dir, expected_file, img_file_name, DownloadImgTask, DownloadManager,
    DownloadTask, DownloadTaskState, ImgOutcome, Verdict,
};
use hitomi_downloader::errors::HitomiError;
use hitomi_downloader::events::{DownloadSpeedEvent, DownloadTaskEvent};
use hitomi_downloader::hitomi::common::GalleryFiles;
use hitomi_downloader::types::{Comic, DownloadFormat};

const FMT: &str = "{title} - {id}";

fn comic(id: i32, title: &str, files: usize) -> Comic {
    Comic {
        id,
        title: title.to_string(),
        japanese_title: String::new(),
        language: "english".to_string(),
        language_localname: "English".to_string(),
        type_field: "manga".to_string(),
        date: "2024-01-01".to_string(),
        artists: vec!["first".to_string(), "second".to_string()],
        groups: vec![],
        parodys: vec![],
        tags: vec![],
        related: vec![],
        languages: vec![],
        characters: vec![],
        scene_indexes: vec![],
        files: (0..files)
            .map(|i| GalleryFiles {
                width: 1,
                hash: format!("{:064x}", i),
                haswebp: 1,
                hasavif: 1,
                hasjxl: 0,
                name: format!("{}.jpg", i),
                height: 1,
            })
            .collect(),
        cover_url: String::new(),
        is_downloaded: None,
        dir_name: String::new(),
    }
}

fn state_of(manager: &DownloadManager, id: i32) -> DownloadTaskState {
    manager.task_state(id).unwrap()
}

fn task_of(manager: &DownloadManager, id: i32) -> &DownloadTask {
    &manager.tasks[manager.find_task(id).unwrap()]
}

fn downloading_count(manager: &DownloadManager) -> usize {
    manager.tasks.iter().filter(|t| t.state == DownloadTaskState::Downloading).count()
}

fn active_images(manager: &DownloadManager) -> u32 {
    manager.tasks.iter().map(|t| t.active_img_count).sum()
}

fn counts_bounded(manager: &DownloadManager) -> bool {
    manager.tasks.iter().all(|t| t.downloaded_img_count <= t.total_img_count)
}

#[test]
fn new_manager_has_all_permits_free() {
    let manager = DownloadManager::new();
    assert!(manager.tasks.is_empty());
    assert_eq!(manager.comic_permits, 2);
    assert_eq!(manager.img_permits, 4);
    assert_eq!(manager.byte_per_sec, 0);
    assert_eq!(manager.task_state(1), None);
    assert_eq!(manager.find_task(1), None);
}

#[test]
fn download_happy_path() {
    let mut manager = DownloadManager::new();
    assert_eq!(manager.create_download_task(comic(7, "Title", 3), FMT, DownloadFormat::Webp), Ok(true));
    assert_eq!(state_of(&manager, 7), DownloadTaskState::Pending);
    assert_eq!(task_of(&manager, 7).comic.dir_name, "Title - 7");
    assert_eq!(task_of(&manager, 7).comic.get_temp_download_dir().unwrap(), ".downloading-Title - 7");
    assert_eq!(manager.acquire_comic_permit(7), Ok(true));
    assert_eq!(state_of(&manager, 7), DownloadTaskState::Downloading);
    assert_eq!(manager.comic_permits, 1);
    assert_eq!(manager.begin_download(7, 3), Ok(true));
    let names: Vec<String> = (0..3).map(|i| img_file_name(i, DownloadFormat::Webp)).collect();
    assert_eq!(names, vec!["0001.webp", "0002.webp", "0003.webp"]);
    for _ in 0..3 {
        assert_eq!(manager.acquire_img_permit(7), Ok(true));
    }
    assert_eq!(manager.acquire_img_permit(7), Ok(false));
    assert_eq!(manager.img_permits, 1);
    assert_eq!(manager.settle_download(7), Ok(Verdict::NotReady));
    assert_eq!(manager.finish_img(7, ImgOutcome::Saved { bytes: 1000 }), Ok(true));
    assert_eq!(manager.finish_img(7, ImgOutcome::AlreadyPresent), Ok(true));
    assert_eq!(manager.settle_download(7), Ok(Verdict::NotReady));
    assert_eq!(manager.finish_img(7, ImgOutcome::Saved { bytes: 48_576 }), Ok(true));
    assert_eq!(manager.finish_img(7, ImgOutcome::Saved { bytes: 1 }), Ok(false));
    assert_eq!(manager.img_permits, 4);
    assert_eq!(manager.byte_per_sec, 49_576);
    assert_eq!(manager.settle_download(7), Ok(Verdict::Promote));
    assert_eq!(state_of(&manager, 7), DownloadTaskState::Downloading);
    assert_eq!(manager.complete_download(7, true), Ok(true));
    assert_eq!(state_of(&manager, 7), DownloadTaskState::Completed);
    assert_eq!(manager.comic_permits, 2);
    let task = task_of(&manager, 7);
    assert_eq!((task.downloaded_img_count, task.total_img_count), (3, 3));
    match DownloadTaskEvent::update(task) {
        DownloadTaskEvent::Update { comic_id, state, downloaded_img_count, total_img_count } => {
            assert_eq!(comic_id, 7);
            assert_eq!(state, DownloadTaskState::Completed);
            assert_eq!((downloaded_img_count, total_img_count), (3, 3));
        }
        DownloadTaskEvent::Create { .. } => panic!("expected an update"),
    }
    assert_eq!(manager.complete_download(7, true), Ok(false));
}

#[test]
fn download_with_a_missing_image_fails() {
    let mut manager = DownloadManager::new();
    manager.create_download_task(comic(7, "T", 2), FMT, DownloadFormat::Avif).unwrap();
    manager.acquire_comic_permit(7).unwrap();
    manager.begin_download(7, 2).unwrap();
    manager.acquire_img_permit(7).unwrap();
    manager.acquire_img_permit(7).unwrap();
    assert_eq!(manager.finish_img(7, ImgOutcome::Failed), Ok(true));
    assert_eq!(manager.finish_img(7, ImgOutcome::Saved { bytes: 5 }), Ok(true));
    assert_eq!(manager.complete_download(7, true), Ok(false));
    assert_eq!(manager.settle_download(7), Ok(Verdict::Incomplete));
    assert_eq!(state_of(&manager, 7), DownloadTaskState::Failed);
    assert_eq!(manager.comic_permits, 2);
    assert_eq!(manager.img_permits, 4);
    let task = task_of(&manager, 7);
    assert_eq!((task.downloaded_img_count, task.total_img_count), (1, 2));
    assert_eq!(manager.settle_download(7), Ok(Verdict::NotReady));
}

#[test]
fn promotion_that_fails_marks_the_task_failed() {
    let mut manager = DownloadManager::new();
    manager.create_download_task(comic(7, "T", 0), FMT, DownloadFormat::Webp).unwrap();
    manager.acquire_comic_permit(7).unwrap();
    assert_eq!(manager.begin_download(7, 0), Ok(true));
    assert_eq!(manager.settle_download(7), Ok(Verdict::Promote));
    assert_eq!(manager.complete_download(7, false), Ok(true));
    assert_eq!(state_of(&manager, 7), DownloadTaskState::Failed);
    assert_eq!(manager.comic_permits, 2);
}

#[test]
fn at_most_two_comics_download_at_once() {
    let mut manager = DownloadManager::new();
    for id in 1..=4 {
        manager.create_download_task(comic(id, "T", 10), FMT, DownloadFormat::Webp).unwrap();
    }
    assert_eq!(manager.acquire_comic_permit(1), Ok(true));
    assert_eq!(manager.acquire_comic_permit(2), Ok(true));
    assert_eq!(manager.acquire_comic_permit(3), Ok(false));
    assert_eq!(manager.acquire_comic_permit(4), Ok(false));
    assert_eq!(manager.acquire_comic_permit(1), Ok(false));
    assert_eq!(downloading_count(&manager), 2);
    assert_eq!(state_of(&manager, 3), DownloadTaskState::Pending);
    manager.cancel_download_task(1).unwrap();
    assert_eq!(manager.acquire_comic_permit(4), Ok(true));
    assert_eq!(manager.acquire_comic_permit(3), Ok(false));
    assert_eq!(downloading_count(&manager), 2);
    manager.fail_download(2).unwrap();
    assert_eq!(manager.acquire_comic_permit(3), Ok(true));
    assert!(downloading_count(&manager) <= 2);
    assert_eq!(manager.comic_permits, 0);
}

#[test]
fn at_most_four_images_download_at_once() {
    let mut manager = DownloadManager::new();
    manager.create_download_task(comic(1, "A", 10), FMT, DownloadFormat::Webp).unwrap();
    manager.create_download_task(comic(2, "B", 10), FMT, DownloadFormat::Webp).unwrap();
    manager.acquire_comic_permit(1).unwrap();
    manager.acquire_comic_permit(2).unwrap();
    assert_eq!(manager.acquire_img_permit(1), Ok(false));
    manager.begin_download(1, 10).unwrap();
    manager.begin_download(2, 10).unwrap();
    assert_eq!(manager.begin_download(2, 99), Ok(false));
    for _ in 0..3 {
        assert_eq!(manager.acquire_img_permit(1), Ok(true));
    }
    assert_eq!(manager.acquire_img_permit(2), Ok(true));
    assert_eq!(manager.acquire_img_permit(2), Ok(false));
    assert_eq!(manager.acquire_img_permit(1), Ok(false));
    assert_eq!(active_images(&manager), 4);
    assert_eq!(manager.img_permits, 0);
    manager.finish_img(1, ImgOutcome::Saved { bytes: 10 }).unwrap();
    assert_eq!(manager.acquire_img_permit(2), Ok(true));
    assert_eq!(active_images(&manager), 4);
    assert!(counts_bounded(&manager));
}

#[test]
fn pause_mid_flight() {
    let mut manager = DownloadManager::new();
    manager.create_download_task(comic(1, "A", 5), FMT, DownloadFormat::Webp).unwrap();
    manager.acquire_comic_permit(1).unwrap();
    manager.begin_download(1, 5).unwrap();
    manager.acquire_img_permit(1).unwrap();
    manager.acquire_img_permit(1).unwrap();
    manager.finish_img(1, ImgOutcome::Saved { bytes: 10 }).unwrap();
    manager.acquire_img_permit(1).unwrap();
    assert_eq!(manager.pause_download_task(1), Ok(()));
    assert_eq!(state_of(&manager, 1), DownloadTaskState::Paused);
    assert_eq!(manager.comic_permits, 2);
    assert_eq!(manager.img_permits, 4);
    assert_eq!(task_of(&manager, 1).active_img_count, 0);
    assert_eq!(manager.acquire_img_permit(1), Ok(false));
    assert_eq!(manager.finish_img(1, ImgOutcome::Saved { bytes: 10 }), Ok(false));
    assert_eq!(manager.acquire_comic_permit(1), Ok(false));
    assert_eq!(manager.resume_download_task(1, FMT, DownloadFormat::Avif), Ok(()));
    assert_eq!(state_of(&manager, 1), DownloadTaskState::Pending);
    let task = task_of(&manager, 1);
    assert_eq!((task.downloaded_img_count, task.total_img_count), (1, 5));
    assert_eq!(task.download_format, DownloadFormat::Webp);
    assert_eq!(manager.acquire_comic_permit(1), Ok(true));
    for _ in 0..4 {
        assert_eq!(manager.acquire_img_permit(1), Ok(true));
    }
    assert_eq!(manager.acquire_img_permit(1), Ok(false));
    for _ in 0..4 {
        assert_eq!(manager.finish_img(1, ImgOutcome::Saved { bytes: 1 }), Ok(true));
    }
    assert_eq!(manager.settle_download(1), Ok(Verdict::Promote));
}

#[test]
fn resume_while_downloading_keeps_the_permit() {
    let mut manager = DownloadManager::new();
    manager.create_download_task(comic(1, "A", 5), FMT, DownloadFormat::Webp).unwrap();
    manager.create_download_task(comic(2, "B", 5), FMT, DownloadFormat::Webp).unwrap();
    manager.create_download_task(comic(3, "C", 5), FMT, DownloadFormat::Webp).unwrap();
    manager.acquire_comic_permit(1).unwrap();
    manager.acquire_comic_permit(2).unwrap();
    manager.resume_download_task(1, FMT, DownloadFormat::Webp).unwrap();
    assert_eq!(state_of(&manager, 1), DownloadTaskState::Pending);
    assert_eq!(manager.comic_permits, 0);
    assert_eq!(manager.acquire_comic_permit(3), Ok(false));
    assert_eq!(manager.acquire_comic_permit(1), Ok(true));
    assert_eq!(manager.comic_permits, 0);
    assert_eq!(downloading_count(&manager), 2);
}

#[test]
fn resume_after_an_end_issues_a_fresh_task() {
    for end in ["cancel", "fail", "complete"] {
        let mut manager = DownloadManager::new();
        manager.create_download_task(comic(1, "A", 1), FMT, DownloadFormat::Webp).unwrap();
        manager.acquire_comic_permit(1).unwrap();
        manager.begin_download(1, 1).unwrap();
        manager.acquire_img_permit(1).unwrap();
        manager.finish_img(1, ImgOutcome::Saved { bytes: 9 }).unwrap();
        match end {
            "cancel" => manager.cancel_download_task(1).unwrap(),
            "fail" => assert_eq!(manager.fail_download(1), Ok(true)),
            _ => assert_eq!(manager.complete_download(1, true), Ok(true)),
        }
        assert_eq!(manager.resume_download_task(1, "{id}", DownloadFormat::Avif), Ok(()));
        let task = task_of(&manager, 1);
        assert_eq!(task.state, DownloadTaskState::Pending);
        assert_eq!((task.downloaded_img_count, task.total_img_count), (0, 0));
        assert_eq!(task.download_format, DownloadFormat::Avif);
        assert_eq!(task.comic.dir_name, "1");
        assert_eq!(task.comic.title, "A");
        assert_eq!(manager.tasks.len(), 1);
        assert_eq!(manager.comic_permits, 2);
    }
}

#[test]
fn create_is_idempotent_while_a_task_is_live() {
    let mut manager = DownloadManager::new();
    assert_eq!(manager.create_download_task(comic(1, "A", 2), FMT, DownloadFormat::Webp), Ok(true));
    assert_eq!(manager.create_download_task(comic(1, "Other", 9), "{id}", DownloadFormat::Avif), Ok(false));
    assert_eq!(manager.tasks.len(), 1);
    assert_eq!(task_of(&manager, 1).comic.title, "A");
    manager.acquire_comic_permit(1).unwrap();
    manager.begin_download(1, 2).unwrap();
    assert_eq!(manager.create_download_task(comic(1, "Other", 9), "{id}", DownloadFormat::Avif), Ok(false));
    assert_eq!(state_of(&manager, 1), DownloadTaskState::Downloading);
    assert_eq!(task_of(&manager, 1).total_img_count, 2);
    manager.pause_download_task(1).unwrap();
    assert_eq!(manager.create_download_task(comic(1, "Other", 9), "{id}", DownloadFormat::Avif), Ok(false));
    assert_eq!(state_of(&manager, 1), DownloadTaskState::Paused);
    manager.cancel_download_task(1).unwrap();
    assert_eq!(manager.create_download_task(comic(1, "Other", 9), "{id}", DownloadFormat::Avif), Ok(true));
    assert_eq!(manager.tasks.len(), 1);
    assert_eq!(task_of(&manager, 1).comic.title, "Other");
    assert_eq!(task_of(&manager, 1).comic.dir_name, "1");
    assert_eq!(state_of(&manager, 1), DownloadTaskState::Pending);
}

#[test]
fn commands_on_a_missing_task_are_refused() {
    let mut manager = DownloadManager::new();
    manager.create_download_task(comic(1, "A", 2), FMT, DownloadFormat::Webp).unwrap();
    assert_eq!(manager.pause_download_task(2), Err(HitomiError::NotFound));
    assert_eq!(manager.resume_download_task(2, FMT, DownloadFormat::Webp), Err(HitomiError::NotFound));
    assert_eq!(manager.cancel_download_task(2), Err(HitomiError::NotFound));
    assert_eq!(manager.acquire_comic_permit(2), Err(HitomiError::NotFound));
    assert_eq!(manager.begin_download(2, 1), Err(HitomiError::NotFound));
    assert_eq!(manager.acquire_img_permit(2), Err(HitomiError::NotFound));
    assert_eq!(manager.finish_img(2, ImgOutcome::Failed), Err(HitomiError::NotFound));
    assert_eq!(manager.settle_download(2), Err(HitomiError::NotFound));
    assert_eq!(manager.complete_download(2, true), Err(HitomiError::NotFound));
    assert_eq!(manager.fail_download(2), Err(HitomiError::NotFound));
    assert_eq!(state_of(&manager, 1), DownloadTaskState::Pending);
}

#[test]
fn a_template_that_cannot_be_rendered_changes_nothing() {
    let mut manager = DownloadManager::new();
    assert_eq!(
        manager.create_download_task(comic(1, "A", 2), "{unknown}", DownloadFormat::Webp),
        Err(HitomiError::Template)
    );
    assert_eq!(
        manager.create_download_task(comic(1, "A", 2), "{title:x}", DownloadFormat::Webp),
        Err(HitomiError::Template)
    );
    assert!(manager.tasks.is_empty());
    manager.create_download_task(comic(1, "A", 2), FMT, DownloadFormat::Webp).unwrap();
    manager.cancel_download_task(1).unwrap();
    assert_eq!(manager.resume_download_task(1, "{title", DownloadFormat::Webp), Err(HitomiError::Template));
    assert_eq!(state_of(&manager, 1), DownloadTaskState::Cancelled);
    assert_eq!(task_of(&manager, 1).comic.dir_name, "A - 1");
}

#[test]
fn a_template_with_a_colon_names_the_directory() {
    let mut manager = DownloadManager::new();
    assert_eq!(
        manager.create_download_task(comic(1, "A", 2), "{title}: {id}", DownloadFormat::Webp),
        Ok(true)
    );
    assert_eq!(task_of(&manager, 1).comic.dir_name, "A\u{ff1a} 1");
    manager.cancel_download_task(1).unwrap();
    assert_eq!(manager.resume_download_task(1, "[{title:>3}]", DownloadFormat::Webp), Ok(()));
    assert_eq!(task_of(&manager, 1).comic.dir_name, "[  A]");
}

#[test]
fn pause_and_cancel_apply_in_every_state() {
    let mut manager = DownloadManager::new();
    manager.create_download_task(comic(1, "A", 0), FMT, DownloadFormat::Webp).unwrap();
    manager.acquire_comic_permit(1).unwrap();
    manager.begin_download(1, 0).unwrap();
    manager.complete_download(1, true).unwrap();
    assert_eq!(state_of(&manager, 1), DownloadTaskState::Completed);
    manager.pause_download_task(1).unwrap();
    assert_eq!(state_of(&manager, 1), DownloadTaskState::Paused);
    manager.cancel_download_task(1).unwrap();
    assert_eq!(state_of(&manager, 1), DownloadTaskState::Cancelled);
    assert_eq!(manager.fail_download(1), Ok(false));
    assert_eq!(state_of(&manager, 1), DownloadTaskState::Cancelled);
    assert_eq!(manager.comic_permits, 2);
}

#[test]
fn byte_count_is_taken_and_wraps() {
    let mut manager = DownloadManager::new();
    manager.create_download_task(comic(1, "A", 3), FMT, DownloadFormat::Webp).unwrap();
    manager.acquire_comic_permit(1).unwrap();
    manager.begin_download(1, 3).unwrap();
    manager.acquire_img_permit(1).unwrap();
    manager.finish_img(1, ImgOutcome::Saved { bytes: u64::MAX }).unwrap();
    manager.acquire_img_permit(1).unwrap();
    manager.finish_img(1, ImgOutcome::Saved { bytes: 3 }).unwrap();
    assert_eq!(manager.byte_per_sec, 2);
    assert_eq!(manager.take_speed(), 2);
    assert_eq!(manager.byte_per_sec, 0);
    assert_eq!(manager.take_speed(), 0);
}

#[test]
fn well_formedness_can_be_tested() {
    let mut manager = DownloadManager::new();
    assert!(manager.is_well_formed());
    manager.create_download_task(comic(1, "A", 3), FMT, DownloadFormat::Webp).unwrap();
    manager.create_download_task(comic(2, "B", 3), FMT, DownloadFormat::Webp).unwrap();
    manager.acquire_comic_permit(1).unwrap();
    manager.begin_download(1, 3).unwrap();
    manager.acquire_img_permit(1).unwrap();
    assert!(manager.is_well_formed());
    assert!(manager.tasks.iter().all(|task| task.is_well_formed()));
    manager.comic_permits = 2;
    assert!(!manager.is_well_formed());
    manager.comic_permits = 1;
    manager.img_permits = 4;
    assert!(!manager.is_well_formed());
    manager.img_permits = 3;
    assert!(manager.is_well_formed());
    manager.tasks[1].comic.id = 1;
    assert!(!manager.is_well_formed());
    manager.tasks[1].comic.id = 2;
    manager.tasks[0].downloaded_img_count = 1;
    assert!(!manager.tasks[0].is_well_formed());
    assert!(!manager.is_well_formed());
    manager.tasks[0].downloaded_img_count = 0;
    manager.tasks[1].state = DownloadTaskState::Downloading;
    assert!(!manager.is_well_formed());
}

#[test]
fn live_states() {
    assert!(DownloadTaskState::Pending.live());
    assert!(DownloadTaskState::Downloading.live());
    assert!(DownloadTaskState::Paused.live());
    assert!(!DownloadTaskState::Cancelled.live());
    assert!(!DownloadTaskState::Completed.live());
    assert!(!DownloadTaskState::Failed.live());
}

#[test]
fn image_file_names() {
    assert_eq!(img_file_name(0, DownloadFormat::Webp), "0001.webp");
    assert_eq!(img_file_name(8, DownloadFormat::Avif), "0009.avif");
    assert_eq!(img_file_name(9998, DownloadFormat::Webp), "9999.webp");
    assert_eq!(img_file_name(9999, DownloadFormat::Webp), "10000.webp");
    assert_eq!(img_file_name(u32::MAX, DownloadFormat::Webp), "4294967296.webp");
    let task = DownloadImgTask::new("https://x/y.webp".to_string(), ".downloading-a".to_string(), 2);
    assert_eq!(task.file_name(DownloadFormat::Avif), "0003.avif");
    assert_eq!(task.url, "https://x/y.webp");
    assert_eq!(task.temp_download_dir, ".downloading-a");
}

#[test]
fn files_of_another_format_are_stale() {
    assert!(expected_file("0001.webp", 3, DownloadFormat::Webp));
    assert!(expected_file("0003.webp", 3, DownloadFormat::Webp));
    assert!(!expected_file("0004.webp", 3, DownloadFormat::Webp));
    assert!(!expected_file("0001.avif", 3, DownloadFormat::Webp));
    assert!(!expected_file("1.webp", 3, DownloadFormat::Webp));
    assert!(!expected_file("0001.webp", 0, DownloadFormat::Webp));
    let found = vec![
        "0001.webp".to_string(),
        "0002.avif".to_string(),
        "metadata.json".to_string(),
        "0003.webp".to_string(),
        "0004.webp".to_string(),
    ];
    assert_eq!(
        clean_temp_download_dir(&found, 3, DownloadFormat::Webp),
        vec!["0002.avif", "metadata.json", "0004.webp"]
    );
    assert_eq!(
        clean_temp_download_dir(&found, 3, DownloadFormat::Avif),
        vec!["0001.webp", "metadata.json", "0003.webp", "0004.webp"]
    );
    assert!(clean_temp_download_dir(&[], 3, DownloadFormat::Avif).is_empty());
}

#[test]
fn create_event_carries_the_comic() {
    let task = DownloadTask::new(comic(4, "T", 1), DownloadFormat::Webp);
    match DownloadTaskEvent::create(&task, comic(4, "T", 1)) {
        DownloadTaskEvent::Create { state, comic, downloaded_img_count, total_img_count } => {
            assert_eq!(state, DownloadTaskState::Pending);
            assert_eq!(comic.id, 4);
            assert_eq!((downloaded_img_count, total_img_count), (0, 0));
        }
        DownloadTaskEvent::Update { .. } => panic!("expected a create event"),
    }
}

#[test]
fn speed_text_agrees_with_floating_point_formatting() {
    assert_eq!(DownloadSpeedEvent::new(0).speed, "0.00 MB/s");
    assert_eq!(DownloadSpeedEvent::new(1_048_576).speed, "1.00 MB/s");
    assert_eq!(DownloadSpeedEvent::new(1_572_864).speed, "1.50 MB/s");
    assert_eq!(DownloadSpeedEvent::new(10_485).speed, "0.01 MB/s");
    for bytes in [
        0u64, 1, 5_242, 5_243, 10_485, 10_486, 131_072, 393_216, 655_360, 1_048_575, 1_048_576,
        1_179_648, 12_345_678, 104_857_600, 999_999_999_999, 1 << 40, (1 << 53) - 1,
    ] {
        let float = bytes as f64 / 1024.0 / 1024.0;
        assert_eq!(DownloadSpeedEvent::new(bytes).speed, format!("{float:.2} MB/s"), "{}", bytes);
    }
}
