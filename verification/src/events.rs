use crate::download_manager::{DownloadTask, DownloadTaskState};
use crate::text::{digits, push_chars, push_str, spec_digits, string_of};
use crate::types::Comic;
use vstd::prelude::*;

verus! {

/// What the user interface is told about a download task.
#[derive(Debug)]
pub enum DownloadTaskEvent {
    /// A task was submitted.
    Create {
        state: DownloadTaskState,
        comic: Box<Comic>,
        downloaded_img_count: u32,
        total_img_count: u32,
    },
    /// The state or the progress of a task has changed.
    Update {
        comic_id: i32,
        state: DownloadTaskState,
        downloaded_img_count: u32,
        total_img_count: u32,
    },
}

/// The download speed of the last second, as text.
#[derive(Debug)]
pub struct DownloadSpeedEvent {
    pub speed: String,
}

impl DownloadTaskEvent {
    /// The event that reports the state and the progress of a task.
    pub fn update(task: &DownloadTask) -> (event: DownloadTaskEvent)
        ensures
            event == (DownloadTaskEvent::Update {
                comic_id: task.comic.id,
                state: task.state,
                downloaded_img_count: task.downloaded_img_count,
                total_img_count: task.total_img_count,
            }),
    {
        DownloadTaskEvent::Update {
            comic_id: task.comic.id,
            state: task.state,
            downloaded_img_count: task.downloaded_img_count,
            total_img_count: task.total_img_count,
        }
    }

    /// The event that reports a submitted task; `comic` is the copy of the
    /// task's comic that the event carries.
    pub fn create(task: &DownloadTask, comic: Comic) -> (event: DownloadTaskEvent)
        ensures
            event == (DownloadTaskEvent::Create {
                state: task.state,
                comic: Box::new(comic),
                downloaded_img_count: task.downloaded_img_count,
                total_img_count: task.total_img_count,
            }),
    {
        DownloadTaskEvent::Create {
            state: task.state,
            comic: Box::new(comic),
            downloaded_img_count: task.downloaded_img_count,
            total_img_count: task.total_img_count,
        }
    }
}

/// Number of bytes in a megabyte.
pub const MEGA_BYTE: u64 = 1_048_576;

/// The speed in hundredths of a megabyte per second: the nearest to the
/// exact quotient, the even one of two that are equally near.
pub open spec fn spec_hundredths(bytes: u64) -> int {
    let scaled = bytes * 100;
    let whole = scaled / (MEGA_BYTE as int);
    let rest = scaled % (MEGA_BYTE as int);
    if rest * 2 > MEGA_BYTE || (rest * 2 == MEGA_BYTE && whole % 2 == 1) {
        whole + 1
    } else {
        whole
    }
}

/// The text of a speed: megabytes per second with two decimals.
pub open spec fn spec_speed_text(bytes: u64) -> Seq<char> {
    let h = spec_hundredths(bytes);
    spec_digits((h / 100) as nat) + seq!['.'] + spec_digits((h % 100 / 10) as nat) + spec_digits(
        (h % 10) as nat,
    ) + " MB/s"@
}

impl DownloadSpeedEvent {
    /// The event that reports the number of bytes fetched in one second.
    pub fn new(byte_per_sec: u64) -> (event: DownloadSpeedEvent)
        ensures
            event.speed@ == spec_speed_text(byte_per_sec),
    {
        let scaled: u128 = (byte_per_sec as u128) * 100;
        let whole: u128 = scaled / (MEGA_BYTE as u128);
        let rest: u128 = scaled % (MEGA_BYTE as u128);
        let up = rest * 2 > (MEGA_BYTE as u128) || (rest * 2 == (MEGA_BYTE as u128) && whole % 2
            == 1);
        let h: u128 = if up {
            whole + 1
        } else {
            whole
        };
        let mut text: Vec<char> = Vec::new();
        let units = digits((h / 100) as u64);
        push_chars(&mut text, units.as_slice());
        text.push('.');
        let tenths = digits((h % 100 / 10) as u64);
        push_chars(&mut text, tenths.as_slice());
        let hundredths = digits((h % 10) as u64);
        push_chars(&mut text, hundredths.as_slice());
        push_str(&mut text, " MB/s");
        assert(text@ =~= spec_speed_text(byte_per_sec));
        DownloadSpeedEvent { speed: string_of(text.as_slice()) }
    }
}

} // verus!
