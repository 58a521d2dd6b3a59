use crate::errors::HitomiError;
use crate::text::{padded4, push_chars, push_str, same_text, spec_padded4, string_of, string_views};
use crate::types::comic::spec_comic_dir_name;
use crate::types::{Comic, DownloadFormat};
use vstd::prelude::*;

verus! {

/// Number of comics that may be downloaded at the same time.
pub const COMIC_PERMITS: u32 = 2;

/// Number of images, of all comics together, that may be downloaded at the
/// same time.
pub const IMG_PERMITS: u32 = 4;

/// State of a download task.
#[derive(Debug, Clone, Copy, PartialEq, Eq, Structural)]
pub enum DownloadTaskState {
    Pending,
    Downloading,
    Paused,
    Cancelled,
    Completed,
    Failed,
}

impl DownloadTaskState {
    /// A task in one of these states is still under way.
    pub open spec fn is_live(self) -> bool {
        self == DownloadTaskState::Pending || self == DownloadTaskState::Downloading || self
            == DownloadTaskState::Paused
    }

    /// Whether a task in this state is still under way.
    pub fn live(&self) -> (live: bool)
        ensures
            live == self.is_live(),
    {
        match self {
            DownloadTaskState::Pending | DownloadTaskState::Downloading | DownloadTaskState::Paused => true,
            _ => false,
        }
    }
}

/// How the download of one image ended.
#[derive(Debug, Clone, Copy, PartialEq, Eq, Structural)]
pub enum ImgOutcome {
    /// The file was on disk already; nothing was fetched.
    AlreadyPresent,
    /// The image was fetched and written; it has this many bytes.
    Saved { bytes: u64 },
    /// The image could not be fetched or written.
    Failed,
}

impl ImgOutcome {
    /// Whether the image is on disk now.
    pub open spec fn is_downloaded(self) -> bool {
        self != ImgOutcome::Failed
    }

    /// Number of bytes that were fetched.
    pub open spec fn fetched(self) -> u64 {
        match self {
            ImgOutcome::Saved { bytes } => bytes,
            _ => 0,
        }
    }
}

/// What is to be done when all images of a comic have been tried.
#[derive(Debug, Clone, Copy, PartialEq, Eq, Structural)]
pub enum Verdict {
    /// The task is not downloading, or images are still to be tried.
    NotReady,
    /// Images are missing; the task has failed.
    Incomplete,
    /// Every image is on disk: the temporary directory may take the place
    /// of the final one and the metadata may be written.
    Promote,
}

/// One download task: a comic, its state and its progress.
#[derive(Debug)]
pub struct DownloadTask {
    pub comic: Comic,
    pub state: DownloadTaskState,
    pub downloaded_img_count: u32,
    pub total_img_count: u32,
    pub download_format: DownloadFormat,
    /// Whether the task holds one of the comic permits.
    pub holds_permit: bool,
    /// Number of images of the task that hold an image permit.
    pub active_img_count: u32,
    /// Number of images of the task that have been tried to the end.
    pub finished_img_count: u32,
}

impl DownloadTask {
    /// What holds of every task under the manager.
    pub open spec fn well_formed(&self) -> bool {
        &&& self.downloaded_img_count <= self.finished_img_count
        &&& self.finished_img_count + self.active_img_count <= self.total_img_count
        &&& self.state == DownloadTaskState::Downloading ==> self.holds_permit
        &&& self.holds_permit ==> self.state == DownloadTaskState::Downloading || self.state
            == DownloadTaskState::Pending
        &&& self.active_img_count > 0 ==> self.holds_permit
        &&& self.state == DownloadTaskState::Completed ==> self.downloaded_img_count
            == self.total_img_count
    }

    /// A task as it is submitted.
    pub open spec fn is_fresh(&self) -> bool {
        &&& self.state == DownloadTaskState::Pending
        &&& self.downloaded_img_count == 0
        &&& self.total_img_count == 0
        &&& !self.holds_permit
        &&& self.active_img_count == 0
        &&& self.finished_img_count == 0
    }

    /// The task without its permits, in the given state.
    pub open spec fn released(self, state: DownloadTaskState) -> DownloadTask {
        DownloadTask { state, holds_permit: false, active_img_count: 0, ..self }
    }

    /// Whether the task is well formed.
    pub fn is_well_formed(&self) -> (ok: bool)
        ensures
            ok == self.well_formed(),
    {
        let downloading = match self.state {
            DownloadTaskState::Downloading => true,
            _ => false,
        };
        let pending = match self.state {
            DownloadTaskState::Pending => true,
            _ => false,
        };
        let completed = match self.state {
            DownloadTaskState::Completed => true,
            _ => false,
        };
        self.downloaded_img_count <= self.finished_img_count && (self.finished_img_count as u64)
            + (self.active_img_count as u64) <= (self.total_img_count as u64) && (!downloading
            || self.holds_permit) && (!self.holds_permit || downloading || pending) && (
        self.active_img_count == 0 || self.holds_permit) && (!completed
            || self.downloaded_img_count == self.total_img_count)
    }

    /// A new task for a comic, to be stored in the given format.
    pub fn new(comic: Comic, download_format: DownloadFormat) -> (task: DownloadTask)
        ensures
            task.is_fresh(),
            task.well_formed(),
            task.comic == comic,
            task.download_format == download_format,
    {
        DownloadTask {
            comic,
            state: DownloadTaskState::Pending,
            downloaded_img_count: 0,
            total_img_count: 0,
            download_format,
            holds_permit: false,
            active_img_count: 0,
            finished_img_count: 0,
        }
    }
}

/// Number of comic permits that the tasks hold.
pub open spec fn permits_held(tasks: Seq<DownloadTask>) -> int
    decreases tasks.len(),
{
    if tasks.len() == 0 {
        0
    } else {
        permits_held(tasks.drop_last()) + if tasks.last().holds_permit {
            1int
        } else {
            0int
        }
    }
}

/// Number of image permits that the tasks hold.
pub open spec fn images_active(tasks: Seq<DownloadTask>) -> int
    decreases tasks.len(),
{
    if tasks.len() == 0 {
        0
    } else {
        images_active(tasks.drop_last()) + tasks.last().active_img_count
    }
}

/// Number of tasks that are downloading.
pub open spec fn downloading(tasks: Seq<DownloadTask>) -> int
    decreases tasks.len(),
{
    if tasks.len() == 0 {
        0
    } else {
        downloading(tasks.drop_last()) + if tasks.last().state == DownloadTaskState::Downloading {
            1int
        } else {
            0int
        }
    }
}

proof fn lemma_counts_insert(tasks: Seq<DownloadTask>, i: int, task: DownloadTask)
    requires
        0 <= i <= tasks.len(),
    ensures
        permits_held(tasks.insert(i, task)) == permits_held(tasks) + if task.holds_permit {
            1int
        } else {
            0int
        },
        images_active(tasks.insert(i, task)) == images_active(tasks) + task.active_img_count,
    decreases tasks.len(),
{
    if i == tasks.len() {
        assert(tasks.insert(i, task).drop_last() =~= tasks);
    } else {
        assert(tasks.insert(i, task).drop_last() =~= tasks.drop_last().insert(i, task));
        assert(tasks.insert(i, task).last() == tasks.last());
        lemma_counts_insert(tasks.drop_last(), i, task);
    }
}

proof fn lemma_counts_remove(tasks: Seq<DownloadTask>, i: int)
    requires
        0 <= i < tasks.len(),
    ensures
        permits_held(tasks.remove(i)) == permits_held(tasks) - if tasks[i].holds_permit {
            1int
        } else {
            0int
        },
        images_active(tasks.remove(i)) == images_active(tasks) - tasks[i].active_img_count,
    decreases tasks.len(),
{
    if i == tasks.len() - 1 {
        assert(tasks.remove(i) =~= tasks.drop_last());
    } else {
        assert(tasks.remove(i).drop_last() =~= tasks.drop_last().remove(i));
        assert(tasks.remove(i).last() == tasks.last());
        lemma_counts_remove(tasks.drop_last(), i);
    }
}

proof fn lemma_counts_nonnegative(tasks: Seq<DownloadTask>)
    ensures
        0 <= downloading(tasks),
        0 <= permits_held(tasks),
        0 <= images_active(tasks),
    decreases tasks.len(),
{
    if tasks.len() > 0 {
        lemma_counts_nonnegative(tasks.drop_last());
    }
}

proof fn lemma_downloading_hold_permits(tasks: Seq<DownloadTask>)
    requires
        forall|i: int| 0 <= i < tasks.len() ==> (#[trigger] tasks[i]).well_formed(),
    ensures
        downloading(tasks) <= permits_held(tasks),
    decreases tasks.len(),
{
    if tasks.len() > 0 {
        let head = tasks.drop_last();
        assert forall|i: int| 0 <= i < head.len() implies (#[trigger] head[i]).well_formed() by {
            assert(head[i] == tasks[i]);
        }
        lemma_downloading_hold_permits(head);
        assert(tasks.last() == tasks[tasks.len() - 1]);
    }
}

/// The download manager: the tasks, and the permits that are free.
#[derive(Debug)]
pub struct DownloadManager {
    pub tasks: Vec<DownloadTask>,
    /// Comic permits that no task holds.
    pub comic_permits: u32,
    /// Image permits that no image holds.
    pub img_permits: u32,
    /// Bytes fetched since the speed was last taken.
    pub byte_per_sec: u64,
}

impl DownloadManager {
    /// What holds of the manager between any two of its operations: every
    /// task is well formed, no two tasks have the same comic id, and the
    /// permits that are free and those that are held make 2 for the comics
    /// and 4 for the images.
    pub open spec fn well_formed(&self) -> bool {
        &&& forall|i: int| 0 <= i < self.tasks@.len() ==> (#[trigger] self.tasks@[i]).well_formed()
        &&& forall|i: int, j: int|
            0 <= i < self.tasks@.len() && 0 <= j < self.tasks@.len() && i != j ==> (
            #[trigger] self.tasks@[i]).comic.id != (#[trigger] self.tasks@[j]).comic.id
        &&& self.comic_permits + permits_held(self.tasks@) == COMIC_PERMITS
        &&& self.img_permits + images_active(self.tasks@) == IMG_PERMITS
    }

    /// Where the task of a comic stands among the tasks, if there is one.
    pub open spec fn position(&self, id: i32) -> Option<int> {
        if exists|i: int| 0 <= i < self.tasks@.len() && self.tasks@[i].comic.id == id {
            Some(choose|i: int| 0 <= i < self.tasks@.len() && self.tasks@[i].comic.id == id)
        } else {
            None
        }
    }

    /// The comic has a task that is pending, downloading or paused.
    pub open spec fn has_live_task(&self, id: i32) -> bool {
        match self.position(id) {
            Some(i) => self.tasks@[i].state.is_live(),
            None => false,
        }
    }

    /// The manager holds what `before` held.
    pub open spec fn unchanged(&self, before: &DownloadManager) -> bool {
        &&& self.tasks@ == before.tasks@
        &&& self.comic_permits == before.comic_permits
        &&& self.img_permits == before.img_permits
        &&& self.byte_per_sec == before.byte_per_sec
    }

    /// The manager holds what `before` held, but for the task at `at`,
    /// which is now `task`, and for the free permits, of which `comics`
    /// comic permits and `images` image permits were given back.
    pub open spec fn stepped(
        &self,
        before: &DownloadManager,
        at: int,
        task: DownloadTask,
        comics: int,
        images: int,
    ) -> bool {
        &&& self.tasks@ == before.tasks@.update(at, task)
        &&& self.comic_permits == before.comic_permits + comics
        &&& self.img_permits == before.img_permits + images
    }

    /// A manager without tasks; all permits are free.
    pub fn new() -> (manager: DownloadManager)
        ensures
            manager.well_formed(),
            manager.tasks@.len() == 0,
            manager.comic_permits == COMIC_PERMITS,
            manager.img_permits == IMG_PERMITS,
            manager.byte_per_sec == 0,
    {
        DownloadManager {
            tasks: Vec::new(),
            comic_permits: COMIC_PERMITS,
            img_permits: IMG_PERMITS,
            byte_per_sec: 0,
        }
    }

    /// Whether the manager is well formed. The operations keep a manager
    /// well formed; this is for a caller that wants to make sure of a manager
    /// whose fields it may have touched.
    pub fn is_well_formed(&self) -> (ok: bool)
        ensures
            ok == self.well_formed(),
    {
        let mut held: u128 = 0;
        let mut active: u128 = 0;
        let mut i: usize = 0;
        assert(self.tasks@.take(0) =~= Seq::<DownloadTask>::empty());
        while i < self.tasks.len()
            invariant
                i <= self.tasks@.len(),
                held == permits_held(self.tasks@.take(i as int)),
                active == images_active(self.tasks@.take(i as int)),
                held <= i,
                active <= i * 0xffff_ffff,
                forall|k: int| 0 <= k < i ==> (#[trigger] self.tasks@[k]).well_formed(),
                forall|k: int, j: int|
                    0 <= k < i && 0 <= j < i && k != j ==> (#[trigger] self.tasks@[k]).comic.id != (
                    #[trigger] self.tasks@[j]).comic.id,
            decreases self.tasks.len() - i,
        {
            if !self.tasks[i].is_well_formed() {
                return false;
            }
            let mut j: usize = 0;
            while j < i
                invariant
                    j <= i < self.tasks@.len(),
                    forall|k: int|
                        0 <= k < j ==> (#[trigger] self.tasks@[k]).comic.id
                            != self.tasks@[i as int].comic.id,
                decreases i - j,
            {
                if self.tasks[j].comic.id == self.tasks[i].comic.id {
                    return false;
                }
                j += 1;
            }
            proof {
                assert(self.tasks@.take(i + 1).drop_last() =~= self.tasks@.take(i as int));
                assert(self.tasks@.take(i + 1).last() == self.tasks@[i as int]);
                assert((i + 1) * 0xffff_ffff == i * 0xffff_ffff + 0xffff_ffff) by (nonlinear_arith);
            }
            if self.tasks[i].holds_permit {
                held = held + 1;
            }
            active = active + (self.tasks[i].active_img_count as u128);
            i += 1;
        }
        assert(self.tasks@.take(i as int) =~= self.tasks@);
        (self.comic_permits as u128) + held == (COMIC_PERMITS as u128) && (self.img_permits as u128)
            + active == (IMG_PERMITS as u128)
    }

    /// Finds the task of a comic.
    pub fn find_task(&self, id: i32) -> (at: Option<usize>)
        requires
            self.well_formed(),
        ensures
            match at {
                Some(i) => self.position(id) == Some(i as int) && i < self.tasks@.len()
                    && self.tasks@[i as int].comic.id == id,
                None => self.position(id) is None,
            },
    {
        let mut i: usize = 0;
        while i < self.tasks.len()
            invariant
                i <= self.tasks@.len(),
                self.well_formed(),
                forall|j: int| 0 <= j < i ==> (#[trigger] self.tasks@[j]).comic.id != id,
            decreases self.tasks.len() - i,
        {
            if self.tasks[i].comic.id == id {
                proof {
                    let c = choose|c: int| 0 <= c < self.tasks@.len() && self.tasks@[c].comic.id == id;
                    if c != i {
                        assert(self.tasks@[c].comic.id != self.tasks@[i as int].comic.id);
                    }
                }
                return Some(i);
            }
            i += 1;
        }
        None
    }

    /// The state of the task of a comic.
    pub fn task_state(&self, id: i32) -> (state: Option<DownloadTaskState>)
        requires
            self.well_formed(),
        ensures
            state == match self.position(id) {
                Some(i) => Some(self.tasks@[i].state),
                None => None,
            },
    {
        match self.find_task(id) {
            Some(i) => Some(self.tasks[i].state),
            None => None,
        }
    }

    /// Puts `task` in the place of the task at `at` and sets the free
    /// permits.
    fn put_task(&mut self, at: usize, task: DownloadTask, comic_permits: u32, img_permits: u32)
        requires
            old(self).well_formed(),
            at < old(self).tasks@.len(),
            task.well_formed(),
            task.comic.id == old(self).tasks@[at as int].comic.id,
            comic_permits + (if task.holds_permit {
                1int
            } else {
                0int
            }) == old(self).comic_permits + (if old(self).tasks@[at as int].holds_permit {
                1int
            } else {
                0int
            }),
            img_permits + task.active_img_count == old(self).img_permits + old(self).tasks@[at as int].active_img_count,
        ensures
            final(self).well_formed(),
            final(self).tasks@ == old(self).tasks@.update(at as int, task),
            final(self).comic_permits == comic_permits,
            final(self).img_permits == img_permits,
            final(self).byte_per_sec == old(self).byte_per_sec,
    {
        proof {
            lemma_counts_remove(self.tasks@, at as int);
            lemma_counts_insert(self.tasks@.remove(at as int), at as int, task);
            assert(self.tasks@.remove(at as int).insert(at as int, task) =~= self.tasks@.update(
                at as int,
                task,
            ));
        }
        self.tasks.remove(at);
        self.tasks.insert(at, task);
        self.comic_permits = comic_permits;
        self.img_permits = img_permits;
    }

    /// Takes the task at `at` out of the list for a change; the caller puts
    /// it back with `put_back`.
    fn take_task(&mut self, at: usize) -> (task: DownloadTask)
        requires
            at < old(self).tasks@.len(),
        ensures
            task == old(self).tasks@[at as int],
            final(self).tasks@ == old(self).tasks@.remove(at as int),
            final(self).comic_permits == old(self).comic_permits,
            final(self).img_permits == old(self).img_permits,
            final(self).byte_per_sec == old(self).byte_per_sec,
    {
        self.tasks.remove(at)
    }

    /// Puts a changed task back into the place from which it was taken.
    fn put_back(
        &mut self,
        Ghost(before): Ghost<DownloadManager>,
        at: usize,
        task: DownloadTask,
        comic_permits: u32,
        img_permits: u32,
    )
        requires
            before.well_formed(),
            at < before.tasks@.len(),
            old(self).tasks@ == before.tasks@.remove(at as int),
            task.well_formed(),
            task.comic.id == before.tasks@[at as int].comic.id,
            comic_permits + (if task.holds_permit {
                1int
            } else {
                0int
            }) == before.comic_permits + (if before.tasks@[at as int].holds_permit {
                1int
            } else {
                0int
            }),
            img_permits + task.active_img_count == before.img_permits
                + before.tasks@[at as int].active_img_count,
        ensures
            final(self).well_formed(),
            final(self).tasks@ == before.tasks@.update(at as int, task),
            final(self).comic_permits == comic_permits,
            final(self).img_permits == img_permits,
            final(self).byte_per_sec == old(self).byte_per_sec,
    {
        proof {
            lemma_counts_remove(before.tasks@, at as int);
            lemma_counts_insert(before.tasks@.remove(at as int), at as int, task);
            assert(before.tasks@.remove(at as int).insert(at as int, task) =~= before.tasks@.update(
                at as int,
                task,
            ));
        }
        self.tasks.insert(at, task);
        self.comic_permits = comic_permits;
        self.img_permits = img_permits;
    }

    /// Gives the permits of the task at `at` back and sets its state.
    fn release(&mut self, at: usize, state: DownloadTaskState)
        requires
            old(self).well_formed(),
            at < old(self).tasks@.len(),
            state != DownloadTaskState::Downloading,
            state == DownloadTaskState::Completed ==> old(self).tasks@[at as int].downloaded_img_count == old(self).tasks@[at as int].total_img_count,
        ensures
            final(self).well_formed(),
            final(self).stepped(
                old(self),
                at as int,
                old(self).tasks@[at as int].released(state),
                if old(self).tasks@[at as int].holds_permit {
                    1int
                } else {
                    0int
                },
                old(self).tasks@[at as int].active_img_count as int,
            ),
            final(self).byte_per_sec == old(self).byte_per_sec,
    {
        let ghost before = *self;
        proof {
            lemma_counts_remove(self.tasks@, at as int);
            lemma_counts_nonnegative(self.tasks@.remove(at as int));
        }
        let mut task = self.take_task(at);
        let comics: u32 = if task.holds_permit {
            1
        } else {
            0
        };
        let comic_permits = self.comic_permits + comics;
        let img_permits = self.img_permits + task.active_img_count;
        task.state = state;
        task.holds_permit = false;
        task.active_img_count = 0;
        self.put_back(Ghost(before), at, task, comic_permits, img_permits);
    }

    /// The comic with the directory name that the template gives it.
    pub open spec fn renamed(comic: Comic, named: Comic, template: Seq<char>) -> bool {
        &&& named == (Comic { dir_name: named.dir_name, ..comic })
        &&& spec_comic_dir_name(comic, template) == Ok::<Seq<char>, HitomiError>(named.dir_name@)
    }

    /// Submits a comic for download.
    ///
    /// While the comic has a task that is pending, downloading or paused,
    /// nothing changes and `false` is returned. Otherwise the comic gets
    /// its directory name from the template and a fresh task, which takes
    /// the place of an ended task of the comic, and `true` is returned.
    /// Where the template cannot be rendered nothing changes.
    pub fn create_download_task(
        &mut self,
        comic: Comic,
        dir_fmt: &str,
        download_format: DownloadFormat,
    ) -> (r: Result<bool, HitomiError>)
        requires
            old(self).well_formed(),
        ensures
            final(self).well_formed(),
            final(self).byte_per_sec == old(self).byte_per_sec,
            match r {
                Ok(false) => final(self).unchanged(old(self)) && old(self).has_live_task(
                    comic.id,
                ),
                Ok(true) => {
                    let at = match old(self).position(comic.id) {
                        Some(i) => i,
                        None => old(self).tasks@.len() as int,
                    };
                    &&& !old(self).has_live_task(comic.id)
                    &&& final(self).tasks@.len() == if old(self).position(comic.id) is Some {
                        old(self).tasks@.len()
                    } else {
                        old(self).tasks@.len() + 1
                    }
                    &&& forall|j: int|
                        0 <= j < old(self).tasks@.len() && j != at ==> final(self).tasks@[j] == old(self).tasks@[j]
                    &&& final(self).tasks@[at].is_fresh()
                    &&& final(self).tasks@[at].download_format == download_format
                    &&& Self::renamed(comic, final(self).tasks@[at].comic, dir_fmt@)
                    &&& final(self).comic_permits == old(self).comic_permits
                    &&& final(self).img_permits == old(self).img_permits
                },
                Err(e) => final(self).unchanged(old(self)) && !old(self).has_live_task(comic.id)
                    && spec_comic_dir_name(comic, dir_fmt@) == Err::<Seq<char>, HitomiError>(e),
            },
    {
        let found = self.find_task(comic.id);
        if let Some(at) = found {
            if self.tasks[at].state.live() {
                return Ok(false);
            }
        }
        let mut named = comic;
        match named.update_dir_name_fields_by_fmt(dir_fmt) {
            Ok(()) => {},
            Err(e) => {
                return Err(e);
            },
        }
        let task = DownloadTask::new(named, download_format);
        match found {
            Some(at) => {
                let comic_permits = self.comic_permits;
                let img_permits = self.img_permits;
                self.put_task(at, task, comic_permits, img_permits);
            },
            None => {
                proof {
                    lemma_counts_insert(self.tasks@, self.tasks@.len() as int, task);
                    assert(self.tasks@.insert(self.tasks@.len() as int, task) =~= self.tasks@.push(
                        task,
                    ));
                }
                self.tasks.push(task);
            },
        }
        Ok(true)
    }

    /// Pauses the task of a comic: the task gives its permits back and is
    /// paused, whatever its state was.
    pub fn pause_download_task(&mut self, id: i32) -> (r: Result<(), HitomiError>)
        requires
            old(self).well_formed(),
        ensures
            final(self).well_formed(),
            final(self).byte_per_sec == old(self).byte_per_sec,
            match old(self).position(id) {
                Some(i) => r is Ok && final(self).stepped(
                    old(self),
                    i,
                    old(self).tasks@[i].released(DownloadTaskState::Paused),
                    if old(self).tasks@[i].holds_permit {
                        1int
                    } else {
                        0int
                    },
                    old(self).tasks@[i].active_img_count as int,
                ),
                None => r == Err::<(), HitomiError>(HitomiError::NotFound) && final(self).unchanged(old(self)),
            },
    {
        match self.find_task(id) {
            Some(at) => {
                self.release(at, DownloadTaskState::Paused);
                Ok(())
            },
            None => Err(HitomiError::NotFound),
        }
    }

    /// Cancels the task of a comic: the task gives its permits back and is
    /// cancelled, whatever its state was.
    pub fn cancel_download_task(&mut self, id: i32) -> (r: Result<(), HitomiError>)
        requires
            old(self).well_formed(),
        ensures
            final(self).well_formed(),
            final(self).byte_per_sec == old(self).byte_per_sec,
            match old(self).position(id) {
                Some(i) => r is Ok && final(self).stepped(
                    old(self),
                    i,
                    old(self).tasks@[i].released(DownloadTaskState::Cancelled),
                    if old(self).tasks@[i].holds_permit {
                        1int
                    } else {
                        0int
                    },
                    old(self).tasks@[i].active_img_count as int,
                ),
                None => r == Err::<(), HitomiError>(HitomiError::NotFound) && final(self).unchanged(old(self)),
            },
    {
        match self.find_task(id) {
            Some(at) => {
                self.release(at, DownloadTaskState::Cancelled);
                Ok(())
            },
            None => Err(HitomiError::NotFound),
        }
    }

    /// Resumes the task of a comic.
    ///
    /// A task that was cancelled, has failed or is completed is replaced by
    /// a fresh task of the same comic, as if the comic were submitted anew.
    /// Any other task becomes pending in place: it keeps its progress and
    /// what permits it holds.
    pub fn resume_download_task(&mut self, id: i32, dir_fmt: &str, download_format: DownloadFormat) -> (r:
        Result<(), HitomiError>)
        requires
            old(self).well_formed(),
        ensures
            final(self).well_formed(),
            final(self).byte_per_sec == old(self).byte_per_sec,
            match old(self).position(id) {
                None => r == Err::<(), HitomiError>(HitomiError::NotFound) && final(self).unchanged(old(self)),
                Some(i) => if old(self).tasks@[i].state.is_live() {
                    r is Ok && final(self).stepped(
                        old(self),
                        i,
                        DownloadTask { state: DownloadTaskState::Pending, ..old(self).tasks@[i] },
                        0,
                        0,
                    )
                } else {
                    match r {
                        Ok(()) => {
                            &&& final(self).stepped(old(self), i, final(self).tasks@[i], 0, 0)
                            &&& final(self).tasks@[i].is_fresh()
                            &&& final(self).tasks@[i].download_format == download_format
                            &&& Self::renamed(
                                old(self).tasks@[i].comic,
                                final(self).tasks@[i].comic,
                                dir_fmt@,
                            )
                        },
                        Err(e) => final(self).unchanged(old(self)) && spec_comic_dir_name(
                            old(self).tasks@[i].comic,
                            dir_fmt@,
                        ) == Err::<Seq<char>, HitomiError>(e),
                    }
                },
            },
    {
        let at = match self.find_task(id) {
            Some(at) => at,
            None => {
                return Err(HitomiError::NotFound);
            },
        };
        let ghost before = *self;
        let comic_permits = self.comic_permits;
        let img_permits = self.img_permits;
        if self.tasks[at].state.live() {
            let mut task = self.take_task(at);
            task.state = DownloadTaskState::Pending;
            self.put_back(Ghost(before), at, task, comic_permits, img_permits);
            return Ok(());
        }
        let params = self.tasks[at].comic.fmt_params();
        let dir_name = match Comic::get_dir_name_by_fmt(dir_fmt, &params) {
            Ok(dir_name) => dir_name,
            Err(e) => {
                return Err(e);
            },
        };
        let old_task = self.take_task(at);
        let mut comic = old_task.comic;
        comic.dir_name = dir_name;
        let task = DownloadTask::new(comic, download_format);
        self.put_back(Ghost(before), at, task, comic_permits, img_permits);
        assert(self.tasks@[at as int] == task);
        Ok(())
    }

    /// The step of a pending task that asks for a comic permit: with the
    /// permit that it holds, or with one that is free, the task becomes
    /// downloading and `true` is returned. Otherwise nothing changes.
    pub fn acquire_comic_permit(&mut self, id: i32) -> (r: Result<bool, HitomiError>)
        requires
            old(self).well_formed(),
        ensures
            final(self).well_formed(),
            final(self).byte_per_sec == old(self).byte_per_sec,
            match old(self).position(id) {
                None => r == Err::<bool, HitomiError>(HitomiError::NotFound) && final(self).unchanged(old(self)),
                Some(i) => {
                    let task = old(self).tasks@[i];
                    if task.state == DownloadTaskState::Pending && (task.holds_permit || old(self).comic_permits > 0) {
                        r == Ok::<bool, HitomiError>(true) && final(self).stepped(
                            old(self),
                            i,
                            DownloadTask {
                                state: DownloadTaskState::Downloading,
                                holds_permit: true,
                                ..task
                            },
                            if task.holds_permit {
                                0int
                            } else {
                                -1int
                            },
                            0,
                        )
                    } else {
                        r == Ok::<bool, HitomiError>(false) && final(self).unchanged(old(self))
                    }
                },
            },
    {
        let at = match self.find_task(id) {
            Some(at) => at,
            None => {
                return Err(HitomiError::NotFound);
            },
        };
        let ghost before = *self;
        let pending = match self.tasks[at].state {
            DownloadTaskState::Pending => true,
            _ => false,
        };
        if !pending || (!self.tasks[at].holds_permit && self.comic_permits == 0) {
            return Ok(false);
        }
        let comic_permits = if self.tasks[at].holds_permit {
            self.comic_permits
        } else {
            self.comic_permits - 1
        };
        let img_permits = self.img_permits;
        let mut task = self.take_task(at);
        task.state = DownloadTaskState::Downloading;
        task.holds_permit = true;
        self.put_back(Ghost(before), at, task, comic_permits, img_permits);
        Ok(true)
    }

    /// Records the number of images of a comic whose download begins: for
    /// a downloading task without a total yet, the total is set and `true`
    /// is returned. Otherwise nothing changes.
    pub fn begin_download(&mut self, id: i32, total_img_count: u32) -> (r: Result<bool, HitomiError>)
        requires
            old(self).well_formed(),
        ensures
            final(self).well_formed(),
            final(self).byte_per_sec == old(self).byte_per_sec,
            match old(self).position(id) {
                None => r == Err::<bool, HitomiError>(HitomiError::NotFound) && final(self).unchanged(old(self)),
                Some(i) => {
                    let task = old(self).tasks@[i];
                    if task.state == DownloadTaskState::Downloading && task.total_img_count == 0 {
                        r == Ok::<bool, HitomiError>(true) && final(self).stepped(
                            old(self),
                            i,
                            DownloadTask { total_img_count, ..task },
                            0,
                            0,
                        )
                    } else {
                        r == Ok::<bool, HitomiError>(false) && final(self).unchanged(old(self))
                    }
                },
            },
    {
        let at = match self.find_task(id) {
            Some(at) => at,
            None => {
                return Err(HitomiError::NotFound);
            },
        };
        let ghost before = *self;
        let downloading = match self.tasks[at].state {
            DownloadTaskState::Downloading => true,
            _ => false,
        };
        if !downloading || self.tasks[at].total_img_count != 0 {
            return Ok(false);
        }
        let comic_permits = self.comic_permits;
        let img_permits = self.img_permits;
        let mut task = self.take_task(at);
        task.total_img_count = total_img_count;
        self.put_back(Ghost(before), at, task, comic_permits, img_permits);
        Ok(true)
    }

    /// Records that the download of a comic cannot go on: a task that is
    /// pending, downloading or paused gives its permits back and has failed,
    /// and `true` is returned. Otherwise nothing changes.
    pub fn fail_download(&mut self, id: i32) -> (r: Result<bool, HitomiError>)
        requires
            old(self).well_formed(),
        ensures
            final(self).well_formed(),
            final(self).byte_per_sec == old(self).byte_per_sec,
            match old(self).position(id) {
                None => r == Err::<bool, HitomiError>(HitomiError::NotFound) && final(self).unchanged(old(self)),
                Some(i) => {
                    let task = old(self).tasks@[i];
                    if task.state.is_live() {
                        r == Ok::<bool, HitomiError>(true) && final(self).stepped(
                            old(self),
                            i,
                            task.released(DownloadTaskState::Failed),
                            if task.holds_permit {
                                1int
                            } else {
                                0int
                            },
                            task.active_img_count as int,
                        )
                    } else {
                        r == Ok::<bool, HitomiError>(false) && final(self).unchanged(old(self))
                    }
                },
            },
    {
        let at = match self.find_task(id) {
            Some(at) => at,
            None => {
                return Err(HitomiError::NotFound);
            },
        };
        if !self.tasks[at].state.live() {
            return Ok(false);
        }
        self.release(at, DownloadTaskState::Failed);
        Ok(true)
    }

    /// The step of an image that asks for an image permit: while its task
    /// is downloading, an image is still to be tried and a permit is free,
    /// the image takes the permit and `true` is returned. Otherwise nothing
    /// changes.
    pub fn acquire_img_permit(&mut self, id: i32) -> (r: Result<bool, HitomiError>)
        requires
            old(self).well_formed(),
        ensures
            final(self).well_formed(),
            final(self).byte_per_sec == old(self).byte_per_sec,
            match old(self).position(id) {
                None => r == Err::<bool, HitomiError>(HitomiError::NotFound) && final(self).unchanged(old(self)),
                Some(i) => {
                    let task = old(self).tasks@[i];
                    if task.state == DownloadTaskState::Downloading && old(self).img_permits > 0
                        && task.finished_img_count + task.active_img_count
                        < task.total_img_count {
                        r == Ok::<bool, HitomiError>(true) && final(self).stepped(
                            old(self),
                            i,
                            DownloadTask {
                                active_img_count: (task.active_img_count + 1) as u32,
                                ..task
                            },
                            0,
                            -1,
                        )
                    } else {
                        r == Ok::<bool, HitomiError>(false) && final(self).unchanged(old(self))
                    }
                },
            },
    {
        let at = match self.find_task(id) {
            Some(at) => at,
            None => {
                return Err(HitomiError::NotFound);
            },
        };
        let ghost before = *self;
        let downloading = match self.tasks[at].state {
            DownloadTaskState::Downloading => true,
            _ => false,
        };
        if !downloading || self.img_permits == 0 {
            return Ok(false);
        }
        let busy = self.tasks[at].finished_img_count as u64 + self.tasks[at].active_img_count as u64;
        if busy >= self.tasks[at].total_img_count as u64 {
            return Ok(false);
        }
        let comic_permits = self.comic_permits;
        let img_permits = self.img_permits - 1;
        let mut task = self.take_task(at);
        task.active_img_count = task.active_img_count + 1;
        self.put_back(Ghost(before), at, task, comic_permits, img_permits);
        Ok(true)
    }

    /// The byte count after `fetched` more bytes; it wraps at `u64::MAX`.
    pub open spec fn spec_bytes_after(bytes: u64, fetched: u64) -> u64 {
        if bytes + fetched > u64::MAX {
            (bytes + fetched - 0x1_0000_0000_0000_0000) as u64
        } else {
            (bytes + fetched) as u64
        }
    }

    /// Records the end of the download of one image: while the task is
    /// downloading and one of its images holds a permit, the permit is given
    /// back, the image counts as tried and, unless it failed, as downloaded,
    /// and the bytes that were fetched are added to the byte count; `true` is
    /// returned. Otherwise nothing changes.
    pub fn finish_img(&mut self, id: i32, outcome: ImgOutcome) -> (r: Result<bool, HitomiError>)
        requires
            old(self).well_formed(),
        ensures
            final(self).well_formed(),
            match old(self).position(id) {
                None => r == Err::<bool, HitomiError>(HitomiError::NotFound) && final(self).unchanged(old(self)),
                Some(i) => {
                    let task = old(self).tasks@[i];
                    if task.state == DownloadTaskState::Downloading && task.active_img_count > 0 {
                        &&& r == Ok::<bool, HitomiError>(true)
                        &&& final(self).stepped(
                            old(self),
                            i,
                            DownloadTask {
                                active_img_count: (task.active_img_count - 1) as u32,
                                finished_img_count: (task.finished_img_count + 1) as u32,
                                downloaded_img_count: if outcome.is_downloaded() {
                                    (task.downloaded_img_count + 1) as u32
                                } else {
                                    task.downloaded_img_count
                                },
                                ..task
                            },
                            0,
                            1,
                        )
                        &&& final(self).byte_per_sec == Self::spec_bytes_after(
                            old(self).byte_per_sec,
                            outcome.fetched(),
                        )
                    } else {
                        r == Ok::<bool, HitomiError>(false) && final(self).unchanged(old(self))
                    }
                },
            },
    {
        let at = match self.find_task(id) {
            Some(at) => at,
            None => {
                return Err(HitomiError::NotFound);
            },
        };
        let ghost before = *self;
        let downloading = match self.tasks[at].state {
            DownloadTaskState::Downloading => true,
            _ => false,
        };
        if !downloading || self.tasks[at].active_img_count == 0 {
            return Ok(false);
        }
        proof {
            lemma_counts_remove(self.tasks@, at as int);
            lemma_counts_nonnegative(self.tasks@.remove(at as int));
        }
        let comic_permits = self.comic_permits;
        let img_permits = self.img_permits + 1;
        let mut task = self.take_task(at);
        task.active_img_count = task.active_img_count - 1;
        task.finished_img_count = task.finished_img_count + 1;
        let fetched: u64 = match outcome {
            ImgOutcome::AlreadyPresent => {
                task.downloaded_img_count = task.downloaded_img_count + 1;
                0
            },
            ImgOutcome::Saved { bytes } => {
                task.downloaded_img_count = task.downloaded_img_count + 1;
                bytes
            },
            ImgOutcome::Failed => 0,
        };
        self.put_back(Ghost(before), at, task, comic_permits, img_permits);
        if fetched > u64::MAX - self.byte_per_sec {
            self.byte_per_sec = fetched - (u64::MAX - self.byte_per_sec) - 1;
        } else {
            self.byte_per_sec = self.byte_per_sec + fetched;
        }
        Ok(true)
    }

    /// Decides what follows when the images of a comic have been tried:
    /// for a downloading task whose images have all been tried, `Promote`
    /// where every image is on disk; else the task gives its permit back
    /// and has failed, and the verdict is `Incomplete`. For any other task
    /// nothing changes and the verdict is `NotReady`.
    pub fn settle_download(&mut self, id: i32) -> (r: Result<Verdict, HitomiError>)
        requires
            old(self).well_formed(),
        ensures
            final(self).well_formed(),
            final(self).byte_per_sec == old(self).byte_per_sec,
            match old(self).position(id) {
                None => r == Err::<Verdict, HitomiError>(HitomiError::NotFound) && final(self).unchanged(old(self)),
                Some(i) => {
                    let task = old(self).tasks@[i];
                    if task.state == DownloadTaskState::Downloading && task.finished_img_count
                        == task.total_img_count {
                        if task.downloaded_img_count == task.total_img_count {
                            r == Ok::<Verdict, HitomiError>(Verdict::Promote) && final(self).unchanged(old(self))
                        } else {
                            r == Ok::<Verdict, HitomiError>(Verdict::Incomplete) && final(self).stepped(
                                old(self),
                                i,
                                task.released(DownloadTaskState::Failed),
                                1,
                                0,
                            )
                        }
                    } else {
                        r == Ok::<Verdict, HitomiError>(Verdict::NotReady) && final(self).unchanged(old(self))
                    }
                },
            },
    {
        let at = match self.find_task(id) {
            Some(at) => at,
            None => {
                return Err(HitomiError::NotFound);
            },
        };
        let downloading = match self.tasks[at].state {
            DownloadTaskState::Downloading => true,
            _ => false,
        };
        if !downloading || self.tasks[at].finished_img_count != self.tasks[at].total_img_count {
            return Ok(Verdict::NotReady);
        }
        if self.tasks[at].downloaded_img_count == self.tasks[at].total_img_count {
            return Ok(Verdict::Promote);
        }
        self.release(at, DownloadTaskState::Failed);
        Ok(Verdict::Incomplete)
    }

    /// Records how the promotion of a comic ended: a downloading task with
    /// every image on disk gives its permit back and is completed where the
    /// directory was promoted and the metadata written, else it has failed;
    /// `true` is returned. For any other task nothing changes.
    pub fn complete_download(&mut self, id: i32, promoted: bool) -> (r: Result<bool, HitomiError>)
        requires
            old(self).well_formed(),
        ensures
            final(self).well_formed(),
            final(self).byte_per_sec == old(self).byte_per_sec,
            match old(self).position(id) {
                None => r == Err::<bool, HitomiError>(HitomiError::NotFound) && final(self).unchanged(old(self)),
                Some(i) => {
                    let task = old(self).tasks@[i];
                    if task.state == DownloadTaskState::Downloading && task.finished_img_count
                        == task.total_img_count && task.downloaded_img_count
                        == task.total_img_count {
                        r == Ok::<bool, HitomiError>(true) && final(self).stepped(
                            old(self),
                            i,
                            task.released(
                                if promoted {
                                    DownloadTaskState::Completed
                                } else {
                                    DownloadTaskState::Failed
                                },
                            ),
                            1,
                            0,
                        )
                    } else {
                        r == Ok::<bool, HitomiError>(false) && final(self).unchanged(old(self))
                    }
                },
            },
    {
        let at = match self.find_task(id) {
            Some(at) => at,
            None => {
                return Err(HitomiError::NotFound);
            },
        };
        let downloading = match self.tasks[at].state {
            DownloadTaskState::Downloading => true,
            _ => false,
        };
        if !downloading || self.tasks[at].finished_img_count != self.tasks[at].total_img_count
            || self.tasks[at].downloaded_img_count != self.tasks[at].total_img_count {
            return Ok(false);
        }
        if promoted {
            self.release(at, DownloadTaskState::Completed);
        } else {
            self.release(at, DownloadTaskState::Failed);
        }
        Ok(true)
    }

    /// Takes the number of bytes fetched since the last call and starts the
    /// count anew.
    pub fn take_speed(&mut self) -> (bytes: u64)
        requires
            old(self).well_formed(),
        ensures
            final(self).well_formed(),
            bytes == old(self).byte_per_sec,
            final(self).byte_per_sec == 0,
            final(self).tasks@ == old(self).tasks@,
            final(self).comic_permits == old(self).comic_permits,
            final(self).img_permits == old(self).img_permits,
    {
        let bytes = self.byte_per_sec;
        self.byte_per_sec = 0;
        bytes
    }
}

/// One image of a download task.
#[derive(Debug)]
pub struct DownloadImgTask {
    pub url: String,
    pub temp_download_dir: String,
    pub index: u32,
}

/// The name of the file of the image at `index`, counted from 0: its
/// number, counted from 1, in four digits or more, a full stop and the
/// extension of the format.
pub open spec fn spec_img_file_name(index: u32, format: DownloadFormat) -> Seq<char> {
    spec_padded4((index + 1) as nat) + seq!['.'] + format.spec_extension()
}

/// The name is that of one of the first `total` images.
pub open spec fn is_expected_file(name: Seq<char>, total: u32, format: DownloadFormat) -> bool {
    exists|i: u32| i < total && name == spec_img_file_name(i, format)
}

/// The names, of those found in the temporary directory, that belong to
/// none of the `total` images in the format.
pub open spec fn spec_stale_files(found: Seq<Seq<char>>, total: u32, format: DownloadFormat) -> Seq<
    Seq<char>,
> {
    found.filter(|name: Seq<char>| !is_expected_file(name, total, format))
}

impl DownloadImgTask {
    /// The task of the image at `index` with the given address.
    pub fn new(url: String, temp_download_dir: String, index: u32) -> (task: DownloadImgTask)
        ensures
            task.url == url,
            task.temp_download_dir == temp_download_dir,
            task.index == index,
    {
        DownloadImgTask { url, temp_download_dir, index }
    }

    /// The name of the file that the image is saved to.
    pub fn file_name(&self, format: DownloadFormat) -> (name: String)
        ensures
            name@ == spec_img_file_name(self.index, format),
    {
        img_file_name(self.index, format)
    }
}

/// The name of the file of the image at `index`.
pub fn img_file_name(index: u32, format: DownloadFormat) -> (name: String)
    ensures
        name@ == spec_img_file_name(index, format),
{
    let mut name = padded4((index as u64) + 1);
    name.push('.');
    push_str(&mut name, format.to_extension());
    string_of(name.as_slice())
}

/// Whether the name is that of one of the first `total` images.
pub fn expected_file(name: &str, total: u32, format: DownloadFormat) -> (expected: bool)
    ensures
        expected == is_expected_file(name@, total, format),
{
    let mut i: u32 = 0;
    while i < total
        invariant
            i <= total,
            forall|k: u32| k < i ==> name@ != spec_img_file_name(k, format),
        decreases total - i,
    {
        let candidate = img_file_name(i, format);
        if same_text(name, candidate.as_str()) {
            return true;
        }
        i += 1;
    }
    false
}

/// Picks, of the names found in the temporary directory, those to delete
/// before a download: the ones that belong to none of the images, as files
/// left in another format do.
pub fn clean_temp_download_dir(found: &[String], total: u32, format: DownloadFormat) -> (stale: Vec<
    String,
>)
    ensures
        string_views(stale@) == spec_stale_files(string_views(found@), total, format),
{
    let ghost all = string_views(found@);
    let ghost pred = |name: Seq<char>| !is_expected_file(name, total, format);
    let mut stale: Vec<String> = Vec::new();
    let mut i: usize = 0;
    proof {
        reveal(Seq::filter);
        assert(all.take(0).filter(pred) =~= Seq::<Seq<char>>::empty());
        assert(string_views(stale@) =~= Seq::<Seq<char>>::empty());
    }
    while i < found.len()
        invariant
            i <= found@.len(),
            all == string_views(found@),
            pred == (|name: Seq<char>| !is_expected_file(name, total, format)),
            string_views(stale@) == all.take(i as int).filter(pred),
        decreases found.len() - i,
    {
        proof {
            reveal(Seq::filter);
            assert(all.take(i + 1).drop_last() =~= all.take(i as int));
            assert(all.take(i + 1).last() == found@[i as int]@);
        }
        if !expected_file(found[i].as_str(), total, format) {
            let name = found[i].clone();
            assert(string_views(stale@.push(name)) =~= string_views(stale@).push(name@));
            stale.push(name);
        }
        i += 1;
    }
    assert(all.take(i as int) =~= all);
    stale
}

/// At every observation a task has downloaded no more images than it has,
/// and a completed task has downloaded all of them.
pub proof fn lemma_progress_bounded(manager: DownloadManager, i: int)
    requires
        manager.well_formed(),
        0 <= i < manager.tasks@.len(),
    ensures
        manager.tasks@[i].downloaded_img_count <= manager.tasks@[i].total_img_count,
        manager.tasks@[i].state == DownloadTaskState::Completed
            ==> manager.tasks@[i].downloaded_img_count == manager.tasks@[i].total_img_count,
{
    assert(manager.tasks@[i].well_formed());
}

/// At most 2 tasks are downloading at the same time, and at most 4 images of
/// all tasks together.
pub proof fn lemma_admission_bounded(manager: DownloadManager)
    requires
        manager.well_formed(),
    ensures
        downloading(manager.tasks@) <= COMIC_PERMITS,
        images_active(manager.tasks@) <= IMG_PERMITS,
{
    lemma_downloading_hold_permits(manager.tasks@);
    lemma_counts_nonnegative(manager.tasks@);
}

} // verus!
