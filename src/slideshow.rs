//! State of the slideshow: the directory, its image files, the current
//! position, the image cache, and playback. Every change of position yields
//! the decode job that the prefetch policy asks for, for the caller to send.
use crate::cache::ImageCache;
use crate::files::names_view;
use crate::index::{lemma_mod_of_shift, next_index, offset_index, prev_index, wrap};
use vstd::prelude::*;

verus! {

/// Full path of file `name` inside directory `dir`.
pub open spec fn path_of(dir: Seq<char>, name: Seq<char>) -> Seq<char> {
    dir + seq!['/'] + name
}

/// Whether playback is due to advance at time `now`: it is playing and more
/// than `period` has passed since the last advance at `last`.
pub open spec fn advance_due(playing: bool, last: u64, now: u64, period: u64) -> bool {
    playing && now > last && now - last > period
}

/// The position after one step forward, if there is a position.
pub open spec fn step_forward(index: Option<usize>, len: nat) -> Option<usize> {
    match index {
        Some(i) => Some(wrap(i as int, 1, len as int) as usize),
        None => None,
    }
}

/// Views an optional string as its characters.
pub open spec fn opt_view(o: Option<String>) -> Option<Seq<char>> {
    match o {
        Some(s) => Some(s@),
        None => None,
    }
}

/// A slideshow over the image files of one directory. `H` is the handle
/// type of the images in the cache.
pub struct Slideshow<H> {
    dir: String,
    files: Vec<String>,
    file_index: Option<usize>,
    cache: ImageCache<H>,
    playing: bool,
    last_advance: u64,
}

impl<H> Slideshow<H> {
    pub closed spec fn spec_dir(&self) -> Seq<char> {
        self.dir@
    }

    pub closed spec fn spec_files(&self) -> Seq<Seq<char>> {
        names_view(self.files@)
    }

    pub closed spec fn spec_index(&self) -> Option<usize> {
        self.file_index
    }

    pub closed spec fn spec_cache(&self) -> Map<Seq<char>, H> {
        self.cache@
    }

    pub closed spec fn spec_playing(&self) -> bool {
        self.playing
    }

    pub closed spec fn spec_last_advance(&self) -> u64 {
        self.last_advance
    }

    /// There is a current position exactly when there are files, and it
    /// points into the list.
    pub closed spec fn wf(&self) -> bool {
        &&& self.cache.wf()
        &&& (self.file_index is None <==> self.files@.len() == 0)
        &&& (self.file_index matches Some(i) ==> i < self.files@.len())
    }

    /// Full path of the file at position `i`.
    pub open spec fn spec_file_path(&self, i: int) -> Seq<char> {
        path_of(self.spec_dir(), self.spec_files()[i])
    }

    /// The decode job that position `i` needs: its path, unless it is cached.
    pub open spec fn spec_job_at(&self, i: int) -> Option<Seq<char>> {
        let p = self.spec_file_path(i);
        if self.spec_cache().contains_key(p) {
            None
        } else {
            Some(p)
        }
    }

    /// The decode job for the file `offset` steps from the current one.
    pub open spec fn spec_job_for(&self, offset: int) -> Option<Seq<char>> {
        match self.spec_index() {
            Some(i) => self.spec_job_at(wrap(i as int, offset, self.spec_files().len() as int)),
            None => None,
        }
    }

    /// The jobs for positions `from`, `from + 1`, ... up to but excluding `to`.
    pub open spec fn spec_jobs_between(&self, from: int, to: int) -> Seq<Seq<char>>
        decreases to - from,
    {
        if to <= from {
            Seq::empty()
        } else {
            let rest = self.spec_jobs_between(from, to - 1);
            match self.spec_job_at(to - 1) {
                Some(p) => rest.push(p),
                None => rest,
            }
        }
    }

    /// A slideshow over `files` of directory `dir`, at the first file if
    /// there is one, stopped, with nothing cached.
    pub fn new(dir: String, files: Vec<String>) -> (r: Self)
        ensures
            r.wf(),
            r.spec_dir() == dir@,
            r.spec_files() == names_view(files@),
            r.spec_index() == (if files@.len() > 0 { Some(0usize) } else { None }),
            r.spec_cache() == Map::<Seq<char>, H>::empty(),
            !r.spec_playing(),
            r.spec_last_advance() == 0,
    {
        let file_index = if files.len() > 0 {
            Some(0)
        } else {
            None
        };
        Slideshow { dir, files, file_index, cache: ImageCache::new(), playing: false, last_advance: 0 }
    }

    /// A slideshow brought back from saved settings. A saved position that
    /// no longer points into `files` falls back to the first file.
    pub fn restore(dir: String, files: Vec<String>, file_index: Option<usize>, playing: bool) -> (r:
        Self)
        ensures
            r.wf(),
            r.spec_dir() == dir@,
            r.spec_files() == names_view(files@),
            r.spec_index() == (if files@.len() == 0 {
                None
            } else if file_index matches Some(i) && i < files@.len() {
                file_index
            } else {
                Some(0usize)
            }),
            r.spec_cache() == Map::<Seq<char>, H>::empty(),
            r.spec_playing() == playing,
            r.spec_last_advance() == 0,
    {
        let n = files.len();
        let file_index = if n == 0 {
            None
        } else {
            match file_index {
                Some(i) if i < n => Some(i),
                _ => Some(0),
            }
        };
        Slideshow { dir, files, file_index, cache: ImageCache::new(), playing, last_advance: 0 }
    }

    pub fn dir(&self) -> (r: &String)
        ensures
            r@ == self.spec_dir(),
    {
        &self.dir
    }

    pub fn files(&self) -> (r: &Vec<String>)
        ensures
            names_view(r@) == self.spec_files(),
    {
        &self.files
    }

    pub fn file_index(&self) -> (r: Option<usize>)
        ensures
            r == self.spec_index(),
    {
        self.file_index
    }

    pub fn playing(&self) -> (r: bool)
        ensures
            r == self.spec_playing(),
    {
        self.playing
    }

    pub fn cache(&self) -> (r: &ImageCache<H>)
        requires
            self.wf(),
        ensures
            r.wf(),
            r@ == self.spec_cache(),
    {
        &self.cache
    }

    /// Full path of the file at position `i`.
    pub fn file_path(&self, i: usize) -> (r: String)
        requires
            i < self.spec_files().len(),
        ensures
            r@ == self.spec_file_path(i as int),
    {
        let mut p = self.dir.clone();
        p.append("/");
        p.append(self.files[i].as_str());
        proof {
            reveal_strlit("/");
        }
        p
    }

    /// Full path of the current file, if there is one.
    pub fn current_path(&self) -> (r: Option<String>)
        requires
            self.wf(),
        ensures
            r is Some <==> self.spec_index() is Some,
            r matches Some(p) ==> p@ == self.spec_file_path(self.spec_index()->0 as int),
    {
        match self.file_index {
            Some(i) => Some(self.file_path(i)),
            None => None,
        }
    }

    /// Brings `index`, which is less than twice the number of files, back
    /// into the list.
    pub fn wrap_file_index(&self, index: usize) -> (r: usize)
        requires
            self.spec_files().len() > 0,
            index < 2 * self.spec_files().len(),
        ensures
            r == (index as int) % (self.spec_files().len() as int),
    {
        let n = self.files.len();
        assert(self.spec_files().len() == n);
        if index >= n {
            proof {
                lemma_mod_of_shift(index as int, index - n, 1, n as int);
            }
            index - n
        } else {
            proof {
                lemma_mod_of_shift(index as int, index as int, 0, n as int);
            }
            index
        }
    }

    /// The decode job for position `i`: its path, unless it is cached.
    fn job_at(&self, i: usize) -> (r: Option<String>)
        requires
            self.wf(),
            i < self.spec_files().len(),
        ensures
            opt_view(r) == self.spec_job_at(i as int),
    {
        let p = self.file_path(i);
        if self.cache.contains(&p) {
            None
        } else {
            Some(p)
        }
    }

    /// The decode job for the file `offset` steps from the current one: its
    /// path, unless it is cached or there are no files.
    pub fn request_preload_image(&self, offset: i32) -> (r: Option<String>)
        requires
            self.wf(),
        ensures
            opt_view(r) == self.spec_job_for(offset as int),
    {
        match self.file_index {
            Some(i) => self.job_at(offset_index(i, offset, self.files.len())),
            None => None,
        }
    }

    /// Moves to the next file, from the last back to the first, and returns
    /// the decode job for the file after the new one.
    pub fn incr_file_index(&mut self) -> (r: Option<String>)
        requires
            old(self).wf(),
        ensures
            final(self).wf(),
            final(self).spec_index() == step_forward(
                old(self).spec_index(),
                old(self).spec_files().len(),
            ),
            final(self).spec_dir() == old(self).spec_dir(),
            final(self).spec_files() == old(self).spec_files(),
            final(self).spec_cache() == old(self).spec_cache(),
            final(self).spec_playing() == old(self).spec_playing(),
            final(self).spec_last_advance() == old(self).spec_last_advance(),
            opt_view(r) == final(self).spec_job_for(1),
    {
        match self.file_index {
            Some(i) => {
                self.file_index = Some(next_index(i, self.files.len()));
                self.request_preload_image(1)
            },
            None => None,
        }
    }

    /// Moves to the previous file, from the first to the last.
    pub fn decr_file_index(&mut self)
        requires
            old(self).wf(),
        ensures
            final(self).wf(),
            final(self).spec_index() == (match old(self).spec_index() {
                Some(i) => Some(wrap(i as int, -1, old(self).spec_files().len() as int) as usize),
                None => None,
            }),
            final(self).spec_dir() == old(self).spec_dir(),
            final(self).spec_files() == old(self).spec_files(),
            final(self).spec_cache() == old(self).spec_cache(),
            final(self).spec_playing() == old(self).spec_playing(),
            final(self).spec_last_advance() == old(self).spec_last_advance(),
    {
        if let Some(i) = self.file_index {
            self.file_index = Some(prev_index(i, self.files.len()));
        }
    }

    /// Jumps to position `i`.
    pub fn set_file_index(&mut self, i: usize)
        requires
            old(self).wf(),
            i < old(self).spec_files().len(),
        ensures
            final(self).wf(),
            final(self).spec_index() == Some(i),
            final(self).spec_dir() == old(self).spec_dir(),
            final(self).spec_files() == old(self).spec_files(),
            final(self).spec_cache() == old(self).spec_cache(),
            final(self).spec_playing() == old(self).spec_playing(),
            final(self).spec_last_advance() == old(self).spec_last_advance(),
    {
        self.file_index = Some(i);
    }
}

impl<H> Slideshow<H> {
    /// Starts playback when stopped, stops it when playing.
    pub fn toggle_playing(&mut self)
        requires
            old(self).wf(),
        ensures
            final(self).wf(),
            final(self).spec_playing() == !old(self).spec_playing(),
            final(self).spec_index() == old(self).spec_index(),
            final(self).spec_dir() == old(self).spec_dir(),
            final(self).spec_files() == old(self).spec_files(),
            final(self).spec_cache() == old(self).spec_cache(),
            final(self).spec_last_advance() == old(self).spec_last_advance(),
    {
        self.playing = !self.playing;
    }

    /// One check of the playback timer at time `now`, with `period` the time
    /// that one frame stays on screen. When playing and more than `period`
    /// has passed since the last advance, moves one file forward, takes `now`
    /// as the new baseline and returns the decode job for the file after the
    /// new one. Otherwise changes nothing. Times are in any one unit.
    pub fn tick(&mut self, now: u64, period: u64) -> (r: Option<String>)
        requires
            old(self).wf(),
        ensures
            final(self).wf(),
            final(self).spec_dir() == old(self).spec_dir(),
            final(self).spec_files() == old(self).spec_files(),
            final(self).spec_cache() == old(self).spec_cache(),
            final(self).spec_playing() == old(self).spec_playing(),
            if advance_due(old(self).spec_playing(), old(self).spec_last_advance(), now, period) {
                &&& final(self).spec_index() == step_forward(
                    old(self).spec_index(),
                    old(self).spec_files().len(),
                )
                &&& final(self).spec_last_advance() == now
                &&& opt_view(r) == final(self).spec_job_for(1)
            } else {
                &&& final(self).spec_index() == old(self).spec_index()
                &&& final(self).spec_last_advance() == old(self).spec_last_advance()
                &&& r is None
            },
    {
        if self.playing && now > self.last_advance && now - self.last_advance > period {
            self.last_advance = now;
            self.incr_file_index()
        } else {
            None
        }
    }

    /// Switches to directory `dir` with its image `files`: goes to the first
    /// file and empties the cache, whose paths belong to the old directory.
    pub fn change_directory(&mut self, dir: String, files: Vec<String>)
        requires
            old(self).wf(),
        ensures
            final(self).wf(),
            final(self).spec_dir() == dir@,
            final(self).spec_files() == names_view(files@),
            final(self).spec_index() == (if files@.len() > 0 { Some(0usize) } else { None }),
            final(self).spec_cache() == Map::<Seq<char>, H>::empty(),
            final(self).spec_playing() == old(self).spec_playing(),
            final(self).spec_last_advance() == old(self).spec_last_advance(),
    {
        self.file_index = if files.len() > 0 {
            Some(0)
        } else {
            None
        };
        self.dir = dir;
        self.files = files;
        self.cache.clear();
    }

    /// The decode jobs that warm the cache at start: one for each file from
    /// the current one to the end of the list that is not cached yet, in
    /// list order.
    pub fn startup_jobs(&self) -> (r: Vec<String>)
        requires
            self.wf(),
        ensures
            names_view(r@) == (match self.spec_index() {
                Some(i) => self.spec_jobs_between(i as int, self.spec_files().len() as int),
                None => Seq::empty(),
            }),
    {
        let mut jobs: Vec<String> = Vec::new();
        if let Some(start) = self.file_index {
            let n = self.files.len();
            let mut t: usize = start;
            while t < n
                invariant
                    self.wf(),
                    n == self.spec_files().len(),
                    start <= t <= n,
                    names_view(jobs@) == self.spec_jobs_between(start as int, t as int),
                decreases n - t,
            {
                let ghost before = jobs@;
                match self.job_at(t) {
                    Some(p) => {
                        jobs.push(p);
                        assert(names_view(jobs@) =~= names_view(before).push(jobs@.last()@));
                    },
                    None => {},
                }
                t = t + 1;
            }
        }
        jobs
    }

    /// Stores the handle of the decoded image of `path` in the cache.
    pub fn store_image(&mut self, path: String, handle: H)
        requires
            old(self).wf(),
        ensures
            final(self).wf(),
            final(self).spec_cache() == old(self).spec_cache().insert(path@, handle),
            final(self).spec_index() == old(self).spec_index(),
            final(self).spec_dir() == old(self).spec_dir(),
            final(self).spec_files() == old(self).spec_files(),
            final(self).spec_playing() == old(self).spec_playing(),
            final(self).spec_last_advance() == old(self).spec_last_advance(),
    {
        self.cache.insert(path, handle);
    }
}

/// A prefetch request whose target path is already cached yields no job.
pub proof fn lemma_cached_target_not_requested<H>(show: Slideshow<H>, offset: int)
    requires
        show.wf(),
        show.spec_index() is Some,
        show.spec_cache().contains_key(
            show.spec_file_path(
                wrap(show.spec_index()->0 as int, offset, show.spec_files().len() as int),
            ),
        ),
    ensures
        show.spec_job_for(offset) is None,
{
}

/// Without files there is no position, and no prefetch request yields a job.
pub proof fn lemma_no_files_no_jobs<H>(show: Slideshow<H>, offset: int)
    requires
        show.wf(),
        show.spec_files().len() == 0,
    ensures
        show.spec_index() is None,
        show.spec_job_for(offset) is None,
{
}

} // verus!
