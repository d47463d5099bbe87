//! The player: the browser's selection, the playback queue and the
//! transport state, and what each command of the user does to them.
//!
//! The player touches neither the file system nor the audio device. Each
//! operation takes what was observed outside as plain values and answers
//! with a `Command` that says what is to be done outside.

use crate::events::TICK_MILLIS;
use crate::order::is_stable_sort;
use crate::scanner::{audio_files, audio_paths, is_listing, scan, shown, Entry};
pub use crate::scanner::{BrowserItem, FileType};
use crate::span::{Span, NANOS_PER_MILLI};
use crate::text::same_text;
use vstd::prelude::*;
use vstd::string::StringExecFns;

verus! {

/// Volume of a fresh player, in percent.
pub const INITIAL_VOLUME: u8 = 50;

/// Highest volume, in percent.
pub const MAX_VOLUME: u8 = 100;

/// How far one key press moves the volume, in percent.
pub const VOLUME_STEP: u8 = 5;

/// What the player asks of the world around it.
#[derive(Clone, Debug, PartialEq, Eq)]
pub enum Command {
    /// Nothing is to be done.
    Nothing,
    /// Read this directory and hand what was found to `load_directory`.
    OpenDirectory(String),
    /// Read this folder and hand its entries to `play_files`.
    ReadFolder(String),
    /// Stop the output channel, open a fresh one at this volume, decode this
    /// file into it, and hand the outcome to `load_finished`.
    Load { path: String, volume: u8 },
    /// Resume the paused output channel.
    Resume,
    /// Pause the output channel.
    Pause,
    /// Set the output channel to this volume.
    SetVolume(u8),
}

/// What came of reading a directory.
#[derive(Clone, Debug, PartialEq, Eq)]
pub enum Listing {
    /// The path does not exist or is no directory.
    NotADirectory,
    /// The path is a directory that cannot be read.
    Unreadable,
    /// The children of the directory, in the order in which they were read.
    Entries(Vec<Entry>),
}

/// What came of loading a file into the output channel.
#[derive(Clone, Copy, Debug, PartialEq, Eq)]
pub enum LoadOutcome {
    /// The file plays; its total duration, where the decoder knows it.
    Started(Option<Span>),
    /// The file could not be opened or decoded.
    Failed,
}

/// The directories of the user that the player may start in.
#[derive(Clone, Debug, PartialEq, Eq)]
pub struct KnownDirs {
    pub audio_dir: Option<String>,
    pub home_dir: String,
}

/// The state of the player as a value.
pub struct AppView {
    pub current_directory: String,
    pub browser_items: Seq<BrowserItem>,
    pub browser_index: nat,
    pub queue: Seq<String>,
    pub queue_index: nat,
    pub volume: u8,
    pub is_playing: bool,
    pub elapsed: Span,
    pub duration: Option<Span>,
    pub tick_counter: u64,
}

/// One tick's worth of time.
pub open spec fn tick_span() -> Span {
    Span { nanos: (TICK_MILLIS * NANOS_PER_MILLI) as u128 }
}

/// The paths of the audio files of a listing, in its order.
pub open spec fn queue_of(items: Seq<BrowserItem>) -> Seq<String> {
    items.filter(|i: BrowserItem| i.file_type == FileType::AudioFile).map_values(
        |i: BrowserItem| i.path,
    )
}

/// `k` is the first position of `queue` that holds the path `path`.
pub open spec fn is_first_position(queue: Seq<String>, path: Seq<char>, k: int) -> bool {
    &&& 0 <= k < queue.len()
    &&& queue[k]@ == path
    &&& forall|j: int| 0 <= j < k ==> (#[trigger] queue[j])@ != path
}

/// The directory that the player starts in: a fixed one where the flag
/// `-steins` is among the arguments, else the first argument behind the
/// program's name, else the user's audio directory, else the user's home,
/// else the current directory.
pub open spec fn start_directory_of(args: Seq<String>, dirs: Option<KnownDirs>) -> Seq<char> {
    if exists|i: int| 0 <= i < args.len() && (#[trigger] args[i])@ == "-steins"@ {
        "D:\\Soulseek\\share"@
    } else if args.len() > 1 {
        args[1]@
    } else {
        match dirs {
            Some(d) => match d.audio_dir {
                Some(audio) => audio@,
                None => d.home_dir@,
            },
            None => "."@,
        }
    }
}

/// Picks the directory that the player starts in.
pub fn start_directory(args: &Vec<String>, dirs: Option<KnownDirs>) -> (dir: String)
    ensures
        dir@ == start_directory_of(args@, dirs),
{
    let mut flagged = false;
    let mut i: usize = 0;
    while i < args.len()
        invariant
            i <= args@.len(),
            flagged <==> exists|j: int| 0 <= j < i && (#[trigger] args@[j])@ == "-steins"@,
        decreases args@.len() - i,
    {
        if same_text(args[i].as_str(), "-steins") {
            flagged = true;
        }
        i = i + 1;
    }
    if flagged {
        String::from_str("D:\\Soulseek\\share")
    } else if args.len() > 1 {
        args[1].clone()
    } else {
        match dirs {
            Some(d) => match d.audio_dir {
                Some(audio) => audio,
                None => d.home_dir,
            },
            None => String::from_str("."),
        }
    }
}

impl AppView {
    /// What holds of every state of the player: the browser shows a listing,
    /// each index points into its list or is 0 where the list is empty, and
    /// the volume is a percentage.
    pub open spec fn valid(self) -> bool {
        &&& is_listing(self.browser_items)
        &&& self.browser_index < self.browser_items.len() || (self.browser_items.len() == 0
            && self.browser_index == 0)
        &&& self.queue_index < self.queue.len() || (self.queue.len() == 0 && self.queue_index
            == 0)
        &&& self.volume <= MAX_VOLUME
    }

    /// The state of a fresh player that has not read its directory yet.
    pub open spec fn fresh(start_dir: String) -> AppView {
        AppView {
            current_directory: start_dir,
            browser_items: Seq::empty(),
            browser_index: 0,
            queue: Seq::empty(),
            queue_index: 0,
            volume: INITIAL_VOLUME,
            is_playing: false,
            elapsed: Span { nanos: 0 },
            duration: None,
            tick_counter: 0,
        }
    }

    /// The state after a directory was read.
    pub open spec fn opened(self, path: String, items: Seq<BrowserItem>) -> AppView {
        AppView { current_directory: path, browser_items: items, browser_index: 0, ..self }
    }

    /// The play key finds nothing in the output channel, but a queue to
    /// play from.
    pub open spec fn wants_load(self, sink_empty: bool) -> bool {
        sink_empty && self.queue.len() > 0
    }

    /// A line of the given type is selected.
    pub open spec fn selects(self, file_type: FileType) -> bool {
        self.browser_items.len() > 0 && self.selected().file_type == file_type
    }

    /// The selected line of a listing that is not empty.
    pub open spec fn selected(self) -> BrowserItem {
        self.browser_items[self.browser_index as int]
    }

    /// The state with the selection on another line.
    pub open spec fn with_selection(self, index: nat) -> AppView {
        AppView { browser_index: index, ..self }
    }

    /// The state with another queue, playing from `position`.
    pub open spec fn with_queue(self, queue: Seq<String>, position: nat) -> AppView {
        AppView { queue, queue_index: position, ..self }
    }

    /// The state with another volume.
    pub open spec fn with_volume(self, volume: u8) -> AppView {
        AppView { volume, ..self }
    }

    /// The state with playback marked as running or not.
    pub open spec fn with_playing(self, playing: bool) -> AppView {
        AppView { is_playing: playing, ..self }
    }

    /// The state after a file began to play: its duration is taken, the
    /// elapsed time starts at zero, and the player counts as playing.
    pub open spec fn started(self, total: Option<Span>) -> AppView {
        AppView { duration: total, elapsed: Span { nanos: 0 }, is_playing: true, ..self }
    }

    /// The state after the selection moved one line down. An empty listing
    /// stays as it is.
    pub open spec fn moved_down(self) -> AppView {
        if self.browser_items.len() == 0 {
            self
        } else {
            self.with_selection(self.next_selection())
        }
    }

    /// The state after the selection moved one line up. An empty listing
    /// stays as it is.
    pub open spec fn moved_up(self) -> AppView {
        if self.browser_items.len() == 0 {
            self
        } else {
            self.with_selection(self.prev_selection())
        }
    }

    /// The queue position behind the current one; the first where the
    /// current one is the last.
    pub open spec fn next_index(self) -> nat {
        if self.queue_index + 1 < self.queue.len() {
            self.queue_index + 1
        } else {
            0
        }
    }

    /// The queue position before the current one; the last where the
    /// current one is the first.
    pub open spec fn prev_index(self) -> nat {
        if self.queue_index > 0 {
            (self.queue_index - 1) as nat
        } else {
            (self.queue.len() - 1) as nat
        }
    }

    /// The selection below the current one; the first where the current one
    /// is the last.
    pub open spec fn next_selection(self) -> nat {
        if self.browser_index + 1 < self.browser_items.len() {
            self.browser_index + 1
        } else {
            0
        }
    }

    /// The selection above the current one; the last where the current one
    /// is the first.
    pub open spec fn prev_selection(self) -> nat {
        if self.browser_index > 0 {
            (self.browser_index - 1) as nat
        } else {
            (self.browser_items.len() - 1) as nat
        }
    }

    /// The state after a skip to the next track. An empty queue stays as it
    /// is.
    pub open spec fn skipped_next(self) -> AppView {
        if self.queue.len() == 0 {
            self
        } else {
            self.with_queue(self.queue, self.next_index())
        }
    }

    /// The state after a skip to the previous track. An empty queue stays as
    /// it is.
    pub open spec fn skipped_prev(self) -> AppView {
        if self.queue.len() == 0 {
            self
        } else {
            self.with_queue(self.queue, self.prev_index())
        }
    }

    /// The state after `n` skips to the next track.
    pub open spec fn skipped_next_times(self, n: nat) -> AppView
        decreases n,
    {
        if n == 0 {
            self
        } else {
            self.skipped_next().skipped_next_times((n - 1) as nat)
        }
    }

    /// The state after `n` skips to the previous track.
    pub open spec fn skipped_prev_times(self, n: nat) -> AppView
        decreases n,
    {
        if n == 0 {
            self
        } else {
            self.skipped_prev().skipped_prev_times((n - 1) as nat)
        }
    }

    /// The tick counter after one more tick. It stops at the largest count
    /// that it can hold.
    pub open spec fn next_tick_count(self) -> u64 {
        if self.tick_counter < u64::MAX {
            (self.tick_counter + 1) as u64
        } else {
            u64::MAX
        }
    }

    /// The state after one tick while playing: one more tick counted, one
    /// tick's worth of time added. Both counters stop where they are full.
    pub open spec fn ticked(self) -> AppView {
        AppView {
            tick_counter: self.next_tick_count(),
            elapsed: self.elapsed.plus(tick_span()),
            ..self
        }
    }

    /// A track that was playing has run out: the output channel is empty,
    /// there is a queue, and a duration was captured.
    pub open spec fn track_ended(self, sink_empty: bool) -> bool {
        sink_empty && self.queue.len() > 0 && self.duration is Some
    }

    /// The command that loads the current queue item.
    pub open spec fn load_current(self) -> Command {
        Command::Load { path: self.queue[self.queue_index as int], volume: self.volume }
    }

    /// The volume one step up, at most `MAX_VOLUME`.
    pub open spec fn louder(self) -> u8 {
        if self.volume + VOLUME_STEP <= MAX_VOLUME {
            (self.volume + VOLUME_STEP) as u8
        } else {
            MAX_VOLUME
        }
    }

    /// The volume one step down, at least 0.
    pub open spec fn quieter(self) -> u8 {
        if self.volume >= VOLUME_STEP {
            (self.volume - VOLUME_STEP) as u8
        } else {
            0
        }
    }
}

/// The player.
pub struct App {
    current_directory: String,
    browser_items: Vec<BrowserItem>,
    browser_index: usize,
    queue: Vec<String>,
    queue_index: usize,
    volume: u8,
    is_playing: bool,
    elapsed: Span,
    duration: Option<Span>,
    tick_counter: u64,
}

impl View for App {
    type V = AppView;

    closed spec fn view(&self) -> AppView {
        AppView {
            current_directory: self.current_directory,
            browser_items: self.browser_items@,
            browser_index: self.browser_index as nat,
            queue: self.queue@,
            queue_index: self.queue_index as nat,
            volume: self.volume,
            is_playing: self.is_playing,
            elapsed: self.elapsed,
            duration: self.duration,
            tick_counter: self.tick_counter,
        }
    }
}

impl App {
    #[verifier::type_invariant]
    closed spec fn inv(self) -> bool {
        self@.valid()
    }

    /// A player that starts in `start_dir`, given what came of reading that
    /// directory.
    pub fn new(start_dir: String, listing: Listing) -> (app: App)
        ensures
            app@.valid(),
            listing is NotADirectory ==> app@ == AppView::fresh(start_dir),
            listing is Unreadable ==> app@ == AppView::fresh(start_dir),
            listing matches Listing::Entries(entries) ==> is_stable_sort(
                app@.browser_items,
                shown(entries@),
            ),
            listing is Entries ==> app@ == AppView::fresh(start_dir).opened(
                start_dir,
                app@.browser_items,
            ),
    {
        let mut app = App {
            current_directory: start_dir.clone(),
            browser_items: Vec::new(),
            browser_index: 0,
            queue: Vec::new(),
            queue_index: 0,
            volume: INITIAL_VOLUME,
            is_playing: false,
            elapsed: Span::zero(),
            duration: None,
            tick_counter: 0,
        };
        app.load_directory(start_dir, listing);
        app
    }

    /// Takes in what came of reading the directory `path`. Where it is no
    /// directory nothing changes. Else the browser moves there, with the
    /// selection on the first line: of the scanned listing, or of an empty
    /// one where the directory could not be read.
    pub fn load_directory(&mut self, path: String, listing: Listing)
        ensures
            final(self)@.valid(),
            listing is NotADirectory ==> final(self)@ == old(self)@,
            listing is Unreadable ==> final(self)@ == old(self)@.opened(path, Seq::empty()),
            listing matches Listing::Entries(entries) ==> is_stable_sort(
                final(self)@.browser_items,
                shown(entries@),
            ),
            listing is Entries ==> final(self)@ == old(self)@.opened(
                path,
                final(self)@.browser_items,
            ),
    {
        proof {
            use_type_invariant(&*self);
        }
        match listing {
            Listing::NotADirectory => {},
            Listing::Unreadable => {
                self.browser_index = 0;
                self.browser_items = Vec::new();
                self.current_directory = path;
            },
            Listing::Entries(entries) => {
                let items = scan(&entries);
                self.browser_index = 0;
                self.browser_items = items;
                self.current_directory = path;
            },
        }
    }

    /// One tick. While nothing plays it does nothing. While playing it
    /// counts the tick and adds its time to the elapsed time; if the track
    /// has run out it then skips to the next one, once: the queue stays, the
    /// position moves one place round it, and that track is to be loaded.
    pub fn on_tick(&mut self, sink_empty: bool) -> (cmd: Command)
        ensures
            final(self)@.valid(),
            !old(self)@.is_playing ==> final(self)@ == old(self)@ && cmd == Command::Nothing,
            old(self)@.is_playing && !old(self)@.track_ended(sink_empty) ==> final(self)@
                == old(self)@.ticked() && cmd == Command::Nothing,
            old(self)@.is_playing && old(self)@.track_ended(sink_empty) ==> final(self)@
                == old(self)@.ticked().skipped_next() && cmd == final(self)@.load_current(),
            old(self)@.is_playing && old(self)@.track_ended(sink_empty) ==> final(self)@.queue
                == old(self)@.queue && final(self)@.queue_index == (old(self)@.queue_index + 1)
                % old(self)@.queue.len(),
            old(self)@.is_playing && old(self)@.tick_counter < u64::MAX
                ==> final(self)@.tick_counter == old(self)@.tick_counter + 1,
            old(self)@.is_playing && old(self)@.elapsed.nanos + tick_span().nanos <= u128::MAX
                ==> final(self)@.elapsed.nanos == old(self)@.elapsed.nanos + tick_span().nanos,
    {
        proof {
            use_type_invariant(&*self);
            if self@.queue.len() > 0 {
                lemma_next_index_is_modular(self@);
            }
        }
        if self.is_playing {
            if self.tick_counter < u64::MAX {
                self.tick_counter = self.tick_counter + 1;
            }
            self.elapsed = self.elapsed.saturating_add(Span::from_millis(TICK_MILLIS));
            if sink_empty && !self.queue.is_empty() && self.duration.is_some() {
                return self.next_track();
            }
        }
        Command::Nothing
    }

    /// Acts on the selected line. A directory is to be opened. An audio
    /// file starts a new queue: every audio file of the listing, in its
    /// order, playing from the first position that holds the selected path.
    /// Anything else, or an empty listing, does nothing.
    pub fn enter_selected(&mut self) -> (cmd: Command)
        ensures
            final(self)@.valid(),
            !old(self)@.selects(FileType::Directory) && !old(self)@.selects(FileType::AudioFile)
                ==> final(self)@ == old(self)@ && cmd == Command::Nothing,
            old(self)@.selects(FileType::Directory) ==> final(self)@ == old(self)@ && cmd
                == Command::OpenDirectory(old(self)@.selected().path),
            old(self)@.selects(FileType::AudioFile) ==> final(self)@ == old(self)@.with_queue(
                queue_of(old(self)@.browser_items),
                final(self)@.queue_index,
            ),
            old(self)@.selects(FileType::AudioFile) ==> is_first_position(
                final(self)@.queue,
                old(self)@.selected().path@,
                final(self)@.queue_index as int,
            ),
            old(self)@.selects(FileType::AudioFile) ==> cmd == final(self)@.load_current(),
    {
        proof {
            use_type_invariant(&*self);
        }
        if self.browser_items.is_empty() {
            return Command::Nothing;
        }
        let file_type = self.browser_items[self.browser_index].file_type;
        match file_type {
            FileType::Directory => Command::OpenDirectory(
                self.browser_items[self.browser_index].path.clone(),
            ),
            FileType::AudioFile => {
                let queue = audio_queue(&self.browser_items);
                proof {
                    lemma_queue_holds(self.browser_items@, self.browser_index as int);
                }
                let position = first_position(
                    &queue,
                    self.browser_items[self.browser_index].path.as_str(),
                );
                self.queue_index = 0;
                self.queue = queue;
                self.queue_index = position;
                self.load_command()
            },
            FileType::Other => Command::Nothing,
        }
    }

    /// Asks for the selected folder to be read, so that its audio files can
    /// be played. Does nothing unless a directory is selected.
    pub fn play_folder(&self) -> (cmd: Command)
        ensures
            self@.selects(FileType::Directory) ==> cmd == Command::ReadFolder(
                self@.selected().path,
            ),
            !self@.selects(FileType::Directory) ==> cmd == Command::Nothing,
    {
        proof {
            use_type_invariant(self);
        }
        if self.browser_items.is_empty() {
            return Command::Nothing;
        }
        match self.browser_items[self.browser_index].file_type {
            FileType::Directory => Command::ReadFolder(
                self.browser_items[self.browser_index].path.clone(),
            ),
            _ => Command::Nothing,
        }
    }

    /// Takes in the entries of a folder that was read to be played. Its
    /// audio files, by path, become the queue, playing from the first; a
    /// folder without audio files changes nothing.
    pub fn play_files(&mut self, entries: &Vec<Entry>) -> (cmd: Command)
        ensures
            final(self)@.valid(),
            audio_paths(entries@).len() == 0 ==> final(self)@ == old(self)@ && cmd
                == Command::Nothing,
            audio_paths(entries@).len() > 0 ==> is_stable_sort(
                final(self)@.queue,
                audio_paths(entries@),
            ),
            audio_paths(entries@).len() > 0 ==> final(self)@ == old(self)@.with_queue(
                final(self)@.queue,
                0,
            ) && cmd == final(self)@.load_current(),
    {
        proof {
            use_type_invariant(&*self);
        }
        let files = audio_files(entries);
        proof {
            vstd::seq_lib::to_multiset_len(files@);
            vstd::seq_lib::to_multiset_len(audio_paths(entries@));
        }
        if files.is_empty() {
            Command::Nothing
        } else {
            self.queue_index = 0;
            self.queue = files;
            self.load_command()
        }
    }

    /// Asks for the parent directory to be opened, where there is one.
    pub fn go_up(&self, parent: Option<String>) -> (cmd: Command)
        ensures
            parent matches Some(path) ==> cmd == Command::OpenDirectory(path),
            parent is None ==> cmd == Command::Nothing,
    {
        match parent {
            Some(path) => Command::OpenDirectory(path),
            None => Command::Nothing,
        }
    }

    /// Takes in what came of loading the current queue item. A file that
    /// plays sets the duration, resets the elapsed time and marks the player
    /// as playing. A file that failed changes nothing.
    pub fn load_finished(&mut self, outcome: LoadOutcome)
        ensures
            final(self)@.valid(),
            outcome matches LoadOutcome::Started(total) ==> final(self)@ == old(self)@.started(total),
            outcome is Failed ==> final(self)@ == old(self)@,
    {
        proof {
            use_type_invariant(&*self);
        }
        match outcome {
            LoadOutcome::Started(total) => {
                self.duration = total;
                self.elapsed = Span::zero();
                self.is_playing = true;
            },
            LoadOutcome::Failed => {},
        }
    }

    /// The play/pause key. With an empty output channel and a queue, the
    /// current queue item is to be loaded. Else a paused channel resumes,
    /// and a running one pauses.
    pub fn toggle_play(&mut self, sink_empty: bool, sink_paused: bool) -> (cmd: Command)
        ensures
            final(self)@.valid(),
            old(self)@.wants_load(sink_empty) ==> final(self)@ == old(self)@ && cmd
                == old(self)@.load_current(),
            !old(self)@.wants_load(sink_empty) && sink_paused ==> final(self)@
                == old(self)@.with_playing(true) && cmd == Command::Resume,
            !old(self)@.wants_load(sink_empty) && !sink_paused ==> final(self)@
                == old(self)@.with_playing(false) && cmd == Command::Pause,
    {
        proof {
            use_type_invariant(&*self);
        }
        if sink_empty && !self.queue.is_empty() {
            self.load_command()
        } else if sink_paused {
            self.is_playing = true;
            Command::Resume
        } else {
            self.is_playing = false;
            Command::Pause
        }
    }

    /// Skips to the next track, from the last to the first, and asks for it
    /// to be loaded. Does nothing on an empty queue.
    pub fn next_track(&mut self) -> (cmd: Command)
        ensures
            final(self)@.valid(),
            final(self)@ == old(self)@.skipped_next(),
            old(self)@.queue.len() == 0 ==> cmd == Command::Nothing,
            old(self)@.queue.len() > 0 ==> cmd == final(self)@.load_current(),
    {
        proof {
            use_type_invariant(&*self);
        }
        if self.queue.is_empty() {
            return Command::Nothing;
        }
        let len = self.queue.len();
        if self.queue_index + 1 < len {
            self.queue_index = self.queue_index + 1;
        } else {
            self.queue_index = 0;
        }
        self.load_command()
    }

    /// Skips to the previous track, from the first to the last, and asks
    /// for it to be loaded. Does nothing on an empty queue.
    pub fn prev_track(&mut self) -> (cmd: Command)
        ensures
            final(self)@.valid(),
            final(self)@ == old(self)@.skipped_prev(),
            old(self)@.queue.len() == 0 ==> cmd == Command::Nothing,
            old(self)@.queue.len() > 0 ==> cmd == final(self)@.load_current(),
    {
        proof {
            use_type_invariant(&*self);
        }
        if self.queue.is_empty() {
            return Command::Nothing;
        }
        if self.queue_index > 0 {
            self.queue_index = self.queue_index - 1;
        } else {
            self.queue_index = self.queue.len() - 1;
        }
        self.load_command()
    }

    /// Moves the selection one line down, from the last line to the first.
    /// An empty listing keeps its selection at 0.
    pub fn next_item(&mut self)
        ensures
            final(self)@.valid(),
            final(self)@ == old(self)@.moved_down(),
            old(self)@.browser_items.len() == 0 ==> final(self)@.browser_index == 0,
    {
        proof {
            use_type_invariant(&*self);
        }
        if !self.browser_items.is_empty() {
            let len = self.browser_items.len();
            if self.browser_index + 1 < len {
                self.browser_index = self.browser_index + 1;
            } else {
                self.browser_index = 0;
            }
        }
    }

    /// Moves the selection one line up, from the first line to the last.
    /// An empty listing keeps its selection at 0.
    pub fn prev_item(&mut self)
        ensures
            final(self)@.valid(),
            final(self)@ == old(self)@.moved_up(),
            old(self)@.browser_items.len() == 0 ==> final(self)@.browser_index == 0,
    {
        proof {
            use_type_invariant(&*self);
        }
        if !self.browser_items.is_empty() {
            if self.browser_index > 0 {
                self.browser_index = self.browser_index - 1;
            } else {
                self.browser_index = self.browser_items.len() - 1;
            }
        }
    }

    /// Turns the volume one step up, no further than `MAX_VOLUME`, and asks
    /// for the output channel to follow.
    pub fn volume_up(&mut self) -> (cmd: Command)
        ensures
            final(self)@.valid(),
            final(self)@ == old(self)@.with_volume(old(self)@.louder()),
            cmd == Command::SetVolume(old(self)@.louder()),
            final(self)@.volume <= MAX_VOLUME,
    {
        proof {
            use_type_invariant(&*self);
        }
        if self.volume <= MAX_VOLUME - VOLUME_STEP {
            self.volume = self.volume + VOLUME_STEP;
        } else {
            self.volume = MAX_VOLUME;
        }
        Command::SetVolume(self.volume)
    }

    /// Turns the volume one step down, no further than 0, and asks for the
    /// output channel to follow.
    pub fn volume_down(&mut self) -> (cmd: Command)
        ensures
            final(self)@.valid(),
            final(self)@ == old(self)@.with_volume(old(self)@.quieter()),
            cmd == Command::SetVolume(old(self)@.quieter()),
            final(self)@.volume <= MAX_VOLUME,
    {
        proof {
            use_type_invariant(&*self);
        }
        if self.volume >= VOLUME_STEP {
            self.volume = self.volume - VOLUME_STEP;
        } else {
            self.volume = 0;
        }
        Command::SetVolume(self.volume)
    }

    /// The directory that the browser shows.
    pub fn current_directory(&self) -> (dir: &String)
        ensures
            *dir == self@.current_directory,
    {
        &self.current_directory
    }

    /// The lines of the browser.
    pub fn browser_items(&self) -> (items: &Vec<BrowserItem>)
        ensures
            items@ == self@.browser_items,
            is_listing(items@),
    {
        proof {
            use_type_invariant(self);
        }
        &self.browser_items
    }

    /// The selected line: a position in the listing, or 0 where it is empty.
    pub fn browser_index(&self) -> (index: usize)
        ensures
            index == self@.browser_index,
            index < self@.browser_items.len() || (self@.browser_items.len() == 0 && index == 0),
    {
        proof {
            use_type_invariant(self);
        }
        self.browser_index
    }

    /// The paths to be played, in order.
    pub fn queue(&self) -> (queue: &Vec<String>)
        ensures
            queue@ == self@.queue,
    {
        &self.queue
    }

    /// The current track: a position in the queue, or 0 where it is empty.
    pub fn queue_index(&self) -> (index: usize)
        ensures
            index == self@.queue_index,
            index < self@.queue.len() || (self@.queue.len() == 0 && index == 0),
    {
        proof {
            use_type_invariant(self);
        }
        self.queue_index
    }

    /// The volume, in percent.
    pub fn volume(&self) -> (volume: u8)
        ensures
            volume == self@.volume,
            volume <= MAX_VOLUME,
    {
        proof {
            use_type_invariant(self);
        }
        self.volume
    }

    /// Whether the player counts itself as playing.
    pub fn is_playing(&self) -> (playing: bool)
        ensures
            playing == self@.is_playing,
    {
        self.is_playing
    }

    /// The time that the current track has played, as the ticks add it up.
    pub fn elapsed(&self) -> (elapsed: Span)
        ensures
            elapsed == self@.elapsed,
    {
        self.elapsed
    }

    /// The total duration of the track that was loaded last, where known.
    pub fn duration(&self) -> (duration: Option<Span>)
        ensures
            duration == self@.duration,
    {
        self.duration
    }

    /// The ticks counted while playing.
    pub fn tick_counter(&self) -> (ticks: u64)
        ensures
            ticks == self@.tick_counter,
    {
        self.tick_counter
    }

    /// The command that loads the current queue item.
    fn load_command(&self) -> (cmd: Command)
        requires
            self@.queue.len() > 0,
        ensures
            cmd == self@.load_current(),
    {
        proof {
            use_type_invariant(self);
        }
        Command::Load { path: self.queue[self.queue_index].clone(), volume: self.volume }
    }
}

/// The position behind the current one is one more, modulo the length of
/// the queue.
pub proof fn lemma_next_index_is_modular(s: AppView)
    requires
        s.valid(),
        s.queue.len() > 0,
    ensures
        s.next_index() == (s.queue_index + 1) % s.queue.len(),
{
    if s.queue_index + 1 < s.queue.len() {
        vstd::arithmetic::div_mod::lemma_small_mod(s.queue_index + 1, s.queue.len());
    } else {
        vstd::arithmetic::div_mod::lemma_mod_self_0(s.queue.len() as int);
    }
}

/// As many skips to the next track as the queue is long lead back to the
/// state from which they started.
pub proof fn lemma_next_track_wraps_around(s: AppView)
    requires
        s.valid(),
        s.queue.len() > 0,
    ensures
        s.skipped_next_times(s.queue.len()) == s,
{
    lemma_skipped_next_times(s, s.queue.len());
    vstd::arithmetic::div_mod::lemma_mod_add_multiples_vanish(
        s.queue_index as int,
        s.queue.len() as int,
    );
    vstd::arithmetic::div_mod::lemma_small_mod(s.queue_index as nat, s.queue.len());
}

/// As many skips to the previous track as the queue is long lead back to
/// the state from which they started.
pub proof fn lemma_prev_track_wraps_around(s: AppView)
    requires
        s.valid(),
        s.queue.len() > 0,
    ensures
        s.skipped_prev_times(s.queue.len()) == s,
{
    lemma_skipped_prev_times(s, s.queue.len());
    vstd::arithmetic::div_mod::lemma_mod_sub_multiples_vanish(
        s.queue_index as int,
        s.queue.len() as int,
    );
    vstd::arithmetic::div_mod::lemma_small_mod(s.queue_index as nat, s.queue.len());
}

/// A skip to the previous track undoes a skip to the next one, and the
/// other way round.
pub proof fn lemma_skips_undo_each_other(s: AppView)
    requires
        s.valid(),
    ensures
        s.skipped_next().skipped_prev() == s,
        s.skipped_prev().skipped_next() == s,
{
}

/// After `n` skips to the next track the position has moved `n` places
/// round the queue, and nothing else has changed.
pub proof fn lemma_skipped_next_times(s: AppView, n: nat)
    requires
        s.valid(),
        s.queue.len() > 0,
    ensures
        s.skipped_next_times(n) == s.with_queue(
            s.queue,
            ((s.queue_index + n) % s.queue.len()) as nat,
        ),
    decreases n,
{
    let len = s.queue.len() as int;
    if n == 0 {
        vstd::arithmetic::div_mod::lemma_small_mod(s.queue_index as nat, s.queue.len());
    } else {
        lemma_skipped_next_times(s.skipped_next(), (n - 1) as nat);
        if s.queue_index + 1 >= len {
            vstd::arithmetic::div_mod::lemma_mod_add_multiples_vanish(n - 1, len);
        }
    }
}

/// After `n` skips to the previous track the position has moved `n` places
/// back round the queue, and nothing else has changed.
pub proof fn lemma_skipped_prev_times(s: AppView, n: nat)
    requires
        s.valid(),
        s.queue.len() > 0,
    ensures
        s.skipped_prev_times(n) == s.with_queue(
            s.queue,
            ((s.queue_index - n) % (s.queue.len() as int)) as nat,
        ),
    decreases n,
{
    let len = s.queue.len() as int;
    if n == 0 {
        vstd::arithmetic::div_mod::lemma_small_mod(s.queue_index as nat, s.queue.len());
    } else {
        lemma_skipped_prev_times(s.skipped_prev(), (n - 1) as nat);
        if s.queue_index == 0 {
            vstd::arithmetic::div_mod::lemma_mod_add_multiples_vanish(-(n as int), len);
        }
    }
}

/// The selected audio file of a listing is in the queue made of it.
proof fn lemma_queue_holds(items: Seq<BrowserItem>, selected: int)
    requires
        0 <= selected < items.len(),
        items[selected].file_type == FileType::AudioFile,
    ensures
        exists|k: int| 0 <= k < queue_of(items).len() && (#[trigger] queue_of(items)[k])
            == items[selected].path,
{
    let audio = |i: BrowserItem| i.file_type == FileType::AudioFile;
    items.lemma_filter_contains(audio, selected);
    let kept = items.filter(audio);
    let k = choose|k: int| 0 <= k < kept.len() && kept[k] == items[selected];
    assert(queue_of(items)[k] == items[selected].path);
}

/// Collects the paths of the audio files of a listing.
fn audio_queue(items: &Vec<BrowserItem>) -> (queue: Vec<String>)
    ensures
        queue@ == queue_of(items@),
{
    let mut queue: Vec<String> = Vec::new();
    let mut i: usize = 0;
    proof {
        assert(items@.take(0) =~= Seq::<BrowserItem>::empty());
        reveal(Seq::filter);
        assert(queue_of(items@.take(0)) =~= queue@);
    }
    while i < items.len()
        invariant
            i <= items@.len(),
            queue@ == queue_of(items@.take(i as int)),
        decreases items@.len() - i,
    {
        let item = &items[i];
        proof {
            let before = items@.take(i as int);
            let audio = |i: BrowserItem| i.file_type == FileType::AudioFile;
            let path = |i: BrowserItem| i.path;
            assert(items@.take(i + 1) =~= before.push(*item));
            before.lemma_filter_push(*item, audio);
            assert(before.filter(audio).push(*item).map_values(path) =~= before.filter(
                audio,
            ).map_values(path).push(item.path));
        }
        if item.file_type == FileType::AudioFile {
            queue.push(item.path.clone());
        }
        i = i + 1;
    }
    proof {
        assert(items@.take(items@.len() as int) =~= items@);
    }
    queue
}

/// Finds the first position of a queue that holds the given path.
fn first_position(queue: &Vec<String>, path: &str) -> (k: usize)
    requires
        exists|j: int| 0 <= j < queue@.len() && (#[trigger] queue@[j])@ == path@,
    ensures
        is_first_position(queue@, path@, k as int),
{
    let mut k: usize = 0;
    while k < queue.len() && !same_text(queue[k].as_str(), path)
        invariant
            k <= queue@.len(),
            forall|j: int| 0 <= j < k ==> (#[trigger] queue@[j])@ != path@,
        decreases queue@.len() - k,
    {
        k = k + 1;
    }
    k
}

} // verus!
