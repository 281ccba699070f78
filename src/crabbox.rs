//! The playback engine: the one place where a command is interpreted against the
//! library, the queue, the tag bindings and what is playing.
//!
//! The engine does no I/O. For each command it updates its state and hands back
//! the actions that the caller carries out in order: stopping, starting or pausing
//! the player, saving the queue, persisting a tag binding, shutting down. When an
//! action starts a track, the caller reports how that went with `record_playback`.
use vstd::prelude::*;

use crate::bindings::{lemma_sorted_unique, TagBindings};
use crate::command::{command_opt, parse_command, parse_spec, Command, CommandView};
use crate::config::Config;
use crate::glob::{glob_source, regex_compiles};
use crate::library::{listed_among, sorted, text_lt, Library};
use crate::queue::{restored_model, Queue, QueueModel};
use crate::state::State;
use crate::tag::TagId;
use crate::text::{chars_of, trim, trim_bounds};

verus! {

/// What the caller knows of the player when a command comes in.
pub struct PlayerState {
    /// A track is loaded, playing or paused.
    pub has_sink: bool,
    pub paused: bool,
}

/// How an attempt to play, or to toggle play and pause, ended.
#[derive(Debug, PartialEq, Eq)]
pub enum ToggleResult {
    Started(String),
    Toggled,
    Stopped,
}

/// One thing for the caller to do.
#[derive(Debug, PartialEq, Eq)]
pub enum Action {
    StopPlayer,
    /// Stop whatever plays, then play this track and watch for its end.
    Play { track: String },
    Pause,
    Resume,
    VolumeUp,
    VolumeDown,
    /// Write the queue and cursor to the state file at `path`.
    SaveState { path: String, state: State },
    /// Write a tag's binding (none: its removal) into the configuration document.
    PersistTag { id: TagId, command: Option<Command> },
    /// Play this sound to its end before going on.
    PlaySound { path: String },
    ShutdownHost,
}

pub enum ActionView {
    StopPlayer,
    Play(String),
    Pause,
    Resume,
    VolumeUp,
    VolumeDown,
    SaveState(Seq<char>, Seq<String>, Option<int>),
    PersistTag(TagId, Option<CommandView>),
    PlaySound(Seq<char>),
    ShutdownHost,
}

impl View for Action {
    type V = ActionView;

    open spec fn view(&self) -> ActionView {
        match self {
            Action::StopPlayer => ActionView::StopPlayer,
            Action::Play { track } => ActionView::Play(*track),
            Action::Pause => ActionView::Pause,
            Action::Resume => ActionView::Resume,
            Action::VolumeUp => ActionView::VolumeUp,
            Action::VolumeDown => ActionView::VolumeDown,
            Action::SaveState { path, state } => ActionView::SaveState(
                path@,
                state.queue@,
                match state.position {
                    Some(i) => Some(i as int),
                    None => None,
                },
            ),
            Action::PersistTag { id, command } => ActionView::PersistTag(*id, command_opt(*command)),
            Action::PlaySound { path } => ActionView::PlaySound(path@),
            Action::ShutdownHost => ActionView::ShutdownHost,
        }
    }
}

pub open spec fn actions_view(v: Seq<Action>) -> Seq<ActionView> {
    v.map_values(|a: Action| a@)
}

/// Starting a track, if there is one.
pub open spec fn play_actions(track: Option<String>) -> Seq<ActionView> {
    match track {
        Some(t) => seq![ActionView::Play(t)],
        None => Seq::empty(),
    }
}

/// Saving the queue, if a state file is configured.
pub open spec fn save_actions(state_file: Option<Seq<char>>, q: QueueModel) -> Seq<ActionView> {
    match state_file {
        Some(p) => seq![ActionView::SaveState(p, q.tracks, q.cursor)],
        None => Seq::empty(),
    }
}

/// Playing the shutdown sound, if one is configured.
pub open spec fn sound_actions(sound: Option<Seq<char>>) -> Seq<ActionView> {
    match sound {
        Some(p) => seq![ActionView::PlaySound(p)],
        None => Seq::empty(),
    }
}

/// `tracks` is what the library lists from `found` under `filter`: sorted when
/// `ordered`, in any order otherwise.
pub open spec fn rebuilt(
    tracks: Seq<String>,
    found: Seq<String>,
    filter: Option<Seq<char>>,
    ordered: bool,
) -> bool {
    let source = match filter {
        Some(f) => Some(glob_source(f)),
        None => None,
    };
    if filter matches Some(f) && !regex_compiles(glob_source(f)) {
        tracks.len() == 0
    } else {
        &&& tracks.to_multiset() == listed_among(found, source).to_multiset()
        &&& ordered ==> sorted(tracks)
    }
}

/// What binding text stands for: `Some(None)` removes the binding (no text, or blank
/// text), `Some(Some(c))` binds `c`, and `None` is text that is no command.
pub open spec fn binding_of(text: Option<Seq<char>>) -> Option<Option<CommandView>> {
    match text {
        None => Some(None),
        Some(t) => if trim(t).len() == 0 {
            Some(None)
        } else {
            match parse_spec(t) {
                Some(c) => Some(Some(c)),
                None => None,
            }
        },
    }
}

struct PlaybackStatus {
    current: Option<String>,
    last_tag: Option<TagId>,
}

/// A read-only copy of the engine's state, for observers.
pub struct CrabboxSnapshot {
    pub current: Option<String>,
    pub queue: Vec<String>,
    pub queue_position: Option<usize>,
    pub tags: Vec<(TagId, Command)>,
    pub last_tag: Option<TagId>,
    pub last_tag_command: Option<Command>,
}

pub struct Crabbox {
    library: Library,
    queue: Queue,
    tags: TagBindings,
    status: PlaybackStatus,
    shutdown_sound: Option<String>,
    state_file: Option<String>,
    config_path: String,
    config_backup_dir: Option<String>,
}

/// The text of an optional string.
pub open spec fn opt_text(o: Option<String>) -> Option<Seq<char>> {
    match o {
        Some(s) => Some(s@),
        None => None,
    }
}

impl Crabbox {
    pub closed spec fn wf(&self) -> bool {
        self.queue.wf() && self.tags.wf()
    }

    pub closed spec fn queue(&self) -> QueueModel {
        self.queue@
    }

    /// The track considered current: playing, paused, or where playback would resume.
    pub closed spec fn current(&self) -> Option<String> {
        self.status.current
    }

    pub closed spec fn last_tag(&self) -> Option<TagId> {
        self.status.last_tag
    }

    pub open spec fn bound(&self, id: TagId) -> Option<CommandView> {
        self.bindings().bound(id)
    }

    pub closed spec fn bindings(&self) -> TagBindings {
        self.tags
    }

    pub closed spec fn state_file(&self) -> Option<Seq<char>> {
        opt_text(self.state_file)
    }

    pub closed spec fn shutdown_sound(&self) -> Option<Seq<char>> {
        opt_text(self.shutdown_sound)
    }

    /// The library and the configured paths are those of `other`.
    pub closed spec fn same_setup(&self, other: &Crabbox) -> bool {
        &&& self.library.dirs() == other.library.dirs()
        &&& self.state_file == other.state_file
        &&& self.shutdown_sound == other.shutdown_sound
        &&& self.config_path == other.config_path
        &&& self.config_backup_dir == other.config_backup_dir
    }

    /// The tag bindings are those of `other`.
    pub open spec fn same_tags(&self, other: &Crabbox) -> bool {
        forall|id: TagId| #[trigger] self.bound(id) == other.bound(id)
    }

    /// What a command other than `Tag` does: `post` is the engine after `pre` handled
    /// `c`, with the player as `player` and `found` the files under the library's
    /// directories, and `acts` the actions handed back.
    pub open spec fn handled(
        pre: &Crabbox,
        post: &Crabbox,
        c: CommandView,
        player: PlayerState,
        found: Seq<String>,
        acts: Seq<ActionView>,
    ) -> bool {
        let q0 = pre.queue();
        let q1 = post.queue();
        let save = save_actions(post.state_file(), q1);
        match c {
            CommandView::Play { filter } => Self::rebuilds(pre, post, filter, true, found, acts),
            CommandView::Shuffle { filter } => Self::rebuilds(pre, post, filter, false, found, acts),
            CommandView::PlayPause { filter } => match filter {
                Some(_) => Self::rebuilds(pre, post, filter, true, found, acts),
                None => {
                    &&& q1 == q0
                    &&& post.same_tags(pre)
                    &&& if player.has_sink {
                        &&& post.current() == pre.current()
                        &&& acts == seq![
                            if player.paused {
                                ActionView::Resume
                            } else {
                                ActionView::Pause
                            },
                        ] + save
                    } else {
                        &&& post.current() is None
                        &&& acts == play_actions(q0.current()) + save
                    }
                },
            },
            CommandView::Stop => {
                &&& q1 == q0
                &&& post.same_tags(pre)
                &&& post.current() is None
                &&& acts == seq![ActionView::StopPlayer] + save
            },
            CommandView::Next | CommandView::TrackDone => {
                &&& q1 == q0.forward()
                &&& post.same_tags(pre)
                &&& post.current() is None
                &&& acts == play_actions(q1.current()) + save
            },
            CommandView::Prev => {
                &&& q1 == q0.backward()
                &&& post.same_tags(pre)
                &&& post.current() is None
                &&& acts == play_actions(q1.current()) + save
            },
            CommandView::VolumeUp => {
                &&& q1 == q0
                &&& post.same_tags(pre)
                &&& post.current() == pre.current()
                &&& acts == seq![ActionView::VolumeUp]
            },
            CommandView::VolumeDown => {
                &&& q1 == q0
                &&& post.same_tags(pre)
                &&& post.current() == pre.current()
                &&& acts == seq![ActionView::VolumeDown]
            },
            CommandView::Shutdown => {
                &&& q1 == q0
                &&& post.same_tags(pre)
                &&& post.current() is None
                &&& acts == seq![ActionView::StopPlayer] + save + sound_actions(
                    post.shutdown_sound(),
                ) + seq![ActionView::ShutdownHost]
            },
            CommandView::AssignTag { id, command } => {
                &&& q1 == q0
                &&& post.current() == pre.current()
                &&& forall|other: TagId|
                    other.bytes@ != id.bytes@ ==> #[trigger] post.bound(other) == pre.bound(other)
                &&& match binding_of(command) {
                    Some(b) => post.bound(id) == b && acts == seq![ActionView::PersistTag(id, b)],
                    None => post.bound(id) == pre.bound(id) && acts == Seq::<ActionView>::empty(),
                }
            },
            CommandView::Tag { .. } => true,
        }
    }

    /// The queue was rebuilt from the library under `filter` and its first track, if
    /// any, is started after the player is stopped.
    pub open spec fn rebuilds(
        pre: &Crabbox,
        post: &Crabbox,
        filter: Option<Seq<char>>,
        ordered: bool,
        found: Seq<String>,
        acts: Seq<ActionView>,
    ) -> bool {
        let q1 = post.queue();
        &&& rebuilt(q1.tracks, found, filter, ordered)
        &&& q1.cursor == (if q1.tracks.len() == 0 {
            None
        } else {
            Some(0int)
        })
        &&& post.same_tags(pre)
        &&& post.current() is None
        &&& acts == seq![ActionView::StopPlayer] + play_actions(q1.current()) + save_actions(
            post.state_file(),
            q1,
        )
    }

    /// The engine as configured, with the queue restored from `restored` when given.
    pub fn new(config: &Config, restored: Option<State>) -> (r: Crabbox)
        requires
            config.tags.wf(),
        ensures
            r.wf(),
            r.queue() == match restored {
                Some(s) => restored_model(s),
                None => QueueModel { tracks: Seq::empty(), cursor: None },
            },
            r.current() == r.queue().current(),
            r.last_tag() is None,
            forall|id: TagId| #[trigger] r.bound(id) == config.tags.bound(id),
            r.state_file() == opt_text(config.state_file),
            r.shutdown_sound() == opt_text(config.server.shutdown_sound),
            r.directories().len() == config.music@.len(),
            forall|i: int|
                0 <= i < config.music@.len() ==> #[trigger] r.directories()[i]
                    == config.music@[i].dir,
            r.config_file() == config.path@,
            r.backup_dir() == opt_text(config.backup_dir),
    {
        let library = Library::new(&config.music);
        let queue = match restored {
            Some(state) => Queue::from_state(state),
            None => {
                let q = Queue::empty();
                assert(q@.tracks =~= Seq::<String>::empty());
                q
            },
        };
        let current = queue.current_track();
        Crabbox {
            library,
            queue,
            tags: config.tags.duplicate(),
            status: PlaybackStatus { current, last_tag: None },
            shutdown_sound: config.server.shutdown_sound.clone(),
            state_file: config.state_file.clone(),
            config_path: config.path.clone(),
            config_backup_dir: config.backup_dir.clone(),
        }
    }

    pub fn library(&self) -> (r: &Library)
        ensures
            r.dirs() == self.directories(),
    {
        &self.library
    }

    pub closed spec fn directories(&self) -> Seq<String> {
        self.library.dirs()
    }

    pub fn music_directories(&self) -> (r: Vec<String>)
        ensures
            r@ == self.directories(),
    {
        self.library.directories().clone()
    }

    /// The configuration file that tag bindings are written into.
    pub closed spec fn config_file(&self) -> Seq<char> {
        self.config_path@
    }

    /// Where backup copies of the configuration go, if anywhere.
    pub closed spec fn backup_dir(&self) -> Option<Seq<char>> {
        opt_text(self.config_backup_dir)
    }

    pub fn config_path(&self) -> (r: &String)
        ensures
            r@ == self.config_file(),
    {
        &self.config_path
    }

    pub fn config_backup_dir(&self) -> (r: &Option<String>)
        ensures
            opt_text(*r) == self.backup_dir(),
    {
        &self.config_backup_dir
    }

    /// Whether handling `cmd` lists the library, so that the caller has to hand over
    /// the files found under its directories.
    pub fn needs_library(&self, cmd: &Command) -> (r: bool)
        ensures
            r == match cmd@ {
                CommandView::Play { .. } | CommandView::Shuffle { .. } => true,
                CommandView::PlayPause { filter } => filter is Some,
                CommandView::Tag { id } => match self.bound(id) {
                    Some(CommandView::Play { .. }) | Some(CommandView::Shuffle { .. }) => true,
                    Some(CommandView::PlayPause { filter }) => filter is Some,
                    _ => false,
                },
                _ => false,
            },
    {
        match cmd {
            Command::Play { .. } | Command::Shuffle { .. } => true,
            Command::PlayPause { filter } => filter.is_some(),
            Command::Tag { id } => match self.tags.get(id) {
                Some(Command::Play { .. }) | Some(Command::Shuffle { .. }) => true,
                Some(Command::PlayPause { filter }) => filter.is_some(),
                _ => false,
            },
            _ => false,
        }
    }

    fn push_save(&self, actions: &mut Vec<Action>)
        ensures
            actions_view(final(actions)@) == actions_view(old(actions)@) + save_actions(
                self.state_file(),
                self.queue(),
            ),
    {
        let ghost before = actions_view(actions@);
        match &self.state_file {
            Some(path) => {
                let state = self.queue.to_state();
                actions.push(Action::SaveState { path: path.clone(), state });
                assert(actions_view(actions@) =~= before + save_actions(
                    self.state_file(),
                    self.queue(),
                ));
            },
            None => {
                assert(actions_view(actions@) =~= before + save_actions(
                    self.state_file(),
                    self.queue(),
                ));
            },
        }
    }

    fn push_play(actions: &mut Vec<Action>, track: Option<String>)
        ensures
            actions_view(final(actions)@) == actions_view(old(actions)@) + play_actions(track),
    {
        let ghost before = actions_view(actions@);
        match track {
            Some(t) => {
                actions.push(Action::Play { track: t });
            },
            None => {},
        }
        assert(actions_view(actions@) =~= before + play_actions(track));
    }

    fn push_one(actions: &mut Vec<Action>, a: Action)
        ensures
            actions_view(final(actions)@) == actions_view(old(actions)@) + seq![a@],
    {
        let ghost before = actions_view(actions@);
        actions.push(a);
        assert(actions_view(actions@) =~= before + seq![a@]);
    }

    /// Replaces the queue with the library's tracks under `filter`, in order or shuffled,
    /// stops the player and starts the first track.
    fn rebuild_and_play(
        &mut self,
        filter: Option<String>,
        ordered: bool,
        found: Vec<String>,
    ) -> (r: Vec<Action>)
        requires
            old(self).wf(),
        ensures
            final(self).wf(),
            final(self).same_setup(old(self)),
            final(self).last_tag() == old(self).last_tag(),
            Self::rebuilds(old(self), final(self), opt_text(filter), ordered, found@, actions_view(r@)),
    {
        let ghost f = opt_text(filter);
        let tracks = self.library.list_tracks(found, filter);
        assert(rebuilt(tracks@, found@, f, true));
        if ordered {
            self.queue = Queue::from_tracks_ordered(tracks);
        } else {
            self.queue = Queue::from_tracks_shuffled(tracks);
        }
        self.status.current = None;
        let mut actions: Vec<Action> = Vec::new();
        Self::push_one(&mut actions, Action::StopPlayer);
        let track = self.queue.current_track();
        Self::push_play(&mut actions, track);
        self.push_save(&mut actions);
        assert(actions_view(actions@) =~= seq![ActionView::StopPlayer] + play_actions(
            self.queue().current(),
        ) + save_actions(self.state_file(), self.queue()));
        actions
    }

    /// Handles a command other than `Tag`.
    fn run(&mut self, cmd: Command, player: PlayerState, found: Vec<String>) -> (r: Vec<Action>)
        requires
            old(self).wf(),
        ensures
            final(self).wf(),
            final(self).same_setup(old(self)),
            final(self).last_tag() == old(self).last_tag(),
            Self::handled(old(self), final(self), cmd@, player, found@, actions_view(r@)),
    {
        let ghost c = cmd@;
        let mut actions: Vec<Action> = Vec::new();
        assert(actions_view(actions@) =~= Seq::<ActionView>::empty());
        match cmd {
            Command::Play { filter } => {
                return self.rebuild_and_play(filter, true, found);
            },
            Command::Shuffle { filter } => {
                return self.rebuild_and_play(filter, false, found);
            },
            Command::PlayPause { filter } => {
                if filter.is_some() {
                    return self.rebuild_and_play(filter, true, found);
                }
                if player.has_sink {
                    if player.paused {
                        Self::push_one(&mut actions, Action::Resume);
                    } else {
                        Self::push_one(&mut actions, Action::Pause);
                    }
                } else {
                    let track = self.queue.current_track();
                    self.status.current = None;
                    Self::push_play(&mut actions, track);
                }
                self.push_save(&mut actions);
            },
            Command::Stop => {
                Self::push_one(&mut actions, Action::StopPlayer);
                self.status.current = None;
                self.push_save(&mut actions);
            },
            Command::Next | Command::TrackDone => {
                let track = self.queue.next_track();
                self.status.current = None;
                Self::push_play(&mut actions, track);
                self.push_save(&mut actions);
            },
            Command::Prev => {
                let track = self.queue.prev_track();
                self.status.current = None;
                Self::push_play(&mut actions, track);
                self.push_save(&mut actions);
            },
            Command::VolumeUp => {
                Self::push_one(&mut actions, Action::VolumeUp);
            },
            Command::VolumeDown => {
                Self::push_one(&mut actions, Action::VolumeDown);
            },
            Command::Shutdown => {
                Self::push_one(&mut actions, Action::StopPlayer);
                self.status.current = None;
                self.push_save(&mut actions);
                match &self.shutdown_sound {
                    Some(path) => {
                        Self::push_one(&mut actions, Action::PlaySound { path: path.clone() });
                    },
                    None => {},
                }
                Self::push_one(&mut actions, Action::ShutdownHost);
                assert(actions_view(actions@) =~= seq![ActionView::StopPlayer] + save_actions(
                    self.state_file(),
                    self.queue(),
                ) + sound_actions(self.shutdown_sound()) + seq![ActionView::ShutdownHost]);
            },
            Command::AssignTag { id, command } => {
                self.assign_tag(id, command, &mut actions);
            },
            Command::Tag { .. } => {},
        }
        actions
    }

    /// Binds `id` to the command that `text` stands for, or removes its binding when
    /// there is no text; text that is no command is ignored.
    fn assign_tag(&mut self, id: TagId, text: Option<String>, actions: &mut Vec<Action>)
        requires
            old(self).wf(),
            actions_view(old(actions)@).len() == 0,
        ensures
            final(self).wf(),
            final(self).same_setup(old(self)),
            final(self).last_tag() == old(self).last_tag(),
            final(self).queue() == old(self).queue(),
            final(self).current() == old(self).current(),
            forall|other: TagId|
                other.bytes@ != id.bytes@ ==> #[trigger] final(self).bound(other) == old(self).bound(
                    other,
                ),
            match binding_of(opt_text(text)) {
                Some(b) => final(self).bound(id) == b && actions_view(final(actions)@) == seq![
                    ActionView::PersistTag(id, b),
                ],
                None => final(self).bound(id) == old(self).bound(id) && actions_view(
                    final(actions)@,
                ) == Seq::<ActionView>::empty(),
            },
    {
        let blank = match &text {
            None => true,
            Some(t) => {
                let v = chars_of(t.as_str());
                let (a, b) = trim_bounds(&v, 0, v.len());
                assert(v@.subrange(0, v.len() as int) =~= t@);
                a == b
            },
        };
        if blank {
            self.tags.remove(&id);
            Self::push_one(actions, Action::PersistTag { id, command: None });
            return ;
        }
        let t = match text {
            Some(t) => t,
            None => String::new(),
        };
        match parse_command(t.as_str()) {
            Some(c) => {
                let stored = c.duplicate();
                self.tags.insert(id, stored);
                Self::push_one(actions, Action::PersistTag { id, command: Some(c) });
            },
            None => {},
        }
    }

    /// Handles one command, with the player as `player` and, when `needs_library` says
    /// so, `found` the files under the library's directories.
    ///
    /// `Tag` records the tag as the last one seen, then handles the command bound to
    /// it; a tag bound to another `Tag` command, or to nothing, does nothing more.
    pub fn process_command(&mut self, cmd: Command, player: PlayerState, found: Vec<String>) -> (r:
        Vec<Action>)
        requires
            old(self).wf(),
        ensures
            final(self).wf(),
            final(self).same_setup(old(self)),
            !(cmd is Tag) ==> final(self).last_tag() == old(self).last_tag() && Self::handled(
                old(self),
                final(self),
                cmd@,
                player,
                found@,
                actions_view(r@),
            ),
            cmd matches Command::Tag { id } ==> {
                &&& final(self).last_tag() == Some(id)
                &&& match old(self).bound(id) {
                    Some(b) => if b is Tag {
                        &&& final(self).queue() == old(self).queue()
                        &&& final(self).current() == old(self).current()
                        &&& final(self).same_tags(old(self))
                        &&& r@.len() == 0
                    } else {
                        Self::handled(old(self), final(self), b, player, found@, actions_view(r@))
                    },
                    None => {
                        &&& final(self).queue() == old(self).queue()
                        &&& final(self).current() == old(self).current()
                        &&& final(self).same_tags(old(self))
                        &&& r@.len() == 0
                    },
                }
            },
    {
        match cmd {
            Command::Tag { id } => {
                let bound = self.tags.get(&id);
                self.status.last_tag = Some(id);
                let ghost mid = *self;
                assert(mid.same_tags(old(self)));
                match bound {
                    Some(Command::Tag { .. }) => Vec::new(),
                    Some(mapped) => {
                        let r = self.run(mapped, player, found);
                        assert(Self::handled(&mid, self, old(self).bound(id)->0, player, found@, actions_view(r@)));
                        r
                    },
                    None => Vec::new(),
                }
            },
            _ => self.run(cmd, player, found),
        }
    }

    /// Records how starting a track, or toggling play and pause, ended.
    pub fn record_playback(&mut self, result: ToggleResult)
        requires
            old(self).wf(),
        ensures
            final(self).wf(),
            final(self).same_setup(old(self)),
            final(self).queue() == old(self).queue(),
            final(self).same_tags(old(self)),
            final(self).last_tag() == old(self).last_tag(),
            final(self).current() == match result {
                ToggleResult::Started(t) => Some(t),
                ToggleResult::Stopped => None,
                ToggleResult::Toggled => old(self).current(),
            },
    {
        match result {
            ToggleResult::Started(t) => {
                self.status.current = Some(t);
            },
            ToggleResult::Stopped => {
                self.status.current = None;
            },
            ToggleResult::Toggled => {},
        }
    }

    pub fn snapshot(&self) -> (r: CrabboxSnapshot)
        requires
            self.wf(),
        ensures
            r.current == self.current(),
            r.queue@ == self.queue().tracks,
            r.queue_position matches Some(i) ==> self.queue().cursor == Some(i as int),
            r.queue_position matches Some(i) ==> i < r.queue@.len(),
            r.queue_position is None ==> self.queue().cursor is None,
            r.last_tag == self.last_tag(),
            r.last_tag matches Some(id) ==> command_opt(r.last_tag_command) == self.bound(id),
            r.last_tag is None ==> r.last_tag_command is None,
            forall|i: int|
                0 <= i < r.tags@.len() ==> self.bound((#[trigger] r.tags@[i]).0) == Some(
                    r.tags@[i].1@,
                ),
            forall|id: TagId|
                #[trigger] self.bound(id) is Some ==> exists|i: int|
                    0 <= i < r.tags@.len() && (#[trigger] r.tags@[i]).0.bytes@ == id.bytes@,
            forall|i: int, j: int|
                0 <= i < j < r.tags@.len() ==> text_lt(
                    (#[trigger] r.tags@[i]).0.hex(),
                    (#[trigger] r.tags@[j]).0.hex(),
                ) && r.tags@[i].0.bytes@ != r.tags@[j].0.bytes@,
    {
        let last_tag_command = match &self.status.last_tag {
            Some(id) => self.tags.get(id),
            None => None,
        };
        let tags = self.tags.to_vec();
        proof {
            assert forall|i: int| 0 <= i < tags@.len() implies self.bound(
                (#[trigger] tags@[i]).0,
            ) == Some(tags@[i].1@) by {
                self.tags.lemma_entry_bound(i);
                assert(tags@[i].0 == self.tags.entries()[i].0);
            }
            assert forall|id: TagId| #[trigger] self.bound(id) is Some implies exists|i: int|
                0 <= i < tags@.len() && (#[trigger] tags@[i]).0.bytes@ == id.bytes@ by {
                self.tags.lemma_bound_has_entry(id);
                let i = choose|i: int|
                    0 <= i < self.tags.entries().len() && (#[trigger] self.tags.entries()[i]).0.bytes@
                        == id.bytes@;
                assert(tags@[i].0 == self.tags.entries()[i].0);
            }
            lemma_sorted_unique(self.tags.entries());
            assert forall|i: int, j: int| 0 <= i < j < tags@.len() implies text_lt(
                (#[trigger] tags@[i]).0.hex(),
                (#[trigger] tags@[j]).0.hex(),
            ) && tags@[i].0.bytes@ != tags@[j].0.bytes@ by {
                assert(tags@[i].0 == self.tags.entries()[i].0);
                assert(tags@[j].0 == self.tags.entries()[j].0);
            }
        }
        CrabboxSnapshot {
            current: self.status.current.clone(),
            queue: self.queue.tracks().clone(),
            queue_position: self.queue.position(),
            tags,
            last_tag: self.status.last_tag,
            last_tag_command,
        }
    }
}

} // verus!
