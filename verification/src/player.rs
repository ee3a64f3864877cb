//! The interactive player's state machine.
//!
//! Everything the player decides — selection movement, scroll clamping,
//! which track to start next, pause and volume transitions, auto-advance
//! when a track ends — is here, as pure transitions on [`App`].  Loading
//! track bytes, driving the audio sink and drawing the screen are left to
//! the surrounding process, which feeds the outcomes back in as plain
//! values (such as `sink_empty`).

use vstd::prelude::*;

use crate::ui::MAX_PLAYLIST_VISIBLE;

verus! {

/// One track as the player lists it: its table-of-contents entry, its
/// resolved absolute offset, and the display metadata the probe reported.
pub struct Track {
    /// The payload name recorded in the table of contents.
    pub name: String,
    /// The payload region's byte length.
    pub size: u64,
    /// The payload region's absolute byte offset in the container.
    pub offset: u64,
    /// Artist, as the metadata probe reported it.
    pub artist: String,
    /// Title, as the metadata probe reported it.
    pub title: String,
    /// Duration in whole seconds, as the metadata probe reported it.
    pub duration_secs: u64,
}

/// What the player is doing right now.
#[derive(Clone, Copy, Debug, PartialEq, Eq, Structural)]
pub enum PlayerState {
    /// No track is loaded into the sink.
    Stopped,
    /// The sink is playing the current track.
    Playing,
    /// The sink holds the current track, paused.
    Paused,
}

/// How many playlist rows fit on screen for a given track count.
pub open spec fn spec_visible(len: int) -> int {
    if len < MAX_PLAYLIST_VISIBLE {
        len
    } else {
        MAX_PLAYLIST_VISIBLE as int
    }
}

/// Where the playlist scrolls to so that the selection stays visible:
/// unchanged while the selection is already in the window, else moved the
/// shortest distance that brings it in.
pub open spec fn spec_scroll_after(scroll: int, selected: int, len: int) -> int {
    if selected < scroll {
        selected
    } else if selected >= scroll + spec_visible(len) {
        selected - spec_visible(len) + 1
    } else {
        scroll
    }
}

/// The player's whole decision state.
pub struct App {
    /// The cassette's tracks, in container order.
    pub tracks: Vec<Track>,
    /// The highlighted playlist position.
    pub selected_track: usize,
    /// What the sink is doing.
    pub player_state: PlayerState,
    /// Which track the sink holds, if any.
    pub current_track: Option<usize>,
    /// Volume step, `0 ..= 4`, one quarter of full volume each.
    pub volume: u8,
    /// First visible playlist row.
    pub playlist_scroll: usize,
    /// Set when the user asked to leave.
    pub should_quit: bool,
}

impl App {
    /// The state's internal consistency.
    pub open spec fn wf(self) -> bool {
        &&& self.tracks@.len() > 0
        &&& self.selected_track < self.tracks@.len()
        &&& self.volume <= 4
        &&& match self.current_track {
            Some(i) => i < self.tracks@.len(),
            None => true,
        }
    }

    /// Everything the event loop does not touch: the track list itself.
    pub open spec fn same_tracks(self, other: App) -> bool {
        self.tracks@ == other.tracks@
    }

    /// A player over the given tracks, stopped, with the first track
    /// selected and full volume.  A cassette with no tracks at all has no
    /// player state.
    pub fn new(tracks: Vec<Track>) -> (r: Option<App>)
        ensures
            match r {
                Some(app) => {
                    &&& tracks@.len() > 0
                    &&& app.wf()
                    &&& app.tracks@ == tracks@
                    &&& app.selected_track == 0
                    &&& app.player_state == PlayerState::Stopped
                    &&& app.current_track is None
                    &&& app.volume == 4
                    &&& app.playlist_scroll == 0
                    &&& !app.should_quit
                },
                None => tracks@.len() == 0,
            },
    {
        if tracks.len() == 0 {
            return None;
        }
        Some(
            App {
                tracks,
                selected_track: 0,
                player_state: PlayerState::Stopped,
                current_track: None,
                volume: 4,
                playlist_scroll: 0,
                should_quit: false,
            },
        )
    }

    /// Keep the selection inside the visible playlist window.
    fn update_scroll(&mut self)
        requires
            old(self).wf(),
        ensures
            final(self).wf(),
            final(self).same_tracks(*old(self)),
            final(self).selected_track == old(self).selected_track,
            final(self).player_state == old(self).player_state,
            final(self).current_track == old(self).current_track,
            final(self).volume == old(self).volume,
            final(self).should_quit == old(self).should_quit,
            final(self).playlist_scroll == spec_scroll_after(
                old(self).playlist_scroll as int,
                old(self).selected_track as int,
                old(self).tracks@.len() as int,
            ),
    {
        let len = self.tracks.len();
        let visible = if len < MAX_PLAYLIST_VISIBLE {
            len
        } else {
            MAX_PLAYLIST_VISIBLE
        };
        if self.selected_track < self.playlist_scroll {
            self.playlist_scroll = self.selected_track;
        } else if self.selected_track - self.playlist_scroll >= visible {
            self.playlist_scroll = self.selected_track - visible + 1;
        }
    }

    /// Move the selection one up, wrapping to the last track from the
    /// first.
    pub fn select_previous(&mut self)
        requires
            old(self).wf(),
        ensures
            final(self).wf(),
            final(self).same_tracks(*old(self)),
            final(self).selected_track as int == if old(self).selected_track == 0 {
                old(self).tracks@.len() - 1
            } else {
                old(self).selected_track - 1
            },
            final(self).playlist_scroll == spec_scroll_after(
                old(self).playlist_scroll as int,
                final(self).selected_track as int,
                old(self).tracks@.len() as int,
            ),
            final(self).player_state == old(self).player_state,
            final(self).current_track == old(self).current_track,
            final(self).volume == old(self).volume,
            final(self).should_quit == old(self).should_quit,
    {
        self.selected_track = if self.selected_track == 0 {
            self.tracks.len() - 1
        } else {
            self.selected_track - 1
        };
        self.update_scroll();
    }

    /// Move the selection one down, wrapping to the first track from the
    /// last.
    pub fn select_next(&mut self)
        requires
            old(self).wf(),
        ensures
            final(self).wf(),
            final(self).same_tracks(*old(self)),
            final(self).selected_track as int == if old(self).selected_track
                >= old(self).tracks@.len() - 1 {
                0
            } else {
                old(self).selected_track + 1
            },
            final(self).playlist_scroll == spec_scroll_after(
                old(self).playlist_scroll as int,
                final(self).selected_track as int,
                old(self).tracks@.len() as int,
            ),
            final(self).player_state == old(self).player_state,
            final(self).current_track == old(self).current_track,
            final(self).volume == old(self).volume,
            final(self).should_quit == old(self).should_quit,
    {
        self.selected_track = if self.selected_track >= self.tracks.len() - 1 {
            0
        } else {
            self.selected_track + 1
        };
        self.update_scroll();
    }

    /// Select a track directly, as a mouse click does.  Indices past the
    /// playlist are ignored; the scroll position is left alone, since a
    /// clicked row is visible already.
    pub fn select_track(&mut self, idx: usize)
        requires
            old(self).wf(),
        ensures
            final(self).wf(),
            final(self).same_tracks(*old(self)),
            final(self).selected_track == if idx < old(self).tracks@.len() {
                idx
            } else {
                old(self).selected_track
            },
            final(self).player_state == old(self).player_state,
            final(self).current_track == old(self).current_track,
            final(self).volume == old(self).volume,
            final(self).playlist_scroll == old(self).playlist_scroll,
            final(self).should_quit == old(self).should_quit,
    {
        if idx < self.tracks.len() {
            self.selected_track = idx;
        }
    }

    /// Make `idx` the current track and mark it playing.  Returns whether
    /// the caller should now load the track's bytes into the sink;
    /// indices past the playlist change nothing.
    pub fn play_track(&mut self, idx: usize) -> (started: bool)
        requires
            old(self).wf(),
        ensures
            final(self).wf(),
            final(self).same_tracks(*old(self)),
            final(self).volume == old(self).volume,
            final(self).should_quit == old(self).should_quit,
            started == (idx < old(self).tracks@.len()),
            if started {
                &&& final(self).player_state == PlayerState::Playing
                &&& final(self).current_track == Some(idx)
                &&& final(self).selected_track == idx
                &&& final(self).playlist_scroll == spec_scroll_after(
                    old(self).playlist_scroll as int,
                    idx as int,
                    old(self).tracks@.len() as int,
                )
            } else {
                &&& final(self).player_state == old(self).player_state
                &&& final(self).current_track == old(self).current_track
                &&& final(self).selected_track == old(self).selected_track
                &&& final(self).playlist_scroll == old(self).playlist_scroll
            },
    {
        if idx >= self.tracks.len() {
            return false;
        }
        self.current_track = Some(idx);
        self.selected_track = idx;
        self.update_scroll();
        self.player_state = PlayerState::Playing;
        true
    }

    /// Play the currently selected track.
    pub fn play_selected(&mut self) -> (started: bool)
        requires
            old(self).wf(),
        ensures
            final(self).wf(),
            final(self).same_tracks(*old(self)),
            started,
            final(self).player_state == PlayerState::Playing,
            final(self).current_track == Some(old(self).selected_track),
            final(self).selected_track == old(self).selected_track,
            final(self).playlist_scroll == spec_scroll_after(
                old(self).playlist_scroll as int,
                old(self).selected_track as int,
                old(self).tracks@.len() as int,
            ),
            final(self).volume == old(self).volume,
            final(self).should_quit == old(self).should_quit,
    {
        let idx = self.selected_track;
        self.play_track(idx)
    }

    /// Pause a playing track, resume a paused one, or start the selected
    /// track when stopped.  Returns whether the caller should now load
    /// the selected track's bytes into the sink.
    pub fn toggle_pause(&mut self) -> (start_playback: bool)
        requires
            old(self).wf(),
        ensures
            final(self).wf(),
            final(self).same_tracks(*old(self)),
            final(self).volume == old(self).volume,
            final(self).should_quit == old(self).should_quit,
            match old(self).player_state {
                PlayerState::Playing => {
                    &&& !start_playback
                    &&& final(self).player_state == PlayerState::Paused
                    &&& final(self).current_track == old(self).current_track
                    &&& final(self).selected_track == old(self).selected_track
                    &&& final(self).playlist_scroll == old(self).playlist_scroll
                },
                PlayerState::Paused => {
                    &&& !start_playback
                    &&& final(self).player_state == PlayerState::Playing
                    &&& final(self).current_track == old(self).current_track
                    &&& final(self).selected_track == old(self).selected_track
                    &&& final(self).playlist_scroll == old(self).playlist_scroll
                },
                PlayerState::Stopped => {
                    &&& start_playback
                    &&& final(self).player_state == PlayerState::Playing
                    &&& final(self).current_track == Some(old(self).selected_track)
                    &&& final(self).selected_track == old(self).selected_track
                    &&& final(self).playlist_scroll == spec_scroll_after(
                        old(self).playlist_scroll as int,
                        old(self).selected_track as int,
                        old(self).tracks@.len() as int,
                    )
                },
            },
    {
        match self.player_state {
            PlayerState::Playing => {
                self.player_state = PlayerState::Paused;
                false
            },
            PlayerState::Paused => {
                self.player_state = PlayerState::Playing;
                false
            },
            PlayerState::Stopped => self.play_selected(),
        }
    }

    /// Stop playback completely.
    pub fn stop(&mut self)
        requires
            old(self).wf(),
        ensures
            final(self).wf(),
            final(self).same_tracks(*old(self)),
            final(self).player_state == PlayerState::Stopped,
            final(self).current_track is None,
            final(self).selected_track == old(self).selected_track,
            final(self).playlist_scroll == old(self).playlist_scroll,
            final(self).volume == old(self).volume,
            final(self).should_quit == old(self).should_quit,
    {
        self.player_state = PlayerState::Stopped;
        self.current_track = None;
    }

    /// The track one past the current one, wrapping to the first; the
    /// selection when nothing is current.
    pub open spec fn spec_next_index(self) -> int {
        match self.current_track {
            Some(i) => if i + 1 >= self.tracks@.len() {
                0
            } else {
                i + 1
            },
            None => self.selected_track as int,
        }
    }

    /// The track one before the current one, wrapping to the last; the
    /// selection when nothing is current.
    pub open spec fn spec_previous_index(self) -> int {
        match self.current_track {
            Some(i) => if i == 0 {
                self.tracks@.len() - 1
            } else {
                i - 1
            },
            None => self.selected_track as int,
        }
    }

    /// Skip to the next track and mark it playing.  The caller loads the
    /// new current track's bytes.
    pub fn next_track(&mut self)
        requires
            old(self).wf(),
        ensures
            final(self).wf(),
            final(self).same_tracks(*old(self)),
            final(self).player_state == PlayerState::Playing,
            final(self).current_track == Some(old(self).spec_next_index() as usize),
            final(self).selected_track as int == old(self).spec_next_index(),
            final(self).playlist_scroll == spec_scroll_after(
                old(self).playlist_scroll as int,
                old(self).spec_next_index(),
                old(self).tracks@.len() as int,
            ),
            final(self).volume == old(self).volume,
            final(self).should_quit == old(self).should_quit,
    {
        let next = match self.current_track {
            Some(idx) => if idx >= self.tracks.len() - 1 {
                0
            } else {
                idx + 1
            },
            None => self.selected_track,
        };
        self.play_track(next);
    }

    /// Skip to the previous track and mark it playing.  The caller loads
    /// the new current track's bytes.
    pub fn previous_track(&mut self)
        requires
            old(self).wf(),
        ensures
            final(self).wf(),
            final(self).same_tracks(*old(self)),
            final(self).player_state == PlayerState::Playing,
            final(self).current_track == Some(old(self).spec_previous_index() as usize),
            final(self).selected_track as int == old(self).spec_previous_index(),
            final(self).playlist_scroll == spec_scroll_after(
                old(self).playlist_scroll as int,
                old(self).spec_previous_index(),
                old(self).tracks@.len() as int,
            ),
            final(self).volume == old(self).volume,
            final(self).should_quit == old(self).should_quit,
    {
        let prev = match self.current_track {
            Some(idx) => if idx == 0 {
                self.tracks.len() - 1
            } else {
                idx - 1
            },
            None => self.selected_track,
        };
        self.play_track(prev);
    }

    /// Raise the volume one step, capped at full.
    pub fn volume_up(&mut self)
        requires
            old(self).wf(),
        ensures
            final(self).wf(),
            final(self).same_tracks(*old(self)),
            final(self).volume == if old(self).volume < 4 {
                (old(self).volume + 1) as u8
            } else {
                old(self).volume
            },
            final(self).player_state == old(self).player_state,
            final(self).current_track == old(self).current_track,
            final(self).selected_track == old(self).selected_track,
            final(self).playlist_scroll == old(self).playlist_scroll,
            final(self).should_quit == old(self).should_quit,
    {
        if self.volume < 4 {
            self.volume = self.volume + 1;
        }
    }

    /// Lower the volume one step, capped at silent.
    pub fn volume_down(&mut self)
        requires
            old(self).wf(),
        ensures
            final(self).wf(),
            final(self).same_tracks(*old(self)),
            final(self).volume == if old(self).volume > 0 {
                (old(self).volume - 1) as u8
            } else {
                old(self).volume
            },
            final(self).player_state == old(self).player_state,
            final(self).current_track == old(self).current_track,
            final(self).selected_track == old(self).selected_track,
            final(self).playlist_scroll == old(self).playlist_scroll,
            final(self).should_quit == old(self).should_quit,
    {
        if self.volume > 0 {
            self.volume = self.volume - 1;
        }
    }

    /// React to the sink having drained: advance to the next track while
    /// one remains, stop after the last.  Returns whether the caller
    /// should now load the new current track's bytes.
    pub fn check_track_finished(&mut self, sink_empty: bool) -> (start_playback: bool)
        requires
            old(self).wf(),
        ensures
            final(self).wf(),
            final(self).same_tracks(*old(self)),
            final(self).volume == old(self).volume,
            final(self).should_quit == old(self).should_quit,
            if sink_empty && old(self).player_state == PlayerState::Playing && old(
                self,
            ).current_track is Some {
                let i = old(self).current_track.unwrap() as int;
                if i + 1 < old(self).tracks@.len() {
                    &&& start_playback
                    &&& final(self).player_state == PlayerState::Playing
                    &&& final(self).current_track == Some((i + 1) as usize)
                    &&& final(self).selected_track as int == i + 1
                    &&& final(self).playlist_scroll == spec_scroll_after(
                        old(self).playlist_scroll as int,
                        i + 1,
                        old(self).tracks@.len() as int,
                    )
                } else {
                    &&& !start_playback
                    &&& final(self).player_state == PlayerState::Stopped
                    &&& final(self).current_track is None
                    &&& final(self).selected_track == old(self).selected_track
                    &&& final(self).playlist_scroll == old(self).playlist_scroll
                }
            } else {
                &&& !start_playback
                &&& final(self).player_state == old(self).player_state
                &&& final(self).current_track == old(self).current_track
                &&& final(self).selected_track == old(self).selected_track
                &&& final(self).playlist_scroll == old(self).playlist_scroll
            },
    {
        if sink_empty && matches!(self.player_state, PlayerState::Playing) {
            match self.current_track {
                Some(idx) => {
                    if idx < self.tracks.len() - 1 {
                        self.next_track();
                        true
                    } else {
                        self.stop();
                        false
                    }
                },
                None => false,
            }
        } else {
            false
        }
    }
}

/// One tick of the progress clock: `None` when the clock must stop (its
/// playback is over, superseded, or past the track's duration), the
/// unchanged count while paused, and one more second otherwise.
pub fn progress_tick(
    elapsed: u64,
    duration: u64,
    playing: bool,
    paused: bool,
    generation_matches: bool,
) -> (r: Option<u64>)
    ensures
        r == if !playing || !generation_matches || elapsed >= duration {
            None::<u64>
        } else if paused {
            Some(elapsed)
        } else {
            Some((elapsed + 1) as u64)
        },
{
    if !playing || !generation_matches || elapsed >= duration {
        None
    } else if paused {
        Some(elapsed)
    } else {
        Some(elapsed + 1)
    }
}

} // verus!
