//! The jukebox: albums and tracks as the library stores them, the browsing
//! state of the widget, and the equaliser animation.
use vstd::prelude::*;
use crate::json::{get_i64, get_str, JsonValue};
use crate::text::{decimal, owned, push_char, push_decimal, str_eq};
use vstd::string::StringExecFns;

verus! {

/// An album of the library.
pub struct Album {
    pub id: i64,
    pub module_name: String,
    pub title: String,
    pub artist: String,
    pub year: Option<i32>,
    pub genre: Option<String>,
    pub credits: Option<String>,
}

/// A track of an album.
pub struct Track {
    pub id: i64,
    pub album_id: i64,
    pub track_number: i32,
    pub title: String,
    pub duration_seconds: Option<i32>,
    pub file_path: String,
    pub artist: Option<String>,
}

/// What the jukebox widget shows.
#[derive(Clone, Copy, Debug, PartialEq, Eq, Structural)]
pub enum JukeboxMode {
    Playing,
    AlbumList,
    TrackList,
}

/// The mode after the mode key: the album list and the player alternate;
/// the track list goes back to the album list.
pub open spec fn toggled(m: JukeboxMode) -> JukeboxMode {
    match m {
        JukeboxMode::Playing => JukeboxMode::AlbumList,
        JukeboxMode::AlbumList => JukeboxMode::Playing,
        JukeboxMode::TrackList => JukeboxMode::AlbumList,
    }
}

/// What the enter key asks of the caller.
#[derive(Clone, Copy, Debug, PartialEq, Eq, Structural)]
pub enum EnterAction {
    /// Load the tracks of the selected album.
    LoadTracks,
    /// Load the selected album and play the selected track.
    PlayTrack { album_index: usize, track_index: usize },
    Nothing,
}

/// Which album and track are selected, and in which list.
pub struct JukeboxBrowser {
    pub mode: JukeboxMode,
    pub album_count: usize,
    pub selected_album_index: usize,
    pub track_count: usize,
    pub selected_track_index: usize,
}

/// The next position in a list of `n`, wrapping around.
pub open spec fn next_index(i: usize, n: usize) -> usize {
    if n == 0 {
        i
    } else {
        ((i + 1) % (n as int)) as usize
    }
}

/// The previous position in a list of `n`, wrapping around.
pub open spec fn prev_index(i: usize, n: usize) -> usize {
    if n == 0 {
        i
    } else if i == 0 {
        (n - 1) as usize
    } else {
        (i - 1) as usize
    }
}

impl JukeboxBrowser {
    /// The player, with nothing listed.
    pub fn new() -> (r: Self)
        ensures
            r.mode == JukeboxMode::Playing,
            r.album_count == 0,
            r.selected_album_index == 0,
            r.track_count == 0,
            r.selected_track_index == 0,
    {
        JukeboxBrowser {
            mode: JukeboxMode::Playing,
            album_count: 0,
            selected_album_index: 0,
            track_count: 0,
            selected_track_index: 0,
        }
    }

    pub fn toggle_mode(&mut self)
        ensures
            final(self).mode == toggled(old(self).mode),
            final(self).album_count == old(self).album_count,
            final(self).selected_album_index == old(self).selected_album_index,
            final(self).track_count == old(self).track_count,
            final(self).selected_track_index == old(self).selected_track_index,
    {
        self.mode = match self.mode {
            JukeboxMode::Playing => JukeboxMode::AlbumList,
            JukeboxMode::AlbumList => JukeboxMode::Playing,
            JukeboxMode::TrackList => JukeboxMode::AlbumList,
        };
    }

    /// The next album or track of the list shown, wrapping around.
    pub fn next_item(&mut self)
        requires
            old(self).mode == JukeboxMode::AlbumList && old(self).album_count > 0 ==> old(
                self,
            ).selected_album_index < usize::MAX,
            old(self).mode == JukeboxMode::TrackList && old(self).track_count > 0 ==> old(
                self,
            ).selected_track_index < usize::MAX,
        ensures
            final(self).mode == old(self).mode,
            final(self).album_count == old(self).album_count,
            final(self).track_count == old(self).track_count,
            final(self).selected_album_index == if old(self).mode == JukeboxMode::AlbumList {
                next_index(old(self).selected_album_index, old(self).album_count)
            } else {
                old(self).selected_album_index
            },
            final(self).selected_track_index == if old(self).mode == JukeboxMode::TrackList {
                next_index(old(self).selected_track_index, old(self).track_count)
            } else {
                old(self).selected_track_index
            },
    {
        match self.mode {
            JukeboxMode::AlbumList => {
                if self.album_count > 0 {
                    self.selected_album_index = (self.selected_album_index + 1) % self.album_count;
                }
            },
            JukeboxMode::TrackList => {
                if self.track_count > 0 {
                    self.selected_track_index = (self.selected_track_index + 1) % self.track_count;
                }
            },
            _ => {},
        }
    }

    /// The previous album or track of the list shown, wrapping around.
    pub fn prev_item(&mut self)
        ensures
            final(self).mode == old(self).mode,
            final(self).album_count == old(self).album_count,
            final(self).track_count == old(self).track_count,
            final(self).selected_album_index == if old(self).mode == JukeboxMode::AlbumList {
                prev_index(old(self).selected_album_index, old(self).album_count)
            } else {
                old(self).selected_album_index
            },
            final(self).selected_track_index == if old(self).mode == JukeboxMode::TrackList {
                prev_index(old(self).selected_track_index, old(self).track_count)
            } else {
                old(self).selected_track_index
            },
    {
        match self.mode {
            JukeboxMode::AlbumList => {
                if self.album_count > 0 {
                    self.selected_album_index = if self.selected_album_index == 0 {
                        self.album_count - 1
                    } else {
                        self.selected_album_index - 1
                    };
                }
            },
            JukeboxMode::TrackList => {
                if self.track_count > 0 {
                    self.selected_track_index = if self.selected_track_index == 0 {
                        self.track_count - 1
                    } else {
                        self.selected_track_index - 1
                    };
                }
            },
            _ => {},
        }
    }

    /// The album list opens the selected album's tracks; the track list
    /// plays the selected track, where an album is selected, and goes back
    /// to the player.
    pub fn handle_enter(&mut self) -> (r: EnterAction)
        ensures
            final(self).album_count == old(self).album_count,
            final(self).selected_album_index == old(self).selected_album_index,
            final(self).track_count == old(self).track_count,
            final(self).selected_track_index == old(self).selected_track_index,
            match old(self).mode {
                JukeboxMode::AlbumList => r == EnterAction::LoadTracks && final(self).mode
                    == JukeboxMode::TrackList,
                JukeboxMode::TrackList => if old(self).selected_album_index < old(
                    self,
                ).album_count {
                    r == (EnterAction::PlayTrack {
                        album_index: old(self).selected_album_index,
                        track_index: old(self).selected_track_index,
                    }) && final(self).mode == JukeboxMode::Playing
                } else {
                    r == EnterAction::Nothing && final(self).mode == JukeboxMode::TrackList
                },
                JukeboxMode::Playing => r == EnterAction::Nothing && final(self).mode
                    == JukeboxMode::Playing,
            },
    {
        match self.mode {
            JukeboxMode::AlbumList => {
                self.mode = JukeboxMode::TrackList;
                EnterAction::LoadTracks
            },
            JukeboxMode::TrackList => {
                if self.selected_album_index < self.album_count {
                    self.mode = JukeboxMode::Playing;
                    EnterAction::PlayTrack {
                        album_index: self.selected_album_index,
                        track_index: self.selected_track_index,
                    }
                } else {
                    EnterAction::Nothing
                }
            },
            JukeboxMode::Playing => EnterAction::Nothing,
        }
    }

    /// New tracks were loaded for the selected album: the first is selected.
    pub fn tracks_loaded(&mut self, count: usize)
        ensures
            final(self).track_count == count,
            final(self).selected_track_index == 0,
            final(self).mode == old(self).mode,
            final(self).album_count == old(self).album_count,
            final(self).selected_album_index == old(self).selected_album_index,
    {
        self.track_count = count;
        self.selected_track_index = 0;
    }
}

/// In a non-empty list the step to the next item moves one place forward,
/// from the last item to the first; the step back moves one place backward,
/// from the first item to the last.
pub proof fn lemma_next_prev_direction(i: usize, n: usize)
    requires
        n > 0,
        i < n,
    ensures
        i + 1 < n ==> next_index(i, n) == i + 1,
        i + 1 == n ==> next_index(i, n) == 0,
        i > 0 ==> prev_index(i, n) == i - 1,
        i == 0 ==> prev_index(i, n) == n - 1,
{
    if i + 1 < n {
        vstd::arithmetic::div_mod::lemma_small_mod((i + 1) as nat, n as nat);
    } else {
        vstd::arithmetic::div_mod::lemma_mod_self_0(n as int);
    }
}

/// Moving through a non-empty list, wrapping around, stays in it; a step
/// back undoes a step forward, and a step forward undoes a step back.
pub proof fn lemma_next_prev_in_range(i: usize, n: usize)
    requires
        n > 0,
        i < n,
    ensures
        next_index(i, n) < n,
        prev_index(i, n) < n,
        prev_index(next_index(i, n), n) == i,
        next_index(prev_index(i, n), n) == i,
{
    if i + 1 < n {
        vstd::arithmetic::div_mod::lemma_small_mod((i + 1) as nat, n as nat);
    } else {
        vstd::arithmetic::div_mod::lemma_mod_self_0(n as int);
    }
    if i > 0 {
        vstd::arithmetic::div_mod::lemma_small_mod(i as nat, n as nat);
    } else {
        vstd::arithmetic::div_mod::lemma_mod_self_0(n as int);
    }
}

// ---------------------------------------------------------------------------
// Equaliser
// ---------------------------------------------------------------------------

/// The number of equaliser bars.
pub const EQ_BARS: usize = 16;

/// The highest level of a bar.
pub const EQ_MAX_LEVEL: usize = 7;

/// `rand::thread_rng().gen_range(-1..=1)`: a random step. Nothing is stated
/// of which step is drawn; it is one of -1, 0 and 1.
#[verifier::external_body]
pub(crate) fn random_step() -> (r: i32)
    ensures
        -1 <= r <= 1,
{
    rand::Rng::gen_range(&mut rand::thread_rng(), -1..=1)
}

/// The level of a bar after a step, kept between 0 and the highest level.
pub open spec fn stepped_level(level: usize, step: int) -> usize {
    let v = level + step;
    if v < 0 {
        0
    } else if v > EQ_MAX_LEVEL {
        EQ_MAX_LEVEL
    } else {
        v as usize
    }
}

/// A level reachable from `a` by one random step.
pub open spec fn one_step(a: usize, b: usize) -> bool {
    b == stepped_level(a, -1) || b == stepped_level(a, 0) || b == stepped_level(a, 1)
}

/// The equaliser bars and the animation frame.
pub struct Equalizer {
    pub bars: Vec<usize>,
    pub frame: usize,
}

impl Equalizer {
    pub open spec fn wf(&self) -> bool {
        &&& self.bars@.len() == EQ_BARS
        &&& forall|i: int| 0 <= i < EQ_BARS ==> #[trigger] self.bars@[i] <= EQ_MAX_LEVEL
        &&& self.frame < 60
    }

    /// All bars down, at the first frame.
    pub fn new() -> (r: Self)
        ensures
            r.wf(),
            forall|i: int| 0 <= i < EQ_BARS ==> #[trigger] r.bars@[i] == 0,
            r.frame == 0,
    {
        let mut bars: Vec<usize> = Vec::new();
        let mut i: usize = 0;
        while i < EQ_BARS
            invariant
                i <= EQ_BARS,
                bars@.len() == i,
                forall|j: int| 0 <= j < i ==> #[trigger] bars@[j] == 0,
            decreases EQ_BARS - i,
        {
            bars.push(0);
            i = i + 1;
        }
        Equalizer { bars, frame: 0 }
    }

    /// One animation step: the frame advances (of 60); while playing, each
    /// bar moves by a random step within its range; otherwise each bar above
    /// zero falls by one. The steps are drawn here and applied by
    /// [`Equalizer::update_with_steps`].
    pub fn update(&mut self, playing: bool)
        requires
            old(self).wf(),
        ensures
            final(self).wf(),
            final(self).frame == (old(self).frame + 1) % 60,
            playing ==> forall|i: int|
                0 <= i < EQ_BARS ==> one_step(old(self).bars@[i], #[trigger] final(self).bars@[i]),
            !playing ==> forall|i: int|
                0 <= i < EQ_BARS ==> #[trigger] final(self).bars@[i] == if old(self).bars@[i] > 0 {
                    (old(self).bars@[i] - 1) as usize
                } else {
                    0
                },
    {
        let mut steps: Vec<i32> = Vec::new();
        let mut i: usize = 0;
        while i < EQ_BARS
            invariant
                i <= EQ_BARS,
                steps@.len() == i,
                forall|j: int| 0 <= j < i ==> -1 <= #[trigger] steps@[j] <= 1,
            decreases EQ_BARS - i,
        {
            let step = if playing {
                random_step()
            } else {
                0
            };
            steps.push(step);
            i = i + 1;
        }
        self.update_with_steps(playing, &steps);
    }

    /// One animation step with the random steps drawn for the bars: the
    /// frame advances (of 60); while playing, bar `i` moves by `steps[i]`,
    /// kept between 0 and the highest level; otherwise each bar above zero
    /// falls by one.
    pub fn update_with_steps(&mut self, playing: bool, steps: &Vec<i32>)
        requires
            old(self).wf(),
            steps@.len() == EQ_BARS,
            forall|i: int| 0 <= i < EQ_BARS ==> -1 <= #[trigger] steps@[i] <= 1,
        ensures
            final(self).wf(),
            final(self).frame == (old(self).frame + 1) % 60,
            playing ==> forall|i: int|
                0 <= i < EQ_BARS ==> #[trigger] final(self).bars@[i] == stepped_level(
                    old(self).bars@[i],
                    steps@[i] as int,
                ),
            !playing ==> forall|i: int|
                0 <= i < EQ_BARS ==> #[trigger] final(self).bars@[i] == if old(self).bars@[i] > 0 {
                    (old(self).bars@[i] - 1) as usize
                } else {
                    0
                },
    {
        self.frame = (self.frame + 1) % 60;
        let ghost new_frame = self.frame;
        let ghost old_bars = self.bars@;
        let mut i: usize = 0;
        while i < EQ_BARS
            invariant
                i <= EQ_BARS,
                self.frame == new_frame,
                new_frame < 60,
                self.bars@.len() == EQ_BARS,
                old_bars.len() == EQ_BARS,
                steps@.len() == EQ_BARS,
                forall|j: int| 0 <= j < EQ_BARS ==> -1 <= #[trigger] steps@[j] <= 1,
                forall|j: int| 0 <= j < EQ_BARS ==> #[trigger] old_bars[j] <= EQ_MAX_LEVEL,
                forall|j: int| i <= j < EQ_BARS ==> #[trigger] self.bars@[j] == old_bars[j],
                forall|j: int| 0 <= j < EQ_BARS ==> #[trigger] self.bars@[j] <= EQ_MAX_LEVEL,
                playing ==> forall|j: int|
                    0 <= j < i ==> #[trigger] self.bars@[j] == stepped_level(
                        old_bars[j],
                        steps@[j] as int,
                    ),
                !playing ==> forall|j: int|
                    0 <= j < i ==> #[trigger] self.bars@[j] == if old_bars[j] > 0 {
                        (old_bars[j] - 1) as usize
                    } else {
                        0
                    },
            decreases EQ_BARS - i,
        {
            let level = self.bars[i];
            let new_level: usize = if playing {
                let step = steps[i];
                let v = level as i32 + step;
                let clamped: usize = if v < 0 {
                    0
                } else if v > 7 {
                    7
                } else {
                    v as usize
                };
                assert(clamped == stepped_level(level, step as int));
                clamped
            } else if level > 0 {
                level - 1
            } else {
                0
            };
            self.bars.set(i, new_level);
            i = i + 1;
        }
    }

    /// The mean level of the bars, in tenths (rounded down): it picks the
    /// colour of the equaliser.
    pub fn mean_level_tenths(&self) -> (r: usize)
        requires
            self.wf(),
        ensures
            r == (bars_sum(self.bars@, EQ_BARS as int) * 10) / (EQ_BARS as int),
    {
        let mut sum: usize = 0;
        let mut i: usize = 0;
        while i < EQ_BARS
            invariant
                i <= EQ_BARS,
                self.wf(),
                sum == bars_sum(self.bars@, i as int),
                sum <= i * EQ_MAX_LEVEL,
            decreases EQ_BARS - i,
        {
            sum = sum + self.bars[i];
            i = i + 1;
        }
        sum * 10 / EQ_BARS
    }
}

/// The sum of the first `n` levels.
pub open spec fn bars_sum(b: Seq<usize>, n: int) -> int
    decreases n,
{
    if n <= 0 {
        0
    } else {
        bars_sum(b, n - 1) + b[n - 1]
    }
}

// ---------------------------------------------------------------------------
// Display text
// ---------------------------------------------------------------------------

/// The numeral of an integer, as `Display` prints it.
pub open spec fn int_text(n: int) -> Seq<char> {
    if n < 0 {
        "-"@ + decimal((-n) as nat)
    } else {
        decimal(n as nat)
    }
}

/// An integer printed with `{:02}`: at least two characters, padded with a
/// zero after the sign.
pub open spec fn padded2(n: int) -> Seq<char> {
    if 0 <= n < 10 {
        seq!['0'] + decimal(n as nat)
    } else if -10 < n < 0 {
        int_text(n)
    } else {
        int_text(n)
    }
}

/// Integer division rounding toward zero, as Rust's `/`.
pub open spec fn trunc_div(a: int, b: int) -> int {
    if a >= 0 {
        a / b
    } else {
        -((-a) / b)
    }
}

/// The remainder of `trunc_div`, as Rust's `%`.
pub open spec fn trunc_rem(a: int, b: int) -> int {
    if a >= 0 {
        a % b
    } else {
        -((-a) % b)
    }
}

/// A track length as `minutes:seconds` (`{}:{:02}`), `?:??` where unknown.
pub open spec fn duration_text(d: Option<i32>) -> Seq<char> {
    match d {
        Some(s) => int_text(trunc_div(s as int, 60)) + ":"@ + padded2(trunc_rem(s as int, 60)),
        None => "?:??"@,
    }
}

fn push_int(out: &mut String, n: i64)
    ensures
        final(out)@ == old(out)@ + int_text(n as int),
{
    if n < 0 {
        push_char(out, '-');
        let m: u64 = if n == i64::MIN {
            0x8000_0000_0000_0000u64
        } else {
            (-n) as u64
        };
        assert(m as int == -(n as int));
        push_decimal(out, m);
        proof {
            reveal_strlit("-");
        }
        assert(out@ =~= old(out)@ + int_text(n as int));
    } else {
        push_decimal(out, n as u64);
    }
}

/// The length of a track as `m:ss`.
pub fn format_duration(duration_seconds: Option<i32>) -> (r: String)
    ensures
        r@ == duration_text(duration_seconds),
{
    match duration_seconds {
        Some(s) => {
            let (q, rem): (i64, i64) = if s >= 0 {
                ((s / 60) as i64, (s % 60) as i64)
            } else {
                let a: i64 = -(s as i64);
                (-(a / 60), -(a % 60))
            };
            assert(q == trunc_div(s as int, 60));
            assert(rem == trunc_rem(s as int, 60));
            let mut out = String::new();
            push_int(&mut out, q);
            out.append(":");
            if 0 <= rem && rem < 10 {
                push_char(&mut out, '0');
            }
            let ghost before = out@;
            push_int(&mut out, rem);
            proof {
                if 0 <= rem && rem < 10 {
                    assert(out@ =~= int_text(q as int) + ":"@ + padded2(rem as int));
                } else {
                    assert(out@ =~= int_text(q as int) + ":"@ + padded2(rem as int));
                }
            }
            out
        },
        None => owned("?:??"),
    }
}

/// A line of the album list: a marker for the selected album, then
/// `artist - title (year)`, with `Unknown` for no year.
pub open spec fn album_line_text(a: Album, selected: bool) -> Seq<char> {
    (if selected {
        "▶"@
    } else {
        " "@
    }) + " "@ + a.artist@ + " - "@ + a.title@ + " ("@ + match a.year {
        Some(y) => int_text(y as int),
        None => "Unknown"@,
    } + ")"@
}

pub fn album_list_line(album: &Album, selected: bool) -> (r: String)
    ensures
        r@ == album_line_text(*album, selected),
{
    let mut out = if selected {
        owned("▶")
    } else {
        owned(" ")
    };
    out.append(" ");
    out.append(album.artist.as_str());
    out.append(" - ");
    out.append(album.title.as_str());
    out.append(" (");
    match album.year {
        Some(y) => push_int(&mut out, y as i64),
        None => out.append("Unknown"),
    }
    out.append(")");
    out
}

/// A line of the track list: a cross for a missing file, a marker for the
/// selected track, then `number. title [m:ss]`.
pub open spec fn track_line_text(t: Track, selected: bool, file_exists: bool) -> Seq<char> {
    (if !file_exists {
        "❌"@
    } else if selected {
        "▶"@
    } else {
        " "@
    }) + " "@ + int_text(t.track_number as int) + ". "@ + t.title@ + " ["@ + duration_text(
        t.duration_seconds,
    ) + "]"@
}

pub fn track_list_line(track: &Track, selected: bool, file_exists: bool) -> (r: String)
    ensures
        r@ == track_line_text(*track, selected, file_exists),
{
    let mut out = if !file_exists {
        owned("❌")
    } else if selected {
        owned("▶")
    } else {
        owned(" ")
    };
    out.append(" ");
    push_int(&mut out, track.track_number as i64);
    out.append(". ");
    out.append(track.title.as_str());
    out.append(" [");
    let d = format_duration(track.duration_seconds);
    out.append(d.as_str());
    out.append("]");
    out
}

/// An audio file ends in mp3, wav, flac, ogg, m4a or aac, in any case.
pub open spec fn is_audio_extension(ext: Seq<char>) -> bool {
    let l = crate::text::lower_text(ext);
    l == "mp3"@ || l == "wav"@ || l == "flac"@ || l == "ogg"@ || l == "m4a"@ || l == "aac"@
}

/// Whether a file extension is one of an audio file.
pub fn audio_extension(ext: &str) -> (r: bool)
    ensures
        r == is_audio_extension(ext@),
{
    let l = crate::text::to_lowercase(ext);
    let s = l.as_str();
    str_eq(s, "mp3") || str_eq(s, "wav") || str_eq(s, "flac") || str_eq(s, "ogg") || str_eq(
        s,
        "m4a",
    ) || str_eq(s, "aac")
}

// ---------------------------------------------------------------------------
// Albums from module bindings
// ---------------------------------------------------------------------------

pub open spec fn str_or(v: Option<Seq<char>>, d: Seq<char>) -> Seq<char> {
    match v {
        Some(s) => s,
        None => d,
    }
}

/// The album an album module describes in its bindings: its `title` (the
/// module name where missing), `artist` (`Unknown Artist`), `year`, `genre`
/// and `credits`; the id is left to the database.
pub fn album_from_bindings(module_name: &str, bindings: &JsonValue) -> (r: Album)
    ensures
        r.id == 0,
        r.module_name@ == module_name@,
        r.title@ == str_or(get_str(bindings@, "title"@), module_name@),
        r.artist@ == str_or(get_str(bindings@, "artist"@), "Unknown Artist"@),
        r.year == match get_i64(bindings@, "year"@) {
            Some(y) => Some(y as i32),
            None => None::<i32>,
        },
        crate::serial::opt_view(r.genre) == get_str(bindings@, "genre"@),
        crate::serial::opt_view(r.credits) == get_str(bindings@, "credits"@),
{
    let title = binding_str(bindings, "title");
    let artist = binding_str(bindings, "artist");
    let year = match bindings.get("year") {
        Some(v) => match v.as_i64() {
            Some(y) => Some(y as i32),
            None => None,
        },
        None => None,
    };
    Album {
        id: 0,
        module_name: owned(module_name),
        title: match title {
            Some(t) => t,
            None => owned(module_name),
        },
        artist: match artist {
            Some(a) => a,
            None => owned("Unknown Artist"),
        },
        year,
        genre: binding_str(bindings, "genre"),
        credits: binding_str(bindings, "credits"),
    }
}

/// The string member `key` of an object.
pub fn binding_str(bindings: &JsonValue, key: &str) -> (r: Option<String>)
    ensures
        crate::serial::opt_view(r) == get_str(bindings@, key@),
{
    match bindings.get(key) {
        Some(v) => match v.as_str() {
            Some(s) => Some(owned(s)),
            None => None,
        },
        None => None,
    }
}

/// `t` is the track entry `entry` describes as the `index`-th entry
/// (counting from zero) of album `album_id`, at `file_path`.
pub open spec fn is_track_of(
    t: Track,
    entry: crate::json::Json,
    index: int,
    album_id: i64,
    file_path: Seq<char>,
) -> bool {
    &&& t.id == 0
    &&& t.album_id == album_id
    &&& t.track_number == (index + 1) as i32
    &&& t.title@ == str_or(get_str(entry, "title"@), "Unknown Track"@)
    &&& t.duration_seconds == match get_i64(entry, "duration_seconds"@) {
        Some(d) => Some(d as i32),
        None => None::<i32>,
    }
    &&& t.file_path@ == file_path
    &&& crate::serial::opt_view(t.artist) == get_str(entry, "artist"@)
}

/// The track an entry of an album's tracklist describes, as the
/// `index`-th entry (counting from zero) of album `album_id`, at
/// `file_path`: its `title` (`Unknown Track` where missing),
/// `duration_seconds` and `artist`; entries that are not objects describe
/// no track.
pub fn track_from_entry(entry: &JsonValue, index: usize, album_id: i64, file_path: String) -> (r:
    Option<Track>)
    requires
        index < usize::MAX,
    ensures
        !(entry@ is Obj) ==> r is None,
        entry@ is Obj ==> (r matches Some(t) && is_track_of(
            t,
            entry@,
            index as int,
            album_id,
            file_path@,
        )),
{
    if !entry.is_object() {
        return None;
    }
    let duration = match entry.get("duration_seconds") {
        Some(v) => match v.as_i64() {
            Some(d) => Some(d as i32),
            None => None,
        },
        None => None,
    };
    Some(
        Track {
            id: 0,
            album_id,
            track_number: (index + 1) as i32,
            title: match binding_str(entry, "title") {
                Some(t) => t,
                None => owned("Unknown Track"),
            },
            duration_seconds: duration,
            file_path,
            artist: binding_str(entry, "artist"),
        },
    )
}

/// What the caller found of the file a tracklist entry names: its path,
/// whether it exists, and its extension, if it has one.
pub struct TrackFile {
    pub path: String,
    pub exists: bool,
    pub extension: Option<String>,
}

/// An entry is ingested as a track: it is an object, and its file exists and
/// has an audio extension.
pub open spec fn keeps_track(entry: crate::json::Json, f: TrackFile) -> bool {
    &&& entry is Obj
    &&& f.exists
    &&& f.extension matches Some(e) && is_audio_extension(e@)
}

/// The positions, among the first `n` entries, of those ingested as tracks.
pub open spec fn kept_indices(
    items: Seq<crate::json::Json>,
    files: Seq<TrackFile>,
    n: int,
) -> Seq<int>
    decreases n,
{
    if n <= 0 {
        Seq::empty()
    } else {
        let rest = kept_indices(items, files, n - 1);
        if keeps_track(items[n - 1], files[n - 1]) {
            rest.push(n - 1)
        } else {
            rest
        }
    }
}

/// The entries of an album's tracklist.
pub open spec fn tracklist_of(bindings: crate::json::Json) -> Seq<crate::json::Json> {
    match crate::json::json_get(bindings, "tracklist"@) {
        Some(crate::json::Json::Arr(items)) => items,
        _ => Seq::empty(),
    }
}

/// The tracks of album `album_id` from its module's bindings, given what
/// was found of the file of each tracklist entry (`files[i]` for entry
/// `i`): an entry that is not an object, whose file is missing, or whose
/// file has no audio extension is skipped; the others become tracks
/// numbered by their place in the tracklist, in order.
pub fn album_tracks(bindings: &JsonValue, album_id: i64, files: &Vec<TrackFile>) -> (r: Vec<Track>)
    requires
        files@.len() == tracklist_of(bindings@).len(),
    ensures
        ({
            let items = tracklist_of(bindings@);
            let kept = kept_indices(items, files@, items.len() as int);
            &&& r@.len() == kept.len()
            &&& forall|j: int|
                0 <= j < kept.len() ==> is_track_of(
                    #[trigger] r@[j],
                    items[kept[j]],
                    kept[j],
                    album_id,
                    files@[kept[j]].path@,
                )
        }),
{
    let mut r: Vec<Track> = Vec::new();
    match bindings.get("tracklist") {
        Some(JsonValue::Array(items)) => {
            proof {
                crate::json::lemma_items_model(items@, items@.len());
            }
            let ghost model = crate::json::items_model(items@, items@.len());
            assert(model == tracklist_of(bindings@));
            let mut i: usize = 0;
            while i < items.len()
                invariant
                    i <= items@.len(),
                    model == tracklist_of(bindings@),
                    model.len() == items@.len(),
                    files@.len() == model.len(),
                    forall|j: int| 0 <= j < items@.len() ==> #[trigger] model[j] == items@[j]@,
                    r@.len() == kept_indices(model, files@, i as int).len(),
                    forall|j: int|
                        0 <= j < r@.len() ==> is_track_of(
                            #[trigger] r@[j],
                            model[kept_indices(model, files@, i as int)[j]],
                            kept_indices(model, files@, i as int)[j],
                            album_id,
                            files@[kept_indices(model, files@, i as int)[j]].path@,
                        ),
                decreases items.len() - i,
            {
                let entry = &items[i];
                let f = &files[i];
                let audio = match &f.extension {
                    Some(e) => audio_extension(e.as_str()),
                    None => false,
                };
                let ghost before = r@;
                let ghost k0 = kept_indices(model, files@, i as int);
                assert(model[i as int] == entry@);
                if entry.is_object() && f.exists && audio {
                    match track_from_entry(entry, i, album_id, f.path.clone()) {
                        Some(t) => {
                            r.push(t);
                        },
                        None => {},
                    }
                    proof {
                        assert(kept_indices(model, files@, i + 1) == k0.push(i as int));
                        assert forall|j: int| 0 <= j < r@.len() implies is_track_of(
                            #[trigger] r@[j],
                            model[kept_indices(model, files@, i + 1)[j]],
                            kept_indices(model, files@, i + 1)[j],
                            album_id,
                            files@[kept_indices(model, files@, i + 1)[j]].path@,
                        ) by {
                            if j < before.len() {
                                assert(r@[j] == before[j]);
                            }
                        }
                    }
                } else {
                    assert(kept_indices(model, files@, i + 1) == k0);
                }
                i = i + 1;
            }
        },
        _ => {},
    }
    r
}

/// The file name an entry of a tracklist names, empty where it names none.
pub fn track_file_name(entry: &JsonValue) -> (r: String)
    ensures
        r@ == str_or(get_str(entry@, "file"@), Seq::empty()),
{
    match binding_str(entry, "file") {
        Some(f) => f,
        None => String::new(),
    }
}


// ---------------------------------------------------------------------------
// The now-playing panel
// ---------------------------------------------------------------------------

/// The block character of an equaliser level.
pub open spec fn level_block(level: usize) -> Seq<char> {
    if level == 0 {
        "▁"@
    } else if level == 1 {
        "▂"@
    } else if level == 2 {
        "▃"@
    } else if level == 3 {
        "▄"@
    } else if level == 4 {
        "▅"@
    } else if level == 5 {
        "▆"@
    } else if level == 6 {
        "▇"@
    } else {
        "█"@
    }
}

/// The blocks of the first `n` bars.
pub open spec fn bars_text(b: Seq<usize>, n: int) -> Seq<char>
    decreases n,
{
    if n <= 0 {
        Seq::empty()
    } else {
        bars_text(b, n - 1) + level_block(b[n - 1])
    }
}

/// The colour of the equaliser by the mean level of its bars: red above 5,
/// yellow above 3, green above 0, dark grey at 0.
pub open spec fn eq_color(sum: int) -> crate::panels::UiColor {
    if sum > 5 * EQ_BARS {
        crate::panels::UiColor::Red
    } else if sum > 3 * EQ_BARS {
        crate::panels::UiColor::Yellow
    } else if sum > 0 {
        crate::panels::UiColor::Green
    } else {
        crate::panels::UiColor::DarkGray
    }
}

fn block_of(level: usize) -> (r: &'static str)
    ensures
        r@ == level_block(level),
{
    if level == 0 {
        "▁"
    } else if level == 1 {
        "▂"
    } else if level == 2 {
        "▃"
    } else if level == 3 {
        "▄"
    } else if level == 4 {
        "▅"
    } else if level == 5 {
        "▆"
    } else if level == 6 {
        "▇"
    } else {
        "█"
    }
}

impl Equalizer {
    /// The equaliser line: a speaker (muted when not playing), then a block
    /// per bar, coloured by the mean level.
    pub fn visual(&self, playing: bool) -> (r: (String, String, crate::panels::UiColor))
        requires
            self.wf(),
        ensures
            r.0@ == if playing {
                "🔊"@
            } else {
                "🔇"@
            },
            r.1@ == bars_text(self.bars@, EQ_BARS as int),
            r.2 == eq_color(bars_sum(self.bars@, EQ_BARS as int)),
    {
        let mut text = String::new();
        let mut sum: usize = 0;
        let mut i: usize = 0;
        while i < EQ_BARS
            invariant
                i <= EQ_BARS,
                self.wf(),
                text@ == bars_text(self.bars@, i as int),
                sum == bars_sum(self.bars@, i as int),
                sum <= i * EQ_MAX_LEVEL,
            decreases EQ_BARS - i,
        {
            text.append(block_of(self.bars[i]));
            sum = sum + self.bars[i];
            i = i + 1;
        }
        let color = if sum > 5 * EQ_BARS {
            crate::panels::UiColor::Red
        } else if sum > 3 * EQ_BARS {
            crate::panels::UiColor::Yellow
        } else if sum > 0 {
            crate::panels::UiColor::Green
        } else {
            crate::panels::UiColor::DarkGray
        };
        let icon = if playing {
            owned("🔊")
        } else {
            owned("🔇")
        };
        (icon, text, color)
    }
}

/// What the now-playing panel shows of the current track.
pub enum NowPlaying {
    /// No track.
    Nothing,
    /// The track's audio file is missing: its title.
    Missing { title: String },
    /// The track, with the artist and title of its album where known.
    Track { title: String, album: Option<(String, String)> },
}

/// The now-playing panel for the current track (whose file exists or not)
/// and album.
pub fn now_playing(track: Option<&Track>, file_exists: bool, album: Option<&Album>) -> (r: NowPlaying)
    ensures
        track is None ==> r is Nothing,
        track matches Some(t) ==> if !file_exists {
            r matches NowPlaying::Missing { title } && title@ == t.title@
        } else {
            &&& r matches NowPlaying::Track { title, album: a }
            &&& title@ == t.title@
            &&& match album {
                Some(al) => a matches Some((artist, at)) && artist@ == al.artist@ && at@ == al.title@,
                None => a is None,
            }
        },
{
    match track {
        None => NowPlaying::Nothing,
        Some(t) => if !file_exists {
            NowPlaying::Missing { title: t.title.clone() }
        } else {
            let a = match album {
                Some(al) => Some((al.artist.clone(), al.title.clone())),
                None => None,
            };
            NowPlaying::Track { title: t.title.clone(), album: a }
        },
    }
}

/// The keys of the player, by whether it plays.
pub fn controls_text(playing: bool) -> (r: &'static str)
    ensures
        r@ == if playing {
            "⏸ Space: Pause | ⏭ →: Next | ⏮ ←: Prev | 🔊 +/-: Volume | 'm': Library"@
        } else {
            "▶ Space: Play | ⏭ →: Next | ⏮ ←: Prev | 🔊 +/-: Volume | 'm': Library"@
        },
{
    if playing {
        "⏸ Space: Pause | ⏭ →: Next | ⏮ ←: Prev | 🔊 +/-: Volume | 'm': Library"
    } else {
        "▶ Space: Play | ⏭ →: Next | ⏮ ←: Prev | 🔊 +/-: Volume | 'm': Library"
    }
}

// ---------------------------------------------------------------------------
// Re-ingesting the albums
// ---------------------------------------------------------------------------

/// A module configuration that declares an album module.
pub open spec fn is_album_config(config: Seq<char>) -> bool {
    crate::text::contains(config, "module_type: \"album\""@)
}

pub fn album_config(config: &str) -> (r: bool)
    ensures
        r == is_album_config(config@),
{
    crate::text::contains_str(config, "module_type: \"album\"")
}

/// The albums are ingested again unless the checksum stored from the last
/// ingestion (read as a number, 0 where it is not one) equals the current
/// one.
pub open spec fn reingest_needed(current: u64, stored: Option<Seq<char>>) -> bool {
    match stored {
        Some(s) => match crate::text::u64_parse(s) {
            Some(n) => n != current,
            None => 0 != current,
        },
        None => true,
    }
}

pub fn should_reingest(current: u64, stored: Option<&str>) -> (r: bool)
    ensures
        r == reingest_needed(current, match stored {
            Some(s) => Some(s@),
            None => None,
        }),
{
    match stored {
        Some(s) => match crate::text::parse_u64(s) {
            Some(n) => n != current,
            None => 0 != current,
        },
        None => true,
    }
}

} // verus!
