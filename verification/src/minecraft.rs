//! Kinds of game server, and the music the service shows itself listening to.

use vstd::prelude::*;

verus! {

/// What a player needs in order to enter a server: a lobby asks for membership
/// of the proxy's group, a game server for a role in that group as well.
#[derive(Clone, Copy, Debug, PartialEq, Eq, Structural)]
pub enum MinecraftServerType {
    Lobby,
    Game,
}

/// The number under which a kind of server is stored.
pub open spec fn type_code(kind: MinecraftServerType) -> u64 {
    match kind {
        MinecraftServerType::Lobby => 0,
        MinecraftServerType::Game => 1,
    }
}

impl MinecraftServerType {
    /// The number under which this kind of server is stored.
    pub fn code(self) -> (code: u64)
        ensures
            code == type_code(self),
    {
        match self {
            MinecraftServerType::Lobby => 0,
            MinecraftServerType::Game => 1,
        }
    }

    /// The kind stored under `code`: 0 is a lobby, every other number a game
    /// server.
    pub fn from_code(code: u64) -> (kind: MinecraftServerType)
        ensures
            kind == (if code == 0 {
                MinecraftServerType::Lobby
            } else {
                MinecraftServerType::Game
            }),
    {
        if code == 0 {
            MinecraftServerType::Lobby
        } else {
            MinecraftServerType::Game
        }
    }
}

/// A piece of music: its title, its author and its length in seconds.
pub struct MinecraftMusicTrack {
    pub title: &'static str,
    pub author: &'static str,
    pub duration_secs: &'static u64,
}

/// The pieces by title and length, in playing order; all are by one author.
pub open spec fn catalogue() -> Seq<(Seq<char>, u64)> {
    seq![
        ("Key"@, 65u64),
        ("Door"@, 111u64),
        ("Subwoofer Lullaby"@, 208u64),
        ("Death"@, 42u64),
        ("Living Mice"@, 177u64),
        ("Moog City"@, 160u64),
        ("Haggstrom"@, 204u64),
        ("Minecraft"@, 254u64),
        ("Oxygène"@, 65u64),
        ("Équinoxe"@, 114u64),
        ("Mice on Venus"@, 281u64),
        ("Dry Hands"@, 68u64),
        ("Wet Hands"@, 90u64),
        ("Clark"@, 191u64),
        ("Chris"@, 87u64),
        ("Thirteen"@, 176u64),
        ("Excuse"@, 124u64),
        ("Sweden"@, 215u64),
        ("Cat"@, 186u64),
        ("Dog"@, 145u64),
        ("Danny"@, 254u64),
        ("Beginning"@, 102u64),
        ("Droopy Likes Ricochet"@, 96u64),
        ("Droopy Likes Your Face"@, 117u64),
    ]
}

/// What a track is to the catalogue: its title and its length.
pub open spec fn entry_of(track: MinecraftMusicTrack) -> (Seq<char>, u64) {
    (track.title@, *track.duration_secs)
}

impl MinecraftMusicTrack {
    /// A track with the given title, author and length.
    pub fn new(title: &'static str, author: &'static str, duration_secs: &'static u64) -> (track:
        Self)
        ensures
            track.title == title,
            track.author == author,
            track.duration_secs == duration_secs,
    {
        Self { title, author, duration_secs }
    }

    /// The line shown for the track: its title, a bullet, its author.
    pub fn label(&self) -> (line: String)
        ensures
            line@ == self.title@ + " • "@ + self.author@,
    {
        let mut line = self.title.to_owned();
        line.append(" • ");
        line.append(self.author);
        line
    }
}

/// The tracks of the catalogue, in playing order.
pub fn get_tracks() -> (tracks: Vec<MinecraftMusicTrack>)
    ensures
        tracks@.map_values(|t: MinecraftMusicTrack| entry_of(t)) == catalogue(),
        forall|i: int| 0 <= i < tracks.len() ==> (#[trigger] tracks[i]).author@ == "C418"@,
{
    let tracks = vec![
        MinecraftMusicTrack::new("Key", "C418", &65),
        MinecraftMusicTrack::new("Door", "C418", &111),
        MinecraftMusicTrack::new("Subwoofer Lullaby", "C418", &208),
        MinecraftMusicTrack::new("Death", "C418", &42),
        MinecraftMusicTrack::new("Living Mice", "C418", &177),
        MinecraftMusicTrack::new("Moog City", "C418", &160),
        MinecraftMusicTrack::new("Haggstrom", "C418", &204),
        MinecraftMusicTrack::new("Minecraft", "C418", &254),
        MinecraftMusicTrack::new("Oxygène", "C418", &65),
        MinecraftMusicTrack::new("Équinoxe", "C418", &114),
        MinecraftMusicTrack::new("Mice on Venus", "C418", &281),
        MinecraftMusicTrack::new("Dry Hands", "C418", &68),
        MinecraftMusicTrack::new("Wet Hands", "C418", &90),
        MinecraftMusicTrack::new("Clark", "C418", &191),
        MinecraftMusicTrack::new("Chris", "C418", &87),
        MinecraftMusicTrack::new("Thirteen", "C418", &176),
        MinecraftMusicTrack::new("Excuse", "C418", &124),
        MinecraftMusicTrack::new("Sweden", "C418", &215),
        MinecraftMusicTrack::new("Cat", "C418", &186),
        MinecraftMusicTrack::new("Dog", "C418", &145),
        MinecraftMusicTrack::new("Danny", "C418", &254),
        MinecraftMusicTrack::new("Beginning", "C418", &102),
        MinecraftMusicTrack::new("Droopy Likes Ricochet", "C418", &96),
        MinecraftMusicTrack::new("Droopy Likes Your Face", "C418", &117),
    ];
    assert(tracks@.map_values(|t: MinecraftMusicTrack| entry_of(t)) =~= catalogue());
    tracks
}

} // verus!
