//! The records that the music providers are mapped into.

use vstd::prelude::*;

verus! {

/// The view of an optional string.
pub open spec fn ov(o: Option<String>) -> Option<Seq<char>> {
    match o {
        Some(s) => Some(s@),
        None => None,
    }
}

/// An artist of a song, or one found by a search.
pub struct Artist {
    pub id: Option<String>,
    pub mid: Option<String>,
    pub name: String,
    pub pic_url: Option<String>,
    pub music_size: Option<i64>,
}

/// What an artist is, in contracts.
pub struct ArtistView {
    pub id: Option<Seq<char>>,
    pub mid: Option<Seq<char>>,
    pub name: Seq<char>,
    pub pic_url: Option<Seq<char>>,
    pub music_size: Option<i64>,
}

impl View for Artist {
    type V = ArtistView;

    open spec fn view(&self) -> ArtistView {
        ArtistView {
            id: ov(self.id),
            mid: ov(self.mid),
            name: self.name@,
            pic_url: ov(self.pic_url),
            music_size: self.music_size,
        }
    }
}

/// The views of a list of artists.
pub open spec fn artist_views(a: Seq<Artist>) -> Seq<ArtistView> {
    Seq::new(a.len(), |i: int| a[i]@)
}

/// A song of any provider.
pub struct Song {
    pub provider: String,
    pub id: String,
    pub content_id: Option<String>,
    pub name: String,
    pub artist: String,
    pub artists: Vec<Artist>,
    pub album: String,
    pub cover: String,
    pub duration: u64,
    pub fee: i32,
    pub playable: bool,
}

/// What a song is, in contracts.
pub struct SongView {
    pub provider: Seq<char>,
    pub id: Seq<char>,
    pub content_id: Option<Seq<char>>,
    pub name: Seq<char>,
    pub artist: Seq<char>,
    pub artists: Seq<ArtistView>,
    pub album: Seq<char>,
    pub cover: Seq<char>,
    pub duration: u64,
    pub fee: i32,
    pub playable: bool,
}

impl View for Song {
    type V = SongView;

    open spec fn view(&self) -> SongView {
        SongView {
            provider: self.provider@,
            id: self.id@,
            content_id: ov(self.content_id),
            name: self.name@,
            artist: self.artist@,
            artists: artist_views(self.artists@),
            album: self.album@,
            cover: self.cover@,
            duration: self.duration,
            fee: self.fee,
            playable: self.playable,
        }
    }
}

/// The views of a list of songs.
pub open spec fn song_views(a: Seq<Song>) -> Seq<SongView> {
    Seq::new(a.len(), |i: int| a[i]@)
}

/// A playlist, a chart or an album card of any provider.
pub struct Playlist {
    pub provider: String,
    pub id: String,
    pub name: String,
    pub cover: String,
    pub track_count: u32,
    pub creator: String,
    pub subscribed: bool,
}

/// What a playlist is, in contracts.
pub struct PlaylistView {
    pub provider: Seq<char>,
    pub id: Seq<char>,
    pub name: Seq<char>,
    pub cover: Seq<char>,
    pub track_count: u32,
    pub creator: Seq<char>,
    pub subscribed: bool,
}

impl View for Playlist {
    type V = PlaylistView;

    open spec fn view(&self) -> PlaylistView {
        PlaylistView {
            provider: self.provider@,
            id: self.id@,
            name: self.name@,
            cover: self.cover@,
            track_count: self.track_count,
            creator: self.creator@,
            subscribed: self.subscribed,
        }
    }
}

/// The views of a list of playlists.
pub open spec fn playlist_views(a: Seq<Playlist>) -> Seq<PlaylistView> {
    Seq::new(a.len(), |i: int| a[i]@)
}

/// The lyrics of a song, with their optional companions.
pub struct Lyrics {
    pub lyric: String,
    pub translation: Option<String>,
    pub roma: Option<String>,
    pub yrc: Option<String>,
}

/// Who is logged in with a provider.
pub struct LoginInfo {
    pub provider: String,
    pub logged_in: bool,
    pub user_id: String,
    pub nickname: String,
    pub avatar: String,
    pub vip_type: i32,
    pub vip_level: String,
    pub is_vip: bool,
    pub is_svip: bool,
}

/// What a login state is, in contracts.
pub struct LoginInfoView {
    pub provider: Seq<char>,
    pub logged_in: bool,
    pub user_id: Seq<char>,
    pub nickname: Seq<char>,
    pub avatar: Seq<char>,
    pub vip_type: i32,
    pub vip_level: Seq<char>,
    pub is_vip: bool,
    pub is_svip: bool,
}

impl View for LoginInfo {
    type V = LoginInfoView;

    open spec fn view(&self) -> LoginInfoView {
        LoginInfoView {
            provider: self.provider@,
            logged_in: self.logged_in,
            user_id: self.user_id@,
            nickname: self.nickname@,
            avatar: self.avatar@,
            vip_type: self.vip_type,
            vip_level: self.vip_level@,
            is_vip: self.is_vip,
            is_svip: self.is_svip,
        }
    }
}

/// A provider's answer to "where can this song be played".
pub struct SongUrlResult {
    pub url: Option<String>,
    pub playable: bool,
    pub trial: bool,
    pub level: String,
    pub quality: String,
    pub br: u64,
    pub reason: Option<String>,
    pub message: Option<String>,
    pub fee: Option<i32>,
}

/// What a playback answer is, in contracts.
pub struct SongUrlView {
    pub url: Option<Seq<char>>,
    pub playable: bool,
    pub trial: bool,
    pub level: Seq<char>,
    pub quality: Seq<char>,
    pub br: u64,
    pub reason: Option<Seq<char>>,
    pub message: Option<Seq<char>>,
    pub fee: Option<i32>,
}

impl View for SongUrlResult {
    type V = SongUrlView;

    open spec fn view(&self) -> SongUrlView {
        SongUrlView {
            url: ov(self.url),
            playable: self.playable,
            trial: self.trial,
            level: self.level@,
            quality: self.quality@,
            br: self.br,
            reason: ov(self.reason),
            message: ov(self.message),
            fee: self.fee,
        }
    }
}

/// An empty login state for `provider`.
pub fn logged_out(provider: &str) -> (r: LoginInfo)
    ensures
        r@ == (LoginInfoView {
            provider: provider@,
            logged_in: false,
            user_id: Seq::empty(),
            nickname: Seq::empty(),
            avatar: Seq::empty(),
            vip_type: 0,
            vip_level: Seq::empty(),
            is_vip: false,
            is_svip: false,
        }),
{
    LoginInfo {
        provider: crate::text::str_to_string(provider),
        logged_in: false,
        user_id: String::new(),
        nickname: String::new(),
        avatar: String::new(),
        vip_type: 0,
        vip_level: String::new(),
        is_vip: false,
        is_svip: false,
    }
}

} // verus!
