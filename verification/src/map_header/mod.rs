//! Map headers of the Gen 4 games and their 24-byte binary form.
//!
//! Diamond/Pearl, Platinum and HeartGold/SoulSilver lay the 24 bytes out
//! differently; several small fields are packed into bitfields.
pub mod c_format;
pub mod json_format;

use vstd::prelude::*;
use crate::bytes::{u16_at, u32_at, read_u16, read_u32, enc_u16, enc_u32};
use crate::error::{UxieError, ErrorKind};
use crate::game::GameFamily;
use crate::text::{dec, push_dec, push_str};

verus! {

pub const MAP_HEADER_SIZE: usize = 24;

pub const ENCOUNTERS_NONE_DPPT: u16 = 0xFFFF;

pub const ENCOUNTERS_NONE_HGSS: u16 = 0xFF;

/// Diamond/Pearl map header.
#[derive(Debug, Clone, Copy, PartialEq, Eq, Default, Structural)]
pub struct MapHeaderDP {
    pub area_data_id: u8,
    pub unknown1: u8,
    pub matrix_id: u16,
    pub script_file_id: u16,
    pub level_script_id: u16,
    pub text_archive_id: u16,
    pub music_day_id: u16,
    pub music_night_id: u16,
    pub wild_pokemon: u16,
    pub event_file_id: u16,
    pub location_name: u16,
    pub weather_id: u8,
    pub camera_angle_id: u8,
    pub location_specifier: u8,
    pub battle_background: u8,
    pub flags: u8,
}

/// Platinum map header.
#[derive(Debug, Clone, Copy, PartialEq, Eq, Default, Structural)]
pub struct MapHeaderPt {
    pub area_data_id: u8,
    pub unknown1: u8,
    pub matrix_id: u16,
    pub script_file_id: u16,
    pub level_script_id: u16,
    pub text_archive_id: u16,
    pub music_day_id: u16,
    pub music_night_id: u16,
    pub wild_pokemon: u16,
    pub event_file_id: u16,
    pub location_name: u8,
    pub area_icon: u8,
    pub weather_id: u8,
    pub camera_angle_id: u8,
    pub location_specifier: u8,
    pub battle_background: u8,
    pub flags: u8,
}

/// HeartGold/SoulSilver map header.
#[derive(Debug, Clone, Copy, PartialEq, Eq, Default, Structural)]
pub struct MapHeaderHGSS {
    pub wild_pokemon: u8,
    pub area_data_id: u8,
    pub unknown0: u8,
    pub worldmap_x: u8,
    pub worldmap_y: u8,
    pub matrix_id: u16,
    pub script_file_id: u16,
    pub level_script_id: u16,
    pub text_archive_id: u16,
    pub music_day_id: u16,
    pub music_night_id: u16,
    pub event_file_id: u16,
    pub location_name: u8,
    pub area_icon: u8,
    pub unknown1: u8,
    pub kanto_flag: bool,
    pub weather_id: u8,
    pub location_type: u8,
    pub camera_angle_id: u8,
    pub follow_mode: u8,
    pub battle_background: u8,
    pub flags: u8,
}

/// A map header of any game family.
#[derive(Debug, Clone, Copy, PartialEq, Eq, Structural)]
pub enum MapHeader {
    DP(MapHeaderDP),
    Pt(MapHeaderPt),
    HGSS(MapHeaderHGSS),
}

impl MapHeader {
    pub fn script_file_id(&self) -> (v: u16)
        ensures
            v == match *self {
                MapHeader::DP(h) => h.script_file_id,
                MapHeader::Pt(h) => h.script_file_id,
                MapHeader::HGSS(h) => h.script_file_id,
            },
    {
        match self {
            MapHeader::DP(h) => h.script_file_id,
            MapHeader::Pt(h) => h.script_file_id,
            MapHeader::HGSS(h) => h.script_file_id,
        }
    }

    pub fn text_archive_id(&self) -> (v: u16)
        ensures
            v == match *self {
                MapHeader::DP(h) => h.text_archive_id,
                MapHeader::Pt(h) => h.text_archive_id,
                MapHeader::HGSS(h) => h.text_archive_id,
            },
    {
        match self {
            MapHeader::DP(h) => h.text_archive_id,
            MapHeader::Pt(h) => h.text_archive_id,
            MapHeader::HGSS(h) => h.text_archive_id,
        }
    }

    pub fn level_script_id(&self) -> (v: u16)
        ensures
            v == match *self {
                MapHeader::DP(h) => h.level_script_id,
                MapHeader::Pt(h) => h.level_script_id,
                MapHeader::HGSS(h) => h.level_script_id,
            },
    {
        match self {
            MapHeader::DP(h) => h.level_script_id,
            MapHeader::Pt(h) => h.level_script_id,
            MapHeader::HGSS(h) => h.level_script_id,
        }
    }

    pub fn event_file_id(&self) -> (v: u16)
        ensures
            v == match *self {
                MapHeader::DP(h) => h.event_file_id,
                MapHeader::Pt(h) => h.event_file_id,
                MapHeader::HGSS(h) => h.event_file_id,
            },
    {
        match self {
            MapHeader::DP(h) => h.event_file_id,
            MapHeader::Pt(h) => h.event_file_id,
            MapHeader::HGSS(h) => h.event_file_id,
        }
    }

    pub fn matrix_id(&self) -> (v: u16)
        ensures
            v == match *self {
                MapHeader::DP(h) => h.matrix_id,
                MapHeader::Pt(h) => h.matrix_id,
                MapHeader::HGSS(h) => h.matrix_id,
            },
    {
        match self {
            MapHeader::DP(h) => h.matrix_id,
            MapHeader::Pt(h) => h.matrix_id,
            MapHeader::HGSS(h) => h.matrix_id,
        }
    }

    pub fn area_data_id(&self) -> (v: u8)
        ensures
            v == match *self {
                MapHeader::DP(h) => h.area_data_id,
                MapHeader::Pt(h) => h.area_data_id,
                MapHeader::HGSS(h) => h.area_data_id,
            },
    {
        match self {
            MapHeader::DP(h) => h.area_data_id,
            MapHeader::Pt(h) => h.area_data_id,
            MapHeader::HGSS(h) => h.area_data_id,
        }
    }
}

pub open spec fn lo(v: u16) -> u8 {
    (v % 256) as u8
}

pub open spec fn hi(v: u16) -> u8 {
    (v / 256) as u8
}

// ----- Diamond/Pearl -----

pub open spec fn dp_decode(b: Seq<u8>) -> MapHeaderDP {
    MapHeaderDP {
        area_data_id: b[0],
        unknown1: b[1],
        matrix_id: u16_at(b, 2),
        script_file_id: u16_at(b, 4),
        level_script_id: u16_at(b, 6),
        text_archive_id: u16_at(b, 8),
        music_day_id: u16_at(b, 10),
        music_night_id: u16_at(b, 12),
        wild_pokemon: u16_at(b, 14),
        event_file_id: u16_at(b, 16),
        location_name: u16_at(b, 18),
        weather_id: b[20],
        camera_angle_id: b[21],
        location_specifier: b[22],
        battle_background: b[23] % 16,
        flags: b[23] / 16,
    }
}

pub open spec fn dp_settings(h: MapHeaderDP) -> u8 {
    ((h.battle_background % 16) + (h.flags % 16) * 16) as u8
}

pub open spec fn dp_encode(h: MapHeaderDP) -> Seq<u8> {
    seq![
        h.area_data_id, h.unknown1,
        lo(h.matrix_id), hi(h.matrix_id),
        lo(h.script_file_id), hi(h.script_file_id),
        lo(h.level_script_id), hi(h.level_script_id),
        lo(h.text_archive_id), hi(h.text_archive_id),
        lo(h.music_day_id), hi(h.music_day_id),
        lo(h.music_night_id), hi(h.music_night_id),
        lo(h.wild_pokemon), hi(h.wild_pokemon),
        lo(h.event_file_id), hi(h.event_file_id),
        lo(h.location_name), hi(h.location_name),
        h.weather_id, h.camera_angle_id, h.location_specifier, dp_settings(h),
    ]
}

pub open spec fn dp_in_range(h: MapHeaderDP) -> bool {
    h.battle_background < 16 && h.flags < 16
}

// ----- Platinum -----

pub open spec fn pt_decode(b: Seq<u8>) -> MapHeaderPt {
    let ms = u16_at(b, 22);
    MapHeaderPt {
        area_data_id: b[0],
        unknown1: b[1],
        matrix_id: u16_at(b, 2),
        script_file_id: u16_at(b, 4),
        level_script_id: u16_at(b, 6),
        text_archive_id: u16_at(b, 8),
        music_day_id: u16_at(b, 10),
        music_night_id: u16_at(b, 12),
        wild_pokemon: u16_at(b, 14),
        event_file_id: u16_at(b, 16),
        location_name: b[18],
        area_icon: b[19],
        weather_id: b[20],
        camera_angle_id: b[21],
        location_specifier: (ms % 128) as u8,
        battle_background: ((ms / 128) % 32) as u8,
        flags: (ms / 4096) as u8,
    }
}

pub open spec fn pt_settings(h: MapHeaderPt) -> u16 {
    ((h.location_specifier % 128) + (h.battle_background % 32) * 128 + (h.flags % 16) * 4096) as u16
}

pub open spec fn pt_encode(h: MapHeaderPt) -> Seq<u8> {
    seq![
        h.area_data_id, h.unknown1,
        lo(h.matrix_id), hi(h.matrix_id),
        lo(h.script_file_id), hi(h.script_file_id),
        lo(h.level_script_id), hi(h.level_script_id),
        lo(h.text_archive_id), hi(h.text_archive_id),
        lo(h.music_day_id), hi(h.music_day_id),
        lo(h.music_night_id), hi(h.music_night_id),
        lo(h.wild_pokemon), hi(h.wild_pokemon),
        lo(h.event_file_id), hi(h.event_file_id),
        h.location_name, h.area_icon, h.weather_id, h.camera_angle_id,
        lo(pt_settings(h)), hi(pt_settings(h)),
    ]
}

pub open spec fn pt_in_range(h: MapHeaderPt) -> bool {
    h.location_specifier < 128 && h.battle_background < 32 && h.flags < 16
}

// ----- HeartGold/SoulSilver -----
//
// Bytes 2..4 hold a 16-bit word of map coordinates, byte 19 a byte of area
// properties and bytes 20..24 a 32-bit word of flags; each packs its fields
// least significant first.

/// Bits 0..4 of the coordinate word: `unknown0`.
#[verifier::opaque]
pub open spec fn coords_unknown0(c: u16) -> u8 {
    (c % 16) as u8
}

/// Bits 4..10 of the coordinate word: `worldmap_x`.
#[verifier::opaque]
pub open spec fn coords_x(c: u16) -> u8 {
    ((c / 16) % 64) as u8
}

/// Bits 10..16 of the coordinate word: `worldmap_y`.
#[verifier::opaque]
pub open spec fn coords_y(c: u16) -> u8 {
    (c / 1024) as u8
}

/// The coordinate word of three fields, each cut to its width.
#[verifier::opaque]
pub open spec fn pack_coords(u: u8, x: u8, y: u8) -> u16 {
    ((u % 16) as int + (x % 64) as int * 16 + (y % 64) as int * 1024) as u16
}

/// Bits 0..4 of the area property byte: `area_icon`.
#[verifier::opaque]
pub open spec fn props_icon(p: u8) -> u8 {
    p % 16
}

/// Bits 4..8 of the area property byte: `unknown1`.
#[verifier::opaque]
pub open spec fn props_unknown1(p: u8) -> u8 {
    p / 16
}

/// The area property byte of two fields, each cut to its width.
#[verifier::opaque]
pub open spec fn pack_props(a: u8, u: u8) -> u8 {
    ((a % 16) as int + (u % 16) as int * 16) as u8
}

/// Bit 0 of the flag word: `kanto_flag`.
#[verifier::opaque]
pub open spec fn tail_kanto(l: u32) -> bool {
    l % 2 == 1
}

/// Bits 1..8 of the flag word: `weather_id`.
#[verifier::opaque]
pub open spec fn tail_weather(l: u32) -> u8 {
    ((l / 2) % 128) as u8
}

/// Bits 8..12 of the flag word: `location_type`.
#[verifier::opaque]
pub open spec fn tail_location_type(l: u32) -> u8 {
    ((l / 256) % 16) as u8
}

/// Bits 12..18 of the flag word: `camera_angle_id`.
#[verifier::opaque]
pub open spec fn tail_camera(l: u32) -> u8 {
    ((l / 4096) % 64) as u8
}

/// Bits 18..20 of the flag word: `follow_mode`.
#[verifier::opaque]
pub open spec fn tail_follow(l: u32) -> u8 {
    ((l / 262144) % 4) as u8
}

/// Bits 20..25 of the flag word: `battle_background`.
#[verifier::opaque]
pub open spec fn tail_battle_bg(l: u32) -> u8 {
    ((l / 1048576) % 32) as u8
}

/// Bits 25..32 of the flag word: `flags`.
#[verifier::opaque]
pub open spec fn tail_flags(l: u32) -> u8 {
    (l / 33554432) as u8
}

/// The flag word of seven fields, each cut to its width.
#[verifier::opaque]
pub open spec fn pack_tail(k: bool, w: u8, t: u8, c: u8, f: u8, bb: u8, fl: u8) -> u32 {
    ((if k { 1int } else { 0int }) + (w % 128) as int * 2 + (t % 16) as int * 256 + (c % 64) as int
        * 4096 + (f % 4) as int * 262144 + (bb % 32) as int * 1048576 + (fl % 128) as int
        * 33554432) as u32
}

pub open spec fn hgss_decode(b: Seq<u8>) -> MapHeaderHGSS {
    let c = u16_at(b, 2);
    let p = b[19];
    let l = u32_at(b, 20);
    MapHeaderHGSS {
        wild_pokemon: b[0],
        area_data_id: b[1],
        unknown0: coords_unknown0(c),
        worldmap_x: coords_x(c),
        worldmap_y: coords_y(c),
        matrix_id: u16_at(b, 4),
        script_file_id: u16_at(b, 6),
        level_script_id: u16_at(b, 8),
        text_archive_id: u16_at(b, 10),
        music_day_id: u16_at(b, 12),
        music_night_id: u16_at(b, 14),
        event_file_id: u16_at(b, 16),
        location_name: b[18],
        area_icon: props_icon(p),
        unknown1: props_unknown1(p),
        kanto_flag: tail_kanto(l),
        weather_id: tail_weather(l),
        location_type: tail_location_type(l),
        camera_angle_id: tail_camera(l),
        follow_mode: tail_follow(l),
        battle_background: tail_battle_bg(l),
        flags: tail_flags(l),
    }
}

pub open spec fn hgss_coords(h: MapHeaderHGSS) -> u16 {
    pack_coords(h.unknown0, h.worldmap_x, h.worldmap_y)
}

pub open spec fn hgss_area_props(h: MapHeaderHGSS) -> u8 {
    pack_props(h.area_icon, h.unknown1)
}

pub open spec fn hgss_last32(h: MapHeaderHGSS) -> u32 {
    pack_tail(h.kanto_flag, h.weather_id, h.location_type, h.camera_angle_id, h.follow_mode,
        h.battle_background, h.flags)
}

#[verifier::opaque]
pub open spec fn hgss_encode(h: MapHeaderHGSS) -> Seq<u8> {
    let c = hgss_coords(h);
    let l = hgss_last32(h);
    seq![
        h.wild_pokemon, h.area_data_id,
        lo(c), hi(c),
        lo(h.matrix_id), hi(h.matrix_id),
        lo(h.script_file_id), hi(h.script_file_id),
        lo(h.level_script_id), hi(h.level_script_id),
        lo(h.text_archive_id), hi(h.text_archive_id),
        lo(h.music_day_id), hi(h.music_day_id),
        lo(h.music_night_id), hi(h.music_night_id),
        lo(h.event_file_id), hi(h.event_file_id),
        h.location_name, hgss_area_props(h),
        (l % 256) as u8, ((l / 256) % 256) as u8, ((l / 65536) % 256) as u8, (l / 16777216) as u8,
    ]
}

pub open spec fn hgss_in_range(h: MapHeaderHGSS) -> bool {
    &&& h.unknown0 < 16 && h.worldmap_x < 64 && h.worldmap_y < 64
    &&& h.area_icon < 16 && h.unknown1 < 16
    &&& h.weather_id < 128 && h.location_type < 16 && h.camera_angle_id < 64
    &&& h.follow_mode < 4 && h.battle_background < 32 && h.flags < 128
}

/// The header that the first 24 bytes hold in the layout of `family`.
pub open spec fn decode_header(b: Seq<u8>, family: GameFamily) -> MapHeader {
    match family {
        GameFamily::DP => MapHeader::DP(dp_decode(b)),
        GameFamily::Platinum => MapHeader::Pt(pt_decode(b)),
        GameFamily::HGSS => MapHeader::HGSS(hgss_decode(b)),
    }
}

/// The 24 bytes of a header in the layout of its own family.
pub open spec fn encode_header(h: MapHeader) -> Seq<u8> {
    match h {
        MapHeader::DP(d) => dp_encode(d),
        MapHeader::Pt(p) => pt_encode(p),
        MapHeader::HGSS(g) => hgss_encode(g),
    }
}

/// The family whose layout a header uses.
pub open spec fn header_family(h: MapHeader) -> GameFamily {
    match h {
        MapHeader::DP(_) => GameFamily::DP,
        MapHeader::Pt(_) => GameFamily::Platinum,
        MapHeader::HGSS(_) => GameFamily::HGSS,
    }
}

/// Every bitfield of the header fits its width.
pub open spec fn header_in_range(h: MapHeader) -> bool {
    match h {
        MapHeader::DP(d) => dp_in_range(d),
        MapHeader::Pt(p) => pt_in_range(p),
        MapHeader::HGSS(g) => hgss_in_range(g),
    }
}

/// The message of the error for a buffer shorter than a header.
pub open spec fn too_small_message(len: nat) -> Seq<char> {
    "Buffer too small: "@ + dec(len) + " bytes, need 24"@
}

fn dp_read(data: &[u8]) -> (h: MapHeaderDP)
    requires
        data@.len() >= 24,
    ensures
        h == dp_decode(data@),
{
    MapHeaderDP {
        area_data_id: data[0],
        unknown1: data[1],
        matrix_id: read_u16(data, 2),
        script_file_id: read_u16(data, 4),
        level_script_id: read_u16(data, 6),
        text_archive_id: read_u16(data, 8),
        music_day_id: read_u16(data, 10),
        music_night_id: read_u16(data, 12),
        wild_pokemon: read_u16(data, 14),
        event_file_id: read_u16(data, 16),
        location_name: read_u16(data, 18),
        weather_id: data[20],
        camera_angle_id: data[21],
        location_specifier: data[22],
        battle_background: data[23] % 16,
        flags: data[23] / 16,
    }
}

fn pt_read(data: &[u8]) -> (h: MapHeaderPt)
    requires
        data@.len() >= 24,
    ensures
        h == pt_decode(data@),
{
    let ms = read_u16(data, 22);
    MapHeaderPt {
        area_data_id: data[0],
        unknown1: data[1],
        matrix_id: read_u16(data, 2),
        script_file_id: read_u16(data, 4),
        level_script_id: read_u16(data, 6),
        text_archive_id: read_u16(data, 8),
        music_day_id: read_u16(data, 10),
        music_night_id: read_u16(data, 12),
        wild_pokemon: read_u16(data, 14),
        event_file_id: read_u16(data, 16),
        location_name: data[18],
        area_icon: data[19],
        weather_id: data[20],
        camera_angle_id: data[21],
        location_specifier: (ms % 128) as u8,
        battle_background: ((ms / 128) % 32) as u8,
        flags: (ms / 4096) as u8,
    }
}

fn hgss_read(data: &[u8]) -> (h: MapHeaderHGSS)
    requires
        data@.len() >= 24,
    ensures
        h == hgss_decode(data@),
{
    let c = read_u16(data, 2);
    let p = data[19];
    let l = read_u32(data, 20);
    proof {
        reveal(coords_unknown0);
        reveal(coords_x);
        reveal(coords_y);
        reveal(props_icon);
        reveal(props_unknown1);
        reveal(tail_kanto);
        reveal(tail_weather);
        reveal(tail_location_type);
        reveal(tail_camera);
        reveal(tail_follow);
        reveal(tail_battle_bg);
        reveal(tail_flags);
    }
    MapHeaderHGSS {
        wild_pokemon: data[0],
        area_data_id: data[1],
        unknown0: (c % 16) as u8,
        worldmap_x: ((c / 16) % 64) as u8,
        worldmap_y: (c / 1024) as u8,
        matrix_id: read_u16(data, 4),
        script_file_id: read_u16(data, 6),
        level_script_id: read_u16(data, 8),
        text_archive_id: read_u16(data, 10),
        music_day_id: read_u16(data, 12),
        music_night_id: read_u16(data, 14),
        event_file_id: read_u16(data, 16),
        location_name: data[18],
        area_icon: p % 16,
        unknown1: p / 16,
        kanto_flag: l % 2 == 1,
        weather_id: ((l / 2) % 128) as u8,
        location_type: ((l / 256) % 16) as u8,
        camera_angle_id: ((l / 4096) % 64) as u8,
        follow_mode: ((l / 262144) % 4) as u8,
        battle_background: ((l / 1048576) % 32) as u8,
        flags: (l / 33554432) as u8,
    }
}

/// Read one header from the start of `data` in the layout of `family`.
pub fn read_map_header_from_bytes(data: &[u8], family: GameFamily) -> (r: Result<MapHeader, UxieError>)
    ensures
        data@.len() >= 24 ==> r == Ok::<MapHeader, UxieError>(decode_header(data@, family)),
        data@.len() < 24 ==> (r matches Err(e) && e matches UxieError::Io { kind, message }
            && kind == ErrorKind::InvalidData && message@ == too_small_message(data@.len())),
{
    if data.len() < MAP_HEADER_SIZE {
        let mut message = String::new();
        push_str(&mut message, "Buffer too small: ");
        push_dec(&mut message, data.len() as u64);
        push_str(&mut message, " bytes, need 24");
        assert(message@ =~= too_small_message(data@.len()));
        return Err(UxieError::invalid_data(message));
    }
    match family {
        GameFamily::DP => Ok(MapHeader::DP(dp_read(data))),
        GameFamily::Platinum => Ok(MapHeader::Pt(pt_read(data))),
        GameFamily::HGSS => Ok(MapHeader::HGSS(hgss_read(data))),
    }
}

/// Read `count` consecutive headers starting at byte `header_table_offset` of
/// an ARM9 image.
pub fn read_map_headers_from_arm9(data: &[u8], header_table_offset: u64, count: usize, family: GameFamily) -> (r: Result<Vec<MapHeader>, UxieError>)
    ensures
        match r {
            Ok(hs) => header_table_offset + 24 * count <= data@.len() && hs@.len() == count
                && forall|i: int| 0 <= i < count ==> #[trigger] hs@[i] == decode_header(
                    data@.subrange(header_table_offset + 24 * i, header_table_offset + 24 * i + 24),
                    family,
                ),
            Err(e) => header_table_offset + 24 * count > data@.len() && e.spec_kind()
                == ErrorKind::UnexpectedEof,
        },
{
    let mut headers: Vec<MapHeader> = Vec::new();
    if header_table_offset > data.len() as u64 {
        return Err(UxieError::unexpected_eof());
    }
    let start = header_table_offset as usize;
    let mut i: usize = 0;
    let mut off: usize = start;
    while i < count
        invariant
            start == header_table_offset,
            start <= data@.len(),
            i <= count,
            off == start + 24 * i,
            off <= data@.len(),
            headers@.len() == i,
            forall|k: int| 0 <= k < i ==> #[trigger] headers@[k] == decode_header(
                data@.subrange(start + 24 * k, start + 24 * k + 24),
                family,
            ),
        decreases count - i,
    {
        if data.len() - off < MAP_HEADER_SIZE {
            return Err(UxieError::unexpected_eof());
        }
        let slice = slice_range(data, off, off + 24);
        let h = match read_map_header_from_bytes(slice, family) {
            Ok(h) => h,
            Err(e) => {
                return Err(e);
            },
        };
        headers.push(h);
        i = i + 1;
        off = off + 24;
    }
    Ok(headers)
}

/// `&data[lo..hi]`.
pub fn slice_range(data: &[u8], lo: usize, hi: usize) -> (s: &[u8])
    requires
        lo <= hi <= data@.len(),
    ensures
        s@ == data@.subrange(lo as int, hi as int),
{
    let (_, tail) = data.split_at(lo);
    let (mid, _) = tail.split_at(hi - lo);
    assert(mid@ =~= data@.subrange(lo as int, hi as int));
    mid
}

fn push2(out: &mut Vec<u8>, v: u16)
    ensures
        final(out)@ == old(out)@.push(lo(v)).push(hi(v)),
{
    out.push((v % 256) as u8);
    out.push((v / 256) as u8);
}

/// The 24 bytes of a header in the layout of its own family.
pub fn write_map_header_to_bytes(header: &MapHeader) -> (bytes: Vec<u8>)
    ensures
        bytes@ == encode_header(*header),
        bytes@.len() == 24,
{
    let mut out: Vec<u8> = Vec::new();
    match header {
        MapHeader::DP(h) => {
            out.push(h.area_data_id);
            out.push(h.unknown1);
            push2(&mut out, h.matrix_id);
            push2(&mut out, h.script_file_id);
            push2(&mut out, h.level_script_id);
            push2(&mut out, h.text_archive_id);
            push2(&mut out, h.music_day_id);
            push2(&mut out, h.music_night_id);
            push2(&mut out, h.wild_pokemon);
            push2(&mut out, h.event_file_id);
            push2(&mut out, h.location_name);
            out.push(h.weather_id);
            out.push(h.camera_angle_id);
            out.push(h.location_specifier);
            out.push((h.battle_background % 16) + (h.flags % 16) * 16);
            assert(out@ =~= dp_encode(*h));
        },
        MapHeader::Pt(h) => {
            out.push(h.area_data_id);
            out.push(h.unknown1);
            push2(&mut out, h.matrix_id);
            push2(&mut out, h.script_file_id);
            push2(&mut out, h.level_script_id);
            push2(&mut out, h.text_archive_id);
            push2(&mut out, h.music_day_id);
            push2(&mut out, h.music_night_id);
            push2(&mut out, h.wild_pokemon);
            push2(&mut out, h.event_file_id);
            out.push(h.location_name);
            out.push(h.area_icon);
            out.push(h.weather_id);
            out.push(h.camera_angle_id);
            let ms: u16 = (h.location_specifier % 128) as u16 + ((h.battle_background % 32) as u16)
                * 128 + ((h.flags % 16) as u16) * 4096;
            push2(&mut out, ms);
            assert(out@ =~= pt_encode(*h));
        },
        MapHeader::HGSS(h) => {
            let c: u16 = (h.unknown0 % 16) as u16 + ((h.worldmap_x % 64) as u16) * 16 + ((
            h.worldmap_y % 64) as u16) * 1024;
            let p: u8 = (h.area_icon % 16) + (h.unknown1 % 16) * 16;
            let l: u32 = (if h.kanto_flag { 1u32 } else { 0u32 }) + ((h.weather_id % 128) as u32) * 2
                + ((h.location_type % 16) as u32) * 256 + ((h.camera_angle_id % 64) as u32) * 4096
                + ((h.follow_mode % 4) as u32) * 262144 + ((h.battle_background % 32) as u32)
                * 1048576 + ((h.flags % 128) as u32) * 33554432;
            proof {
                reveal(pack_coords);
                reveal(pack_props);
                reveal(pack_tail);
                reveal(hgss_encode);
            }
            assert(c == hgss_coords(*h));
            assert(p == hgss_area_props(*h));
            assert(l == hgss_last32(*h));
            out.push(h.wild_pokemon);
            out.push(h.area_data_id);
            push2(&mut out, c);
            push2(&mut out, h.matrix_id);
            push2(&mut out, h.script_file_id);
            push2(&mut out, h.level_script_id);
            push2(&mut out, h.text_archive_id);
            push2(&mut out, h.music_day_id);
            push2(&mut out, h.music_night_id);
            push2(&mut out, h.event_file_id);
            out.push(h.location_name);
            out.push(p);
            out.push((l % 256) as u8);
            out.push(((l / 256) % 256) as u8);
            out.push(((l / 65536) % 256) as u8);
            out.push((l / 16777216) as u8);
            assert(out@ =~= hgss_encode(*h));
        },
    }
    out
}

proof fn lemma_u16_join(a: u8, b: u8)
    ensures
        lo((a as int + 256 * b as int) as u16) == a,
        hi((a as int + 256 * b as int) as u16) == b,
{
}

proof fn lemma_dp_header_roundtrip(h: MapHeaderDP)
    requires
        dp_in_range(h),
    ensures
        dp_decode(dp_encode(h)) == h,
{
    let b = dp_encode(h);
    let s = dp_settings(h);
    assert(s == h.battle_background + h.flags * 16);
    assert(s % 16 == h.battle_background && s / 16 == h.flags) by (nonlinear_arith)
        requires s == h.battle_background + h.flags * 16, h.battle_background < 16, h.flags < 16;
    assert(dp_decode(b) == h);
}

proof fn lemma_dp_bytes_roundtrip(b: Seq<u8>)
    requires
        b.len() >= 24,
    ensures
        dp_encode(dp_decode(b)) == b.subrange(0, 24),
        dp_in_range(dp_decode(b)),
{
    let h = dp_decode(b);
    let x = b[23];
    assert(dp_settings(h) == x) by (nonlinear_arith)
        requires dp_settings(h) == ((x % 16) % 16 + ((x / 16) % 16) * 16) as u8, x < 256;
    assert(dp_encode(h) =~= b.subrange(0, 24));
}

proof fn lemma_pt_header_roundtrip(h: MapHeaderPt)
    requires
        pt_in_range(h),
    ensures
        pt_decode(pt_encode(h)) == h,
{
    let m = pt_settings(h);
    assert(m == h.location_specifier + h.battle_background * 128 + h.flags * 4096);
    assert(m % 128 == h.location_specifier && (m / 128) % 32 == h.battle_background && m / 4096
        == h.flags) by (nonlinear_arith)
        requires
            m == h.location_specifier + h.battle_background * 128 + h.flags * 4096,
            h.location_specifier < 128,
            h.battle_background < 32,
            h.flags < 16,
    ;
    assert(u16_at(pt_encode(h), 22) == m);
    assert(pt_decode(pt_encode(h)) == h);
}

proof fn lemma_pt_bytes_roundtrip(b: Seq<u8>)
    requires
        b.len() >= 24,
    ensures
        pt_encode(pt_decode(b)) == b.subrange(0, 24),
        pt_in_range(pt_decode(b)),
{
    let h = pt_decode(b);
    let m = u16_at(b, 22);
    assert(pt_settings(h) == m) by (nonlinear_arith)
        requires
            pt_settings(h) == (((m % 128) as u8 % 128) + (((m / 128) % 32) as u8 % 32) * 128 + ((m
                / 4096) as u8 % 16) * 4096) as u16,
            m < 65536,
    ;
    assert(pt_encode(h) =~= b.subrange(0, 24));
}

proof fn lemma_l32_join(k: u32, w: u32, t: u32, c: u32, f: u32, bb: u32, fl: u32)
    by (bit_vector)
    requires
        k < 2, w < 128, t < 16, c < 64, f < 4, bb < 32, fl < 128,
    ensures
        (k + w * 2 + t * 256 + c * 4096 + f * 262144 + bb * 1048576 + fl * 33554432) % 2 == k,
        ((k + w * 2 + t * 256 + c * 4096 + f * 262144 + bb * 1048576 + fl * 33554432) / 2) % 128 == w,
        ((k + w * 2 + t * 256 + c * 4096 + f * 262144 + bb * 1048576 + fl * 33554432) / 256) % 16 == t,
        ((k + w * 2 + t * 256 + c * 4096 + f * 262144 + bb * 1048576 + fl * 33554432) / 4096) % 64 == c,
        ((k + w * 2 + t * 256 + c * 4096 + f * 262144 + bb * 1048576 + fl * 33554432) / 262144) % 4 == f,
        ((k + w * 2 + t * 256 + c * 4096 + f * 262144 + bb * 1048576 + fl * 33554432) / 1048576) % 32 == bb,
        (k + w * 2 + t * 256 + c * 4096 + f * 262144 + bb * 1048576 + fl * 33554432) / 33554432 == fl,
{
}

proof fn lemma_l32_split(l: u32)
    by (bit_vector)
    ensures
        l == (l % 2) + ((l / 2) % 128) * 2 + ((l / 256) % 16) * 256 + ((l / 4096) % 64) * 4096 + ((l
            / 262144) % 4) * 262144 + ((l / 1048576) % 32) * 1048576 + (l / 33554432) * 33554432,
        l / 33554432 < 128,
{
}

proof fn lemma_c16_join(u: u16, x: u16, y: u16)
    by (bit_vector)
    requires
        u < 16, x < 64, y < 64,
    ensures
        (u + x * 16 + y * 1024) % 16 == u,
        ((u + x * 16 + y * 1024) / 16) % 64 == x,
        (u + x * 16 + y * 1024) / 1024 == y,
{
}

proof fn lemma_c16_split(c: u16)
    by (bit_vector)
    ensures
        c == (c % 16) + ((c / 16) % 64) * 16 + (c / 1024) * 1024,
        c / 1024 < 64,
{
}

proof fn lemma_coords_unpack(u: u8, x: u8, y: u8)
    requires
        u < 16, x < 64, y < 64,
    ensures
        coords_unknown0(pack_coords(u, x, y)) == u,
        coords_x(pack_coords(u, x, y)) == x,
        coords_y(pack_coords(u, x, y)) == y,
{
    reveal(pack_coords);
    reveal(coords_unknown0);
    reveal(coords_x);
    reveal(coords_y);
    lemma_c16_join(u as u16, x as u16, y as u16);
}

proof fn lemma_coords_repack(c: u16)
    ensures
        pack_coords(coords_unknown0(c), coords_x(c), coords_y(c)) == c,
        coords_unknown0(c) < 16,
        coords_x(c) < 64,
        coords_y(c) < 64,
{
    reveal(pack_coords);
    reveal(coords_unknown0);
    reveal(coords_x);
    reveal(coords_y);
    lemma_c16_split(c);
}

proof fn lemma_props_unpack(a: u8, u: u8)
    requires
        a < 16, u < 16,
    ensures
        props_icon(pack_props(a, u)) == a,
        props_unknown1(pack_props(a, u)) == u,
{
    reveal(pack_props);
    reveal(props_icon);
    reveal(props_unknown1);
}

proof fn lemma_props_repack(p: u8)
    ensures
        pack_props(props_icon(p), props_unknown1(p)) == p,
        props_icon(p) < 16,
        props_unknown1(p) < 16,
{
    reveal(pack_props);
    reveal(props_icon);
    reveal(props_unknown1);
}

proof fn lemma_tail_unpack(k: bool, w: u8, t: u8, c: u8, f: u8, bb: u8, fl: u8)
    requires
        w < 128, t < 16, c < 64, f < 4, bb < 32, fl < 128,
    ensures
        tail_kanto(pack_tail(k, w, t, c, f, bb, fl)) == k,
        tail_weather(pack_tail(k, w, t, c, f, bb, fl)) == w,
        tail_location_type(pack_tail(k, w, t, c, f, bb, fl)) == t,
        tail_camera(pack_tail(k, w, t, c, f, bb, fl)) == c,
        tail_follow(pack_tail(k, w, t, c, f, bb, fl)) == f,
        tail_battle_bg(pack_tail(k, w, t, c, f, bb, fl)) == bb,
        tail_flags(pack_tail(k, w, t, c, f, bb, fl)) == fl,
{
    reveal(pack_tail);
    reveal(tail_kanto);
    reveal(tail_weather);
    reveal(tail_location_type);
    reveal(tail_camera);
    reveal(tail_follow);
    reveal(tail_battle_bg);
    reveal(tail_flags);
    let kk: u32 = if k { 1 } else { 0 };
    lemma_l32_join(kk, w as u32, t as u32, c as u32, f as u32, bb as u32, fl as u32);
}

proof fn lemma_tail_repack(l: u32)
    ensures
        pack_tail(tail_kanto(l), tail_weather(l), tail_location_type(l), tail_camera(l),
            tail_follow(l), tail_battle_bg(l), tail_flags(l)) == l,
        tail_weather(l) < 128,
        tail_location_type(l) < 16,
        tail_camera(l) < 64,
        tail_follow(l) < 4,
        tail_battle_bg(l) < 32,
        tail_flags(l) < 128,
{
    reveal(pack_tail);
    reveal(tail_kanto);
    reveal(tail_weather);
    reveal(tail_location_type);
    reveal(tail_camera);
    reveal(tail_follow);
    reveal(tail_battle_bg);
    reveal(tail_flags);
    lemma_l32_split(l);
}

/// Where `hgss_encode` puts each field.
proof fn lemma_hgss_encode_layout(h: MapHeaderHGSS)
    ensures
        hgss_encode(h).len() == 24,
        hgss_encode(h)[0] == h.wild_pokemon,
        hgss_encode(h)[1] == h.area_data_id,
        u16_at(hgss_encode(h), 2) == hgss_coords(h),
        u16_at(hgss_encode(h), 4) == h.matrix_id,
        u16_at(hgss_encode(h), 6) == h.script_file_id,
        u16_at(hgss_encode(h), 8) == h.level_script_id,
        u16_at(hgss_encode(h), 10) == h.text_archive_id,
        u16_at(hgss_encode(h), 12) == h.music_day_id,
        u16_at(hgss_encode(h), 14) == h.music_night_id,
        u16_at(hgss_encode(h), 16) == h.event_file_id,
        hgss_encode(h)[18] == h.location_name,
        hgss_encode(h)[19] == hgss_area_props(h),
        u32_at(hgss_encode(h), 20) == hgss_last32(h),
{
    reveal(hgss_encode);
    let b = hgss_encode(h);
    let l = hgss_last32(h);
    crate::bytes::lemma_u32_roundtrip(b.subrange(0, 20), l, Seq::empty());
    assert(b.subrange(0, 20) + enc_u32(l) + Seq::<u8>::empty() =~= b);
}

proof fn lemma_hgss_header_roundtrip(h: MapHeaderHGSS)
    requires
        hgss_in_range(h),
    ensures
        hgss_decode(hgss_encode(h)) == h,
{
    lemma_hgss_encode_layout(h);
    lemma_coords_unpack(h.unknown0, h.worldmap_x, h.worldmap_y);
    lemma_props_unpack(h.area_icon, h.unknown1);
    lemma_tail_unpack(h.kanto_flag, h.weather_id, h.location_type, h.camera_angle_id,
        h.follow_mode, h.battle_background, h.flags);
}

proof fn lemma_hgss_bytes_roundtrip(b: Seq<u8>)
    requires
        b.len() >= 24,
    ensures
        hgss_encode(hgss_decode(b)) == b.subrange(0, 24),
        hgss_in_range(hgss_decode(b)),
{
    let h = hgss_decode(b);
    lemma_coords_repack(u16_at(b, 2));
    lemma_props_repack(b[19]);
    lemma_tail_repack(u32_at(b, 20));
    lemma_u16_join(b[2], b[3]);
    lemma_u16_join(b[4], b[5]);
    lemma_u16_join(b[6], b[7]);
    lemma_u16_join(b[8], b[9]);
    lemma_u16_join(b[10], b[11]);
    lemma_u16_join(b[12], b[13]);
    lemma_u16_join(b[14], b[15]);
    lemma_u16_join(b[16], b[17]);
    crate::bytes::lemma_enc_u32_of_bytes(b[20], b[21], b[22], b[23]);
    let l = hgss_last32(h);
    assert(l == u32_at(b, 20));
    assert(enc_u32(l) == seq![b[20], b[21], b[22], b[23]]);
    assert(enc_u32(l)[0] == b[20]);
    assert(enc_u32(l)[1] == b[21]);
    assert(enc_u32(l)[2] == b[22]);
    assert(enc_u32(l)[3] == b[23]);
    reveal(hgss_encode);
    assert(hgss_encode(h) =~= b.subrange(0, 24));
}

/// Law: a header whose bitfields fit their widths, written by
/// `write_map_header_to_bytes` and read back in the layout of its family by
/// `read_map_header_from_bytes`, is the same header.
pub proof fn map_header_roundtrip(h: MapHeader)
    requires
        header_in_range(h),
    ensures
        encode_header(h).len() == 24,
        decode_header(encode_header(h), header_family(h)) == h,
{
    match h {
        MapHeader::DP(d) => lemma_dp_header_roundtrip(d),
        MapHeader::Pt(p) => lemma_pt_header_roundtrip(p),
        MapHeader::HGSS(g) => {
            lemma_hgss_encode_layout(g);
            lemma_hgss_header_roundtrip(g);
        },
    }
}

/// Law: every 24 bytes are a header of every family: reading them and
/// writing the header again gives back the same 24 bytes, and the header read
/// has all bitfields in range.
pub proof fn map_header_bytes_roundtrip(b: Seq<u8>, family: GameFamily)
    requires
        b.len() >= 24,
    ensures
        encode_header(decode_header(b, family)) == b.subrange(0, 24),
        header_in_range(decode_header(b, family)),
        header_family(decode_header(b, family)) == family,
{
    match family {
        GameFamily::DP => lemma_dp_bytes_roundtrip(b),
        GameFamily::Platinum => lemma_pt_bytes_roundtrip(b),
        GameFamily::HGSS => lemma_hgss_bytes_roundtrip(b),
    }
}

/// Law: a Diamond/Pearl header is, from byte 0, the area data id and an
/// unknown byte, then the matrix, script file, level script, text archive,
/// day music, night music, wild Pokémon, event file and location name ids
/// (little-endian `u16`s from byte 2), the weather, camera angle and location
/// specifier bytes at 20, 21 and 22, and at byte 23 the battle background in
/// the low four bits and the flags in the high four. Reading takes each field
/// from its place.
pub proof fn dp_read_layout(b: Seq<u8>, h: MapHeaderDP)
    requires
        b.len() >= 24,
        decode_header(b, GameFamily::DP) == MapHeader::DP(h),
    ensures
        h.area_data_id == b[0],
        h.unknown1 == b[1],
        h.matrix_id == u16_at(b, 2),
        h.script_file_id == u16_at(b, 4),
        h.level_script_id == u16_at(b, 6),
        h.text_archive_id == u16_at(b, 8),
        h.music_day_id == u16_at(b, 10),
        h.music_night_id == u16_at(b, 12),
        h.wild_pokemon == u16_at(b, 14),
        h.event_file_id == u16_at(b, 16),
        h.location_name == u16_at(b, 18),
        h.weather_id == b[20],
        h.camera_angle_id == b[21],
        h.location_specifier == b[22],
        h.battle_background as int == b[23] % 16,
        h.flags as int == b[23] / 16,
{
}

/// Law: writing a Diamond/Pearl header whose bitfields fit puts each field
/// where [`dp_read_layout`] reads it.
pub proof fn dp_write_layout(h: MapHeaderDP)
    requires
        dp_in_range(h),
    ensures
        encode_header(MapHeader::DP(h)).len() == 24,
        h.area_data_id == encode_header(MapHeader::DP(h))[0],
        h.unknown1 == encode_header(MapHeader::DP(h))[1],
        h.matrix_id == u16_at(encode_header(MapHeader::DP(h)), 2),
        h.script_file_id == u16_at(encode_header(MapHeader::DP(h)), 4),
        h.level_script_id == u16_at(encode_header(MapHeader::DP(h)), 6),
        h.text_archive_id == u16_at(encode_header(MapHeader::DP(h)), 8),
        h.music_day_id == u16_at(encode_header(MapHeader::DP(h)), 10),
        h.music_night_id == u16_at(encode_header(MapHeader::DP(h)), 12),
        h.wild_pokemon == u16_at(encode_header(MapHeader::DP(h)), 14),
        h.event_file_id == u16_at(encode_header(MapHeader::DP(h)), 16),
        h.location_name == u16_at(encode_header(MapHeader::DP(h)), 18),
        h.weather_id == encode_header(MapHeader::DP(h))[20],
        h.camera_angle_id == encode_header(MapHeader::DP(h))[21],
        h.location_specifier == encode_header(MapHeader::DP(h))[22],
        h.battle_background as int == encode_header(MapHeader::DP(h))[23] % 16,
        h.flags as int == encode_header(MapHeader::DP(h))[23] / 16,
{
    lemma_dp_header_roundtrip(h);
    dp_read_layout(encode_header(MapHeader::DP(h)), h);
}

/// Law: a Platinum header is laid out as a Diamond/Pearl one up to the event
/// file id; then the location name, area icon, weather and camera angle are
/// bytes 18 to 21, and the little-endian word at byte 22 holds the location
/// specifier in bits 0-6, the battle background in bits 7-11 and the flags in
/// bits 12-15. Reading takes each field from its place.
pub proof fn pt_read_layout(b: Seq<u8>, h: MapHeaderPt)
    requires
        b.len() >= 24,
        decode_header(b, GameFamily::Platinum) == MapHeader::Pt(h),
    ensures
        h.area_data_id == b[0],
        h.unknown1 == b[1],
        h.matrix_id == u16_at(b, 2),
        h.script_file_id == u16_at(b, 4),
        h.level_script_id == u16_at(b, 6),
        h.text_archive_id == u16_at(b, 8),
        h.music_day_id == u16_at(b, 10),
        h.music_night_id == u16_at(b, 12),
        h.wild_pokemon == u16_at(b, 14),
        h.event_file_id == u16_at(b, 16),
        h.location_name == b[18],
        h.area_icon == b[19],
        h.weather_id == b[20],
        h.camera_angle_id == b[21],
        h.location_specifier as int == u16_at(b, 22) % 128,
        h.battle_background as int == u16_at(b, 22) / 128 % 32,
        h.flags as int == u16_at(b, 22) / 4096,
{
}

/// Law: writing a Platinum header whose bitfields fit puts each field where
/// [`pt_read_layout`] reads it.
pub proof fn pt_write_layout(h: MapHeaderPt)
    requires
        pt_in_range(h),
    ensures
        encode_header(MapHeader::Pt(h)).len() == 24,
        h.area_data_id == encode_header(MapHeader::Pt(h))[0],
        h.unknown1 == encode_header(MapHeader::Pt(h))[1],
        h.matrix_id == u16_at(encode_header(MapHeader::Pt(h)), 2),
        h.script_file_id == u16_at(encode_header(MapHeader::Pt(h)), 4),
        h.level_script_id == u16_at(encode_header(MapHeader::Pt(h)), 6),
        h.text_archive_id == u16_at(encode_header(MapHeader::Pt(h)), 8),
        h.music_day_id == u16_at(encode_header(MapHeader::Pt(h)), 10),
        h.music_night_id == u16_at(encode_header(MapHeader::Pt(h)), 12),
        h.wild_pokemon == u16_at(encode_header(MapHeader::Pt(h)), 14),
        h.event_file_id == u16_at(encode_header(MapHeader::Pt(h)), 16),
        h.location_name == encode_header(MapHeader::Pt(h))[18],
        h.area_icon == encode_header(MapHeader::Pt(h))[19],
        h.weather_id == encode_header(MapHeader::Pt(h))[20],
        h.camera_angle_id == encode_header(MapHeader::Pt(h))[21],
        h.location_specifier as int == u16_at(encode_header(MapHeader::Pt(h)), 22) % 128,
        h.battle_background as int == u16_at(encode_header(MapHeader::Pt(h)), 22) / 128 % 32,
        h.flags as int == u16_at(encode_header(MapHeader::Pt(h)), 22) / 4096,
{
    lemma_pt_header_roundtrip(h);
    pt_read_layout(encode_header(MapHeader::Pt(h)), h);
}

/// Law: a HeartGold/SoulSilver header is, from byte 0, the wild Pokémon and
/// area data bytes; at byte 2 a little-endian word with an unknown field in
/// bits 0-3, the world map x in bits 4-9 and y in bits 10-15; the matrix,
/// script file, level script, text archive, day music, night music and event
/// file ids as little-endian `u16`s from byte 4; the location name at byte
/// 18; at byte 19 the area icon in the low four bits and an unknown field in
/// the high four; and at byte 20 a little-endian `u32` holding the Kanto flag
/// (bit 0), weather (bits 1-7), location type (8-11), camera angle (12-17),
/// follow mode (18-19), battle background (20-24) and flags (25-31). Reading
/// takes each field from its place.
pub proof fn hgss_read_layout(b: Seq<u8>, h: MapHeaderHGSS)
    requires
        b.len() >= 24,
        decode_header(b, GameFamily::HGSS) == MapHeader::HGSS(h),
    ensures
        h.wild_pokemon == b[0],
        h.area_data_id == b[1],
        h.matrix_id == u16_at(b, 4),
        h.script_file_id == u16_at(b, 6),
        h.level_script_id == u16_at(b, 8),
        h.text_archive_id == u16_at(b, 10),
        h.music_day_id == u16_at(b, 12),
        h.music_night_id == u16_at(b, 14),
        h.event_file_id == u16_at(b, 16),
        h.location_name == b[18],
        h.unknown0 as int == u16_at(b, 2) % 16,
        h.worldmap_x as int == u16_at(b, 2) / 16 % 64,
        h.worldmap_y as int == u16_at(b, 2) / 1024,
        h.area_icon as int == b[19] % 16,
        h.unknown1 as int == b[19] / 16,
        h.kanto_flag == (u32_at(b, 20) % 2 == 1),
        h.weather_id as int == u32_at(b, 20) / 2 % 128,
        h.location_type as int == u32_at(b, 20) / 256 % 16,
        h.camera_angle_id as int == u32_at(b, 20) / 4096 % 64,
        h.follow_mode as int == u32_at(b, 20) / 262144 % 4,
        h.battle_background as int == u32_at(b, 20) / 1048576 % 32,
        h.flags as int == u32_at(b, 20) / 33554432,
{
    reveal(coords_unknown0);
    reveal(coords_x);
    reveal(coords_y);
    reveal(props_icon);
    reveal(props_unknown1);
    reveal(tail_kanto);
    reveal(tail_weather);
    reveal(tail_location_type);
    reveal(tail_camera);
    reveal(tail_follow);
    reveal(tail_battle_bg);
    reveal(tail_flags);
}

/// Law: writing a HeartGold/SoulSilver header whose bitfields fit puts each
/// field where [`hgss_read_layout`] reads it.
pub proof fn hgss_write_layout(h: MapHeaderHGSS)
    requires
        hgss_in_range(h),
    ensures
        encode_header(MapHeader::HGSS(h)).len() == 24,
        h.wild_pokemon == encode_header(MapHeader::HGSS(h))[0],
        h.area_data_id == encode_header(MapHeader::HGSS(h))[1],
        h.matrix_id == u16_at(encode_header(MapHeader::HGSS(h)), 4),
        h.script_file_id == u16_at(encode_header(MapHeader::HGSS(h)), 6),
        h.level_script_id == u16_at(encode_header(MapHeader::HGSS(h)), 8),
        h.text_archive_id == u16_at(encode_header(MapHeader::HGSS(h)), 10),
        h.music_day_id == u16_at(encode_header(MapHeader::HGSS(h)), 12),
        h.music_night_id == u16_at(encode_header(MapHeader::HGSS(h)), 14),
        h.event_file_id == u16_at(encode_header(MapHeader::HGSS(h)), 16),
        h.location_name == encode_header(MapHeader::HGSS(h))[18],
        h.unknown0 as int == u16_at(encode_header(MapHeader::HGSS(h)), 2) % 16,
        h.worldmap_x as int == u16_at(encode_header(MapHeader::HGSS(h)), 2) / 16 % 64,
        h.worldmap_y as int == u16_at(encode_header(MapHeader::HGSS(h)), 2) / 1024,
        h.area_icon as int == encode_header(MapHeader::HGSS(h))[19] % 16,
        h.unknown1 as int == encode_header(MapHeader::HGSS(h))[19] / 16,
        h.kanto_flag == (u32_at(encode_header(MapHeader::HGSS(h)), 20) % 2 == 1),
        h.weather_id as int == u32_at(encode_header(MapHeader::HGSS(h)), 20) / 2 % 128,
        h.location_type as int == u32_at(encode_header(MapHeader::HGSS(h)), 20) / 256 % 16,
        h.camera_angle_id as int == u32_at(encode_header(MapHeader::HGSS(h)), 20) / 4096 % 64,
        h.follow_mode as int == u32_at(encode_header(MapHeader::HGSS(h)), 20) / 262144 % 4,
        h.battle_background as int == u32_at(encode_header(MapHeader::HGSS(h)), 20) / 1048576 % 32,
        h.flags as int == u32_at(encode_header(MapHeader::HGSS(h)), 20) / 33554432,
{
    map_header_roundtrip(MapHeader::HGSS(h));
    hgss_read_layout(encode_header(MapHeader::HGSS(h)), h);
}

} // verus!
