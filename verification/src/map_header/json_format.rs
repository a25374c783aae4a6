//! Map headers in the JSON form of the decompilation: every field a text
//! that is a constant name or a number.
use vstd::prelude::*;
use crate::c_parser::symbol_table::{SymbolTable, SymView, lookups_safe, lemma_lookups_safe, resolved, shortest_name, starts_with, name_view};
use crate::text::{dec, dec_int, i64_to_string, u64_to_string};
use super::MapHeader;

verus! {

/// A map header as the decompilation's JSON writes it.
#[derive(Debug, Clone, PartialEq, Eq)]
pub struct MapHeaderJson {
    pub id: Option<String>,
    pub music_day_id: Option<String>,
    pub music_night_id: Option<String>,
    pub wild_pokemon: Option<String>,
    pub event_file_id: Option<String>,
    pub text_archive_id: Option<String>,
    pub location_name: Option<String>,
    pub area_icon: Option<String>,
    pub weather_id: Option<String>,
    pub camera_angle_id: Option<String>,
    pub battle_background: Option<String>,
    pub flags: Option<String>,
}

/// A field after constant resolution: a known constant becomes its value
/// in decimal; anything else is kept.
pub open spec fn resolved_field(syms: SymView, o: Option<Seq<char>>) -> Option<Seq<char>> {
    match o {
        Some(s) => match resolved(syms, s) {
            Some(v) => Some(dec_int(v as int)),
            None => Some(s),
        },
        None => None,
    }
}

/// The name a value is written with: its shortest constant with `prefix`,
/// else the number.
pub open spec fn name_or_number(syms: SymView, v: u16, prefix: Seq<char>) -> Seq<char> {
    match shortest_name(syms.entries, v as i64, |n: Seq<char>| starts_with(n, prefix)) {
        Some(n) => n,
        None => dec(v as nat),
    }
}

fn resolve_field(symbols: &SymbolTable, o: &Option<String>) -> (r: Option<String>)
    requires
        lookups_safe(symbols.sv()),
    ensures
        name_view(r) == resolved_field(symbols.sv(), name_view(*o)),
{
    match o {
        Some(s) => {
            proof { lemma_lookups_safe(symbols.sv(), s@); }
            match symbols.resolve_constant(s.as_str()) {
                Some(v) => Some(i64_to_string(v)),
                None => Some(s.clone()),
            }
        },
        None => None,
    }
}

fn name_or_number_exec(symbols: &SymbolTable, v: u16, prefix: &str) -> (s: String)
    ensures
        s@ == name_or_number(symbols.sv(), v, prefix@),
{
    match symbols.resolve_name(v as i64, prefix) {
        Some(n) => n,
        None => u64_to_string(v as u64),
    }
}

fn number(v: u16) -> (s: String)
    ensures
        s@ == dec(v as nat),
{
    u64_to_string(v as u64)
}

/// The fields of a header.
pub open spec fn json_fields(j: MapHeaderJson) -> Seq<Option<Seq<char>>> {
    seq![name_view(j.id), name_view(j.music_day_id), name_view(j.music_night_id), name_view(j.wild_pokemon), name_view(j.event_file_id), name_view(j.text_archive_id), name_view(j.location_name), name_view(j.area_icon), name_view(j.weather_id), name_view(j.camera_angle_id), name_view(j.battle_background), name_view(j.flags)] 
}

/// The JSON form of a binary header: sound, location, weather, camera and
/// battle background written by their constant names where the table has
/// them (prefixes `SEQ_`, `MAPSEC_`, `OVERWORLD_WEATHER_`, `CAMERA_TYPE_`,
/// `BATTLE_BG_`), the other fields as numbers; no area icon for
/// Diamond/Pearl and no id.
pub open spec fn json_of_header(h: MapHeader, syms: SymView, j: MapHeaderJson) -> bool {
    let (day, night, wild, events, text, location, icon, weather, camera, battle, flags) = match h {
        MapHeader::DP(x) => (x.music_day_id, x.music_night_id, x.wild_pokemon, x.event_file_id, x.text_archive_id,
            x.location_name, None::<u16>, x.weather_id as u16, x.camera_angle_id as u16, x.battle_background as u16, x.flags as u16),
        MapHeader::Pt(x) => (x.music_day_id, x.music_night_id, x.wild_pokemon, x.event_file_id, x.text_archive_id,
            x.location_name as u16, Some(x.area_icon as u16), x.weather_id as u16, x.camera_angle_id as u16, x.battle_background as u16, x.flags as u16),
        MapHeader::HGSS(x) => (x.music_day_id, x.music_night_id, x.wild_pokemon as u16, x.event_file_id, x.text_archive_id,
            x.location_name as u16, Some(x.area_icon as u16), x.weather_id as u16, x.camera_angle_id as u16, x.battle_background as u16, x.flags as u16),
    };
    &&& name_view(j.id) is None
    &&& name_view(j.music_day_id) == Some(name_or_number(syms, day, "SEQ_"@))
    &&& name_view(j.music_night_id) == Some(name_or_number(syms, night, "SEQ_"@))
    &&& name_view(j.wild_pokemon) == Some(dec(wild as nat))
    &&& name_view(j.event_file_id) == Some(dec(events as nat))
    &&& name_view(j.text_archive_id) == Some(dec(text as nat))
    &&& name_view(j.location_name) == Some(name_or_number(syms, location, "MAPSEC_"@))
    &&& name_view(j.area_icon) == (match icon {
        Some(i) => Some(dec(i as nat)),
        None => None,
    })
    &&& name_view(j.weather_id) == Some(name_or_number(syms, weather, "OVERWORLD_WEATHER_"@))
    &&& name_view(j.camera_angle_id) == Some(name_or_number(syms, camera, "CAMERA_TYPE_"@))
    &&& name_view(j.battle_background) == Some(name_or_number(syms, battle, "BATTLE_BG_"@))
    &&& name_view(j.flags) == Some(dec(flags as nat))
}

impl MapHeaderJson {
    /// Replace every field that names a known constant by the constant's
    /// value in decimal.
    pub fn resolve_constants(&mut self, symbols: &SymbolTable)
        requires
            lookups_safe(symbols.sv()),
        ensures
            json_fields(*final(self)) == json_fields(*old(self)).map_values(|o: Option<Seq<char>>| resolved_field(symbols.sv(), o)),
    {
        self.id = resolve_field(symbols, &self.id);
        self.music_day_id = resolve_field(symbols, &self.music_day_id);
        self.music_night_id = resolve_field(symbols, &self.music_night_id);
        self.wild_pokemon = resolve_field(symbols, &self.wild_pokemon);
        self.event_file_id = resolve_field(symbols, &self.event_file_id);
        self.text_archive_id = resolve_field(symbols, &self.text_archive_id);
        self.location_name = resolve_field(symbols, &self.location_name);
        self.area_icon = resolve_field(symbols, &self.area_icon);
        self.weather_id = resolve_field(symbols, &self.weather_id);
        self.camera_angle_id = resolve_field(symbols, &self.camera_angle_id);
        self.battle_background = resolve_field(symbols, &self.battle_background);
        self.flags = resolve_field(symbols, &self.flags);
        assert(json_fields(*self) =~= json_fields(*old(self)).map_values(|o: Option<Seq<char>>| resolved_field(symbols.sv(), o)));
    }

    /// The JSON form of a binary header.
    pub fn from_binary(header: &MapHeader, symbols: &SymbolTable) -> (r: Self)
        ensures
            json_of_header(*header, symbols.sv(), r),
    {
        let (day, night, wild, events, text, location, icon, weather, camera, battle, flags): (u16, u16, u16, u16, u16, u16, Option<u16>, u16, u16, u16, u16) = match header {
            MapHeader::DP(x) => (x.music_day_id, x.music_night_id, x.wild_pokemon, x.event_file_id, x.text_archive_id,
                x.location_name, None, x.weather_id as u16, x.camera_angle_id as u16, x.battle_background as u16, x.flags as u16),
            MapHeader::Pt(x) => (x.music_day_id, x.music_night_id, x.wild_pokemon, x.event_file_id, x.text_archive_id,
                x.location_name as u16, Some(x.area_icon as u16), x.weather_id as u16, x.camera_angle_id as u16, x.battle_background as u16, x.flags as u16),
            MapHeader::HGSS(x) => (x.music_day_id, x.music_night_id, x.wild_pokemon as u16, x.event_file_id, x.text_archive_id,
                x.location_name as u16, Some(x.area_icon as u16), x.weather_id as u16, x.camera_angle_id as u16, x.battle_background as u16, x.flags as u16),
        };
        MapHeaderJson {
            id: None,
            music_day_id: Some(name_or_number_exec(symbols, day, "SEQ_")),
            music_night_id: Some(name_or_number_exec(symbols, night, "SEQ_")),
            wild_pokemon: Some(number(wild)),
            event_file_id: Some(number(events)),
            text_archive_id: Some(number(text)),
            location_name: Some(name_or_number_exec(symbols, location, "MAPSEC_")),
            area_icon: match icon {
                Some(i) => Some(number(i)),
                None => None,
            },
            weather_id: Some(name_or_number_exec(symbols, weather, "OVERWORLD_WEATHER_")),
            camera_angle_id: Some(name_or_number_exec(symbols, camera, "CAMERA_TYPE_")),
            battle_background: Some(name_or_number_exec(symbols, battle, "BATTLE_BG_")),
            flags: Some(number(flags)),
        }
    }
}

/// Law: the JSON form of a header takes each field from the header field of
/// the same name, whatever the family: the music, location, weather, camera
/// and battle background by constant name or number, the wild Pokémon,
/// event file, text archive and flags as numbers, the area icon as a number
/// except for Diamond/Pearl, which has none; it has no id.
pub proof fn json_fields_of_header(h: MapHeader, syms: SymView, j: MapHeaderJson)
    requires
        json_of_header(h, syms, j),
    ensures
        name_view(j.id) is None,
        match h {
            MapHeader::DP(x) => (name_view(j.music_day_id) == Some(name_or_number(syms, x.music_day_id, "SEQ_"@))
                && name_view(j.music_night_id) == Some(name_or_number(syms, x.music_night_id, "SEQ_"@))
                && name_view(j.wild_pokemon) == Some(dec(x.wild_pokemon as nat))
                && name_view(j.event_file_id) == Some(dec(x.event_file_id as nat))
                && name_view(j.text_archive_id) == Some(dec(x.text_archive_id as nat))
                && name_view(j.location_name) == Some(name_or_number(syms, x.location_name, "MAPSEC_"@))
                && name_view(j.area_icon) == None::<Seq<char>>
                && name_view(j.weather_id) == Some(name_or_number(syms, x.weather_id as u16, "OVERWORLD_WEATHER_"@))
                && name_view(j.camera_angle_id) == Some(name_or_number(syms, x.camera_angle_id as u16, "CAMERA_TYPE_"@))
                && name_view(j.battle_background) == Some(name_or_number(syms, x.battle_background as u16, "BATTLE_BG_"@))
                && name_view(j.flags) == Some(dec(x.flags as nat))),
            MapHeader::Pt(x) => (name_view(j.music_day_id) == Some(name_or_number(syms, x.music_day_id, "SEQ_"@))
                && name_view(j.music_night_id) == Some(name_or_number(syms, x.music_night_id, "SEQ_"@))
                && name_view(j.wild_pokemon) == Some(dec(x.wild_pokemon as nat))
                && name_view(j.event_file_id) == Some(dec(x.event_file_id as nat))
                && name_view(j.text_archive_id) == Some(dec(x.text_archive_id as nat))
                && name_view(j.location_name) == Some(name_or_number(syms, x.location_name as u16, "MAPSEC_"@))
                && name_view(j.area_icon) == Some(dec(x.area_icon as nat))
                && name_view(j.weather_id) == Some(name_or_number(syms, x.weather_id as u16, "OVERWORLD_WEATHER_"@))
                && name_view(j.camera_angle_id) == Some(name_or_number(syms, x.camera_angle_id as u16, "CAMERA_TYPE_"@))
                && name_view(j.battle_background) == Some(name_or_number(syms, x.battle_background as u16, "BATTLE_BG_"@))
                && name_view(j.flags) == Some(dec(x.flags as nat))),
            MapHeader::HGSS(x) => (name_view(j.music_day_id) == Some(name_or_number(syms, x.music_day_id, "SEQ_"@))
                && name_view(j.music_night_id) == Some(name_or_number(syms, x.music_night_id, "SEQ_"@))
                && name_view(j.wild_pokemon) == Some(dec(x.wild_pokemon as nat))
                && name_view(j.event_file_id) == Some(dec(x.event_file_id as nat))
                && name_view(j.text_archive_id) == Some(dec(x.text_archive_id as nat))
                && name_view(j.location_name) == Some(name_or_number(syms, x.location_name as u16, "MAPSEC_"@))
                && name_view(j.area_icon) == Some(dec(x.area_icon as nat))
                && name_view(j.weather_id) == Some(name_or_number(syms, x.weather_id as u16, "OVERWORLD_WEATHER_"@))
                && name_view(j.camera_angle_id) == Some(name_or_number(syms, x.camera_angle_id as u16, "CAMERA_TYPE_"@))
                && name_view(j.battle_background) == Some(name_or_number(syms, x.battle_background as u16, "BATTLE_BG_"@))
                && name_view(j.flags) == Some(dec(x.flags as nat))),
        },
{
}

} // verus!
