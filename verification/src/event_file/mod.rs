//! Map event files: background, object, warp and coordinate events.
//!
//! The file holds four lists, each a little-endian `u32` count followed by
//! that many fixed-size records: background events of 20 bytes (the last two
//! are padding), object events of 32, warps of 12 and coordinate triggers of
//! 16.
pub mod values;
pub mod platinum_json;
pub mod hgss_json;

use vstd::prelude::*;
use crate::bytes::{u16_at, u32_at, i16_of, u16_of, i32_of, u32_of, enc_u16, enc_u32, enc_i16,
    enc_i32, read_u16, read_u32, push_u16, push_u32, to_i16, from_i16, to_i32, from_i32, flat_map,
    list_dec, lemma_flat_map_push, lemma_flat_map_decode, lemma_skip_cat, lemma_skip_skip,
    lemma_u32_at_skip, lemma_u16_at_skip, lemma_u32_bytes_sum};
use crate::error::{UxieError, ErrorKind};
use crate::game::GameFamily;
use crate::text::{dec, push_dec, push_str};

verus! {

pub const BG_EVENT_SIZE: usize = 20;

pub const OBJECT_EVENT_SIZE: usize = 32;

pub const WARP_EVENT_SIZE: usize = 12;

pub const COORD_EVENT_SIZE: usize = 16;

/// Background/spawnable event (20 bytes).
#[derive(Debug, Clone, Copy, PartialEq, Eq, Structural)]
pub struct BgEvent {
    pub script: u16,
    pub event_type: u16,
    pub x: i32,
    pub z: i32,
    pub y: i32,
    pub player_facing_dir: u16,
}

/// Object/overworld event (32 bytes).
#[derive(Debug, Clone, Copy, PartialEq, Eq)]
pub struct ObjectEvent {
    pub local_id: u16,
    pub graphics_id: u16,
    pub movement_type: u16,
    pub trainer_type: u16,
    pub hidden_flag: u16,
    pub script: u16,
    pub dir: i16,
    pub data: [u16; 3],
    pub movement_range_x: i16,
    pub movement_range_z: i16,
    pub x: u16,
    pub z: u16,
    pub y: i32,
}

/// Warp event (12 bytes). `height` is 0 in Diamond/Pearl/Platinum.
#[derive(Debug, Clone, Copy, PartialEq, Eq, Structural)]
pub struct WarpEvent {
    pub x: u16,
    pub z: u16,
    pub dest_header_id: u16,
    pub dest_warp_id: u16,
    pub height: u32,
}

/// Coordinate/trigger event (16 bytes).
#[derive(Debug, Clone, Copy, PartialEq, Eq, Structural)]
pub struct CoordEvent {
    pub script: u16,
    pub x: i16,
    pub z: i16,
    pub width: u16,
    pub length: u16,
    pub y: u16,
    pub value: u16,
    pub var: u16,
}

/// The events of one map.
#[derive(Debug, Clone, PartialEq, Eq)]
pub struct EventFile {
    pub bg_events: Vec<BgEvent>,
    pub object_events: Vec<ObjectEvent>,
    pub warp_events: Vec<WarpEvent>,
    pub coord_events: Vec<CoordEvent>,
}

// ----- records -----

pub open spec fn bg_enc(e: BgEvent) -> Seq<u8> {
    enc_u16(e.script) + enc_u16(e.event_type) + enc_i32(e.x) + enc_i32(e.z) + enc_i32(e.y) + enc_u16(
        e.player_facing_dir,
    ) + seq![0u8, 0u8]
}

pub open spec fn bg_dec(c: Seq<u8>) -> BgEvent {
    BgEvent {
        script: u16_at(c, 0),
        event_type: u16_at(c, 2),
        x: i32_of(u32_at(c, 4)),
        z: i32_of(u32_at(c, 8)),
        y: i32_of(u32_at(c, 12)),
        player_facing_dir: u16_at(c, 16),
    }
}

pub open spec fn obj_enc(e: ObjectEvent) -> Seq<u8> {
    enc_u16(e.local_id) + enc_u16(e.graphics_id) + enc_u16(e.movement_type) + enc_u16(e.trainer_type)
        + enc_u16(e.hidden_flag) + enc_u16(e.script) + enc_i16(e.dir) + enc_u16(e.data@[0]) + enc_u16(
        e.data@[1],
    ) + enc_u16(e.data@[2]) + enc_i16(e.movement_range_x) + enc_i16(e.movement_range_z) + enc_u16(
        e.x,
    ) + enc_u16(e.z) + enc_i32(e.y)
}

pub open spec fn obj_dec(c: Seq<u8>) -> ObjectEvent {
    ObjectEvent {
        local_id: u16_at(c, 0),
        graphics_id: u16_at(c, 2),
        movement_type: u16_at(c, 4),
        trainer_type: u16_at(c, 6),
        hidden_flag: u16_at(c, 8),
        script: u16_at(c, 10),
        dir: i16_of(u16_at(c, 12)),
        data: [u16_at(c, 14), u16_at(c, 16), u16_at(c, 18)],
        movement_range_x: i16_of(u16_at(c, 20)),
        movement_range_z: i16_of(u16_at(c, 22)),
        x: u16_at(c, 24),
        z: u16_at(c, 26),
        y: i32_of(u32_at(c, 28)),
    }
}

pub open spec fn warp_enc(e: WarpEvent) -> Seq<u8> {
    enc_u16(e.x) + enc_u16(e.z) + enc_u16(e.dest_header_id) + enc_u16(e.dest_warp_id) + enc_u32(e.height)
}

pub open spec fn warp_dec(c: Seq<u8>) -> WarpEvent {
    WarpEvent {
        x: u16_at(c, 0),
        z: u16_at(c, 2),
        dest_header_id: u16_at(c, 4),
        dest_warp_id: u16_at(c, 6),
        height: u32_at(c, 8),
    }
}

pub open spec fn coord_enc(e: CoordEvent) -> Seq<u8> {
    enc_u16(e.script) + enc_i16(e.x) + enc_i16(e.z) + enc_u16(e.width) + enc_u16(e.length) + enc_u16(
        e.y,
    ) + enc_u16(e.value) + enc_u16(e.var)
}

pub open spec fn coord_dec(c: Seq<u8>) -> CoordEvent {
    CoordEvent {
        script: u16_at(c, 0),
        x: i16_of(u16_at(c, 2)),
        z: i16_of(u16_at(c, 4)),
        width: u16_at(c, 6),
        length: u16_at(c, 8),
        y: u16_at(c, 10),
        value: u16_at(c, 12),
        var: u16_at(c, 14),
    }
}

proof fn lemma_i32_field(v: i32)
    ensures
        i32_of(((u32_of(v) % 256) as int + 256 * ((u32_of(v) / 256) % 256) as int + 65536 * ((u32_of(v)
            / 65536) % 256) as int + 16777216 * (u32_of(v) / 16777216) as int) as u32) == v,
{
    lemma_u32_bytes_sum(u32_of(v));
}

proof fn lemma_u32_field(v: u32)
    ensures
        ((v % 256) as u8 as int + 256 * ((v / 256) % 256) as u8 as int + 65536 * ((v / 65536) % 256) as u8 as int
            + 16777216 * (v / 16777216) as u8 as int) as u32 == v,
{
    lemma_u32_bytes_sum(v);
}

proof fn lemma_bg_codec(e: BgEvent, r: Seq<u8>)
    ensures
        bg_enc(e).len() == 20,
        bg_dec(bg_enc(e) + r) == e,
{
    lemma_i32_field(e.x);
    lemma_i32_field(e.z);
    lemma_i32_field(e.y);
}

proof fn lemma_obj_codec(e: ObjectEvent, r: Seq<u8>)
    ensures
        obj_enc(e).len() == 32,
        obj_dec(obj_enc(e) + r) == e,
{
    lemma_i32_field(e.y);
    let d = obj_dec(obj_enc(e) + r);
    assert(d.data[0] == e.data[0] && d.data[1] == e.data[1] && d.data[2] == e.data[2]);
    assert(d.data =~= e.data);
}

proof fn lemma_warp_codec(e: WarpEvent, r: Seq<u8>)
    ensures
        warp_enc(e).len() == 12,
        warp_dec(warp_enc(e) + r) == e,
{
    lemma_u32_field(e.height);
}

proof fn lemma_coord_codec(e: CoordEvent, r: Seq<u8>)
    ensures
        coord_enc(e).len() == 16,
        coord_dec(coord_enc(e) + r) == e,
{
}

// ----- lists -----

pub open spec fn bgs_bytes(s: Seq<BgEvent>) -> Seq<u8> {
    flat_map(s, |e: BgEvent| bg_enc(e))
}

pub open spec fn bg_list(b: Seq<u8>, n: nat) -> Seq<BgEvent> {
    list_dec(b, 20, n, |c: Seq<u8>| bg_dec(c))
}

pub open spec fn objs_bytes(s: Seq<ObjectEvent>) -> Seq<u8> {
    flat_map(s, |e: ObjectEvent| obj_enc(e))
}

pub open spec fn obj_list(b: Seq<u8>, n: nat) -> Seq<ObjectEvent> {
    list_dec(b, 32, n, |c: Seq<u8>| obj_dec(c))
}

pub open spec fn warps_bytes(s: Seq<WarpEvent>) -> Seq<u8> {
    flat_map(s, |e: WarpEvent| warp_enc(e))
}

pub open spec fn warp_list(b: Seq<u8>, n: nat) -> Seq<WarpEvent> {
    list_dec(b, 12, n, |c: Seq<u8>| warp_dec(c))
}

pub open spec fn coords_bytes(s: Seq<CoordEvent>) -> Seq<u8> {
    flat_map(s, |e: CoordEvent| coord_enc(e))
}

pub open spec fn coord_list(b: Seq<u8>, n: nat) -> Seq<CoordEvent> {
    list_dec(b, 16, n, |c: Seq<u8>| coord_dec(c))
}

proof fn lemma_bgs(s: Seq<BgEvent>, rest: Seq<u8>)
    ensures
        bgs_bytes(s).len() == 20 * s.len(),
        bg_list(bgs_bytes(s) + rest, s.len()) == s,
{
    assert forall|i: int| 0 <= i < s.len() implies #[trigger] bg_enc(s[i]).len() == 20 by {
        lemma_bg_codec(s[i], Seq::empty());
    }
    assert forall|i: int, r: Seq<u8>| 0 <= i < s.len() implies #[trigger] bg_dec(bg_enc(s[i]) + r) == s[i] by {
        lemma_bg_codec(s[i], r);
    }
    lemma_flat_map_decode(s, |e: BgEvent| bg_enc(e), |c: Seq<u8>| bg_dec(c), 20, rest);
}

proof fn lemma_objs(s: Seq<ObjectEvent>, rest: Seq<u8>)
    ensures
        objs_bytes(s).len() == 32 * s.len(),
        obj_list(objs_bytes(s) + rest, s.len()) == s,
{
    assert forall|i: int| 0 <= i < s.len() implies #[trigger] obj_enc(s[i]).len() == 32 by {
        lemma_obj_codec(s[i], Seq::empty());
    }
    assert forall|i: int, r: Seq<u8>| 0 <= i < s.len() implies #[trigger] obj_dec(obj_enc(s[i]) + r) == s[i] by {
        lemma_obj_codec(s[i], r);
    }
    lemma_flat_map_decode(s, |e: ObjectEvent| obj_enc(e), |c: Seq<u8>| obj_dec(c), 32, rest);
}

proof fn lemma_warps(s: Seq<WarpEvent>, rest: Seq<u8>)
    ensures
        warps_bytes(s).len() == 12 * s.len(),
        warp_list(warps_bytes(s) + rest, s.len()) == s,
{
    assert forall|i: int| 0 <= i < s.len() implies #[trigger] warp_enc(s[i]).len() == 12 by {
        lemma_warp_codec(s[i], Seq::empty());
    }
    assert forall|i: int, r: Seq<u8>| 0 <= i < s.len() implies #[trigger] warp_dec(warp_enc(s[i]) + r) == s[i] by {
        lemma_warp_codec(s[i], r);
    }
    lemma_flat_map_decode(s, |e: WarpEvent| warp_enc(e), |c: Seq<u8>| warp_dec(c), 12, rest);
}

proof fn lemma_coords(s: Seq<CoordEvent>, rest: Seq<u8>)
    ensures
        coords_bytes(s).len() == 16 * s.len(),
        coord_list(coords_bytes(s) + rest, s.len()) == s,
{
    assert forall|i: int| 0 <= i < s.len() implies #[trigger] coord_enc(s[i]).len() == 16 by {
        lemma_coord_codec(s[i], Seq::empty());
    }
    assert forall|i: int, r: Seq<u8>| 0 <= i < s.len() implies #[trigger] coord_dec(coord_enc(s[i]) + r) == s[i] by {
        lemma_coord_codec(s[i], r);
    }
    lemma_flat_map_decode(s, |e: CoordEvent| coord_enc(e), |c: Seq<u8>| coord_dec(c), 16, rest);
}

// ----- the file -----

/// Where the object count is: after the background count and events.
pub open spec fn object_count_at(b: Seq<u8>) -> int {
    4 + 20 * u32_at(b, 0)
}

pub open spec fn warp_count_at(b: Seq<u8>) -> int {
    object_count_at(b) + 4 + 32 * u32_at(b, object_count_at(b))
}

pub open spec fn coord_count_at(b: Seq<u8>) -> int {
    warp_count_at(b) + 4 + 12 * u32_at(b, warp_count_at(b))
}

/// Where the last list ends.
pub open spec fn event_end(b: Seq<u8>) -> int {
    coord_count_at(b) + 4 + 16 * u32_at(b, coord_count_at(b))
}

/// `b` holds the four counts and all the records they announce.
pub open spec fn event_bytes_ok(b: Seq<u8>) -> bool {
    &&& 4 <= b.len()
    &&& object_count_at(b) + 4 <= b.len()
    &&& warp_count_at(b) + 4 <= b.len()
    &&& coord_count_at(b) + 4 <= b.len()
    &&& event_end(b) <= b.len()
}

/// `f` holds the events that the bytes `b` hold.
pub open spec fn event_decoded(f: EventFile, b: Seq<u8>) -> bool {
    &&& f.bg_events@ == bg_list(b.skip(4), u32_at(b, 0) as nat)
    &&& f.object_events@ == obj_list(b.skip(object_count_at(b) + 4), u32_at(b, object_count_at(b)) as nat)
    &&& f.warp_events@ == warp_list(b.skip(warp_count_at(b) + 4), u32_at(b, warp_count_at(b)) as nat)
    &&& f.coord_events@ == coord_list(b.skip(coord_count_at(b) + 4), u32_at(b, coord_count_at(b)) as nat)
}

/// The bytes of an event file: each list is its count (the length cut to
/// 32 bits), then its records.
pub open spec fn event_encode(f: EventFile) -> Seq<u8> {
    enc_u32(f.bg_events@.len() as u32) + (bgs_bytes(f.bg_events@) + (enc_u32(
        f.object_events@.len() as u32,
    ) + (objs_bytes(f.object_events@) + (enc_u32(f.warp_events@.len() as u32) + (warps_bytes(
        f.warp_events@,
    ) + (enc_u32(f.coord_events@.len() as u32) + coords_bytes(f.coord_events@)))))))
}

fn read_bg(data: &[u8], p: usize) -> (e: BgEvent)
    requires
        p + 20 <= data@.len(),
    ensures
        e == bg_dec(data@.skip(p as int)),
{
    let _len = data.len();
    proof {
        lemma_u16_at_skip(data@, p as int, 0);
        lemma_u16_at_skip(data@, p as int, 2);
        lemma_u32_at_skip(data@, p as int, 4);
        lemma_u32_at_skip(data@, p as int, 8);
        lemma_u32_at_skip(data@, p as int, 12);
        lemma_u16_at_skip(data@, p as int, 16);
    }
    BgEvent {
        script: read_u16(data, p),
        event_type: read_u16(data, p + 2),
        x: to_i32(read_u32(data, p + 4)),
        z: to_i32(read_u32(data, p + 8)),
        y: to_i32(read_u32(data, p + 12)),
        player_facing_dir: read_u16(data, p + 16),
    }
}

fn read_obj(data: &[u8], p: usize) -> (e: ObjectEvent)
    requires
        p + 32 <= data@.len(),
    ensures
        e == obj_dec(data@.skip(p as int)),
{
    let _len = data.len();
    proof {
        lemma_u16_at_skip(data@, p as int, 0);
        lemma_u16_at_skip(data@, p as int, 2);
        lemma_u16_at_skip(data@, p as int, 4);
        lemma_u16_at_skip(data@, p as int, 6);
        lemma_u16_at_skip(data@, p as int, 8);
        lemma_u16_at_skip(data@, p as int, 10);
        lemma_u16_at_skip(data@, p as int, 12);
        lemma_u16_at_skip(data@, p as int, 14);
        lemma_u16_at_skip(data@, p as int, 16);
        lemma_u16_at_skip(data@, p as int, 18);
        lemma_u16_at_skip(data@, p as int, 20);
        lemma_u16_at_skip(data@, p as int, 22);
        lemma_u16_at_skip(data@, p as int, 24);
        lemma_u16_at_skip(data@, p as int, 26);
        lemma_u32_at_skip(data@, p as int, 28);
    }
    let e = ObjectEvent {
        local_id: read_u16(data, p),
        graphics_id: read_u16(data, p + 2),
        movement_type: read_u16(data, p + 4),
        trainer_type: read_u16(data, p + 6),
        hidden_flag: read_u16(data, p + 8),
        script: read_u16(data, p + 10),
        dir: to_i16(read_u16(data, p + 12)),
        data: [read_u16(data, p + 14), read_u16(data, p + 16), read_u16(data, p + 18)],
        movement_range_x: to_i16(read_u16(data, p + 20)),
        movement_range_z: to_i16(read_u16(data, p + 22)),
        x: read_u16(data, p + 24),
        z: read_u16(data, p + 26),
        y: to_i32(read_u32(data, p + 28)),
    };
    assert(e.data =~= obj_dec(data@.skip(p as int)).data);
    e
}

fn read_warp(data: &[u8], p: usize) -> (e: WarpEvent)
    requires
        p + 12 <= data@.len(),
    ensures
        e == warp_dec(data@.skip(p as int)),
{
    let _len = data.len();
    proof {
        lemma_u16_at_skip(data@, p as int, 0);
        lemma_u16_at_skip(data@, p as int, 2);
        lemma_u16_at_skip(data@, p as int, 4);
        lemma_u16_at_skip(data@, p as int, 6);
        lemma_u32_at_skip(data@, p as int, 8);
    }
    WarpEvent {
        x: read_u16(data, p),
        z: read_u16(data, p + 2),
        dest_header_id: read_u16(data, p + 4),
        dest_warp_id: read_u16(data, p + 6),
        height: read_u32(data, p + 8),
    }
}

fn read_coord(data: &[u8], p: usize) -> (e: CoordEvent)
    requires
        p + 16 <= data@.len(),
    ensures
        e == coord_dec(data@.skip(p as int)),
{
    let _len = data.len();
    proof {
        lemma_u16_at_skip(data@, p as int, 0);
        lemma_u16_at_skip(data@, p as int, 2);
        lemma_u16_at_skip(data@, p as int, 4);
        lemma_u16_at_skip(data@, p as int, 6);
        lemma_u16_at_skip(data@, p as int, 8);
        lemma_u16_at_skip(data@, p as int, 10);
        lemma_u16_at_skip(data@, p as int, 12);
        lemma_u16_at_skip(data@, p as int, 14);
    }
    CoordEvent {
        script: read_u16(data, p),
        x: to_i16(read_u16(data, p + 2)),
        z: to_i16(read_u16(data, p + 4)),
        width: read_u16(data, p + 6),
        length: read_u16(data, p + 8),
        y: read_u16(data, p + 10),
        value: read_u16(data, p + 12),
        var: read_u16(data, p + 14),
    }
}

fn read_bgs(data: &[u8], off: usize, n: usize) -> (v: Vec<BgEvent>)
    requires
        off + 20 * n <= data@.len(),
    ensures
        v@ == bg_list(data@.skip(off as int), n as nat),
{
    let len = data.len();
    let mut v: Vec<BgEvent> = Vec::new();
    let mut i: usize = 0;
    while i < n
        invariant
            i <= n,
            len == data@.len(),
            off + 20 * n <= data@.len(),
            v@.len() == i,
            forall|j: int| 0 <= j < i ==> #[trigger] v@[j] == bg_list(data@.skip(off as int), n as nat)[j],
        decreases n - i,
    {
        let e = read_bg(data, off + 20 * i);
        proof {
            lemma_skip_skip(data@, off as int, 20 * i);
        }
        v.push(e);
        i = i + 1;
    }
    assert(v@ =~= bg_list(data@.skip(off as int), n as nat));
    v
}

fn read_objs(data: &[u8], off: usize, n: usize) -> (v: Vec<ObjectEvent>)
    requires
        off + 32 * n <= data@.len(),
    ensures
        v@ == obj_list(data@.skip(off as int), n as nat),
{
    let len = data.len();
    let mut v: Vec<ObjectEvent> = Vec::new();
    let mut i: usize = 0;
    while i < n
        invariant
            i <= n,
            len == data@.len(),
            off + 32 * n <= data@.len(),
            v@.len() == i,
            forall|j: int| 0 <= j < i ==> #[trigger] v@[j] == obj_list(data@.skip(off as int), n as nat)[j],
        decreases n - i,
    {
        let e = read_obj(data, off + 32 * i);
        proof {
            lemma_skip_skip(data@, off as int, 32 * i);
        }
        v.push(e);
        i = i + 1;
    }
    assert(v@ =~= obj_list(data@.skip(off as int), n as nat));
    v
}

fn read_warps(data: &[u8], off: usize, n: usize) -> (v: Vec<WarpEvent>)
    requires
        off + 12 * n <= data@.len(),
    ensures
        v@ == warp_list(data@.skip(off as int), n as nat),
{
    let len = data.len();
    let mut v: Vec<WarpEvent> = Vec::new();
    let mut i: usize = 0;
    while i < n
        invariant
            i <= n,
            len == data@.len(),
            off + 12 * n <= data@.len(),
            v@.len() == i,
            forall|j: int| 0 <= j < i ==> #[trigger] v@[j] == warp_list(data@.skip(off as int), n as nat)[j],
        decreases n - i,
    {
        let e = read_warp(data, off + 12 * i);
        proof {
            lemma_skip_skip(data@, off as int, 12 * i);
        }
        v.push(e);
        i = i + 1;
    }
    assert(v@ =~= warp_list(data@.skip(off as int), n as nat));
    v
}

fn read_coords(data: &[u8], off: usize, n: usize) -> (v: Vec<CoordEvent>)
    requires
        off + 16 * n <= data@.len(),
    ensures
        v@ == coord_list(data@.skip(off as int), n as nat),
{
    let len = data.len();
    let mut v: Vec<CoordEvent> = Vec::new();
    let mut i: usize = 0;
    while i < n
        invariant
            i <= n,
            len == data@.len(),
            off + 16 * n <= data@.len(),
            v@.len() == i,
            forall|j: int| 0 <= j < i ==> #[trigger] v@[j] == coord_list(data@.skip(off as int), n as nat)[j],
        decreases n - i,
    {
        let e = read_coord(data, off + 16 * i);
        proof {
            lemma_skip_skip(data@, off as int, 16 * i);
        }
        v.push(e);
        i = i + 1;
    }
    assert(v@ =~= coord_list(data@.skip(off as int), n as nat));
    v
}

fn push_bg(out: &mut Vec<u8>, e: &BgEvent)
    ensures
        final(out)@ == old(out)@ + bg_enc(*e),
{
    let ghost start = out@;
    push_u16(out, e.script);
    push_u16(out, e.event_type);
    push_u32(out, from_i32(e.x));
    push_u32(out, from_i32(e.z));
    push_u32(out, from_i32(e.y));
    push_u16(out, e.player_facing_dir);
    out.push(0u8);
    out.push(0u8);
    assert(out@ =~= start + bg_enc(*e));
}

fn push_obj(out: &mut Vec<u8>, e: &ObjectEvent)
    ensures
        final(out)@ == old(out)@ + obj_enc(*e),
{
    let ghost start = out@;
    push_u16(out, e.local_id);
    push_u16(out, e.graphics_id);
    push_u16(out, e.movement_type);
    push_u16(out, e.trainer_type);
    push_u16(out, e.hidden_flag);
    push_u16(out, e.script);
    push_u16(out, from_i16(e.dir));
    push_u16(out, e.data[0]);
    push_u16(out, e.data[1]);
    push_u16(out, e.data[2]);
    push_u16(out, from_i16(e.movement_range_x));
    push_u16(out, from_i16(e.movement_range_z));
    push_u16(out, e.x);
    push_u16(out, e.z);
    push_u32(out, from_i32(e.y));
    assert(out@ =~= start + obj_enc(*e));
}

fn push_warp(out: &mut Vec<u8>, e: &WarpEvent)
    ensures
        final(out)@ == old(out)@ + warp_enc(*e),
{
    let ghost start = out@;
    push_u16(out, e.x);
    push_u16(out, e.z);
    push_u16(out, e.dest_header_id);
    push_u16(out, e.dest_warp_id);
    push_u32(out, e.height);
    assert(out@ =~= start + warp_enc(*e));
}

fn push_coord(out: &mut Vec<u8>, e: &CoordEvent)
    ensures
        final(out)@ == old(out)@ + coord_enc(*e),
{
    let ghost start = out@;
    push_u16(out, e.script);
    push_u16(out, from_i16(e.x));
    push_u16(out, from_i16(e.z));
    push_u16(out, e.width);
    push_u16(out, e.length);
    push_u16(out, e.y);
    push_u16(out, e.value);
    push_u16(out, e.var);
    assert(out@ =~= start + coord_enc(*e));
}

fn push_bgs(out: &mut Vec<u8>, s: &Vec<BgEvent>)
    ensures
        final(out)@ == old(out)@ + bgs_bytes(s@),
{
    let ghost start = out@;
    let mut i: usize = 0;
    while i < s.len()
        invariant
            i <= s@.len(),
            out@ == start + bgs_bytes(s@.take(i as int)),
        decreases s@.len() - i,
    {
        push_bg(out, &s[i]);
        proof {
            lemma_flat_map_push(s@.take(i as int), s@[i as int], |e: BgEvent| bg_enc(e));
            assert(s@.take(i + 1) =~= s@.take(i as int).push(s@[i as int]));
        }
        i = i + 1;
    }
    assert(s@.take(i as int) =~= s@);
}

fn push_objs(out: &mut Vec<u8>, s: &Vec<ObjectEvent>)
    ensures
        final(out)@ == old(out)@ + objs_bytes(s@),
{
    let ghost start = out@;
    let mut i: usize = 0;
    while i < s.len()
        invariant
            i <= s@.len(),
            out@ == start + objs_bytes(s@.take(i as int)),
        decreases s@.len() - i,
    {
        push_obj(out, &s[i]);
        proof {
            lemma_flat_map_push(s@.take(i as int), s@[i as int], |e: ObjectEvent| obj_enc(e));
            assert(s@.take(i + 1) =~= s@.take(i as int).push(s@[i as int]));
        }
        i = i + 1;
    }
    assert(s@.take(i as int) =~= s@);
}

fn push_warps(out: &mut Vec<u8>, s: &Vec<WarpEvent>)
    ensures
        final(out)@ == old(out)@ + warps_bytes(s@),
{
    let ghost start = out@;
    let mut i: usize = 0;
    while i < s.len()
        invariant
            i <= s@.len(),
            out@ == start + warps_bytes(s@.take(i as int)),
        decreases s@.len() - i,
    {
        push_warp(out, &s[i]);
        proof {
            lemma_flat_map_push(s@.take(i as int), s@[i as int], |e: WarpEvent| warp_enc(e));
            assert(s@.take(i + 1) =~= s@.take(i as int).push(s@[i as int]));
        }
        i = i + 1;
    }
    assert(s@.take(i as int) =~= s@);
}

fn push_coords(out: &mut Vec<u8>, s: &Vec<CoordEvent>)
    ensures
        final(out)@ == old(out)@ + coords_bytes(s@),
{
    let ghost start = out@;
    let mut i: usize = 0;
    while i < s.len()
        invariant
            i <= s@.len(),
            out@ == start + coords_bytes(s@.take(i as int)),
        decreases s@.len() - i,
    {
        push_coord(out, &s[i]);
        proof {
            lemma_flat_map_push(s@.take(i as int), s@[i as int], |e: CoordEvent| coord_enc(e));
            assert(s@.take(i + 1) =~= s@.take(i as int).push(s@[i as int]));
        }
        i = i + 1;
    }
    assert(s@.take(i as int) =~= s@);
}

proof fn lemma_room(x: int, room: int, k: int)
    requires
        0 <= x,
        0 <= room,
        0 < k,
    ensures
        (x > room / k) <==> (k * x > room),
{
    assert((x > room / k) <==> (k * x > room)) by (nonlinear_arith)
        requires 0 <= x, 0 <= room, 0 < k;
}

/// The name a family is debug-printed with.
pub open spec fn family_name(f: GameFamily) -> Seq<char> {
    match f {
        GameFamily::DP => "DP"@,
        GameFamily::Platinum => "Platinum"@,
        GameFamily::HGSS => "HGSS"@,
    }
}

/// The index of the first warp with a nonzero height, or the length.
pub open spec fn first_raised_warp(ws: Seq<WarpEvent>) -> nat
    decreases ws.len(),
{
    if ws.len() == 0 {
        0
    } else if ws[0].height != 0 {
        0
    } else {
        1 + first_raised_warp(ws.drop_first())
    }
}

proof fn lemma_first_raised_warp(ws: Seq<WarpEvent>, i: nat)
    requires
        i <= ws.len(),
        forall|k: int| 0 <= k < i ==> ws[k].height == 0,
        i == ws.len() || ws[i as int].height != 0,
    ensures
        first_raised_warp(ws) == i,
    decreases i,
{
    if i > 0 {
        let t = ws.drop_first();
        assert forall|k: int| 0 <= k < i - 1 implies t[k].height == 0 by {
            assert(t[k] == ws[k + 1]);
        }
        if i < ws.len() {
            assert(t[i - 1] == ws[i as int]);
        }
        lemma_first_raised_warp(t, (i - 1) as nat);
    }
}

/// The message for a raised warp in a family that has no warp heights.
pub open spec fn warp_height_msg(family: GameFamily, height: u32) -> Seq<char> {
    "warp height must be 0 for "@ + family_name(family) + ", got "@ + dec(height as nat)
}

fn short_data() -> (e: UxieError)
    ensures
        e.spec_kind() == ErrorKind::InvalidData,
{
    UxieError::invalid_data(String::from_str("failed to fill whole buffer"))
}

impl EventFile {
    /// Read an event file: each list's count, then its records.
    pub fn from_binary(data: &[u8]) -> (r: Result<Self, UxieError>)
        ensures
            event_bytes_ok(data@) ==> (r matches Ok(f) && event_decoded(f, data@)),
            !event_bytes_ok(data@) ==> (r matches Err(e) && e.spec_kind() == ErrorKind::InvalidData),
    {
        let len = data.len();
        if len < 4 {
            return Err(short_data());
        }
        let n0 = read_u32(data, 0);
        proof {
            lemma_room(n0 as int, len - 4, 20);
        }
        if n0 as usize > (len - 4) / 20 {
            return Err(short_data());
        }
        let bg_events = read_bgs(data, 4, n0 as usize);
        let o1: usize = 4 + 20 * (n0 as usize);
        if len - o1 < 4 {
            return Err(short_data());
        }
        let n1 = read_u32(data, o1);
        proof {
            lemma_room(n1 as int, len - o1 - 4, 32);
        }
        if n1 as usize > (len - o1 - 4) / 32 {
            return Err(short_data());
        }
        let object_events = read_objs(data, o1 + 4, n1 as usize);
        let o2: usize = o1 + 4 + 32 * (n1 as usize);
        if len - o2 < 4 {
            return Err(short_data());
        }
        let n2 = read_u32(data, o2);
        proof {
            lemma_room(n2 as int, len - o2 - 4, 12);
        }
        if n2 as usize > (len - o2 - 4) / 12 {
            return Err(short_data());
        }
        let warp_events = read_warps(data, o2 + 4, n2 as usize);
        let o3: usize = o2 + 4 + 12 * (n2 as usize);
        if len - o3 < 4 {
            return Err(short_data());
        }
        let n3 = read_u32(data, o3);
        proof {
            lemma_room(n3 as int, len - o3 - 4, 16);
        }
        if n3 as usize > (len - o3 - 4) / 16 {
            return Err(short_data());
        }
        let coord_events = read_coords(data, o3 + 4, n3 as usize);
        Ok(EventFile { bg_events, object_events, warp_events, coord_events })
    }

    /// Append the bytes of this event file.
    pub fn to_binary(&self, out: &mut Vec<u8>)
        ensures
            final(out)@ == old(out)@ + event_encode(*self),
    {
        let ghost start = out@;
        let ghost (bs, os, ws, cs) = (self.bg_events@, self.object_events@, self.warp_events@, self.coord_events@);
        let ghost t7 = coords_bytes(cs);
        let ghost t6 = enc_u32(cs.len() as u32) + t7;
        let ghost t5 = warps_bytes(ws) + t6;
        let ghost t4 = enc_u32(ws.len() as u32) + t5;
        let ghost t3 = objs_bytes(os) + t4;
        let ghost t2 = enc_u32(os.len() as u32) + t3;
        let ghost t1 = bgs_bytes(bs) + t2;
        let ghost t0 = enc_u32(bs.len() as u32) + t1;
        assert(t0 == event_encode(*self));
        let ghost o0 = out@;
        push_u32(out, self.bg_events.len() as u32);
        assert((o0 + enc_u32(bs.len() as u32)) + t1 =~= o0 + t0);
        let ghost o1 = out@;
        push_bgs(out, &self.bg_events);
        assert((o1 + bgs_bytes(bs)) + t2 =~= o1 + t1);
        let ghost o2 = out@;
        push_u32(out, self.object_events.len() as u32);
        assert((o2 + enc_u32(os.len() as u32)) + t3 =~= o2 + t2);
        let ghost o3 = out@;
        push_objs(out, &self.object_events);
        assert((o3 + objs_bytes(os)) + t4 =~= o3 + t3);
        let ghost o4 = out@;
        push_u32(out, self.warp_events.len() as u32);
        assert((o4 + enc_u32(ws.len() as u32)) + t5 =~= o4 + t4);
        let ghost o5 = out@;
        push_warps(out, &self.warp_events);
        assert((o5 + warps_bytes(ws)) + t6 =~= o5 + t5);
        let ghost o6 = out@;
        push_u32(out, self.coord_events.len() as u32);
        assert((o6 + enc_u32(cs.len() as u32)) + t7 =~= o6 + t6);
        push_coords(out, &self.coord_events);
    }

    /// Append the bytes of this event file for `family`. Diamond/Pearl and
    /// Platinum have no warp heights: the first warp with a nonzero height is
    /// an error, and nothing is written.
    pub fn to_binary_for(&self, out: &mut Vec<u8>, family: GameFamily) -> (r: Result<(), UxieError>)
        ensures
            family != GameFamily::HGSS && first_raised_warp(self.warp_events@)
                < self.warp_events@.len() ==> (final(out)@ == old(out)@ && (r matches Err(e) && e matches UxieError::Io { kind, message }
                && kind == ErrorKind::InvalidData && message@ == warp_height_msg(
                family,
                self.warp_events@[first_raised_warp(self.warp_events@) as int].height,
            ))),
            !(family != GameFamily::HGSS && first_raised_warp(self.warp_events@)
                < self.warp_events@.len()) ==> (r is Ok && final(out)@ == old(out)@ + event_encode(
                *self,
            )),
    {
        if family != GameFamily::HGSS {
            let mut i: usize = 0;
            while i < self.warp_events.len()
                invariant
                    family != GameFamily::HGSS,
                    out@ == old(out)@,
                    i <= self.warp_events@.len(),
                    forall|k: int| 0 <= k < i ==> self.warp_events@[k].height == 0,
                decreases self.warp_events@.len() - i,
            {
                let h = self.warp_events[i].height;
                if h != 0 {
                    proof {
                        lemma_first_raised_warp(self.warp_events@, i as nat);
                    }
                    let mut m = String::new();
                    push_str(&mut m, "warp height must be 0 for ");
                    match family {
                        GameFamily::DP => push_str(&mut m, "DP"),
                        GameFamily::Platinum => push_str(&mut m, "Platinum"),
                        GameFamily::HGSS => push_str(&mut m, "HGSS"),
                    }
                    push_str(&mut m, ", got ");
                    push_dec(&mut m, h as u64);
                    assert(m@ =~= warp_height_msg(family, h));
                    return Err(UxieError::invalid_data(m));
                }
                i = i + 1;
            }
            proof {
                lemma_first_raised_warp(self.warp_events@, i as nat);
            }
        }
        self.to_binary(out);
        Ok(())
    }
}

#[verifier::rlimit(60)]
proof fn lemma_event_layout(f: EventFile)
    ensures
        ({
            let e = event_encode(f);
            let (bs, os, ws, cs) = (f.bg_events@, f.object_events@, f.warp_events@, f.coord_events@);
            let o1: int = 4 + 20 * bs.len() as int;
            let o2: int = o1 + 4 + 32 * os.len() as int;
            let o3: int = o2 + 4 + 12 * ws.len() as int;
            &&& e.len() == o3 + 4 + 16 * cs.len()
            &&& u32_at(e, 0) == bs.len() as u32
            &&& e.skip(4) == bgs_bytes(bs) + e.skip(o1)
            &&& u32_at(e, o1) == os.len() as u32
            &&& e.skip(o1 + 4) == objs_bytes(os) + e.skip(o2)
            &&& u32_at(e, o2) == ws.len() as u32
            &&& e.skip(o2 + 4) == warps_bytes(ws) + e.skip(o3)
            &&& u32_at(e, o3) == cs.len() as u32
            &&& e.skip(o3 + 4) == coords_bytes(cs) + Seq::<u8>::empty()
        }),
{
    let e = event_encode(f);
    let (bs, os, ws, cs) = (f.bg_events@, f.object_events@, f.warp_events@, f.coord_events@);
    let (n0, n1, n2, n3) = (bs.len() as u32, os.len() as u32, ws.len() as u32, cs.len() as u32);
    let t7 = coords_bytes(cs);
    let t6 = enc_u32(n3) + t7;
    let t5 = warps_bytes(ws) + t6;
    let t4 = enc_u32(n2) + t5;
    let t3 = objs_bytes(os) + t4;
    let t2 = enc_u32(n1) + t3;
    let t1 = bgs_bytes(bs) + t2;
    assert(e == enc_u32(n0) + t1);
    lemma_coords(cs, Seq::empty());
    lemma_warps(ws, t6);
    lemma_objs(os, t4);
    lemma_bgs(bs, t2);
    let o1: int = 4 + 20 * bs.len() as int;
    let o2: int = o1 + 4 + 32 * os.len() as int;
    let o3: int = o2 + 4 + 12 * ws.len() as int;
    assert(t7 + Seq::<u8>::empty() =~= t7);
    lemma_skip_cat(enc_u32(n0), t1);
    assert(e.skip(0) =~= e);
    crate::bytes::lemma_u32_front(e, 0, n0, t1);
    lemma_skip_cat(bgs_bytes(bs), t2);
    lemma_skip_skip(e, 4, 20 * bs.len() as int);
    crate::bytes::lemma_u32_front(e, o1, n1, t3);
    lemma_skip_cat(enc_u32(n1), t3);
    lemma_skip_skip(e, o1, 4);
    lemma_skip_cat(objs_bytes(os), t4);
    lemma_skip_skip(e, o1 + 4, 32 * os.len() as int);
    crate::bytes::lemma_u32_front(e, o2, n2, t5);
    lemma_skip_cat(enc_u32(n2), t5);
    lemma_skip_skip(e, o2, 4);
    lemma_skip_cat(warps_bytes(ws), t6);
    lemma_skip_skip(e, o2 + 4, 12 * ws.len() as int);
    crate::bytes::lemma_u32_front(e, o3, n3, t7);
    lemma_skip_cat(enc_u32(n3), t7);
    lemma_skip_skip(e, o3, 4);
}

/// Law: the bytes written for an event file whose lists each hold at most
/// `u32::MAX` events always read back: their counts agree with their length,
/// so `from_binary` accepts them.
pub proof fn event_encode_readable(f: EventFile)
    requires
        f.bg_events@.len() <= u32::MAX,
        f.object_events@.len() <= u32::MAX,
        f.warp_events@.len() <= u32::MAX,
        f.coord_events@.len() <= u32::MAX,
    ensures
        event_bytes_ok(event_encode(f)),
        event_end(event_encode(f)) == event_encode(f).len(),
{
    let e = event_encode(f);
    let (bs, os, ws) = (f.bg_events@, f.object_events@, f.warp_events@);
    lemma_event_layout(f);
    let o1: int = 4 + 20 * bs.len() as int;
    let o2: int = o1 + 4 + 32 * os.len() as int;
    let o3: int = o2 + 4 + 12 * ws.len() as int;
    assert(object_count_at(e) == o1);
    assert(warp_count_at(e) == o2);
    assert(coord_count_at(e) == o3);
}

/// Law: an event file whose lists each hold at most `u32::MAX` events,
/// written by `to_binary` and read back by `from_binary`, has the same four
/// lists; the bytes are exactly the counts and the records.
pub proof fn event_roundtrip(f: EventFile, g: EventFile)
    requires
        f.bg_events@.len() <= u32::MAX,
        f.object_events@.len() <= u32::MAX,
        f.warp_events@.len() <= u32::MAX,
        f.coord_events@.len() <= u32::MAX,
        event_decoded(g, event_encode(f)),
    ensures
        event_bytes_ok(event_encode(f)),
        event_end(event_encode(f)) == event_encode(f).len(),
        g.bg_events@ == f.bg_events@,
        g.object_events@ == f.object_events@,
        g.warp_events@ == f.warp_events@,
        g.coord_events@ == f.coord_events@,
{
    let e = event_encode(f);
    let (bs, os, ws, cs) = (f.bg_events@, f.object_events@, f.warp_events@, f.coord_events@);
    lemma_event_layout(f);
    let o1: int = 4 + 20 * bs.len() as int;
    let o2: int = o1 + 4 + 32 * os.len() as int;
    let o3: int = o2 + 4 + 12 * ws.len() as int;
    assert(object_count_at(e) == o1);
    assert(warp_count_at(e) == o2);
    assert(coord_count_at(e) == o3);
    lemma_bgs(bs, e.skip(o1));
    lemma_objs(os, e.skip(o2));
    lemma_warps(ws, e.skip(o3));
    lemma_coords(cs, Seq::empty());
}

proof fn bg_pins(b: Seq<u8>, o: int, s: Seq<BgEvent>, n: nat)
    requires
        0 <= o,
        o + 20 * n <= b.len(),
        s == bg_list(b.skip(o), n),
    ensures
        forall|k: int| 0 <= k < n ==> #[trigger] s[k].script == u16_at(b, o + 20 * k) && s[k].event_type == u16_at(b, o + 20 * k + 2) && s[k].x == i32_of(u32_at(b, o + 20 * k + 4)) && s[k].z == i32_of(u32_at(b, o + 20 * k + 8)) && s[k].y == i32_of(u32_at(b, o + 20 * k + 12)) && s[k].player_facing_dir == u16_at(b, o + 20 * k + 16),
{
    assert forall|k: int| 0 <= k < n implies #[trigger] s[k].script == u16_at(b, o + 20 * k) && s[k].event_type == u16_at(b, o + 20 * k + 2) && s[k].x == i32_of(u32_at(b, o + 20 * k + 4)) && s[k].z == i32_of(u32_at(b, o + 20 * k + 8)) && s[k].y == i32_of(u32_at(b, o + 20 * k + 12)) && s[k].player_facing_dir == u16_at(b, o + 20 * k + 16) by {
        let c = b.skip(o).skip(20 * k);
        assert forall|i: int| 0 <= i < 20 implies c[i] == b[o + 20 * k + i] by {}
    }
}

proof fn obj_pins(b: Seq<u8>, o: int, s: Seq<ObjectEvent>, n: nat)
    requires
        0 <= o,
        o + 32 * n <= b.len(),
        s == obj_list(b.skip(o), n),
    ensures
        forall|k: int| 0 <= k < n ==> #[trigger] s[k].local_id == u16_at(b, o + 32 * k) && s[k].graphics_id == u16_at(b, o + 32 * k + 2) && s[k].movement_type == u16_at(b, o + 32 * k + 4) && s[k].trainer_type == u16_at(b, o + 32 * k + 6) && s[k].hidden_flag == u16_at(b, o + 32 * k + 8) && s[k].script == u16_at(b, o + 32 * k + 10) && s[k].dir == i16_of(u16_at(b, o + 32 * k + 12)) && s[k].data@[0] == u16_at(b, o + 32 * k + 14) && s[k].data@[1] == u16_at(b, o + 32 * k + 16) && s[k].data@[2] == u16_at(b, o + 32 * k + 18) && s[k].movement_range_x == i16_of(u16_at(b, o + 32 * k + 20)) && s[k].movement_range_z == i16_of(u16_at(b, o + 32 * k + 22)) && s[k].x == u16_at(b, o + 32 * k + 24) && s[k].z == u16_at(b, o + 32 * k + 26) && s[k].y == i32_of(u32_at(b, o + 32 * k + 28)),
{
    assert forall|k: int| 0 <= k < n implies #[trigger] s[k].local_id == u16_at(b, o + 32 * k) && s[k].graphics_id == u16_at(b, o + 32 * k + 2) && s[k].movement_type == u16_at(b, o + 32 * k + 4) && s[k].trainer_type == u16_at(b, o + 32 * k + 6) && s[k].hidden_flag == u16_at(b, o + 32 * k + 8) && s[k].script == u16_at(b, o + 32 * k + 10) && s[k].dir == i16_of(u16_at(b, o + 32 * k + 12)) && s[k].data@[0] == u16_at(b, o + 32 * k + 14) && s[k].data@[1] == u16_at(b, o + 32 * k + 16) && s[k].data@[2] == u16_at(b, o + 32 * k + 18) && s[k].movement_range_x == i16_of(u16_at(b, o + 32 * k + 20)) && s[k].movement_range_z == i16_of(u16_at(b, o + 32 * k + 22)) && s[k].x == u16_at(b, o + 32 * k + 24) && s[k].z == u16_at(b, o + 32 * k + 26) && s[k].y == i32_of(u32_at(b, o + 32 * k + 28)) by {
        let c = b.skip(o).skip(32 * k);
        assert forall|i: int| 0 <= i < 32 implies c[i] == b[o + 32 * k + i] by {}
    }
}

proof fn warp_pins(b: Seq<u8>, o: int, s: Seq<WarpEvent>, n: nat)
    requires
        0 <= o,
        o + 12 * n <= b.len(),
        s == warp_list(b.skip(o), n),
    ensures
        forall|k: int| 0 <= k < n ==> #[trigger] s[k].x == u16_at(b, o + 12 * k) && s[k].z == u16_at(b, o + 12 * k + 2) && s[k].dest_header_id == u16_at(b, o + 12 * k + 4) && s[k].dest_warp_id == u16_at(b, o + 12 * k + 6) && s[k].height == u32_at(b, o + 12 * k + 8),
{
    assert forall|k: int| 0 <= k < n implies #[trigger] s[k].x == u16_at(b, o + 12 * k) && s[k].z == u16_at(b, o + 12 * k + 2) && s[k].dest_header_id == u16_at(b, o + 12 * k + 4) && s[k].dest_warp_id == u16_at(b, o + 12 * k + 6) && s[k].height == u32_at(b, o + 12 * k + 8) by {
        let c = b.skip(o).skip(12 * k);
        assert forall|i: int| 0 <= i < 12 implies c[i] == b[o + 12 * k + i] by {}
    }
}

proof fn coord_pins(b: Seq<u8>, o: int, s: Seq<CoordEvent>, n: nat)
    requires
        0 <= o,
        o + 16 * n <= b.len(),
        s == coord_list(b.skip(o), n),
    ensures
        forall|k: int| 0 <= k < n ==> #[trigger] s[k].script == u16_at(b, o + 16 * k) && s[k].x == i16_of(u16_at(b, o + 16 * k + 2)) && s[k].z == i16_of(u16_at(b, o + 16 * k + 4)) && s[k].width == u16_at(b, o + 16 * k + 6) && s[k].length == u16_at(b, o + 16 * k + 8) && s[k].y == u16_at(b, o + 16 * k + 10) && s[k].value == u16_at(b, o + 16 * k + 12) && s[k].var == u16_at(b, o + 16 * k + 14),
{
    assert forall|k: int| 0 <= k < n implies #[trigger] s[k].script == u16_at(b, o + 16 * k) && s[k].x == i16_of(u16_at(b, o + 16 * k + 2)) && s[k].z == i16_of(u16_at(b, o + 16 * k + 4)) && s[k].width == u16_at(b, o + 16 * k + 6) && s[k].length == u16_at(b, o + 16 * k + 8) && s[k].y == u16_at(b, o + 16 * k + 10) && s[k].value == u16_at(b, o + 16 * k + 12) && s[k].var == u16_at(b, o + 16 * k + 14) by {
        let c = b.skip(o).skip(16 * k);
        assert forall|i: int| 0 <= i < 16 implies c[i] == b[o + 16 * k + i] by {}
    }
}

/// Law: reading an event file takes each list from its place: the
/// background count (a little-endian `u32`) at 0 and its 20-byte records
/// from 4; then at `o1` the object count and its 32-byte records; at `o2`
/// the warp count and its 12-byte records; at `o3` the coordinate event
/// count and its 16-byte records. A background event is its script, type
/// (`u16`s), x, z, y (`i32`s) and facing direction; an object event its local
/// id, graphics, movement type, trainer type, hidden flag, script, direction
/// (`i16`), three data words, movement ranges x and z (`i16`s), x, z
/// (`u16`s) and y (`i32`); a warp its x, z, destination header, destination
/// warp (`u16`s) and height (`u32`); a coordinate event its script, x, z
/// (`i16`s), width, length, y, value and variable (`u16`s); all little-endian,
/// in that order.
#[verifier::spinoff_prover]
#[verifier::rlimit(60)]
pub proof fn event_read_layout(b: Seq<u8>, f: EventFile, o1: int, o2: int, o3: int)
    requires
        event_bytes_ok(b),
        event_decoded(f, b),
        o1 == 4 + 20 * u32_at(b, 0),
        o2 == o1 + 4 + 32 * u32_at(b, o1),
        o3 == o2 + 4 + 12 * u32_at(b, o2),
    ensures
        f.bg_events@.len() == u32_at(b, 0),
        f.object_events@.len() == u32_at(b, o1),
        f.warp_events@.len() == u32_at(b, o2),
        f.coord_events@.len() == u32_at(b, o3),
        forall|k: int| 0 <= k < f.bg_events@.len() ==> #[trigger] f.bg_events@[k].script == u16_at(b, 4 + 20 * k) && f.bg_events@[k].event_type == u16_at(b, 4 + 20 * k + 2) && f.bg_events@[k].x == i32_of(u32_at(b, 4 + 20 * k + 4)) && f.bg_events@[k].z == i32_of(u32_at(b, 4 + 20 * k + 8)) && f.bg_events@[k].y == i32_of(u32_at(b, 4 + 20 * k + 12)) && f.bg_events@[k].player_facing_dir == u16_at(b, 4 + 20 * k + 16),
        forall|k: int| 0 <= k < f.object_events@.len() ==> #[trigger] f.object_events@[k].local_id == u16_at(b, o1 + 4 + 32 * k) && f.object_events@[k].graphics_id == u16_at(b, o1 + 4 + 32 * k + 2) && f.object_events@[k].movement_type == u16_at(b, o1 + 4 + 32 * k + 4) && f.object_events@[k].trainer_type == u16_at(b, o1 + 4 + 32 * k + 6) && f.object_events@[k].hidden_flag == u16_at(b, o1 + 4 + 32 * k + 8) && f.object_events@[k].script == u16_at(b, o1 + 4 + 32 * k + 10) && f.object_events@[k].dir == i16_of(u16_at(b, o1 + 4 + 32 * k + 12)) && f.object_events@[k].data@[0] == u16_at(b, o1 + 4 + 32 * k + 14) && f.object_events@[k].data@[1] == u16_at(b, o1 + 4 + 32 * k + 16) && f.object_events@[k].data@[2] == u16_at(b, o1 + 4 + 32 * k + 18) && f.object_events@[k].movement_range_x == i16_of(u16_at(b, o1 + 4 + 32 * k + 20)) && f.object_events@[k].movement_range_z == i16_of(u16_at(b, o1 + 4 + 32 * k + 22)) && f.object_events@[k].x == u16_at(b, o1 + 4 + 32 * k + 24) && f.object_events@[k].z == u16_at(b, o1 + 4 + 32 * k + 26) && f.object_events@[k].y == i32_of(u32_at(b, o1 + 4 + 32 * k + 28)),
        forall|k: int| 0 <= k < f.warp_events@.len() ==> #[trigger] f.warp_events@[k].x == u16_at(b, o2 + 4 + 12 * k) && f.warp_events@[k].z == u16_at(b, o2 + 4 + 12 * k + 2) && f.warp_events@[k].dest_header_id == u16_at(b, o2 + 4 + 12 * k + 4) && f.warp_events@[k].dest_warp_id == u16_at(b, o2 + 4 + 12 * k + 6) && f.warp_events@[k].height == u32_at(b, o2 + 4 + 12 * k + 8),
        forall|k: int| 0 <= k < f.coord_events@.len() ==> #[trigger] f.coord_events@[k].script == u16_at(b, o3 + 4 + 16 * k) && f.coord_events@[k].x == i16_of(u16_at(b, o3 + 4 + 16 * k + 2)) && f.coord_events@[k].z == i16_of(u16_at(b, o3 + 4 + 16 * k + 4)) && f.coord_events@[k].width == u16_at(b, o3 + 4 + 16 * k + 6) && f.coord_events@[k].length == u16_at(b, o3 + 4 + 16 * k + 8) && f.coord_events@[k].y == u16_at(b, o3 + 4 + 16 * k + 10) && f.coord_events@[k].value == u16_at(b, o3 + 4 + 16 * k + 12) && f.coord_events@[k].var == u16_at(b, o3 + 4 + 16 * k + 14),
{
    bg_pins(b, 4, f.bg_events@, u32_at(b, 0) as nat);
    obj_pins(b, o1 + 4, f.object_events@, u32_at(b, o1) as nat);
    warp_pins(b, o2 + 4, f.warp_events@, u32_at(b, o2) as nat);
    coord_pins(b, o3 + 4, f.coord_events@, u32_at(b, o3) as nat);
}

/// Law: writing an event file whose lists each hold at most `u32::MAX`
/// events puts each count and each record field where
/// [`event_read_layout`] reads it, the lists one after the other.
#[verifier::spinoff_prover]
#[verifier::rlimit(60)]
pub proof fn event_write_layout(f: EventFile, o1: int, o2: int, o3: int)
    requires
        f.bg_events@.len() <= u32::MAX,
        f.object_events@.len() <= u32::MAX,
        f.warp_events@.len() <= u32::MAX,
        f.coord_events@.len() <= u32::MAX,
        o1 == 4 + 20 * f.bg_events@.len(),
        o2 == o1 + 4 + 32 * f.object_events@.len(),
        o3 == o2 + 4 + 12 * f.warp_events@.len(),
    ensures
        event_encode(f).len() == o3 + 4 + 16 * f.coord_events@.len(),
        u32_at(event_encode(f), 0) == f.bg_events@.len(),
        u32_at(event_encode(f), o1) == f.object_events@.len(),
        u32_at(event_encode(f), o2) == f.warp_events@.len(),
        u32_at(event_encode(f), o3) == f.coord_events@.len(),
        forall|k: int| 0 <= k < f.bg_events@.len() ==> #[trigger] f.bg_events@[k].script == u16_at(event_encode(f), 4 + 20 * k) && f.bg_events@[k].event_type == u16_at(event_encode(f), 4 + 20 * k + 2) && f.bg_events@[k].x == i32_of(u32_at(event_encode(f), 4 + 20 * k + 4)) && f.bg_events@[k].z == i32_of(u32_at(event_encode(f), 4 + 20 * k + 8)) && f.bg_events@[k].y == i32_of(u32_at(event_encode(f), 4 + 20 * k + 12)) && f.bg_events@[k].player_facing_dir == u16_at(event_encode(f), 4 + 20 * k + 16),
        forall|k: int| 0 <= k < f.object_events@.len() ==> #[trigger] f.object_events@[k].local_id == u16_at(event_encode(f), o1 + 4 + 32 * k) && f.object_events@[k].graphics_id == u16_at(event_encode(f), o1 + 4 + 32 * k + 2) && f.object_events@[k].movement_type == u16_at(event_encode(f), o1 + 4 + 32 * k + 4) && f.object_events@[k].trainer_type == u16_at(event_encode(f), o1 + 4 + 32 * k + 6) && f.object_events@[k].hidden_flag == u16_at(event_encode(f), o1 + 4 + 32 * k + 8) && f.object_events@[k].script == u16_at(event_encode(f), o1 + 4 + 32 * k + 10) && f.object_events@[k].dir == i16_of(u16_at(event_encode(f), o1 + 4 + 32 * k + 12)) && f.object_events@[k].data@[0] == u16_at(event_encode(f), o1 + 4 + 32 * k + 14) && f.object_events@[k].data@[1] == u16_at(event_encode(f), o1 + 4 + 32 * k + 16) && f.object_events@[k].data@[2] == u16_at(event_encode(f), o1 + 4 + 32 * k + 18) && f.object_events@[k].movement_range_x == i16_of(u16_at(event_encode(f), o1 + 4 + 32 * k + 20)) && f.object_events@[k].movement_range_z == i16_of(u16_at(event_encode(f), o1 + 4 + 32 * k + 22)) && f.object_events@[k].x == u16_at(event_encode(f), o1 + 4 + 32 * k + 24) && f.object_events@[k].z == u16_at(event_encode(f), o1 + 4 + 32 * k + 26) && f.object_events@[k].y == i32_of(u32_at(event_encode(f), o1 + 4 + 32 * k + 28)),
        forall|k: int| 0 <= k < f.warp_events@.len() ==> #[trigger] f.warp_events@[k].x == u16_at(event_encode(f), o2 + 4 + 12 * k) && f.warp_events@[k].z == u16_at(event_encode(f), o2 + 4 + 12 * k + 2) && f.warp_events@[k].dest_header_id == u16_at(event_encode(f), o2 + 4 + 12 * k + 4) && f.warp_events@[k].dest_warp_id == u16_at(event_encode(f), o2 + 4 + 12 * k + 6) && f.warp_events@[k].height == u32_at(event_encode(f), o2 + 4 + 12 * k + 8),
        forall|k: int| 0 <= k < f.coord_events@.len() ==> #[trigger] f.coord_events@[k].script == u16_at(event_encode(f), o3 + 4 + 16 * k) && f.coord_events@[k].x == i16_of(u16_at(event_encode(f), o3 + 4 + 16 * k + 2)) && f.coord_events@[k].z == i16_of(u16_at(event_encode(f), o3 + 4 + 16 * k + 4)) && f.coord_events@[k].width == u16_at(event_encode(f), o3 + 4 + 16 * k + 6) && f.coord_events@[k].length == u16_at(event_encode(f), o3 + 4 + 16 * k + 8) && f.coord_events@[k].y == u16_at(event_encode(f), o3 + 4 + 16 * k + 10) && f.coord_events@[k].value == u16_at(event_encode(f), o3 + 4 + 16 * k + 12) && f.coord_events@[k].var == u16_at(event_encode(f), o3 + 4 + 16 * k + 14),
{
    let e = event_encode(f);
    let (bs, os, ws, cs) = (f.bg_events@, f.object_events@, f.warp_events@, f.coord_events@);
    lemma_event_layout(f);
    lemma_bgs(bs, e.skip(o1));
    bg_pins(e, 4, bs, bs.len());
    lemma_objs(os, e.skip(o2));
    obj_pins(e, o1 + 4, os, os.len());
    lemma_warps(ws, e.skip(o3));
    warp_pins(e, o2 + 4, ws, ws.len());
    lemma_coords(cs, Seq::empty());
    coord_pins(e, o3 + 4, cs, cs.len());
}

} // verus!
