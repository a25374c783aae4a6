//! Map headers written as C designated initializers, the way the
//! decompilation projects keep them:
//!
//! ```text
//! [MAP_HEADER_JUBILIFE_CITY] = {
//!     .areaDataArchiveID = 0x6,
//!     .isBikeAllowed = TRUE,
//! },
//! ```
//!
//! A header is `[NAME] = { BODY }` with an upper-case name; the body holds
//! `.field = value` entries whose value runs up to the next `,` or `}`.
use vstd::prelude::*;
use crate::text::{
    chars_of, is_ws, is_ident_start, is_ident_char, trim, trim_bounds, string_of, push_str, str_eq,
    int_from_str, int_error_text, int_error_message, parse_int_detailed, has_prefix_at,
};
use crate::c_parser::symbol_table::{SymbolTable, SymView, lookups_safe, lemma_lookups_safe, resolved};
use crate::error::{UxieError, invalid_data_text};
use super::{MapHeaderPt, MapHeaderHGSS};

verus! {

/// The character classes the header grammar is made of.
#[derive(Debug, Clone, Copy, PartialEq, Eq, Structural)]
pub enum CharClass {
    /// `[A-Z_]`
    HeaderStart,
    /// `[A-Z0-9_]`
    HeaderChar,
    /// Unicode white space.
    Space,
    /// Anything but `}`.
    NotCloseBrace,
    /// `[a-zA-Z_]`
    FieldStart,
    /// `[a-zA-Z0-9_]`
    FieldChar,
    /// Anything but `,` and `}`.
    ValueChar,
    /// Anything but `,` and a line feed.
    LineValueChar,
}

pub open spec fn in_class(c: char, k: CharClass) -> bool {
    match k {
        CharClass::HeaderStart => ('A' <= c && c <= 'Z') || c == '_',
        CharClass::HeaderChar => ('A' <= c && c <= 'Z') || ('0' <= c && c <= '9') || c == '_',
        CharClass::Space => is_ws(c),
        CharClass::NotCloseBrace => c != '}',
        CharClass::FieldStart => is_ident_start(c),
        CharClass::FieldChar => is_ident_char(c),
        CharClass::ValueChar => c != ',' && c != '}',
        CharClass::LineValueChar => c != ',' && c != '\n',
    }
}

fn class_has(c: char, k: CharClass) -> (b: bool)
    ensures
        b == in_class(c, k),
{
    match k {
        CharClass::HeaderStart => ('A' <= c && c <= 'Z') || c == '_',
        CharClass::HeaderChar => ('A' <= c && c <= 'Z') || ('0' <= c && c <= '9') || c == '_',
        CharClass::Space => crate::text::is_whitespace(c),
        CharClass::NotCloseBrace => c != '}',
        CharClass::FieldStart => crate::text::is_ident_start_char(c),
        CharClass::FieldChar => crate::text::is_ident_continue_char(c),
        CharClass::ValueChar => c != ',' && c != '}',
        CharClass::LineValueChar => c != ',' && c != '\n',
    }
}

/// The length of the run of characters of class `k` that starts at `i`.
pub open spec fn run_len(s: Seq<char>, i: int, k: CharClass) -> nat
    decreases s.len() - i,
{
    if 0 <= i < s.len() && in_class(s[i], k) {
        1 + run_len(s, i + 1, k)
    } else {
        0
    }
}

pub(crate) fn run_end(v: &Vec<char>, i: usize, k: CharClass) -> (j: usize)
    requires
        i <= v@.len(),
    ensures
        j == i + run_len(v@, i as int, k),
        j <= v@.len(),
{
    let mut j = i;
    while j < v.len() && class_has(v[j], k)
        invariant
            i <= j <= v@.len(),
            run_len(v@, i as int, k) == (j - i) + run_len(v@, j as int, k),
        decreases v@.len() - j,
    {
        j = j + 1;
    }
    j
}

/// `[NAME] = { BODY }` starting at `p`: where the name ends and where the
/// body starts and ends.
pub open spec fn header_at(s: Seq<char>, p: int) -> Option<(int, int, int)> {
    let q = p + 1;
    if !(0 <= p && q < s.len() && s[p] == '[' && in_class(s[q], CharClass::HeaderStart)) {
        None
    } else {
        let ne = q + 1 + run_len(s, q + 1, CharClass::HeaderChar);
        if !(ne < s.len() && s[ne] == ']') {
            None
        } else {
            let eq = ne + 1 + run_len(s, ne + 1, CharClass::Space);
            if !(eq < s.len() && s[eq] == '=') {
                None
            } else {
                let ob = eq + 1 + run_len(s, eq + 1, CharClass::Space);
                if !(ob < s.len() && s[ob] == '{') {
                    None
                } else {
                    let be = ob + 1 + run_len(s, ob + 1, CharClass::NotCloseBrace);
                    if be > ob + 1 && be < s.len() {
                        Some((ne, ob + 1, be))
                    } else {
                        None
                    }
                }
            }
        }
    }
}

/// The `(name, body)` of each header from `p` on, searched left to right
/// without overlap.
pub open spec fn headers_from(s: Seq<char>, p: int) -> Seq<(Seq<char>, Seq<char>)>
    decreases s.len() - p,
{
    if p < 0 || p >= s.len() {
        Seq::empty()
    } else {
        match header_at(s, p) {
            Some((ne, b0, be)) => seq![(s.subrange(p + 1, ne), s.subrange(b0, be))] + headers_from(s, be + 1),
            None => headers_from(s, p + 1),
        }
    }
}

/// `.name = value` starting at `p`: where the name ends and where the value
/// run starts and ends.
pub open spec fn field_at(b: Seq<char>, p: int) -> Option<(int, int, int)> {
    if !(0 <= p && p + 1 < b.len() && b[p] == '.' && in_class(b[p + 1], CharClass::FieldStart)) {
        None
    } else {
        let ne = p + 2 + run_len(b, p + 2, CharClass::FieldChar);
        let w = ne + run_len(b, ne, CharClass::Space);
        if !(w < b.len() && b[w] == '=') {
            None
        } else {
            let ve = w + 1 + run_len(b, w + 1, CharClass::ValueChar);
            if ve > w + 1 && ve <= b.len() {
                Some((ne, w + 1, ve))
            } else {
                None
            }
        }
    }
}

/// The `(field, trimmed value)` entries of a header body from `p` on.
pub open spec fn fields_from(b: Seq<char>, p: int) -> Seq<(Seq<char>, Seq<char>)>
    decreases b.len() - p,
{
    if p < 0 || p >= b.len() {
        Seq::empty()
    } else {
        match field_at(b, p) {
            Some((ne, v0, ve)) => seq![(b.subrange(p + 1, ne), trim(b.subrange(v0, ve)))] + fields_from(b, ve),
            None => fields_from(b, p + 1),
        }
    }
}

/// The headers of a C source: each name with the fields of its body.
pub open spec fn parsed_headers(s: Seq<char>) -> Seq<(Seq<char>, Seq<(Seq<char>, Seq<char>)>)> {
    headers_from(s, 0).map_values(|h: (Seq<char>, Seq<char>)| (h.0, fields_from(h.1, 0)))
}

/// The value the last entry for `name` gives it.
pub open spec fn field_lookup(fs: Seq<(Seq<char>, Seq<char>)>, name: Seq<char>) -> Option<Seq<char>>
    decreases fs.len(),
{
    if fs.len() == 0 {
        None
    } else if fs.last().0 == name {
        Some(fs.last().1)
    } else {
        field_lookup(fs.drop_last(), name)
    }
}

pub open spec fn field_view(fs: Seq<(String, String)>) -> Seq<(Seq<char>, Seq<char>)> {
    fs.map_values(|f: (String, String)| (f.0@, f.1@))
}

/// A map header read from C source: its name and its raw field values.
#[derive(Debug, Clone)]
pub struct ParsedMapHeader {
    pub name: String,
    pub index: Option<usize>,
    /// The `(field, value)` entries in source order; a later entry for a
    /// field overrides an earlier one.
    pub fields: Vec<(String, String)>,
}

impl ParsedMapHeader {
    pub open spec fn field_list(&self) -> Seq<(Seq<char>, Seq<char>)> {
        field_view(self.fields@)
    }

    /// The value of a field.
    pub fn field(&self, name: &str) -> (r: Option<String>)
        ensures
            crate::c_parser::symbol_table::name_view(r) == field_lookup(self.field_list(), name@),
    {
        lookup_field(&self.fields, name)
    }
}

/// The value the last `(name, value)` entry for `name` gives it.
pub fn lookup_field(fields: &Vec<(String, String)>, name: &str) -> (r: Option<String>)
    ensures
        crate::c_parser::symbol_table::name_view(r) == field_lookup(field_view(fields@), name@),
{
    let ghost fl = field_view(fields@);
    let mut i = fields.len();
    assert(fl.take(i as int) =~= fl);
    while i > 0
        invariant
            i <= fields@.len(),
            fl == field_view(fields@),
            field_lookup(fl, name@) == field_lookup(fl.take(i as int), name@),
        decreases i,
    {
        let ghost pre = fl.take(i as int);
        assert(pre.drop_last() =~= fl.take(i - 1));
        assert(pre.last() == fl[i - 1]);
        if crate::text::str_eq(fields[i - 1].0.as_str(), name) {
            return Some(fields[i - 1].1.clone());
        }
        i = i - 1;
    }
    None
}

fn header_at_exec(v: &Vec<char>, p: usize) -> (r: Option<(usize, usize, usize)>)
    requires
        p < v@.len(),
    ensures
        match r {
            Some((ne, b0, be)) => header_at(v@, p as int) == Some((ne as int, b0 as int, be as int)),
            None => header_at(v@, p as int) is None,
        },
{
    let n = v.len();
    let q = p + 1;
    if !(q < n && v[p] == '[' && class_has(v[q], CharClass::HeaderStart)) {
        return None;
    }
    let ne = run_end(v, q + 1, CharClass::HeaderChar);
    if !(ne < n && v[ne] == ']') {
        return None;
    }
    let eq = run_end(v, ne + 1, CharClass::Space);
    if !(eq < n && v[eq] == '=') {
        return None;
    }
    let ob = run_end(v, eq + 1, CharClass::Space);
    if !(ob < n && v[ob] == '{') {
        return None;
    }
    let be = run_end(v, ob + 1, CharClass::NotCloseBrace);
    if be > ob + 1 && be < n {
        Some((ne, ob + 1, be))
    } else {
        None
    }
}

fn field_at_exec(b: &Vec<char>, p: usize) -> (r: Option<(usize, usize, usize)>)
    requires
        p < b@.len(),
    ensures
        match r {
            Some((ne, v0, ve)) => field_at(b@, p as int) == Some((ne as int, v0 as int, ve as int)),
            None => field_at(b@, p as int) is None,
        },
{
    let n = b.len();
    if !(p + 1 < n && b[p] == '.' && class_has(b[p + 1], CharClass::FieldStart)) {
        return None;
    }
    let ne = run_end(b, p + 2, CharClass::FieldChar);
    let w = run_end(b, ne, CharClass::Space);
    if !(w < n && b[w] == '=') {
        return None;
    }
    let ve = run_end(b, w + 1, CharClass::ValueChar);
    if ve > w + 1 {
        Some((ne, w + 1, ve))
    } else {
        None
    }
}

/// The fields of a header body.
fn parse_fields(b: &Vec<char>) -> (r: Vec<(String, String)>)
    ensures
        field_view(r@) == fields_from(b@, 0),
{
    let mut out: Vec<(String, String)> = Vec::new();
    let mut p: usize = 0;
    while p < b.len()
        invariant
            p <= b@.len(),
            field_view(out@) + fields_from(b@, p as int) == fields_from(b@, 0),
        decreases b@.len() - p,
    {
        match field_at_exec(b, p) {
            Some((ne, v0, ve)) => {
                let name = string_of(b, p + 1, ne);
                let (a, z) = trim_bounds(b, v0, ve);
                let value = string_of(b, a, z);
                let ghost old_out = field_view(out@);
                out.push((name, value));
                proof {
                    assert(field_view(out@) =~= old_out.push((b@.subrange(p + 1, ne as int), trim(b@.subrange(v0 as int, ve as int)))));
                    assert(field_view(out@) + fields_from(b@, ve as int) =~= old_out + fields_from(b@, p as int));
                }
                p = ve;
            },
            None => {
                p = p + 1;
            },
        }
    }
    assert(field_view(out@) + fields_from(b@, p as int) =~= field_view(out@));
    out
}

/// Find every `[NAME] = { ... }` header in C source and read its
/// `.field = value` entries.
pub fn parse_map_headers_from_c(source: &str) -> (r: Vec<ParsedMapHeader>)
    ensures
        r@.len() == parsed_headers(source@).len(),
        forall|i: int| 0 <= i < r@.len() ==> {
            &&& (#[trigger] r@[i]).name@ == parsed_headers(source@)[i].0
            &&& r@[i].index is None
            &&& r@[i].field_list() == parsed_headers(source@)[i].1
        },
{
    let v = chars_of(source);
    let ghost hs = headers_from(v@, 0);
    let mut out: Vec<ParsedMapHeader> = Vec::new();
    let mut p: usize = 0;
    while p < v.len()
        invariant
            p <= v@.len(),
            v@ == source@,
            hs == headers_from(v@, 0),
            out@.len() + headers_from(v@, p as int).len() == hs.len(),
            forall|i: int| 0 <= i < out@.len() ==> {
                &&& (#[trigger] out@[i]).name@ == hs[i].0
                &&& out@[i].index is None
                &&& out@[i].field_list() == fields_from(hs[i].1, 0)
            },
            forall|i: int| 0 <= i < headers_from(v@, p as int).len() ==>
                #[trigger] headers_from(v@, p as int)[i] == hs[out@.len() + i],
        decreases v@.len() - p,
    {
        match header_at_exec(&v, p) {
            Some((ne, b0, be)) => {
                let name = string_of(&v, p + 1, ne);
                let mut body: Vec<char> = Vec::new();
                let mut k = b0;
                while k < be
                    invariant
                        b0 <= k <= be < v@.len(),
                        body@ == v@.subrange(b0 as int, k as int),
                    decreases be - k,
                {
                    body.push(v[k]);
                    k = k + 1;
                    assert(body@ =~= v@.subrange(b0 as int, k as int));
                }
                let fields = parse_fields(&body);
                let ghost rest = headers_from(v@, p as int);
                assert(rest == seq![(v@.subrange(p + 1, ne as int), v@.subrange(b0 as int, be as int))]
                    + headers_from(v@, be + 1));
                assert(rest[0] == (v@.subrange(p + 1, ne as int), v@.subrange(b0 as int, be as int)));
                out.push(ParsedMapHeader { name, index: None, fields });
                proof {
                    assert forall|i: int| 0 <= i < headers_from(v@, be + 1).len() implies
                        #[trigger] headers_from(v@, be + 1)[i] == hs[out@.len() + i] by {
                        assert(headers_from(v@, be + 1)[i] == rest[i + 1]);
                    }
                }
                p = be + 1;
            },
            None => {
                p = p + 1;
            },
        }
    }
    proof {
        assert forall|i: int| 0 <= i < out@.len() implies {
            &&& (#[trigger] out@[i]).name@ == parsed_headers(source@)[i].0
            &&& out@[i].index is None
            &&& out@[i].field_list() == parsed_headers(source@)[i].1
        } by {
        }
    }
    out
}


// ----- turning parsed headers into map headers -----

/// A decimal or `0x`/`0X` hexadecimal `i64` literal, read after trimming;
/// the error is the message the refusal is reported with.
pub open spec fn int_or_hex(s: Seq<char>) -> Result<i64, Seq<char>> {
    let t = trim(s);
    if has_prefix_at(t, 0, "0x"@) || has_prefix_at(t, 0, "0X"@) {
        match int_from_str(t.skip(2), 16, true, i64::MIN as int, i64::MAX as int) {
            Ok(v) => Ok(v as i64),
            Err(k) => Err("invalid hexadecimal literal '"@ + t + "': "@ + int_error_text(k)),
        }
    } else {
        match int_from_str(t, 10, true, i64::MIN as int, i64::MAX as int) {
            Ok(v) => Ok(v as i64),
            Err(k) => Err("invalid integer literal '"@ + t + "': "@ + int_error_text(k)),
        }
    }
}

/// A field value: a known constant, else an integer literal.
pub open spec fn value_of(syms: SymView, v: Seq<char>) -> Result<i64, Seq<char>> {
    match resolved(syms, v) {
        Some(x) => Ok(x),
        None => int_or_hex(v),
    }
}

/// A flag value: `TRUE`/`true`/`1`, `FALSE`/`false`/`0`, else any value
/// that is not zero.
pub open spec fn flag_of(syms: SymView, v: Seq<char>) -> Result<bool, Seq<char>> {
    let t = trim(v);
    if t == "TRUE"@ || t == "true"@ || t == "1"@ {
        Ok(true)
    } else if t == "FALSE"@ || t == "false"@ || t == "0"@ {
        Ok(false)
    } else {
        match value_of(syms, t) {
            Ok(x) => Ok(x != 0),
            Err(e) => Err(e),
        }
    }
}

/// The two field layouts of the decompilation projects.
#[derive(Debug, Clone, Copy, PartialEq, Eq, Structural)]
pub enum HeaderLayout {
    Platinum,
    HeartGoldSoulSilver,
}

/// How many fields a layout reads.
pub open spec fn entry_count(l: HeaderLayout) -> nat {
    match l {
        HeaderLayout::Platinum => 20,
        HeaderLayout::HeartGoldSoulSilver => 28,
    }
}

/// Which of a layout's fields are flags.
pub open spec fn entry_is_flag(l: HeaderLayout, i: int) -> bool {
    match l {
        HeaderLayout::Platinum => i >= 16,
        HeaderLayout::HeartGoldSoulSilver => i == 15 || i >= 21,
    }
}

/// The Platinum fields, in the order they are read.
pub open spec fn pt_entry_name(i: int) -> Seq<char> {
    if i == 0 {
        "areaDataArchiveID"@
    } else if i == 1 {
        "unk_01"@
    } else if i == 2 {
        "mapMatrixID"@
    } else if i == 3 {
        "scriptsArchiveID"@
    } else if i == 4 {
        "initScriptsArchiveID"@
    } else if i == 5 {
        "msgArchiveID"@
    } else if i == 6 {
        "dayMusicID"@
    } else if i == 7 {
        "nightMusicID"@
    } else if i == 8 {
        "wildEncountersArchiveID"@
    } else if i == 9 {
        "eventsArchiveID"@
    } else if i == 10 {
        "mapLabelTextID"@
    } else if i == 11 {
        "mapLabelWindowID"@
    } else if i == 12 {
        "weather"@
    } else if i == 13 {
        "cameraType"@
    } else if i == 14 {
        "mapType"@
    } else if i == 15 {
        "battleBG"@
    } else if i == 16 {
        "isBikeAllowed"@
    } else if i == 17 {
        "isRunningAllowed"@
    } else if i == 18 {
        "isEscapeRopeAllowed"@
    } else {
        "isFlyAllowed"@
    }
}

/// The HeartGold/SoulSilver fields, in the order they are read.
pub open spec fn hgss_entry_name(i: int) -> Seq<char> {
    if i == 0 {
        "wildEncounterBank"@
    } else if i == 1 {
        "areaDataBank"@
    } else if i == 2 {
        "moveModelBank"@
    } else if i == 3 {
        "worldMapX"@
    } else if i == 4 {
        "worldMapY"@
    } else if i == 5 {
        "matrixId"@
    } else if i == 6 {
        "scriptsBank"@
    } else if i == 7 {
        "scriptHeaderBank"@
    } else if i == 8 {
        "msgBank"@
    } else if i == 9 {
        "dayMusicId"@
    } else if i == 10 {
        "nightMusicId"@
    } else if i == 11 {
        "eventsBank"@
    } else if i == 12 {
        "mapsec"@
    } else if i == 13 {
        "areaIcon"@
    } else if i == 14 {
        "momCallIntroParam"@
    } else if i == 15 {
        "isKanto"@
    } else if i == 16 {
        "weather"@
    } else if i == 17 {
        "mapType"@
    } else if i == 18 {
        "cameraType"@
    } else if i == 19 {
        "followMode"@
    } else if i == 20 {
        "battleBg"@
    } else if i == 21 {
        "bikeAllowed"@
    } else if i == 22 {
        "runningAllowed_Unused"@
    } else if i == 23 {
        "escapeRopeAllowed"@
    } else if i == 24 {
        "flyAllowed"@
    } else if i == 25 {
        "outgoingCalls"@
    } else if i == 26 {
        "incomingCalls"@
    } else {
        "radioSignal"@
    }
}

pub open spec fn entry_name(l: HeaderLayout, i: int) -> Seq<char> {
    match l {
        HeaderLayout::Platinum => pt_entry_name(i),
        HeaderLayout::HeartGoldSoulSilver => hgss_entry_name(i),
    }
}

fn pt_entry_name_exec(i: usize) -> (s: &'static str)
    ensures
        s@ == pt_entry_name(i as int),
{
    if i == 0 {
        "areaDataArchiveID"
    } else if i == 1 {
        "unk_01"
    } else if i == 2 {
        "mapMatrixID"
    } else if i == 3 {
        "scriptsArchiveID"
    } else if i == 4 {
        "initScriptsArchiveID"
    } else if i == 5 {
        "msgArchiveID"
    } else if i == 6 {
        "dayMusicID"
    } else if i == 7 {
        "nightMusicID"
    } else if i == 8 {
        "wildEncountersArchiveID"
    } else if i == 9 {
        "eventsArchiveID"
    } else if i == 10 {
        "mapLabelTextID"
    } else if i == 11 {
        "mapLabelWindowID"
    } else if i == 12 {
        "weather"
    } else if i == 13 {
        "cameraType"
    } else if i == 14 {
        "mapType"
    } else if i == 15 {
        "battleBG"
    } else if i == 16 {
        "isBikeAllowed"
    } else if i == 17 {
        "isRunningAllowed"
    } else if i == 18 {
        "isEscapeRopeAllowed"
    } else {
        "isFlyAllowed"
    }
}

fn hgss_entry_name_exec(i: usize) -> (s: &'static str)
    ensures
        s@ == hgss_entry_name(i as int),
{
    if i == 0 {
        "wildEncounterBank"
    } else if i == 1 {
        "areaDataBank"
    } else if i == 2 {
        "moveModelBank"
    } else if i == 3 {
        "worldMapX"
    } else if i == 4 {
        "worldMapY"
    } else if i == 5 {
        "matrixId"
    } else if i == 6 {
        "scriptsBank"
    } else if i == 7 {
        "scriptHeaderBank"
    } else if i == 8 {
        "msgBank"
    } else if i == 9 {
        "dayMusicId"
    } else if i == 10 {
        "nightMusicId"
    } else if i == 11 {
        "eventsBank"
    } else if i == 12 {
        "mapsec"
    } else if i == 13 {
        "areaIcon"
    } else if i == 14 {
        "momCallIntroParam"
    } else if i == 15 {
        "isKanto"
    } else if i == 16 {
        "weather"
    } else if i == 17 {
        "mapType"
    } else if i == 18 {
        "cameraType"
    } else if i == 19 {
        "followMode"
    } else if i == 20 {
        "battleBg"
    } else if i == 21 {
        "bikeAllowed"
    } else if i == 22 {
        "runningAllowed_Unused"
    } else if i == 23 {
        "escapeRopeAllowed"
    } else if i == 24 {
        "flyAllowed"
    } else if i == 25 {
        "outgoingCalls"
    } else if i == 26 {
        "incomingCalls"
    } else {
        "radioSignal"
    }
}

/// The message a field that cannot be resolved is reported with.
pub open spec fn field_error_text(header: Seq<char>, field: Seq<char>, value: Seq<char>, e: Seq<char>) -> Seq<char> {
    "Failed to resolve map header '"@ + header + "' field '"@ + field + "' value '"@ + value + "': "@ + e
}

/// A field's number: its value, or 1 and 0 for a flag.
pub open spec fn entry_value(syms: SymView, raw: Seq<char>, flag: bool) -> Result<i64, Seq<char>> {
    if flag {
        match flag_of(syms, raw) {
            Ok(b) => Ok(if b { 1i64 } else { 0i64 }),
            Err(e) => Err(e),
        }
    } else {
        value_of(syms, raw)
    }
}

/// The first `n` fields of a layout, read in order: `None` for a field that
/// is absent; the first field that cannot be resolved stops the reading.
pub open spec fn resolve_entries(
    header: Seq<char>,
    fields: Seq<(Seq<char>, Seq<char>)>,
    syms: SymView,
    l: HeaderLayout,
    n: nat,
) -> Result<Seq<Option<i64>>, Seq<char>>
    decreases n,
{
    if n == 0 {
        Ok(Seq::empty())
    } else {
        match resolve_entries(header, fields, syms, l, (n - 1) as nat) {
            Err(e) => Err(e),
            Ok(vs) => {
                let name = entry_name(l, n - 1);
                match field_lookup(fields, name) {
                    None => Ok(vs.push(None)),
                    Some(raw) => match entry_value(syms, raw, entry_is_flag(l, n - 1)) {
                        Ok(x) => Ok(vs.push(Some(x))),
                        Err(e) => Err(field_error_text(header, name, raw, e)),
                    },
                }
            },
        }
    }
}

/// A field's value cut to a byte (as `as u8` does), or 0 when absent.
pub open spec fn low8(o: Option<i64>) -> u8 {
    match o {
        Some(v) => v as u8,
        None => 0,
    }
}

/// A field's value cut to 16 bits (as `as u16` does), or 0 when absent.
pub open spec fn low16(o: Option<i64>) -> u16 {
    match o {
        Some(v) => v as u16,
        None => 0,
    }
}

/// 1 for a flag that was read as set, else 0.
pub open spec fn on(o: Option<i64>) -> int {
    if o == Some(1i64) {
        1
    } else {
        0
    }
}

pub open spec fn pt_from_entries(v: Seq<Option<i64>>) -> MapHeaderPt {
    MapHeaderPt {
        area_data_id: low8(v[0]),
        unknown1: low8(v[1]),
        matrix_id: low16(v[2]),
        script_file_id: low16(v[3]),
        level_script_id: low16(v[4]),
        text_archive_id: low16(v[5]),
        music_day_id: low16(v[6]),
        music_night_id: low16(v[7]),
        wild_pokemon: low16(v[8]),
        event_file_id: low16(v[9]),
        location_name: low8(v[10]),
        area_icon: low8(v[11]),
        weather_id: low8(v[12]),
        camera_angle_id: low8(v[13]),
        location_specifier: low8(v[14]),
        battle_background: low8(v[15]),
        flags: (on(v[16]) + 2 * on(v[17]) + 4 * on(v[18]) + 8 * on(v[19])) as u8,
    }
}

pub open spec fn hgss_from_entries(v: Seq<Option<i64>>) -> MapHeaderHGSS {
    MapHeaderHGSS {
        wild_pokemon: low8(v[0]),
        area_data_id: low8(v[1]),
        unknown0: low8(v[2]),
        worldmap_x: low8(v[3]),
        worldmap_y: low8(v[4]),
        matrix_id: low16(v[5]),
        script_file_id: low16(v[6]),
        level_script_id: low16(v[7]),
        text_archive_id: low16(v[8]),
        music_day_id: low16(v[9]),
        music_night_id: low16(v[10]),
        event_file_id: low16(v[11]),
        location_name: low8(v[12]),
        area_icon: low8(v[13]),
        unknown1: low8(v[14]),
        kanto_flag: v[15] == Some(1i64),
        weather_id: low8(v[16]),
        location_type: low8(v[17]),
        camera_angle_id: low8(v[18]),
        follow_mode: low8(v[19]),
        battle_background: low8(v[20]),
        flags: (on(v[21]) + 2 * on(v[22]) + 4 * on(v[23]) + 8 * on(v[24]) + 16 * on(v[25]) + 32 * on(
            v[26],
        ) + 64 * on(v[27])) as u8,
    }
}

/// The Platinum header a parsed header describes, or the message of the
/// first field that cannot be resolved.
pub open spec fn pt_header_of(
    header: Seq<char>,
    fields: Seq<(Seq<char>, Seq<char>)>,
    syms: SymView,
) -> Result<MapHeaderPt, Seq<char>> {
    match resolve_entries(header, fields, syms, HeaderLayout::Platinum, 20) {
        Ok(v) => Ok(pt_from_entries(v)),
        Err(e) => Err(e),
    }
}

/// The HeartGold/SoulSilver header a parsed header describes, or the
/// message of the first field that cannot be resolved.
pub open spec fn hgss_header_of(
    header: Seq<char>,
    fields: Seq<(Seq<char>, Seq<char>)>,
    syms: SymView,
) -> Result<MapHeaderHGSS, Seq<char>> {
    match resolve_entries(header, fields, syms, HeaderLayout::HeartGoldSoulSilver, 28) {
        Ok(v) => Ok(hgss_from_entries(v)),
        Err(e) => Err(e),
    }
}

pub open spec fn text_result<T>(r: Result<T, String>) -> Result<T, Seq<char>> {
    match r {
        Ok(v) => Ok(v),
        Err(m) => Err(m@),
    }
}

fn int_or_hex_exec(s: &str) -> (r: Result<i64, String>)
    ensures
        text_result(r) == int_or_hex(s@),
{
    let v = chars_of(s);
    let (a, z) = trim_bounds(&v, 0, v.len());
    let ghost t = trim(s@);
    assert(v@.subrange(0, v@.len() as int) =~= s@);
    let ts = string_of(&v, a, z);
    proof {
        reveal_strlit("0x");
        reveal_strlit("0X");
    }
    let is_hex = z - a >= 2 && v[a] == '0' && (v[a + 1] == 'x' || v[a + 1] == 'X');
    assert(is_hex == (has_prefix_at(t, 0, "0x"@) || has_prefix_at(t, 0, "0X"@))) by {
        if z - a >= 2 {
            assert(t[0] == v@[a as int] && t[1] == v@[a + 1]);
            assert(v@[a + 1] == 'x' ==> v@[a as int] == '0' ==> t.subrange(0, 2) =~= "0x"@);
            assert(v@[a + 1] == 'X' ==> v@[a as int] == '0' ==> t.subrange(0, 2) =~= "0X"@);
            assert(t.subrange(0, 2) == "0x"@ ==> t.subrange(0, 2)[0] == '0' && t.subrange(0, 2)[1] == 'x');
            assert(t.subrange(0, 2) == "0X"@ ==> t.subrange(0, 2)[0] == '0' && t.subrange(0, 2)[1] == 'X');
        }
    }
    if is_hex {
        assert(v@.subrange(a + 2, z as int) =~= t.skip(2));
        match parse_int_detailed(&v, a + 2, z, 16, true, -0x8000_0000_0000_0000, 0x7fff_ffff_ffff_ffff) {
            Ok(x) => Ok(x as i64),
            Err(k) => {
                let mut m = String::from_str("invalid hexadecimal literal '");
                push_str(&mut m, ts.as_str());
                push_str(&mut m, "': ");
                push_str(&mut m, int_error_message(k));
                Err(m)
            },
        }
    } else {
        match parse_int_detailed(&v, a, z, 10, true, -0x8000_0000_0000_0000, 0x7fff_ffff_ffff_ffff) {
            Ok(x) => Ok(x as i64),
            Err(k) => {
                let mut m = String::from_str("invalid integer literal '");
                push_str(&mut m, ts.as_str());
                push_str(&mut m, "': ");
                push_str(&mut m, int_error_message(k));
                Err(m)
            },
        }
    }
}

fn value_of_exec(symbols: &SymbolTable, v: &str) -> (r: Result<i64, String>)
    requires
        lookups_safe(symbols.sv()),
    ensures
        text_result(r) == value_of(symbols.sv(), v@),
{
    proof { lemma_lookups_safe(symbols.sv(), v@); }
    match symbols.resolve_constant(v) {
        Some(x) => Ok(x),
        None => int_or_hex_exec(v),
    }
}

fn flag_of_exec(symbols: &SymbolTable, v: &str) -> (r: Result<bool, String>)
    requires
        lookups_safe(symbols.sv()),
    ensures
        text_result(r) == flag_of(symbols.sv(), v@),
{
    let c = chars_of(v);
    let (a, z) = trim_bounds(&c, 0, c.len());
    assert(c@.subrange(0, c@.len() as int) =~= v@);
    let t = string_of(&c, a, z);
    let ts = t.as_str();
    if str_eq(ts, "TRUE") || str_eq(ts, "true") || str_eq(ts, "1") {
        Ok(true)
    } else if str_eq(ts, "FALSE") || str_eq(ts, "false") || str_eq(ts, "0") {
        Ok(false)
    } else {
        match value_of_exec(symbols, ts) {
            Ok(x) => Ok(x != 0),
            Err(e) => Err(e),
        }
    }
}

fn entry_name_exec(l: HeaderLayout, i: usize) -> (s: &'static str)
    ensures
        s@ == entry_name(l, i as int),
{
    match l {
        HeaderLayout::Platinum => pt_entry_name_exec(i),
        HeaderLayout::HeartGoldSoulSilver => hgss_entry_name_exec(i),
    }
}

fn is_flag_entry(l: HeaderLayout, i: usize) -> (b: bool)
    ensures
        b == entry_is_flag(l, i as int),
{
    match l {
        HeaderLayout::Platinum => i >= 16,
        HeaderLayout::HeartGoldSoulSilver => i == 15 || i >= 21,
    }
}

fn layout_len(l: HeaderLayout) -> (n: usize)
    ensures
        n == entry_count(l),
{
    match l {
        HeaderLayout::Platinum => 20,
        HeaderLayout::HeartGoldSoulSilver => 28,
    }
}

/// Read a layout's fields from a parsed header, in order.
fn resolve_entries_exec(parsed: &ParsedMapHeader, symbols: &SymbolTable, l: HeaderLayout) -> (r: Result<Vec<Option<i64>>, UxieError>)
    requires
        lookups_safe(symbols.sv()),
    ensures
        match r {
            Ok(v) => resolve_entries(parsed.name@, parsed.field_list(), symbols.sv(), l, entry_count(l)) == Ok::<Seq<Option<i64>>, Seq<char>>(v@)
                && v@.len() == entry_count(l),
            Err(e) => invalid_data_text(e) matches Some(m)
                && resolve_entries(parsed.name@, parsed.field_list(), symbols.sv(), l, entry_count(l)) == Err::<Seq<Option<i64>>, Seq<char>>(m),
        },
{
    let n = layout_len(l);
    let mut out: Vec<Option<i64>> = Vec::new();
    let mut i: usize = 0;
    while i < n
        invariant
            lookups_safe(symbols.sv()),
            n == entry_count(l),
            i <= n,
            out@.len() == i,
            resolve_entries(parsed.name@, parsed.field_list(), symbols.sv(), l, i as nat) == Ok::<Seq<Option<i64>>, Seq<char>>(out@),
        decreases n - i,
    {
        let name = entry_name_exec(l, i);
        let flag = is_flag_entry(l, i);
        match parsed.field(name) {
            None => {
                out.push(None);
            },
            Some(raw) => {
                let res: Result<i64, String> = if flag {
                    match flag_of_exec(symbols, raw.as_str()) {
                        Ok(b) => Ok(if b { 1i64 } else { 0i64 }),
                        Err(e) => Err(e),
                    }
                } else {
                    value_of_exec(symbols, raw.as_str())
                };
                match res {
                    Ok(x) => {
                        out.push(Some(x));
                    },
                    Err(e) => {
                        let mut m = String::from_str("Failed to resolve map header '");
                        push_str(&mut m, parsed.name.as_str());
                        push_str(&mut m, "' field '");
                        push_str(&mut m, name);
                        push_str(&mut m, "' value '");
                        push_str(&mut m, raw.as_str());
                        push_str(&mut m, "': ");
                        push_str(&mut m, e.as_str());
                        proof {
                            assert(m@ =~= field_error_text(parsed.name@, name@, raw@, e@));
                            assert(resolve_entries(parsed.name@, parsed.field_list(), symbols.sv(), l, (i + 1) as nat)
                                == Err::<Seq<Option<i64>>, Seq<char>>(m@));
                            lemma_resolve_error_stays(parsed.name@, parsed.field_list(), symbols.sv(), l, (i + 1) as nat, entry_count(l));
                        }
                        return Err(UxieError::invalid_data(m));
                    },
                }
            },
        }
        i = i + 1;
    }
    Ok(out)
}

proof fn lemma_resolve_error_stays(
    header: Seq<char>,
    fields: Seq<(Seq<char>, Seq<char>)>,
    syms: SymView,
    l: HeaderLayout,
    k: nat,
    n: nat,
)
    requires
        k <= n,
        resolve_entries(header, fields, syms, l, k) is Err,
    ensures
        resolve_entries(header, fields, syms, l, n) == resolve_entries(header, fields, syms, l, k),
    decreases n - k,
{
    if k < n {
        lemma_resolve_error_stays(header, fields, syms, l, k, (n - 1) as nat);
    }
}

fn low8_exec(o: Option<i64>) -> (b: u8)
    ensures
        b == low8(o),
{
    match o {
        Some(v) => v as u8,
        None => 0,
    }
}

fn low16_exec(o: Option<i64>) -> (b: u16)
    ensures
        b == low16(o),
{
    match o {
        Some(v) => v as u16,
        None => 0,
    }
}

fn on_exec(o: Option<i64>) -> (b: u8)
    ensures
        b == on(o),
{
    match o {
        Some(v) => if v == 1 { 1 } else { 0 },
        None => 0,
    }
}

/// Convert a parsed header into a Platinum map header. Absent fields stay
/// 0 (false for flags); values are cut to the width of their field.
pub fn parsed_to_pt_header(parsed: &ParsedMapHeader, symbols: &SymbolTable) -> (r: Result<MapHeaderPt, UxieError>)
    requires
        lookups_safe(symbols.sv()),
    ensures
        match r {
            Ok(h) => pt_header_of(parsed.name@, parsed.field_list(), symbols.sv()) == Ok::<MapHeaderPt, Seq<char>>(h),
            Err(e) => invalid_data_text(e) matches Some(m)
                && pt_header_of(parsed.name@, parsed.field_list(), symbols.sv()) == Err::<MapHeaderPt, Seq<char>>(m),
        },
{
    let v = match resolve_entries_exec(parsed, symbols, HeaderLayout::Platinum) {
        Ok(v) => v,
        Err(e) => return Err(e),
    };
    let flags: u8 = on_exec(v[16]) + 2 * on_exec(v[17]) + 4 * on_exec(v[18]) + 8 * on_exec(v[19]);
    let h = MapHeaderPt {
        area_data_id: low8_exec(v[0]),
        unknown1: low8_exec(v[1]),
        matrix_id: low16_exec(v[2]),
        script_file_id: low16_exec(v[3]),
        level_script_id: low16_exec(v[4]),
        text_archive_id: low16_exec(v[5]),
        music_day_id: low16_exec(v[6]),
        music_night_id: low16_exec(v[7]),
        wild_pokemon: low16_exec(v[8]),
        event_file_id: low16_exec(v[9]),
        location_name: low8_exec(v[10]),
        area_icon: low8_exec(v[11]),
        weather_id: low8_exec(v[12]),
        camera_angle_id: low8_exec(v[13]),
        location_specifier: low8_exec(v[14]),
        battle_background: low8_exec(v[15]),
        flags,
    };
    Ok(h)
}

/// Convert a parsed header into a HeartGold/SoulSilver map header. Absent
/// fields stay 0 (false for flags); values are cut to the width of their
/// field.
pub fn parsed_to_hgss_header(parsed: &ParsedMapHeader, symbols: &SymbolTable) -> (r: Result<MapHeaderHGSS, UxieError>)
    requires
        lookups_safe(symbols.sv()),
    ensures
        match r {
            Ok(h) => hgss_header_of(parsed.name@, parsed.field_list(), symbols.sv()) == Ok::<MapHeaderHGSS, Seq<char>>(h),
            Err(e) => invalid_data_text(e) matches Some(m)
                && hgss_header_of(parsed.name@, parsed.field_list(), symbols.sv()) == Err::<MapHeaderHGSS, Seq<char>>(m),
        },
{
    let v = match resolve_entries_exec(parsed, symbols, HeaderLayout::HeartGoldSoulSilver) {
        Ok(v) => v,
        Err(e) => return Err(e),
    };
    let flags: u8 = on_exec(v[21]) + 2 * on_exec(v[22]) + 4 * on_exec(v[23]) + 8 * on_exec(v[24]) + 16 * on_exec(v[25])
        + 32 * on_exec(v[26]) + 64 * on_exec(v[27]);
    let h = MapHeaderHGSS {
        wild_pokemon: low8_exec(v[0]),
        area_data_id: low8_exec(v[1]),
        unknown0: low8_exec(v[2]),
        worldmap_x: low8_exec(v[3]),
        worldmap_y: low8_exec(v[4]),
        matrix_id: low16_exec(v[5]),
        script_file_id: low16_exec(v[6]),
        level_script_id: low16_exec(v[7]),
        text_archive_id: low16_exec(v[8]),
        music_day_id: low16_exec(v[9]),
        music_night_id: low16_exec(v[10]),
        event_file_id: low16_exec(v[11]),
        location_name: low8_exec(v[12]),
        area_icon: low8_exec(v[13]),
        unknown1: low8_exec(v[14]),
        kanto_flag: v[15] == Some(1i64),
        weather_id: low8_exec(v[16]),
        location_type: low8_exec(v[17]),
        camera_angle_id: low8_exec(v[18]),
        follow_mode: low8_exec(v[19]),
        battle_background: low8_exec(v[20]),
        flags,
    };
    Ok(h)
}

/// The number a C header's field named `name` gives: none when the field is
/// absent, else its value (1 or 0 for a flag).
pub open spec fn c_field_value(fields: Seq<(Seq<char>, Seq<char>)>, syms: SymView, name: Seq<char>, flag: bool) -> Option<i64> {
    match field_lookup(fields, name) {
        None => None,
        Some(raw) => match entry_value(syms, raw, flag) {
            Ok(x) => Some(x),
            Err(_) => None,
        },
    }
}

/// Every entry read resolved: entry `i` is the number of the field named
/// `entry_name(l, i)`.
proof fn lemma_entries_named(
    header: Seq<char>,
    fields: Seq<(Seq<char>, Seq<char>)>,
    syms: SymView,
    l: HeaderLayout,
    n: nat,
)
    requires
        resolve_entries(header, fields, syms, l, n) is Ok,
    ensures
        resolve_entries(header, fields, syms, l, n)->Ok_0.len() == n,
        forall|i: int| 0 <= i < n ==> #[trigger] resolve_entries(header, fields, syms, l, n)->Ok_0[i]
            == c_field_value(fields, syms, entry_name(l, i), entry_is_flag(l, i)),
    decreases n,
{
    if n > 0 {
        lemma_entries_named(header, fields, syms, l, (n - 1) as nat);
        let vs = resolve_entries(header, fields, syms, l, (n - 1) as nat)->Ok_0;
        let all = resolve_entries(header, fields, syms, l, n)->Ok_0;
        assert forall|i: int| 0 <= i < n implies #[trigger] all[i] == c_field_value(fields, syms, entry_name(l, i),
            entry_is_flag(l, i)) by {
            if i < n - 1 {
                assert(all[i] == vs[i]);
            }
        }
    }
}

/// Law: a Platinum header read from C takes each field from the C field of
/// its name: the area data from `areaDataArchiveID`, the unknown byte from
/// `unk_01`, the matrix from `mapMatrixID`, the scripts from
/// `scriptsArchiveID` and `initScriptsArchiveID`, the text archive from
/// `msgArchiveID`, the music from `dayMusicID` and `nightMusicID`, the wild
/// Pokémon from `wildEncountersArchiveID`, the events from
/// `eventsArchiveID`, the location name from `mapLabelTextID`, the area icon
/// from `mapLabelWindowID`, the weather, camera and location specifier from
/// `weather`, `cameraType` and `mapType`, the battle background from
/// `battleBG`; the flags are bike (1), running (2), escape rope (4) and fly
/// (8). An absent field gives 0.
pub proof fn pt_c_fields(header: Seq<char>, fields: Seq<(Seq<char>, Seq<char>)>, syms: SymView, h: MapHeaderPt)
    requires
        pt_header_of(header, fields, syms) == Ok::<MapHeaderPt, Seq<char>>(h),
    ensures
        h.area_data_id == low8(c_field_value(fields, syms, "areaDataArchiveID"@, false)),
        h.unknown1 == low8(c_field_value(fields, syms, "unk_01"@, false)),
        h.matrix_id == low16(c_field_value(fields, syms, "mapMatrixID"@, false)),
        h.script_file_id == low16(c_field_value(fields, syms, "scriptsArchiveID"@, false)),
        h.level_script_id == low16(c_field_value(fields, syms, "initScriptsArchiveID"@, false)),
        h.text_archive_id == low16(c_field_value(fields, syms, "msgArchiveID"@, false)),
        h.music_day_id == low16(c_field_value(fields, syms, "dayMusicID"@, false)),
        h.music_night_id == low16(c_field_value(fields, syms, "nightMusicID"@, false)),
        h.wild_pokemon == low16(c_field_value(fields, syms, "wildEncountersArchiveID"@, false)),
        h.event_file_id == low16(c_field_value(fields, syms, "eventsArchiveID"@, false)),
        h.location_name == low8(c_field_value(fields, syms, "mapLabelTextID"@, false)),
        h.area_icon == low8(c_field_value(fields, syms, "mapLabelWindowID"@, false)),
        h.weather_id == low8(c_field_value(fields, syms, "weather"@, false)),
        h.camera_angle_id == low8(c_field_value(fields, syms, "cameraType"@, false)),
        h.location_specifier == low8(c_field_value(fields, syms, "mapType"@, false)),
        h.battle_background == low8(c_field_value(fields, syms, "battleBG"@, false)),
        h.flags as int == 1 * on(c_field_value(fields, syms, "isBikeAllowed"@, true)) + 2 * on(c_field_value(fields, syms, "isRunningAllowed"@, true)) + 4 * on(c_field_value(fields, syms, "isEscapeRopeAllowed"@, true)) + 8 * on(c_field_value(fields, syms, "isFlyAllowed"@, true)),
{
    lemma_entries_named(header, fields, syms, HeaderLayout::Platinum, 20);
    let v = resolve_entries(header, fields, syms, HeaderLayout::Platinum, 20)->Ok_0;
    assert(h == pt_from_entries(v));
    assert(v[0] == c_field_value(fields, syms, pt_entry_name(0), false));
    assert(v[1] == c_field_value(fields, syms, pt_entry_name(1), false));
    assert(v[2] == c_field_value(fields, syms, pt_entry_name(2), false));
    assert(v[3] == c_field_value(fields, syms, pt_entry_name(3), false));
    assert(v[4] == c_field_value(fields, syms, pt_entry_name(4), false));
    assert(v[5] == c_field_value(fields, syms, pt_entry_name(5), false));
    assert(v[6] == c_field_value(fields, syms, pt_entry_name(6), false));
    assert(v[7] == c_field_value(fields, syms, pt_entry_name(7), false));
    assert(v[8] == c_field_value(fields, syms, pt_entry_name(8), false));
    assert(v[9] == c_field_value(fields, syms, pt_entry_name(9), false));
    assert(v[10] == c_field_value(fields, syms, pt_entry_name(10), false));
    assert(v[11] == c_field_value(fields, syms, pt_entry_name(11), false));
    assert(v[12] == c_field_value(fields, syms, pt_entry_name(12), false));
    assert(v[13] == c_field_value(fields, syms, pt_entry_name(13), false));
    assert(v[14] == c_field_value(fields, syms, pt_entry_name(14), false));
    assert(v[15] == c_field_value(fields, syms, pt_entry_name(15), false));
    assert(v[16] == c_field_value(fields, syms, pt_entry_name(16), true));
    assert(v[17] == c_field_value(fields, syms, pt_entry_name(17), true));
    assert(v[18] == c_field_value(fields, syms, pt_entry_name(18), true));
    assert(v[19] == c_field_value(fields, syms, pt_entry_name(19), true));
}

/// Law: a HeartGold/SoulSilver header read from C takes each field from the
/// C field of its name: the wild Pokémon from `wildEncounterBank`, the area
/// data from `areaDataBank`, the unknown coordinate field from
/// `moveModelBank`, the world map position from `worldMapX` and
/// `worldMapY`, the matrix from `matrixId`, the scripts from `scriptsBank`
/// and `scriptHeaderBank`, the text archive from `msgBank`, the music from
/// `dayMusicId` and `nightMusicId`, the events from `eventsBank`, the
/// location name from `mapsec`, the area icon from `areaIcon`, the unknown
/// area field from `momCallIntroParam`, the Kanto flag from `isKanto`, the
/// weather, location type, camera, follow mode and battle background from
/// `weather`, `mapType`, `cameraType`, `followMode` and `battleBg`; the
/// flags are bike (1), running (2), escape rope (4), fly (8), outgoing
/// calls (16), incoming calls (32) and radio signal (64). An absent field
/// gives 0.
pub proof fn hgss_c_fields(header: Seq<char>, fields: Seq<(Seq<char>, Seq<char>)>, syms: SymView, h: MapHeaderHGSS)
    requires
        hgss_header_of(header, fields, syms) == Ok::<MapHeaderHGSS, Seq<char>>(h),
    ensures
        h.wild_pokemon == low8(c_field_value(fields, syms, "wildEncounterBank"@, false)),
        h.area_data_id == low8(c_field_value(fields, syms, "areaDataBank"@, false)),
        h.unknown0 == low8(c_field_value(fields, syms, "moveModelBank"@, false)),
        h.worldmap_x == low8(c_field_value(fields, syms, "worldMapX"@, false)),
        h.worldmap_y == low8(c_field_value(fields, syms, "worldMapY"@, false)),
        h.matrix_id == low16(c_field_value(fields, syms, "matrixId"@, false)),
        h.script_file_id == low16(c_field_value(fields, syms, "scriptsBank"@, false)),
        h.level_script_id == low16(c_field_value(fields, syms, "scriptHeaderBank"@, false)),
        h.text_archive_id == low16(c_field_value(fields, syms, "msgBank"@, false)),
        h.music_day_id == low16(c_field_value(fields, syms, "dayMusicId"@, false)),
        h.music_night_id == low16(c_field_value(fields, syms, "nightMusicId"@, false)),
        h.event_file_id == low16(c_field_value(fields, syms, "eventsBank"@, false)),
        h.location_name == low8(c_field_value(fields, syms, "mapsec"@, false)),
        h.area_icon == low8(c_field_value(fields, syms, "areaIcon"@, false)),
        h.unknown1 == low8(c_field_value(fields, syms, "momCallIntroParam"@, false)),
        h.weather_id == low8(c_field_value(fields, syms, "weather"@, false)),
        h.location_type == low8(c_field_value(fields, syms, "mapType"@, false)),
        h.camera_angle_id == low8(c_field_value(fields, syms, "cameraType"@, false)),
        h.follow_mode == low8(c_field_value(fields, syms, "followMode"@, false)),
        h.battle_background == low8(c_field_value(fields, syms, "battleBg"@, false)),
        h.flags as int == 1 * on(c_field_value(fields, syms, "bikeAllowed"@, true)) + 2 * on(c_field_value(fields, syms, "runningAllowed_Unused"@, true)) + 4 * on(c_field_value(fields, syms, "escapeRopeAllowed"@, true)) + 8 * on(c_field_value(fields, syms, "flyAllowed"@, true)) + 16 * on(c_field_value(fields, syms, "outgoingCalls"@, true)) + 32 * on(c_field_value(fields, syms, "incomingCalls"@, true)) + 64 * on(c_field_value(fields, syms, "radioSignal"@, true)),
        h.kanto_flag == (c_field_value(fields, syms, "isKanto"@, true) == Some(1i64)),
{
    lemma_entries_named(header, fields, syms, HeaderLayout::HeartGoldSoulSilver, 28);
    let v = resolve_entries(header, fields, syms, HeaderLayout::HeartGoldSoulSilver, 28)->Ok_0;
    assert(h == hgss_from_entries(v));
    assert(v[0] == c_field_value(fields, syms, hgss_entry_name(0), false));
    assert(v[1] == c_field_value(fields, syms, hgss_entry_name(1), false));
    assert(v[2] == c_field_value(fields, syms, hgss_entry_name(2), false));
    assert(v[3] == c_field_value(fields, syms, hgss_entry_name(3), false));
    assert(v[4] == c_field_value(fields, syms, hgss_entry_name(4), false));
    assert(v[5] == c_field_value(fields, syms, hgss_entry_name(5), false));
    assert(v[6] == c_field_value(fields, syms, hgss_entry_name(6), false));
    assert(v[7] == c_field_value(fields, syms, hgss_entry_name(7), false));
    assert(v[8] == c_field_value(fields, syms, hgss_entry_name(8), false));
    assert(v[9] == c_field_value(fields, syms, hgss_entry_name(9), false));
    assert(v[10] == c_field_value(fields, syms, hgss_entry_name(10), false));
    assert(v[11] == c_field_value(fields, syms, hgss_entry_name(11), false));
    assert(v[12] == c_field_value(fields, syms, hgss_entry_name(12), false));
    assert(v[13] == c_field_value(fields, syms, hgss_entry_name(13), false));
    assert(v[14] == c_field_value(fields, syms, hgss_entry_name(14), false));
    assert(v[15] == c_field_value(fields, syms, hgss_entry_name(15), true));
    assert(v[16] == c_field_value(fields, syms, hgss_entry_name(16), false));
    assert(v[17] == c_field_value(fields, syms, hgss_entry_name(17), false));
    assert(v[18] == c_field_value(fields, syms, hgss_entry_name(18), false));
    assert(v[19] == c_field_value(fields, syms, hgss_entry_name(19), false));
    assert(v[20] == c_field_value(fields, syms, hgss_entry_name(20), false));
    assert(v[21] == c_field_value(fields, syms, hgss_entry_name(21), true));
    assert(v[22] == c_field_value(fields, syms, hgss_entry_name(22), true));
    assert(v[23] == c_field_value(fields, syms, hgss_entry_name(23), true));
    assert(v[24] == c_field_value(fields, syms, hgss_entry_name(24), true));
    assert(v[25] == c_field_value(fields, syms, hgss_entry_name(25), true));
    assert(v[26] == c_field_value(fields, syms, hgss_entry_name(26), true));
    assert(v[27] == c_field_value(fields, syms, hgss_entry_name(27), true));
}

} // verus!
