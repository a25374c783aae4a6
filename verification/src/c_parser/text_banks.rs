//! Constants from text bank JSON: message ids, object event ids, and
//! constants named after the messages' display text (item, move, trainer
//! names and the like).
use vstd::prelude::*;
use crate::c_parser::symbol_table::{SymbolTable, canonicalize_constant_name, canonical_of,
    deunicode_of, normalized_name, starts_with};
use crate::c_parser::json::{JsonTree, field_value, json_get, json_parse, parse_json, member, field_of};
use crate::error::{UxieError, invalid_data_text};
use crate::game::GameLanguage;
use crate::results::{map_results, lemma_map_results_step, lemma_map_results_stops};
use crate::text::{chars_of, dec, dec_padded, push_char, push_dec, push_str, str_eq, string_of, trim,
    trim_bounds, u64_to_padded, index_of, piece_end};

verus! {

/// The first field, other than `id`, that holds text or an array.
pub open spec fn first_text_field(m: Seq<(String, JsonTree)>) -> Option<JsonTree>
    decreases m.len(),
{
    if m.len() == 0 {
        None
    } else if m[0].0@ != "id"@ && (m[0].1 is Text || m[0].1 is List) {
        Some(m[0].1)
    } else {
        first_text_field(m.drop_first())
    }
}

/// The field a message's display name comes from: the language's own key,
/// else `en_US`, else `ja_JP`, else the first text field.
pub open spec fn display_field(m: Seq<(String, JsonTree)>, language: GameLanguage) -> Option<JsonTree> {
    match field_value(m, language.spec_locale_key()) {
        Some(v) => Some(v),
        None => match field_value(m, "en_US"@) {
            Some(v) => Some(v),
            None => match field_value(m, "ja_JP"@) {
                Some(v) => Some(v),
                None => first_text_field(m),
            },
        },
    }
}

/// The index of the first part that is not a string.
pub open spec fn first_missing_part(ps: Seq<JsonTree>) -> Option<nat>
    decreases ps.len(),
{
    if ps.len() == 0 {
        None
    } else if !(ps[0] is Text) {
        Some(0)
    } else {
        match first_missing_part(ps.drop_first()) {
            Some(i) => Some(i + 1),
            None => None,
        }
    }
}

/// The parts' texts joined.
pub open spec fn joined(ps: Seq<JsonTree>) -> Seq<char>
    decreases ps.len(),
{
    if ps.len() == 0 {
        Seq::empty()
    } else {
        joined(ps.drop_last()) + match ps.last() {
            JsonTree::Text(s) => s@,
            _ => Seq::empty(),
        }
    }
}

/// A display text without a `{tag:...}` wrapper: `{x:y}` shows as `y`.
pub open spec fn unwrapped(d: Seq<char>) -> Seq<char> {
    if d.len() >= 2 && d[0] == '{' && d.last() == '}' {
        let inner = d.subrange(1, d.len() - 1);
        if index_of(inner, ':') < inner.len() {
            trim(inner.skip(index_of(inner, ':') + 1int))
        } else {
            d
        }
    } else {
        d
    }
}

/// The display name of message `index`, or the error for its field.
pub open spec fn display_name_of(path: Seq<char>, index: nat, m: Seq<(String, JsonTree)>, language: GameLanguage)
    -> Result<Option<Seq<char>>, Seq<char>>
{
    match display_field(m, language) {
        None => Ok(None),
        Some(JsonTree::Text(t)) => Ok(Some(unwrapped(trim(t@)))),
        Some(JsonTree::List(ps)) => match first_missing_part(ps@) {
            Some(p) => Err("Text bank JSON "@ + path + " has non-string 'messages["@ + dec(index) + "]' content part "@
                + dec(p)),
            None => Ok(Some(unwrapped(trim(joined(ps@))))),
        },
        Some(_) => Err("Text bank JSON "@ + path + " has unsupported message text value at messages["@
            + dec(index) + "]"@),
    }
}

pub open spec fn ascii_lower(c: char) -> bool {
    'a' <= c && c <= 'z'
}

pub open spec fn ascii_upper(c: char) -> bool {
    'A' <= c && c <= 'Z'
}

/// A space put between a lower-case letter and the upper-case letter that
/// follows it (`ThunderPunch` → `Thunder Punch`).
pub open spec fn split_words(s: Seq<char>) -> Seq<char>
    decreases s.len(),
{
    if s.len() == 0 {
        Seq::empty()
    } else {
        let rest = split_words(s.drop_last());
        if s.len() >= 2 && ascii_lower(s[s.len() - 2]) && ascii_upper(s.last()) {
            rest + seq![' ', s.last()]
        } else {
            rest.push(s.last())
        }
    }
}

/// `s` with every `c` removed.
pub open spec fn without_char(s: Seq<char>, c: char) -> Seq<char>
    decreases s.len(),
{
    if s.len() == 0 {
        Seq::empty()
    } else if s.last() == c {
        without_char(s.drop_last(), c)
    } else {
        without_char(s.drop_last(), c).push(s.last())
    }
}

/// The constant a display name gives in a bank of constants named
/// `prefix...`: item banks drop hyphens and name `???` entries
/// `ITEM_UNUSED_<index>`, move banks split compound words; the name is then
/// made a constant name. A name with nothing left gives none.
pub open spec fn bank_constant(display: Seq<char>, prefix: Seq<char>, index: nat) -> Option<Seq<char>> {
    if prefix == "ITEM_"@ && display == "???"@ {
        Some("ITEM_UNUSED_"@ + dec(index))
    } else {
        let normalized = if prefix == "ITEM_"@ {
            without_char(display, '-')
        } else if prefix == "MOVE_"@ {
            split_words(display)
        } else {
            display
        };
        let canonical = canonical_of(deunicode_of(normalized_name(normalized)));
        if canonical.len() == 0 {
            None
        } else if prefix == "ITEM_"@ && canonical == "X_DEFEND"@ {
            Some(prefix + "X_DEFENSE"@)
        } else {
            Some(prefix + canonical)
        }
    }
}

/// What loading a text bank did: the table's constants after it and how
/// many were added, or the error and the constants added before it.
pub ghost enum BankOutcome {
    Done(Seq<(Seq<char>, i64)>, nat),
    Failed(Seq<(Seq<char>, i64)>, Seq<char>),
}

/// The constant of message `index`, given `msg` (`None`: not a JSON
/// object). A message with no display name adds nothing; one whose name
/// gives no constant adds `<prefix>NONE` if it is the first message.
/// `width` pads the index appended to every constant.
pub open spec fn bank_step(
    es: Seq<(Seq<char>, i64)>,
    count: nat,
    path: Seq<char>,
    prefix: Seq<char>,
    width: Option<usize>,
    language: GameLanguage,
    index: nat,
    msg: JsonTree,
) -> BankOutcome {
    match msg {
        JsonTree::Object(fs) => match display_name_of(path, index, fs@, language) {
            Err(e) => BankOutcome::Failed(es, e),
            Ok(None) => BankOutcome::Done(es, count),
            Ok(Some(d)) => match bank_constant(d, prefix, index) {
                None => if index == 0 {
                    BankOutcome::Done(es.push((prefix + "NONE"@, 0i64)), count + 1)
                } else {
                    BankOutcome::Done(es, count)
                },
                Some(sym) => {
                    let name = match width {
                        Some(w) => sym + "_"@ + dec_padded(index, w as nat),
                        None => sym,
                    };
                    BankOutcome::Done(es.push((name, index as i64)), count + 1)
                },
            },
        },
        _ => BankOutcome::Failed(es, "Text bank JSON "@ + path + " has non-object 'messages["@ + dec(index)
            + "]' entry"@),
    }
}

pub open spec fn bank_run(
    es: Seq<(Seq<char>, i64)>,
    msgs: Seq<JsonTree>,
    path: Seq<char>,
    prefix: Seq<char>,
    width: Option<usize>,
    language: GameLanguage,
) -> BankOutcome
    decreases msgs.len(),
{
    if msgs.len() == 0 {
        BankOutcome::Done(es, 0)
    } else {
        match bank_run(es, msgs.drop_last(), path, prefix, width, language) {
            BankOutcome::Done(es2, c) => bank_step(es2, c, path, prefix, width, language, (msgs.len() - 1) as nat,
                msgs.last()),
            f => f,
        }
    }
}

/// The `id` field of a message: absent, not a string, or its text.
#[derive(Debug, Clone, PartialEq, Eq)]
pub enum IdField {
    Missing,
    NotText,
    Text(String),
}

/// Defining each id as its index; `fail` gives the error for the item at
/// an index whose id is unusable, `None` for one that is skipped.
pub open spec fn ids_run(
    es: Seq<(Seq<char>, i64)>,
    ids: Seq<IdField>,
    fail: spec_fn(nat, IdField) -> Option<Seq<char>>,
) -> BankOutcome
    decreases ids.len(),
{
    if ids.len() == 0 {
        BankOutcome::Done(es, 0)
    } else {
        match ids_run(es, ids.drop_last(), fail) {
            BankOutcome::Done(es2, c) => match ids.last() {
                IdField::Text(t) => BankOutcome::Done(es2.push((t@, (ids.len() - 1) as i64)), c + 1),
                other => match fail((ids.len() - 1) as nat, other) {
                    Some(m) => BankOutcome::Failed(es2, m),
                    None => BankOutcome::Done(es2, c),
                },
            },
            f => f,
        }
    }
}

/// Which list of ids is being loaded.
#[derive(Debug, Clone, Copy, PartialEq, Eq, Structural)]
pub enum IdList {
    /// The `messages` of a text bank.
    Messages,
    /// The `object_events` of a text bank.
    BankEvents,
    /// The `object_events` of an events file.
    EventsFile,
}

/// The error for the item at `index` of a list whose id is unusable.
pub open spec fn id_error(kind: IdList, path: Seq<char>, index: nat) -> Seq<char> {
    match kind {
        IdList::Messages => "Text bank JSON "@ + path + " has non-string or missing 'messages["@ + dec(index) + "].id'"@,
        IdList::BankEvents => "Text bank JSON "@ + path + " has non-string or missing 'object_events["@ + dec(index)
            + "].id'"@,
        IdList::EventsFile => "Events JSON "@ + path + " has non-string or missing 'object_events["@ + dec(index)
            + "].id'"@,
    }
}

/// Messages without an id are skipped unless some message has one; every
/// other unusable id is an error.
pub open spec fn id_fail(kind: IdList, path: Seq<char>, expects_ids: bool) -> spec_fn(nat, IdField) -> Option<Seq<char>> {
    |i: nat, f: IdField| if kind == IdList::Messages && f is Missing && !expects_ids {
        None
    } else {
        Some(id_error(kind, path, i))
    }
}

/// Some message has an `id` field.
pub open spec fn has_ids(ms: Seq<IdField>) -> bool {
    exists|i: int| 0 <= i < ms.len() && !(#[trigger] ms[i] is Missing)
}

/// The `id` field of a message.
pub open spec fn message_id_of(m: JsonTree) -> IdField {
    match json_get(m, "id"@) {
        None => IdField::Missing,
        Some(JsonTree::Text(t)) => IdField::Text(t),
        Some(_) => IdField::NotText,
    }
}

/// The `id` field of an object event; one that is absent or not a string
/// is as unusable as the other.
pub open spec fn event_id_of(e: JsonTree) -> IdField {
    match json_get(e, "id"@) {
        Some(JsonTree::Text(t)) => IdField::Text(t),
        _ => IdField::NotText,
    }
}

pub open spec fn message_ids(ms: Seq<JsonTree>) -> Seq<IdField> {
    ms.map_values(|m: JsonTree| message_id_of(m))
}

pub open spec fn event_ids(events: Seq<JsonTree>) -> Seq<IdField> {
    events.map_values(|e: JsonTree| event_id_of(e))
}

/// Loading the object event ids of an events file.
pub open spec fn events_load(es: Seq<(Seq<char>, i64)>, doc: JsonTree, path: Seq<char>) -> BankOutcome {
    match json_get(doc, "object_events"@) {
        Some(JsonTree::List(vs)) => ids_run(es, event_ids(vs@), id_fail(IdList::EventsFile, path, true)),
        _ => BankOutcome::Failed(es, "Events JSON "@ + path + " is missing an 'object_events' array"@),
    }
}

/// Loading a text bank's message ids, then its object event ids.
pub open spec fn text_bank_load(es: Seq<(Seq<char>, i64)>, doc: JsonTree, path: Seq<char>) -> BankOutcome {
    let messages = json_get(doc, "messages"@);
    let events = json_get(doc, "object_events"@);
    if messages is None && events is None {
        BankOutcome::Failed(es, "Text bank JSON "@ + path + " is missing both 'messages' and 'object_events' arrays"@)
    } else {
        let after_messages = match messages {
            None => BankOutcome::Done(es, 0),
            Some(JsonTree::List(ms)) => ids_run(es, message_ids(ms@), id_fail(IdList::Messages, path,
                has_ids(message_ids(ms@)))),
            Some(_) => BankOutcome::Failed(es, "Text bank JSON "@ + path + " has non-array 'messages' field"@),
        };
        match after_messages {
            BankOutcome::Done(es2, c) => match events {
                None => BankOutcome::Done(es2, c),
                Some(JsonTree::List(vs)) => match ids_run(es2, event_ids(vs@), id_fail(IdList::BankEvents, path, true)) {
                    BankOutcome::Done(es3, c2) => BankOutcome::Done(es3, c + c2),
                    f => f,
                },
                Some(_) => BankOutcome::Failed(es2, "Text bank JSON "@ + path + " has non-array 'object_events' field"@),
            },
            f => f,
        }
    }
}

/// The outcome of a load as a call reports it: the count or the error,
/// with the table's constants `after` it.
pub open spec fn reached(o: BankOutcome, r: Result<usize, UxieError>, after: Seq<(Seq<char>, i64)>) -> bool {
    match o {
        BankOutcome::Done(es, c) => r matches Ok(x) && x == c && after == es,
        BankOutcome::Failed(es, m) => r matches Err(e) && invalid_data_text(e) == Some(m) && after == es,
    }
}

/// A text that does not parse as JSON: the error that names the file and
/// gives `serde_json`'s message, with nothing defined.
pub open spec fn parse_failed(es: Seq<(Seq<char>, i64)>, lead: Seq<char>, path: Seq<char>, m: Seq<char>) -> BankOutcome {
    BankOutcome::Failed(es, lead + path + ": "@ + m)
}

// ----- sound archives -----

/// The sound id and constant prefix of row `index` of a sound name archive
/// with `rows` rows: Platinum's archive has 1013 rows, HeartGold and
/// SoulSilver's 1372; other sizes are not known.
pub open spec fn sound_value_prefix(index: int, rows: int) -> Option<(int, Seq<char>)> {
    if rows == 1013 {
        if index <= 2 {
            Some((index + 1, "SEQ_"@))
        } else if index <= 229 {
            Some((index + 997, "SEQ_"@))
        } else {
            Some((index + 1120, "SEQ_SE_"@))
        }
    } else if rows == 1372 {
        if index <= 2 {
            Some((index + 1, "SEQ_"@))
        } else if index <= 364 {
            Some((index + 997, "SEQ_"@))
        } else {
            Some((index + 1007, "SEQ_SE_"@))
        }
    } else {
        None
    }
}

/// The constant of a sound row: its prefix and its name made a constant
/// name, with two rows renamed to the decomp's dummy names.
pub open spec fn sound_symbol(index: int, rows: int, display: Seq<char>) -> Option<Seq<char>> {
    match sound_value_prefix(index, rows) {
        None => None,
        Some((_, prefix)) => {
            let c = canonical_of(deunicode_of(normalized_name(display)));
            if c.len() == 0 {
                None
            } else if (rows == 1013 && index == 264) || (rows == 1372 && index == 401) {
                Some("SEQ_DUMMY01"@)
            } else if rows == 1013 && index == 287 {
                Some("SEQ_DUMMY02"@)
            } else {
                Some(prefix + c)
            }
        },
    }
}

/// The confirmation sound also goes by `SEQ_SE_CONFIRM`.
pub open spec fn sound_aliases(index: int, rows: int) -> Seq<Seq<char>> {
    if (rows == 1013 && index == 380) || (rows == 1372 && index == 493) {
        seq!["SEQ_SE_CONFIRM"@]
    } else {
        Seq::empty()
    }
}

/// The display names of a text archive's messages.
pub open spec fn archive_step(path: Seq<char>, language: GameLanguage) -> spec_fn(JsonTree, int) -> Result<Option<Seq<char>>, Seq<char>> {
    |m: JsonTree, i: int| match m {
        JsonTree::Object(fs) => display_name_of(path, i as nat, fs@, language),
        _ => Err(path + ": messages["@ + dec(i as nat) + "] is not an object"@),
    }
}

/// The constants of the sound rows `names` of an archive with `rows` rows
/// added to `es`, and how many rows gave one.
pub open spec fn sound_run(es: Seq<(Seq<char>, i64)>, names: Seq<Option<Seq<char>>>, rows: int) -> (Seq<(Seq<char>, i64)>, nat)
    decreases names.len(),
{
    if names.len() == 0 {
        (es, 0)
    } else {
        let (es2, c) = sound_run(es, names.drop_last(), rows);
        let index = names.len() - 1;
        match names.last() {
            None => (es2, c),
            Some(n) => match (sound_value_prefix(index, rows), sound_symbol(index, rows, n)) {
                (Some((value, _)), Some(sym)) => {
                    let added = seq![(sym, value as i64)] + sound_aliases(index, rows).map_values(|a: Seq<char>| (a, value as i64));
                    (es2 + added, c + 1)
                },
                _ => (es2, c),
            },
        }
    }
}

pub open spec fn opt_views(s: Seq<Option<String>>) -> Seq<Option<Seq<char>>> {
    s.map_values(|o: Option<String>| match o {
        Some(t) => Some(t@),
        None => None,
    })
}

/// Loading a bank's constants named after its messages' display names.
pub open spec fn constants_load(
    es: Seq<(Seq<char>, i64)>,
    doc: JsonTree,
    path: Seq<char>,
    prefix: Seq<char>,
    width: Option<usize>,
    language: GameLanguage,
) -> BankOutcome {
    match json_get(doc, "messages"@) {
        Some(JsonTree::List(ms)) => bank_run(es, ms@, path, prefix, width, language),
        _ => BankOutcome::Failed(es, "Text bank JSON "@ + path + " is missing a 'messages' array"@),
    }
}

/// The display names of a text archive's messages, in order, or the error.
pub open spec fn archive_names(doc: JsonTree, path: Seq<char>, language: GameLanguage)
    -> Result<Seq<Option<Seq<char>>>, Seq<char>>
{
    match json_get(doc, "messages"@) {
        Some(JsonTree::List(ms)) => map_results(ms@, archive_step(path, language)),
        _ => Err(path + ": missing 'messages' array"@),
    }
}

/// Loading the constants of a DSPRE sound name archive.
pub open spec fn sound_load(es: Seq<(Seq<char>, i64)>, doc: JsonTree, path: Seq<char>, language: GameLanguage)
    -> BankOutcome
{
    match archive_names(doc, path, language) {
        Err(m) => BankOutcome::Failed(es, m),
        Ok(names) => if sound_value_prefix(0, names.len() as int) is None {
            BankOutcome::Failed(es, "unsupported sound archive with "@ + dec(names.len()) + " rows"@)
        } else {
            BankOutcome::Done(sound_run(es, names, names.len() as int).0, sound_run(es, names, names.len() as int).1)
        },
    }
}

fn first_text<'a>(m: &'a Vec<(String, JsonTree)>) -> (r: Option<&'a JsonTree>)
    ensures
        match first_text_field(m@) {
            Some(v) => r matches Some(x) && *x == v,
            None => r is None,
        },
{
    let mut i: usize = 0;
    assert(m@.skip(0) =~= m@);
    while i < m.len()
        invariant
            i <= m@.len(),
            first_text_field(m@) == first_text_field(m@.skip(i as int)),
        decreases m@.len() - i,
    {
        assert(m@.skip(i as int).drop_first() =~= m@.skip(i + 1));
        assert(m@.skip(i as int)[0] == m@[i as int]);
        let texty = match &m[i].1 {
            JsonTree::Text(_) => true,
            JsonTree::List(_) => true,
            _ => false,
        };
        if !str_eq(m[i].0.as_str(), "id") && texty {
            return Some(&m[i].1);
        }
        i = i + 1;
    }
    None
}

/// `d` without a `{tag:...}` wrapper.
fn unwrap_display(d: &str) -> (r: String)
    ensures
        r@ == unwrapped(d@),
{
    let v = chars_of(d);
    let n = v.len();
    if n >= 2 && v[0] == '{' && v[n - 1] == '}' {
        let e = piece_end(&v, 1, n - 1, ':');
        if e < n - 1 {
            let (a, b) = trim_bounds(&v, e + 1, n - 1);
            proof {
                let inner = v@.subrange(1, n - 1);
                assert(inner.skip(e - 1 + 1) =~= v@.subrange(e + 1, n - 1));
            }
            return string_of(&v, a, b);
        }
    }
    let mut r = String::new();
    push_str(&mut r, d);
    r
}

/// The display name of message `index` of the text bank at `path`.
pub fn text_bank_display_name(path: &str, index: usize, message: &Vec<(String, JsonTree)>, language: GameLanguage)
    -> (r: Result<Option<String>, UxieError>)
    ensures
        match display_name_of(path@, index as nat, message@, language) {
            Ok(Some(d)) => r matches Ok(Some(s)) && s@ == d,
            Ok(None) => r matches Ok(None),
            Err(m) => r matches Err(e) && invalid_data_text(e) == Some(m),
        },
{
    let key = language.locale_key();
    let field = match field_of(message, key) {
        Some(v) => Some(v),
        None => match field_of(message, "en_US") {
            Some(v) => Some(v),
            None => match field_of(message, "ja_JP") {
                Some(v) => Some(v),
                None => first_text(message),
            },
        },
    };
    let text = match field {
        None => return Ok(None),
        Some(JsonTree::Text(t)) => {
            let mut s = String::new();
            push_str(&mut s, t.as_str());
            s
        },
        Some(JsonTree::List(ps)) => {
            let mut s = String::new();
            let mut i: usize = 0;
            while i < ps.len()
                invariant
                    i <= ps@.len(),
                    display_field(message@, language) == Some(JsonTree::List(*ps)),
                    first_missing_part(ps@.take(i as int)) is None,
                    s@ == joined(ps@.take(i as int)),
                decreases ps@.len() - i,
            {
                let ghost pre = ps@.take(i + 1);
                assert(pre.drop_last() =~= ps@.take(i as int));
                proof { lemma_first_missing_push(ps@.take(i as int), ps@[i as int]); }
                assert(pre =~= ps@.take(i as int).push(ps@[i as int]));
                match &ps[i] {
                    JsonTree::Text(part) => push_str(&mut s, part.as_str()),
                    _ => {
                        proof { lemma_first_missing_extends(ps@, (i + 1) as int); }
                        let mut m = String::from_str("Text bank JSON ");
                        push_str(&mut m, path);
                        push_str(&mut m, " has non-string 'messages[");
                        push_dec(&mut m, index as u64);
                        push_str(&mut m, "]' content part ");
                        push_dec(&mut m, i as u64);
                        return Err(UxieError::invalid_data(m));
                    },
                }
                i = i + 1;
            }
            assert(ps@.take(ps@.len() as int) =~= ps@);
            s
        },
        Some(_) => {
            let mut m = String::from_str("Text bank JSON ");
            push_str(&mut m, path);
            push_str(&mut m, " has unsupported message text value at messages[");
            push_dec(&mut m, index as u64);
            push_str(&mut m, "]");
            return Err(UxieError::invalid_data(m));
        },
    };
    let trimmed_text = crate::text::trimmed(text.as_str());
    Ok(Some(unwrap_display(trimmed_text.as_str())))
}

proof fn lemma_first_missing_push(ps: Seq<JsonTree>, p: JsonTree)
    ensures
        first_missing_part(ps.push(p)) == match first_missing_part(ps) {
            Some(i) => Some(i),
            None => if !(p is Text) { Some(ps.len()) } else { None },
        },
    decreases ps.len(),
{
    let q = ps.push(p);
    if ps.len() > 0 {
        assert(q.drop_first() =~= ps.drop_first().push(p));
        assert(q[0] == ps[0]);
        lemma_first_missing_push(ps.drop_first(), p);
        if !(ps[0] is Text) {
            assert(first_missing_part(q) == Some(0nat));
        } else {
            assert(first_missing_part(q) == match first_missing_part(q.drop_first()) {
                Some(i) => Some(i + 1),
                None => None::<nat>,
            });
        }
    } else {
        assert(q.drop_first() =~= Seq::<JsonTree>::empty());
        assert(q[0] == p);
        assert(first_missing_part(q.drop_first()) is None);
    }
}

/// The first missing part of a prefix is the first of the whole list.
proof fn lemma_first_missing_extends(ps: Seq<JsonTree>, k: int)
    requires
        0 <= k <= ps.len(),
        first_missing_part(ps.take(k)) is Some,
    ensures
        first_missing_part(ps) == first_missing_part(ps.take(k)),
    decreases ps.len() - k,
{
    if k < ps.len() {
        lemma_first_missing_push(ps.take(k), ps[k]);
        assert(ps.take(k + 1) =~= ps.take(k).push(ps[k]));
        lemma_first_missing_extends(ps, k + 1);
    } else {
        assert(ps.take(k) =~= ps);
    }
}


fn split_compound_words(name: &str) -> (r: String)
    ensures
        r@ == split_words(name@),
{
    let v = chars_of(name);
    let mut r = String::new();
    let mut i: usize = 0;
    while i < v.len()
        invariant
            i <= v@.len(),
            v@ == name@,
            r@ == split_words(v@.take(i as int)),
        decreases v@.len() - i,
    {
        let ghost pre = v@.take(i + 1);
        assert(pre.drop_last() =~= v@.take(i as int));
        let c = v[i];
        if i >= 1 && 'a' <= v[i - 1] && v[i - 1] <= 'z' && 'A' <= c && c <= 'Z' {
            push_char(&mut r, ' ');
        }
        push_char(&mut r, c);
        i = i + 1;
        assert(r@ =~= split_words(v@.take(i as int)));
    }
    assert(v@.take(v@.len() as int) =~= v@);
    r
}

fn remove_char(s: &str, c: char) -> (r: String)
    ensures
        r@ == without_char(s@, c),
{
    let v = chars_of(s);
    let mut r = String::new();
    let mut i: usize = 0;
    while i < v.len()
        invariant
            i <= v@.len(),
            v@ == s@,
            r@ == without_char(v@.take(i as int), c),
        decreases v@.len() - i,
    {
        let ghost pre = v@.take(i + 1);
        assert(pre.drop_last() =~= v@.take(i as int));
        if v[i] != c {
            push_char(&mut r, v[i]);
        }
        i = i + 1;
    }
    assert(v@.take(v@.len() as int) =~= v@);
    r
}

/// The constant a display name gives in a bank of `prefix...` constants.
pub fn canonicalize_text_bank_constant(display_name: &str, prefix: &str, index: usize) -> (r: Option<String>)
    ensures
        match bank_constant(display_name@, prefix@, index as nat) {
            Some(c) => r matches Some(s) && s@ == c,
            None => r is None,
        },
{
    let is_item = str_eq(prefix, "ITEM_");
    if is_item && str_eq(display_name, "???") {
        let mut s = String::from_str("ITEM_UNUSED_");
        push_dec(&mut s, index as u64);
        return Some(s);
    }
    let normalized = if is_item {
        remove_char(display_name, '-')
    } else if str_eq(prefix, "MOVE_") {
        split_compound_words(display_name)
    } else {
        let mut t = String::new();
        push_str(&mut t, display_name);
        t
    };
    let canonical = canonicalize_constant_name(normalized.as_str());
    if canonical.as_str().unicode_len() == 0 {
        return None;
    }
    let mut s = String::new();
    push_str(&mut s, prefix);
    if is_item && str_eq(canonical.as_str(), "X_DEFEND") {
        push_str(&mut s, "X_DEFENSE");
    } else {
        push_str(&mut s, canonical.as_str());
    }
    Some(s)
}


impl SymbolTable {
    /// Define a constant for each message of the text bank JSON `content`
    /// (the file at `path`), named after its display text with `prefix` (see
    /// [`canonicalize_text_bank_constant`]) and valued its index;
    /// `index_suffix_width` appends the index, zero padded to that width.
    /// Returns how many constants were defined.
    pub fn load_text_bank_json_constants(
        &mut self,
        content: &str,
        path: &str,
        prefix: &str,
        index_suffix_width: Option<usize>,
        language: GameLanguage,
    ) -> (r: Result<usize, UxieError>)
        requires
            old(self).well_formed(),
        ensures
            final(self).well_formed(),
            reached(match json_parse(content@) {
                Err(m) => parse_failed(old(self)@, "Failed to parse text bank JSON "@, path@, m),
                Ok(doc) => constants_load(old(self)@, doc, path@, prefix@, index_suffix_width, language),
            }, r, final(self)@),
    {
        match parse_json(content) {
            Err(m) => Err(parse_error("Failed to parse text bank JSON ", path, m.as_str())),
            Ok(doc) => self.load_text_bank_constants_tree(&doc, path, prefix, index_suffix_width, language),
        }
    }

    /// [`Self::load_text_bank_json_constants`] on the parsed document.
    pub fn load_text_bank_constants_tree(
        &mut self,
        doc: &JsonTree,
        path: &str,
        prefix: &str,
        index_suffix_width: Option<usize>,
        language: GameLanguage,
    ) -> (r: Result<usize, UxieError>)
        requires
            old(self).well_formed(),
        ensures
            final(self).well_formed(),
            reached(constants_load(old(self)@, *doc, path@, prefix@, index_suffix_width, language), r, final(self)@),
    {
        let ms = match member(doc, "messages") {
            Some(JsonTree::List(ms)) => ms,
            _ => {
                let mut m = String::from_str("Text bank JSON ");
                push_str(&mut m, path);
                push_str(&mut m, " is missing a 'messages' array");
                return Err(UxieError::invalid_data(m));
            },
        };
        let mut count: usize = 0;
        let mut index: usize = 0;
        while index < ms.len()
            invariant
                index <= ms@.len(),
                json_get(*doc, "messages"@) == Some(JsonTree::List(*ms)),
                count <= index,
                self.well_formed(),
                bank_run(old(self)@, ms@.take(index as int), path@, prefix@, index_suffix_width, language)
                    == BankOutcome::Done(self@, count as nat),
            decreases ms@.len() - index,
        {
            let ghost pre = ms@.take(index + 1);
            assert(pre.drop_last() =~= ms@.take(index as int));
            let message = match &ms[index] {
                JsonTree::Object(fs) => fs,
                _ => {
                    let mut m = String::from_str("Text bank JSON ");
                    push_str(&mut m, path);
                    push_str(&mut m, " has non-object 'messages[");
                    push_dec(&mut m, index as u64);
                    push_str(&mut m, "]' entry");
                    proof { lemma_bank_run_fails(old(self)@, ms@, (index + 1) as int, path@, prefix@, index_suffix_width, language); }
                    return Err(UxieError::invalid_data(m));
                },
            };
            let display = match text_bank_display_name(path, index, message, language) {
                Ok(d) => d,
                Err(e) => {
                    proof { lemma_bank_run_fails(old(self)@, ms@, (index + 1) as int, path@, prefix@, index_suffix_width, language); }
                    return Err(e);
                },
            };
            if let Some(d) = display {
                match canonicalize_text_bank_constant(d.as_str(), prefix, index) {
                    None => {
                        if index == 0 {
                            let mut name = String::new();
                            push_str(&mut name, prefix);
                            push_str(&mut name, "NONE");
                            self.insert_define(name, 0);
                            count = count + 1;
                        }
                    },
                    Some(sym) => {
                        let mut name = sym;
                        if let Some(w) = index_suffix_width {
                            push_str(&mut name, "_");
                            let digits = u64_to_padded(index as u64, w);
                            push_str(&mut name, digits.as_str());
                        }
                        self.insert_define(name, index as i64);
                        count = count + 1;
                    },
                }
            }
            index = index + 1;
        }
        assert(ms@.take(ms@.len() as int) =~= ms@);
        Ok(count)
    }
}

/// Once a message fails, loading the whole bank fails with its error.
proof fn lemma_bank_run_fails(
    es: Seq<(Seq<char>, i64)>,
    msgs: Seq<JsonTree>,
    k: int,
    path: Seq<char>,
    prefix: Seq<char>,
    width: Option<usize>,
    language: GameLanguage,
)
    requires
        0 < k <= msgs.len(),
        bank_run(es, msgs.take(k), path, prefix, width, language) is Failed,
    ensures
        bank_run(es, msgs, path, prefix, width, language) == bank_run(es, msgs.take(k), path, prefix, width, language),
    decreases msgs.len() - k,
{
    if k < msgs.len() {
        assert(msgs.take(k + 1).drop_last() =~= msgs.take(k));
        lemma_bank_run_fails(es, msgs, k + 1, path, prefix, width, language);
    } else {
        assert(msgs.take(k) =~= msgs);
    }
}


/// Once an id fails, loading the whole list fails with its error.
proof fn lemma_ids_run_fails(
    es: Seq<(Seq<char>, i64)>,
    ids: Seq<IdField>,
    k: int,
    fail: spec_fn(nat, IdField) -> Option<Seq<char>>,
)
    requires
        0 < k <= ids.len(),
        ids_run(es, ids.take(k), fail) is Failed,
    ensures
        ids_run(es, ids, fail) == ids_run(es, ids.take(k), fail),
    decreases ids.len() - k,
{
    if k < ids.len() {
        assert(ids.take(k + 1).drop_last() =~= ids.take(k));
        lemma_ids_run_fails(es, ids, k + 1, fail);
    } else {
        assert(ids.take(k) =~= ids);
    }
}

fn id_error_text(kind: IdList, path: &str, index: usize) -> (m: String)
    ensures
        m@ == id_error(kind, path@, index as nat),
{
    let mut m = String::new();
    match kind {
        IdList::Messages => {
            push_str(&mut m, "Text bank JSON ");
            push_str(&mut m, path);
            push_str(&mut m, " has non-string or missing 'messages[");
        },
        IdList::BankEvents => {
            push_str(&mut m, "Text bank JSON ");
            push_str(&mut m, path);
            push_str(&mut m, " has non-string or missing 'object_events[");
        },
        IdList::EventsFile => {
            push_str(&mut m, "Events JSON ");
            push_str(&mut m, path);
            push_str(&mut m, " has non-string or missing 'object_events[");
        },
    }
    push_dec(&mut m, index as u64);
    push_str(&mut m, "].id'");
    m
}

/// A JSON text that does not parse: the error that names the file and gives
/// `serde_json`'s message.
fn parse_error(lead: &str, path: &str, m: &str) -> (e: UxieError)
    ensures
        invalid_data_text(e) == Some(lead@ + path@ + ": "@ + m@),
{
    let mut t = String::new();
    push_str(&mut t, lead);
    push_str(&mut t, path);
    push_str(&mut t, ": ");
    push_str(&mut t, m);
    UxieError::invalid_data(t)
}

/// The `id` field of each message.
fn message_id_fields(ms: &Vec<JsonTree>) -> (r: Vec<IdField>)
    ensures
        r@ == message_ids(ms@),
{
    let mut r: Vec<IdField> = Vec::new();
    let mut i: usize = 0;
    while i < ms.len()
        invariant
            i <= ms@.len(),
            r@ == message_ids(ms@.take(i as int)),
        decreases ms@.len() - i,
    {
        let f = match member(&ms[i], "id") {
            None => IdField::Missing,
            Some(JsonTree::Text(t)) => IdField::Text(t.clone()),
            Some(_) => IdField::NotText,
        };
        proof {
            assert(message_ids(ms@.take(i + 1)) =~= message_ids(ms@.take(i as int)).push(message_id_of(ms@[i as int])));
        }
        r.push(f);
        i = i + 1;
    }
    assert(ms@.take(ms@.len() as int) =~= ms@);
    r
}

/// The `id` field of each object event.
fn event_id_fields(events: &Vec<JsonTree>) -> (r: Vec<IdField>)
    ensures
        r@ == event_ids(events@),
{
    let mut r: Vec<IdField> = Vec::new();
    let mut i: usize = 0;
    while i < events.len()
        invariant
            i <= events@.len(),
            r@ == event_ids(events@.take(i as int)),
        decreases events@.len() - i,
    {
        let f = match member(&events[i], "id") {
            Some(JsonTree::Text(t)) => IdField::Text(t.clone()),
            _ => IdField::NotText,
        };
        proof {
            assert(event_ids(events@.take(i + 1)) =~= event_ids(events@.take(i as int)).push(event_id_of(events@[i as int])));
        }
        r.push(f);
        i = i + 1;
    }
    assert(events@.take(events@.len() as int) =~= events@);
    r
}

impl SymbolTable {
    /// Define each usable id of a list as its index.
    fn define_ids(&mut self, ids: &Vec<IdField>, path: &str, kind: IdList, expects_ids: bool) -> (r: Result<usize, UxieError>)
        requires
            old(self).well_formed(),
        ensures
            final(self).well_formed(),
            match ids_run(old(self)@, ids@, id_fail(kind, path@, expects_ids)) {
                BankOutcome::Done(es, c) => r matches Ok(x) && x == c && final(self)@ == es,
                BankOutcome::Failed(es, m) => r matches Err(e) && invalid_data_text(e) == Some(m) && final(self)@ == es,
            },
            r matches Ok(c) ==> c <= ids@.len() && final(self)@.len() == old(self)@.len() + c,
    {
        let ghost fail = id_fail(kind, path@, expects_ids);
        let mut count: usize = 0;
        let mut index: usize = 0;
        while index < ids.len()
            invariant
                index <= ids@.len(),
                count <= index,
                self@.len() == old(self)@.len() + count,
                self.well_formed(),
                fail == id_fail(kind, path@, expects_ids),
                ids_run(old(self)@, ids@.take(index as int), fail) == BankOutcome::Done(self@, count as nat),
            decreases ids@.len() - index,
        {
            let ghost pre = ids@.take(index + 1);
            assert(pre.drop_last() =~= ids@.take(index as int));
            match &ids[index] {
                IdField::Text(t) => {
                    self.insert_define(t.clone(), index as i64);
                    count = count + 1;
                },
                other => {
                    let skip = match kind {
                        IdList::Messages => match other {
                            IdField::Missing => !expects_ids,
                            _ => false,
                        },
                        _ => false,
                    };
                    if !skip {
                        proof { lemma_ids_run_fails(old(self)@, ids@, (index + 1) as int, fail); }
                        return Err(UxieError::invalid_data(id_error_text(kind, path, index)));
                    }
                },
            }
            index = index + 1;
        }
        assert(ids@.take(ids@.len() as int) =~= ids@);
        Ok(count)
    }

    /// Define the message ids, then the object event ids, of the text bank
    /// JSON `content` (the file at `path`), each as its index. Returns how
    /// many constants were defined.
    pub fn load_text_bank_json(&mut self, content: &str, path: &str) -> (r: Result<usize, UxieError>)
        requires
            old(self).well_formed(),
        ensures
            final(self).well_formed(),
            reached(match json_parse(content@) {
                Err(m) => parse_failed(old(self)@, "Failed to parse text bank JSON "@, path@, m),
                Ok(doc) => text_bank_load(old(self)@, doc, path@),
            }, r, final(self)@),
    {
        match parse_json(content) {
            Err(m) => Err(parse_error("Failed to parse text bank JSON ", path, m.as_str())),
            Ok(doc) => self.load_text_bank_tree(&doc, path),
        }
    }

    /// [`Self::load_text_bank_json`] on the parsed document.
    pub fn load_text_bank_tree(&mut self, doc: &JsonTree, path: &str) -> (r: Result<usize, UxieError>)
        requires
            old(self).well_formed(),
        ensures
            final(self).well_formed(),
            reached(text_bank_load(old(self)@, *doc, path@), r, final(self)@),
    {
        let messages = member(doc, "messages");
        let events = member(doc, "object_events");
        if messages.is_none() && events.is_none() {
            let mut m = String::from_str("Text bank JSON ");
            push_str(&mut m, path);
            push_str(&mut m, " is missing both 'messages' and 'object_events' arrays");
            return Err(UxieError::invalid_data(m));
        }
        let ghost start = self@;
        let from_messages = match messages {
            None => 0,
            Some(JsonTree::List(ms)) => {
                let ids = message_id_fields(ms);
                let mut expects = false;
                let mut i: usize = 0;
                while i < ids.len()
                    invariant
                        i <= ids@.len(),
                        expects == exists|k: int| 0 <= k < i && !(#[trigger] ids@[k] is Missing),
                    decreases ids@.len() - i,
                {
                    match &ids[i] {
                        IdField::Missing => {},
                        _ => {
                            expects = true;
                        },
                    }
                    i = i + 1;
                }
                assert(expects == has_ids(ids@));
                match self.define_ids(&ids, path, IdList::Messages, expects) {
                    Ok(c) => c,
                    Err(e) => return Err(e),
                }
            },
            Some(_) => {
                let mut m = String::from_str("Text bank JSON ");
                push_str(&mut m, path);
                push_str(&mut m, " has non-array 'messages' field");
                return Err(UxieError::invalid_data(m));
            },
        };
        assert(self@.len() == start.len() + from_messages);
        let from_events = match events {
            None => 0,
            Some(JsonTree::List(vs)) => {
                let ids = event_id_fields(vs);
                match self.define_ids(&ids, path, IdList::BankEvents, true) {
                    Ok(c) => c,
                    Err(e) => return Err(e),
                }
            },
            Some(_) => {
                let mut m = String::from_str("Text bank JSON ");
                push_str(&mut m, path);
                push_str(&mut m, " has non-array 'object_events' field");
                return Err(UxieError::invalid_data(m));
            },
        };
        let held = self.entry_count();
        assert(from_messages + from_events <= held);
        let total = from_messages + from_events;
        Ok(total)
    }

    /// Define the object event ids of the events JSON `content` (the file
    /// at `path`), each as its index. Returns how many constants were
    /// defined.
    pub fn load_events_json(&mut self, content: &str, path: &str) -> (r: Result<usize, UxieError>)
        requires
            old(self).well_formed(),
        ensures
            final(self).well_formed(),
            reached(match json_parse(content@) {
                Err(m) => parse_failed(old(self)@, "Failed to parse events JSON "@, path@, m),
                Ok(doc) => events_load(old(self)@, doc, path@),
            }, r, final(self)@),
    {
        match parse_json(content) {
            Err(m) => Err(parse_error("Failed to parse events JSON ", path, m.as_str())),
            Ok(doc) => self.load_events_tree(&doc, path),
        }
    }

    /// [`Self::load_events_json`] on the parsed document.
    pub fn load_events_tree(&mut self, doc: &JsonTree, path: &str) -> (r: Result<usize, UxieError>)
        requires
            old(self).well_formed(),
        ensures
            final(self).well_formed(),
            reached(events_load(old(self)@, *doc, path@), r, final(self)@),
    {
        match member(doc, "object_events") {
            Some(JsonTree::List(vs)) => {
                let ids = event_id_fields(vs);
                self.define_ids(&ids, path, IdList::EventsFile, true)
            },
            _ => {
                let mut m = String::from_str("Events JSON ");
                push_str(&mut m, path);
                push_str(&mut m, " is missing an 'object_events' array");
                Err(UxieError::invalid_data(m))
            },
        }
    }
}


/// The display name of each message of the text archive `doc` (the file
/// at `path`), in order; an error for a missing `messages` array, a message
/// that is not an object, or a display value the names cannot be read from.
pub fn parse_json_text_archive(doc: &JsonTree, path: &str, language: GameLanguage)
    -> (r: Result<Vec<Option<String>>, UxieError>)
    ensures
        match archive_names(*doc, path@, language) {
            Ok(names) => r matches Ok(v) && opt_views(v@) == names,
            Err(m) => r matches Err(e) && invalid_data_text(e) == Some(m),
        },
{
    let ms = match member(doc, "messages") {
        Some(JsonTree::List(ms)) => ms,
        _ => {
            let mut m = String::new();
            push_str(&mut m, path);
            push_str(&mut m, ": missing 'messages' array");
            return Err(UxieError::invalid_data(m));
        },
    };
    let ghost f = archive_step(path@, language);
    let mut out: Vec<Option<String>> = Vec::new();
    let mut i: usize = 0;
    assert(ms@.take(0) =~= Seq::<JsonTree>::empty());
    assert(opt_views(out@) =~= Seq::<Option<Seq<char>>>::empty());
    while i < ms.len()
        invariant
            i <= ms@.len(),
            json_get(*doc, "messages"@) == Some(JsonTree::List(*ms)),
            f == archive_step(path@, language),
            map_results(ms@.take(i as int), f) == Ok::<Seq<Option<Seq<char>>>, Seq<char>>(opt_views(out@)),
        decreases ms@.len() - i,
    {
        proof { lemma_map_results_step(ms@, i as int, f); }
        let name = match &ms[i] {
            JsonTree::Object(message) => match text_bank_display_name(path, i, message, language) {
                Ok(d) => d,
                Err(e) => {
                    proof { lemma_map_results_stops(ms@, i as int, f); }
                    return Err(e);
                },
            },
            _ => {
                let mut m = String::new();
                push_str(&mut m, path);
                push_str(&mut m, ": messages[");
                push_dec(&mut m, i as u64);
                push_str(&mut m, "] is not an object");
                proof { lemma_map_results_stops(ms@, i as int, f); }
                return Err(UxieError::invalid_data(m));
            },
        };
        let ghost before = out@;
        out.push(name);
        assert(opt_views(out@) =~= opt_views(before).push(match name {
            Some(t) => Some(t@),
            None => None,
        }));
        i = i + 1;
    }
    assert(ms@.take(ms@.len() as int) =~= ms@);
    Ok(out)
}

fn sound_value_prefix_exec(index: usize, rows: usize) -> (r: Option<(i64, &'static str)>)
    requires
        index <= rows,
    ensures
        match sound_value_prefix(index as int, rows as int) {
            Some((v, p)) => r matches Some((x, q)) && x == v && q@ == p,
            None => r is None,
        },
{
    if rows == 1013 {
        if index <= 2 {
            Some((index as i64 + 1, "SEQ_"))
        } else if index <= 229 {
            Some((index as i64 + 997, "SEQ_"))
        } else {
            Some((index as i64 + 1120, "SEQ_SE_"))
        }
    } else if rows == 1372 {
        if index <= 2 {
            Some((index as i64 + 1, "SEQ_"))
        } else if index <= 364 {
            Some((index as i64 + 997, "SEQ_"))
        } else {
            Some((index as i64 + 1007, "SEQ_SE_"))
        }
    } else {
        None
    }
}

fn sound_symbol_exec(index: usize, rows: usize, display: &str) -> (r: Option<String>)
    requires
        index <= rows,
    ensures
        match sound_symbol(index as int, rows as int, display@) {
            Some(c) => r matches Some(s) && s@ == c,
            None => r is None,
        },
{
    let prefix = match sound_value_prefix_exec(index, rows) {
        Some((_, p)) => p,
        None => return None,
    };
    let canonical = canonicalize_constant_name(display);
    if canonical.as_str().unicode_len() == 0 {
        return None;
    }
    if (rows == 1013 && index == 264) || (rows == 1372 && index == 401) {
        return Some(String::from_str("SEQ_DUMMY01"));
    }
    if rows == 1013 && index == 287 {
        return Some(String::from_str("SEQ_DUMMY02"));
    }
    let mut s = String::new();
    push_str(&mut s, prefix);
    push_str(&mut s, canonical.as_str());
    Some(s)
}

impl SymbolTable {
    /// Define sound constants from the DSPRE sound name archive JSON
    /// `content` (the file at `path`): each named row gets its id by the
    /// archive's row ranges (see [`sound_value_prefix`]). Returns how many
    /// rows defined a constant.
    pub fn load_dspre_sound_archive_constants(&mut self, content: &str, path: &str, language: GameLanguage)
        -> (r: Result<usize, UxieError>)
        requires
            old(self).well_formed(),
        ensures
            final(self).well_formed(),
            reached(match json_parse(content@) {
                Err(m) => parse_failed(old(self)@, Seq::empty(), path@, m),
                Ok(doc) => sound_load(old(self)@, doc, path@, language),
            }, r, final(self)@),
    {
        match parse_json(content) {
            Err(m) => {
                proof { reveal_strlit(""); }
                Err(parse_error("", path, m.as_str()))
            },
            Ok(doc) => self.load_dspre_sound_archive_tree(&doc, path, language),
        }
    }

    /// [`Self::load_dspre_sound_archive_constants`] on the parsed document.
    pub fn load_dspre_sound_archive_tree(&mut self, doc: &JsonTree, path: &str, language: GameLanguage)
        -> (r: Result<usize, UxieError>)
        requires
            old(self).well_formed(),
        ensures
            final(self).well_formed(),
            reached(sound_load(old(self)@, *doc, path@, language), r, final(self)@),
    {
        let names = match parse_json_text_archive(doc, path, language) {
            Ok(v) => v,
            Err(e) => return Err(e),
        };
        let rows = names.len();
        if sound_value_prefix_exec(0, rows).is_none() {
            let mut m = String::from_str("unsupported sound archive with ");
            push_dec(&mut m, rows as u64);
            push_str(&mut m, " rows");
            return Err(UxieError::invalid_data(m));
        }
        let ghost ns = opt_views(names@);
        let mut count: usize = 0;
        let mut index: usize = 0;
        while index < rows
            invariant
                index <= rows == names@.len(),
                ns == opt_views(names@),
                count <= index,
                self.well_formed(),
                sound_run(old(self)@, ns.take(index as int), rows as int) == (self@, count as nat),
            decreases rows - index,
        {
            let ghost pre = ns.take(index + 1);
            assert(pre.drop_last() =~= ns.take(index as int));
            assert(pre.last() == ns[index as int]);
            if let Some(name) = &names[index] {
                let value_prefix = sound_value_prefix_exec(index, rows);
                let symbol = sound_symbol_exec(index, rows, name.as_str());
                if let (Some((value, _)), Some(sym)) = (value_prefix, symbol) {
                    let ghost before = self@;
                    self.insert_define(sym, value);
                    if (rows == 1013 && index == 380) || (rows == 1372 && index == 493) {
                        self.insert_define(String::from_str("SEQ_SE_CONFIRM"), value);
                    }
                    proof {
                        let added = seq![(sym@, value)] + sound_aliases(index as int, rows as int).map_values(
                            |a: Seq<char>| (a, value));
                        assert(self@ =~= before + added);
                    }
                    count = count + 1;
                }
            }
            index = index + 1;
        }
        assert(ns.take(rows as int) =~= ns);
        Ok(count)
    }
}

} // verus!
