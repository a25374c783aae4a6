//! A table of named integer constants, looked up by name and by value.
//!
//! Every insertion is kept in order: a name resolves to the value it was
//! given last, and a value names every symbol that was ever given it.
use vstd::prelude::*;
use vstd::utf8::is_ascii_chars;
use crate::text::{chars_of, has_prefix_at, prefix_at, push_char, push_str, dec_int, i64_to_string, trim, lines, parse_int_range};
use crate::c_parser::defines::{parse_defines, define_view, defines_in};
use crate::c_parser::enums::{parse_enum, parsed_enum, variant_view, CEnumVariant};
use crate::c_parser::macros::{FnMacro, expanded, expand_macros, macros_view, macros_in};
use crate::c_parser::defines::parse_function_macros;
use crate::error::UxieError;
use crate::c_parser::defines::CDefine;
use crate::c_parser::expr::{eval, eval_x, parse_value, parse_value_with_logic, defs_view, numeric, Outcome, outcome_value};

verus! {

/// Semantic constant families, inferred from a symbol's prefix.
#[derive(Debug, Clone, Copy, PartialEq, Eq, Structural)]
pub enum ConstantFamily {
    Item,
    Species,
    Move,
    Location,
    Trainer,
    TrainerClass,
    Sound,
}

/// Whether `s` begins with `p`.
pub open spec fn starts_with(s: Seq<char>, p: Seq<char>) -> bool {
    has_prefix_at(s, 0, p)
}

impl ConstantFamily {
    /// The family a symbol name belongs to, by its prefix.
    pub open spec fn family_of(name: Seq<char>) -> Option<ConstantFamily> {
        if starts_with(name, "TRAINER_CLASS_"@) {
            Some(ConstantFamily::TrainerClass)
        } else if starts_with(name, "TRAINER_"@) {
            Some(ConstantFamily::Trainer)
        } else if starts_with(name, "SPECIES_"@) {
            Some(ConstantFamily::Species)
        } else if starts_with(name, "ITEM_"@) {
            Some(ConstantFamily::Item)
        } else if starts_with(name, "MOVE_"@) {
            Some(ConstantFamily::Move)
        } else if starts_with(name, "LOCATION_"@) || starts_with(name, "MAPSEC_"@) {
            Some(ConstantFamily::Location)
        } else if starts_with(name, "SEQ_"@) {
            Some(ConstantFamily::Sound)
        } else {
            None
        }
    }

    pub fn from_symbol_name(name: &str) -> (r: Option<Self>)
        ensures
            r == Self::family_of(name@),
    {
        let v = chars_of(name);
        let n = v.len();
        assert(v@.subrange(0, n as int) =~= name@);
        if prefix_at(&v, 0, n, "TRAINER_CLASS_") {
            Some(ConstantFamily::TrainerClass)
        } else if prefix_at(&v, 0, n, "TRAINER_") {
            Some(ConstantFamily::Trainer)
        } else if prefix_at(&v, 0, n, "SPECIES_") {
            Some(ConstantFamily::Species)
        } else if prefix_at(&v, 0, n, "ITEM_") {
            Some(ConstantFamily::Item)
        } else if prefix_at(&v, 0, n, "MOVE_") {
            Some(ConstantFamily::Move)
        } else if prefix_at(&v, 0, n, "LOCATION_") || prefix_at(&v, 0, n, "MAPSEC_") {
            Some(ConstantFamily::Location)
        } else if prefix_at(&v, 0, n, "SEQ_") {
            Some(ConstantFamily::Sound)
        } else {
            None
        }
    }
}

/// The ASCII transliteration that `deunicode::deunicode` gives a text.
pub uninterp spec fn deunicode_of(s: Seq<char>) -> Seq<char>;

/// Text whose characters all lie below U+007F (printable ASCII and the
/// control characters before DEL).
pub open spec fn below_del(s: Seq<char>) -> bool {
    forall|i: int| 0 <= i < s.len() ==> (#[trigger] s[i]) < '\u{7f}'
}

/// `deunicode::deunicode`. It returns ASCII text, and text whose characters
/// all lie below U+007F comes back as it is (the crate copies such a prefix
/// unchanged and sends everything from U+007F on through its tables, which
/// drop DEL itself). How the other characters are spelled comes from those
/// tables and is only named here.
#[verifier::external_body]
fn transliterate(s: &str) -> (r: String)
    ensures
        r@ == deunicode_of(s@),
        is_ascii_chars(r@),
        below_del(s@) ==> r@ == s@,
{
    deunicode::deunicode(s)
}

/// What an apostrophe, a gender sign or an ampersand becomes before
/// transliteration.
pub open spec fn name_replacement(c: char) -> Seq<char> {
    if c == '\'' || c == '\u{2019}' || c == '\u{2018}' {
        Seq::empty()
    } else if c == '\u{2640}' {
        "_F"@
    } else if c == '\u{2642}' {
        "_M"@
    } else if c == '&' {
        " AND "@
    } else {
        seq![c]
    }
}

/// A display name with apostrophes dropped and gender signs and ampersands
/// spelled out.
pub open spec fn normalized_name(s: Seq<char>) -> Seq<char>
    decreases s.len(),
{
    if s.len() == 0 {
        Seq::empty()
    } else {
        normalized_name(s.drop_last()) + name_replacement(s.last())
    }
}

pub open spec fn ascii_upper(c: char) -> char {
    if 'a' <= c && c <= 'z' {
        ((c as u32) - 32) as char
    } else {
        c
    }
}

/// The constant spelling of an ASCII text and whether a separator is
/// pending: runs of letters and digits, upper-cased, joined by single
/// underscores.
pub open spec fn canonical_state(s: Seq<char>) -> (Seq<char>, bool)
    decreases s.len(),
{
    if s.len() == 0 {
        (Seq::empty(), false)
    } else {
        let (out, pending) = canonical_state(s.drop_last());
        let c = s.last();
        if crate::text::is_ascii_alnum(c) {
            let sep: Seq<char> = if pending && out.len() > 0 { seq!['_'] } else { Seq::empty() };
            (out + sep + seq![ascii_upper(c)], false)
        } else {
            (out, true)
        }
    }
}

pub open spec fn canonical_of(s: Seq<char>) -> Seq<char> {
    canonical_state(s).0
}

fn upper(c: char) -> (r: char)
    ensures
        r == ascii_upper(c),
{
    if 'a' <= c && c <= 'z' {
        let b: u8 = (c as u8) - 32;
        b as char
    } else {
        c
    }
}

/// Drop apostrophes and spell out gender signs and ampersands.
pub fn normalize_display_name(name: &str) -> (r: String)
    ensures
        r@ == normalized_name(name@),
{
    let v = chars_of(name);
    let mut out = String::new();
    let mut i: usize = 0;
    while i < v.len()
        invariant
            v@ == name@,
            i <= v@.len(),
            out@ == normalized_name(v@.take(i as int)),
        decreases v@.len() - i,
    {
        let c = v[i];
        if c == '\'' || c == '\u{2019}' || c == '\u{2018}' {
        } else if c == '\u{2640}' {
            push_str(&mut out, "_F");
        } else if c == '\u{2642}' {
            push_str(&mut out, "_M");
        } else if c == '&' {
            push_str(&mut out, " AND ");
        } else {
            push_char(&mut out, c);
        }
        assert(v@.take(i + 1).drop_last() =~= v@.take(i as int));
        i = i + 1;
    }
    assert(v@.take(v@.len() as int) =~= v@);
    out
}

/// The constant spelling of an ASCII text: runs of letters and digits,
/// upper-cased and joined by single underscores.
pub fn canonicalize_ascii(ascii: &str) -> (r: String)
    ensures
        r@ == canonical_of(ascii@),
{
    let v = chars_of(ascii);
    let mut out = String::new();
    let mut pending = false;
    let mut i: usize = 0;
    while i < v.len()
        invariant
            v@ == ascii@,
            i <= v@.len(),
            (out@, pending) == canonical_state(v@.take(i as int)),
        decreases v@.len() - i,
    {
        let c = v[i];
        assert(v@.take(i + 1).drop_last() =~= v@.take(i as int));
        if crate::text::is_ident_continue_char(c) && c != '_' {
            if pending && out.as_str().unicode_len() > 0 {
                push_char(&mut out, '_');
            }
            push_char(&mut out, upper(c));
            pending = false;
        } else {
            pending = true;
        }
        i = i + 1;
    }
    assert(v@.take(v@.len() as int) =~= v@);
    out
}

/// Canonicalize a display name into the constant spelling used by script
/// banks: apostrophes dropped, gender signs and `&` spelled out, the text
/// transliterated to ASCII, then runs of letters and digits upper-cased and
/// joined by underscores.
pub fn canonicalize_constant_name(name: &str) -> (r: String)
    ensures
        r@ == canonical_of(deunicode_of(normalized_name(name@))),
{
    let normalized = normalize_display_name(name);
    let ascii = transliterate(normalized.as_str());
    canonicalize_ascii(ascii.as_str())
}

/// The value the last insertion under `name` gave it.
pub open spec fn lookup(entries: Seq<(Seq<char>, i64)>, name: Seq<char>) -> Option<i64>
    decreases entries.len(),
{
    if entries.len() == 0 {
        None
    } else if entries.last().0 == name {
        Some(entries.last().1)
    } else {
        lookup(entries.drop_last(), name)
    }
}

/// Name lookup among the constants, with the transliterated fallback: a name
/// that is not ASCII is also looked up as its ASCII transliteration.
pub open spec fn direct_resolved(entries: Seq<(Seq<char>, i64)>, name: Seq<char>) -> Option<i64> {
    match lookup(entries, name) {
        Some(v) => Some(v),
        None => if !is_ascii_chars(name) && deunicode_of(name) != name {
            lookup(entries, deunicode_of(name))
        } else {
            None
        },
    }
}

/// Whether an insertion names `value` and passes `keep`.
pub open spec fn names_value(e: (Seq<char>, i64), value: i64, keep: spec_fn(Seq<char>) -> bool) -> bool {
    e.1 == value && keep(e.0)
}

/// The shortest name among the insertions of `value` that pass `keep`; the
/// earliest such name among equally short ones.
pub open spec fn shortest_name(
    entries: Seq<(Seq<char>, i64)>,
    value: i64,
    keep: spec_fn(Seq<char>) -> bool,
) -> Option<Seq<char>>
    decreases entries.len(),
{
    if entries.len() == 0 {
        None
    } else {
        let rest = shortest_name(entries.drop_last(), value, keep);
        let e = entries.last();
        if names_value(e, value, keep) {
            match rest {
                Some(r) => if r.len() <= e.0.len() { Some(r) } else { Some(e.0) },
                None => Some(e.0),
            }
        } else {
            rest
        }
    }
}

/// The characters of an optional name.
pub open spec fn name_view(o: Option<String>) -> Option<Seq<char>> {
    match o {
        Some(s) => Some(s@),
        None => None,
    }
}

/// Whether `name` was ever inserted.
pub open spec fn is_inserted(entries: Seq<(Seq<char>, i64)>, name: Seq<char>) -> bool {
    exists|i: int| 0 <= i < entries.len() && (#[trigger] entries[i]).0 == name
}

/// Where no entry after `k` names `n`, `n` last got the value of entry `k`.
pub proof fn lemma_lookup_last(es: Seq<(Seq<char>, i64)>, k: int, n: Seq<char>)
    requires
        0 <= k < es.len(),
        es[k].0 == n,
        forall|j: int| k < j < es.len() ==> (#[trigger] es[j]).0 != n,
    ensures
        lookup(es, n) == Some(es[k].1),
    decreases es.len(),
{
    if k < es.len() - 1 {
        assert(es.drop_last()[k] == es[k]);
        assert forall|j: int| k < j < es.drop_last().len() implies (#[trigger] es.drop_last()[j]).0 != n by {
            assert(es.drop_last()[j] == es[j]);
        }
        lemma_lookup_last(es.drop_last(), k, n);
    }
}

/// Every name was only ever given one value.
pub open spec fn names_consistent(es: Seq<(Seq<char>, i64)>) -> bool {
    forall|i: int, j: int| 0 <= i < es.len() && 0 <= j < es.len() && (#[trigger] es[i]).0 == (#[trigger] es[j]).0
        ==> es[i].1 == es[j].1
}

/// In a consistent table an inserted name has the value it was inserted with.
pub proof fn lemma_lookup_consistent(es: Seq<(Seq<char>, i64)>, i: int)
    requires
        names_consistent(es),
        0 <= i < es.len(),
    ensures
        lookup(es, es[i].0) == Some(es[i].1),
    decreases es.len(),
{
    let n = es[i].0;
    if es.last().0 == n {
        assert(es[es.len() - 1].0 == es[i].0);
    } else {
        let d = es.drop_last();
        assert(i < es.len() - 1);
        assert(d[i] == es[i]);
        assert forall|a: int, b: int| 0 <= a < d.len() && 0 <= b < d.len() && (#[trigger] d[a]).0 == (#[trigger] d[b]).0
            implies d[a].1 == d[b].1 by {
            assert(d[a] == es[a] && d[b] == es[b]);
        }
        lemma_lookup_consistent(d, i);
    }
}

/// The shortest name of a value is one of the names inserted with it.
pub proof fn lemma_shortest_name_inserted(es: Seq<(Seq<char>, i64)>, value: i64, keep: spec_fn(Seq<char>) -> bool)
    ensures
        shortest_name(es, value, keep) matches Some(n) ==> exists|i: int| 0 <= i < es.len()
            && #[trigger] es[i] == (n, value) && keep(n),
    decreases es.len(),
{
    if es.len() > 0 {
        let d = es.drop_last();
        lemma_shortest_name_inserted(d, value, keep);
        if let Some(n) = shortest_name(d, value, keep) {
            let i = choose|i: int| 0 <= i < d.len() && #[trigger] d[i] == (n, value) && keep(n);
            assert(es[i] == d[i]);
        }
        assert(es[es.len() - 1] == es.last());
    }
}

/// A name passes a prefix filter: there are no prefixes, or it starts with
/// one of them.
pub open spec fn passes_prefixes(n: Seq<char>, prefixes: Seq<Seq<char>>) -> bool {
    prefixes.len() == 0 || exists|k: int| 0 <= k < prefixes.len() && starts_with(n, #[trigger] prefixes[k])
}

/// A name was inserted with `value` (now or earlier).
pub open spec fn named_with(es: Seq<(Seq<char>, i64)>, n: Seq<char>, value: i64) -> bool {
    exists|j: int| 0 <= j < es.len() && #[trigger] es[j] == (n, value)
}

/// Some string of `r` is `n`.
pub open spec fn names_in(r: Seq<String>, n: Seq<char>) -> bool {
    exists|t: int| 0 <= t < r.len() && (#[trigger] r[t])@ == n
}

/// One of the first `i` insertions gave `n` the value, and `n` passes the
/// prefixes.
pub open spec fn named_before(es: Seq<(Seq<char>, i64)>, i: int, n: Seq<char>, value: i64, ps: Seq<Seq<char>>) -> bool {
    (exists|j: int| 0 <= j < i && #[trigger] es[j] == (n, value)) && passes_prefixes(n, ps)
}

proof fn lemma_named_before_step(es: Seq<(Seq<char>, i64)>, i: int, n: Seq<char>, value: i64, ps: Seq<Seq<char>>)
    requires
        0 <= i < es.len(),
    ensures
        named_before(es, i + 1, n, value, ps) == (named_before(es, i, n, value, ps)
            || (es[i] == (n, value) && passes_prefixes(n, ps))),
{
    if named_before(es, i + 1, n, value, ps) {
        let j = choose|j: int| 0 <= j < i + 1 && #[trigger] es[j] == (n, value);
        if j < i {
            assert(named_before(es, i, n, value, ps));
        }
    }
}

/// Whether a name passes a prefix filter.
fn name_passes(name: &str, prefixes: &[&str]) -> (r: bool)
    ensures
        r == passes_prefixes(name@, prefixes@.map_values(|p: &str| p@)),
{
    let ghost ps = prefixes@.map_values(|p: &str| p@);
    if prefixes.len() == 0 {
        return true;
    }
    let v = chars_of(name);
    let n = v.len();
    assert(v@.subrange(0, n as int) =~= name@);
    let mut k: usize = 0;
    while k < prefixes.len()
        invariant
            k <= prefixes@.len(),
            v@ == name@,
            n == v@.len(),
            v@.subrange(0, n as int) == name@,
            ps == prefixes@.map_values(|p: &str| p@),
            forall|t: int| 0 <= t < k ==> !starts_with(name@, #[trigger] ps[t]),
        decreases prefixes@.len() - k,
    {
        assert(ps[k as int] == prefixes@[k as int]@);
        if prefix_at(&v, 0, n, prefixes[k]) {
            return true;
        }
        k = k + 1;
    }
    false
}

/// Named integer constants.
#[derive(Debug, Clone)]
pub struct SymbolTable {
    entries: Vec<(String, i64)>,
    /// How many entries the table was created with (`TRUE` and `FALSE`);
    /// those carry no family.
    builtin: usize,
    /// Every `#define` a header gave the table, as written, in order: the
    /// definitions that later expressions may name, evaluated or not.
    pending: Vec<CDefine>,
    /// The function-like macros loaded from headers, in order.
    macros: Vec<FnMacro>,
}

impl View for SymbolTable {
    type V = Seq<(Seq<char>, i64)>;

    closed spec fn view(&self) -> Seq<(Seq<char>, i64)> {
        self.entries@.map_values(|e: (String, i64)| (e.0@, e.1))
    }
}

impl SymbolTable {
    /// The entries inserted after the built-in ones.
    pub closed spec fn inserted(&self) -> Seq<(Seq<char>, i64)> {
        self@.skip(self.builtin as int)
    }

    pub closed spec fn well_formed(&self) -> bool {
        self.builtin <= self.entries@.len()
    }

    /// The `#define`s loaded from headers, by name and text, in order.
    pub closed spec fn pending_defs(&self) -> Seq<(Seq<char>, Seq<char>)> {
        defs_view(self.pending@)
    }

    /// The function-like macros loaded from headers: name, parameters, body.
    pub closed spec fn macro_defs(&self) -> Seq<(Seq<char>, Seq<Seq<char>>, Seq<char>)> {
        macros_view(self.macros@)
    }

    /// What expressions are evaluated against.
    pub open spec fn sv(&self) -> SymView {
        SymView { entries: self@, pending: self.pending_defs(), macros: self.macro_defs() }
    }

    /// The entries inserted after the built-in ones are a suffix of the table.
    pub proof fn lemma_inserted_suffix(&self)
        requires
            self.well_formed(),
        ensures
            exists|k: int| 0 <= k <= self@.len() && self.inserted() == #[trigger] self@.skip(k),
    {
        assert(self.inserted() == self@.skip(self.builtin as int));
    }

    /// A table that knows `TRUE` (1) and `FALSE` (0).
    pub fn new() -> (t: Self)
        ensures
            t.well_formed(),
            t@ == seq![("TRUE"@, 1i64), ("FALSE"@, 0i64)],
            t.inserted() == Seq::<(Seq<char>, i64)>::empty(),
            t.pending_defs() == Seq::<(Seq<char>, Seq<char>)>::empty(),
            t.macro_defs() == Seq::<(Seq<char>, Seq<Seq<char>>, Seq<char>)>::empty(),
    {
        let mut entries: Vec<(String, i64)> = Vec::new();
        entries.push((String::from_str("TRUE"), 1));
        entries.push((String::from_str("FALSE"), 0));
        let t = SymbolTable { entries, builtin: 2, pending: Vec::new(), macros: Vec::new() };
        assert(t.macro_defs() =~= Seq::<(Seq<char>, Seq<Seq<char>>, Seq<char>)>::empty());
        assert(t@ =~= seq![("TRUE"@, 1i64), ("FALSE"@, 0i64)]);
        assert(t.pending_defs() =~= Seq::<(Seq<char>, Seq<char>)>::empty());
        assert(t.inserted() =~= Seq::<(Seq<char>, i64)>::empty());
        t
    }

    /// Define `name` as `value`.
    /// How many constants the table holds.
    pub(crate) fn entry_count(&self) -> (n: usize)
        ensures
            n == self@.len(),
    {
        self.entries.len()
    }

    pub fn insert_define(&mut self, name: String, value: i64)
        requires
            old(self).well_formed(),
        ensures
            final(self).well_formed(),
            final(self)@ == old(self)@.push((name@, value)),
            final(self).inserted() == old(self).inserted().push((name@, value)),
            final(self).pending_defs() == old(self).pending_defs(),
            final(self).macro_defs() == old(self).macro_defs(),
    {
        let ghost n = name@;
        self.entries.push((name, value));
        proof {
            assert(self@ =~= old(self)@.push((n, value)));
            assert(self.inserted() =~= old(self).inserted().push((n, value)));
        }
    }

    /// Define the enum variants that carry a value, in order.
    pub fn insert_enum(&mut self, name: String, variants: Vec<(String, Option<i64>)>)
        requires
            old(self).well_formed(),
        ensures
            final(self).well_formed(),
            final(self)@ == old(self)@ + valued_variants(variants@),
            final(self).inserted() == old(self).inserted() + valued_variants(variants@),
    {
        let mut i: usize = 0;
        while i < variants.len()
            invariant
                i <= variants@.len(),
                self.well_formed(),
                self@ == old(self)@ + valued_variants(variants@.take(i as int)),
                self.inserted() == old(self).inserted() + valued_variants(variants@.take(i as int)),
            decreases variants@.len() - i,
        {
            let (v_name, v_val) = (&variants[i].0, variants[i].1);
            assert(variants@.take(i + 1).drop_last() =~= variants@.take(i as int));
            match v_val {
                Some(val) => {
                    self.insert_define(v_name.clone(), val);
                    assert(self@ =~= old(self)@ + valued_variants(variants@.take(i + 1)));
                    assert(self.inserted() =~= old(self).inserted() + valued_variants(variants@.take(i + 1)));
                },
                None => {},
            }
            i = i + 1;
        }
        assert(variants@.take(variants@.len() as int) =~= variants@);
    }

    /// The value `name` was last defined as, with no fallback.
    pub fn lookup_exact(&self, name: &str) -> (r: Option<i64>)
        ensures
            r == lookup(self@, name@),
    {
        let mut i = self.entries.len();
        assert(self@.take(i as int) =~= self@);
        while i > 0
            invariant
                i <= self.entries@.len(),
                lookup(self@, name@) == lookup(self@.take(i as int), name@),
            decreases i,
        {
            let ghost pre = self@.take(i as int);
            assert(pre.drop_last() =~= self@.take(i - 1));
            assert(pre.last() == self@[i - 1]);
            if crate::text::str_eq(self.entries[i - 1].0.as_str(), name) {
                return Some(self.entries[i - 1].1);
            }
            i = i - 1;
        }
        None
    }

    /// The value of a constant; a name that is not ASCII is also looked up
    /// as its ASCII transliteration. A name no constant has, but a loaded
    /// `#define` does, gets that definition's text evaluated now, its
    /// function-like macros expanded first.
    pub fn resolve_constant(&self, name: &str) -> (r: Option<i64>)
        requires
            !resolve_panics(self.sv(), name@),
        ensures
            r == resolved(self.sv(), name@),
    {
        let direct = self.lookup_direct(name);
        if direct.is_some() {
            return direct;
        }
        match self.pending_text(name) {
            Some(t) => self.text_value_exec(t.as_str()),
            None => None,
        }
    }

    /// A constant's value, also under a non-ASCII name's transliteration.
    fn lookup_direct(&self, name: &str) -> (r: Option<i64>)
        ensures
            r == direct_resolved(self@, name@),
    {
        let direct = self.lookup_exact(name);
        if direct.is_some() {
            return direct;
        }
        if !name.is_ascii() {
            let ascii = transliterate(name);
            if !crate::text::str_eq(ascii.as_str(), name) {
                return self.lookup_exact(ascii.as_str());
            }
        }
        None
    }

    /// The text of the last loaded `#define` of `name`.
    fn pending_text(&self, name: &str) -> (r: Option<String>)
        ensures
            match pending_target(self.sv(), name@) {
                Some(t) => r matches Some(s) && s@ == t,
                None => r is None,
            },
    {
        let mut i = self.pending.len();
        assert(defs_view(self.pending@).take(i as int) =~= defs_view(self.pending@));
        while i > 0
            invariant
                i <= self.pending@.len(),
                crate::c_parser::expr::lookup(defs_view(self.pending@), name@)
                    == crate::c_parser::expr::lookup(defs_view(self.pending@).take(i as int), name@),
            decreases i,
        {
            let ghost pre = defs_view(self.pending@).take(i as int);
            assert(pre.drop_last() =~= defs_view(self.pending@).take(i - 1));
            assert(pre.last() == define_view(self.pending@[i - 1]));
            if crate::text::str_eq(self.pending[i - 1].name.as_str(), name) {
                return Some(self.pending[i - 1].value.clone());
            }
            i = i - 1;
        }
        None
    }

    /// The value of a text after expanding its macros.
    fn text_value_exec(&self, t: &str) -> (r: Option<i64>)
        requires
            !text_panics(self.sv(), t@),
        ensures
            r == text_value(self.sv(), t@),
    {
        match expand_macros(&self.macros, t) {
            None => None,
            Some(x) => {
                let defs = self.all_defs();
                parse_value(x.as_str(), &defs)
            },
        }
    }

    /// The loaded `#define`s followed by the constants, as definitions.
    fn all_defs(&self) -> (r: Vec<CDefine>)
        ensures
            defs_view(r@) == sym_defs(self.sv()),
    {
        let mut defs = self.pending_copy();
        let mut tail = self.as_defines();
        let ghost d0 = defs@;
        let ghost t0 = tail@;
        defs.append(&mut tail);
        assert(defs_view(defs@) =~= defs_view(d0) + defs_view(t0));
        defs
    }

    /// The shortest name defined with `value` that starts with `prefix`.
    pub fn resolve_name(&self, value: i64, prefix: &str) -> (r: Option<String>)
        ensures
            name_view(r) == shortest_name(self@, value, |n: Seq<char>| starts_with(n, prefix@)),
    {
        let ghost keep = |n: Seq<char>| starts_with(n, prefix@);
        let mut best: Option<String> = None;
        let mut i: usize = 0;
        while i < self.entries.len()
            invariant
                i <= self.entries@.len(),
                name_view(best) == shortest_name(self@.take(i as int), value, keep),
                keep == (|n: Seq<char>| starts_with(n, prefix@)),
            decreases self.entries@.len() - i,
        {
            let ghost pre = self@.take(i + 1);
            assert(pre.drop_last() =~= self@.take(i as int));
            assert(pre.last() == self@[i as int]);
            let name = &self.entries[i].0;
            assert(self@[i as int] == (name@, self.entries@[i as int].1));
            assert(keep(name@) == starts_with(name@, prefix@));
            if self.entries[i].1 == value {
                let nv = chars_of(name.as_str());
                let n = nv.len();
                assert(nv@.subrange(0, n as int) =~= nv@);
                if prefix_at(&nv, 0, n, prefix) {
                    let better = match &best {
                        Some(b) => b.as_str().unicode_len() > name.as_str().unicode_len(),
                        None => true,
                    };
                    if better {
                        best = Some(name.clone());
                    }
                }
            }
            i = i + 1;
        }
        assert(self@.take(self@.len() as int) =~= self@);
        best
    }

    /// The family a symbol was given when it was inserted, if any.
    pub fn constant_family(&self, name: &str) -> (r: Option<ConstantFamily>)
        requires
            self.well_formed(),
        ensures
            r == (if is_inserted(self.inserted(), name@) { ConstantFamily::family_of(name@) } else { None }),
    {
        let mut i = self.builtin;
        while i < self.entries.len()
            invariant
                self.well_formed(),
                self.builtin <= i <= self.entries@.len(),
                forall|j: int| 0 <= j < i - self.builtin ==> (#[trigger] self.inserted()[j]).0 != name@,
            decreases self.entries@.len() - i,
        {
            assert(self.inserted()[i - self.builtin] == self@[i as int]);
            if crate::text::str_eq(self.entries[i].0.as_str(), name) {
                return ConstantFamily::from_symbol_name(name);
            }
            i = i + 1;
        }
        None
    }

    /// Every defined name once, with the value it was given last (in no
    /// particular order).
    pub fn get_all_defines(&self) -> (r: Vec<(String, i64)>)
        ensures
            forall|i: int| 0 <= i < r@.len() ==> lookup(self@, (#[trigger] r@[i]).0@) == Some(r@[i].1),
            forall|i: int, j: int| 0 <= i < j < r@.len() ==> (#[trigger] r@[i]).0@ != (#[trigger] r@[j]).0@,
            forall|n: Seq<char>| is_inserted(self@, n) <==> exists|i: int| 0 <= i < r@.len() && (#[trigger] r@[i]).0@ == n,
    {
        let ghost es = self@;
        let mut out: Vec<(String, i64)> = Vec::new();
        let mut i = self.entries.len();
        while i > 0
            invariant
                i <= self.entries@.len(),
                es == self@,
                es.len() == self.entries@.len(),
                forall|k: int| 0 <= k < out@.len() ==> lookup(es, (#[trigger] out@[k]).0@) == Some(out@[k].1),
                forall|a: int, b: int| 0 <= a < b < out@.len() ==> (#[trigger] out@[a]).0@ != (#[trigger] out@[b]).0@,
                forall|k: int| #![trigger out@[k]] 0 <= k < out@.len() ==> exists|j: int| i <= j < es.len() && (#[trigger] es[j]).0 == out@[k].0@,
                forall|j: int| i <= j < es.len() ==> exists|k: int| 0 <= k < out@.len() && (#[trigger] out@[k]).0@ == (#[trigger] es[j]).0,
            decreases i,
        {
            let k = i - 1;
            let name = &self.entries[k].0;
            let value = self.entries[k].1;
            assert(es[k as int] == (name@, value));
            let mut seen = false;
            let mut m: usize = 0;
            while m < out.len()
                invariant
                    m <= out@.len(),
                    !seen ==> forall|t: int| 0 <= t < m ==> (#[trigger] out@[t]).0@ != name@,
                    seen ==> exists|t: int| 0 <= t < out@.len() && (#[trigger] out@[t]).0@ == name@,
                decreases out@.len() - m,
            {
                if crate::text::str_eq(out[m].0.as_str(), name.as_str()) {
                    seen = true;
                }
                m = m + 1;
            }
            if !seen {
                proof {
                    assert forall|j: int| k < j < es.len() implies (#[trigger] es[j]).0 != name@ by {
                        if es[j].0 == name@ {
                            let t = choose|t: int| 0 <= t < out@.len() && (#[trigger] out@[t]).0@ == es[j].0;
                            assert(out@[t].0@ != name@);
                        }
                    }
                    lemma_lookup_last(es, k as int, name@);
                }
                let ghost before = out@;
                let nm = name.clone();
                assert(nm@ == name@);
                out.push((nm, value));
                proof {
                    assert(out@[before.len() as int].0@ == name@);
                    assert(out@[before.len() as int].1 == value);
                    assert forall|t: int| 0 <= t < before.len() implies out@[t] == before[t] by {}
                }
            }
            i = k;
        }
        proof {
            assert forall|n: Seq<char>| is_inserted(self@, n) implies exists|t: int| 0 <= t < out@.len() && (#[trigger] out@[t]).0@ == n by {
                let j = choose|j: int| 0 <= j < es.len() && (#[trigger] es[j]).0 == n;
                assert(es[j].0 == n);
            }
            assert forall|n: Seq<char>| (exists|t: int| 0 <= t < out@.len() && (#[trigger] out@[t]).0@ == n) implies is_inserted(self@, n) by {
                let t = choose|t: int| 0 <= t < out@.len() && (#[trigger] out@[t]).0@ == n;
                let j = choose|j: int| 0 <= j < es.len() && (#[trigger] es[j]).0 == out@[t].0@;
                assert(es[j].0 == n);
            }
        }
        out
    }

    /// Every name that was ever given `value` and passes the prefixes, once
    /// each, shortest first (names of equal length in no particular order).
    pub fn resolve_names(&self, value: i64, prefixes: &[&str]) -> (r: Vec<String>)
        ensures
            forall|a: int, b: int| 0 <= a < b < r@.len() ==> (#[trigger] r@[a])@ != (#[trigger] r@[b])@,
            forall|a: int, b: int| 0 <= a <= b < r@.len() ==> (#[trigger] r@[a])@.len() <= (#[trigger] r@[b])@.len(),
            forall|n: Seq<char>| #[trigger] names_in(r@, n) <==> (named_with(self@, n, value)
                && passes_prefixes(n, prefixes@.map_values(|p: &str| p@))),
    {
        let ghost ps = prefixes@.map_values(|p: &str| p@);
        let ghost es = self@;
        let mut out: Vec<String> = Vec::new();
        let mut i: usize = 0;
        while i < self.entries.len()
            invariant
                i <= self.entries@.len(),
                es == self@,
                es.len() == self.entries@.len(),
                ps == prefixes@.map_values(|p: &str| p@),
                forall|a: int, b: int| 0 <= a < b < out@.len() ==> (#[trigger] out@[a])@ != (#[trigger] out@[b])@,
                forall|a: int, b: int| 0 <= a <= b < out@.len() ==> (#[trigger] out@[a])@.len() <= (#[trigger] out@[b])@.len(),
                forall|n: Seq<char>| #[trigger] names_in(out@, n) <==> named_before(es, i as int, n, value, ps),
            decreases self.entries@.len() - i,
        {
            let name = &self.entries[i].0;
            assert(es[i as int] == (name@, self.entries@[i as int].1));
            let ghost before = out@;
            let keep = self.entries[i].1 == value && name_passes(name.as_str(), prefixes);
            let mut seen = false;
            if keep {
                let mut m: usize = 0;
                while m < out.len()
                    invariant
                        m <= out@.len(),
                        !seen ==> forall|t: int| 0 <= t < m ==> (#[trigger] out@[t])@ != name@,
                        seen ==> names_in(out@, name@),
                    decreases out@.len() - m,
                {
                    if crate::text::str_eq(out[m].as_str(), name.as_str()) {
                        seen = true;
                        assert(out@[m as int]@ == name@);
                    }
                    m = m + 1;
                }
            }
            if keep && !seen {
                let len = name.as_str().unicode_len();
                let mut pos: usize = 0;
                while pos < out.len() && out[pos].as_str().unicode_len() <= len
                    invariant
                        pos <= out@.len(),
                        forall|t: int| 0 <= t < pos ==> (#[trigger] out@[t])@.len() <= len,
                    decreases out@.len() - pos,
                {
                    pos = pos + 1;
                }
                let nm = name.clone();
                assert(nm@ == name@);
                out.insert(pos, nm);
                proof {
                    assert forall|t: int| 0 <= t < out@.len() implies #[trigger] out@[t] == (if t < pos {
                        before[t]
                    } else if t == pos {
                        nm
                    } else {
                        before[t - 1]
                    }) by {}
                    assert forall|n: Seq<char>| #[trigger] names_in(out@, n) <==> named_before(es, i + 1, n, value, ps) by {
                        lemma_named_before_step(es, i as int, n, value, ps);
                        if names_in(out@, n) {
                            let t = choose|t: int| 0 <= t < out@.len() && (#[trigger] out@[t])@ == n;
                            if t < pos {
                                assert(before[t]@ == n);
                                assert(names_in(before, n));
                            } else if t > pos {
                                assert(before[t - 1]@ == n);
                                assert(names_in(before, n));
                            }
                        }
                        if named_before(es, i + 1, n, value, ps) {
                            if names_in(before, n) {
                                let t = choose|t: int| 0 <= t < before.len() && (#[trigger] before[t])@ == n;
                                if t < pos {
                                    assert(out@[t]@ == n);
                                } else {
                                    assert(out@[t + 1]@ == n);
                                }
                            } else {
                                assert(out@[pos as int]@ == n);
                            }
                        }
                    }
                }
            } else {
                proof {
                    assert forall|n: Seq<char>| #[trigger] names_in(out@, n) <==> named_before(es, i + 1, n, value, ps) by {
                        lemma_named_before_step(es, i as int, n, value, ps);
                    }
                }
            }
            i = i + 1;
        }
        proof {
            assert forall|n: Seq<char>| #[trigger] names_in(out@, n) <==> (named_with(self@, n, value)
                && passes_prefixes(n, prefixes@.map_values(|p: &str| p@))) by {
                assert(named_before(es, es.len() as int, n, value, ps) == (named_with(es, n, value) && passes_prefixes(n, ps)));
            }
        }
        out
    }

    /// The shortest name defined with `value` whose family is `family`.
    pub fn resolve_name_in_family(&self, value: i64, family: ConstantFamily) -> (r: Option<String>)
        requires
            self.well_formed(),
        ensures
            name_view(r) == shortest_name(self.inserted(), value,
                |n: Seq<char>| ConstantFamily::family_of(n) == Some(family)),
    {
        let ghost keep = |n: Seq<char>| ConstantFamily::family_of(n) == Some(family);
        let mut best: Option<String> = None;
        let mut i = self.builtin;
        while i < self.entries.len()
            invariant
                self.well_formed(),
                self.builtin <= i <= self.entries@.len(),
                name_view(best) == shortest_name(self.inserted().take(i - self.builtin), value, keep),
                keep == (|n: Seq<char>| ConstantFamily::family_of(n) == Some(family)),
            decreases self.entries@.len() - i,
        {
            let ghost pre = self.inserted().take(i + 1 - self.builtin);
            assert(pre.drop_last() =~= self.inserted().take(i - self.builtin));
            assert(pre.last() == self@[i as int]);
            let name = &self.entries[i].0;
            assert(self@[i as int] == (name@, self.entries@[i as int].1));
            assert(keep(name@) == (ConstantFamily::family_of(name@) == Some(family)));
            if self.entries[i].1 == value && ConstantFamily::from_symbol_name(name.as_str()) == Some(family) {
                let better = match &best {
                    Some(b) => b.as_str().unicode_len() > name.as_str().unicode_len(),
                    None => true,
                };
                if better {
                    best = Some(name.clone());
                }
            }
            i = i + 1;
        }
        assert(self.inserted().take(self.inserted().len() as int) =~= self.inserted());
        best
    }
}

/// The `(name, value)` pairs of the variants that carry a value.
pub open spec fn valued_variants(vs: Seq<(String, Option<i64>)>) -> Seq<(Seq<char>, i64)>
    decreases vs.len(),
{
    if vs.len() == 0 {
        Seq::empty()
    } else {
        let rest = valued_variants(vs.drop_last());
        match vs.last().1 {
            Some(v) => rest.push((vs.last().0@, v)),
            None => rest,
        }
    }
}


/// The text a constant's value is given to the expression evaluator as: its
/// decimal form (the smallest `i64`, which has no literal, as a difference).
pub open spec fn value_text(v: i64) -> Seq<char> {
    if v == i64::MIN {
        "(-9223372036854775807 - 1)"@
    } else {
        dec_int(v as int)
    }
}

/// The constants of a table as definitions for the expression evaluator.
pub open spec fn table_defs(entries: Seq<(Seq<char>, i64)>) -> Seq<(Seq<char>, Seq<char>)> {
    entries.map_values(|e: (Seq<char>, i64)| (e.0, value_text(e.1)))
}

/// What expressions are evaluated against: the constants, the `#define`s
/// loaded from headers (by name and text, in order) and the function-like
/// macros (name, parameters, body).
pub ghost struct SymView {
    pub entries: Seq<(Seq<char>, i64)>,
    pub pending: Seq<(Seq<char>, Seq<char>)>,
    pub macros: Seq<(Seq<char>, Seq<Seq<char>>, Seq<char>)>,
}

/// A view with nothing defined.
pub open spec fn empty_view() -> SymView {
    SymView { entries: Seq::empty(), pending: Seq::empty(), macros: Seq::empty() }
}

/// The definitions an expression's identifiers are looked up in: the loaded
/// `#define`s, with a constant's value taking the place of a text.
pub open spec fn sym_defs(sv: SymView) -> Seq<(Seq<char>, Seq<char>)> {
    sv.pending + table_defs(sv.entries)
}

/// The text a loaded `#define` of `name` is evaluated from.
pub open spec fn pending_target(sv: SymView, name: Seq<char>) -> Option<Seq<char>> {
    crate::c_parser::expr::lookup(sv.pending, name)
}

/// An expression with the table's function-like macros expanded.
pub open spec fn target_of(sv: SymView, t: Seq<char>) -> Option<Seq<char>> {
    expanded(sv.macros, t)
}

/// Evaluating a text after expanding its macros would overflow.
pub open spec fn text_panics(sv: SymView, t: Seq<char>) -> bool {
    target_of(sv, t) matches Some(x) && eval(x, sym_defs(sv), 0, Seq::empty()) is Panic
}

/// The value of a text after expanding its macros.
pub open spec fn text_value(sv: SymView, t: Seq<char>) -> Option<i64> {
    match target_of(sv, t) {
        Some(x) => outcome_value(eval(x, sym_defs(sv), 0, Seq::empty())),
        None => None,
    }
}

/// The value of a constant: a constant's value, else the loaded `#define`
/// of that name, its macros expanded, evaluated now.
pub open spec fn resolved(sv: SymView, name: Seq<char>) -> Option<i64> {
    match direct_resolved(sv.entries, name) {
        Some(v) => Some(v),
        None => match pending_target(sv, name) {
            Some(t) => text_value(sv, t),
            None => None,
        },
    }
}

/// Evaluating a loaded `#define` to resolve `name` would overflow.
pub open spec fn resolve_panics(sv: SymView, name: Seq<char>) -> bool {
    direct_resolved(sv.entries, name) is None && (pending_target(sv, name) matches Some(t)
        && text_panics(sv, t))
}

/// No loaded `#define` overflows when evaluated.
pub open spec fn lookups_safe(sv: SymView) -> bool {
    forall|i: int| 0 <= i < sv.pending.len() ==> !(#[trigger] text_panics(sv, sv.pending[i].1))
}

proof fn lemma_lookup_def_in(defs: Seq<(Seq<char>, Seq<char>)>, name: Seq<char>)
    ensures
        crate::c_parser::expr::lookup(defs, name) matches Some(t) ==> exists|i: int| 0 <= i < defs.len() && #[trigger] defs[i].1 == t,
    decreases defs.len(),
{
    if defs.len() > 0 && defs.last().0 != name {
        lemma_lookup_def_in(defs.drop_last(), name);
        if let Some(t) = crate::c_parser::expr::lookup(defs.drop_last(), name) {
            let i = choose|i: int| 0 <= i < defs.drop_last().len() && #[trigger] defs.drop_last()[i].1 == t;
            assert(defs[i].1 == t);
        }
    } else if defs.len() > 0 {
        assert(defs[defs.len() - 1].1 == defs.last().1);
    }
}

/// When no loaded `#define` overflows, no lookup does.
pub proof fn lemma_lookups_safe(sv: SymView, name: Seq<char>)
    requires
        lookups_safe(sv),
    ensures
        !resolve_panics(sv, name),
{
    lemma_lookup_def_in(sv.pending, name);
}

/// The value of an expression: a constant, else the expression evaluated
/// over the constants and the loaded `#define`s.
pub open spec fn evaluated(sv: SymView, expr: Seq<char>) -> Option<i64> {
    match resolved(sv, expr) {
        Some(v) => Some(v),
        None => text_value(sv, expr),
    }
}

/// Evaluating the expression would overflow.
pub open spec fn evaluation_panics(sv: SymView, expr: Seq<char>) -> bool {
    resolve_panics(sv, expr) || (resolved(sv, expr) is None && text_panics(sv, expr))
}

impl SymbolTable {
    /// The constants of the table as definitions.
    fn as_defines(&self) -> (r: Vec<CDefine>)
        ensures
            defs_view(r@) == table_defs(self@),
    {
        let mut out: Vec<CDefine> = Vec::new();
        let mut i: usize = 0;
        while i < self.entries.len()
            invariant
                i <= self.entries@.len(),
                defs_view(out@) == table_defs(self@).take(i as int),
            decreases self.entries@.len() - i,
        {
            let (name, v) = (&self.entries[i].0, self.entries[i].1);
            let text = if v == i64::MIN {
                String::from_str("(-9223372036854775807 - 1)")
            } else {
                i64_to_string(v)
            };
            let ghost before = defs_view(out@);
            let d = CDefine { name: name.clone(), value: text, resolved: None };
            let ghost dv = (d.name@, d.value@);
            out.push(d);
            assert(defs_view(out@) =~= before.push(dv));
            assert(self@[i as int] == (name@, v));
            assert(table_defs(self@).take(i + 1) =~= table_defs(self@).take(i as int).push(dv));
            i = i + 1;
        }
        assert(table_defs(self@).take(self@.len() as int) =~= table_defs(self@));
        out
    }

    /// The value of an expression whose identifiers are the table's
    /// constants (the last definition of each name), with the comparisons
    /// and the short-circuit `&&`, `||` among its operators and no name
    /// lookup of the whole expression first.
    pub(crate) fn eval_with_constants(&self, expr: &str) -> (r: Option<i64>)
        requires
            !(eval_x(expr@, table_defs(self@), 0, Seq::empty(), true) is Panic),
        ensures
            r == outcome_value(eval_x(expr@, table_defs(self@), 0, Seq::empty(), true)),
    {
        let defs = self.as_defines();
        parse_value_with_logic(expr, &defs)
    }

    /// The value of an expression: a known constant, else the expression,
    /// its function-like macros expanded, evaluated over the constants and
    /// the loaded `#define`s.
    pub fn evaluate_expression(&self, expr: &str) -> (r: Option<i64>)
        requires
            !evaluation_panics(self.sv(), expr@),
        ensures
            r == evaluated(self.sv(), expr@),
    {
        match self.resolve_constant(expr) {
            Some(v) => Some(v),
            None => self.text_value_exec(expr),
        }
    }
}


// ----- loading C headers -----

/// What loading a header did: the constants and the `#define`s the table
/// holds after it; or an overflow that the loader does not survive.
pub ghost enum HeaderOutcome {
    Done(Seq<(Seq<char>, i64)>, Seq<(Seq<char>, Seq<char>)>),
    Panic,
}

/// The constants of some enumerators, counting on from `cur`: an explicit
/// value restarts the count, the next enumerator gets one more; `None` where
/// counting past an enumerator would leave `i64`.
pub open spec fn enum_run(vs: Seq<(Seq<char>, Option<i64>)>, cur: int) -> Option<Seq<(Seq<char>, i64)>>
    decreases vs.len(),
{
    if vs.len() == 0 {
        Some(Seq::empty())
    } else {
        let v: int = match vs[0].1 {
            Some(x) => x as int,
            None => cur,
        };
        if v >= i64::MAX {
            None
        } else {
            match enum_run(vs.drop_first(), v + 1) {
                Some(r) => Some(seq![(vs[0].0, v as i64)] + r),
                None => None,
            }
        }
    }
}

/// One `#define name value`: the value, trimmed, is an integer literal, or a
/// constant's name, or an expression over the constants and the `#define`s
/// loaded so far (a constant's value before a definition's text); a value
/// that evaluates defines `name`. The definition is kept either way.
pub open spec fn define_step(
    es: Seq<(Seq<char>, i64)>,
    pend: Seq<(Seq<char>, Seq<char>)>,
    name: Seq<char>,
    value: Seq<char>,
) -> HeaderOutcome {
    let t = trim(value);
    let pend2 = pend.push((name, value));
    match numeric(t) {
        Some(v) => HeaderOutcome::Done(es.push((name, v as i64)), pend2),
        None => match lookup(es, t) {
            Some(v) => HeaderOutcome::Done(es.push((name, v)), pend2),
            None => match eval(t, pend + table_defs(es), 0, Seq::empty()) {
                Outcome::Value(v) => HeaderOutcome::Done(es.push((name, v)), pend2),
                Outcome::Fail => HeaderOutcome::Done(es, pend2),
                Outcome::Panic => HeaderOutcome::Panic,
            },
        },
    }
}

/// Some `#define`s, in order.
pub open spec fn defines_run(
    es: Seq<(Seq<char>, i64)>,
    pend: Seq<(Seq<char>, Seq<char>)>,
    ds: Seq<(Seq<char>, Seq<char>)>,
) -> HeaderOutcome
    decreases ds.len(),
{
    if ds.len() == 0 {
        HeaderOutcome::Done(es, pend)
    } else {
        match define_step(es, pend, ds[0].0, ds[0].1) {
            HeaderOutcome::Done(es2, pend2) => defines_run(es2, pend2, ds.drop_first()),
            HeaderOutcome::Panic => HeaderOutcome::Panic,
        }
    }
}

/// Loading a header into a table holding the constants `es` and the
/// `#define`s `pend`: the enumerators of its enum, then its `#define`s.
pub open spec fn header_load(es: Seq<(Seq<char>, i64)>, pend: Seq<(Seq<char>, Seq<char>)>, content: Seq<char>) -> HeaderOutcome {
    let counted = match parsed_enum(content) {
        Some((_, vs)) => enum_run(vs, 0),
        None => Some(Seq::empty()),
    };
    match counted {
        Some(r) => defines_run(es + r, pend, defines_in(lines(content))),
        None => HeaderOutcome::Panic,
    }
}

/// The value of an integer literal (hex after `0x`/`0X`, else decimal).
fn numeric_of(v: &Vec<char>) -> (r: Option<i64>)
    ensures
        r == match numeric(v@) {
            Some(x) => Some(x as i64),
            None => None::<i64>,
        },
{
    let n = v.len();
    let hex = prefix_at(v, 0, n, "0x") || prefix_at(v, 0, n, "0X");
    proof {
        reveal_strlit("0x");
        reveal_strlit("0X");
        assert(v@.subrange(0, n as int) =~= v@);
    }
    let r = if hex {
        assert(v@.subrange(2, n as int) =~= v@.skip(2));
        parse_int_range(v, 2, n, 16, true, -0x8000_0000_0000_0000, 0x7fff_ffff_ffff_ffff)
    } else {
        assert(v@.subrange(0, n as int) =~= v@);
        parse_int_range(v, 0, n, 10, true, -0x8000_0000_0000_0000, 0x7fff_ffff_ffff_ffff)
    };
    match r {
        Some(x) => Some(x as i64),
        None => None,
    }
}

/// The combination of a run's entries with the ones made before it.
pub open spec fn after_entries(o: Option<Seq<(Seq<char>, i64)>>, done: Seq<(Seq<char>, i64)>) -> Option<Seq<(Seq<char>, i64)>> {
    match o {
        Some(r) => Some(done + r),
        None => None,
    }
}

impl SymbolTable {
    /// A copy of the loaded `#define`s.
    fn pending_copy(&self) -> (r: Vec<CDefine>)
        ensures
            defs_view(r@) == self.pending_defs(),
    {
        let mut out: Vec<CDefine> = Vec::new();
        let mut i: usize = 0;
        while i < self.pending.len()
            invariant
                i <= self.pending@.len(),
                defs_view(out@) == defs_view(self.pending@).take(i as int),
            decreases self.pending@.len() - i,
        {
            let d = &self.pending[i];
            let c = CDefine { name: d.name.clone(), value: d.value.clone(), resolved: None };
            let ghost before = defs_view(out@);
            out.push(c);
            assert(defs_view(out@) =~= before.push(define_view(self.pending@[i as int])));
            assert(defs_view(self.pending@).take(i + 1) =~= defs_view(self.pending@).take(i as int).push(
                define_view(self.pending@[i as int]),
            ));
            i = i + 1;
        }
        assert(defs_view(self.pending@).take(i as int) =~= defs_view(self.pending@));
        out
    }

    /// Enter the enumerators `vs`, counting from 0.
    fn enter_enum(&mut self, vs: &Vec<CEnumVariant>)
        requires
            old(self).well_formed(),
            enum_run(vs@.map_values(|x: CEnumVariant| variant_view(x)), 0) is Some,
        ensures
            final(self).well_formed(),
            final(self).pending_defs() == old(self).pending_defs(),
            final(self).macro_defs() == old(self).macro_defs(),
            enum_run(vs@.map_values(|x: CEnumVariant| variant_view(x)), 0) == Some(final(self)@.skip(old(self)@.len() as int)),
            final(self)@.take(old(self)@.len() as int) == old(self)@,
            final(self)@.len() >= old(self)@.len(),
    {
        let ghost vv = vs@.map_values(|x: CEnumVariant| variant_view(x));
        let ghost n0 = self@.len();
        let mut current: i64 = 0;
        let mut i: usize = 0;
        assert(vv.skip(0) =~= vv);
        assert(self@.skip(n0 as int) =~= Seq::<(Seq<char>, i64)>::empty());
        assert(self@.take(n0 as int) =~= self@);
        while i < vs.len()
            invariant
                vv == vs@.map_values(|x: CEnumVariant| variant_view(x)),
                i <= vs@.len(),
                n0 <= self@.len(),
                self.well_formed(),
                self.pending_defs() == old(self).pending_defs(),
                self.macro_defs() == old(self).macro_defs(),
                self@.take(n0 as int) == old(self)@,
                n0 == old(self)@.len(),
                enum_run(vv, 0) == after_entries(enum_run(vv.skip(i as int), current as int), self@.skip(n0 as int)),
                enum_run(vv, 0) is Some,
            decreases vs@.len() - i,
        {
            let ghost rest = vv.skip(i as int);
            let ghost done = self@.skip(n0 as int);
            assert(rest[0] == variant_view(vs@[i as int]));
            assert(rest.drop_first() =~= vv.skip(i + 1));
            let v = &vs[i];
            if let Some(x) = v.value {
                current = x;
            }
            if current == i64::MAX {
                assert(false);
            }
            let ghost e = (v.name@, current);
            self.insert_define(v.name.clone(), current);
            proof {
                assert(self@.skip(n0 as int) =~= done.push(e));
                assert(self@.take(n0 as int) =~= old(self)@);
                match enum_run(vv.skip(i + 1), current + 1) {
                    Some(r) => {
                        assert(done + (seq![e] + r) =~= done.push(e) + r);
                    },
                    None => {},
                }
            }
            current = current + 1;
            i = i + 1;
        }
        assert(vv.skip(i as int).len() == 0);
        assert(self@.skip(n0 as int) + Seq::<(Seq<char>, i64)>::empty() =~= self@.skip(n0 as int));
    }

    /// One `#define name value`.
    fn process_define(&mut self, name: String, value: String)
        requires
            old(self).well_formed(),
            !(define_step(old(self)@, old(self).pending_defs(), name@, value@) is Panic),
        ensures
            final(self).well_formed(),
            define_step(old(self)@, old(self).pending_defs(), name@, value@)
                == HeaderOutcome::Done(final(self)@, final(self).pending_defs()),
            final(self).macro_defs() == old(self).macro_defs(),
    {
        let t = crate::text::trimmed(value.as_str());
        let tv = chars_of(t.as_str());
        let found: Option<i64> = match numeric_of(&tv) {
            Some(x) => Some(x),
            None => match self.lookup_exact(t.as_str()) {
                Some(x) => Some(x),
                None => {
                    let mut defs = self.pending_copy();
                    let mut tail = self.as_defines();
                    let ghost d0 = defs@;
                    let ghost t0 = tail@;
                    defs.append(&mut tail);
                    assert(defs_view(defs@) =~= defs_view(d0) + defs_view(t0));
                    parse_value(t.as_str(), &defs)
                },
            },
        };
        if let Some(x) = found {
            self.insert_define(name.clone(), x);
        }
        let ghost p0 = self.pending@;
        self.pending.push(CDefine { name, value, resolved: None });
        assert(defs_view(self.pending@) =~= defs_view(p0).push((name@, value@)));
    }

    /// Load a C header's text: the enumerators of its enum (counting from 0,
    /// an explicit value restarting the count), then its `#define`s in order,
    /// each defined when its value is a literal, a known constant or an
    /// expression that evaluates over the constants and the `#define`s loaded
    /// so far; its function-like macros are kept for expanding expressions
    /// later. `path` names the header.
    pub fn load_header_str_with_tag(&mut self, content: &str, path: &str) -> (r: Result<(), UxieError>)
        requires
            old(self).well_formed(),
            !(header_load(old(self)@, old(self).pending_defs(), content@) is Panic),
        ensures
            final(self).well_formed(),
            r is Ok,
            header_load(old(self)@, old(self).pending_defs(), content@)
                == HeaderOutcome::Done(final(self)@, final(self).pending_defs()),
            final(self).macro_defs() == old(self).macro_defs() + macros_in(lines(content@)),
    {
        let ghost m0 = self.macro_defs();
        let ghost es0 = self@;
        let ghost p0 = self.pending_defs();
        let ghost n0 = self@.len();
        match parse_enum(content) {
            Some(e) => {
                self.enter_enum(&e.variants);
                assert(self@ =~= self@.take(n0 as int) + self@.skip(n0 as int));
                assert(self@ =~= es0 + self@.skip(n0 as int));
            },
            None => {
                assert(es0 + Seq::<(Seq<char>, i64)>::empty() =~= es0);
            },
        }
        let defs = parse_defines(content);
        let ghost ds = defs@.map_values(|d: CDefine| define_view(d));
        let mut i: usize = 0;
        assert(ds.skip(0) =~= ds);
        while i < defs.len()
            invariant
                ds == defs@.map_values(|d: CDefine| define_view(d)),
                ds == defines_in(lines(content@)),
                i <= defs@.len(),
                self.well_formed(),
                header_load(es0, p0, content@) == defines_run(self@, self.pending_defs(), ds.skip(i as int)),
                !(header_load(es0, p0, content@) is Panic),
                self.macro_defs() == m0,
            decreases defs@.len() - i,
        {
            let ghost rest = ds.skip(i as int);
            assert(rest[0] == define_view(defs@[i as int]));
            assert(rest.drop_first() =~= ds.skip(i + 1));
            let d = &defs[i];
            self.process_define(d.name.clone(), d.value.clone());
            i = i + 1;
        }
        assert(ds.skip(i as int).len() == 0);
        let mut found = parse_function_macros(content);
        let ghost before = self.macros@;
        let ghost added = found@;
        self.macros.append(&mut found);
        assert(macros_view(self.macros@) =~= macros_view(before) + macros_view(added));
        Ok(())
    }

    /// Load a C header's text, named `inline.h`.
    pub fn load_header_str(&mut self, content: &str) -> (r: Result<(), UxieError>)
        requires
            old(self).well_formed(),
            !(header_load(old(self)@, old(self).pending_defs(), content@) is Panic),
        ensures
            final(self).well_formed(),
            r is Ok,
            header_load(old(self)@, old(self).pending_defs(), content@)
                == HeaderOutcome::Done(final(self)@, final(self).pending_defs()),
            final(self).macro_defs() == old(self).macro_defs() + macros_in(lines(content@)),
    {
        self.load_header_str_with_tag(content, "inline.h")
    }
}


proof fn lemma_defines_run_extends(
    es: Seq<(Seq<char>, i64)>,
    pend: Seq<(Seq<char>, Seq<char>)>,
    ds: Seq<(Seq<char>, Seq<char>)>,
)
    ensures
        defines_run(es, pend, ds) matches HeaderOutcome::Done(es2, p2) ==> es2.len() >= es.len()
            && es2.take(es.len() as int) == es && p2 == pend + ds,
    decreases ds.len(),
{
    if ds.len() == 0 {
        assert(es.take(es.len() as int) =~= es);
        assert(pend + ds =~= pend);
    } else {
        match define_step(es, pend, ds[0].0, ds[0].1) {
            HeaderOutcome::Done(es1, p1) => {
                lemma_defines_run_extends(es1, p1, ds.drop_first());
                assert(es1.take(es.len() as int) =~= es);
                if let HeaderOutcome::Done(es2, p2) = defines_run(es1, p1, ds.drop_first()) {
                    assert(es2.take(es.len() as int) =~= es2.take(es1.len() as int).take(es.len() as int));
                    assert(p1 + ds.drop_first() =~= pend + ds);
                }
            },
            HeaderOutcome::Panic => {},
        }
    }
}

/// Law: loading a header only adds to the table: every constant it held
/// keeps its place, and every `#define` of the header is kept, in order,
/// after the ones loaded before.
pub proof fn lemma_header_load_extends(es: Seq<(Seq<char>, i64)>, pend: Seq<(Seq<char>, Seq<char>)>, content: Seq<char>)
    ensures
        header_load(es, pend, content) matches HeaderOutcome::Done(es2, p2) ==> es2.len() >= es.len()
            && es2.take(es.len() as int) == es && p2 == pend + defines_in(lines(content)),
{
    let counted = match parsed_enum(content) {
        Some((_, vs)) => enum_run(vs, 0),
        None => Some(Seq::empty()),
    };
    if let Some(r) = counted {
        let es1 = es + r;
        lemma_defines_run_extends(es1, pend, defines_in(lines(content)));
        if let HeaderOutcome::Done(es2, p2) = defines_run(es1, pend, defines_in(lines(content))) {
            assert(es1.take(es.len() as int) =~= es);
            assert(es2.take(es.len() as int) =~= es2.take(es1.len() as int).take(es.len() as int));
        }
    }
}


/// `resolve_all` from the `k`-th loaded `#define` on: each name that
/// resolves is entered as a constant with its value; or an overflow.
pub open spec fn resolve_all_run(sv: SymView, k: int) -> Option<SymView>
    decreases sv.pending.len() - k,
{
    if k < 0 || k >= sv.pending.len() {
        Some(sv)
    } else {
        let n = sv.pending[k].0;
        if resolve_panics(sv, n) {
            None
        } else {
            match resolved(sv, n) {
                Some(v) => resolve_all_run(SymView { entries: sv.entries.push((n, v)), pending: sv.pending, macros: sv.macros }, k + 1),
                None => resolve_all_run(sv, k + 1),
            }
        }
    }
}

impl SymbolTable {
    /// Enter every loaded `#define` whose name resolves as a constant with
    /// its value, in the order they were loaded, then forget the loaded
    /// `#define`s.
    pub fn resolve_all(&mut self)
        requires
            old(self).well_formed(),
            resolve_all_run(old(self).sv(), 0) is Some,
        ensures
            final(self).well_formed(),
            resolve_all_run(old(self).sv(), 0) matches Some(sv) && final(self)@ == sv.entries,
            final(self).pending_defs() == Seq::<(Seq<char>, Seq<char>)>::empty(),
            final(self).macro_defs() == old(self).macro_defs(),
    {
        let mut k: usize = 0;
        while k < self.pending.len()
            invariant
                k <= self.pending@.len(),
                self.well_formed(),
                self.pending_defs() == old(self).pending_defs(),
                self.macro_defs() == old(self).macro_defs(),
                resolve_all_run(self.sv(), k as int) == resolve_all_run(old(self).sv(), 0),
                resolve_all_run(old(self).sv(), 0) is Some,
            decreases self.pending@.len() - k,
        {
            let name = self.pending[k].name.clone();
            assert(self.pending_defs()[k as int].0 == name@);
            match self.resolve_constant(name.as_str()) {
                Some(v) => {
                    self.insert_define(name, v);
                },
                None => {},
            }
            k = k + 1;
        }
        self.pending = Vec::new();
        assert(self.pending_defs() =~= Seq::<(Seq<char>, Seq<char>)>::empty());
    }

    /// Add another table's constants, loaded `#define`s and function-like
    /// macros after this one's, so that the other's take priority.
    pub fn extend(&mut self, other: SymbolTable)
        requires
            old(self).well_formed(),
        ensures
            final(self).well_formed(),
            final(self)@ == old(self)@ + other@,
            final(self).pending_defs() == old(self).pending_defs() + other.pending_defs(),
            final(self).macro_defs() == old(self).macro_defs() + other.macro_defs(),
    {
        let ghost e0 = self.entries@;
        let ghost p0 = self.pending@;
        let ghost m0 = self.macros@;
        let ghost oe = other.entries@;
        let ghost op = other.pending@;
        let ghost om = other.macros@;
        let mut o = other;
        self.entries.append(&mut o.entries);
        self.pending.append(&mut o.pending);
        self.macros.append(&mut o.macros);
        proof {
            assert(self@ =~= old(self)@ + other@) by {
                assert(self.entries@ == e0 + oe);
            }
            assert(defs_view(self.pending@) =~= defs_view(p0) + defs_view(op));
            assert(macros_view(self.macros@) =~= macros_view(m0) + macros_view(om));
        }
    }
}

} // verus!
