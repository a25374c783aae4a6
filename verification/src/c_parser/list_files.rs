//! Constants from list files (one name per line, numbered from 0, or
//! `NAME = expr` to set the number) and from Python enum modules
//! (`NAME = expr` lines).
use vstd::prelude::*;
use crate::c_parser::expr::{eval_x, Outcome};
use crate::c_parser::symbol_table::{SymbolTable, table_defs, starts_with};
use crate::error::{UxieError, invalid_data_text};
use crate::text::{chars_of, dec, index_of, lines, next_line, prefix_at, push_dec, push_str,
    piece_end, string_of, trim, trim_bounds, is_ident_start, is_ident_char, is_ident_start_char,
    is_ident_continue_char};

verus! {

/// What loading a file did to the table: the constants after it and, for a
/// list file, the number the next plain name gets; or the error and the
/// constants defined before it; or an overflow that the loader does not
/// survive.
pub ghost enum LoadOutcome {
    Done(Seq<(Seq<char>, i64)>, i64),
    Failed(Seq<(Seq<char>, i64)>, Seq<char>),
    Panic,
}

/// `s` before its first `c`; all of `s` when it has none.
pub open spec fn before(s: Seq<char>, c: char) -> Seq<char> {
    s.take(index_of(s, c) as int)
}

/// `s` after its first `c`.
pub open spec fn after(s: Seq<char>, c: char) -> Seq<char> {
    s.skip(index_of(s, c) + 1int)
}

pub open spec fn has_char(s: Seq<char>, c: char) -> bool {
    index_of(s, c) < s.len()
}

/// An expression evaluated with the table's constants as identifiers, the
/// comparisons and the short-circuit `&&`, `||` among its operators.
pub open spec fn eval_in(es: Seq<(Seq<char>, i64)>, expr: Seq<char>) -> Outcome {
    eval_x(expr, table_defs(es), 0, Seq::empty(), true)
}

/// `path:line`.
pub open spec fn location(path: Seq<char>, line: nat) -> Seq<char> {
    path + ":"@ + dec(line)
}

/// `1 << shift` as an `i64` (the sign bit for 63).
pub open spec fn bit_value(shift: nat) -> i64
    decreases shift,
{
    if shift == 0 {
        1
    } else if shift >= 63 {
        i64::MIN
    } else {
        (2 * bit_value((shift - 1) as nat)) as i64
    }
}

/// The text of a list file line after comments that start it are dropped:
/// blank lines and those starting with `//` or `#` are skipped.
pub open spec fn skipped_line(line: Seq<char>) -> bool {
    line.len() == 0 || starts_with(line, "//"@) || starts_with(line, "#"@)
}

/// One line of a list file, numbered `no`, with `idx` the number the next
/// plain name gets. `NAME = expr` (up to a `#` comment) sets `NAME` and the
/// numbering to the expression's value; a plain name (up to a `#` comment)
/// gets the current number, or `1 << number` in a mask file. Both move the
/// numbering on by one.
pub open spec fn list_line(
    es: Seq<(Seq<char>, i64)>,
    idx: i64,
    raw: Seq<char>,
    no: nat,
    path: Seq<char>,
    is_mask: bool,
) -> LoadOutcome {
    let line = trim(raw);
    if skipped_line(line) {
        LoadOutcome::Done(es, idx)
    } else if has_char(line, '=') {
        let name = trim(before(line, '='));
        let expr = trim(before(trim(after(line, '=')), '#'));
        match eval_in(es, expr) {
            Outcome::Value(v) => if v == i64::MAX {
                LoadOutcome::Panic
            } else {
                LoadOutcome::Done(es.push((name, v)), (v + 1) as i64)
            },
            Outcome::Panic => LoadOutcome::Panic,
            Outcome::Fail => LoadOutcome::Failed(es, "Failed to evaluate assignment expression '"@
                + expr + "' for '"@ + name + "' at "@ + location(path, no)),
        }
    } else {
        let name = if has_char(line, '#') { trim(before(line, '#')) } else { line };
        let shift = idx as u32;
        if name.len() == 0 {
            LoadOutcome::Done(es, idx)
        } else if is_mask && shift >= 64 {
            LoadOutcome::Failed(es, "Mask constant '"@ + name + "' at "@ + location(path, no)
                + " exceeds i64 bit width"@)
        } else if idx == i64::MAX {
            LoadOutcome::Panic
        } else {
            let value = if is_mask { bit_value(shift as nat) } else { idx };
            LoadOutcome::Done(es.push((name, value)), (idx + 1) as i64)
        }
    }
}

/// The lines `ls` of a list file, the first numbered `no`.
pub open spec fn list_run(
    es: Seq<(Seq<char>, i64)>,
    idx: i64,
    ls: Seq<Seq<char>>,
    no: nat,
    path: Seq<char>,
    is_mask: bool,
) -> LoadOutcome
    decreases ls.len(),
{
    if ls.len() == 0 {
        LoadOutcome::Done(es, idx)
    } else {
        match list_line(es, idx, ls[0], no, path, is_mask) {
            LoadOutcome::Done(es2, idx2) => list_run(es2, idx2, ls.drop_first(), no + 1, path, is_mask),
            other => other,
        }
    }
}

/// Loading the list file `content` into a table holding `es`.
pub open spec fn list_load(es: Seq<(Seq<char>, i64)>, content: Seq<char>, path: Seq<char>, is_mask: bool) -> LoadOutcome {
    list_run(es, 0, lines(content), 1, path, is_mask)
}

/// The length of the identifier characters that start `t`.
pub open spec fn ident_len(t: Seq<char>) -> nat
    decreases t.len(),
{
    if t.len() > 0 && is_ident_char(t[0]) {
        1 + ident_len(t.drop_first())
    } else {
        0
    }
}

pub proof fn lemma_ident_len(t: Seq<char>, k: nat)
    requires
        k <= t.len(),
        forall|i: int| 0 <= i < k ==> is_ident_char(#[trigger] t[i]),
        k == t.len() || !is_ident_char(t[k as int]),
    ensures
        ident_len(t) == k,
    decreases k,
{
    if k > 0 {
        let u = t.drop_first();
        assert forall|i: int| 0 <= i < k - 1 implies is_ident_char(#[trigger] u[i]) by {
            assert(u[i] == t[i + 1]);
        }
        if k < t.len() {
            assert(u[k - 1] == t[k as int]);
        }
        lemma_ident_len(u, (k - 1) as nat);
    }
}

/// A name of upper-case ASCII letters, digits and underscores.
pub open spec fn constant_like(name: Seq<char>) -> bool {
    forall|i: int| 0 <= i < name.len() ==> {
        let c = #[trigger] name[i];
        ('A' <= c && c <= 'Z') || ('0' <= c && c <= '9') || c == '_'
    }
}

/// The name and expression of a Python enum line `NAME = expr` (the line
/// trimmed; the expression up to a `#` comment, trimmed).
pub open spec fn py_assignment(line: Seq<char>) -> Option<(Seq<char>, Seq<char>)> {
    let t = trim(line);
    let n = ident_len(t);
    let rest = trim(t.skip(n as int));
    if t.len() > 0 && is_ident_start(t[0]) && rest.len() > 1 && rest[0] == '=' {
        Some((t.take(n as int), trim(before(trim(rest.skip(1)), '#'))))
    } else {
        None
    }
}

/// One line of a Python enum module, numbered `no`: an assignment to a
/// constant-like name defines it; every other line is ignored.
pub open spec fn py_line(es: Seq<(Seq<char>, i64)>, raw: Seq<char>, no: nat, path: Seq<char>) -> LoadOutcome {
    match py_assignment(raw) {
        Some((name, expr)) => if !constant_like(name) {
            LoadOutcome::Done(es, 0)
        } else {
            match eval_in(es, expr) {
                Outcome::Value(v) => LoadOutcome::Done(es.push((name, v)), 0),
                Outcome::Panic => LoadOutcome::Panic,
                Outcome::Fail => LoadOutcome::Failed(es, "Failed to evaluate python enum expression '"@
                    + expr + "' for '"@ + name + "' at "@ + location(path, no)),
            }
        },
        None => LoadOutcome::Done(es, 0),
    }
}

pub open spec fn py_run(es: Seq<(Seq<char>, i64)>, ls: Seq<Seq<char>>, no: nat, path: Seq<char>) -> LoadOutcome
    decreases ls.len(),
{
    if ls.len() == 0 {
        LoadOutcome::Done(es, 0)
    } else {
        match py_line(es, ls[0], no, path) {
            LoadOutcome::Done(es2, _) => py_run(es2, ls.drop_first(), no + 1, path),
            other => other,
        }
    }
}

/// Loading the Python enum module `content` into a table holding `es`.
pub open spec fn py_load(es: Seq<(Seq<char>, i64)>, content: Seq<char>, path: Seq<char>) -> LoadOutcome {
    py_run(es, lines(content), 1, path)
}

/// Whether `s[a..b]` starts with `p`.
fn starts_at(s: &Vec<char>, a: usize, b: usize, p: &str) -> (r: bool)
    requires
        a <= b <= s@.len(),
    ensures
        r == starts_with(s@.subrange(a as int, b as int), p@),
{
    let r = prefix_at(s, a, b, p);
    proof {
        let w = s@.subrange(a as int, b as int);
        if a + p@.len() <= b {
            assert(s@.subrange(0, b as int).subrange(a as int, a + p@.len()) =~= w.subrange(0, p@.len() as int));
        }
    }
    r
}

/// The bounds of the trimmed text before the first `c` in `s[a..b]`, and
/// where that `c` is (`b` when there is none).
fn trimmed_before(s: &Vec<char>, a: usize, b: usize, c: char) -> (r: (usize, usize, usize))
    requires
        a <= b <= s@.len(),
    ensures
        a <= r.0 <= r.1 <= r.2 <= b,
        r.2 - a == index_of(s@.subrange(a as int, b as int), c),
        s@.subrange(r.0 as int, r.1 as int) == trim(before(s@.subrange(a as int, b as int), c)),
        r.2 < b ==> s@.subrange(r.2 + 1, b as int) == after(s@.subrange(a as int, b as int), c),
{
    let e = piece_end(s, a, b, c);
    let (x, y) = trim_bounds(s, a, e);
    proof {
        let w = s@.subrange(a as int, b as int);
        assert(w.take(e - a) =~= s@.subrange(a as int, e as int));
        if e < b {
            assert(w.skip(e - a + 1) =~= s@.subrange(e + 1, b as int));
        }
    }
    (x, y, e)
}

/// One list file line `s[lo..hi]`, numbered `no`.
fn load_list_line(
    table: &mut SymbolTable,
    s: &Vec<char>,
    lo: usize,
    hi: usize,
    idx: i64,
    no: usize,
    path: &str,
    is_mask: bool,
) -> (r: Result<i64, String>)
    requires
        lo <= hi <= s@.len(),
        old(table).well_formed(),
        !(list_line(old(table)@, idx, s@.subrange(lo as int, hi as int), no as nat, path@, is_mask) is Panic),
    ensures
        final(table).well_formed(),
        match list_line(old(table)@, idx, s@.subrange(lo as int, hi as int), no as nat, path@, is_mask) {
            LoadOutcome::Done(es, next) => r == Ok::<i64, String>(next) && final(table)@ == es,
            LoadOutcome::Failed(es, m) => r matches Err(e) && e@ == m && final(table)@ == es,
            LoadOutcome::Panic => false,
        },
{
    let ghost raw = s@.subrange(lo as int, hi as int);
    let (a, b) = trim_bounds(s, lo, hi);
    let ghost line = s@.subrange(a as int, b as int);
    if a == b || starts_at(s, a, b, "//") || starts_at(s, a, b, "#") {
        return Ok(idx);
    }
    let (na, nb, eq) = trimmed_before(s, a, b, '=');
    if eq < b {
        let (c, d) = trim_bounds(s, eq + 1, b);
        let (xa, xb, _h) = trimmed_before(s, c, d, '#');
        let name = string_of(s, na, nb);
        let expr = string_of(s, xa, xb);
        match table.eval_with_constants(expr.as_str()) {
            Some(v) => {
                table.insert_define(name, v);
                Ok(v + 1)
            },
            None => {
                let mut m = String::from_str("Failed to evaluate assignment expression '");
                push_str(&mut m, expr.as_str());
                push_str(&mut m, "' for '");
                push_str(&mut m, name.as_str());
                push_str(&mut m, "' at ");
                push_str(&mut m, path);
                push_str(&mut m, ":");
                push_dec(&mut m, no as u64);
                Err(m)
            },
        }
    } else {
        let (ha, hb, hash) = trimmed_before(s, a, b, '#');
        let (pa, pb) = if hash < b { (ha, hb) } else { (a, b) };
        if pa == pb {
            return Ok(idx);
        }
        let name = string_of(s, pa, pb);
        let shift = idx as u32;
        if is_mask && shift >= 64 {
            let mut m = String::from_str("Mask constant '");
            push_str(&mut m, name.as_str());
            push_str(&mut m, "' at ");
            push_str(&mut m, path);
            push_str(&mut m, ":");
            push_dec(&mut m, no as u64);
            push_str(&mut m, " exceeds i64 bit width");
            return Err(m);
        }
        let value = if is_mask { shifted_bit(shift) } else { idx };
        table.insert_define(name, value);
        Ok(idx + 1)
    }
}

/// `1 << shift`.
fn shifted_bit(shift: u32) -> (v: i64)
    requires
        shift < 64,
    ensures
        v == bit_value(shift as nat),
{
    if shift == 63 {
        return i64::MIN;
    }
    let mut v: i64 = 1;
    let mut k: u32 = 0;
    proof { vstd::arithmetic::power2::lemma2_to64(); }
    while k < shift
        invariant
            k <= shift < 63,
            v == bit_value(k as nat),
            v == vstd::arithmetic::power2::pow2(k as nat),
        decreases shift - k,
    {
        proof {
            vstd::arithmetic::power2::lemma_pow2_unfold((k + 1) as nat);
            vstd::arithmetic::power2::lemma_pow2_strictly_increases((k + 1) as nat, 63);
            vstd::arithmetic::power2::lemma2_to64_rest();
            assert(v * 2 < 0x8000_0000_0000_0000);
        }
        v = v * 2;
        k = k + 1;
    }
    v
}


/// The name and expression bounds of a Python enum assignment in `s[lo..hi]`.
fn py_assignment_at(s: &Vec<char>, lo: usize, hi: usize) -> (r: Option<(usize, usize, usize, usize)>)
    requires
        lo <= hi <= s@.len(),
    ensures
        match py_assignment(s@.subrange(lo as int, hi as int)) {
            Some((name, expr)) => r matches Some((na, nb, ea, eb)) && na <= nb <= s@.len()
                && ea <= eb <= s@.len() && s@.subrange(na as int, nb as int) == name
                && s@.subrange(ea as int, eb as int) == expr,
            None => r is None,
        },
{
    let (a, b) = trim_bounds(s, lo, hi);
    let ghost t = s@.subrange(a as int, b as int);
    if a == b || !is_ident_start_char(s[a]) {
        return None;
    }
    let mut k = a;
    while k < b && is_ident_continue_char(s[k])
        invariant
            a <= k <= b <= s@.len(),
            t == s@.subrange(a as int, b as int),
            forall|i: int| a <= i < k ==> is_ident_char(#[trigger] s@[i]),
        decreases b - k,
    {
        k = k + 1;
    }
    proof {
        assert forall|i: int| 0 <= i < k - a implies is_ident_char(#[trigger] t[i]) by {
            assert(t[i] == s@[a + i]);
        }
        if k < b {
            assert(t[k - a] == s@[k as int]);
        }
        lemma_ident_len(t, (k - a) as nat);
        assert(t.skip(k - a) =~= s@.subrange(k as int, b as int));
        assert(t.take(k - a) =~= s@.subrange(a as int, k as int));
    }
    let (c, d) = trim_bounds(s, k, b);
    let ghost rest = s@.subrange(c as int, d as int);
    if d - c <= 1 || s[c] != '=' {
        proof {
            if d - c > 1 {
                assert(rest[0] == s@[c as int]);
            }
        }
        return None;
    }
    assert(rest[0] == s@[c as int]);
    let (f, g) = trim_bounds(s, c + 1, d);
    assert(rest.skip(1) =~= s@.subrange(c + 1, d as int));
    let (ea, eb, _h) = trimmed_before(s, f, g, '#');
    Some((a, k, ea, eb))
}

/// Whether `s[a..b]` is upper case, digits and underscores.
fn constant_name_at(s: &Vec<char>, a: usize, b: usize) -> (r: bool)
    requires
        a <= b <= s@.len(),
    ensures
        r == constant_like(s@.subrange(a as int, b as int)),
{
    let ghost name = s@.subrange(a as int, b as int);
    let mut k = a;
    while k < b
        invariant
            a <= k <= b <= s@.len(),
            name == s@.subrange(a as int, b as int),
            forall|i: int| 0 <= i < k - a ==> {
                let c = #[trigger] name[i];
                ('A' <= c && c <= 'Z') || ('0' <= c && c <= '9') || c == '_'
            },
        decreases b - k,
    {
        let c = s[k];
        assert(name[k - a] == c);
        if !(('A' <= c && c <= 'Z') || ('0' <= c && c <= '9') || c == '_') {
            return false;
        }
        k = k + 1;
    }
    true
}

/// One Python enum line `s[lo..hi]`, numbered `no`.
fn load_py_line(table: &mut SymbolTable, s: &Vec<char>, lo: usize, hi: usize, no: usize, path: &str) -> (r: Result<(), String>)
    requires
        lo <= hi <= s@.len(),
        old(table).well_formed(),
        !(py_line(old(table)@, s@.subrange(lo as int, hi as int), no as nat, path@) is Panic),
    ensures
        final(table).well_formed(),
        match py_line(old(table)@, s@.subrange(lo as int, hi as int), no as nat, path@) {
            LoadOutcome::Done(es, _) => r is Ok && final(table)@ == es,
            LoadOutcome::Failed(es, m) => r matches Err(e) && e@ == m && final(table)@ == es,
            LoadOutcome::Panic => false,
        },
{
    let (na, nb, ea, eb) = match py_assignment_at(s, lo, hi) {
        Some(x) => x,
        None => return Ok(()),
    };
    if !constant_name_at(s, na, nb) {
        return Ok(());
    }
    let name = string_of(s, na, nb);
    let expr = string_of(s, ea, eb);
    match table.eval_with_constants(expr.as_str()) {
        Some(v) => {
            table.insert_define(name, v);
            Ok(())
        },
        None => {
            let mut m = String::from_str("Failed to evaluate python enum expression '");
            push_str(&mut m, expr.as_str());
            push_str(&mut m, "' for '");
            push_str(&mut m, name.as_str());
            push_str(&mut m, "' at ");
            push_str(&mut m, path);
            push_str(&mut m, ":");
            push_dec(&mut m, no as u64);
            Err(m)
        },
    }
}

impl SymbolTable {
    /// Load a list file's text: each line a name, numbered from 0 in order
    /// (`1 << number` in a mask file), or `NAME = expr` to set the number;
    /// blank lines and comment lines are skipped, and `#` starts a comment.
    /// Errors name the file `path` and the line. The constants of the lines
    /// before a failing one stay defined.
    pub fn load_list_file_str_with_tag(&mut self, content: &str, path: &str, is_mask: bool) -> (r: Result<(), UxieError>)
        requires
            old(self).well_formed(),
            !(list_load(old(self)@, content@, path@, is_mask) is Panic),
        ensures
            final(self).well_formed(),
            match list_load(old(self)@, content@, path@, is_mask) {
                LoadOutcome::Done(es, _) => r is Ok && final(self)@ == es,
                LoadOutcome::Failed(es, m) => r matches Err(e) && invalid_data_text(e) == Some(m)
                    && final(self)@ == es,
                LoadOutcome::Panic => false,
            },
    {
        let s = chars_of(content);
        let mut pos: usize = 0;
        let mut idx: i64 = 0;
        let mut no: usize = 1;
        assert(s@.skip(0) =~= s@);
        while pos < s.len()
            invariant
                s@ == content@,
                pos <= s@.len(),
                1 <= no <= pos + 1,
                self.well_formed(),
                list_run(self@, idx, lines(s@.skip(pos as int)), no as nat, path@, is_mask)
                    == list_load(old(self)@, content@, path@, is_mask),
                !(list_load(old(self)@, content@, path@, is_mask) is Panic),
            decreases s@.len() - pos,
        {
            let (lo, hi, next) = next_line(&s, pos);
            let ghost ls = lines(s@.skip(pos as int));
            let ghost es0 = self@;
            let ghost idx0 = idx;
            assert(ls[0] == s@.subrange(lo as int, hi as int));
            assert(ls.drop_first() =~= lines(s@.skip(next as int)));
            match load_list_line(self, &s, lo, hi, idx, no, path, is_mask) {
                Ok(n) => {
                    assert(list_line(es0, idx0, ls[0], no as nat, path@, is_mask) == LoadOutcome::Done(self@, n));
                    assert(list_run(es0, idx0, ls, no as nat, path@, is_mask)
                        == list_run(self@, n, ls.drop_first(), (no + 1) as nat, path@, is_mask));
                    idx = n;
                },
                Err(m) => {
                    return Err(UxieError::invalid_data(m));
                },
            }
            if next < s.len() {
                no = no + 1;
            } else {
                assert(s@.skip(next as int) =~= Seq::<char>::empty());
                assert(lines(s@.skip(next as int)) =~= Seq::<Seq<char>>::empty());
            }
            pos = next;
        }
        assert(s@.skip(pos as int) =~= Seq::<char>::empty());
        assert(lines(s@.skip(pos as int)) =~= Seq::<Seq<char>>::empty());
        Ok(())
    }

    /// Load a list file's text as plain (not mask) numbering, named
    /// `inline.txt` in errors.
    pub fn load_list_file_str(&mut self, content: &str) -> (r: Result<(), UxieError>)
        requires
            old(self).well_formed(),
            !(list_load(old(self)@, content@, "inline.txt"@, false) is Panic),
        ensures
            final(self).well_formed(),
            match list_load(old(self)@, content@, "inline.txt"@, false) {
                LoadOutcome::Done(es, _) => r is Ok && final(self)@ == es,
                LoadOutcome::Failed(es, m) => r matches Err(e) && invalid_data_text(e) == Some(m)
                    && final(self)@ == es,
                LoadOutcome::Panic => false,
            },
    {
        self.load_list_file_str_with_tag(content, "inline.txt", false)
    }

    /// Load a Python enum module's text: each `NAME = expr` line whose name
    /// is upper case, digits and underscores defines it (a `#` starts a
    /// comment); other lines are ignored. Errors name the file `path` and
    /// the line.
    pub fn load_python_enum_str_with_tag(&mut self, content: &str, path: &str) -> (r: Result<(), UxieError>)
        requires
            old(self).well_formed(),
            !(py_load(old(self)@, content@, path@) is Panic),
        ensures
            final(self).well_formed(),
            match py_load(old(self)@, content@, path@) {
                LoadOutcome::Done(es, _) => r is Ok && final(self)@ == es,
                LoadOutcome::Failed(es, m) => r matches Err(e) && invalid_data_text(e) == Some(m)
                    && final(self)@ == es,
                LoadOutcome::Panic => false,
            },
    {
        let s = chars_of(content);
        let mut pos: usize = 0;
        let mut no: usize = 1;
        assert(s@.skip(0) =~= s@);
        while pos < s.len()
            invariant
                s@ == content@,
                pos <= s@.len(),
                1 <= no <= pos + 1,
                self.well_formed(),
                py_run(self@, lines(s@.skip(pos as int)), no as nat, path@) == py_load(old(self)@, content@, path@),
                !(py_load(old(self)@, content@, path@) is Panic),
            decreases s@.len() - pos,
        {
            let (lo, hi, next) = next_line(&s, pos);
            let ghost ls = lines(s@.skip(pos as int));
            let ghost es0 = self@;
            assert(ls[0] == s@.subrange(lo as int, hi as int));
            assert(ls.drop_first() =~= lines(s@.skip(next as int)));
            match load_py_line(self, &s, lo, hi, no, path) {
                Ok(()) => {
                    assert(py_line(es0, ls[0], no as nat, path@) matches LoadOutcome::Done(e, _) && e == self@);
                    assert(py_run(es0, ls, no as nat, path@) == py_run(self@, ls.drop_first(), (no + 1) as nat, path@));
                },
                Err(m) => {
                    return Err(UxieError::invalid_data(m));
                },
            }
            if next < s.len() {
                no = no + 1;
            } else {
                assert(s@.skip(next as int) =~= Seq::<char>::empty());
                assert(lines(s@.skip(next as int)) =~= Seq::<Seq<char>>::empty());
            }
            pos = next;
        }
        assert(s@.skip(pos as int) =~= Seq::<char>::empty());
        assert(lines(s@.skip(pos as int)) =~= Seq::<Seq<char>>::empty());
        Ok(())
    }
}

} // verus!
